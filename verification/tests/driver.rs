use foldcore::assignment::SynthesisError;
use foldcore::field::Felt;
use foldcore::fibonacci::FibonacciCircuit;
use foldcore::ivc::IVC;
use foldcore::keys::CommitmentKey;
use foldcore::keys::CurveKind;
use foldcore::keys::KeyCache;
use foldcore::params::IvcError;
use foldcore::params::new_default_pp;
use foldcore::trivial::TrivialCircuit;

const FOLD_STEP_COUNT: usize = 5;

fn setup(
    elements: usize,
    table_log: u32,
) -> (
    FibonacciCircuit,
    TrivialCircuit,
    foldcore::params::PublicParams,
) {
    let sc1 = FibonacciCircuit { elements };
    let sc2 = TrivialCircuit { width: 1 };
    let mut cache = KeyCache::new();
    let primary_key = cache.load_or_create(CurveKind::Bn256, 20);
    let secondary_key = cache.load_or_create(CurveKind::Grumpkin, 20);
    let pp = new_default_pp(
        table_log,
        &primary_key,
        &sc1,
        table_log,
        &secondary_key,
        &sc2,
    )
    .unwrap();
    (sc1, sc2, pp)
}

#[test]
fn end_to_end_five_folds_verify() {
    // Primary: recurrence circuit, arity 2, 10 elements per fold.
    // Secondary: identity circuit, arity 1.
    let (sc1, sc2, pp) = setup(10, 17);
    let primary_z0 = vec![Felt::zero(), Felt::one()];
    let secondary_z0 = vec![Felt::zero()];
    let mut ivc = IVC::new(&pp, &sc1, primary_z0, &sc2, secondary_z0).unwrap();
    for _step in 1..FOLD_STEP_COUNT {
        ivc.fold_step(&pp, &sc1, &sc2).unwrap();
    }
    ivc.verify(&pp).unwrap();
    assert_eq!(ivc.fold_count, 4);
    // After 4 folds of 10 elements each, the pair is (x40, x41).
    assert_eq!(ivc.primary_z[0].as_u64(), 102334155);
    assert_eq!(ivc.primary_z[1].as_u64(), 165580141);
    // The identity circuit leaves its vector unchanged.
    assert_eq!(ivc.secondary_z[0].as_u64(), 0);
}

#[test]
fn fold_count_advances_with_the_sequence() {
    let (sc1, sc2, pp) = setup(10, 17);
    let mut ivc = IVC::new(
        &pp,
        &sc1,
        vec![Felt::zero(), Felt::one()],
        &sc2,
        vec![Felt::new(7)],
    )
    .unwrap();
    assert_eq!(ivc.fold_count, 0);
    let expected: [(u64, u64); 3] = [(55, 89), (6765, 10946), (832040, 1346269)];
    for (k, (x, y)) in expected.iter().enumerate() {
        ivc.fold_step(&pp, &sc1, &sc2).unwrap();
        assert_eq!(ivc.fold_count as usize, k + 1);
        assert_eq!(ivc.primary_z[0].as_u64(), *x);
        assert_eq!(ivc.primary_z[1].as_u64(), *y);
        assert_eq!(ivc.secondary_z[0].as_u64(), 7);
        ivc.verify(&pp).unwrap();
    }
}

#[test]
fn undersized_commitment_key_is_rejected_at_setup() {
    let sc1 = FibonacciCircuit { elements: 10 };
    let sc2 = TrivialCircuit { width: 1 };
    let small = CommitmentKey {
        curve: CurveKind::Bn256,
        k: 16,
    };
    let ok = CommitmentKey {
        curve: CurveKind::Grumpkin,
        k: 20,
    };
    assert_eq!(
        new_default_pp(17, &small, &sc1, 17, &ok, &sc2).unwrap_err(),
        IvcError::CommitmentKeyInsufficient
    );
    assert_eq!(
        new_default_pp(17, &ok, &sc1, 17, &small, &sc2).unwrap_err(),
        IvcError::CommitmentKeyInsufficient
    );
}

#[test]
fn starting_vector_of_wrong_arity_is_rejected() {
    let (sc1, sc2, pp) = setup(10, 17);
    let r = IVC::new(&pp, &sc1, vec![Felt::zero()], &sc2, vec![Felt::zero()]);
    assert_eq!(r.err().unwrap(), IvcError::ArityMismatch);
}

#[test]
fn fold_fails_when_the_table_is_too_small() {
    // Table of 2^3 = 8 rows cannot hold the 12 rows one fold needs.
    let (sc1, sc2, pp) = setup(10, 3);
    let mut ivc = IVC::new(
        &pp,
        &sc1,
        vec![Felt::zero(), Felt::one()],
        &sc2,
        vec![Felt::zero()],
    )
    .unwrap();
    assert_eq!(
        ivc.fold_step(&pp, &sc1, &sc2).unwrap_err(),
        IvcError::Synthesis(SynthesisError::TableFull)
    );
    // The failed fold left the accumulator unchanged.
    assert_eq!(ivc.fold_count, 0);
    assert_eq!(ivc.primary_z[0].as_u64(), 0);
    assert_eq!(ivc.primary_z[1].as_u64(), 1);
}

#[test]
fn verification_rejects_a_tampered_accumulator() {
    let (sc1, sc2, pp) = setup(10, 17);
    let mut ivc = IVC::new(
        &pp,
        &sc1,
        vec![Felt::zero(), Felt::one()],
        &sc2,
        vec![Felt::zero()],
    )
    .unwrap();
    ivc.fold_step(&pp, &sc1, &sc2).unwrap();
    ivc.verify(&pp).unwrap();
    ivc.primary_z.push(Felt::zero());
    assert_eq!(ivc.verify(&pp).unwrap_err(), IvcError::VerificationFailed);
}
