use foldcore::assignment::AssignedCell;
use foldcore::assignment::Assignment;
use foldcore::assignment::SynthesisError;
use foldcore::cs::ConstraintSystem;
use foldcore::cs::CircuitConfig;
use foldcore::cs::eval;
use foldcore::cs::Column;
use foldcore::cs::Expr;
use foldcore::cs::Rotation;
use foldcore::cs::Selector;
use foldcore::field::Felt;
use foldcore::fibonacci::FibonacciCircuit;
use foldcore::step::StepCircuit;

/// A constraint system with one selector and one equality-enabled advice
/// column, gated by the recurrence polynomial `e[-2] + e[-1] - e[0]`.
fn sum_gate_system() -> (ConstraintSystem, Selector, Column) {
    let mut cs = ConstraintSystem::new();
    let s = cs.selector();
    let e = cs.advice_column();
    cs.enable_equality(e);
    let poly = Expr::Sub(
        Box::new(Expr::Add(
            Box::new(Expr::Query(e, Rotation { off: -2 })),
            Box::new(Expr::Query(e, Rotation { off: -1 })),
        )),
        Box::new(Expr::Query(e, Rotation { off: 0 })),
    );
    cs.create_gate("sum-block", s, poly);
    (cs, s, e)
}

#[test]
fn inactive_gate_accepts_arbitrary_values() {
    let (cs, _s, e) = sum_gate_system();
    let mut asg = Assignment::new(&cs, 16);
    asg.open_region();
    // These rows violate the recurrence, but no selector is enabled.
    asg.assign_advice(&cs, e, 0, Felt::new(5)).unwrap();
    asg.assign_advice(&cs, e, 1, Felt::new(7)).unwrap();
    asg.assign_advice(&cs, e, 2, Felt::new(100)).unwrap();
    assert!(asg.is_satisfied(&cs));
}

#[test]
fn active_gate_rejects_nonzero_polynomial() {
    let (cs, s, e) = sum_gate_system();
    let mut asg = Assignment::new(&cs, 16);
    asg.open_region();
    asg.assign_advice(&cs, e, 0, Felt::new(1)).unwrap();
    asg.assign_advice(&cs, e, 1, Felt::new(1)).unwrap();
    asg.assign_advice(&cs, e, 2, Felt::new(5)).unwrap();
    asg.enable_selector(&cs, s, 2).unwrap();
    assert!(!asg.is_satisfied(&cs));
}

#[test]
fn active_gate_accepts_zero_polynomial() {
    let (cs, s, e) = sum_gate_system();
    let mut asg = Assignment::new(&cs, 16);
    asg.open_region();
    asg.assign_advice(&cs, e, 0, Felt::new(1)).unwrap();
    asg.assign_advice(&cs, e, 1, Felt::new(1)).unwrap();
    asg.assign_advice(&cs, e, 2, Felt::new(2)).unwrap();
    asg.enable_selector(&cs, s, 2).unwrap();
    assert!(asg.is_satisfied(&cs));
}

#[test]
fn gate_enabled_where_rotation_leaves_grid_rejects() {
    let (cs, s, e) = sum_gate_system();
    let mut asg = Assignment::new(&cs, 16);
    asg.open_region();
    asg.assign_advice(&cs, e, 0, Felt::new(1)).unwrap();
    asg.assign_advice(&cs, e, 1, Felt::new(1)).unwrap();
    // Row 1 lacks the -2 history that this gate queries.
    asg.enable_selector(&cs, s, 1).unwrap();
    assert!(!asg.is_satisfied(&cs));
}

#[test]
fn equality_rejects_different_values() {
    let (cs, _s, e) = sum_gate_system();
    let mut asg = Assignment::new(&cs, 16);
    let outside = asg.external_cell(Felt::new(9));
    asg.open_region();
    let c0 = asg.assign_advice(&cs, e, 0, Felt::new(8)).unwrap();
    asg.constrain_equal(&cs, outside, c0).unwrap();
    assert!(!asg.is_satisfied(&cs));
}

#[test]
fn equality_neutral_for_equal_values() {
    let (cs, _s, e) = sum_gate_system();
    let mut asg = Assignment::new(&cs, 16);
    let outside = asg.external_cell(Felt::new(9));
    asg.open_region();
    let c0 = asg.assign_advice(&cs, e, 0, Felt::new(9)).unwrap();
    let c1 = asg.assign_advice(&cs, e, 1, Felt::new(9)).unwrap();
    assert!(asg.is_satisfied(&cs));
    asg.constrain_equal(&cs, outside, c0).unwrap();
    asg.constrain_equal(&cs, c0, c1).unwrap();
    assert!(asg.is_satisfied(&cs));
}

#[test]
fn equality_requires_enabled_column() {
    let mut cs = ConstraintSystem::new();
    let _s = cs.selector();
    let e = cs.advice_column();
    // Equality is never enabled on `e`.
    let mut asg = Assignment::new(&cs, 16);
    let outside = asg.external_cell(Felt::new(1));
    asg.open_region();
    let c0 = asg.assign_advice(&cs, e, 0, Felt::new(1)).unwrap();
    assert_eq!(
        asg.constrain_equal(&cs, outside, c0),
        Err(SynthesisError::EqualityNotEnabled)
    );
}

#[test]
fn region_rows_are_append_only() {
    let (cs, _s, e) = sum_gate_system();
    let mut asg = Assignment::new(&cs, 16);
    assert_eq!(
        asg.assign_advice(&cs, e, 0, Felt::zero()),
        Err(SynthesisError::RegionNotOpen)
    );
    asg.open_region();
    asg.assign_advice(&cs, e, 0, Felt::zero()).unwrap();
    // Duplicate row.
    assert_eq!(
        asg.assign_advice(&cs, e, 0, Felt::zero()),
        Err(SynthesisError::RowOutOfOrder)
    );
    // Skipped row.
    assert_eq!(
        asg.assign_advice(&cs, e, 2, Felt::zero()),
        Err(SynthesisError::RowOutOfOrder)
    );
    asg.assign_advice(&cs, e, 1, Felt::zero()).unwrap();
}

#[test]
fn capacity_and_range_errors() {
    let (cs, s, e) = sum_gate_system();
    let mut asg = Assignment::new(&cs, 1);
    asg.open_region();
    asg.assign_advice(&cs, e, 0, Felt::zero()).unwrap();
    assert_eq!(
        asg.assign_advice(&cs, e, 1, Felt::zero()),
        Err(SynthesisError::TableFull)
    );
    assert_eq!(
        asg.assign_advice(&cs, Column { idx: 7 }, 0, Felt::zero()),
        Err(SynthesisError::ColumnOutOfRange)
    );
    assert_eq!(
        asg.enable_selector(&cs, Selector { idx: 3 }, 0),
        Err(SynthesisError::SelectorOutOfRange)
    );
    assert_eq!(
        asg.enable_selector(&cs, s, 5),
        Err(SynthesisError::TableFull)
    );
    let real = asg.external_cell(Felt::zero());
    assert_eq!(
        asg.constrain_equal(&cs, real, AssignedCell { id: 99 }),
        Err(SynthesisError::InvalidCell)
    );
}

#[test]
fn polynomial_evaluation_with_constants_and_products() {
    let col = Column { idx: 0 };
    // 3 * e[0] - 6, over a single column holding [2, 5].
    let poly = Expr::Sub(
        Box::new(Expr::Mul(
            Box::new(Expr::Lit(Felt::new(3))),
            Box::new(Expr::Query(col, Rotation { off: 0 })),
        )),
        Box::new(Expr::Lit(Felt::new(6))),
    );
    let grid = vec![vec![Felt::new(2), Felt::new(5)]];
    assert_eq!(eval(&poly, &grid, 0).unwrap().as_u64(), 0);
    assert_eq!(eval(&poly, &grid, 1).unwrap().as_u64(), 9);
    // A query outside the assigned rows has no value.
    assert!(eval(&poly, &grid, 2).is_none());
    let below = Expr::Query(col, Rotation { off: -1 });
    assert!(eval(&below, &grid, 0).is_none());
    assert_eq!(eval(&below, &grid, 1).unwrap().as_u64(), 2);
}

fn fib_setup(elements: usize) -> (FibonacciCircuit, ConstraintSystem, CircuitConfig) {
    let circuit = FibonacciCircuit { elements };
    let mut cs = ConstraintSystem::new();
    let cfg = circuit.configure(&mut cs);
    (circuit, cs, cfg)
}

#[test]
fn honest_synthesis_is_accepted_and_tampering_rejected() {
    let (circuit, cs, cfg) = fib_setup(10);
    let mut asg = Assignment::new(&cs, 64);
    let a = asg.external_cell(Felt::zero());
    let b = asg.external_cell(Felt::one());
    let z_in = vec![a, b];
    circuit.synthesize_step(&cs, &cfg, &mut asg, &z_in).unwrap();
    assert!(asg.is_satisfied(&cs));
    // Alter one intermediate assigned value: the circuit must reject.
    let col = cfg.advice[0];
    asg.override_advice(col, 5, Felt::new(999)).unwrap();
    assert!(!asg.is_satisfied(&cs));
}

#[test]
fn tampering_a_seed_row_breaks_its_copy_constraint() {
    let (circuit, cs, cfg) = fib_setup(4);
    let mut asg = Assignment::new(&cs, 64);
    let a = asg.external_cell(Felt::zero());
    let b = asg.external_cell(Felt::one());
    let z_in = vec![a, b];
    circuit.synthesize_step(&cs, &cfg, &mut asg, &z_in).unwrap();
    assert!(asg.is_satisfied(&cs));
    let col = cfg.advice[0];
    asg.override_advice(col, 0, Felt::new(3)).unwrap();
    assert!(!asg.is_satisfied(&cs));
}
