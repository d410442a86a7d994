use foldcore::assignment::Assignment;
use foldcore::cs::ConstraintSystem;
use foldcore::cs::Expr;
use foldcore::field::Felt;
use foldcore::fibonacci::FibonacciCircuit;
use foldcore::step::StepCircuit;
use foldcore::trivial::TrivialCircuit;

/// Structural equality of gate polynomials.
fn same_poly(a: &Expr, b: &Expr) -> bool {
    match (a, b) {
        (Expr::Lit(x), Expr::Lit(y)) => x == y,
        (Expr::Query(c1, r1), Expr::Query(c2, r2)) => c1 == c2 && r1 == r2,
        (Expr::Add(a1, b1), Expr::Add(a2, b2)) => same_poly(a1, a2) && same_poly(b1, b2),
        (Expr::Sub(a1, b1), Expr::Sub(a2, b2)) => same_poly(a1, a2) && same_poly(b1, b2),
        (Expr::Mul(a1, b1), Expr::Mul(a2, b2)) => same_poly(a1, a2) && same_poly(b1, b2),
        _ => false,
    }
}

/// Run one synthesis of the recurrence circuit on the given seeds and return
/// the two output values.
fn run_fib(elements: usize, seed0: u64, seed1: u64) -> (u64, u64) {
    let circuit = FibonacciCircuit { elements };
    let mut cs = ConstraintSystem::new();
    let cfg = circuit.configure(&mut cs);
    let mut asg = Assignment::new(&cs, 4096);
    let a = asg.external_cell(Felt::new(seed0));
    let b = asg.external_cell(Felt::new(seed1));
    let z_in = vec![a, b];
    let z_out = circuit.synthesize_step(&cs, &cfg, &mut asg, &z_in).unwrap();
    assert!(asg.is_satisfied(&cs));
    assert_eq!(z_out.len(), 2);
    (
        asg.value_of(z_out[0]).as_u64(),
        asg.value_of(z_out[1]).as_u64(),
    )
}

#[test]
fn ten_elements_from_zero_one() {
    // Rows hold 0, 1, 1, 2, 3, 5, 8, 13, 21, 34, 55, 89; output is the last
    // two rows.
    assert_eq!(run_fib(10, 0, 1), (55, 89));
}

#[test]
fn nine_elements_from_zero_one() {
    assert_eq!(run_fib(9, 0, 1), (34, 55));
}

#[test]
fn eighteen_elements_from_zero_one() {
    assert_eq!(run_fib(18, 0, 1), (2584, 4181));
}

#[test]
fn first_twenty_sequence_values() {
    const EXPECTED: [u64; 20] = [
        0, 1, 1, 2, 3, 5, 8, 13, 21, 34, 55, 89, 144, 233, 377, 610, 987, 1597, 2584, 4181,
    ];
    let circuit = FibonacciCircuit { elements: 18 };
    let mut cs = ConstraintSystem::new();
    let cfg = circuit.configure(&mut cs);
    let mut asg = Assignment::new(&cs, 64);
    let a = asg.external_cell(Felt::zero());
    let b = asg.external_cell(Felt::one());
    let z_in = vec![a, b];
    circuit.synthesize_step(&cs, &cfg, &mut asg, &z_in).unwrap();
    let col = cfg.advice[0].idx;
    for (row, want) in EXPECTED.iter().enumerate() {
        assert_eq!(asg.cols[col][row].as_u64(), *want);
    }
}

#[test]
fn other_seeds_follow_the_recurrence() {
    // 3, 4, 7, 11, 18, 29
    assert_eq!(run_fib(4, 3, 4), (18, 29));
}

#[test]
fn zero_elements_returns_the_seeds() {
    assert_eq!(run_fib(0, 6, 9), (6, 9));
}

#[test]
fn synthesis_needs_room_for_all_rows() {
    let circuit = FibonacciCircuit { elements: 10 };
    let mut cs = ConstraintSystem::new();
    let cfg = circuit.configure(&mut cs);
    // Capacity 8 cannot hold the 12 rows the fold needs.
    let mut asg = Assignment::new(&cs, 8);
    let a = asg.external_cell(Felt::zero());
    let b = asg.external_cell(Felt::one());
    let z_in = vec![a, b];
    assert!(circuit.synthesize_step(&cs, &cfg, &mut asg, &z_in).is_err());
}

#[test]
fn configure_twice_yields_equivalent_configurations() {
    let circuit = FibonacciCircuit { elements: 10 };
    let mut cs1 = ConstraintSystem::new();
    let cfg1 = circuit.configure(&mut cs1);
    let mut cs2 = ConstraintSystem::new();
    let cfg2 = circuit.configure(&mut cs2);
    assert_eq!(cfg1.selectors, cfg2.selectors);
    assert_eq!(cfg1.advice, cfg2.advice);
    assert_eq!(cs1.num_selectors, cs2.num_selectors);
    assert_eq!(cs1.eq_enabled, cs2.eq_enabled);
    assert_eq!(cs1.gates.len(), cs2.gates.len());
    assert_eq!(cs1.gates[0].name, cs2.gates[0].name);
    assert_eq!(cs1.gates[0].selector, cs2.gates[0].selector);
    assert!(same_poly(&cs1.gates[0].poly, &cs2.gates[0].poly));
}

#[test]
fn reusing_either_configuration_accepts_the_same_assignment() {
    let circuit = FibonacciCircuit { elements: 6 };
    let mut cs1 = ConstraintSystem::new();
    let cfg1 = circuit.configure(&mut cs1);
    let mut cs2 = ConstraintSystem::new();
    let cfg2 = circuit.configure(&mut cs2);
    for (cs, cfg) in [(cs1, cfg1), (cs2, cfg2)] {
        let mut asg = Assignment::new(&cs, 64);
        let a = asg.external_cell(Felt::new(1));
        let b = asg.external_cell(Felt::new(1));
        let z_in = vec![a, b];
        let z_out = circuit.synthesize_step(&cs, &cfg, &mut asg, &z_in).unwrap();
        assert!(asg.is_satisfied(&cs));
        assert_eq!(asg.value_of(z_out[0]).as_u64(), 13);
        assert_eq!(asg.value_of(z_out[1]).as_u64(), 21);
    }
}

#[test]
fn identity_circuit_returns_inputs_and_adds_no_constraints() {
    let circuit = TrivialCircuit { width: 3 };
    let mut cs = ConstraintSystem::new();
    let cfg = circuit.configure(&mut cs);
    let mut asg = Assignment::new(&cs, 16);
    let a = asg.external_cell(Felt::new(4));
    let b = asg.external_cell(Felt::new(5));
    let c = asg.external_cell(Felt::new(6));
    let z_in = vec![a, b, c];
    let z_out = circuit.synthesize_step(&cs, &cfg, &mut asg, &z_in).unwrap();
    assert_eq!(z_out, z_in);
    assert_eq!(asg.copies.len(), 0);
    assert_eq!(asg.slots.len(), 3);
    assert!(asg.is_satisfied(&cs));
    assert_eq!(asg.value_of(z_out[0]).as_u64(), 4);
    assert_eq!(asg.value_of(z_out[1]).as_u64(), 5);
    assert_eq!(asg.value_of(z_out[2]).as_u64(), 6);
}

#[test]
fn identity_circuit_of_width_zero() {
    let circuit = TrivialCircuit { width: 0 };
    assert_eq!(circuit.arity(), 0);
    let mut cs = ConstraintSystem::new();
    let cfg = circuit.configure(&mut cs);
    let mut asg = Assignment::new(&cs, 4);
    let z_in: Vec<foldcore::assignment::AssignedCell> = vec![];
    let z_out = circuit.synthesize_step(&cs, &cfg, &mut asg, &z_in).unwrap();
    assert!(z_out.is_empty());
    assert!(asg.is_satisfied(&cs));
}
