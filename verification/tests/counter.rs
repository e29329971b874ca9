use arith_circuit::circuit::ConstraintSystem;
use arith_circuit::expression::{Column, Expr, Rotation, Selector};
use arith_circuit::field::Field;
use arith_circuit::pallas::PallasBase;
use arith_circuit::step::{RunError, StepCircuit, StepConfig};
use arith_circuit::synthesis::{Session, SynthesisError};
use arith_circuit::table::{Cell, Value};

fn run_of(values: &[u64]) -> StepCircuit<PallasBase> {
    let known = values.iter().map(|v| PallasBase::from_u64(*v)).collect::<Vec<_>>();
    StepCircuit::new(values.len() - 1, Value::known(known)).unwrap()
}

fn violated_rows(values: &[u64], rows: usize) -> Vec<usize> {
    let report = run_of(values).run(rows).unwrap();
    assert!(report.unevaluated.is_empty());
    report.violations.iter().map(|v| v.row).collect()
}

#[test]
fn a_run_needs_one_value_more_than_steps() {
    let values = |n: u64| Value::known((0..n).map(PallasBase::from_u64).collect::<Vec<_>>());
    assert!(StepCircuit::new(5, values(6)).is_some());
    assert!(StepCircuit::new(5, values(5)).is_none());
    assert!(StepCircuit::new(5, values(7)).is_none());
    assert!(StepCircuit::new(0, values(1)).is_some());
    assert!(StepCircuit::new(0, values(0)).is_none());
    assert!(StepCircuit::<PallasBase>::new(5, Value::unknown()).is_some());
    assert!(StepCircuit::<PallasBase>::new(usize::MAX, Value::unknown()).is_none());
    assert_eq!(StepCircuit::new(5, values(6)).unwrap().steps(), 5);
}

#[test]
fn configure_declares_one_of_each_and_the_step_gate() {
    let mut cs: ConstraintSystem<PallasBase> = ConstraintSystem::new();
    cs.declare_advice_column();
    let config = StepCircuit::configure(&mut cs);
    assert_eq!(config, StepConfig { q_enable: Selector { index: 0 }, advice: Column { index: 1 } });
    assert_eq!(cs.num_advice_columns(), 2);
    assert_eq!(cs.num_selectors(), 1);
    let gates = cs.gates();
    assert_eq!(gates.len(), 1);
    assert_eq!(gates[0].name, "step");
    assert_eq!(gates[0].selector, config.q_enable);
    assert_eq!(gates[0].constraints.len(), 1);
    // q * ((cur - next) + 1)
    let (q, body) = match &gates[0].constraints[0] {
        Expr::Product(q, body) => (&**q, &**body),
        _ => panic!("a product"),
    };
    assert!(matches!(q, Expr::Selector(Selector { index: 0 })));
    let (difference, one) = match body {
        Expr::Sum(d, one) => (&**d, &**one),
        _ => panic!("a sum"),
    };
    match one {
        Expr::Constant(c) => assert!(c.same(&PallasBase::one())),
        _ => panic!("a constant"),
    }
    match difference {
        Expr::Difference(cur, next) => {
            assert!(matches!(**cur, Expr::Advice { column: Column { index: 1 }, rotation: Rotation(0) }));
            assert!(matches!(**next, Expr::Advice { column: Column { index: 1 }, rotation: Rotation(1) }));
        }
        _ => panic!("a difference"),
    }
}

#[test]
fn synthesize_lays_the_run_out_in_one_region() {
    let mut cs: ConstraintSystem<PallasBase> = ConstraintSystem::new();
    let config = StepCircuit::configure(&mut cs);
    let mut session = Session::new(&cs, 8);
    // something above the run
    let mut above = session.begin_region("above");
    session.enable_selector(&mut above, config.q_enable, 1).unwrap();
    assert_eq!(run_of(&[4, 5, 6]).synthesize(config, &mut session), Ok(()));
    let table = session.finish().unwrap();
    for (row, expected) in [(2usize, 4u64), (3, 5), (4, 6)] {
        match table.cell(config.advice, row) {
            Cell::Known(v) => assert!(v.same(&PallasBase::from_u64(expected))),
            _ => panic!("row {} is assigned", row),
        }
    }
    assert!(matches!(table.cell(config.advice, 1), Cell::Unassigned));
    assert!(matches!(table.cell(config.advice, 5), Cell::Unassigned));
    let enabled: Vec<bool> = (0..8).map(|r| table.is_enabled(config.q_enable, r)).collect();
    assert_eq!(enabled, vec![false, true, true, true, false, false, false, false]);
}

#[test]
fn synthesize_stops_at_the_first_failure() {
    let mut cs: ConstraintSystem<PallasBase> = ConstraintSystem::new();
    let config = StepCircuit::configure(&mut cs);
    let mut session = Session::new(&cs, 2);
    assert_eq!(
        run_of(&[4, 5, 6]).synthesize(config, &mut session),
        Err(SynthesisError::NotEnoughRows { start: 0, offset: 2 })
    );
    assert!(session.has_failed());
    let mut session = Session::new(&cs, 8);
    let stranger = StepConfig { q_enable: Selector { index: 3 }, advice: config.advice };
    assert!(matches!(
        run_of(&[4, 5, 6]).synthesize(stranger, &mut session),
        Err(SynthesisError::Configuration(_))
    ));
    let mut session = Session::new(&cs, 8);
    run_of(&[1, 2]).synthesize(config, &mut session).unwrap();
    let mut again = session.begin_region("again");
    session.enable_selector(&mut again, config.q_enable, 0).unwrap();
    assert_eq!(run_of(&[1, 2]).synthesize(config, &mut session), Ok(()));
    assert_eq!(session.finish().unwrap().rows(), 8);
}

#[test]
fn six_values_in_steps_of_one_are_satisfied() {
    let report = run_of(&[1, 2, 3, 4, 5, 6]).run(6).unwrap();
    assert!(report.is_satisfied());
    assert!(report.violations.is_empty());
    assert!(report.unevaluated.is_empty());
    // a larger table changes nothing
    assert!(run_of(&[1, 2, 3, 4, 5, 6]).run(256).unwrap().is_satisfied());
}

#[test]
fn nine_in_place_of_four_breaks_rows_two_and_three() {
    let report = run_of(&[1, 2, 3, 9, 5, 6]).run(6).unwrap();
    assert!(!report.is_satisfied());
    assert_eq!(report.violations.len(), 2);
    assert_eq!((report.violations[0].gate, report.violations[0].constraint), (0, 0));
    assert_eq!(report.violations[0].name, "step");
    assert_eq!(report.violations[0].row, 2);
    // 3 - 9 + 1, that is 4 - 9
    assert!(report.violations[0].value.same(&PallasBase::from_u64(5).neg()));
    assert_eq!(report.violations[1].row, 3);
    // 9 - 5 + 1, that is 9 - 4
    assert!(report.violations[1].value.same(&PallasBase::from_u64(5)));
    assert!(report.unevaluated.is_empty());
}

#[test]
fn any_wrong_inner_value_breaks_the_two_steps_around_it() {
    let good: Vec<u64> = (10..18).collect();
    assert_eq!(violated_rows(&good, good.len()), Vec::<usize>::new());
    for at in 1..good.len() - 1 {
        for wrong in [0u64, 1, good[at] - 1, good[at] + 1, u64::MAX] {
            let mut values = good.clone();
            values[at] = wrong;
            assert_eq!(violated_rows(&values, values.len() + 3), vec![at - 1, at]);
        }
    }
}

#[test]
fn a_wrong_value_at_an_end_breaks_one_step() {
    assert_eq!(violated_rows(&[0, 2, 3, 4], 4), vec![0]);
    assert_eq!(violated_rows(&[1, 2, 3, 5], 4), vec![2]);
    assert_eq!(violated_rows(&[1, 1, 1], 3), vec![0, 1]);
    assert_eq!(violated_rows(&[5], 1), Vec::<usize>::new());
}

#[test]
fn the_counter_wraps_at_the_modulus() {
    let minus_one = PallasBase::zero().sub(&PallasBase::one());
    let run = StepCircuit::new(2, Value::known(vec![minus_one, PallasBase::zero(), PallasBase::one()])).unwrap();
    assert!(run.run(3).unwrap().is_satisfied());
    let run = StepCircuit::new(1, Value::known(vec![PallasBase::zero(), minus_one])).unwrap();
    let report = run.run(2).unwrap();
    assert_eq!(report.violations.len(), 1);
    assert!(report.violations[0].value.same(&PallasBase::from_u64(2)));
}

#[test]
fn a_table_shorter_than_the_run_fails_at_the_missing_row() {
    for rows in 0..6 {
        match run_of(&[1, 2, 3, 4, 5, 6]).run(rows) {
            Err(RunError::Synthesis(e)) => {
                assert_eq!(e, SynthesisError::NotEnoughRows { start: 0, offset: rows })
            }
            other => panic!("{} rows are too few: {:?}", rows, other.map(|r| r.violations.len())),
        }
    }
}

#[test]
fn without_witnesses_every_step_is_left_unevaluated() {
    let blank = run_of(&[1, 2, 3, 9, 5, 6]).without_witnesses();
    assert_eq!(blank.steps(), 5);
    let report = blank.run(8).unwrap();
    assert!(report.is_satisfied());
    assert!(report.violations.is_empty());
    let rows: Vec<usize> = report.unevaluated.iter().map(|u| u.row).collect();
    assert_eq!(rows, vec![0, 1, 2, 3, 4]);
    assert!(report.unevaluated.iter().all(|u| u.gate == 0 && u.constraint == 0 && u.name == "step"));
    let direct = StepCircuit::<PallasBase>::new(5, Value::unknown()).unwrap();
    assert_eq!(direct.run(8).unwrap().unevaluated.len(), 5);
    let mut cs: ConstraintSystem<PallasBase> = ConstraintSystem::new();
    let config = StepCircuit::configure(&mut cs);
    let mut session = Session::new(&cs, 6);
    blank.synthesize(config, &mut session).unwrap();
    let table = session.finish().unwrap();
    assert!((0..6).all(|r| matches!(table.cell(config.advice, r), Cell::Unknown)));
}
