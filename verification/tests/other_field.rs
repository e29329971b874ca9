use arith_circuit::circuit::ConstraintSystem;
use arith_circuit::expression::{Expr, Rotation};
use arith_circuit::field::Field;
use arith_circuit::mersenne::{Mersenne61, MERSENNE61};
use arith_circuit::pallas::PallasBase;
use arith_circuit::step::StepCircuit;
use arith_circuit::synthesis::Session;
use arith_circuit::table::Value;
use arith_circuit::verdict::verify;

fn fe(x: u64) -> Mersenne61 {
    Mersenne61::from_u64(x)
}

#[test]
fn the_small_field_reduces_what_it_is_given() {
    assert_eq!(MERSENNE61, (1u64 << 61) - 1);
    assert_eq!(fe(5).to_u64(), 5);
    assert_eq!(fe(MERSENNE61).to_u64(), 0);
    assert_eq!(fe(MERSENNE61 + 9).to_u64(), 9);
    assert_eq!(fe(u64::MAX).to_u64(), 7);
    assert_eq!(Mersenne61::zero().to_u64(), 0);
    assert_eq!(Mersenne61::one().to_u64(), 1);
}

#[test]
fn the_small_field_adds_and_subtracts_around_the_modulus() {
    let top = fe(MERSENNE61 - 1);
    assert_eq!(top.add(&fe(1)).to_u64(), 0);
    assert_eq!(top.add(&top).to_u64(), MERSENNE61 - 2);
    assert_eq!(fe(3).add(&fe(4)).to_u64(), 7);
    assert_eq!(fe(3).sub(&fe(4)).to_u64(), MERSENNE61 - 1);
    assert_eq!(fe(4).sub(&fe(3)).to_u64(), 1);
    assert_eq!(fe(0).sub(&top).to_u64(), 1);
    assert_eq!(fe(0).neg().to_u64(), 0);
    assert_eq!(fe(1).neg().to_u64(), MERSENNE61 - 1);
    assert_eq!(top.neg().to_u64(), 1);
}

#[test]
fn the_small_field_multiplies_without_overflow() {
    let top = fe(MERSENNE61 - 1);
    assert_eq!(fe(6).mul(&fe(7)).to_u64(), 42);
    assert_eq!(top.mul(&top).to_u64(), 1);
    assert_eq!(top.mul(&fe(2)).to_u64(), MERSENNE61 - 2);
    // 2^31 * 2^31 = 2^62 = 2 * (2^61 - 1) + 2
    assert_eq!(fe(1 << 31).mul(&fe(1 << 31)).to_u64(), 2);
    assert_eq!(fe(123_456_789_012).mul(&fe(0)).to_u64(), 0);
    // checked against wide integers
    let (a, b) = (1_234_567_890_123_456_789u64, 987_654_321_987_654_321u64);
    let expected = ((a as u128 * b as u128) % MERSENNE61 as u128) as u64;
    assert_eq!(fe(a).mul(&fe(b)).to_u64(), expected);
    assert!(fe(9).same(&fe(MERSENNE61 + 9)));
    assert!(!fe(9).same(&fe(10)));
}

#[test]
fn the_counter_runs_over_the_small_field_too() {
    let run = |values: &[u64]| {
        let known = values.iter().map(|v| fe(*v)).collect::<Vec<_>>();
        let report = StepCircuit::new(values.len() - 1, Value::known(known)).unwrap().run(16).unwrap();
        report.violations.iter().map(|v| (v.row, v.value.to_u64())).collect::<Vec<_>>()
    };
    assert_eq!(run(&[1, 2, 3, 4, 5, 6]), vec![]);
    // 3 - 9 + 1 and 9 - 5 + 1
    assert_eq!(run(&[1, 2, 3, 9, 5, 6]), vec![(2, MERSENNE61 - 5), (3, 5)]);
    // the counter wraps where this field does
    assert_eq!(run(&[MERSENNE61 - 2, MERSENNE61 - 1, 0, 1]), vec![]);
    assert_eq!(run(&[MERSENNE61 - 1, MERSENNE61]), vec![]);
    assert_eq!(run(&[MERSENNE61 - 1, 1]), vec![(0, MERSENNE61 - 1)]);
}

/// The number of violations of "next = cur * cur + 2" down one column.
fn squares<F: Field>(values: Vec<F>, two: F) -> usize {
    let mut cs: ConstraintSystem<F> = ConstraintSystem::new();
    let s = cs.declare_selector();
    let a = cs.declare_advice_column();
    let cur = || Expr::Advice { column: a, rotation: Rotation::cur() };
    let next = Expr::Advice { column: a, rotation: Rotation::next() };
    cs.create_gate("square", s, vec![cur().mul(cur()).add(Expr::constant(two)).sub(next)]).unwrap();
    let mut session = Session::new(&cs, values.len());
    let mut region = session.begin_region("squares");
    for (i, v) in values.iter().enumerate() {
        session.assign_advice(&mut region, a, i, Value::known(*v)).unwrap();
        if i + 1 < values.len() {
            session.enable_selector(&mut region, s, i).unwrap();
        }
    }
    let table = session.finish().unwrap();
    verify(&table, &cs).unwrap().violations.len()
}

#[test]
fn one_definition_serves_both_fields() {
    let chain = [1u64, 3, 11, 123, 15131];
    assert_eq!(squares(chain.iter().map(|v| fe(*v)).collect(), fe(2)), 0);
    assert_eq!(squares(chain.iter().map(|v| PallasBase::from_u64(*v)).collect(), PallasBase::from_u64(2)), 0);
    // 2^31 squared plus 2 is 4 in the small field and 2^62 + 2 in the large one
    let wrap = [1u64 << 31, 4];
    assert_eq!(squares(wrap.iter().map(|v| fe(*v)).collect(), fe(2)), 0);
    assert_eq!(squares(wrap.iter().map(|v| PallasBase::from_u64(*v)).collect(), PallasBase::from_u64(2)), 1);
}
