use arith_circuit::circuit::{ConfigurationError, ConstraintSystem};
use arith_circuit::expression::{Column, Selector};
use arith_circuit::field::Field;
use arith_circuit::pallas::PallasBase;
use arith_circuit::synthesis::{CellRef, Session, SynthesisError};
use arith_circuit::table::{Cell, Table, Value};

fn two_by_two() -> (ConstraintSystem<PallasBase>, Column, Column, Selector, Selector) {
    let mut cs = ConstraintSystem::new();
    let a = cs.declare_advice_column();
    let b = cs.declare_advice_column();
    let s = cs.declare_selector();
    let t = cs.declare_selector();
    (cs, a, b, s, t)
}

fn known(x: u64) -> Value<PallasBase> {
    Value::known(PallasBase::from_u64(x))
}

fn holds(table: &Table<PallasBase>, column: Column, row: usize, x: u64) -> bool {
    match table.cell(column, row) {
        Cell::Known(v) => v.same(&PallasBase::from_u64(x)),
        _ => false,
    }
}

#[test]
fn a_new_table_is_empty() {
    let table: Table<PallasBase> = Table::new(2, 1, 3);
    assert_eq!(table.rows(), 3);
    assert_eq!(table.columns(), 2);
    assert_eq!(table.selectors(), 1);
    for c in 0..3 {
        for r in 0..4 {
            assert!(matches!(table.cell(Column { index: c }, r), Cell::Unassigned));
            assert!(!table.is_enabled(Selector { index: c }, r));
        }
    }
}

#[test]
fn values_are_kept_where_they_were_written() {
    let (cs, a, b, s, t) = two_by_two();
    let mut session = Session::new(&cs, 4);
    let mut region = session.begin_region("first");
    assert_eq!(region.name(), "first");
    assert_eq!(region.start(), None);
    assert_eq!(session.assign_advice(&mut region, a, 1, known(11)), Ok(CellRef { column: a, row: 1 }));
    assert_eq!(region.start(), Some(0));
    assert_eq!(session.assign_advice(&mut region, b, 0, known(20)), Ok(CellRef { column: b, row: 0 }));
    assert_eq!(session.assign_advice(&mut region, a, 0, Value::unknown()), Ok(CellRef { column: a, row: 0 }));
    assert_eq!(session.enable_selector(&mut region, t, 3), Ok(()));
    assert!(!session.has_failed());
    let table = session.finish().unwrap();
    assert!(holds(&table, a, 1, 11));
    assert!(holds(&table, b, 0, 20));
    assert!(matches!(table.cell(a, 0), Cell::Unknown));
    assert!(matches!(table.cell(b, 1), Cell::Unassigned));
    assert!(matches!(table.cell(a, 2), Cell::Unassigned));
    assert!(table.is_enabled(t, 3));
    assert!(!table.is_enabled(t, 2));
    assert!(!table.is_enabled(s, 3));
}

#[test]
fn regions_are_stacked_below_each_other() {
    let (cs, a, b, s, _) = two_by_two();
    let mut session = Session::new(&cs, 10);
    let mut first = session.begin_region("first");
    // the window starts where the first write finds the pass, not at the offset
    assert_eq!(session.assign_advice(&mut first, a, 2, known(1)), Ok(CellRef { column: a, row: 2 }));
    assert_eq!(first.start(), Some(0));
    let mut second = session.begin_region("second");
    assert_eq!(second.start(), None);
    assert_eq!(session.enable_selector(&mut second, s, 1), Ok(()));
    assert_eq!(second.start(), Some(3));
    assert_eq!(session.assign_advice(&mut second, b, 0, known(2)), Ok(CellRef { column: b, row: 3 }));
    // the first region still addresses its own window
    assert_eq!(session.assign_advice(&mut first, a, 1, known(3)), Ok(CellRef { column: a, row: 1 }));
    let mut third = session.begin_region("third");
    assert_eq!(session.assign_advice(&mut third, a, 0, known(4)), Ok(CellRef { column: a, row: 5 }));
    let table = session.finish().unwrap();
    assert!(table.is_enabled(s, 4));
    assert!(holds(&table, a, 2, 1));
    assert!(holds(&table, b, 3, 2));
    assert!(holds(&table, a, 1, 3));
    assert!(holds(&table, a, 5, 4));
}

#[test]
fn a_second_assignment_fails_even_with_the_same_value() {
    let (cs, a, _, _, _) = two_by_two();
    let mut session = Session::new(&cs, 4);
    let mut region = session.begin_region("r");
    session.assign_advice(&mut region, a, 2, known(7)).unwrap();
    assert_eq!(
        session.assign_advice(&mut region, a, 2, known(7)),
        Err(SynthesisError::DoubleAssignment(CellRef { column: a, row: 2 }))
    );
    assert!(session.has_failed());
}

#[test]
fn a_second_assignment_fails_with_another_value() {
    let (cs, a, _, _, _) = two_by_two();
    let mut session = Session::new(&cs, 4);
    let mut region = session.begin_region("r");
    session.assign_advice(&mut region, a, 0, known(7)).unwrap();
    assert_eq!(
        session.assign_advice(&mut region, a, 0, known(8)),
        Err(SynthesisError::DoubleAssignment(CellRef { column: a, row: 0 }))
    );
}

#[test]
fn an_unknown_value_counts_as_an_assignment() {
    let (cs, a, _, _, _) = two_by_two();
    let mut session = Session::new(&cs, 4);
    let mut region = session.begin_region("r");
    session.assign_advice(&mut region, a, 1, Value::unknown()).unwrap();
    assert_eq!(
        session.assign_advice(&mut region, a, 1, known(1)),
        Err(SynthesisError::DoubleAssignment(CellRef { column: a, row: 1 }))
    );
}

#[test]
fn a_cell_reached_through_two_regions_is_still_one_cell() {
    let (cs, a, _, s, _) = two_by_two();
    let mut session = Session::new(&cs, 6);
    let mut first = session.begin_region("first");
    session.enable_selector(&mut first, s, 0).unwrap();
    let mut second = session.begin_region("second");
    session.assign_advice(&mut second, a, 0, known(5)).unwrap();
    // row 1 is offset 1 of the first region and offset 0 of the second
    assert_eq!(
        session.assign_advice(&mut first, a, 1, known(6)),
        Err(SynthesisError::DoubleAssignment(CellRef { column: a, row: 1 }))
    );
}

#[test]
fn a_failed_pass_hands_out_no_table() {
    let (cs, a, b, s, _) = two_by_two();
    let mut session = Session::new(&cs, 4);
    let mut region = session.begin_region("r");
    session.assign_advice(&mut region, a, 0, known(1)).unwrap();
    assert!(session.assign_advice(&mut region, a, 0, known(1)).is_err());
    assert_eq!(session.assign_advice(&mut region, b, 0, known(2)), Err(SynthesisError::Aborted));
    assert_eq!(session.enable_selector(&mut region, s, 0), Err(SynthesisError::Aborted));
    assert!(session.has_failed());
    assert!(matches!(session.finish(), Err(SynthesisError::Aborted)));
}

#[test]
fn a_row_below_the_table_is_refused() {
    let (cs, a, _, s, _) = two_by_two();
    let mut session = Session::new(&cs, 3);
    let mut region = session.begin_region("r");
    session.assign_advice(&mut region, a, 2, known(1)).unwrap();
    assert_eq!(
        session.assign_advice(&mut region, a, 3, known(1)),
        Err(SynthesisError::NotEnoughRows { start: 0, offset: 3 })
    );
    let mut session = Session::new(&cs, 3);
    let mut first = session.begin_region("first");
    session.enable_selector(&mut first, s, 1).unwrap();
    let mut second = session.begin_region("second");
    assert_eq!(
        session.enable_selector(&mut second, s, 1),
        Err(SynthesisError::NotEnoughRows { start: 2, offset: 1 })
    );
    assert_eq!(second.start(), None);
    let mut session = Session::new(&cs, 3);
    let mut region = session.begin_region("r");
    assert_eq!(
        session.assign_advice(&mut region, a, usize::MAX, known(1)),
        Err(SynthesisError::NotEnoughRows { start: 0, offset: usize::MAX })
    );
    let mut session = Session::new(&cs, 0);
    let mut region = session.begin_region("r");
    assert_eq!(
        session.enable_selector(&mut region, s, 0),
        Err(SynthesisError::NotEnoughRows { start: 0, offset: 0 })
    );
}

#[test]
fn an_offset_that_overflows_is_refused() {
    let (cs, a, _, _, _) = two_by_two();
    let mut session = Session::new(&cs, 3);
    let mut first = session.begin_region("first");
    session.assign_advice(&mut first, a, 1, known(1)).unwrap();
    let mut second = session.begin_region("second");
    session.assign_advice(&mut second, a, 0, known(1)).unwrap();
    assert_eq!(second.start(), Some(2));
    assert_eq!(
        session.assign_advice(&mut second, a, usize::MAX, known(1)),
        Err(SynthesisError::NotEnoughRows { start: 2, offset: usize::MAX })
    );
}

#[test]
fn a_column_of_another_circuit_is_refused() {
    let (cs, _, _, _, _) = two_by_two();
    let mut session = Session::new(&cs, 3);
    let mut region = session.begin_region("r");
    let stranger = Column { index: 2 };
    assert_eq!(
        session.assign_advice(&mut region, stranger, 0, known(1)),
        Err(SynthesisError::Configuration(ConfigurationError::UnknownColumn(stranger)))
    );
    assert!(session.has_failed());
}

#[test]
fn a_selector_of_another_circuit_is_refused() {
    let (cs, _, _, _, _) = two_by_two();
    let mut session = Session::new(&cs, 3);
    let mut region = session.begin_region("r");
    let stranger = Selector { index: 2 };
    assert_eq!(
        session.enable_selector(&mut region, stranger, 0),
        Err(SynthesisError::Configuration(ConfigurationError::UnknownSelector(stranger)))
    );
    assert!(session.finish().is_err());
}

#[test]
fn enabling_twice_changes_nothing() {
    let (cs, _, _, s, _) = two_by_two();
    let mut session = Session::new(&cs, 3);
    let mut region = session.begin_region("r");
    assert_eq!(session.enable_selector(&mut region, s, 1), Ok(()));
    assert_eq!(session.enable_selector(&mut region, s, 1), Ok(()));
    let table = session.finish().unwrap();
    assert!(table.is_enabled(s, 1));
    assert!(!table.is_enabled(s, 0));
}

#[test]
fn values_can_be_told_from_unknowns() {
    assert!(known(3).is_known());
    assert!(!Value::<PallasBase>::unknown().is_known());
    assert!(matches!(Value::known(5u8), Value::Known(5)));
}
