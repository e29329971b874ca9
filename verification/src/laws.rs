//! What holds of every circuit, every table and every synthesis pass.

use vstd::prelude::*;
use crate::circuit::{CircuitModel, GateModel};
use crate::evaluation::{evaluate, lemma_reads_outside, reads_at, Outcome};
use crate::expression::{Column, Rotation, Selector};
use crate::field::Field;
use crate::synthesis::{CellRef, SessionModel, SynthesisError};
use crate::table::{CellModel, TableModel};
use crate::verdict::{
    examine, examine_gate, examine_gates, examine_row, lemma_examine_gate_stops,
    lemma_examine_gates_stops, lemma_examine_row_stops, result_model, OutOfBounds,
    OutOfBoundsModel, Report, ReportModel, UnevaluatedModel, ViolationModel,
};

verus! {

/// A gate that is enabled nowhere among the first `upto` rows leaves the
/// report as it was.
proof fn lemma_gate_switched_off(
    gate: GateModel,
    g: nat,
    t: TableModel,
    m: nat,
    upto: nat,
    report: ReportModel,
)
    requires
        forall|r: int| 0 <= r < upto ==> !t.enabled(gate.selector, r),
    ensures
        examine_gate(gate, g, t, m, upto, report) == Ok::<ReportModel, OutOfBoundsModel>(report),
    decreases upto,
{
    if upto > 0 {
        lemma_gate_switched_off(gate, g, t, m, (upto - 1) as nat, report);
    }
}

/// Gates that are enabled nowhere record nothing.
proof fn lemma_gates_switched_off(c: CircuitModel, t: TableModel, m: nat, upto: nat)
    requires
        upto <= c.gates.len(),
        forall|g: int, r: int|
            0 <= g < c.gates.len() && 0 <= r < t.rows ==> !#[trigger] t.enabled(
                c.gates[g].selector,
                r,
            ),
    ensures
        examine_gates(c, t, m, upto) == Ok::<ReportModel, OutOfBoundsModel>(ReportModel::empty()),
    decreases upto,
{
    if upto > 0 {
        lemma_gates_switched_off(c, t, m, (upto - 1) as nat);
        lemma_gate_switched_off(
            c.gates[upto - 1],
            (upto - 1) as nat,
            t,
            m,
            t.rows,
            ReportModel::empty(),
        );
    }
}

/// Where no gate is enabled at any row, the table satisfies the circuit,
/// whatever its cells hold: nothing is violated, and nothing is left
/// unevaluated or out of bounds.
pub proof fn lemma_nothing_enabled(c: CircuitModel, t: TableModel, m: nat)
    requires
        forall|g: int, r: int|
            0 <= g < c.gates.len() && 0 <= r < t.rows ==> !#[trigger] t.enabled(
                c.gates[g].selector,
                r,
            ),
    ensures
        examine(c, t, m) == Ok::<ReportModel, OutOfBoundsModel>(ReportModel::empty()),
{
    lemma_gates_switched_off(c, t, m, c.gates.len());
}

/// Where a gate is enabled at a row from which one of its constraints
/// reads a row outside the table, the examination fails as out of bounds,
/// whatever the other rows and gates are like.
pub proof fn lemma_enabled_outside(
    c: CircuitModel,
    t: TableModel,
    m: nat,
    g: int,
    j: int,
    row: int,
    rotation: Rotation,
)
    requires
        0 <= g < c.gates.len(),
        0 <= j < c.gates[g].constraints.len(),
        0 <= row < t.rows,
        t.enabled(c.gates[g].selector, row),
        reads_at(c.gates[g].constraints[j], rotation),
        !(0 <= row + rotation.0 < t.rows),
    ensures
        examine(c, t, m) is Err,
{
    let gate = c.gates[g];
    lemma_reads_outside(gate.constraints[j], t, row, m, rotation);
    match examine_gates(c, t, m, g as nat) {
        Ok(before_gate) => {
            match examine_gate(gate, g as nat, t, m, row as nat, before_gate) {
                Ok(before_row) => {
                    assert(examine_row(gate, g as nat, t, m, row as nat, (j + 1) as nat, before_row)
                        is Err);
                    lemma_examine_row_stops(
                        gate,
                        g as nat,
                        t,
                        m,
                        row as nat,
                        (j + 1) as nat,
                        gate.constraints.len(),
                        before_row,
                    );
                    assert(examine_gate(gate, g as nat, t, m, (row + 1) as nat, before_gate) is Err);
                },
                Err(_) => {
                    lemma_examine_gate_stops(
                        gate,
                        g as nat,
                        t,
                        m,
                        row as nat,
                        (row + 1) as nat,
                        before_gate,
                    );
                },
            }
            lemma_examine_gate_stops(gate, g as nat, t, m, (row + 1) as nat, t.rows, before_gate);
            assert(examine_gates(c, t, m, (g + 1) as nat) is Err);
        },
        Err(_) => {
            lemma_examine_gates_stops(c, t, m, g as nat, (g + 1) as nat);
        },
    }
    lemma_examine_gates_stops(c, t, m, (g + 1) as nat, c.gates.len());
}

/// Holding a table against a circuit is a function of the two: whenever
/// it is done again, on the same table and circuit or on others with the
/// same contents, it comes to the same report or the same error.
pub proof fn lemma_verify_repeats<F: Field>(
    first: Result<Report<F>, OutOfBounds>,
    second: Result<Report<F>, OutOfBounds>,
    c: CircuitModel,
    t: TableModel,
)
    requires
        result_model(first) == examine(c, t, F::modulus()),
        result_model(second) == examine(c, t, F::modulus()),
    ensures
        result_model(first) == result_model(second),
{
}

/// A successful assignment leaves its cell holding what was assigned.
pub proof fn lemma_assigned_after_assign(
    s: SessionModel,
    window: Option<usize>,
    column: Column,
    offset: usize,
    cell: CellModel,
)
    requires
        s.table.rectangular(),
        s.assign_result(window, column, offset) is Ok,
    ensures
        s.assign(window, column, offset, cell).table.rectangular(),
        s.assign(window, column, offset, cell).table.cell(
            column,
            s.window_start(window) + offset,
        ) == cell,
{
}

/// Assigning the same cell twice in one pass fails as a double
/// assignment that names the cell, whatever the two values are and through
/// whichever regions the cell was addressed.
pub proof fn lemma_double_assignment(
    s: SessionModel,
    first_window: Option<usize>,
    second_window: Option<usize>,
    column: Column,
    first_offset: usize,
    second_offset: usize,
    first: CellModel,
    second: CellModel,
)
    requires
        s.table.rectangular(),
        !(first is Unassigned),
        s.assign_result(first_window, column, first_offset) is Ok,
        s.assign(first_window, column, first_offset, first).window_start(second_window)
            + second_offset == s.window_start(first_window) + first_offset,
    ensures
        s.assign(first_window, column, first_offset, first).assign_result(
            second_window,
            column,
            second_offset,
        ) == Err::<CellRef, SynthesisError>(
            SynthesisError::DoubleAssignment(
                s.assign_result(first_window, column, first_offset)->Ok_0,
            ),
        ),
{
}

/// A cell is written once: whatever a pass does next, a cell that has
/// been assigned keeps what it holds, and a selector that has been enabled
/// stays enabled.
pub proof fn lemma_written_once(
    s: SessionModel,
    window: Option<usize>,
    column: Column,
    selector: Selector,
    offset: usize,
    cell: CellModel,
    held_column: Column,
    held_selector: Selector,
    row: int,
)
    requires
        s.table.rectangular(),
    ensures
        !(s.table.cell(held_column, row) is Unassigned) ==> s.assign(
            window,
            column,
            offset,
            cell,
        ).table.cell(held_column, row) == s.table.cell(held_column, row) && s.enable(
            window,
            selector,
            offset,
        ).table.cell(held_column, row) == s.table.cell(held_column, row),
        s.table.enabled(held_selector, row) ==> s.assign(window, column, offset, cell).table.enabled(
            held_selector,
            row,
        ) && s.enable(window, selector, offset).table.enabled(held_selector, row),
        s.assign(window, column, offset, cell).table.rectangular(),
        s.enable(window, selector, offset).table.rectangular(),
{
}

/// Whether constraint `j` of gate `g` is evaluated at `row`: the row is in
/// the table, and the selector of that gate is enabled there.
pub open spec fn examined(c: CircuitModel, t: TableModel, g: int, row: int, j: int) -> bool {
    &&& 0 <= g < c.gates.len()
    &&& 0 <= row < t.rows
    &&& 0 <= j < c.gates[g].constraints.len()
    &&& t.enabled(c.gates[g].selector, row)
}

/// What constraint `j` of gate `g` comes to at `row`.
pub open spec fn outcome_at(c: CircuitModel, t: TableModel, m: nat, g: int, row: int, j: int) -> Outcome {
    evaluate(c.gates[g].constraints[j], t, row, m)
}

/// Whether the first place comes before the second in the order of the
/// examination: gate by gate, row by row, constraint by constraint.
pub open spec fn before(g: int, row: int, j: int, gate: int, at_row: int, at: int) -> bool {
    g < gate || (g == gate && (row < at_row || (row == at_row && j < at)))
}

/// The entry for a violation of constraint `j` of gate `g` at `row`.
pub open spec fn violation_at(c: CircuitModel, g: int, row: int, j: int, value: nat) -> ViolationModel {
    ViolationModel {
        gate: g as nat,
        name: c.gates[g].name,
        constraint: j as nat,
        row: row as nat,
        value,
    }
}

/// The entry for constraint `j` of gate `g` left unevaluated at `row`.
pub open spec fn unevaluated_at(c: CircuitModel, g: int, row: int, j: int) -> UnevaluatedModel {
    UnevaluatedModel {
        gate: g as nat,
        name: c.gates[g].name,
        constraint: j as nat,
        row: row as nat,
    }
}

/// Whether the entry stands for an evaluated constraint, before the given
/// place, that came to the value it names, and that value is not zero.
pub open spec fn violation_justified(
    v: ViolationModel,
    c: CircuitModel,
    t: TableModel,
    m: nat,
    gate: int,
    at_row: int,
    at: int,
) -> bool {
    &&& examined(c, t, v.gate as int, v.row as int, v.constraint as int)
    &&& before(v.gate as int, v.row as int, v.constraint as int, gate, at_row, at)
    &&& v.value != 0
    &&& outcome_at(c, t, m, v.gate as int, v.row as int, v.constraint as int) == Outcome::Value(
        v.value,
    )
    &&& v.name == c.gates[v.gate as int].name
}

/// Whether the entry stands for an evaluated constraint, before the given
/// place, that read a cell without a known value.
pub open spec fn unevaluated_justified(
    u: UnevaluatedModel,
    c: CircuitModel,
    t: TableModel,
    m: nat,
    gate: int,
    at_row: int,
    at: int,
) -> bool {
    &&& examined(c, t, u.gate as int, u.row as int, u.constraint as int)
    &&& before(u.gate as int, u.row as int, u.constraint as int, gate, at_row, at)
    &&& outcome_at(c, t, m, u.gate as int, u.row as int, u.constraint as int) is Unknown
    &&& u.name == c.gates[u.gate as int].name
}

/// Whether the report says what constraint `j` of gate `g` came to at
/// `row`: nothing for zero, an entry for anything else.
pub open spec fn accounted(
    report: ReportModel,
    c: CircuitModel,
    t: TableModel,
    m: nat,
    g: int,
    row: int,
    j: int,
) -> bool {
    match outcome_at(c, t, m, g, row, j) {
        Outcome::Value(x) => x == 0 || report.violations.contains(violation_at(c, g, row, j, x)),
        Outcome::Unknown => report.unevaluated.contains(unevaluated_at(c, g, row, j)),
        Outcome::OutOfBounds(_) => false,
    }
}

/// Whether `report` is the exact record of the examination up to, and
/// without, the given place: each entry is justified, each constraint that
/// was evaluated is accounted for, none of them read outside the table,
/// and the entries stand in the order of the examination.
pub open spec fn exact_upto(
    report: ReportModel,
    c: CircuitModel,
    t: TableModel,
    m: nat,
    gate: int,
    at_row: int,
    at: int,
) -> bool {
    &&& forall|i: int|
        0 <= i < report.violations.len() ==> violation_justified(
            #[trigger] report.violations[i],
            c,
            t,
            m,
            gate,
            at_row,
            at,
        )
    &&& forall|i: int|
        0 <= i < report.unevaluated.len() ==> unevaluated_justified(
            #[trigger] report.unevaluated[i],
            c,
            t,
            m,
            gate,
            at_row,
            at,
        )
    &&& forall|g: int, row: int, j: int| #[trigger]
        examined(c, t, g, row, j) && before(g, row, j, gate, at_row, at) ==> accounted(
            report,
            c,
            t,
            m,
            g,
            row,
            j,
        )
    &&& forall|i: int, k: int|
        0 <= i < k < report.violations.len() ==> before(
            (#[trigger] report.violations[i]).gate as int,
            report.violations[i].row as int,
            report.violations[i].constraint as int,
            (#[trigger] report.violations[k]).gate as int,
            report.violations[k].row as int,
            report.violations[k].constraint as int,
        )
    &&& forall|i: int, k: int|
        0 <= i < k < report.unevaluated.len() ==> before(
            (#[trigger] report.unevaluated[i]).gate as int,
            report.unevaluated[i].row as int,
            report.unevaluated[i].constraint as int,
            (#[trigger] report.unevaluated[k]).gate as int,
            report.unevaluated[k].row as int,
            report.unevaluated[k].constraint as int,
        )
}

/// Whether `report` is the exact record of the whole examination.
pub open spec fn exact(report: ReportModel, c: CircuitModel, t: TableModel, m: nat) -> bool {
    exact_upto(report, c, t, m, c.gates.len() as int, 0, 0)
}

/// Whether `e` names the first evaluated constraint, in the order of the
/// examination, that reads a row outside the table.
pub open spec fn first_outside(e: OutOfBoundsModel, c: CircuitModel, t: TableModel, m: nat) -> bool {
    &&& examined(c, t, e.gate as int, e.row as int, e.constraint as int)
    &&& outcome_at(c, t, m, e.gate as int, e.row as int, e.constraint as int)
        == Outcome::OutOfBounds(e.rotation)
    &&& e.name == c.gates[e.gate as int].name
    &&& forall|g: int, row: int, j: int| #[trigger]
        examined(c, t, g, row, j) && before(
            g,
            row,
            j,
            e.gate as int,
            e.row as int,
            e.constraint as int,
        ) ==> !(outcome_at(c, t, m, g, row, j) is OutOfBounds)
}

/// What a finished or failed part of the examination must be like.
spec fn exact_result(
    r: Result<ReportModel, OutOfBoundsModel>,
    c: CircuitModel,
    t: TableModel,
    m: nat,
    gate: int,
    at_row: int,
    at: int,
) -> bool {
    match r {
        Ok(report) => exact_upto(report, c, t, m, gate, at_row, at),
        Err(e) => first_outside(e, c, t, m),
    }
}

/// The record stays exact while the constraints of one row are evaluated.
proof fn lemma_exact_row(
    c: CircuitModel,
    t: TableModel,
    m: nat,
    g: int,
    row: int,
    upto: nat,
    report: ReportModel,
)
    requires
        0 <= g < c.gates.len(),
        0 <= row < t.rows,
        t.enabled(c.gates[g].selector, row),
        upto <= c.gates[g].constraints.len(),
        exact_upto(report, c, t, m, g, row, 0),
    ensures
        exact_result(
            examine_row(c.gates[g], g as nat, t, m, row as nat, upto, report),
            c,
            t,
            m,
            g,
            row,
            upto as int,
        ),
    decreases upto,
{
    if upto > 0 {
        let j = upto - 1;
        lemma_exact_row(c, t, m, g, row, j as nat, report);
        match examine_row(c.gates[g], g as nat, t, m, row as nat, j as nat, report) {
            Ok(old) => {
                assert(examined(c, t, g, row, j));
                let outcome = outcome_at(c, t, m, g, row, j);
                match old.record(g as nat, c.gates[g].name, j as nat, row as nat, outcome) {
                    Ok(new) => {
                        lemma_exact_after_record(c, t, m, g, row, j, old, new);
                    },
                    Err(e) => {},
                }
            },
            Err(e) => {},
        }
    }
}

/// Recording what the constraint at the given place has come to moves the
/// exact record one place on.
proof fn lemma_exact_after_record(
    c: CircuitModel,
    t: TableModel,
    m: nat,
    g: int,
    row: int,
    j: int,
    old: ReportModel,
    new: ReportModel,
)
    requires
        examined(c, t, g, row, j),
        exact_upto(old, c, t, m, g, row, j),
        old.record(g as nat, c.gates[g].name, j as nat, row as nat, outcome_at(c, t, m, g, row, j))
            == Ok::<ReportModel, OutOfBoundsModel>(new),
    ensures
        exact_upto(new, c, t, m, g, row, j + 1),
{
    let outcome = outcome_at(c, t, m, g, row, j);
    assert forall|i: int| 0 <= i < new.violations.len() implies violation_justified(
        #[trigger] new.violations[i],
        c,
        t,
        m,
        g,
        row,
        j + 1,
    ) by {
        if i < old.violations.len() {
            assert(new.violations[i] == old.violations[i]);
        }
    }
    assert forall|i: int| 0 <= i < new.unevaluated.len() implies unevaluated_justified(
        #[trigger] new.unevaluated[i],
        c,
        t,
        m,
        g,
        row,
        j + 1,
    ) by {
        if i < old.unevaluated.len() {
            assert(new.unevaluated[i] == old.unevaluated[i]);
        }
    }
    assert forall|g2: int, row2: int, j2: int| #[trigger]
        examined(c, t, g2, row2, j2) && before(g2, row2, j2, g, row, j + 1) implies accounted(
        new,
        c,
        t,
        m,
        g2,
        row2,
        j2,
    ) by {
        if before(g2, row2, j2, g, row, j) {
            assert(accounted(old, c, t, m, g2, row2, j2));
            match outcome_at(c, t, m, g2, row2, j2) {
                Outcome::Value(x) => {
                    if x != 0 {
                        let entry = violation_at(c, g2, row2, j2, x);
                        let i = choose|i: int|
                            0 <= i < old.violations.len() && old.violations[i] == entry;
                        assert(new.violations[i] == entry);
                    }
                },
                Outcome::Unknown => {
                    let entry = unevaluated_at(c, g2, row2, j2);
                    let i = choose|i: int|
                        0 <= i < old.unevaluated.len() && old.unevaluated[i] == entry;
                    assert(new.unevaluated[i] == entry);
                },
                Outcome::OutOfBounds(_) => {},
            }
        } else {
            assert(g2 == g && row2 == row && j2 == j);
            match outcome {
                Outcome::Value(x) => {
                    if x != 0 {
                        assert(new.violations[old.violations.len() as int] == violation_at(
                            c,
                            g,
                            row,
                            j,
                            x,
                        ));
                    }
                },
                Outcome::Unknown => {
                    assert(new.unevaluated[old.unevaluated.len() as int] == unevaluated_at(
                        c,
                        g,
                        row,
                        j,
                    ));
                },
                Outcome::OutOfBounds(_) => {},
            }
        }
    }
    assert forall|i: int, k: int| 0 <= i < k < new.violations.len() implies before(
        (#[trigger] new.violations[i]).gate as int,
        new.violations[i].row as int,
        new.violations[i].constraint as int,
        (#[trigger] new.violations[k]).gate as int,
        new.violations[k].row as int,
        new.violations[k].constraint as int,
    ) by {
        assert(new.violations[i] == old.violations[i]);
        assert(violation_justified(old.violations[i], c, t, m, g, row, j));
        if k < old.violations.len() {
            assert(new.violations[k] == old.violations[k]);
        }
    }
    assert forall|i: int, k: int| 0 <= i < k < new.unevaluated.len() implies before(
        (#[trigger] new.unevaluated[i]).gate as int,
        new.unevaluated[i].row as int,
        new.unevaluated[i].constraint as int,
        (#[trigger] new.unevaluated[k]).gate as int,
        new.unevaluated[k].row as int,
        new.unevaluated[k].constraint as int,
    ) by {
        assert(new.unevaluated[i] == old.unevaluated[i]);
        assert(unevaluated_justified(old.unevaluated[i], c, t, m, g, row, j));
        if k < old.unevaluated.len() {
            assert(new.unevaluated[k] == old.unevaluated[k]);
        }
    }
}

/// The exact record up to one place is the exact record up to any later
/// place, where no constraint is evaluated between the two.
proof fn lemma_exact_moves_on(
    report: ReportModel,
    c: CircuitModel,
    t: TableModel,
    m: nat,
    gate: int,
    at_row: int,
    at: int,
    to_gate: int,
    to_row: int,
    to: int,
)
    requires
        exact_upto(report, c, t, m, gate, at_row, at),
        forall|g: int, row: int, j: int| #[trigger]
            examined(c, t, g, row, j) && before(g, row, j, to_gate, to_row, to) ==> before(
                g,
                row,
                j,
                gate,
                at_row,
                at,
            ),
        forall|g: int, row: int, j: int|
            before(g, row, j, gate, at_row, at) ==> #[trigger] before(
                g,
                row,
                j,
                to_gate,
                to_row,
                to,
            ),
    ensures
        exact_upto(report, c, t, m, to_gate, to_row, to),
{
    assert forall|i: int| 0 <= i < report.violations.len() implies violation_justified(
        #[trigger] report.violations[i],
        c,
        t,
        m,
        to_gate,
        to_row,
        to,
    ) by {
        let v = report.violations[i];
        assert(violation_justified(v, c, t, m, gate, at_row, at));
        assert(before(v.gate as int, v.row as int, v.constraint as int, to_gate, to_row, to));
    }
    assert forall|i: int| 0 <= i < report.unevaluated.len() implies unevaluated_justified(
        #[trigger] report.unevaluated[i],
        c,
        t,
        m,
        to_gate,
        to_row,
        to,
    ) by {
        let u = report.unevaluated[i];
        assert(unevaluated_justified(u, c, t, m, gate, at_row, at));
        assert(before(u.gate as int, u.row as int, u.constraint as int, to_gate, to_row, to));
    }
}

/// The record stays exact while one gate is taken through the rows.
proof fn lemma_exact_gate(
    c: CircuitModel,
    t: TableModel,
    m: nat,
    g: int,
    upto: nat,
    report: ReportModel,
)
    requires
        0 <= g < c.gates.len(),
        upto <= t.rows,
        exact_upto(report, c, t, m, g, 0, 0),
    ensures
        exact_result(
            examine_gate(c.gates[g], g as nat, t, m, upto, report),
            c,
            t,
            m,
            g,
            upto as int,
            0,
        ),
    decreases upto,
{
    if upto > 0 {
        let row = upto - 1;
        lemma_exact_gate(c, t, m, g, row as nat, report);
        match examine_gate(c.gates[g], g as nat, t, m, row as nat, report) {
            Ok(old) => {
                if t.enabled(c.gates[g].selector, row) {
                    let all = c.gates[g].constraints.len();
                    lemma_exact_row(c, t, m, g, row, all, old);
                    match examine_row(c.gates[g], g as nat, t, m, row as nat, all, old) {
                        Ok(new) => {
                            lemma_exact_moves_on(new, c, t, m, g, row, all as int, g, row + 1, 0);
                        },
                        Err(e) => {},
                    }
                } else {
                    lemma_exact_moves_on(old, c, t, m, g, row, 0, g, row + 1, 0);
                }
            },
            Err(e) => {},
        }
    }
}

/// The record stays exact from gate to gate.
proof fn lemma_exact_gates(c: CircuitModel, t: TableModel, m: nat, upto: nat)
    requires
        upto <= c.gates.len(),
    ensures
        exact_result(examine_gates(c, t, m, upto), c, t, m, upto as int, 0, 0),
    decreases upto,
{
    if upto > 0 {
        let g = upto - 1;
        lemma_exact_gates(c, t, m, g as nat);
        match examine_gates(c, t, m, g as nat) {
            Ok(old) => {
                lemma_exact_gate(c, t, m, g, t.rows, old);
                match examine_gate(c.gates[g], g as nat, t, m, t.rows, old) {
                    Ok(new) => {
                        lemma_exact_moves_on(new, c, t, m, g, t.rows as int, 0, g + 1, 0, 0);
                    },
                    Err(e) => {},
                }
            },
            Err(e) => {},
        }
    }
}

/// The report lists every broken constraint, not the first alone: it is
/// the exact record of the examination. Each of its entries stands for a
/// constraint of an enabled gate that came to a value other than zero, or
/// that read a cell without a known value; each such constraint has its
/// entry; and the entries stand in the order of the examination. The
/// examination fails exactly where a constraint of an enabled gate reads a
/// row outside the table, and names the first that does.
pub proof fn lemma_report_is_exact(c: CircuitModel, t: TableModel, m: nat)
    ensures
        match examine(c, t, m) {
            Ok(report) => exact(report, c, t, m),
            Err(e) => first_outside(e, c, t, m),
        },
{
    lemma_exact_gates(c, t, m, c.gates.len());
}

} // verus!
