//! Whether a finished table satisfies a circuit.
//!
//! Gates are taken in the order of their creation, rows from the first to
//! the last, and the constraints of a gate in their order. A gate is
//! evaluated at the rows where its selector is enabled and nowhere else.
//! A constraint that reads a row outside the table ends the whole
//! examination; one that reads a cell without a known value is recorded as
//! not evaluated; one that comes to a value other than zero is recorded as
//! violated.

use vstd::prelude::*;
use crate::circuit::{gate_models, CircuitModel, ConstraintSystem, Gate, GateModel};
use crate::evaluation::{evaluate, Evaluated, Outcome};
use crate::expression::Rotation;
use crate::field::Field;
use crate::table::{Table, TableModel};

verus! {

/// A constraint that does not hold: its gate, its place in that gate, the
/// row, and the value that should have been zero.
#[derive(Debug)]
pub struct Violation<F> {
    pub gate: usize,
    pub name: String,
    pub constraint: usize,
    pub row: usize,
    pub value: F,
}

/// A constraint that could not be evaluated because a cell that it reads
/// has no known value.
#[derive(Debug)]
pub struct UnevaluatedConstraint {
    pub gate: usize,
    pub name: String,
    pub constraint: usize,
    pub row: usize,
}

/// A constraint of an enabled gate that reads a row outside the table.
#[derive(Debug)]
pub struct OutOfBounds {
    pub gate: usize,
    pub name: String,
    pub constraint: usize,
    pub row: usize,
    pub rotation: Rotation,
}

/// What the examination of a table has found.
#[derive(Debug)]
pub struct Report<F> {
    pub violations: Vec<Violation<F>>,
    pub unevaluated: Vec<UnevaluatedConstraint>,
}

/// The two ways in which an examination ends.
#[derive(Clone, Copy, Debug, PartialEq, Eq)]
pub enum Verdict {
    Satisfied,
    Violated,
}

/// A violation, its value taken as a residue.
pub struct ViolationModel {
    pub gate: nat,
    pub name: Seq<char>,
    pub constraint: nat,
    pub row: nat,
    pub value: nat,
}

/// An unevaluated constraint as a mathematical object.
pub struct UnevaluatedModel {
    pub gate: nat,
    pub name: Seq<char>,
    pub constraint: nat,
    pub row: nat,
}

/// A read outside the table as a mathematical object.
pub struct OutOfBoundsModel {
    pub gate: nat,
    pub name: Seq<char>,
    pub constraint: nat,
    pub row: nat,
    pub rotation: Rotation,
}

/// A report as a mathematical object.
pub struct ReportModel {
    pub violations: Seq<ViolationModel>,
    pub unevaluated: Seq<UnevaluatedModel>,
}

impl<F: Field> View for Violation<F> {
    type V = ViolationModel;

    open spec fn view(&self) -> ViolationModel {
        ViolationModel {
            gate: self.gate as nat,
            name: self.name@,
            constraint: self.constraint as nat,
            row: self.row as nat,
            value: self.value.value(),
        }
    }
}

impl View for UnevaluatedConstraint {
    type V = UnevaluatedModel;

    open spec fn view(&self) -> UnevaluatedModel {
        UnevaluatedModel {
            gate: self.gate as nat,
            name: self.name@,
            constraint: self.constraint as nat,
            row: self.row as nat,
        }
    }
}

impl View for OutOfBounds {
    type V = OutOfBoundsModel;

    open spec fn view(&self) -> OutOfBoundsModel {
        OutOfBoundsModel {
            gate: self.gate as nat,
            name: self.name@,
            constraint: self.constraint as nat,
            row: self.row as nat,
            rotation: self.rotation,
        }
    }
}

impl<F: Field> View for Report<F> {
    type V = ReportModel;

    open spec fn view(&self) -> ReportModel {
        ReportModel {
            violations: Seq::new(self.violations@.len(), |i: int| self.violations@[i]@),
            unevaluated: Seq::new(self.unevaluated@.len(), |i: int| self.unevaluated@[i]@),
        }
    }
}

impl ReportModel {
    /// The report in which nothing is recorded.
    pub open spec fn empty() -> ReportModel {
        ReportModel { violations: Seq::empty(), unevaluated: Seq::empty() }
    }

    /// The report after constraint `constraint` of gate `gate` has come to
    /// `outcome` at `row`, or the error that ends the examination.
    pub open spec fn record(
        self,
        gate: nat,
        name: Seq<char>,
        constraint: nat,
        row: nat,
        outcome: Outcome,
    ) -> Result<ReportModel, OutOfBoundsModel> {
        match outcome {
            Outcome::Value(value) => if value == 0 {
                Ok(self)
            } else {
                Ok(
                    ReportModel {
                        violations: self.violations.push(
                            ViolationModel { gate, name, constraint, row, value },
                        ),
                        ..self
                    },
                )
            },
            Outcome::Unknown => Ok(
                ReportModel {
                    unevaluated: self.unevaluated.push(
                        UnevaluatedModel { gate, name, constraint, row },
                    ),
                    ..self
                },
            ),
            Outcome::OutOfBounds(rotation) => Err(
                OutOfBoundsModel { gate, name, constraint, row, rotation },
            ),
        }
    }

    /// Satisfied where nothing is violated.
    pub open spec fn verdict(self) -> Verdict {
        if self.violations.len() == 0 {
            Verdict::Satisfied
        } else {
            Verdict::Violated
        }
    }
}

/// `report` after the first `upto` constraints of `gate` have been
/// evaluated at `row`.
pub open spec fn examine_row(
    gate: GateModel,
    g: nat,
    t: TableModel,
    m: nat,
    row: nat,
    upto: nat,
    report: ReportModel,
) -> Result<ReportModel, OutOfBoundsModel>
    decreases upto,
{
    if upto == 0 {
        Ok(report)
    } else {
        match examine_row(gate, g, t, m, row, (upto - 1) as nat, report) {
            Ok(r) => r.record(
                g,
                gate.name,
                (upto - 1) as nat,
                row,
                evaluate(gate.constraints[upto - 1], t, row as int, m),
            ),
            Err(e) => Err(e),
        }
    }
}

/// `report` after `gate` has been examined at the first `upto` rows.
pub open spec fn examine_gate(
    gate: GateModel,
    g: nat,
    t: TableModel,
    m: nat,
    upto: nat,
    report: ReportModel,
) -> Result<ReportModel, OutOfBoundsModel>
    decreases upto,
{
    if upto == 0 {
        Ok(report)
    } else {
        match examine_gate(gate, g, t, m, (upto - 1) as nat, report) {
            Ok(r) => if t.enabled(gate.selector, upto - 1) {
                examine_row(gate, g, t, m, (upto - 1) as nat, gate.constraints.len(), r)
            } else {
                Ok(r)
            },
            Err(e) => Err(e),
        }
    }
}

/// The report after the first `upto` gates of `c` have been examined at
/// every row of `t`.
pub open spec fn examine_gates(c: CircuitModel, t: TableModel, m: nat, upto: nat) -> Result<
    ReportModel,
    OutOfBoundsModel,
>
    decreases upto,
{
    if upto == 0 {
        Ok(ReportModel::empty())
    } else {
        match examine_gates(c, t, m, (upto - 1) as nat) {
            Ok(r) => examine_gate(c.gates[upto - 1], (upto - 1) as nat, t, m, t.rows, r),
            Err(e) => Err(e),
        }
    }
}

/// What holding table `t` against circuit `c` comes to, over the integers
/// modulo `m`.
pub open spec fn examine(c: CircuitModel, t: TableModel, m: nat) -> Result<
    ReportModel,
    OutOfBoundsModel,
> {
    examine_gates(c, t, m, c.gates.len())
}

/// The model of what `verify` returns.
pub open spec fn result_model<F: Field>(r: Result<Report<F>, OutOfBounds>) -> Result<
    ReportModel,
    OutOfBoundsModel,
> {
    match r {
        Ok(report) => Ok(report@),
        Err(e) => Err(e@),
    }
}

impl<F: Field> Report<F> {
    /// A report in which nothing is recorded.
    pub fn new() -> (report: Self)
        ensures
            report@ == ReportModel::empty(),
    {
        let report = Report { violations: Vec::new(), unevaluated: Vec::new() };
        assert(report@.violations =~= Seq::empty());
        assert(report@.unevaluated =~= Seq::empty());
        report
    }

    /// Whether no constraint is violated. Constraints that were not
    /// evaluated do not count against the table; they are listed apart.
    pub fn is_satisfied(&self) -> (b: bool)
        ensures
            b == (self@.violations.len() == 0),
    {
        self.violations.len() == 0
    }

    /// Satisfied where nothing is violated.
    pub fn verdict(&self) -> (v: Verdict)
        ensures
            v == self@.verdict(),
    {
        if self.violations.len() == 0 {
            Verdict::Satisfied
        } else {
            Verdict::Violated
        }
    }

    /// Nothing where the table is satisfied, the violations where it is
    /// not.
    pub fn into_result(self) -> (r: Result<(), Vec<Violation<F>>>)
        ensures
            match r {
                Ok(_) => self@.violations.len() == 0,
                Err(violations) => violations == self.violations && violations@.len() > 0,
            },
    {
        if self.violations.len() == 0 {
            Ok(())
        } else {
            Err(self.violations)
        }
    }

    /// Records what one constraint has come to.
    fn record(
        &mut self,
        gate: usize,
        name: &String,
        constraint: usize,
        row: usize,
        outcome: Evaluated<F>,
    ) -> (r: Result<(), OutOfBounds>)
        ensures
            match old(self)@.record(gate as nat, name@, constraint as nat, row as nat, outcome@) {
                Ok(report) => r is Ok && final(self)@ == report,
                Err(e) => r matches Err(x) && x@ == e,
            },
    {
        match outcome {
            Evaluated::Value(value) => {
                if !value.same(&F::zero()) {
                    self.violations.push(
                        Violation { gate, name: name.clone(), constraint, row, value },
                    );
                    proof {
                        let expected = old(self)@.violations.push(
                            ViolationModel {
                                gate: gate as nat,
                                name: name@,
                                constraint: constraint as nat,
                                row: row as nat,
                                value: value.value(),
                            },
                        );
                        assert(self@.violations =~= expected);
                        assert(self@.unevaluated =~= old(self)@.unevaluated);
                    }
                }
                Ok(())
            },
            Evaluated::Unknown => {
                self.unevaluated.push(
                    UnevaluatedConstraint { gate, name: name.clone(), constraint, row },
                );
                proof {
                    let expected = old(self)@.unevaluated.push(
                        UnevaluatedModel {
                            gate: gate as nat,
                            name: name@,
                            constraint: constraint as nat,
                            row: row as nat,
                        },
                    );
                    assert(self@.unevaluated =~= expected);
                    assert(self@.violations =~= old(self)@.violations);
                }
                Ok(())
            },
            Evaluated::OutOfBounds(rotation) => Err(
                OutOfBounds { gate, name: name.clone(), constraint, row, rotation },
            ),
        }
    }
}

/// Evaluates every constraint of `gate` at `row`.
fn verify_row<F: Field>(
    gate: &Gate<F>,
    g: usize,
    table: &Table<F>,
    row: usize,
    report: &mut Report<F>,
) -> (r: Result<(), OutOfBounds>)
    ensures
        match examine_row(
            gate@,
            g as nat,
            table@,
            F::modulus(),
            row as nat,
            gate@.constraints.len(),
            old(report)@,
        ) {
            Ok(expected) => r is Ok && final(report)@ == expected,
            Err(e) => r matches Err(x) && x@ == e,
        },
{
    let mut j: usize = 0;
    while j < gate.constraints.len()
        invariant
            j <= gate.constraints.len(),
            gate@.constraints.len() == gate.constraints.len(),
            examine_row(gate@, g as nat, table@, F::modulus(), row as nat, j as nat, old(report)@)
                == Ok::<ReportModel, OutOfBoundsModel>(report@),
        decreases gate.constraints.len() - j,
    {
        let outcome = gate.constraints[j].evaluate(table, row);
        match report.record(g, &gate.name, j, row, outcome) {
            Ok(_) => {},
            Err(e) => {
                proof {
                    lemma_examine_row_stops(
                        gate@,
                        g as nat,
                        table@,
                        F::modulus(),
                        row as nat,
                        (j + 1) as nat,
                        gate@.constraints.len(),
                        old(report)@,
                    );
                }
                return Err(e);
            },
        }
        j += 1;
    }
    Ok(())
}

/// Examines `gate` at every row of `table`.
fn verify_gate<F: Field>(gate: &Gate<F>, g: usize, table: &Table<F>, report: &mut Report<F>) -> (r:
    Result<(), OutOfBounds>)
    ensures
        match examine_gate(gate@, g as nat, table@, F::modulus(), table@.rows, old(report)@) {
            Ok(expected) => r is Ok && final(report)@ == expected,
            Err(e) => r matches Err(x) && x@ == e,
        },
{
    let rows = table.rows();
    let mut row: usize = 0;
    while row < rows
        invariant
            row <= rows,
            rows == table@.rows,
            examine_gate(gate@, g as nat, table@, F::modulus(), row as nat, old(report)@) == Ok::<
                ReportModel,
                OutOfBoundsModel,
            >(report@),
        decreases rows - row,
    {
        if table.is_enabled(gate.selector, row) {
            match verify_row(gate, g, table, row, report) {
                Ok(_) => {},
                Err(e) => {
                    proof {
                        lemma_examine_gate_stops(
                            gate@,
                            g as nat,
                            table@,
                            F::modulus(),
                            (row + 1) as nat,
                            table@.rows,
                            old(report)@,
                        );
                    }
                    return Err(e);
                },
            }
        }
        row += 1;
    }
    Ok(())
}

/// Holds `table` against `circuit`.
///
/// The result is the list of violated constraints and, apart from it, the
/// list of constraints that could not be evaluated; or the first constraint
/// of an enabled gate that reads a row outside the table. The table is
/// satisfied where the first list is empty.
pub fn verify<F: Field>(table: &Table<F>, circuit: &ConstraintSystem<F>) -> (r: Result<
    Report<F>,
    OutOfBounds,
>)
    ensures
        result_model(r) == examine(circuit@, table@, F::modulus()),
{
    let gates = circuit.gates();
    let mut report = Report::new();
    let mut g: usize = 0;
    while g < gates.len()
        invariant
            g <= gates.len(),
            gate_models(gates@) == circuit@.gates,
            examine_gates(circuit@, table@, F::modulus(), g as nat) == Ok::<
                ReportModel,
                OutOfBoundsModel,
            >(report@),
        decreases gates.len() - g,
    {
        match verify_gate(&gates[g], g, table, &mut report) {
            Ok(_) => {},
            Err(e) => {
                proof {
                    lemma_examine_gates_stops(
                        circuit@,
                        table@,
                        F::modulus(),
                        (g + 1) as nat,
                        circuit@.gates.len(),
                    );
                }
                return Err(e);
            },
        }
        g += 1;
    }
    Ok(report)
}

/// Once a constraint has ended the examination of a row, the remaining
/// constraints change nothing.
pub(crate) proof fn lemma_examine_row_stops(
    gate: GateModel,
    g: nat,
    t: TableModel,
    m: nat,
    row: nat,
    at: nat,
    upto: nat,
    report: ReportModel,
)
    requires
        at <= upto,
        examine_row(gate, g, t, m, row, at, report) is Err,
    ensures
        examine_row(gate, g, t, m, row, upto, report) == examine_row(gate, g, t, m, row, at, report),
    decreases upto,
{
    if upto > at {
        lemma_examine_row_stops(gate, g, t, m, row, at, (upto - 1) as nat, report);
    }
}

pub(crate) proof fn lemma_examine_gate_stops(
    gate: GateModel,
    g: nat,
    t: TableModel,
    m: nat,
    at: nat,
    upto: nat,
    report: ReportModel,
)
    requires
        at <= upto,
        examine_gate(gate, g, t, m, at, report) is Err,
    ensures
        examine_gate(gate, g, t, m, upto, report) == examine_gate(gate, g, t, m, at, report),
    decreases upto,
{
    if upto > at {
        lemma_examine_gate_stops(gate, g, t, m, at, (upto - 1) as nat, report);
    }
}

pub(crate) proof fn lemma_examine_gates_stops(c: CircuitModel, t: TableModel, m: nat, at: nat, upto: nat)
    requires
        at <= upto,
        examine_gates(c, t, m, at) is Err,
    ensures
        examine_gates(c, t, m, upto) == examine_gates(c, t, m, at),
    decreases upto,
{
    if upto > at {
        lemma_examine_gates_stops(c, t, m, at, (upto - 1) as nat);
    }
}

} // verus!
