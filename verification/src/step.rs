//! A counter as a circuit: one witness column in which every value is the
//! one above it plus one.
//!
//! The circuit has one selector and one gate, "step", whose only
//! constraint is `q * (cur - next + 1)`. A run of `steps` steps takes
//! `steps + 1` rows, with the selector enabled on all but the last.

use vstd::prelude::*;
use crate::circuit::{
    expr_models, first_undeclared, undeclared, CircuitModel, ConstraintSystem, GateModel,
};
use crate::evaluation::{evaluate, Outcome};
use crate::expression::{Column, Expr, ExprModel, Rotation, Selector};
use crate::field::{add_mod, lemma_residue_nearby, mul_mod, sub_mod, Field};
use crate::synthesis::{Session, SessionModel, SynthesisError};
use crate::table::{CellModel, TableModel, Value};
use crate::verdict::{
    examine, examine_gate, examine_gates, examine_row, verify, OutOfBounds, OutOfBoundsModel,
    Report, ReportModel, UnevaluatedModel, ViolationModel,
};

verus! {

/// The selector and the column that `configure` has declared.
#[derive(Clone, Copy, Debug, PartialEq, Eq)]
pub struct StepConfig {
    pub q_enable: Selector,
    pub advice: Column,
}

/// The values of one run, or only its length.
#[derive(Debug)]
pub struct StepCircuit<F> {
    steps: usize,
    values: Value<Vec<F>>,
}

/// A run as a mathematical object: what is assigned to each of its
/// `steps + 1` rows.
pub struct StepModel {
    pub steps: nat,
    pub cells: Seq<CellModel>,
}

impl<F> StepCircuit<F> {
    /// Known values are one more than the steps.
    #[verifier::type_invariant]
    spec fn sized(self) -> bool {
        &&& self.steps < usize::MAX
        &&& self.values matches Value::Known(v) ==> v.len() == self.steps + 1
    }
}

impl<F: Field> View for StepCircuit<F> {
    type V = StepModel;

    closed spec fn view(&self) -> StepModel {
        StepModel {
            steps: self.steps as nat,
            cells: Seq::new(
                (self.steps + 1) as nat,
                |i: int|
                    match self.values {
                        Value::Unknown => CellModel::Unknown,
                        Value::Known(v) => CellModel::Known(v[i].value()),
                    },
            ),
        }
    }
}

/// The constraint of the step gate: `q * (cur - next + 1)`.
pub open spec fn step_constraint(config: StepConfig) -> ExprModel {
    ExprModel::Product(
        Box::new(ExprModel::Selector(config.q_enable)),
        Box::new(
            ExprModel::Sum(
                Box::new(
                    ExprModel::Difference(
                        Box::new(
                            ExprModel::Advice { column: config.advice, rotation: Rotation(0) },
                        ),
                        Box::new(
                            ExprModel::Advice { column: config.advice, rotation: Rotation(1) },
                        ),
                    ),
                ),
                Box::new(ExprModel::Constant(1)),
            ),
        ),
    )
}

/// The step gate.
pub open spec fn step_gate(config: StepConfig) -> GateModel {
    GateModel {
        name: "step"@,
        selector: config.q_enable,
        constraints: seq![step_constraint(config)],
    }
}

/// How far a run has been laid out: the pass, the window of the region,
/// and whether a write has failed.
pub struct Progress {
    pub session: SessionModel,
    pub window: Option<usize>,
    pub result: Result<(), SynthesisError>,
}

impl Progress {
    /// The progress after `cell` has been assigned at `offset` and, if
    /// `enable` says so, the selector enabled there. Nothing is written
    /// after a failure.
    pub open spec fn place(self, config: StepConfig, offset: usize, cell: CellModel, enable: bool) -> Progress {
        if self.result is Err {
            self
        } else {
            let assigned = self.session.assign(self.window, config.advice, offset, cell);
            match self.session.assign_result(self.window, config.advice, offset) {
                Err(e) => Progress { session: assigned, window: self.window, result: Err(e) },
                Ok(_) => {
                    let window = Some(self.session.window_start(self.window) as usize);
                    if enable {
                        Progress {
                            session: assigned.enable(window, config.q_enable, offset),
                            window,
                            result: assigned.enable_result(window, config.q_enable, offset),
                        }
                    } else {
                        Progress { session: assigned, window, result: Ok(()) }
                    }
                },
            }
        }
    }
}

/// The progress after the first `upto` rows of a run have been laid out
/// in a new region of pass `s`. The selector is enabled on every row but
/// the last.
pub open spec fn lay_out(s: SessionModel, config: StepConfig, cells: Seq<CellModel>, upto: nat) -> Progress
    decreases upto,
{
    if upto == 0 {
        Progress { session: s, window: None, result: Ok(()) }
    } else {
        lay_out(s, config, cells, (upto - 1) as nat).place(
            config,
            (upto - 1) as usize,
            cells[upto - 1],
            upto < cells.len(),
        )
    }
}

/// After a failure nothing more is laid out.
proof fn lemma_lay_out_stops(
    s: SessionModel,
    config: StepConfig,
    cells: Seq<CellModel>,
    at: nat,
    upto: nat,
)
    requires
        at <= upto,
        lay_out(s, config, cells, at).result is Err,
    ensures
        lay_out(s, config, cells, upto) == lay_out(s, config, cells, at),
    decreases upto,
{
    if upto > at {
        lemma_lay_out_stops(s, config, cells, at, (upto - 1) as nat);
    }
}

impl<F: Field> StepCircuit<F> {
    /// A run of `steps` steps. Known values must be one more than the
    /// steps.
    pub fn new(steps: usize, values: Value<Vec<F>>) -> (r: Option<Self>)
        ensures
            r is Some <==> steps < usize::MAX && (values matches Value::Known(v) ==> v.len()
                == steps + 1),
            r matches Some(circuit) ==> circuit@.steps == steps && circuit@.cells.len() == steps + 1
                && forall|i: int|
                0 <= i <= steps ==> #[trigger] circuit@.cells[i] == (match values {
                    Value::Unknown => CellModel::Unknown,
                    Value::Known(v) => CellModel::Known(v[i].value()),
                }),
    {
        if steps == usize::MAX {
            return None;
        }
        let fits = match &values {
            Value::Unknown => true,
            Value::Known(v) => v.len() == steps + 1,
        };
        if fits {
            Some(StepCircuit { steps, values })
        } else {
            None
        }
    }

    /// The number of steps.
    pub fn steps(&self) -> (n: usize)
        ensures
            n == self@.steps,
    {
        self.steps
    }

    /// The same run with every value unknown: what is left of a circuit
    /// when only its layout matters.
    pub fn without_witnesses(&self) -> (r: Self)
        ensures
            r@.steps == self@.steps,
            r@.cells == Seq::new(self@.steps + 1, |i: int| CellModel::Unknown),
    {
        proof {
            use_type_invariant(self);
        }
        let r = StepCircuit { steps: self.steps, values: Value::Unknown };
        assert(r@.cells =~= Seq::new(self@.steps + 1, |i: int| CellModel::Unknown));
        r
    }

    /// Declares the selector and the column of the counter and creates
    /// its gate.
    pub fn configure(cs: &mut ConstraintSystem<F>) -> (config: StepConfig)
        requires
            old(cs)@.columns < usize::MAX,
            old(cs)@.selectors < usize::MAX,
        ensures
            config.q_enable.index == old(cs)@.selectors,
            config.advice.index == old(cs)@.columns,
            final(cs)@ == (CircuitModel {
                columns: old(cs)@.columns + 1,
                selectors: old(cs)@.selectors + 1,
                gates: old(cs)@.gates.push(step_gate(config)),
            }),
            old(cs)@.well_formed() ==> final(cs)@.well_formed(),
    {
        let q_enable = cs.declare_selector();
        let advice = cs.declare_advice_column();
        let config = StepConfig { q_enable, advice };
        let curr = cs.query_advice(advice, Rotation::cur()).unwrap();
        let next = cs.query_advice(advice, Rotation::next()).unwrap();
        let q = cs.query_selector(q_enable).unwrap();
        let constraints = vec![q.mul(curr.sub(next).add(Expr::constant(F::one())))];
        proof {
            reveal_with_fuel(Expr::model, 5);
            assert(expr_models(constraints@) =~= seq![step_constraint(config)]);
            reveal_with_fuel(first_undeclared, 2);
            reveal_with_fuel(undeclared, 5);
        }
        cs.create_gate("step", q_enable, constraints).unwrap();
        config
    }

    /// What is assigned to row `i` of the run.
    fn value_at(&self, i: usize) -> (v: Value<F>)
        requires
            i <= self@.steps,
        ensures
            v@ == self@.cells[i as int],
    {
        proof {
            use_type_invariant(self);
        }
        match &self.values {
            Value::Unknown => Value::Unknown,
            Value::Known(values) => Value::Known(values[i]),
        }
    }

    /// Lays the run out in a region of its own: the values from the first
    /// row of the region downwards, the selector enabled beside all but
    /// the last. The first write that fails ends the pass.
    pub fn synthesize(&self, config: StepConfig, session: &mut Session<F>) -> (r: Result<
        (),
        SynthesisError,
    >)
        ensures
            r == lay_out(old(session)@, config, self@.cells, self@.steps + 1).result,
            final(session)@ == lay_out(old(session)@, config, self@.cells, self@.steps + 1).session,
    {
        proof {
            use_type_invariant(self);
        }
        let ghost start = session@;
        let ghost cells = self@.cells;
        let ghost rows = (self@.steps + 1) as nat;
        let mut region = session.begin_region("steps");
        let mut i: usize = 0;
        while i < self.steps
            invariant
                i <= self.steps,
                self.steps < usize::MAX,
                self.steps == self@.steps,
                cells == self@.cells,
                cells.len() == self.steps + 1,
                rows == self.steps + 1,
                start == old(session)@,
                lay_out(start, config, cells, i as nat) == (Progress {
                    session: session@,
                    window: region.window(),
                    result: Ok(()),
                }),
            decreases self.steps - i,
        {
            let value = self.value_at(i);
            match session.assign_advice(&mut region, config.advice, i, value) {
                Ok(_) => {},
                Err(e) => {
                    proof {
                        lemma_lay_out_stops(start, config, cells, (i + 1) as nat, rows);
                    }
                    return Err(e);
                },
            }
            match session.enable_selector(&mut region, config.q_enable, i) {
                Ok(_) => {},
                Err(e) => {
                    proof {
                        lemma_lay_out_stops(start, config, cells, (i + 1) as nat, rows);
                    }
                    return Err(e);
                },
            }
            i += 1;
        }
        let value = self.value_at(self.steps);
        match session.assign_advice(&mut region, config.advice, self.steps, value) {
            Ok(_) => Ok(()),
            Err(e) => Err(e),
        }
    }
}


/// The value of the step constraint where the selector is enabled, the
/// cell of the row holds `cur` and the cell below holds `next`.
pub open spec fn step_value(cur: nat, next: nat, m: nat) -> nat {
    mul_mod(1, add_mod(sub_mod(cur, next, m), 1, m), m)
}

/// The step constraint measures how far `next` is from `cur + 1`.
pub proof fn lemma_step_value(cur: nat, next: nat, m: nat)
    requires
        m >= 2,
        cur < m,
        next < m,
    ensures
        step_value(cur, next, m) == sub_mod(add_mod(cur, 1, m), next, m),
        step_value(cur, next, m) == 0 <==> next == add_mod(cur, 1, m),
        add_mod(cur, 1, m) < m,
{
    let diff = sub_mod(cur, next, m);
    lemma_residue_nearby(cur - next, m as int);
    lemma_residue_nearby((diff + 1) as int, m as int);
    let sum = add_mod(diff, 1, m);
    assert(1 * sum == sum);
    lemma_residue_nearby(sum as int, m as int);
    lemma_residue_nearby((cur + 1) as int, m as int);
    lemma_residue_nearby(add_mod(cur, 1, m) - next, m as int);
}

/// Whether `t` holds the run `values` in the column of `config` from row
/// `first` downwards, with the selector enabled beside every value but the
/// last, and nowhere else.
pub open spec fn holds_run(t: TableModel, config: StepConfig, first: nat, values: Seq<nat>) -> bool {
    &&& values.len() >= 1
    &&& first + values.len() <= t.rows
    &&& forall|r: int|
        first <= r < first + values.len() ==> #[trigger] t.cell(config.advice, r)
            == CellModel::Known(values[r - first])
    &&& forall|r: int|
        0 <= r < t.rows ==> (#[trigger] t.enabled(config.q_enable, r) <==> first <= r < first
            + values.len() - 1)
}

/// Whether every value is the one before it plus one.
pub open spec fn is_progression(values: Seq<nat>, m: nat) -> bool {
    forall|i: int|
        0 <= i < values.len() - 1 ==> values[i + 1] == add_mod(#[trigger] values[i], 1, m)
}

/// The violations of the step gate, as gate number `g`, among the first
/// `upto` rows of a table that holds the run `values` from row `first`.
pub open spec fn step_violations(
    g: nat,
    first: nat,
    values: Seq<nat>,
    m: nat,
    upto: nat,
) -> Seq<ViolationModel>
    decreases upto,
{
    if upto == 0 {
        Seq::empty()
    } else {
        let before = step_violations(g, first, values, m, (upto - 1) as nat);
        let row = (upto - 1) as nat;
        if first <= row < first + values.len() - 1 && step_value(
            values[row - first],
            values[row - first + 1],
            m,
        ) != 0 {
            before.push(
                ViolationModel {
                    gate: g,
                    name: "step"@,
                    constraint: 0,
                    row,
                    value: step_value(values[row - first], values[row - first + 1], m),
                },
            )
        } else {
            before
        }
    }
}

/// Where the selector is enabled, the step constraint has a value.
proof fn lemma_step_evaluates(
    t: TableModel,
    config: StepConfig,
    first: nat,
    values: Seq<nat>,
    m: nat,
    row: int,
)
    requires
        holds_run(t, config, first, values),
        first <= row < first + values.len() - 1,
    ensures
        evaluate(step_constraint(config), t, row, m) == Outcome::Value(
            step_value(values[row - first], values[row - first + 1], m),
        ),
{
    reveal_with_fuel(evaluate, 5);
    assert(t.enabled(config.q_enable, row));
    assert(t.cell(config.advice, row) == CellModel::Known(values[row - first]));
    assert(t.cell(config.advice, row + 1) == CellModel::Known(values[row + 1 - first]));
}

/// Examining the step gate on a table that holds a run records the
/// violations of the run and nothing else.
proof fn lemma_examine_step_gate(
    t: TableModel,
    config: StepConfig,
    g: nat,
    first: nat,
    values: Seq<nat>,
    m: nat,
    upto: nat,
    report: ReportModel,
)
    requires
        holds_run(t, config, first, values),
        upto <= t.rows,
    ensures
        examine_gate(step_gate(config), g, t, m, upto, report) == Ok::<
            ReportModel,
            OutOfBoundsModel,
        >(
            ReportModel {
                violations: report.violations + step_violations(g, first, values, m, upto),
                unevaluated: report.unevaluated,
            },
        ),
    decreases upto,
{
    let gate = step_gate(config);
    if upto == 0 {
        assert(report.violations + Seq::<ViolationModel>::empty() =~= report.violations);
    } else {
        let row = (upto - 1) as nat;
        lemma_examine_step_gate(t, config, g, first, values, m, row, report);
        let before = ReportModel {
            violations: report.violations + step_violations(g, first, values, m, row),
            unevaluated: report.unevaluated,
        };
        if t.enabled(config.q_enable, row as int) {
            lemma_step_evaluates(t, config, first, values, m, row as int);
            reveal_with_fuel(examine_row, 2);
            let value = step_value(values[row - first], values[row - first + 1], m);
            if value != 0 {
                assert(before.violations.push(
                    ViolationModel { gate: g, name: "step"@, constraint: 0, row, value },
                ) =~= report.violations + step_violations(g, first, values, m, upto));
            }
        }
    }
}

/// A table that holds a run of the counter satisfies its circuit exactly
/// where the run is an arithmetic progression with step one. Every
/// constraint can be evaluated, and none reads outside the table.
pub proof fn lemma_run_satisfied_iff_progression(
    c: CircuitModel,
    t: TableModel,
    m: nat,
    config: StepConfig,
    first: nat,
    values: Seq<nat>,
)
    requires
        m >= 2,
        c.gates == seq![step_gate(config)],
        t.well_formed(m),
        holds_run(t, config, first, values),
    ensures
        examine(c, t, m) is Ok,
        examine(c, t, m)->Ok_0.unevaluated.len() == 0,
        examine(c, t, m)->Ok_0.violations.len() == 0 <==> is_progression(values, m),
{
    reveal_with_fuel(examine_gates, 2);
    lemma_examine_step_gate(t, config, 0, first, values, m, t.rows, ReportModel::empty());
    let found = step_violations(0, first, values, m, t.rows);
    assert(ReportModel::empty().violations + found =~= found);
    lemma_run_values_reduced(t, config, first, values, m);
    if is_progression(values, m) {
        assert forall|row: int| first <= row < first + values.len() - 1 implies step_value(
            values[row - first],
            #[trigger] values[row - first + 1],
            m,
        ) == 0 by {
            lemma_step_value(values[row - first], values[row - first + 1], m);
            assert(values[row - first + 1] == add_mod(values[row - first], 1, m));
        }
        lemma_no_step_violations(0, first, values, m, t.rows);
    }
    if found.len() == 0 {
        assert forall|i: int| 0 <= i < values.len() - 1 implies values[i + 1] == add_mod(
            #[trigger] values[i],
            1,
            m,
        ) by {
            lemma_step_violation_found(0, first, values, m, t.rows, first + i);
            lemma_step_value(values[i], values[i + 1], m);
        }
    }
}

/// The values of a run in a well-formed table are residues.
proof fn lemma_run_values_reduced(
    t: TableModel,
    config: StepConfig,
    first: nat,
    values: Seq<nat>,
    m: nat,
)
    requires
        t.well_formed(m),
        holds_run(t, config, first, values),
    ensures
        forall|i: int| 0 <= i < values.len() ==> #[trigger] values[i] < m,
{
    assert forall|i: int| 0 <= i < values.len() implies #[trigger] values[i] < m by {
        let row = first + i;
        assert(t.cell(config.advice, row) == CellModel::Known(values[row - first]));
        assert(t.has_cell(config.advice, row));
        assert(t.advice[config.advice.index as int][row] == CellModel::Known(values[i]));
    }
}

/// Where every step of the run adds one, no violation is recorded.
proof fn lemma_no_step_violations(g: nat, first: nat, values: Seq<nat>, m: nat, upto: nat)
    requires
        forall|row: int|
            first <= row < first + values.len() - 1 ==> step_value(
                values[row - first],
                #[trigger] values[row - first + 1],
                m,
            ) == 0,
    ensures
        step_violations(g, first, values, m, upto).len() == 0,
    decreases upto,
{
    if upto > 0 {
        lemma_no_step_violations(g, first, values, m, (upto - 1) as nat);
        let row = upto - 1;
        if first <= row < first + values.len() - 1 {
            assert(step_value(values[row - first], values[row - first + 1], m) == 0);
        }
    }
}

/// A step that does not add one is recorded.
proof fn lemma_step_violation_found(
    g: nat,
    first: nat,
    values: Seq<nat>,
    m: nat,
    upto: nat,
    row: int,
)
    requires
        first <= row < first + values.len() - 1,
        row < upto,
        step_violations(g, first, values, m, upto).len() == 0,
    ensures
        step_value(values[row - first], values[row - first + 1], m) == 0,
    decreases upto,
{
    if upto - 1 > row {
        lemma_step_violation_found(g, first, values, m, (upto - 1) as nat, row);
    }
}

/// The two violations that a wrong value at place `at` of the run causes.
pub open spec fn violations_around(
    g: nat,
    first: nat,
    values: Seq<nat>,
    m: nat,
    at: int,
    wrong: nat,
) -> Seq<ViolationModel> {
    seq![
        ViolationModel {
            gate: g,
            name: "step"@,
            constraint: 0,
            row: (first + at - 1) as nat,
            value: sub_mod(values[at], wrong, m),
        },
        ViolationModel {
            gate: g,
            name: "step"@,
            constraint: 0,
            row: (first + at) as nat,
            value: sub_mod(wrong, values[at], m),
        },
    ]
}

/// Adding one keeps different residues different, and the distance
/// between them.
proof fn lemma_successors_differ(v: nat, w: nat, m: nat)
    requires
        m >= 2,
        v < m,
        w < m,
    ensures
        add_mod(v, 1, m) == add_mod(w, 1, m) <==> v == w,
        sub_mod(add_mod(w, 1, m), add_mod(v, 1, m), m) == sub_mod(w, v, m),
{
    lemma_residue_nearby((v + 1) as int, m as int);
    lemma_residue_nearby((w + 1) as int, m as int);
    lemma_residue_nearby(w - v, m as int);
    lemma_residue_nearby(add_mod(w, 1, m) - add_mod(v, 1, m), m as int);
}

/// The violations of a progression in which the value at place `at` has
/// been replaced.
proof fn lemma_violations_of_wrong_value(
    g: nat,
    first: nat,
    values: Seq<nat>,
    m: nat,
    at: int,
    wrong: nat,
    upto: nat,
)
    requires
        m >= 2,
        is_progression(values, m),
        forall|i: int| 0 <= i < values.len() ==> #[trigger] values[i] < m,
        0 < at < values.len() - 1,
        wrong < m,
        wrong != values[at],
    ensures
        step_violations(g, first, values.update(at, wrong), m, upto) == if upto <= first + at - 1 {
            Seq::<ViolationModel>::empty()
        } else if upto == first + at {
            violations_around(g, first, values, m, at, wrong).take(1)
        } else {
            violations_around(g, first, values, m, at, wrong)
        },
    decreases upto,
{
    let changed = values.update(at, wrong);
    let around = violations_around(g, first, values, m, at, wrong);
    if upto > 0 {
        lemma_violations_of_wrong_value(g, first, values, m, at, wrong, (upto - 1) as nat);
        let row = upto - 1;
        let before = step_violations(g, first, changed, m, (upto - 1) as nat);
        if first <= row < first + values.len() - 1 {
            let i = row - first;
            lemma_step_value(changed[i], changed[i + 1], m);
            assert(values[i + 1] == add_mod(values[i], 1, m));
            if i == at - 1 {
                assert(before.push(around[0]) =~= around.take(1));
            } else if i == at {
                assert(values[at + 1] == add_mod(values[at], 1, m));
                lemma_successors_differ(values[at], wrong, m);
                assert(around.take(1).push(around[1]) =~= around);
            } else {
                assert(changed[i] == values[i]);
                assert(changed[i + 1] == values[i + 1]);
            }
        }
    }
}

/// Replacing one inner value of a progression by another breaks exactly
/// the two steps that touch it: the step that arrives at the value, one
/// row above it, and the step that leaves from it.
pub proof fn lemma_one_wrong_value(
    c: CircuitModel,
    t: TableModel,
    m: nat,
    config: StepConfig,
    first: nat,
    values: Seq<nat>,
    at: int,
    wrong: nat,
)
    requires
        m >= 2,
        c.gates == seq![step_gate(config)],
        t.well_formed(m),
        is_progression(values, m),
        0 < at < values.len() - 1,
        wrong != values[at],
        holds_run(t, config, first, values.update(at, wrong)),
    ensures
        examine(c, t, m) == Ok::<ReportModel, OutOfBoundsModel>(
            ReportModel {
                violations: violations_around(0, first, values, m, at, wrong),
                unevaluated: Seq::empty(),
            },
        ),
{
    let changed = values.update(at, wrong);
    reveal_with_fuel(examine_gates, 2);
    lemma_examine_step_gate(t, config, 0, first, changed, m, t.rows, ReportModel::empty());
    let found = step_violations(0, first, changed, m, t.rows);
    assert(ReportModel::empty().violations + found =~= found);
    lemma_run_values_reduced(t, config, first, changed, m);
    assert(changed[at] == wrong);
    assert forall|i: int| 0 <= i < values.len() implies #[trigger] values[i] < m by {
        if i == at {
            assert(values[at - 1] == changed[at - 1]);
            assert(values[at - 1 + 1] == add_mod(values[at - 1], 1, m));
            lemma_step_value(values[at - 1], 0, m);
        } else {
            assert(values[i] == changed[i]);
        }
    }
    lemma_violations_of_wrong_value(0, first, values, m, at, wrong, t.rows);
}

/// The table `t` with the first `upto` rows of the run `cells` written
/// from row `first` downwards.
pub open spec fn with_run(
    t: TableModel,
    config: StepConfig,
    first: nat,
    cells: Seq<CellModel>,
    upto: nat,
) -> TableModel {
    let column = config.advice.index as int;
    let selector = config.q_enable.index as int;
    TableModel {
        rows: t.rows,
        advice: t.advice.update(
            column,
            Seq::new(
                t.rows,
                |r: int|
                    if first <= r < first + upto {
                        cells[r - first]
                    } else {
                        t.advice[column][r]
                    },
            ),
        ),
        selectors: t.selectors.update(
            selector,
            Seq::new(
                t.rows,
                |r: int|
                    if first <= r < first + upto && r - first < cells.len() - 1 {
                        true
                    } else {
                        t.selectors[selector][r]
                    },
            ),
        ),
    }
}

/// On rows that are free, a run is laid out without failure, directly
/// below what the pass has written before.
pub proof fn lemma_lay_out_on_free_rows(
    s: SessionModel,
    config: StepConfig,
    cells: Seq<CellModel>,
    upto: nat,
)
    requires
        !s.failed,
        s.table.rectangular(),
        s.table.rows <= usize::MAX,
        config.advice.index < s.table.advice.len(),
        config.q_enable.index < s.table.selectors.len(),
        upto <= cells.len(),
        s.next_row + upto <= s.table.rows,
        forall|r: int|
            s.next_row <= r < s.next_row + upto ==> #[trigger] s.table.cell(config.advice, r)
                is Unassigned,
    ensures
        lay_out(s, config, cells, upto) == (Progress {
            session: SessionModel {
                table: with_run(s.table, config, s.next_row, cells, upto),
                next_row: s.next_row + upto,
                failed: false,
            },
            window: if upto == 0 {
                None
            } else {
                Some(s.next_row as usize)
            },
            result: Ok(()),
        }),
    decreases upto,
{
    let first = s.next_row;
    let column = config.advice.index as int;
    let selector = config.q_enable.index as int;
    let t = s.table;
    if upto == 0 {
        let same = with_run(t, config, first, cells, 0);
        assert(same.advice[column] =~= t.advice[column]);
        assert(same.selectors[selector] =~= t.selectors[selector]);
        assert(same.advice =~= t.advice);
        assert(same.selectors =~= t.selectors);
    } else {
        let done = (upto - 1) as nat;
        lemma_lay_out_on_free_rows(s, config, cells, done);
        let before = lay_out(s, config, cells, done);
        let row = first + done;
        assert(before.session.window_start(before.window) == first);
        assert(t.cell(config.advice, row as int) is Unassigned);
        assert(before.session.table.cell(config.advice, row as int) is Unassigned);
        let assigned = before.session.assign(before.window, config.advice, done as usize, cells[done as int]);
        let window = Some(first as usize);
        let after = if upto < cells.len() {
            assigned.enable(window, config.q_enable, done as usize)
        } else {
            assigned
        };
        let expected = with_run(t, config, first, cells, upto);
        assert(after.table.advice[column] =~= expected.advice[column]);
        assert(after.table.selectors[selector] =~= expected.selectors[selector]);
        assert(after.table.advice =~= expected.advice);
        assert(after.table.selectors =~= expected.selectors);
    }
}

/// Why a run of the counter has come to no report.
#[derive(Debug)]
pub enum RunError {
    Synthesis(SynthesisError),
    OutOfBounds(OutOfBounds),
}

/// The selector and the column of the counter in a circuit of its own.
pub open spec fn counter_config() -> StepConfig {
    StepConfig { q_enable: Selector { index: 0 }, advice: Column { index: 0 } }
}

/// The circuit that holds the counter and nothing else.
pub open spec fn counter_circuit() -> CircuitModel {
    CircuitModel { columns: 1, selectors: 1, gates: seq![step_gate(counter_config())] }
}

/// The values of cells that are all known.
pub open spec fn known_values(cells: Seq<CellModel>) -> Seq<nat> {
    Seq::new(cells.len(), |i: int| cells[i]->Known_0)
}

/// One entry for each of the first `upto` steps of a run whose values are
/// not known.
pub open spec fn steps_unevaluated(upto: nat) -> Seq<UnevaluatedModel> {
    Seq::new(
        upto,
        |r: int| UnevaluatedModel { gate: 0, name: "step"@, constraint: 0, row: r as nat },
    )
}

/// Examining the step gate on a table that holds a run without known
/// values records one unevaluated constraint for each step.
proof fn lemma_examine_unknown_run(t: TableModel, m: nat, steps: nat, upto: nat)
    requires
        steps < t.rows,
        upto <= t.rows,
        forall|r: int| 0 <= r <= steps ==> #[trigger] t.cell(counter_config().advice, r) is Unknown,
        forall|r: int|
            0 <= r < t.rows ==> (#[trigger] t.enabled(counter_config().q_enable, r) <==> r < steps),
    ensures
        examine_gate(step_gate(counter_config()), 0, t, m, upto, ReportModel::empty()) == Ok::<
            ReportModel,
            OutOfBoundsModel,
        >(
            ReportModel {
                violations: Seq::empty(),
                unevaluated: steps_unevaluated(
                    if upto <= steps {
                        upto
                    } else {
                        steps
                    },
                ),
            },
        ),
    decreases upto,
{
    let config = counter_config();
    if upto == 0 {
        assert(steps_unevaluated(0) =~= Seq::empty());
    } else {
        let row = (upto - 1) as nat;
        lemma_examine_unknown_run(t, m, steps, row);
        if row < steps {
            reveal_with_fuel(evaluate, 5);
            reveal_with_fuel(examine_row, 2);
            assert(t.enabled(config.q_enable, row as int));
            assert(t.cell(config.advice, row as int) is Unknown);
            assert(t.cell(config.advice, (row + 1) as int) is Unknown);
            assert(steps_unevaluated(row).push(
                UnevaluatedModel { gate: 0, name: "step"@, constraint: 0, row },
            ) =~= steps_unevaluated(upto));
        } else {
            assert(!t.enabled(config.q_enable, row as int));
        }
    }
}

/// What running the counter on a table of `rows` rows comes to.
///
/// A table that is too short fails at the first row that it lacks. On any
/// other table the violations of a run of known values are the steps that
/// do not add one, and a run of unknown values leaves every step
/// unevaluated.
pub open spec fn run_report(cells: Seq<CellModel>, rows: nat, m: nat) -> Result<
    ReportModel,
    SynthesisError,
> {
    if rows < cells.len() {
        Err(SynthesisError::NotEnoughRows { start: 0, offset: rows as usize })
    } else if cells[0] is Known {
        Ok(
            ReportModel {
                violations: step_violations(0, 0, known_values(cells), m, rows),
                unevaluated: Seq::empty(),
            },
        )
    } else {
        Ok(
            ReportModel {
                violations: Seq::empty(),
                unevaluated: steps_unevaluated((cells.len() - 1) as nat),
            },
        )
    }
}

impl<F: Field> StepCircuit<F> {
    /// Builds the circuit of the counter, lays this run out on a table of
    /// `rows` rows, and holds the table against the circuit. A run of
    /// known values that fits the table is satisfied exactly where it is a
    /// progression with step one.
    pub fn run(&self, rows: usize) -> (r: Result<Report<F>, RunError>)
        ensures
            match r {
                Ok(report) => run_report(self@.cells, rows as nat, F::modulus()) == Ok::<
                    ReportModel,
                    SynthesisError,
                >(report@),
                Err(RunError::Synthesis(e)) => run_report(self@.cells, rows as nat, F::modulus())
                    == Err::<ReportModel, SynthesisError>(e),
                Err(RunError::OutOfBounds(_)) => false,
            },
            r is Ok && self@.cells[0] is Known ==> (r->Ok_0@.violations.len() == 0
                <==> is_progression(known_values(self@.cells), F::modulus())),
    {
        proof {
            use_type_invariant(self);
        }
        let mut cs = ConstraintSystem::new();
        let config = Self::configure(&mut cs);
        let mut session = Session::new(&cs, rows);
        let ghost fresh = session@;
        let ghost cells = self@.cells;
        let ghost m = F::modulus();
        proof {
            assert(cs@.gates =~= counter_circuit().gates);
            assert(config == counter_config());
            if rows <= self.steps {
                lemma_lay_out_on_free_rows(fresh, config, cells, rows as nat);
                lemma_lay_out_stops(fresh, config, cells, (rows + 1) as nat, cells.len());
            } else {
                lemma_lay_out_on_free_rows(fresh, config, cells, cells.len());
            }
        }
        match self.synthesize(config, &mut session) {
            Ok(_) => {},
            Err(e) => {
                return Err(RunError::Synthesis(e));
            },
        }
        let table = match session.finish() {
            Ok(table) => table,
            Err(e) => {
                return Err(RunError::Synthesis(e));
            },
        };
        proof {
            let t = table@;
            assert(t == with_run(fresh.table, config, 0, cells, cells.len()));
            table.lemma_well_formed();
            F::lemma_modulus();
            assert forall|r: int| 0 <= r < t.rows implies (#[trigger] t.enabled(config.q_enable, r)
                <==> r < cells.len() - 1) by {}
            reveal_with_fuel(examine_gates, 2);
            if cells[0] is Known {
                let values = known_values(cells);
                assert forall|r: int| 0 <= r < values.len() implies #[trigger] t.cell(
                    config.advice,
                    r,
                ) == CellModel::Known(values[r - 0]) by {}
                assert(holds_run(t, config, 0, values));
                lemma_examine_step_gate(t, config, 0, 0, values, m, t.rows, ReportModel::empty());
                assert(ReportModel::empty().violations + step_violations(0, 0, values, m, t.rows)
                    =~= step_violations(0, 0, values, m, t.rows));
                lemma_run_satisfied_iff_progression(cs@, t, m, config, 0, values);
            } else {
                assert forall|r: int| 0 <= r <= self@.steps implies #[trigger] t.cell(
                    config.advice,
                    r,
                ) is Unknown by {}
                lemma_examine_unknown_run(t, m, self@.steps, t.rows);
            }
        }
        match verify(&table, &cs) {
            Ok(report) => Ok(report),
            Err(e) => Err(RunError::OutOfBounds(e)),
        }
    }
}

} // verus!
