//! The definition of a circuit: its columns, its selectors and its gates.
//!
//! A definition is built once and then shared, unchanged, by every table
//! that is held against it.

use vstd::prelude::*;
use crate::expression::{Column, Expr, ExprModel, Rotation, Selector};
use crate::field::Field;

verus! {

/// A definition that cannot be accepted.
#[derive(Clone, Copy, Debug, PartialEq, Eq)]
pub enum ConfigurationError {
    /// The column was not declared in this circuit.
    UnknownColumn(Column),
    /// The selector was not declared in this circuit.
    UnknownSelector(Selector),
    /// A gate must constrain something.
    NoConstraints,
}

/// A named set of polynomials that must vanish at every row where the
/// gate's selector is enabled.
///
/// A gate carries its selector, so that it is switched off where the
/// selector is, whether or not its polynomials are multiplied by it.
#[derive(Debug)]
pub struct Gate<F> {
    pub name: String,
    pub selector: Selector,
    pub constraints: Vec<Expr<F>>,
}

/// A gate with the constants of its constraints taken as residues.
pub struct GateModel {
    pub name: Seq<char>,
    pub selector: Selector,
    pub constraints: Seq<ExprModel>,
}

/// The models of a sequence of expressions, in order.
pub open spec fn expr_models<F: Field>(es: Seq<Expr<F>>) -> Seq<ExprModel> {
    Seq::new(es.len(), |j: int| es[j]@)
}

/// The models of a sequence of gates, in order.
pub open spec fn gate_models<F: Field>(gs: Seq<Gate<F>>) -> Seq<GateModel> {
    Seq::new(gs.len(), |g: int| gs[g]@)
}

impl<F: Field> View for Gate<F> {
    type V = GateModel;

    open spec fn view(&self) -> GateModel {
        GateModel {
            name: self.name@,
            selector: self.selector,
            constraints: expr_models(self.constraints@),
        }
    }
}

/// The first reference in `e`, read from left to right, to a column or a
/// selector that is not among the first `columns` columns or `selectors`
/// selectors.
pub open spec fn undeclared(e: ExprModel, columns: nat, selectors: nat) -> Option<
    ConfigurationError,
>
    decreases e,
{
    match e {
        ExprModel::Constant(_) => None,
        ExprModel::Selector(s) => if s.index < selectors {
            None
        } else {
            Some(ConfigurationError::UnknownSelector(s))
        },
        ExprModel::Advice { column, rotation } => if column.index < columns {
            None
        } else {
            Some(ConfigurationError::UnknownColumn(column))
        },
        ExprModel::Negated(a) => undeclared(*a, columns, selectors),
        ExprModel::Sum(a, b) | ExprModel::Difference(a, b) | ExprModel::Product(a, b) => {
            match undeclared(*a, columns, selectors) {
                Some(e) => Some(e),
                None => undeclared(*b, columns, selectors),
            }
        },
    }
}

/// The first undeclared reference among the first `upto` expressions.
pub open spec fn first_undeclared(
    es: Seq<ExprModel>,
    columns: nat,
    selectors: nat,
    upto: nat,
) -> Option<ConfigurationError>
    decreases upto,
{
    if upto == 0 {
        None
    } else {
        match first_undeclared(es, columns, selectors, (upto - 1) as nat) {
            Some(e) => Some(e),
            None => undeclared(es[upto - 1], columns, selectors),
        }
    }
}

/// Why a gate cannot be added to a circuit with the given numbers of
/// columns and selectors, if it cannot.
pub open spec fn gate_error(
    columns: nat,
    selectors: nat,
    selector: Selector,
    constraints: Seq<ExprModel>,
) -> Option<ConfigurationError> {
    if selector.index >= selectors {
        Some(ConfigurationError::UnknownSelector(selector))
    } else if constraints.len() == 0 {
        Some(ConfigurationError::NoConstraints)
    } else {
        first_undeclared(constraints, columns, selectors, constraints.len())
    }
}

/// A circuit definition as a mathematical object.
pub struct CircuitModel {
    pub columns: nat,
    pub selectors: nat,
    pub gates: Seq<GateModel>,
}

impl CircuitModel {
    /// The circuit without columns, selectors or gates.
    pub open spec fn empty() -> CircuitModel {
        CircuitModel { columns: 0, selectors: 0, gates: Seq::empty() }
    }

    /// Every gate has a constraint and refers to declared columns and
    /// selectors only.
    pub open spec fn well_formed(self) -> bool {
        forall|g: int|
            0 <= g < self.gates.len() ==> gate_error(
                self.columns,
                self.selectors,
                (#[trigger] self.gates[g]).selector,
                self.gates[g].constraints,
            ) is None
    }
}

/// The columns, selectors and gates of a circuit.
#[derive(Debug)]
pub struct ConstraintSystem<F> {
    columns: usize,
    selectors: usize,
    gates: Vec<Gate<F>>,
}

impl<F: Field> View for ConstraintSystem<F> {
    type V = CircuitModel;

    closed spec fn view(&self) -> CircuitModel {
        CircuitModel {
            columns: self.columns as nat,
            selectors: self.selectors as nat,
            gates: gate_models(self.gates@),
        }
    }
}

/// Declaring more columns or selectors leaves every reference declared.
proof fn lemma_undeclared_monotonic(e: ExprModel, c1: nat, s1: nat, c2: nat, s2: nat)
    requires
        undeclared(e, c1, s1) is None,
        c1 <= c2,
        s1 <= s2,
    ensures
        undeclared(e, c2, s2) is None,
    decreases e,
{
    match e {
        ExprModel::Negated(a) => {
            lemma_undeclared_monotonic(*a, c1, s1, c2, s2);
        },
        ExprModel::Sum(a, b) | ExprModel::Difference(a, b) | ExprModel::Product(a, b) => {
            lemma_undeclared_monotonic(*a, c1, s1, c2, s2);
            lemma_undeclared_monotonic(*b, c1, s1, c2, s2);
        },
        _ => {},
    }
}

/// The same of a sequence of expressions.
proof fn lemma_first_undeclared_monotonic(
    es: Seq<ExprModel>,
    c1: nat,
    s1: nat,
    c2: nat,
    s2: nat,
    upto: nat,
)
    requires
        first_undeclared(es, c1, s1, upto) is None,
        c1 <= c2,
        s1 <= s2,
    ensures
        first_undeclared(es, c2, s2, upto) is None,
    decreases upto,
{
    if upto > 0 {
        lemma_first_undeclared_monotonic(es, c1, s1, c2, s2, (upto - 1) as nat);
        lemma_undeclared_monotonic(es[upto - 1], c1, s1, c2, s2);
    }
}

/// The first reference in `e` to something undeclared.
fn find_undeclared<F: Field>(e: &Expr<F>, columns: usize, selectors: usize) -> (r: Option<
    ConfigurationError,
>)
    ensures
        r == undeclared(e@, columns as nat, selectors as nat),
    decreases e,
{
    match e {
        Expr::Constant(_) => None,
        Expr::Selector(s) => {
            if s.index < selectors {
                None
            } else {
                Some(ConfigurationError::UnknownSelector(*s))
            }
        },
        Expr::Advice { column, rotation } => {
            if column.index < columns {
                None
            } else {
                Some(ConfigurationError::UnknownColumn(*column))
            }
        },
        Expr::Negated(a) => find_undeclared(a, columns, selectors),
        Expr::Sum(a, b) | Expr::Difference(a, b) | Expr::Product(a, b) => {
            match find_undeclared(a, columns, selectors) {
                Some(e) => Some(e),
                None => find_undeclared(b, columns, selectors),
            }
        },
    }
}

impl<F: Field> ConstraintSystem<F> {
    /// A circuit without columns, selectors or gates.
    pub fn new() -> (cs: Self)
        ensures
            cs@ == CircuitModel::empty(),
    {
        let cs = ConstraintSystem { columns: 0, selectors: 0, gates: Vec::new() };
        assert(cs@.gates =~= Seq::empty());
        cs
    }

    /// The number of witness columns declared so far.
    pub fn num_advice_columns(&self) -> (n: usize)
        ensures
            n == self@.columns,
    {
        self.columns
    }

    /// The number of selectors declared so far.
    pub fn num_selectors(&self) -> (n: usize)
        ensures
            n == self@.selectors,
    {
        self.selectors
    }

    /// The gates, in the order of their creation.
    pub fn gates(&self) -> (gates: &Vec<Gate<F>>)
        ensures
            gate_models(gates@) == self@.gates,
    {
        &self.gates
    }

    /// Declares a witness column. Its identifier is one that no earlier
    /// call has returned.
    pub fn declare_advice_column(&mut self) -> (column: Column)
        requires
            old(self)@.columns < usize::MAX,
        ensures
            column.index == old(self)@.columns,
            final(self)@ == (CircuitModel { columns: old(self)@.columns + 1, ..old(self)@ }),
            old(self)@.well_formed() ==> final(self)@.well_formed(),
    {
        let column = Column { index: self.columns };
        self.columns = self.columns + 1;
        proof {
            let before = old(self)@;
            let after = self@;
            if before.well_formed() {
                assert forall|g: int| 0 <= g < after.gates.len() implies gate_error(
                    after.columns,
                    after.selectors,
                    (#[trigger] after.gates[g]).selector,
                    after.gates[g].constraints,
                ) is None by {
                    let gate = before.gates[g];
                    lemma_first_undeclared_monotonic(
                        gate.constraints,
                        before.columns,
                        before.selectors,
                        after.columns,
                        after.selectors,
                        gate.constraints.len(),
                    );
                }
            }
        }
        column
    }

    /// Declares a selector. Its identifier is one that no earlier call has
    /// returned.
    pub fn declare_selector(&mut self) -> (selector: Selector)
        requires
            old(self)@.selectors < usize::MAX,
        ensures
            selector.index == old(self)@.selectors,
            final(self)@ == (CircuitModel { selectors: old(self)@.selectors + 1, ..old(self)@ }),
            old(self)@.well_formed() ==> final(self)@.well_formed(),
    {
        let selector = Selector { index: self.selectors };
        self.selectors = self.selectors + 1;
        proof {
            let before = old(self)@;
            let after = self@;
            if before.well_formed() {
                assert forall|g: int| 0 <= g < after.gates.len() implies gate_error(
                    after.columns,
                    after.selectors,
                    (#[trigger] after.gates[g]).selector,
                    after.gates[g].constraints,
                ) is None by {
                    let gate = before.gates[g];
                    lemma_first_undeclared_monotonic(
                        gate.constraints,
                        before.columns,
                        before.selectors,
                        after.columns,
                        after.selectors,
                        gate.constraints.len(),
                    );
                }
            }
        }
        selector
    }

    /// The query of the cell of `column` at the offset `rotation`.
    pub fn query_advice(&self, column: Column, rotation: Rotation) -> (r: Result<
        Expr<F>,
        ConfigurationError,
    >)
        ensures
            match r {
                Ok(e) => column.index < self@.columns && e@ == (ExprModel::Advice {
                    column,
                    rotation,
                }),
                Err(e) => column.index >= self@.columns && e == ConfigurationError::UnknownColumn(
                    column,
                ),
            },
    {
        if column.index < self.columns {
            Ok(Expr::Advice { column, rotation })
        } else {
            Err(ConfigurationError::UnknownColumn(column))
        }
    }

    /// The query of `selector`: one where it is enabled, zero elsewhere.
    pub fn query_selector(&self, selector: Selector) -> (r: Result<Expr<F>, ConfigurationError>)
        ensures
            match r {
                Ok(e) => selector.index < self@.selectors && e@ == ExprModel::Selector(selector),
                Err(e) => selector.index >= self@.selectors && e
                    == ConfigurationError::UnknownSelector(selector),
            },
    {
        if selector.index < self.selectors {
            Ok(Expr::Selector(selector))
        } else {
            Err(ConfigurationError::UnknownSelector(selector))
        }
    }

    /// Adds a gate called `name`, switched on by `selector`, whose `constraints`
    /// must all vanish where it is on.
    ///
    /// It is refused, and the circuit left as it was, where the
    /// selector is not declared, where there is no constraint, or where a
    /// constraint refers to something that is not declared.
    pub fn create_gate(&mut self, name: &str, selector: Selector, constraints: Vec<Expr<F>>) -> (r:
        Result<(), ConfigurationError>)
        ensures
            match gate_error(
                old(self)@.columns,
                old(self)@.selectors,
                selector,
                expr_models(constraints@),
            ) {
                Some(e) => r == Err::<(), ConfigurationError>(e) && final(self)@ == old(self)@,
                None => r is Ok && final(self)@ == (CircuitModel {
                    gates: old(self)@.gates.push(
                        GateModel { name: name@, selector, constraints: expr_models(constraints@) },
                    ),
                    ..old(self)@
                }),
            },
            old(self)@.well_formed() ==> final(self)@.well_formed(),
    {
        if selector.index >= self.selectors {
            return Err(ConfigurationError::UnknownSelector(selector));
        }
        if constraints.len() == 0 {
            return Err(ConfigurationError::NoConstraints);
        }
        let ghost models = expr_models(constraints@);
        let columns = self.columns;
        let selectors = self.selectors;
        let mut j: usize = 0;
        while j < constraints.len()
            invariant
                j <= constraints.len(),
                constraints.len() > 0,
                models == expr_models(constraints@),
                *self == *old(self),
                columns == self.columns,
                selectors == self.selectors,
                selector.index < selectors,
                first_undeclared(models, columns as nat, selectors as nat, j as nat) is None,
            decreases constraints.len() - j,
        {
            match find_undeclared(&constraints[j], columns, selectors) {
                Some(e) => {
                    proof {
                        lemma_first_undeclared_found(
                            models,
                            columns as nat,
                            selectors as nat,
                            j as nat,
                            models.len(),
                        );
                    }
                    return Err(e);
                },
                None => {},
            }
            j += 1;
        }
        let gate = Gate { name: name.to_owned(), selector, constraints };
        self.gates.push(gate);
        proof {
            let before = old(self)@;
            let added = GateModel { name: name@, selector, constraints: models };
            assert(self@.gates =~= before.gates.push(added));
        }
        Ok(())
    }
}

/// An undeclared reference at position `at`, with none before it, is the
/// first among any longer prefix.
proof fn lemma_first_undeclared_found(
    es: Seq<ExprModel>,
    columns: nat,
    selectors: nat,
    at: nat,
    upto: nat,
)
    requires
        at < upto,
        first_undeclared(es, columns, selectors, at) is None,
        undeclared(es[at as int], columns, selectors) is Some,
    ensures
        first_undeclared(es, columns, selectors, upto) == undeclared(
            es[at as int],
            columns,
            selectors,
        ),
    decreases upto,
{
    if upto > at + 1 {
        lemma_first_undeclared_found(es, columns, selectors, at, (upto - 1) as nat);
    }
}

} // verus!
