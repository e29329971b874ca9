//! The value of an expression at one row of a table.

use vstd::prelude::*;
use crate::expression::{Expr, ExprModel, Rotation};
use crate::field::{add_mod, mul_mod, neg_mod, sub_mod, Field};
use crate::table::{Cell, CellModel, Table, TableModel};

verus! {

/// What evaluating an expression at a row comes to.
#[derive(Debug)]
pub enum Evaluated<F> {
    /// Every cell that the expression reads is known.
    Value(F),
    /// All rows are inside the table, but some cell is not known.
    Unknown,
    /// The expression reads a row outside the table, at this offset.
    OutOfBounds(Rotation),
}

/// What evaluating an expression at a row comes to, a value taken as its
/// residue.
pub enum Outcome {
    Value(nat),
    Unknown,
    OutOfBounds(Rotation),
}

impl<F: Field> View for Evaluated<F> {
    type V = Outcome;

    open spec fn view(&self) -> Outcome {
        match self {
            Evaluated::Value(v) => Outcome::Value(v.value()),
            Evaluated::Unknown => Outcome::Unknown,
            Evaluated::OutOfBounds(r) => Outcome::OutOfBounds(*r),
        }
    }
}

/// The outcome of an operation on one operand.
pub open spec fn unary(a: Outcome, op: spec_fn(nat) -> nat) -> Outcome {
    match a {
        Outcome::Value(x) => Outcome::Value(op(x)),
        other => other,
    }
}

/// The outcome of an operation on two operands. A row outside the table
/// outweighs an unknown cell, and the left operand is read first.
pub open spec fn binary(a: Outcome, b: Outcome, op: spec_fn(nat, nat) -> nat) -> Outcome {
    match (a, b) {
        (Outcome::OutOfBounds(r), _) => Outcome::OutOfBounds(r),
        (_, Outcome::OutOfBounds(r)) => Outcome::OutOfBounds(r),
        (Outcome::Value(x), Outcome::Value(y)) => Outcome::Value(op(x, y)),
        _ => Outcome::Unknown,
    }
}

/// The value of `e` at `row` of `t`, over the integers modulo `m`.
///
/// A query of a cell resolves to `row` plus its rotation. It is out of
/// bounds where that row is not in the table; no row wraps around.
pub open spec fn evaluate(e: ExprModel, t: TableModel, row: int, m: nat) -> Outcome
    decreases e,
{
    match e {
        ExprModel::Constant(c) => Outcome::Value(c),
        ExprModel::Selector(s) => Outcome::Value(
            if t.enabled(s, row) {
                1
            } else {
                0
            },
        ),
        ExprModel::Advice { column, rotation } => {
            if 0 <= row + rotation.0 < t.rows {
                match t.cell(column, row + rotation.0) {
                    CellModel::Known(v) => Outcome::Value(v),
                    _ => Outcome::Unknown,
                }
            } else {
                Outcome::OutOfBounds(rotation)
            }
        },
        ExprModel::Negated(a) => unary(evaluate(*a, t, row, m), |x: nat| neg_mod(x, m)),
        ExprModel::Sum(a, b) => binary(
            evaluate(*a, t, row, m),
            evaluate(*b, t, row, m),
            |x: nat, y: nat| add_mod(x, y, m),
        ),
        ExprModel::Difference(a, b) => binary(
            evaluate(*a, t, row, m),
            evaluate(*b, t, row, m),
            |x: nat, y: nat| sub_mod(x, y, m),
        ),
        ExprModel::Product(a, b) => binary(
            evaluate(*a, t, row, m),
            evaluate(*b, t, row, m),
            |x: nat, y: nat| mul_mod(x, y, m),
        ),
    }
}

/// Whether `e` reads a cell at the offset `rotation`.
pub open spec fn reads_at(e: ExprModel, rotation: Rotation) -> bool
    decreases e,
{
    match e {
        ExprModel::Constant(_) => false,
        ExprModel::Selector(_) => false,
        ExprModel::Advice { column, rotation: r } => r == rotation,
        ExprModel::Negated(a) => reads_at(*a, rotation),
        ExprModel::Sum(a, b) | ExprModel::Difference(a, b) | ExprModel::Product(a, b) => reads_at(
            *a,
            rotation,
        ) || reads_at(*b, rotation),
    }
}

/// An expression that reads a row outside the table has no value there,
/// whatever else it reads.
pub proof fn lemma_reads_outside(e: ExprModel, t: TableModel, row: int, m: nat, rotation: Rotation)
    requires
        reads_at(e, rotation),
        !(0 <= row + rotation.0 < t.rows),
    ensures
        evaluate(e, t, row, m) is OutOfBounds,
    decreases e,
{
    match e {
        ExprModel::Negated(a) => {
            lemma_reads_outside(*a, t, row, m, rotation);
        },
        ExprModel::Sum(a, b) | ExprModel::Difference(a, b) | ExprModel::Product(a, b) => {
            if reads_at(*a, rotation) {
                lemma_reads_outside(*a, t, row, m, rotation);
            } else {
                lemma_reads_outside(*b, t, row, m, rotation);
            }
        },
        _ => {},
    }
}

/// The row that `rotation` resolves to from `row`, if the table has it.
pub fn resolve(row: usize, rotation: Rotation, rows: usize) -> (r: Option<usize>)
    ensures
        r is Some <==> 0 <= row + rotation.0 < rows,
        r matches Some(target) ==> target == row + rotation.0,
{
    let target: i128 = row as i128 + rotation.0 as i128;
    if 0 <= target && target < rows as i128 {
        Some(target as usize)
    } else {
        None
    }
}

impl<F: Field> Expr<F> {
    /// Evaluates the expression at `row` of `table`.
    pub fn evaluate(&self, table: &Table<F>, row: usize) -> (r: Evaluated<F>)
        ensures
            r@ == evaluate(self@, table@, row as int, F::modulus()),
        decreases self,
    {
        match self {
            Expr::Constant(c) => Evaluated::Value(*c),
            Expr::Selector(s) => {
                if table.is_enabled(*s, row) {
                    Evaluated::Value(F::one())
                } else {
                    Evaluated::Value(F::zero())
                }
            },
            Expr::Advice { column, rotation } => {
                match resolve(row, *rotation, table.rows()) {
                    Some(target) => match table.cell(*column, target) {
                        Cell::Known(v) => Evaluated::Value(v),
                        _ => Evaluated::Unknown,
                    },
                    None => Evaluated::OutOfBounds(*rotation),
                }
            },
            Expr::Negated(a) => {
                match a.evaluate(table, row) {
                    Evaluated::Value(x) => Evaluated::Value(x.neg()),
                    other => other,
                }
            },
            Expr::Sum(a, b) => {
                match combine(a.evaluate(table, row), b.evaluate(table, row)) {
                    Ok((x, y)) => Evaluated::Value(x.add(&y)),
                    Err(other) => other,
                }
            },
            Expr::Difference(a, b) => {
                match combine(a.evaluate(table, row), b.evaluate(table, row)) {
                    Ok((x, y)) => Evaluated::Value(x.sub(&y)),
                    Err(other) => other,
                }
            },
            Expr::Product(a, b) => {
                match combine(a.evaluate(table, row), b.evaluate(table, row)) {
                    Ok((x, y)) => Evaluated::Value(x.mul(&y)),
                    Err(other) => other,
                }
            },
        }
    }
}

/// Both values where both operands have one; otherwise what the operation
/// comes to without them.
fn combine<F: Field>(a: Evaluated<F>, b: Evaluated<F>) -> (r: Result<(F, F), Evaluated<F>>)
    ensures
        match r {
            Ok((x, y)) => a == Evaluated::Value(x) && b == Evaluated::Value(y),
            Err(other) => !(a is Value && b is Value) && forall|op: spec_fn(nat, nat) -> nat|
                other@ == #[trigger] binary(a@, b@, op),
        },
{
    match (a, b) {
        (Evaluated::OutOfBounds(r), _) => Err(Evaluated::OutOfBounds(r)),
        (_, Evaluated::OutOfBounds(r)) => Err(Evaluated::OutOfBounds(r)),
        (Evaluated::Value(x), Evaluated::Value(y)) => Ok((x, y)),
        _ => Err(Evaluated::Unknown),
    }
}

} // verus!
