//! Identifiers of columns and selectors, row offsets, and the polynomial
//! expressions that gates are made of.

use vstd::prelude::*;
use crate::field::Field;

verus! {

/// What a column holds. Witness columns are the only kind there is.
#[derive(Clone, Copy, Debug, PartialEq, Eq)]
pub enum ColumnKind {
    Advice,
}

/// A witness column, named by the order of its declaration.
#[derive(Clone, Copy, Debug, PartialEq, Eq)]
pub struct Column {
    pub index: usize,
}

impl Column {
    /// What the column holds.
    pub fn kind(&self) -> (k: ColumnKind)
        ensures
            k == ColumnKind::Advice,
    {
        ColumnKind::Advice
    }
}

/// A selector, named by the order of its declaration.
#[derive(Clone, Copy, Debug, PartialEq, Eq)]
pub struct Selector {
    pub index: usize,
}

/// A row offset inside a gate, counted from the row at which that gate is
/// evaluated.
#[derive(Clone, Copy, Debug, PartialEq, Eq)]
pub struct Rotation(pub i32);

impl Rotation {
    /// The row at which a gate is evaluated.
    pub fn cur() -> (r: Rotation)
        ensures
            r.0 == 0,
    {
        Rotation(0)
    }

    /// The row before.
    pub fn prev() -> (r: Rotation)
        ensures
            r.0 == -1,
    {
        Rotation(-1)
    }

    /// The row after.
    pub fn next() -> (r: Rotation)
        ensures
            r.0 == 1,
    {
        Rotation(1)
    }
}

/// A polynomial over the cells around one row.
#[derive(Debug)]
pub enum Expr<F> {
    Constant(F),
    /// One where the selector is enabled at the row, zero elsewhere.
    Selector(Selector),
    /// The cell of `column` at the row plus `rotation`.
    Advice { column: Column, rotation: Rotation },
    Negated(Box<Expr<F>>),
    Sum(Box<Expr<F>>, Box<Expr<F>>),
    Difference(Box<Expr<F>>, Box<Expr<F>>),
    Product(Box<Expr<F>>, Box<Expr<F>>),
}

/// An expression with its constants taken as residues.
pub enum ExprModel {
    Constant(nat),
    Selector(Selector),
    Advice { column: Column, rotation: Rotation },
    Negated(Box<ExprModel>),
    Sum(Box<ExprModel>, Box<ExprModel>),
    Difference(Box<ExprModel>, Box<ExprModel>),
    Product(Box<ExprModel>, Box<ExprModel>),
}

impl<F: Field> View for Expr<F> {
    type V = ExprModel;

    open spec fn view(&self) -> ExprModel {
        self.model()
    }
}

impl<F: Field> Expr<F> {
    /// The same tree with each constant replaced by its residue.
    pub open spec fn model(&self) -> ExprModel
        decreases self,
    {
        match self {
            Expr::Constant(c) => ExprModel::Constant(c.value()),
            Expr::Selector(s) => ExprModel::Selector(*s),
            Expr::Advice { column, rotation } => ExprModel::Advice {
                column: *column,
                rotation: *rotation,
            },
            Expr::Negated(a) => ExprModel::Negated(Box::new(a.model())),
            Expr::Sum(a, b) => ExprModel::Sum(Box::new(a.model()), Box::new(b.model())),
            Expr::Difference(a, b) => ExprModel::Difference(
                Box::new(a.model()),
                Box::new(b.model()),
            ),
            Expr::Product(a, b) => ExprModel::Product(Box::new(a.model()), Box::new(b.model())),
        }
    }

    /// The constant polynomial.
    pub fn constant(value: F) -> (e: Self)
        ensures
            e == Expr::Constant(value),
    {
        Expr::Constant(value)
    }

    /// The negated polynomial.
    pub fn neg(self) -> (e: Self)
        ensures
            e == Expr::Negated(Box::new(self)),
    {
        Expr::Negated(Box::new(self))
    }

    /// The sum of two polynomials.
    pub fn add(self, rhs: Self) -> (e: Self)
        ensures
            e == Expr::Sum(Box::new(self), Box::new(rhs)),
    {
        Expr::Sum(Box::new(self), Box::new(rhs))
    }

    /// The difference of two polynomials.
    pub fn sub(self, rhs: Self) -> (e: Self)
        ensures
            e == Expr::Difference(Box::new(self), Box::new(rhs)),
    {
        Expr::Difference(Box::new(self), Box::new(rhs))
    }

    /// The product of two polynomials.
    pub fn mul(self, rhs: Self) -> (e: Self)
        ensures
            e == Expr::Product(Box::new(self), Box::new(rhs)),
    {
        Expr::Product(Box::new(self), Box::new(rhs))
    }
}

} // verus!
