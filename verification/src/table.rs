//! The assignment surface: one cell per witness column and row, and per
//! selector and row whether the selector is enabled there.

use vstd::prelude::*;
use crate::expression::{Column, Selector};
use crate::field::Field;

verus! {

/// A witness value that may not be known yet.
///
/// A circuit can be laid out before its inputs exist: every cell is then
/// assigned `Unknown`, and only the structure of the table is settled.
#[derive(Debug)]
pub enum Value<T> {
    Unknown,
    Known(T),
}

impl<T: Copy> Clone for Value<T> {
    fn clone(&self) -> (v: Self)
        ensures
            v == *self,
    {
        *self
    }
}

impl<T: Copy> Copy for Value<T> {

}

impl<T> Value<T> {
    /// A value that is not known.
    pub fn unknown() -> (v: Self)
        ensures
            v is Unknown,
    {
        Value::Unknown
    }

    /// A known value.
    pub fn known(value: T) -> (v: Self)
        ensures
            v == Value::Known(value),
    {
        Value::Known(value)
    }

    /// Whether the value is known.
    pub fn is_known(&self) -> (b: bool)
        ensures
            b == (self is Known),
    {
        match self {
            Value::Known(_) => true,
            Value::Unknown => false,
        }
    }
}

/// The state of one cell.
#[derive(Debug)]
pub enum Cell<F> {
    /// Nothing was written.
    Unassigned,
    /// Written, with a value that is not known.
    Unknown,
    Known(F),
}

impl<F: Copy> Clone for Cell<F> {
    fn clone(&self) -> (c: Self)
        ensures
            c == *self,
    {
        *self
    }
}

impl<F: Copy> Copy for Cell<F> {

}

/// The state of one cell, a known value taken as its residue.
pub enum CellModel {
    Unassigned,
    Unknown,
    Known(nat),
}

impl<F: Field> View for Cell<F> {
    type V = CellModel;

    open spec fn view(&self) -> CellModel {
        match self {
            Cell::Unassigned => CellModel::Unassigned,
            Cell::Unknown => CellModel::Unknown,
            Cell::Known(v) => CellModel::Known(v.value()),
        }
    }
}

impl<F: Field> View for Value<F> {
    type V = CellModel;

    /// The state of a cell to which the value has been assigned.
    open spec fn view(&self) -> CellModel {
        match self {
            Value::Unknown => CellModel::Unknown,
            Value::Known(v) => CellModel::Known(v.value()),
        }
    }
}

/// A table as a mathematical object: `advice[c][r]` is the cell of column
/// `c` at row `r`, and `selectors[s][r]` tells whether selector `s` is
/// enabled at row `r`.
pub struct TableModel {
    pub rows: nat,
    pub advice: Seq<Seq<CellModel>>,
    pub selectors: Seq<Seq<bool>>,
}

impl TableModel {
    /// Every column and selector has one entry per row.
    pub open spec fn rectangular(self) -> bool {
        &&& forall|c: int| 0 <= c < self.advice.len() ==> (#[trigger] self.advice[c]).len() == self.rows
        &&& forall|s: int|
            0 <= s < self.selectors.len() ==> (#[trigger] self.selectors[s]).len() == self.rows
    }

    /// The table is rectangular, and every known value is a residue
    /// modulo `m`.
    pub open spec fn well_formed(self, m: nat) -> bool {
        &&& self.rectangular()
        &&& forall|c: int, r: int|
            0 <= c < self.advice.len() && 0 <= r < self.rows ==> (
            #[trigger] self.advice[c][r] matches CellModel::Known(v) ==> v < m)
    }

    /// The table of the given size in which nothing is assigned or enabled.
    pub open spec fn empty(columns: nat, selectors: nat, rows: nat) -> TableModel {
        TableModel {
            rows,
            advice: Seq::new(columns, |c: int| Seq::new(rows, |r: int| CellModel::Unassigned)),
            selectors: Seq::new(selectors, |s: int| Seq::new(rows, |r: int| false)),
        }
    }

    /// Whether the table has a cell for `column` at `row`.
    pub open spec fn has_cell(self, column: Column, row: int) -> bool {
        column.index < self.advice.len() && 0 <= row < self.rows
    }

    /// The cell of `column` at `row`; outside the table nothing is assigned.
    pub open spec fn cell(self, column: Column, row: int) -> CellModel {
        if self.has_cell(column, row) {
            self.advice[column.index as int][row]
        } else {
            CellModel::Unassigned
        }
    }

    /// Whether the table has an entry for `selector` at `row`.
    pub open spec fn has_selector(self, selector: Selector, row: int) -> bool {
        selector.index < self.selectors.len() && 0 <= row < self.rows
    }

    /// Whether `selector` is enabled at `row`; outside the table nothing is.
    pub open spec fn enabled(self, selector: Selector, row: int) -> bool {
        self.has_selector(selector, row) && self.selectors[selector.index as int][row]
    }

    /// The table with `cell` written at (`column`, `row`).
    pub open spec fn assign(self, column: Column, row: int, cell: CellModel) -> TableModel {
        TableModel {
            advice: self.advice.update(
                column.index as int,
                self.advice[column.index as int].update(row, cell),
            ),
            ..self
        }
    }

    /// The table with `selector` enabled at `row`.
    pub open spec fn enable(self, selector: Selector, row: int) -> TableModel {
        TableModel {
            selectors: self.selectors.update(
                selector.index as int,
                self.selectors[selector.index as int].update(row, true),
            ),
            ..self
        }
    }
}

/// The cells and selector activations of one synthesis pass.
#[derive(Debug)]
pub struct Table<F> {
    rows: usize,
    advice: Vec<Vec<Cell<F>>>,
    selectors: Vec<Vec<bool>>,
}

impl<F: Field> View for Table<F> {
    type V = TableModel;

    closed spec fn view(&self) -> TableModel {
        TableModel {
            rows: self.rows as nat,
            advice: Seq::new(
                self.advice.len() as nat,
                |c: int| Seq::new(self.rows as nat, |r: int| self.advice[c][r]@),
            ),
            selectors: Seq::new(
                self.selectors.len() as nat,
                |s: int| Seq::new(self.rows as nat, |r: int| self.selectors[s][r]),
            ),
        }
    }
}

impl<F> Table<F> {
    /// Every column and selector has one entry per row.
    #[verifier::type_invariant]
    spec fn rectangular(self) -> bool {
        &&& forall|c: int| 0 <= c < self.advice.len() ==> (#[trigger] self.advice[c]).len() == self.rows
        &&& forall|s: int|
            0 <= s < self.selectors.len() ==> (#[trigger] self.selectors[s]).len() == self.rows
    }
}

impl<F: Field> Table<F> {
    /// The view of a table is well formed over the field of its values.
    pub proof fn lemma_well_formed(&self)
        ensures
            self@.well_formed(F::modulus()),
    {
        let t = self@;
        assert forall|c: int, r: int| 0 <= c < t.advice.len() && 0 <= r < t.rows implies (
        #[trigger] t.advice[c][r] matches CellModel::Known(v) ==> v < F::modulus()) by {
            match self.advice[c][r] {
                Cell::Known(v) => {
                    v.lemma_value();
                },
                _ => {},
            }
        }
    }

    /// A table of the given size in which nothing is assigned or enabled.
    pub fn new(columns: usize, selectors: usize, rows: usize) -> (t: Self)
        ensures
            t@ == TableModel::empty(columns as nat, selectors as nat, rows as nat),
    {
        let mut advice: Vec<Vec<Cell<F>>> = Vec::new();
        let mut c: usize = 0;
        while c < columns
            invariant
                c <= columns,
                advice.len() == c,
                forall|i: int| 0 <= i < c ==> (#[trigger] advice[i]).len() == rows,
                forall|i: int, r: int|
                    0 <= i < c && 0 <= r < rows ==> (#[trigger] advice[i][r]) is Unassigned,
            decreases columns - c,
        {
            let mut column: Vec<Cell<F>> = Vec::new();
            let mut r: usize = 0;
            while r < rows
                invariant
                    r <= rows,
                    column.len() == r,
                    forall|j: int| 0 <= j < r ==> (#[trigger] column[j]) is Unassigned,
                decreases rows - r,
            {
                column.push(Cell::Unassigned);
                r += 1;
            }
            advice.push(column);
            c += 1;
        }
        let mut switches: Vec<Vec<bool>> = Vec::new();
        let mut s: usize = 0;
        while s < selectors
            invariant
                s <= selectors,
                switches.len() == s,
                forall|i: int| 0 <= i < s ==> (#[trigger] switches[i]).len() == rows,
                forall|i: int, r: int| 0 <= i < s && 0 <= r < rows ==> !(#[trigger] switches[i][r]),
            decreases selectors - s,
        {
            let mut column: Vec<bool> = Vec::new();
            let mut r: usize = 0;
            while r < rows
                invariant
                    r <= rows,
                    column.len() == r,
                    forall|j: int| 0 <= j < r ==> !(#[trigger] column[j]),
                decreases rows - r,
            {
                column.push(false);
                r += 1;
            }
            switches.push(column);
            s += 1;
        }
        let t = Table { rows, advice, selectors: switches };
        proof {
            let m = TableModel::empty(columns as nat, selectors as nat, rows as nat);
            assert forall|i: int| 0 <= i < columns implies #[trigger] t@.advice[i] == m.advice[i] by {
                assert(t@.advice[i] =~= m.advice[i]);
            }
            assert forall|i: int| 0 <= i < selectors implies #[trigger] t@.selectors[i]
                == m.selectors[i] by {
                assert(t@.selectors[i] =~= m.selectors[i]);
            }
            assert(t@.advice =~= m.advice);
            assert(t@.selectors =~= m.selectors);
        }
        t
    }

    /// The number of rows.
    pub fn rows(&self) -> (n: usize)
        ensures
            n == self@.rows,
    {
        self.rows
    }

    /// The number of witness columns.
    pub fn columns(&self) -> (n: usize)
        ensures
            n == self@.advice.len(),
    {
        self.advice.len()
    }

    /// The number of selectors.
    pub fn selectors(&self) -> (n: usize)
        ensures
            n == self@.selectors.len(),
    {
        self.selectors.len()
    }

    /// The cell of `column` at `row`; outside the table nothing is assigned.
    pub fn cell(&self, column: Column, row: usize) -> (cell: Cell<F>)
        ensures
            cell@ == self@.cell(column, row as int),
    {
        proof {
            use_type_invariant(self);
        }
        if column.index < self.advice.len() && row < self.rows {
            self.advice[column.index][row]
        } else {
            Cell::Unassigned
        }
    }

    /// Whether `selector` is enabled at `row`; outside the table nothing is.
    pub fn is_enabled(&self, selector: Selector, row: usize) -> (b: bool)
        ensures
            b == self@.enabled(selector, row as int),
    {
        proof {
            use_type_invariant(self);
        }
        selector.index < self.selectors.len() && row < self.rows
            && self.selectors[selector.index][row]
    }

    /// Writes `cell` at (`column`, `row`).
    pub(crate) fn assign(&mut self, column: Column, row: usize, cell: Cell<F>)
        requires
            old(self)@.has_cell(column, row as int),
        ensures
            final(self)@ == old(self)@.assign(column, row as int, cell@),
    {
        proof {
            use_type_invariant(&*self);
        }
        let mut advice: Vec<Vec<Cell<F>>> = Vec::new();
        core::mem::swap(&mut advice, &mut self.advice);
        advice[column.index][row] = cell;
        self.advice = advice;
        proof {
            let before = old(self)@;
            let after = self@;
            let expected = before.assign(column, row as int, cell@);
            assert forall|c: int| 0 <= c < after.advice.len() implies #[trigger] after.advice[c]
                == expected.advice[c] by {
                assert(after.advice[c] =~= expected.advice[c]);
            }
            assert(after.advice =~= expected.advice);
            assert(after.selectors =~= expected.selectors);
        }
    }

    /// Enables `selector` at `row`.
    pub(crate) fn enable(&mut self, selector: Selector, row: usize)
        requires
            old(self)@.has_selector(selector, row as int),
        ensures
            final(self)@ == old(self)@.enable(selector, row as int),
    {
        proof {
            use_type_invariant(&*self);
        }
        let mut switches: Vec<Vec<bool>> = Vec::new();
        core::mem::swap(&mut switches, &mut self.selectors);
        switches[selector.index][row] = true;
        self.selectors = switches;
        proof {
            let before = old(self)@;
            let after = self@;
            let expected = before.enable(selector, row as int);
            assert forall|s: int| 0 <= s < after.selectors.len() implies #[trigger] after.selectors[s]
                == expected.selectors[s] by {
                assert(after.selectors[s] =~= expected.selectors[s]);
            }
            assert(after.selectors =~= expected.selectors);
            assert(after.advice =~= expected.advice);
        }
    }
}

} // verus!
