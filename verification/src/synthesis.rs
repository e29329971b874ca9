//! Filling a table, region by region.
//!
//! A session owns the table of one synthesis pass. Values are written and
//! selectors enabled inside regions; a region addresses its rows by offsets
//! from the start of its window, which the session fixes at the first write
//! of the region, directly below everything written before. A pass that has
//! met an error hands out no table.

use vstd::prelude::*;
use crate::circuit::{ConfigurationError, ConstraintSystem};
use crate::expression::{Column, Selector};
use crate::field::Field;
use crate::table::{Cell, CellModel, Table, TableModel, Value};

verus! {

/// The address of a cell: its column and its absolute row.
#[derive(Clone, Copy, Debug, PartialEq, Eq)]
pub struct CellRef {
    pub column: Column,
    pub row: usize,
}

/// Why a synthesis pass has failed.
#[derive(Clone, Copy, Debug, PartialEq, Eq)]
pub enum SynthesisError {
    /// An earlier error has ended the pass.
    Aborted,
    /// The column or selector does not belong to the circuit of the table.
    Configuration(ConfigurationError),
    /// The offset lies below the last row of the table.
    NotEnoughRows { start: usize, offset: usize },
    /// The cell has been assigned before.
    DoubleAssignment(CellRef),
}

/// A named group of rows that are addressed by their offset from the first.
#[derive(Debug)]
pub struct Region {
    name: String,
    start: Option<usize>,
}

impl Region {
    /// The name given when the region was begun.
    pub closed spec fn label(&self) -> Seq<char> {
        self.name@
    }

    /// The first row of the window, once it is fixed.
    pub closed spec fn window(&self) -> Option<usize> {
        self.start
    }

    /// The name given when the region was begun.
    pub fn name(&self) -> (name: &String)
        ensures
            name@ == self.label(),
    {
        &self.name
    }

    /// The first row of the window, once it is fixed.
    pub fn start(&self) -> (start: Option<usize>)
        ensures
            start == self.window(),
    {
        self.start
    }
}

/// A synthesis pass as a mathematical object.
pub struct SessionModel {
    pub table: TableModel,
    /// The first row below everything written so far.
    pub next_row: nat,
    /// Whether an error has ended the pass.
    pub failed: bool,
}

impl SessionModel {
    /// The first row of the window of a region: where it was fixed, or
    /// where the session would fix it now.
    pub open spec fn window_start(self, window: Option<usize>) -> nat {
        match window {
            Some(start) => start as nat,
            None => self.next_row,
        }
    }

    /// What assigning to `column` at `offset` of a region returns.
    pub open spec fn assign_result(self, window: Option<usize>, column: Column, offset: usize) -> Result<
        CellRef,
        SynthesisError,
    > {
        let start = self.window_start(window);
        let row = start + offset;
        if self.failed {
            Err(SynthesisError::Aborted)
        } else if column.index >= self.table.advice.len() {
            Err(SynthesisError::Configuration(ConfigurationError::UnknownColumn(column)))
        } else if row >= self.table.rows {
            Err(SynthesisError::NotEnoughRows { start: start as usize, offset })
        } else if !(self.table.cell(column, row as int) is Unassigned) {
            Err(SynthesisError::DoubleAssignment(CellRef { column, row: row as usize }))
        } else {
            Ok(CellRef { column, row: row as usize })
        }
    }

    /// The pass after assigning `cell` to `column` at `offset` of a region.
    pub open spec fn assign(
        self,
        window: Option<usize>,
        column: Column,
        offset: usize,
        cell: CellModel,
    ) -> SessionModel {
        let row = self.window_start(window) + offset;
        if self.assign_result(window, column, offset) is Ok {
            SessionModel {
                table: self.table.assign(column, row as int, cell),
                next_row: if row >= self.next_row {
                    (row + 1) as nat
                } else {
                    self.next_row
                },
                failed: false,
            }
        } else {
            SessionModel { failed: true, ..self }
        }
    }

    /// What enabling `selector` at `offset` of a region returns.
    pub open spec fn enable_result(
        self,
        window: Option<usize>,
        selector: Selector,
        offset: usize,
    ) -> Result<(), SynthesisError> {
        let start = self.window_start(window);
        let row = start + offset;
        if self.failed {
            Err(SynthesisError::Aborted)
        } else if selector.index >= self.table.selectors.len() {
            Err(SynthesisError::Configuration(ConfigurationError::UnknownSelector(selector)))
        } else if row >= self.table.rows {
            Err(SynthesisError::NotEnoughRows { start: start as usize, offset })
        } else {
            Ok(())
        }
    }

    /// The pass after enabling `selector` at `offset` of a region.
    pub open spec fn enable(self, window: Option<usize>, selector: Selector, offset: usize) -> SessionModel {
        let row = self.window_start(window) + offset;
        if self.enable_result(window, selector, offset) is Ok {
            SessionModel {
                table: self.table.enable(selector, row as int),
                next_row: if row >= self.next_row {
                    (row + 1) as nat
                } else {
                    self.next_row
                },
                failed: false,
            }
        } else {
            SessionModel { failed: true, ..self }
        }
    }
}

/// One synthesis pass over a table of its own.
#[derive(Debug)]
pub struct Session<F> {
    table: Table<F>,
    next_row: usize,
    failed: bool,
}

impl<F: Field> View for Session<F> {
    type V = SessionModel;

    closed spec fn view(&self) -> SessionModel {
        SessionModel { table: self.table@, next_row: self.next_row as nat, failed: self.failed }
    }
}

impl<F: Field> Session<F> {
    /// Starts a pass for `circuit` on an empty table of `rows` rows.
    pub fn new(circuit: &ConstraintSystem<F>, rows: usize) -> (s: Self)
        ensures
            s@ == (SessionModel {
                table: TableModel::empty(circuit@.columns, circuit@.selectors, rows as nat),
                next_row: 0,
                failed: false,
            }),
    {
        Session {
            table: Table::new(circuit.num_advice_columns(), circuit.num_selectors(), rows),
            next_row: 0,
            failed: false,
        }
    }

    /// Begins a region. Its window is not fixed before something is
    /// written in it.
    pub fn begin_region(&self, name: &str) -> (region: Region)
        ensures
            region.label() == name@,
            region.window() is None,
    {
        Region { name: name.to_owned(), start: None }
    }

    /// The first row of the window of `region`: where it was fixed, or
    /// where it would be fixed now.
    fn window_start(&self, region: &Region) -> (start: usize)
        ensures
            start == self@.window_start(region.window()),
    {
        match region.start {
            Some(start) => start,
            None => self.next_row,
        }
    }

    /// The row at `offset` from `start`, if the table has it.
    fn row_at(&self, start: usize, offset: usize) -> (r: Option<usize>)
        ensures
            r is Some <==> start + offset < self@.table.rows,
            r is Some ==> r->0 == start + offset && r->0 < usize::MAX,
    {
        let rows = self.table.rows();
        match start.checked_add(offset) {
            Some(row) => if row < rows {
                Some(row)
            } else {
                None
            },
            None => None,
        }
    }

    /// Writes `value` into the cell of `column` at `offset` of `region`.
    ///
    /// A cell is written once: a second assignment fails whatever the two
    /// values are. After an error the pass has failed, and the table is as
    /// it was.
    pub fn assign_advice(
        &mut self,
        region: &mut Region,
        column: Column,
        offset: usize,
        value: Value<F>,
    ) -> (r: Result<CellRef, SynthesisError>)
        ensures
            r == old(self)@.assign_result(old(region).window(), column, offset),
            final(self)@ == old(self)@.assign(old(region).window(), column, offset, value@),
            final(region).label() == old(region).label(),
            final(region).window() == (if r is Ok {
                Some(old(self)@.window_start(old(region).window()) as usize)
            } else {
                old(region).window()
            }),
    {
        if self.failed {
            return Err(SynthesisError::Aborted);
        }
        if column.index >= self.table.columns() {
            self.failed = true;
            return Err(SynthesisError::Configuration(ConfigurationError::UnknownColumn(column)));
        }
        let start = self.window_start(region);
        let row = match self.row_at(start, offset) {
            Some(row) => row,
            None => {
                self.failed = true;
                return Err(SynthesisError::NotEnoughRows { start, offset });
            },
        };
        match self.table.cell(column, row) {
            Cell::Unassigned => {},
            _ => {
                self.failed = true;
                return Err(SynthesisError::DoubleAssignment(CellRef { column, row }));
            },
        }
        let cell = match value {
            Value::Unknown => Cell::Unknown,
            Value::Known(v) => Cell::Known(v),
        };
        self.table.assign(column, row, cell);
        region.start = Some(start);
        if row >= self.next_row {
            self.next_row = row + 1;
        }
        Ok(CellRef { column, row })
    }

    /// Enables `selector` at `offset` of `region`. Enabling it again
    /// changes nothing.
    pub fn enable_selector(&mut self, region: &mut Region, selector: Selector, offset: usize) -> (r:
        Result<(), SynthesisError>)
        ensures
            r == old(self)@.enable_result(old(region).window(), selector, offset),
            final(self)@ == old(self)@.enable(old(region).window(), selector, offset),
            final(region).label() == old(region).label(),
            final(region).window() == (if r is Ok {
                Some(old(self)@.window_start(old(region).window()) as usize)
            } else {
                old(region).window()
            }),
    {
        if self.failed {
            return Err(SynthesisError::Aborted);
        }
        if selector.index >= self.table.selectors() {
            self.failed = true;
            return Err(
                SynthesisError::Configuration(ConfigurationError::UnknownSelector(selector)),
            );
        }
        let start = self.window_start(region);
        let row = match self.row_at(start, offset) {
            Some(row) => row,
            None => {
                self.failed = true;
                return Err(SynthesisError::NotEnoughRows { start, offset });
            },
        };
        self.table.enable(selector, row);
        region.start = Some(start);
        if row >= self.next_row {
            self.next_row = row + 1;
        }
        Ok(())
    }

    /// Whether an error has ended the pass.
    pub fn has_failed(&self) -> (b: bool)
        ensures
            b == self@.failed,
    {
        self.failed
    }

    /// Ends the pass and hands out the table, unless the pass has failed.
    pub fn finish(self) -> (r: Result<Table<F>, SynthesisError>)
        ensures
            match r {
                Ok(table) => !self@.failed && table@ == self@.table,
                Err(e) => self@.failed && e == SynthesisError::Aborted,
            },
    {
        if self.failed {
            Err(SynthesisError::Aborted)
        } else {
            Ok(self.table)
        }
    }
}

} // verus!
