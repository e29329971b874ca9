//! Arithmetic circuits as tables of field elements.
//!
//! A circuit is defined once: its witness columns, its selectors, and its
//! gates, each a set of polynomials over the cells around a row
//! ([`circuit`], [`expression`]). For every run a fresh table is filled
//! region by region ([`synthesis`], [`table`]). The finished table is then
//! held against the definition: every gate is evaluated at the rows where
//! its selector is enabled, and everything that does not vanish is listed
//! ([`evaluation`], [`verdict`]).
//!
//! The scalars are any [`field::Field`]; [`pallas`] and [`mersenne`] have
//! one each. [`step`] is a small circuit, a counter, with all that is
//! proved of it, and [`laws`] says what holds of every circuit and table.

pub mod field;
pub mod pallas;
pub mod mersenne;
pub mod expression;
pub mod table;
pub mod evaluation;
pub mod circuit;
pub mod synthesis;
pub mod verdict;
pub mod laws;
pub mod step;
