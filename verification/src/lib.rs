//! A typed rule-propagation engine.
//!
//! A [`table::Table`] of named, dynamically tagged values is completed by a list of
//! [`propagator::Propagator`]s. Values form a join-semilattice, so facts derived in any
//! order merge to the same result and contradictions surface as explicit conflicts.

pub mod text;
pub mod decimal;
pub mod ident;
pub mod calendar;
pub mod lattice;
pub mod variant;
pub mod table;
pub mod property;
pub mod convert;
pub mod propagator;
pub mod rule;
pub mod quantity;
