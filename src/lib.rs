//! Reconciles a directory of table definitions against the tables of a live
//! database: which tables to create or drop, the operator's confirmation, the
//! statements to run, and the per-table report of a concurrent run.
use vstd::prelude::*;

pub mod confirm;
pub mod execution;
pub mod names;
pub mod reconcile;
pub mod session;
pub mod statements;

verus! {

} // verus!
