//! A deterministic budget accounting kernel.
//!
//! Declare budgets across a fixed set of dimensions, charge them at
//! runtime boundaries, and receive one of three verdicts: continue,
//! warn, or exhausted. Every operation is specified over an abstract
//! model of the budget ([`budget::BudgetView`]) and proved by Verus; the
//! properties that span operations are stated and proved in [`laws`].
//!
//! The kernel reads no clock, performs no I/O and never panics: the caller
//! supplies every measured amount and decides what to do with a verdict.

pub mod budget;
pub mod dim;
pub mod error;
pub mod fixed_map;
pub mod laws;
pub mod verdict;

pub use budget::{Budget, BudgetBuilder};
pub use dim::{Dim, MAX_DIMS};
pub use error::{BuilderError, ChargeError};
pub use verdict::Verdict;
