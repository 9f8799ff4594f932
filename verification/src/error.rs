//! Error types.

use vstd::prelude::*;
use vstd::string::StringExecFns;
use crate::dim::Dim;

verus! {

/// Errors returned by [`BudgetBuilder::build`](crate::BudgetBuilder::build).
///
/// Each variant is a structural problem with a budget declaration.
#[derive(Copy, Clone, PartialEq, Eq, Structural, Debug)]
pub enum BuilderError {
    /// The same dimension was declared more than once.
    DuplicateDimension(Dim),
    /// A warn threshold equals or exceeds the dimension's limit.
    WarnNotBelowLimit(Dim),
    /// A limit of zero was declared.
    ZeroLimit(Dim),
    /// No dimension was declared.
    NoDimensions,
}

/// Errors returned by [`Budget::charge`](crate::Budget::charge).
#[derive(Copy, Clone, PartialEq, Eq, Structural, Debug)]
pub enum ChargeError {
    /// The dimension was not declared in this budget.
    UnknownDimension(Dim),
}

impl BuilderError {
    /// The human-readable description of the error.
    pub open spec fn spec_message(self) -> Seq<char> {
        match self {
            BuilderError::DuplicateDimension(d) => "dimension '"@ + d.spec_name()
                + "' declared more than once"@,
            BuilderError::WarnNotBelowLimit(d) => "warn threshold for '"@ + d.spec_name()
                + "' must be strictly less than its limit"@,
            BuilderError::ZeroLimit(d) => "limit for '"@ + d.spec_name() + "' must be non-zero"@,
            BuilderError::NoDimensions => "budget must declare at least one dimension"@,
        }
    }

    /// Describe the error, naming the offending dimension.
    pub fn message(&self) -> (r: String)
        ensures
            r@ == self.spec_message(),
    {
        match self {
            BuilderError::DuplicateDimension(d) => {
                let mut s = String::from_str("dimension '");
                s.append(d.name());
                s.append("' declared more than once");
                s
            },
            BuilderError::WarnNotBelowLimit(d) => {
                let mut s = String::from_str("warn threshold for '");
                s.append(d.name());
                s.append("' must be strictly less than its limit");
                s
            },
            BuilderError::ZeroLimit(d) => {
                let mut s = String::from_str("limit for '");
                s.append(d.name());
                s.append("' must be non-zero");
                s
            },
            BuilderError::NoDimensions => String::from_str(
                "budget must declare at least one dimension",
            ),
        }
    }
}

impl ChargeError {
    /// The human-readable description of the error.
    pub open spec fn spec_message(self) -> Seq<char> {
        match self {
            ChargeError::UnknownDimension(d) => "dimension '"@ + d.spec_name()
                + "' was not declared in this budget"@,
        }
    }

    /// Describe the error, naming the offending dimension.
    pub fn message(&self) -> (r: String)
        ensures
            r@ == self.spec_message(),
    {
        match self {
            ChargeError::UnknownDimension(d) => {
                let mut s = String::from_str("dimension '");
                s.append(d.name());
                s.append("' was not declared in this budget");
                s
            },
        }
    }
}

} // verus!
