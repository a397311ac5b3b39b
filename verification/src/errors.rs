//! What can go wrong.

use vstd::prelude::*;

verus! {

/// The errors the aggregator raises itself, each with the code it carries on
/// the ledger.
#[derive(Clone, Copy, Debug, PartialEq, Eq, Structural)]
pub enum OracleAggregatorErrors {
    NotImplemented,
    InvalidAssetOracle,
    InvalidMaxAge,
    InvalidBaseAsset,
}

impl OracleAggregatorErrors {
    /// The numeric code of each error.
    pub open spec fn code_of(self) -> nat {
        match self {
            OracleAggregatorErrors::NotImplemented => 100,
            OracleAggregatorErrors::InvalidAssetOracle => 101,
            OracleAggregatorErrors::InvalidMaxAge => 102,
            OracleAggregatorErrors::InvalidBaseAsset => 103,
        }
    }

    /// The numeric code of this error.
    pub fn code(&self) -> (c: u32)
        ensures
            c == self.code_of(),
    {
        match self {
            OracleAggregatorErrors::NotImplemented => 100,
            OracleAggregatorErrors::InvalidAssetOracle => 101,
            OracleAggregatorErrors::InvalidMaxAge => 102,
            OracleAggregatorErrors::InvalidBaseAsset => 103,
        }
    }
}

/// Why a call on the aggregator did not complete.
///
/// An absent price is no failure: it is an `Ok(None)`.
#[derive(Clone, Copy, Debug, PartialEq, Eq, Structural)]
pub enum Failure {
    /// The aggregator itself rejected the call.
    Contract(OracleAggregatorErrors),
    /// A query to the upstream feed failed, or its answer could not be read.
    UpstreamUnavailable,
    /// A price does not fit in 128 signed bits at the requested precision.
    Overflow,
}

} // verus!
