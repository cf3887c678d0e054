//! The result type of collector operations.

use vstd::prelude::*;

use super::error::CollectorError;

verus! {

/// The result of an operation that gathers or parses metrics.
pub type CollectorResult<T> = std::result::Result<T, CollectorError>;

} // verus!
