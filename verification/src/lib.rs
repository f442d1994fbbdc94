//! Data-access layer for a single document collection.
//!
//! The library covers the logic of the service: a polymorphic identifier
//! with a canonical textual form, the codec between resource records and
//! the store's native documents, dynamic predicate construction for
//! filtered listing, field-mask driven partial updates, and the state
//! machine of the streaming pipeline that publishes list results.
//! The transport and the database engine itself stay outside; they hand
//! the library plain values and take plain values back.

pub mod error;
pub mod id;
pub mod native;
pub mod pipeline;
pub mod query;
pub mod record;
pub mod time;
pub mod update;

use vstd::prelude::*;

verus! {

/// Smallest value a signed 64-bit identifier can take, as a plain bound
/// used by the decimal parser.
pub open spec fn i64_min() -> int {
    -0x8000_0000_0000_0000
}

/// Largest value a signed 64-bit identifier can take.
pub open spec fn i64_max() -> int {
    0x7fff_ffff_ffff_ffff
}

} // verus!
