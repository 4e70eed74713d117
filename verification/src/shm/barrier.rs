//! The reader's half of the publication protocol.
//!
//! The writer stores a record's bytes and then raises the write sequence
//! with release semantics. The reader reads the write sequence, passes this
//! barrier, and only then reads the record.

use vstd::prelude::*;
use std::sync::atomic::{fence, Ordering};

verus! {

/// `std::sync::atomic::fence` with `Ordering::Acquire`: what is read after
/// it is not older than what was read before it.
#[verifier::external_body]
pub(crate) fn acquire() {
    fence(Ordering::Acquire)
}

} // verus!
