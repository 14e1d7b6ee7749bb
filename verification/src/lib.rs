//! Content licensing core: a verified ledger state machine for asset listings
//! and access grants, keyed by deterministically derived addresses, together
//! with an authenticated chunk cipher and a zeroizing key buffer.

pub mod address;
mod bytes;
pub mod cipher;
pub mod ledger;
pub mod secure;

use vstd::prelude::*;

verus! {

/// Length in bytes of a signer identity.
pub const IDENTITY_LEN: usize = 32;

} // verus!
