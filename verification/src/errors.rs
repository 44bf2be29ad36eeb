//! Error payloads the service hands to clients.

use vstd::prelude::*;

verus! {

/// A human-readable error payload.
pub struct ErrorResponse {
    pub error: String,
}

} // verus!
