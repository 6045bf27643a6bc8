//! A typed client library for a transactional-email provider's REST API.
//!
//! Each endpoint is described by a request type that knows its relative URL
//! path, its HTTP method, and its JSON request body; responses are decoded
//! from the provider's wire JSON. The contracts in this crate pin down the
//! exact text of paths, query strings and request bodies, and exactly when a
//! response body decodes into the typed response.

use vstd::prelude::*;

pub mod api;
pub mod endpoint;
pub mod json;
pub mod text;

verus! {

/// True exactly for the HTTP status codes that count as success.
pub open spec fn spec_is_success(status: u16) -> bool {
    200 <= status <= 299
}

/// Executable success test for an HTTP status code.
pub fn is_success_status(status: u16) -> (r: bool)
    ensures
        r == spec_is_success(status),
{
    200 <= status && status <= 299
}

} // verus!
