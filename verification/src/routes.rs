//! OCI Distribution Spec route definitions.
//!
//! Route constants of the OCI Distribution Specification.
//!
//! Each endpoint is identified with its spec ID (end-1, end-2, etc.) and
//! documents the HTTP methods it answers.

pub mod endpoints;
pub mod error_codes;
pub mod headers;
pub mod patterns;

use vstd::prelude::*;

verus! {

/// OCI Distribution Spec API version prefix.
pub const API_VERSION: &'static str = "/v2";

} // verus!
