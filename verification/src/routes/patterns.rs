//! Validation patterns from the OCI Distribution Spec.

use vstd::prelude::*;

verus! {

/// Repository name pattern.
///
/// From spec: `[a-z0-9]+((\.|_|__|-+)[a-z0-9]+)*(\/[a-z0-9]+((\.|_|__|-+)[a-z0-9]+)*)*`
pub const NAME_PATTERN: &'static str = "[a-z0-9]+((\\.|_|__|-+)[a-z0-9]+)*(\\/[a-z0-9]+((\\.|_|__|-+)[a-z0-9]+)*)*";

/// Tag reference pattern (max 128 chars).
///
/// From spec: `[a-zA-Z0-9_][a-zA-Z0-9._-]{0,127}`
pub const TAG_PATTERN: &'static str = "[a-zA-Z0-9_][a-zA-Z0-9._-]{0,127}";

/// Maximum tag length.
pub const MAX_TAG_LENGTH: usize = 128;

} // verus!
