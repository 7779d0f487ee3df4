//! Error codes from the OCI Distribution Spec.

use vstd::prelude::*;

verus! {

/// code-1: Blob unknown to registry.
pub const BLOB_UNKNOWN: &'static str = "BLOB_UNKNOWN";

/// code-2: Blob upload invalid.
pub const BLOB_UPLOAD_INVALID: &'static str = "BLOB_UPLOAD_INVALID";

/// code-3: Blob upload unknown to registry.
pub const BLOB_UPLOAD_UNKNOWN: &'static str = "BLOB_UPLOAD_UNKNOWN";

/// code-4: Provided digest did not match uploaded content.
pub const DIGEST_INVALID: &'static str = "DIGEST_INVALID";

/// code-5: Manifest references a manifest or blob unknown to registry.
pub const MANIFEST_BLOB_UNKNOWN: &'static str = "MANIFEST_BLOB_UNKNOWN";

/// code-6: Manifest invalid.
pub const MANIFEST_INVALID: &'static str = "MANIFEST_INVALID";

/// code-7: Manifest unknown to registry.
pub const MANIFEST_UNKNOWN: &'static str = "MANIFEST_UNKNOWN";

/// code-8: Invalid repository name.
pub const NAME_INVALID: &'static str = "NAME_INVALID";

/// code-9: Repository name not known to registry.
pub const NAME_UNKNOWN: &'static str = "NAME_UNKNOWN";

/// code-10: Provided length did not match content length.
pub const SIZE_INVALID: &'static str = "SIZE_INVALID";

/// code-11: Authentication required.
pub const UNAUTHORIZED: &'static str = "UNAUTHORIZED";

/// code-12: Requested access to the resource is denied.
pub const DENIED: &'static str = "DENIED";

/// code-13: The operation is unsupported.
pub const UNSUPPORTED: &'static str = "UNSUPPORTED";

/// code-14: Too many requests.
pub const TOOMANYREQUESTS: &'static str = "TOOMANYREQUESTS";

} // verus!
