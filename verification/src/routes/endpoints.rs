//! Endpoint paths from the OCI Distribution Spec, in the route syntax of
//! the HTTP server (`{parameter}` segments).

use vstd::prelude::*;

verus! {

/// end-1: Version check endpoint. (GET)
pub const VERSION_CHECK: &'static str = "/v2/";

/// end-2: Pull blob endpoint. (GET/HEAD)
/// end-10: Delete blob (DELETE).
///
/// Route parameters: `namespace`, `name`, and the blob's `digest`.
pub const BLOBS: &'static str = "/v2/{namespace}/{name}/blobs/{digest}";

/// end-3: Pull manifest endpoint. (GET/HEAD)
/// end-7: Push manifest (PUT).
/// end-9: Delete manifest or tag (DELETE).
///
/// Route parameters: `namespace`, `name`, and a digest or tag `reference`.
pub const MANIFESTS: &'static str = "/v2/{namespace}/{name}/manifests/{reference}";

/// end-8a: List tags endpoint (GET)
/// end-8b: List paginated tags (GET with ?n=&last=)
///
/// Route parameters: `namespace` and `name`.
pub const TAGS_LIST: &'static str = "/v2/{namespace}/{name}/tags/list";

/// end-4a: Initiate blob upload (POST).
/// end-4b: Single POST blob upload (POST with ?digest=).
/// end-11: Cross-repo blob mount (POST with ?mount=&from=).
///
/// Route parameters: `namespace` and `name`.
pub const BLOB_UPLOADS: &'static str = "/v2/{namespace}/{name}/blobs/uploads/";

/// end-5: Chunked blob upload (PATCH).
/// end-6: Complete blob upload (PUT with ?digest=).
/// end-13: Get upload status (GET).
///
/// Route parameters: `namespace`, `name`, and the upload's `reference`.
pub const BLOB_UPLOAD_SESSION: &'static str = "/v2/{namespace}/{name}/blobs/uploads/{reference}";

/// end-12a: List referrers (GET).
/// end-12b: List referrers with filter (GET with ?artifactType=).
///
/// Route parameters: `namespace`, `name`, and the manifest `digest`.
pub const REFERRERS: &'static str = "/v2/{namespace}/{name}/referrers/{digest}";

} // verus!
