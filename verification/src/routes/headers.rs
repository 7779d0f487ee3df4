//! HTTP headers used in OCI responses.

use vstd::prelude::*;

verus! {

/// Docker-Content-Digest header.
///
/// From spec: "A successful response SHOULD contain the digest of the
/// uploaded blob in the header Docker-Content-Digest."
pub const DOCKER_CONTENT_DIGEST: &'static str = "Docker-Content-Digest";

} // verus!
