//! Serving WebAssembly components through the OCI distribution protocol:
//! artifact generation, an in-memory content-addressed registry, and the
//! decisions behind each registry endpoint.

pub mod component;
pub mod digest;
pub mod error;
pub mod json;
pub mod metadata;
pub mod oci;
pub mod order;
pub mod registry;
pub mod routes;
pub mod server;
pub mod text;
