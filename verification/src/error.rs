//! Why loading a component can fail.

use vstd::prelude::*;

verus! {

/// The error type of the outside crates that parse WebAssembly.
#[verifier::external_type_specification]
#[verifier::external_body]
pub struct ExAnyhowError(anyhow::Error);

/// Calls `format!("{:#}", e)` on an `anyhow::Error`: its message followed by
/// its causes. Nothing is promised about the text.
#[verifier::external_body]
pub(crate) fn error_text(e: &anyhow::Error) -> String {
    format!("{:#}", e)
}

/// Reasons a WebAssembly component cannot be turned into OCI artifacts.
#[derive(Debug)]
pub enum OciError {
    /// The binary's metadata could not be parsed; holds the parser's account.
    InvalidMetadata(String),
    /// The metadata names no component and no file name was given.
    MissingName,
    /// The binary is not a decodable component or WIT package; holds the decoder's account.
    InvalidComponent(String),
}

impl OciError {
    /// A one-line description of the failure.
    pub fn message(&self) -> (m: String)
        ensures
            m@ == self.spec_message(),
    {
        match self {
            OciError::InvalidMetadata(_) => "Failed to parse WASM metadata".to_owned(),
            OciError::MissingName => "WASM component missing 'name' in metadata and no filename provided.".to_owned(),
            OciError::InvalidComponent(_) => "Failed to decode WASM component".to_owned(),
        }
    }

    /// The description `message` returns, by variant.
    pub open spec fn spec_message(&self) -> Seq<char> {
        match self {
            OciError::InvalidMetadata(_) => "Failed to parse WASM metadata"@,
            OciError::MissingName => "WASM component missing 'name' in metadata and no filename provided."@,
            OciError::InvalidComponent(_) => "Failed to decode WASM component"@,
        }
    }
}

} // verus!
