//! Error taxonomy for the session and the record/playback pipeline.

use vstd::prelude::*;

verus! {

/// Everything that can go wrong across the public surface.
///
/// `Failed` carries the message reported by the native layer; `BadType`
/// marks a payload of the wrong variant; the remaining variants belong to
/// the recording pipeline.
#[derive(Debug, Clone, PartialEq)]
pub enum NuiError {
    /// A native call returned its failure tag; the message came with it.
    Failed(String),
    /// A payload conversion was asked of the wrong variant.
    BadType,
    /// A capture stream did not deliver a message for the current tick.
    StreamDesynchronized,
    /// An encoded record could not be framed or decoded as a record stream.
    SerializationFailed,
    /// A compressed block could not be decompressed.
    DecompressionFailed,
}

impl NuiError {
    /// A human-readable description of the error.
    pub fn message(&self) -> (r: String)
        ensures
            match self {
                NuiError::Failed(m) => r@ == m@,
                NuiError::BadType => r@ == "a payload conversion has failed"@,
                NuiError::StreamDesynchronized => r@ == "a capture stream is desynchronized"@,
                NuiError::SerializationFailed => r@ == "failed to encode or frame a record"@,
                NuiError::DecompressionFailed => r@ == "failed to decompress a record"@,
            },
    {
        broadcast use vstd::string::to_string_from_display_ensures_for_str;

        match self {
            NuiError::Failed(msg) => msg.clone(),
            NuiError::BadType => "a payload conversion has failed".to_string(),
            NuiError::StreamDesynchronized => "a capture stream is desynchronized".to_string(),
            NuiError::SerializationFailed => "failed to encode or frame a record".to_string(),
            NuiError::DecompressionFailed => "failed to decompress a record".to_string(),
        }
    }
}

} // verus!
