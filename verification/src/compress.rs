//! Snappy block compression, behind trusted wrappers.
//!
//! Each snapshot record is compressed as one raw Snappy block.  The two
//! specification names below stand for what the compressor and the
//! decompressor return; everything else the library proves is stated over
//! them.

use vstd::prelude::*;

use crate::errors::NuiError;

verus! {

/// What snap's raw block compressor returns for the given bytes.
pub uninterp spec fn snap_block(s: Seq<u8>) -> Seq<u8>;

/// What snap's raw block decompressor returns for the given bytes;
/// nothing where it reports an error.
pub uninterp spec fn snap_unblock(s: Seq<u8>) -> Option<Seq<u8>>;

/// The block compressor accepts exactly the inputs whose worst-case
/// compressed length (32 + len + len/6, from snap's `max_compress_len`)
/// fits in 32 bits.
pub open spec fn snap_compressible(s: Seq<u8>) -> bool {
    32 + s.len() + s.len() / 6 <= 0xFFFFFFFF
}

/// Relies on snap::raw::Encoder::compress_vec: deterministic Snappy block
/// compression of the input bytes.  It fails exactly on inputs over the
/// format's size limit (`max_compress_len` returns 0 there), and Snappy
/// compression is lossless, so decompressing its output gives the input
/// back.
#[verifier::external_body]
pub(crate) fn compress_block(input: &Vec<u8>) -> (r: Result<Vec<u8>, NuiError>)
    ensures
        match r {
            Ok(c) => snap_compressible(input@) && c@ == snap_block(input@) && snap_unblock(c@)
                == Some(input@),
            Err(e) => !snap_compressible(input@) && e == NuiError::SerializationFailed,
        },
{
    match snap::raw::Encoder::new().compress_vec(input.as_slice()) {
        Ok(c) => Ok(c),
        Err(_) => Err(NuiError::SerializationFailed),
    }
}

/// Relies on snap::raw::Decoder::decompress_vec: deterministic Snappy
/// block decompression, a function of the input bytes alone.
#[verifier::external_body]
pub(crate) fn decompress_block(input: &Vec<u8>) -> (r: Result<Vec<u8>, NuiError>)
    ensures
        match r {
            Ok(d) => snap_unblock(input@) == Some(d@),
            Err(e) => snap_unblock(input@) is None && e == NuiError::DecompressionFailed,
        },
{
    match snap::raw::Decoder::new().decompress_vec(input.as_slice()) {
        Ok(d) => Ok(d),
        Err(_) => Err(NuiError::DecompressionFailed),
    }
}

} // verus!
