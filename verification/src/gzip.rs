//! Unwrapping of the optionally compressed input container: plain streams
//! are detected by their magic bytes and passed through, anything else is
//! inflated.

use vstd::prelude::*;
use crate::error::VgmError;

verus! {

/// What inflating a gzip-wrapped byte sequence yields: the decompressed
/// bytes, or nothing when the sequence is not a well-formed compressed
/// container. A function of the input bytes alone.
pub uninterp spec fn inflate_of(bytes: Seq<u8>) -> Option<Seq<u8>>;

/// Relies on flate2::read::GzDecoder, read through std::io::Read::read_to_end:
/// the result is a function of the input bytes alone, and a malformed
/// container is reported as an error.
#[verifier::external_body]
fn gunzip(data: &Vec<u8>) -> (r: Option<Vec<u8>>)
    ensures
        match r {
            Some(v) => inflate_of(data@) == Some(v@),
            None => inflate_of(data@) is None,
        },
{
    let mut out: Vec<u8> = Vec::new();
    let mut slice: &[u8] = data.as_slice();
    let mut decoder = flate2::read::GzDecoder::new(&mut slice);
    match std::io::Read::read_to_end(&mut decoder, &mut out) {
        Ok(_) => Some(out),
        Err(_) => None,
    }
}

/// Whether the bytes start with the plain-stream magic, `Vgm `.
pub open spec fn has_plain_magic(s: Seq<u8>) -> bool {
    s.len() >= 4 && s[0] == 0x56 && s[1] == 0x67 && s[2] == 0x6D && s[3] == 0x20
}

/// Unwrap the input bytes: a stream carrying the plain magic passes through
/// unchanged (unless the caller forces decompression); anything else is
/// treated as a compressed container and inflated.
pub fn decode_input(data: Vec<u8>, assume_vgz: bool) -> (r: Result<Vec<u8>, VgmError>)
    ensures
        !assume_vgz && has_plain_magic(data@) ==> (r matches Ok(v) && v@ == data@),
        (assume_vgz || !has_plain_magic(data@)) ==> match inflate_of(data@) {
            Some(s) => (r matches Ok(v) && v@ == s),
            None => r == Err::<Vec<u8>, VgmError>(VgmError::BadCompression),
        },
{
    let is_plain = !assume_vgz && data.len() >= 4 && data[0] == 0x56 && data[1] == 0x67
        && data[2] == 0x6D && data[3] == 0x20;
    if is_plain {
        return Ok(data);
    }
    match gunzip(&data) {
        Some(v) => Ok(v),
        None => Err(VgmError::BadCompression),
    }
}

} // verus!
