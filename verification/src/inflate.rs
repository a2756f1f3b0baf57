//! The inverse-compression capability for the deflate family, supplied by
//! an outside implementation.

use std::io::Read;
use vstd::prelude::*;

verus! {

/// The bytes that a raw deflate stream decompresses to, a pure function of
/// the stream alone.  Contracts speak of decompression only through this
/// name; a malformed stream has no decompression and the wrapper reports
/// `None` for it.
pub uninterp spec fn inflate_of(bytes: Seq<u8>) -> Seq<u8>;

/// Relies on `flate2::read::DeflateDecoder`: raw-deflate decompression of
/// the input, depending on the input bytes alone; `None` when the stream is
/// malformed.
#[verifier::external_body]
pub(crate) fn inflate(data: &[u8]) -> (r: Option<Vec<u8>>)
    ensures
        r matches Some(v) ==> v@ == inflate_of(data@),
{
    let mut decoder = flate2::read::DeflateDecoder::new(data);
    let mut out: Vec<u8> = Vec::new();
    match decoder.read_to_end(&mut out) {
        Ok(_) => Some(out),
        Err(_) => None,
    }
}

} // verus!
