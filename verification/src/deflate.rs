use flate2::Compression;
use flate2::read::DeflateDecoder;
use flate2::write::DeflateEncoder;
use std::io::{Read, Write};
use vstd::prelude::*;

verus! {

/// The DEFLATE stream that the compressor writes for `data` at its default
/// level.
pub uninterp spec fn deflated(data: Seq<u8>) -> Option<Seq<u8>>;

/// The bytes that a DEFLATE stream inflates to, or `None` where the stream is
/// malformed.
pub uninterp spec fn inflated(stream: Seq<u8>) -> Option<Seq<u8>>;

/// Writes `data` through `flate2::write::DeflateEncoder` at the default
/// level. The contract names the stream and states that inflating it gives
/// the data back.
#[verifier::external_body]
pub(crate) fn deflate(data: &[u8]) -> (r: Option<Vec<u8>>)
    ensures
        match r {
            Some(c) => deflated(data@) == Some(c@),
            None => deflated(data@) is None,
        },
        r matches Some(c) ==> inflated(c@) == Some(data@),
{
    let mut encoder = DeflateEncoder::new(Vec::new(), Compression::default());
    encoder.write_all(data).ok()?;
    encoder.finish().ok()
}

/// Reads `stream` to its end through `flate2::read::DeflateDecoder`. The
/// contract names the outcome.
#[verifier::external_body]
pub(crate) fn inflate(stream: &[u8]) -> (r: Option<Vec<u8>>)
    ensures
        match r {
            Some(p) => inflated(stream@) == Some(p@),
            None => inflated(stream@) is None,
        },
{
    let mut out = Vec::new();
    DeflateDecoder::new(stream).read_to_end(&mut out).ok()?;
    Some(out)
}

} // verus!
