//! The byte transform between a blob and what is stored: gzip, by flate2.

use flate2::read::GzDecoder;
use flate2::write::GzEncoder;
use flate2::Compression;
use vstd::prelude::*;

verus! {

/// The gzip stream that flate2 makes of `data` at its default level, or
/// `None` where its compressor reports an error on `data`.
pub uninterp spec fn gzip(data: Seq<u8>) -> Option<Seq<u8>>;

/// The data that the first member of the gzip stream `encoded` holds, or
/// `None` where `encoded` is no such stream.
pub uninterp spec fn gunzip(encoded: Seq<u8>) -> Option<Seq<u8>>;

/// Writes `data` through flate2's `GzEncoder` into a vector, at the default
/// level. The contract claims that the outcome is a function of `data` alone
/// and names it [`gzip`]: the encoder starts from a fresh compressor and
/// writes a fixed header (no name, no time, operating system 255), the
/// deflated data, its checksum and its length; the vector it writes to takes
/// every byte, so the only error is one that the compressor reports on the
/// data. It does not claim that the encoder succeeds on any data, nor that
/// [`gunzip`] gives the data back.
#[verifier::external_body]
pub(crate) fn gzip_encode(data: &[u8]) -> (encoded: Option<Vec<u8>>)
    ensures
        match encoded {
            Some(bytes) => gzip(data@) == Some(bytes@),
            None => gzip(data@) is None,
        },
{
    let mut encoder = GzEncoder::new(Vec::new(), Compression::default());
    match std::io::Write::write_all(&mut encoder, data) {
        Ok(()) => encoder.finish().ok(),
        Err(_) => None,
    }
}

/// Reads `encoded` to its end through flate2's `GzDecoder`. The contract
/// claims that the outcome is a function of `encoded` alone and names it
/// [`gunzip`]: the decoder fails on a stream that is ill-formed or cut short,
/// and on one whose checksum or length does not match.
#[verifier::external_body]
pub(crate) fn gzip_decode(encoded: &[u8]) -> (decoded: Option<Vec<u8>>)
    ensures
        match decoded {
            Some(bytes) => gunzip(encoded@) == Some(bytes@),
            None => gunzip(encoded@) is None,
        },
{
    let mut decoder = GzDecoder::new(encoded);
    let mut data = Vec::new();
    match std::io::Read::read_to_end(&mut decoder, &mut data) {
        Ok(_) => Some(data),
        Err(_) => None,
    }
}

} // verus!
