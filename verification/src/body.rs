//! The compute half of the body forwarder: before the request body is
//! streamed into the backend's input, a body that arrived gzip-compressed
//! is transparently inflated. A corrupt compressed body aborts the request
//! before any head parsing is attempted.

use vstd::prelude::*;

use crate::errors::BridgeError;
use crate::text::str_eq;

verus! {

/// What inflating a gzip stream yields: the inflated bytes, or nothing when
/// the stream is corrupt. The outcome depends on the input bytes alone.
pub uninterp spec fn gunzip(data: Seq<u8>) -> Option<Seq<u8>>;

/// Relies on flate2's `read::GzDecoder` driven by `Read::read_to_end`:
/// inflating a gzip stream succeeds or fails as a function of the input
/// bytes alone.
#[verifier::external_body]
fn gunzip_bytes(data: &Vec<u8>) -> (r: Option<Vec<u8>>)
    ensures
        r matches Some(out) ==> gunzip(data@) == Some(out@),
        r is None ==> gunzip(data@) is None,
{
    let mut decoder = flate2::read::GzDecoder::new(&data[..]);
    let mut out = Vec::new();
    match std::io::Read::read_to_end(&mut decoder, &mut out) {
        Ok(_) => Some(out),
        Err(_) => None,
    }
}

/// The bytes the backend must see for a request body with the given content
/// encoding: the inflated bytes under `gzip` (nothing when the stream is
/// corrupt), the body itself under any other encoding.
pub open spec fn decoded_body(encoding: Seq<char>, body: Seq<u8>) -> Option<Seq<u8>> {
    if encoding == "gzip"@ {
        gunzip(body)
    } else {
        Some(body)
    }
}

/// Prepares the request body for forwarding into the backend's input
/// stream: a `gzip` content encoding is transparently inflated, any other
/// body passes through unchanged, and a corrupt compressed body fails with
/// `BodyDecodeError`.
pub fn prepare_body(content_encoding: &str, body: Vec<u8>) -> (r: Result<Vec<u8>, BridgeError>)
    ensures
        match r {
            Ok(out) => decoded_body(content_encoding@, body@) == Some(out@),
            Err(e) => {
                &&& e == BridgeError::BodyDecodeError
                &&& decoded_body(content_encoding@, body@) is None
            },
        },
{
    if str_eq(content_encoding, "gzip") {
        match gunzip_bytes(&body) {
            Some(out) => Ok(out),
            None => Err(BridgeError::BodyDecodeError),
        }
    } else {
        Ok(body)
    }
}

} // verus!
