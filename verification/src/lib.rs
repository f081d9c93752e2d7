//! A bridge between an HTTP-style request and the Common Gateway Interface
//! convention of an external version-control backend process.
//!
//! The verified core maps request metadata to the CGI environment, prepares
//! the request body for forwarding (inflating a gzip-encoded body), and
//! parses the backend's CGI output head: a block of `name: value` lines
//! terminated by a blank line, with a `Status` pseudo-header that carries the
//! status code. Process spawning and stream plumbing are left to the host.

pub mod body;
pub mod envmap;
pub mod errors;
pub mod headers;
pub mod parse;
pub mod text;

use vstd::prelude::*;

verus! {

/// The bridge configuration: the filesystem root handed to the backend
/// process as `GIT_PROJECT_ROOT`.
pub struct Serve(pub String);

/// Running the bridge twice on identical inputs gives identical outcomes.
///
/// Both halves of the bridge's work are functions of their inputs alone:
/// the bytes forwarded into the backend depend only on the request body and
/// its content encoding, and the response head depends only on the lines
/// the backend emitted. With a deterministic backend the whole response is
/// therefore byte-identical across repeated, identical invocations.
pub proof fn lemma_bridge_deterministic(
    encoding: Seq<char>,
    request_body: Seq<u8>,
    forwarded1: Option<Seq<u8>>,
    forwarded2: Option<Seq<u8>>,
    output_lines: Seq<Seq<char>>,
    head1: Option<((int, headers::HeadersView), int)>,
    head2: Option<((int, headers::HeadersView), int)>,
)
    requires
        forwarded1 == body::decoded_body(encoding, request_body),
        forwarded2 == body::decoded_body(encoding, request_body),
        head1 == parse::head_of_block(output_lines),
        head2 == parse::head_of_block(output_lines),
    ensures
        forwarded1 == forwarded2,
        head1 == head2,
{
}

} // verus!
