//! Trusted declarations for the outside crates the library computes with.
//!
//! Each item here is believed, not verified: its contract states only what
//! the named outside function's source and documentation show.

use vstd::prelude::*;

verus! {

/// The current date and time, formatted per RFC 2822.
///
/// Relies on `chrono::Utc::now` and `chrono::DateTime::to_rfc2822`. The
/// result depends on the clock, so nothing is promised of its value.
/// Like any caller of these two, this aborts if the system clock reads
/// before the Unix epoch and the formatter rejects years outside 0-9999;
/// both are conditions of the environment, not of any input.
#[verifier::external_body]
pub fn now_rfc2822() -> Vec<u8> {
    chrono::Utc::now().to_rfc2822().into_bytes()
}

/// Whether `b` is a valid UTF-8 encoding.
///
/// Relies on `std::str::from_utf8`, which succeeds exactly on valid UTF-8.
#[verifier::external_body]
pub fn is_valid_utf8(b: &[u8]) -> (r: bool)
    ensures
        r == vstd::utf8::valid_utf8(b@),
{
    std::str::from_utf8(b).is_ok()
}

/// The essence (`type/subtype`) of the MIME type guessed from a path's
/// extension.
///
/// Relies on `mime_guess::from_path`, a pure lookup of the path extension
/// in a static table, with `MimeGuess::first_or_octet_stream` and
/// `Mime::essence_str`: the result depends on the path bytes alone, and
/// defaults to `application/octet-stream`.
#[verifier::external_body]
pub fn mime_for_path(path: &Vec<u8>) -> (r: Vec<u8>)
    ensures
        r@ == mime_essence_of(path@),
{
    let p = String::from_utf8_lossy(path.as_slice());
    mime_guess::from_path(p.as_ref()).first_or_octet_stream().essence_str().as_bytes().to_vec()
}

/// The MIME essence that `mime_for_path` returns for the given path bytes.
pub uninterp spec fn mime_essence_of(path: Seq<u8>) -> Seq<u8>;

} // verus!
