//! The reply to a lookup: where to send the client, or that nothing was found.
use vstd::prelude::*;
use vstd::string::StringExecFns;
use vstd::utf8::encode_utf8;
use crate::catalog::{candidates_of, media_candidates};
use crate::resolve::{best_match, find_best_match, paths_of};

verus! {

/// A byte that percent-encoding leaves as it is: an ASCII letter or digit,
/// `-`, `.`, `_` or `~`.
pub open spec fn is_unreserved(b: u8) -> bool {
    ||| 0x30 <= b <= 0x39
    ||| 0x41 <= b <= 0x5a
    ||| 0x61 <= b <= 0x7a
    ||| b == 0x2d
    ||| b == 0x2e
    ||| b == 0x5f
    ||| b == 0x7e
}

/// The upper-case hexadecimal digit for a value below 16.
pub open spec fn hex_digit(d: u8) -> char {
    if d < 10 {
        ((0x30 + d) as u8) as char
    } else {
        ((0x37 + d) as u8) as char
    }
}

/// One byte, percent-encoded.
pub open spec fn encoded_byte(b: u8) -> Seq<char> {
    if is_unreserved(b) {
        seq![b as char]
    } else {
        seq!['%', hex_digit(b / 16), hex_digit(b % 16)]
    }
}

/// A byte string, percent-encoded byte by byte.
pub open spec fn encoded_bytes(bytes: Seq<u8>) -> Seq<char>
    decreases bytes.len(),
{
    if bytes.len() == 0 {
        Seq::empty()
    } else {
        encoded_bytes(bytes.drop_last()) + encoded_byte(bytes.last())
    }
}

/// A string, percent-encoded: each byte of its UTF-8 form that is not
/// unreserved becomes `%` and two hexadecimal digits.
pub open spec fn percent_encoded(s: Seq<char>) -> Seq<char> {
    encoded_bytes(encode_utf8(s))
}

/// The redirect target for the candidate `path`.
pub open spec fn location_of(path: Seq<char>) -> Seq<char> {
    "/files/"@ + percent_encoded(path)
}

/// The answer to a lookup.
#[derive(Debug)]
pub enum Reply {
    /// Send the client to this location.
    SeeOther(String),
    /// No candidate matched.
    NotFound,
    /// The media root could not be read.
    Failed,
}

/// What a walk of the media root came to.
#[derive(Debug)]
pub enum Scan {
    /// The root is missing or cannot be read.
    Unreadable,
    /// The files that the walk reached, by their paths.
    Walked(Vec<String>),
}

impl Reply {
    /// The location that the reply sends the client to, if any.
    pub open spec fn target(self) -> Option<Seq<char>> {
        match self {
            Reply::SeeOther(location) => Some(location@),
            Reply::NotFound => None,
            Reply::Failed => None,
        }
    }
}

/// The reply that is owed for the outcome of a resolution.
pub open spec fn reply_for(found: Option<Seq<char>>) -> Option<Seq<char>> {
    match found {
        Some(path) => Some(location_of(path)),
        None => None,
    }
}

/// Calls `urlencoding::encode`. Trusted: the result is the UTF-8 form of `s`
/// with every byte but ASCII letters, digits, `-`, `.`, `_` and `~` replaced
/// by `%` and its two upper-case hexadecimal digits.
#[verifier::external_body]
fn percent_encode(s: &str) -> (r: String)
    ensures
        r@ == percent_encoded(s@),
{
    urlencoding::encode(s).into_owned()
}

/// The location under `/files/` at which the candidate `path` is served,
/// with the path percent-encoded.
pub fn redirect_location(path: &str) -> (location: String)
    ensures
        location@ == location_of(path@),
{
    let encoded = percent_encode(path);
    let mut location = String::from_str("/files/");
    location.append(encoded.as_str());
    location
}

/// Answers a lookup: a redirect to the best match among `files`, or not
/// found where no candidate's rating lies above the threshold.
pub fn respond(query: &str, files: &[String]) -> (reply: Reply)
    ensures
        reply.target() == reply_for(best_match(query@, paths_of(files@))),
        !(reply is Failed),
{
    match find_best_match(query, files) {
        Some(path) => Reply::SeeOther(redirect_location(path)),
        None => Reply::NotFound,
    }
}

/// Answers a lookup from what a walk of `root` came to. A root that could
/// not be read is a failure, which is not the same as finding nothing;
/// otherwise the media files among the walked ones are the candidates.
pub fn answer(root: &str, scan: &Scan, query: &str) -> (reply: Reply)
    ensures
        reply is Failed <==> scan is Unreadable,
        scan matches Scan::Walked(walked) ==> reply.target() == reply_for(
            best_match(query@, candidates_of(root@, paths_of(walked@))),
        ),
{
    match scan {
        Scan::Unreadable => Reply::Failed,
        Scan::Walked(walked) => {
            let files = media_candidates(root, walked.as_slice());
            respond(query, files.as_slice())
        },
    }
}

} // verus!
