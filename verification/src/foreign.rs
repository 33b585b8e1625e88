//! Trusted declarations for the outside crates whose computations the
//! library uses in the middle of its logic: the SHA-256 digest, URL host
//! extraction, and matching of caller-supplied regular expressions.
//! Each item's contract states only what the outside crate's source and
//! documentation show.
use vstd::prelude::*;

use crate::patterns::ranges_ok;

verus! {

/// The SHA-256 digest of a byte string, named but not written out: the
/// digest is a pure function of the input bytes.
pub uninterp spec fn sha256_of(b: Seq<u8>) -> Seq<u8>;

/// Relies on `sha2::Sha256` through the `Digest` trait: the digest depends
/// on the input bytes alone and is exactly 32 bytes long.
#[verifier::external_body]
pub fn sha256(bytes: &[u8]) -> (r: Vec<u8>)
    ensures
        r@ == sha256_of(bytes@),
        r@.len() == 32,
{
    let d = <sha2::Sha256 as sha2::Digest>::digest(bytes);
    d.to_vec()
}

/// The host of a text that parses as a URL, named but not written out:
/// whether the text parses, and what its host is, depend on the text alone.
pub uninterp spec fn host_of(u: Seq<char>) -> Option<Seq<char>>;

/// Relies on `url::Url::parse` and `url::Url::host_str`: `None` when the
/// text does not parse as a URL or the URL has no host, else the host text.
#[verifier::external_body]
pub fn url_host(u: &str) -> (r: Option<String>)
    ensures
        match r {
            Some(h) => host_of(u@) == Some(h@),
            None => host_of(u@) is None,
        },
{
    match url::Url::parse(u) {
        Ok(p) => p.host_str().map(|h| h.to_string()),
        Err(_) => None,
    }
}

/// Whether a pattern compiles as a regular expression, named but not
/// written out: `regex::Regex::new` is a pure function of the pattern text.
pub uninterp spec fn regex_valid(pattern: Seq<char>) -> bool;

/// The character ranges of a valid pattern's non-overlapping matches in a
/// text, named but not written out: `regex::Regex::find_iter` is a pure
/// function of the pattern and the text.
pub uninterp spec fn regex_matches(pattern: Seq<char>, text: Seq<char>) -> Seq<(int, int)>;

/// Relies on `regex::Regex::new` and `regex::Regex::find_iter`: an invalid
/// pattern is reported as `None`; a valid pattern yields each match's
/// character range, in ascending position order, non-overlapping and within
/// the text.
#[verifier::external_body]
pub fn regex_match_ranges(pattern: &str, text: &str) -> (r: Option<Vec<(usize, usize)>>)
    ensures
        match r {
            Some(m) => regex_valid(pattern@) && crate::patterns::pairs_view(m@) == regex_matches(
                pattern@,
                text@,
            ) && ranges_ok(m@, text@.len() as int),
            None => !regex_valid(pattern@),
        },
{
    let re = match regex::Regex::new(pattern) {
        Ok(re) => re,
        Err(_) => {
            return None;
        },
    };
    Some(
        re.find_iter(text).map(
            |m| (text[..m.start()].chars().count(), text[..m.end()].chars().count()),
        ).collect(),
    )
}

} // verus!
