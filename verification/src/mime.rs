//! The trusted boundary around the `mailparse` crate, and the library's own
//! model of a MIME body tree.  `mailparse` turns raw message bytes into its
//! `ParsedMail` tree; the accessors here hand that tree's fields over as
//! plain values, and `convert_part` copies it into the library's `MimePart`
//! tree, on which all further logic is verified.
use mailparse::MailHeaderMap;
use vstd::prelude::*;

verus! {

/// A node of the MIME body tree, as plain values: the declared content
/// type, the first disposition header, the content-type `name` parameter,
/// the decoded and the raw body (absent where decoding failed), and the
/// subparts in document order.
pub struct MimePart {
    pub content_type: String,
    pub disposition: String,
    pub name_param: Option<String>,
    pub body_text: Option<String>,
    pub body_raw: Option<Vec<u8>>,
    pub subparts: Vec<MimePart>,
}

#[verifier::external_type_specification]
#[verifier::external_body]
pub struct ExParsedMail<'a>(mailparse::ParsedMail<'a>);

#[verifier::external_type_specification]
#[verifier::external_body]
pub struct ExMailHeader<'a>(mailparse::MailHeader<'a>);

/// Whether `mailparse` accepts a byte string as a MIME message, named but
/// not written out: the parser is deterministic, so acceptance depends on
/// the bytes alone.
pub uninterp spec fn mime_parses(raw: Seq<u8>) -> bool;

/// Relies on `mailparse::parse_mail`: the raw bytes parsed into a MIME
/// tree, or the parse error rendered as text.  The parser is a pure
/// function of the bytes, so success is exactly `mime_parses`.
#[verifier::external_body]
pub fn parse_mail_outer(raw: &[u8]) -> (r: Result<mailparse::ParsedMail<'_>, String>)
    ensures
        r is Ok <==> mime_parses(raw@),
{
    mailparse::parse_mail(raw).map_err(|e| e.to_string())
}

/// Relies on the `mimetype` field of `mailparse::ParsedContentType`.
#[verifier::external_body]
pub fn part_content_type(p: &mailparse::ParsedMail<'_>) -> (r: String) {
    p.ctype.mimetype.clone()
}

/// Relies on the `params` map of `mailparse::ParsedContentType`.
#[verifier::external_body]
pub fn part_param(p: &mailparse::ParsedMail<'_>, key: &str) -> (r: Option<String>) {
    p.ctype.params.get(key).cloned()
}

/// Relies on `mailparse::MailHeaderMap::get_first_value`: the value of the
/// first header whose name matches `key` case-insensitively.
#[verifier::external_body]
pub fn part_header_first(p: &mailparse::ParsedMail<'_>, key: &str) -> (r: Option<String>) {
    p.headers.get_first_value(key)
}

/// Relies on `mailparse::ParsedMail::get_body`: the transfer-decoded body.
#[verifier::external_body]
pub fn part_body_text(p: &mailparse::ParsedMail<'_>) -> (r: Option<String>) {
    p.get_body().ok()
}

/// Relies on `mailparse::ParsedMail::get_body_raw`: the body bytes after
/// transfer-decoding but before charset-decoding.
#[verifier::external_body]
pub fn part_body_raw(p: &mailparse::ParsedMail<'_>) -> (r: Option<Vec<u8>>) {
    p.get_body_raw().ok()
}

/// Relies on the `subparts` field of `mailparse::ParsedMail`.
#[verifier::external_body]
pub fn part_subparts<'a, 'b>(p: &'b mailparse::ParsedMail<'a>) -> (r: &'b Vec<
    mailparse::ParsedMail<'a>,
>) {
    &p.subparts
}

/// Relies on the `headers` field of `mailparse::ParsedMail`.
#[verifier::external_body]
pub fn part_headers<'a, 'b>(p: &'b mailparse::ParsedMail<'a>) -> (r: &'b Vec<
    mailparse::MailHeader<'a>,
>) {
    &p.headers
}

/// Relies on `mailparse::MailHeader::get_key`.
#[verifier::external_body]
pub fn header_key(h: &mailparse::MailHeader<'_>) -> (r: String) {
    h.get_key()
}

/// Relies on `mailparse::MailHeader::get_value`.
#[verifier::external_body]
pub fn header_value(h: &mailparse::MailHeader<'_>) -> (r: String) {
    h.get_value()
}

/// Copy a `mailparse` tree into the library's own tree, field by field.
/// Nesting deeper than `depth` levels is cut off (real messages nest only a
/// few levels).
pub fn convert_part(p: &mailparse::ParsedMail<'_>, depth: u32) -> (r: MimePart)
    decreases depth,
{
    let content_type = part_content_type(p);
    let disposition = match part_header_first(p, "Content-Disposition") {
        Some(d) => d,
        None => String::new(),
    };
    let name_param = part_param(p, "name");
    let body_text = part_body_text(p);
    let body_raw = part_body_raw(p);
    let mut subparts: Vec<MimePart> = Vec::new();
    if depth > 0 {
        let subs = part_subparts(p);
        let mut i: usize = 0;
        while i < subs.len()
            decreases subs@.len() - i,
        {
            let child = convert_part(&subs[i], depth - 1);
            subparts.push(child);
            i = i + 1;
        }
    }
    MimePart { content_type, disposition, name_param, body_text, body_raw, subparts }
}

} // verus!
