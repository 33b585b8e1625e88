//! The email model builder: turns raw message bytes into a structured
//! email — headers, canonical fields, plain-text and HTML bodies gathered
//! from the MIME tree, attachments with their digests, the interpretation
//! of the authentication headers, and the indicator fields extracted from
//! the bodies and headers.
use vstd::prelude::*;
use vstd::string::{StringExecFns, StringSliceAdditionalSpecFns};

use crate::foreign::{host_of, sha256, sha256_of, url_host};
use crate::mime::{
    convert_part, header_key, header_value, mime_parses, parse_mail_outer, part_headers, MimePart,
};
use crate::patterns::{
    const_reps, const_reps_exec, find_fname, first_fname, pairs_view, ranges_wf, scan_href_spec,
    scan_hrefs, scan_pattern, scan_spec, splice_exec, splice_from, trim_trailing,
    trim_trailing_exec, Pattern,
};
use crate::text::{
    add_unique, append_range, chars_equal, contains_seq, contains_sub, ends_with, from_chars,
    has_prefix, has_suffix, hex_encode, hex_of, insert_unique, is_space, lower, space, starts_with,
    strs_view, to_chars, to_lower, views_distinct,
};

verus! {

#[derive(Clone)]
pub struct EmailHeader {
    pub name: String,
    pub value: String,
}

#[derive(Clone)]
pub struct Attachment {
    pub filename: String,
    pub content_type: String,
    pub size: usize,
    pub sha256: String,
}

#[derive(Clone)]
pub struct AuthenticationResult {
    pub spf: Option<String>,
    pub dkim: Option<String>,
    pub dmarc: Option<String>,
    pub spf_status: String,
    pub dkim_status: String,
    pub dmarc_status: String,
}

pub struct ParsedEmail {
    pub id: String,
    pub subject: String,
    pub from: String,
    pub to: String,
    pub reply_to: Option<String>,
    pub return_path: Option<String>,
    pub date: Option<String>,
    pub headers: Vec<EmailHeader>,
    pub body_text: String,
    pub body_html: String,
    pub urls: Vec<String>,
    pub domains: Vec<String>,
    pub ip_addresses: Vec<String>,
    pub email_addresses: Vec<String>,
    pub attachments: Vec<Attachment>,
    pub authentication: AuthenticationResult,
    pub raw_content: String,
}

// ---------------------------------------------------------------------------
// Header lookup
// ---------------------------------------------------------------------------

/// The value of the first header at or after `i` whose name matches
/// `lname` (already lower-cased) up to ASCII case.
pub open spec fn header_lookup_from(hs: Seq<EmailHeader>, lname: Seq<char>, i: int) -> Option<
    Seq<char>,
>
    decreases hs.len() - i,
{
    if !(0 <= i && i < hs.len()) {
        None
    } else if lower(hs[i].name@) == lname {
        Some(hs[i].value@)
    } else {
        header_lookup_from(hs, lname, i + 1)
    }
}

pub open spec fn header_lookup(hs: Seq<EmailHeader>, name: Seq<char>) -> Option<Seq<char>> {
    header_lookup_from(hs, lower(name), 0)
}

pub open spec fn header_or_empty(hs: Seq<EmailHeader>, name: Seq<char>) -> Seq<char> {
    match header_lookup(hs, name) {
        Some(v) => v,
        None => Seq::empty(),
    }
}

/// The value of the first header whose name matches `name`
/// case-insensitively.
pub fn extract_header(headers: &Vec<EmailHeader>, name: &str) -> (r: Option<String>)
    ensures
        match r {
            Some(s) => header_lookup(headers@, name@) == Some(s@),
            None => header_lookup(headers@, name@) is None,
        },
{
    let nv = to_chars(name);
    let lname = to_lower(&nv);
    let mut i: usize = 0;
    while i < headers.len()
        invariant
            i <= headers@.len(),
            header_lookup_from(headers@, lower(name@), 0) == header_lookup_from(
                headers@,
                lower(name@),
                i as int,
            ),
        decreases headers@.len() - i,
    {
        let hn = to_chars(headers[i].name.as_str());
        let hl = to_lower(&hn);
        if chars_equal(&hl, &lname) {
            return Some(headers[i].value.clone());
        }
        i = i + 1;
    }
    None
}

fn header_string_or_empty(headers: &Vec<EmailHeader>, name: &str) -> (r: String)
    ensures
        r@ == header_or_empty(headers@, name@),
{
    match extract_header(headers, name) {
        Some(s) => s,
        None => String::new(),
    }
}

// ---------------------------------------------------------------------------
// Authentication results
// ---------------------------------------------------------------------------

/// The SPF status read from the lower-cased `Authentication-Results` and
/// `Received-SPF` values by substring search, first match winning.
/// Softfail is tested before fail: `softfail` contains `fail` as a
/// substring, and softfail is its own status with its own score weight.
pub open spec fn spf_status_spec(auth_l: Seq<char>, spf_l: Seq<char>) -> Seq<char> {
    if contains_seq(auth_l, ("spf=pass")@) || contains_seq(spf_l, ("pass")@) {
        ("pass")@
    } else if contains_seq(auth_l, ("spf=softfail")@) || contains_seq(spf_l, ("softfail")@) {
        ("softfail")@
    } else if contains_seq(auth_l, ("spf=fail")@) || contains_seq(spf_l, ("fail")@) {
        ("fail")@
    } else if contains_seq(auth_l, ("spf=neutral")@) || contains_seq(spf_l, ("neutral")@) {
        ("neutral")@
    } else {
        ("unknown")@
    }
}

pub open spec fn dkim_status_spec(auth_l: Seq<char>, has_sig: bool) -> Seq<char> {
    if contains_seq(auth_l, ("dkim=pass")@) {
        ("pass")@
    } else if contains_seq(auth_l, ("dkim=fail")@) {
        ("fail")@
    } else if has_sig {
        ("present")@
    } else {
        ("unknown")@
    }
}

pub open spec fn dmarc_status_spec(auth_l: Seq<char>) -> Seq<char> {
    if contains_seq(auth_l, ("dmarc=pass")@) {
        ("pass")@
    } else if contains_seq(auth_l, ("dmarc=fail")@) {
        ("fail")@
    } else if contains_seq(auth_l, ("dmarc=none")@) {
        ("none")@
    } else {
        ("unknown")@
    }
}

/// Read the SPF, DKIM and DMARC statuses from the headers, keeping the raw
/// evidence values.
pub fn parse_authentication_results(headers: &Vec<EmailHeader>) -> (r: AuthenticationResult)
    ensures
        ({
            let auth = header_or_empty(headers@, ("Authentication-Results")@);
            let spf = header_or_empty(headers@, ("Received-SPF")@);
            let sig = header_lookup(headers@, ("DKIM-Signature")@);
            &&& r.spf_status@ == spf_status_spec(lower(auth), lower(spf))
            &&& r.dkim_status@ == dkim_status_spec(lower(auth), sig is Some)
            &&& r.dmarc_status@ == dmarc_status_spec(lower(auth))
            &&& (spf.len() == 0 ==> r.spf is None)
            &&& (spf.len() > 0 ==> r.spf is Some && r.spf->Some_0@ == spf)
            &&& (match sig {
                Some(v) => r.dkim is Some && r.dkim->Some_0@ == v,
                None => r.dkim is None,
            })
            &&& (auth.len() == 0 ==> r.dmarc is None)
            &&& (auth.len() > 0 ==> r.dmarc is Some && r.dmarc->Some_0@ == auth)
        }),
{
    let auth = header_string_or_empty(headers, "Authentication-Results");
    let spf = header_string_or_empty(headers, "Received-SPF");
    let sig = extract_header(headers, "DKIM-Signature");
    let auth_l = to_lower(&to_chars(auth.as_str()));
    let spf_l = to_lower(&to_chars(spf.as_str()));

    let spf_status = if contains_sub(&auth_l, &to_chars("spf=pass")) || contains_sub(
        &spf_l,
        &to_chars("pass"),
    ) {
        "pass".to_owned()
    } else if contains_sub(&auth_l, &to_chars("spf=softfail")) || contains_sub(
        &spf_l,
        &to_chars("softfail"),
    ) {
        "softfail".to_owned()
    } else if contains_sub(&auth_l, &to_chars("spf=fail")) || contains_sub(
        &spf_l,
        &to_chars("fail"),
    ) {
        "fail".to_owned()
    } else if contains_sub(&auth_l, &to_chars("spf=neutral")) || contains_sub(
        &spf_l,
        &to_chars("neutral"),
    ) {
        "neutral".to_owned()
    } else {
        "unknown".to_owned()
    };

    let dkim_status = if contains_sub(&auth_l, &to_chars("dkim=pass")) {
        "pass".to_owned()
    } else if contains_sub(&auth_l, &to_chars("dkim=fail")) {
        "fail".to_owned()
    } else if sig.is_some() {
        "present".to_owned()
    } else {
        "unknown".to_owned()
    };

    let dmarc_status = if contains_sub(&auth_l, &to_chars("dmarc=pass")) {
        "pass".to_owned()
    } else if contains_sub(&auth_l, &to_chars("dmarc=fail")) {
        "fail".to_owned()
    } else if contains_sub(&auth_l, &to_chars("dmarc=none")) {
        "none".to_owned()
    } else {
        "unknown".to_owned()
    };

    let spf_field = if spf.as_str().is_empty() {
        None
    } else {
        Some(spf)
    };
    let dmarc_field = if auth.as_str().is_empty() {
        None
    } else {
        Some(auth)
    };
    AuthenticationResult {
        spf: spf_field,
        dkim: sig,
        dmarc: dmarc_field,
        spf_status,
        dkim_status,
        dmarc_status,
    }
}

// ---------------------------------------------------------------------------
// Body extraction from the MIME tree
// ---------------------------------------------------------------------------

/// Depth-first walk: multipart nodes recurse into their children in
/// document order; a decoded `text/plain` leaf replaces the plain body, a
/// decoded `text/html` leaf the HTML body; the last such leaf wins.
pub open spec fn fold_bodies(p: MimePart, acc: (Seq<char>, Seq<char>)) -> (Seq<char>, Seq<char>)
    decreases p, p.subparts.len() + 1,
{
    let ct = lower(p.content_type@);
    if has_prefix(ct, ("multipart/")@) {
        fold_children(p, 0, acc)
    } else if ct == ("text/plain")@ && p.body_text is Some {
        (p.body_text->Some_0@, acc.1)
    } else if ct == ("text/html")@ && p.body_text is Some {
        (acc.0, p.body_text->Some_0@)
    } else {
        acc
    }
}

pub open spec fn fold_children(p: MimePart, i: int, acc: (Seq<char>, Seq<char>)) -> (
    Seq<char>,
    Seq<char>,
)
    decreases p, p.subparts.len() - i,
{
    if !(0 <= i && i < p.subparts.len()) {
        acc
    } else {
        fold_children(p, i + 1, fold_bodies(p.subparts[i], acc))
    }
}

pub fn fold_bodies_exec(p: &MimePart, acc: (Vec<char>, Vec<char>)) -> (r: (Vec<char>, Vec<char>))
    ensures
        (r.0@, r.1@) == fold_bodies(*p, (acc.0@, acc.1@)),
    decreases *p, p.subparts@.len() + 1,
{
    let ctl = to_lower(&to_chars(p.content_type.as_str()));
    if starts_with(&ctl, &to_chars("multipart/")) {
        let mut cur = acc;
        let ghost acc0 = (cur.0@, cur.1@);
        let mut i: usize = 0;
        while i < p.subparts.len()
            invariant
                i <= p.subparts@.len(),
                fold_children(*p, 0, acc0) == fold_children(*p, i as int, (cur.0@, cur.1@)),
            decreases p.subparts@.len() - i,
        {
            cur = fold_bodies_exec(&p.subparts[i], cur);
            i = i + 1;
        }
        cur
    } else if chars_equal(&ctl, &to_chars("text/plain")) {
        match &p.body_text {
            Some(b) => (to_chars(b.as_str()), acc.1),
            None => acc,
        }
    } else if chars_equal(&ctl, &to_chars("text/html")) {
        match &p.body_text {
            Some(b) => (acc.0, to_chars(b.as_str())),
            None => acc,
        }
    } else {
        acc
    }
}

// ---------------------------------------------------------------------------
// HTML stripping
// ---------------------------------------------------------------------------

/// Every tag replaced by a space.
pub open spec fn strip_tags(h: Seq<char>) -> Seq<char> {
    splice_from(
        h,
        scan_spec(Pattern::Tag, h, 0),
        const_reps(scan_spec(Pattern::Tag, h, 0).len(), seq![' ']),
        0,
        0,
    )
}

/// Every whitespace run collapsed to one space.
pub open spec fn collapse_ws(t: Seq<char>) -> Seq<char> {
    splice_from(
        t,
        scan_spec(Pattern::Ws, t, 0),
        const_reps(scan_spec(Pattern::Ws, t, 0).len(), seq![' ']),
        0,
        0,
    )
}

pub open spec fn trim_start_sp(s: Seq<char>) -> Seq<char>
    decreases s.len(),
{
    if s.len() > 0 && is_space(s[0]) {
        trim_start_sp(s.drop_first())
    } else {
        s
    }
}

pub open spec fn trim_end_sp(s: Seq<char>) -> Seq<char>
    decreases s.len(),
{
    if s.len() > 0 && is_space(s.last()) {
        trim_end_sp(s.drop_last())
    } else {
        s
    }
}

/// Tags removed, whitespace collapsed, ends trimmed.
pub open spec fn strip_html_spec(h: Seq<char>) -> Seq<char> {
    trim_end_sp(trim_start_sp(collapse_ws(strip_tags(h))))
}

fn trim_spaces(v: &Vec<char>) -> (r: Vec<char>)
    ensures
        r@ == trim_end_sp(trim_start_sp(v@)),
{
    let n = v.len();
    let mut a: usize = 0;
    assert(v@.skip(0) =~= v@);
    while a < n && space(v[a])
        invariant
            a <= n,
            trim_start_sp(v@) == trim_start_sp(v@.skip(a as int)),
        decreases n - a,
    {
        assert(v@.skip(a as int).drop_first() =~= v@.skip(a as int + 1));
        a = a + 1;
    }
    assert(trim_start_sp(v@) == v@.skip(a as int));
    let mut e: usize = n;
    assert(v@.subrange(a as int, e as int) =~= v@.skip(a as int));
    while e > a && space(v[e - 1])
        invariant
            a <= e <= n,
            trim_end_sp(v@.skip(a as int)) == trim_end_sp(v@.subrange(a as int, e as int)),
        decreases e,
    {
        assert(v@.subrange(a as int, e as int).drop_last() =~= v@.subrange(a as int, e as int - 1));
        e = e - 1;
    }
    assert(trim_end_sp(v@.subrange(a as int, e as int)) == v@.subrange(a as int, e as int));
    let mut r: Vec<char> = Vec::new();
    append_range(&mut r, v, a, e);
    r
}

/// Remove tag-delimited spans, collapse whitespace runs to single spaces,
/// and trim the ends.
pub fn strip_html(h: &Vec<char>) -> (r: Vec<char>)
    ensures
        r@ == strip_html_spec(h@),
{
    let sp: Vec<char> = vec![' '];
    assert(sp@ =~= seq![' ']);
    let m1 = scan_pattern(h, Pattern::Tag);
    let r1 = const_reps_exec(m1.len(), &sp);
    let t1 = splice_exec(h, &m1, &r1);
    let m2 = scan_pattern(&t1, Pattern::Ws);
    let r2 = const_reps_exec(m2.len(), &sp);
    let t2 = splice_exec(&t1, &m2, &r2);
    trim_spaces(&t2)
}

// ---------------------------------------------------------------------------
// Attachments
// ---------------------------------------------------------------------------

/// The ghost image of an attachment record.
pub struct AttView {
    pub filename: Seq<char>,
    pub content_type: Seq<char>,
    pub size: int,
    pub sha256: Seq<char>,
}

/// A leaf is an attachment when its disposition mentions `attachment` or
/// its content type is neither `text/*` nor `multipart/*`.
pub open spec fn eligible_leaf(p: MimePart) -> bool {
    let ctl = lower(p.content_type@);
    contains_seq(p.disposition@, ("attachment")@) || (!has_prefix(ctl, ("text/")@) && !has_prefix(
        ctl,
        ("multipart/")@,
    ))
}

/// The attachment's filename: the content-type `name` parameter, else the
/// first filename token of the disposition header, else `unknown`.
pub open spec fn filename_view(p: MimePart) -> Seq<char> {
    match p.name_param {
        Some(n) => n@,
        None => match first_fname(p.disposition@, 0) {
            Some(t) => p.disposition@.subrange(t.0, t.1),
            None => ("unknown")@,
        },
    }
}

pub open spec fn att_of(p: MimePart) -> AttView {
    AttView {
        filename: filename_view(p),
        content_type: p.content_type@,
        size: p.body_raw->Some_0@.len() as int,
        sha256: hex_of(sha256_of(p.body_raw->Some_0@)),
    }
}

pub open spec fn fold_atts(p: MimePart, acc: Seq<AttView>) -> Seq<AttView>
    decreases p, p.subparts.len() + 1,
{
    let ctl = lower(p.content_type@);
    if has_prefix(ctl, ("multipart/")@) {
        fold_atts_children(p, 0, acc)
    } else if eligible_leaf(p) && p.body_raw is Some {
        acc.push(att_of(p))
    } else {
        acc
    }
}

pub open spec fn fold_atts_children(p: MimePart, i: int, acc: Seq<AttView>) -> Seq<AttView>
    decreases p, p.subparts.len() - i,
{
    if !(0 <= i && i < p.subparts.len()) {
        acc
    } else {
        fold_atts_children(p, i + 1, fold_atts(p.subparts[i], acc))
    }
}

pub open spec fn att_view(a: Attachment) -> AttView {
    AttView {
        filename: a.filename@,
        content_type: a.content_type@,
        size: a.size as int,
        sha256: a.sha256@,
    }
}

pub open spec fn atts_view(v: Seq<Attachment>) -> Seq<AttView> {
    v.map_values(|a: Attachment| att_view(a))
}

pub fn fold_atts_exec(p: &MimePart, acc: Vec<Attachment>) -> (r: Vec<Attachment>)
    ensures
        atts_view(r@) == fold_atts(*p, atts_view(acc@)),
    decreases *p, p.subparts@.len() + 1,
{
    let ctl = to_lower(&to_chars(p.content_type.as_str()));
    if starts_with(&ctl, &to_chars("multipart/")) {
        let mut cur = acc;
        let ghost acc0 = atts_view(cur@);
        let mut i: usize = 0;
        while i < p.subparts.len()
            invariant
                i <= p.subparts@.len(),
                fold_atts_children(*p, 0, acc0) == fold_atts_children(*p, i as int, atts_view(cur@)),
            decreases p.subparts@.len() - i,
        {
            cur = fold_atts_exec(&p.subparts[i], cur);
            i = i + 1;
        }
        cur
    } else {
        let disp = to_chars(p.disposition.as_str());
        let eligible = contains_sub(&disp, &to_chars("attachment")) || (!starts_with(
            &ctl,
            &to_chars("text/"),
        ) && !starts_with(&ctl, &to_chars("multipart/")));
        if eligible {
            match &p.body_raw {
                Some(raw) => {
                    let digest = sha256(raw.as_slice());
                    let hash = from_chars(&hex_encode(&digest));
                    let filename: String = match &p.name_param {
                        Some(n) => n.clone(),
                        None => {
                            match find_fname(&disp) {
                                Some(t) => {
                                    let mut fv: Vec<char> = Vec::new();
                                    append_range(&mut fv, &disp, t.0, t.1);
                                    from_chars(&fv)
                                },
                                None => "unknown".to_owned(),
                            }
                        },
                    };
                    let mut cur = acc;
                    let ghost acc0 = atts_view(cur@);
                    let att = Attachment {
                        filename,
                        content_type: p.content_type.clone(),
                        size: raw.len(),
                        sha256: hash,
                    };
                    assert(att_view(att) == att_of(*p));
                    cur.push(att);
                    assert(atts_view(cur@) =~= acc0.push(att_of(*p)));
                    cur
                },
                None => acc,
            }
        } else {
            acc
        }
    }
}

// ---------------------------------------------------------------------------
// Indicator extraction from bodies and headers
// ---------------------------------------------------------------------------

/// Add each URL match of `t` (trailing punctuation trimmed), deduplicated.
pub open spec fn add_urls(acc: Seq<Seq<char>>, t: Seq<char>, m: Seq<(int, int)>, k: int) -> Seq<
    Seq<char>,
>
    decreases m.len() - k,
{
    if !(0 <= k && k < m.len()) {
        acc
    } else {
        add_urls(add_unique(acc, trim_trailing(t.subrange(m[k].0, m[k].1))), t, m, k + 1)
    }
}

/// Add each anchor value of `h` that begins with `http`, deduplicated.
pub open spec fn add_hrefs(acc: Seq<Seq<char>>, h: Seq<char>, m: Seq<(int, int)>, k: int) -> Seq<
    Seq<char>,
>
    decreases m.len() - k,
{
    if !(0 <= k && k < m.len()) {
        acc
    } else {
        let u = h.subrange(m[k].0, m[k].1);
        add_hrefs(
            if has_prefix(u, ("http")@) {
                add_unique(acc, u)
            } else {
                acc
            },
            h,
            m,
            k + 1,
        )
    }
}

/// All URLs of the plain body, the HTML body, and the HTML anchors, as one
/// deduplicated list in scan order.
pub open spec fn urls_spec(t: Seq<char>, h: Seq<char>) -> Seq<Seq<char>> {
    add_hrefs(
        add_urls(
            add_urls(Seq::empty(), t, scan_spec(Pattern::Url, t, 0), 0),
            h,
            scan_spec(Pattern::Url, h, 0),
            0,
        ),
        h,
        scan_href_spec(h, 0),
        0,
    )
}

fn add_urls_exec(acc: &mut Vec<String>, t: &Vec<char>, m: &Vec<(usize, usize)>)
    requires
        ranges_wf(m@, t@.len() as int),
    ensures
        strs_view(final(acc)@) == add_urls(strs_view(old(acc)@), t@, pairs_view(m@), 0),
        views_distinct(old(acc)@) ==> views_distinct(final(acc)@),
{
    let mut k: usize = 0;
    while k < m.len()
        invariant
            k <= m@.len(),
            add_urls(strs_view(old(acc)@), t@, pairs_view(m@), 0) == add_urls(
                strs_view(acc@),
                t@,
                pairs_view(m@),
                k as int,
            ),
            views_distinct(old(acc)@) ==> views_distinct(acc@),
        decreases m@.len() - k,
    {
        let (a, b) = m[k];
        let mut sub: Vec<char> = Vec::new();
        append_range(&mut sub, t, a, b);
        let trimmed = trim_trailing_exec(&sub);
        insert_unique(acc, from_chars(&trimmed));
        k = k + 1;
    }
}

fn add_hrefs_exec(acc: &mut Vec<String>, h: &Vec<char>, m: &Vec<(usize, usize)>)
    requires
        ranges_wf(m@, h@.len() as int),
    ensures
        strs_view(final(acc)@) == add_hrefs(strs_view(old(acc)@), h@, pairs_view(m@), 0),
        views_distinct(old(acc)@) ==> views_distinct(final(acc)@),
{
    let mut k: usize = 0;
    while k < m.len()
        invariant
            k <= m@.len(),
            add_hrefs(strs_view(old(acc)@), h@, pairs_view(m@), 0) == add_hrefs(
                strs_view(acc@),
                h@,
                pairs_view(m@),
                k as int,
            ),
            views_distinct(old(acc)@) ==> views_distinct(acc@),
        decreases m@.len() - k,
    {
        let (a, b) = m[k];
        let mut sub: Vec<char> = Vec::new();
        append_range(&mut sub, h, a, b);
        if starts_with(&sub, &to_chars("http")) {
            insert_unique(acc, from_chars(&sub));
        }
        k = k + 1;
    }
}

/// Scan plain text and HTML for URLs (trimming trailing punctuation), add
/// the anchor values of the HTML that begin with `http`, and deduplicate.
#[verifier::rlimit(100)]
pub fn extract_urls(text: &str, html: &str) -> (r: Vec<String>)
    ensures
        strs_view(r@) == urls_spec(text@, html@),
        views_distinct(r@),
{
    let t = to_chars(text);
    let h = to_chars(html);
    let mut acc: Vec<String> = Vec::new();
    assert(strs_view(acc@) =~= Seq::<Seq<char>>::empty());
    let m1 = scan_pattern(&t, Pattern::Url);
    add_urls_exec(&mut acc, &t, &m1);
    assert(strs_view(acc@) == add_urls(
        Seq::empty(),
        text@,
        scan_spec(Pattern::Url, text@, 0),
        0,
    ));
    let m2 = scan_pattern(&h, Pattern::Url);
    add_urls_exec(&mut acc, &h, &m2);
    let m3 = scan_hrefs(&h);
    add_hrefs_exec(&mut acc, &h, &m3);
    acc
}

/// Add the lower-cased host of each URL that parses, deduplicated.
pub open spec fn add_hosts(acc: Seq<Seq<char>>, us: Seq<Seq<char>>, k: int) -> Seq<Seq<char>>
    decreases us.len() - k,
{
    if !(0 <= k && k < us.len()) {
        acc
    } else {
        let nxt = match host_of(us[k]) {
            Some(h) => add_unique(acc, lower(h)),
            None => acc,
        };
        add_hosts(nxt, us, k + 1)
    }
}

/// Image and stylesheet suffixes that disqualify a domain-like token.
pub open spec fn bad_ext(d: Seq<char>) -> bool {
    has_suffix(d, (".png")@) || has_suffix(d, (".jpg")@) || has_suffix(d, (".gif")@) || has_suffix(
        d,
        (".css")@,
    )
}

/// Add each lower-cased domain-like token of `t` without a disqualifying
/// suffix, deduplicated.
pub open spec fn add_domain_tokens(acc: Seq<Seq<char>>, t: Seq<char>, m: Seq<(int, int)>, k: int) -> Seq<
    Seq<char>,
>
    decreases m.len() - k,
{
    if !(0 <= k && k < m.len()) {
        acc
    } else {
        let d = lower(t.subrange(m[k].0, m[k].1));
        add_domain_tokens(
            if !bad_ext(d) {
                add_unique(acc, d)
            } else {
                acc
            },
            t,
            m,
            k + 1,
        )
    }
}

pub open spec fn domains_spec(us: Seq<Seq<char>>, t: Seq<char>) -> Seq<Seq<char>> {
    add_domain_tokens(add_hosts(Seq::empty(), us, 0), t, scan_spec(Pattern::Domain, t, 0), 0)
}

/// Hosts of the extracted URLs, then bare domain-like tokens of the plain
/// text, lower-cased and deduplicated.
pub fn extract_domains(urls: &Vec<String>, text: &str) -> (r: Vec<String>)
    ensures
        strs_view(r@) == domains_spec(strs_view(urls@), text@),
        views_distinct(r@),
{
    let mut acc: Vec<String> = Vec::new();
    assert(strs_view(acc@) =~= Seq::<Seq<char>>::empty());
    let mut k: usize = 0;
    while k < urls.len()
        invariant
            k <= urls@.len(),
            add_hosts(Seq::empty(), strs_view(urls@), 0) == add_hosts(
                strs_view(acc@),
                strs_view(urls@),
                k as int,
            ),
            views_distinct(acc@),
        decreases urls@.len() - k,
    {
        assert(strs_view(urls@)[k as int] == urls@[k as int]@);
        match url_host(urls[k].as_str()) {
            Some(h) => {
                let hl = to_lower(&to_chars(h.as_str()));
                insert_unique(&mut acc, from_chars(&hl));
            },
            None => {},
        }
        k = k + 1;
    }
    let t = to_chars(text);
    let m = scan_pattern(&t, Pattern::Domain);
    let mut j: usize = 0;
    let ghost hosts = strs_view(acc@);
    while j < m.len()
        invariant
            j <= m@.len(),
            ranges_wf(m@, t@.len() as int),
            pairs_view(m@) == scan_spec(Pattern::Domain, t@, 0),
            add_domain_tokens(hosts, t@, pairs_view(m@), 0) == add_domain_tokens(
                strs_view(acc@),
                t@,
                pairs_view(m@),
                j as int,
            ),
            views_distinct(acc@),
        decreases m@.len() - j,
    {
        let (a, b) = m[j];
        let mut sub: Vec<char> = Vec::new();
        append_range(&mut sub, &t, a, b);
        let d = to_lower(&sub);
        let keep = !(ends_with(&d, &to_chars(".png")) || ends_with(&d, &to_chars(".jpg"))
            || ends_with(&d, &to_chars(".gif")) || ends_with(&d, &to_chars(".css")));
        if keep {
            insert_unique(&mut acc, from_chars(&d));
        }
        j = j + 1;
    }
    acc
}

/// Private and loopback prefixes suppressed from IP extraction.
pub open spec fn ip_private(d: Seq<char>) -> bool {
    has_prefix(d, ("10.")@) || has_prefix(d, ("192.168.")@) || has_prefix(d, ("127.")@)
        || has_prefix(d, ("0.")@)
}

/// Add each public IPv4 literal of `t`, deduplicated.
pub open spec fn add_ips(acc: Seq<Seq<char>>, t: Seq<char>, m: Seq<(int, int)>, k: int) -> Seq<
    Seq<char>,
>
    decreases m.len() - k,
{
    if !(0 <= k && k < m.len()) {
        acc
    } else {
        let d = t.subrange(m[k].0, m[k].1);
        add_ips(
            if !ip_private(d) {
                add_unique(acc, d)
            } else {
                acc
            },
            t,
            m,
            k + 1,
        )
    }
}

pub open spec fn add_header_ips(acc: Seq<Seq<char>>, hs: Seq<EmailHeader>, j: int) -> Seq<
    Seq<char>,
>
    decreases hs.len() - j,
{
    if !(0 <= j && j < hs.len()) {
        acc
    } else {
        add_header_ips(
            add_ips(acc, hs[j].value@, scan_spec(Pattern::Ip, hs[j].value@, 0), 0),
            hs,
            j + 1,
        )
    }
}

pub open spec fn ips_spec(hs: Seq<EmailHeader>) -> Seq<Seq<char>> {
    add_header_ips(Seq::empty(), hs, 0)
}

fn add_ips_exec(acc: &mut Vec<String>, t: &Vec<char>)
    ensures
        strs_view(final(acc)@) == add_ips(
            strs_view(old(acc)@),
            t@,
            scan_spec(Pattern::Ip, t@, 0),
            0,
        ),
        views_distinct(old(acc)@) ==> views_distinct(final(acc)@),
{
    let m = scan_pattern(t, Pattern::Ip);
    let mut k: usize = 0;
    while k < m.len()
        invariant
            k <= m@.len(),
            ranges_wf(m@, t@.len() as int),
            pairs_view(m@) == scan_spec(Pattern::Ip, t@, 0),
            add_ips(strs_view(old(acc)@), t@, pairs_view(m@), 0) == add_ips(
                strs_view(acc@),
                t@,
                pairs_view(m@),
                k as int,
            ),
            views_distinct(old(acc)@) ==> views_distinct(acc@),
        decreases m@.len() - k,
    {
        let (a, b) = m[k];
        let mut sub: Vec<char> = Vec::new();
        append_range(&mut sub, t, a, b);
        let keep = !(starts_with(&sub, &to_chars("10.")) || starts_with(
            &sub,
            &to_chars("192.168."),
        ) || starts_with(&sub, &to_chars("127.")) || starts_with(&sub, &to_chars("0.")));
        if keep {
            insert_unique(acc, from_chars(&sub));
        }
        k = k + 1;
    }
}

/// IPv4 literals of the header values, private and loopback ranges
/// suppressed, deduplicated.
pub fn extract_ips(headers: &Vec<EmailHeader>) -> (r: Vec<String>)
    ensures
        strs_view(r@) == ips_spec(headers@),
        views_distinct(r@),
{
    let mut acc: Vec<String> = Vec::new();
    assert(strs_view(acc@) =~= Seq::<Seq<char>>::empty());
    let mut j: usize = 0;
    while j < headers.len()
        invariant
            j <= headers@.len(),
            add_header_ips(Seq::empty(), headers@, 0) == add_header_ips(
                strs_view(acc@),
                headers@,
                j as int,
            ),
            views_distinct(acc@),
        decreases headers@.len() - j,
    {
        let hv = to_chars(headers[j].value.as_str());
        add_ips_exec(&mut acc, &hv);
        j = j + 1;
    }
    acc
}

/// Add each e-mail-address match of `t`, lower-cased, deduplicated.
pub open spec fn add_emails(acc: Seq<Seq<char>>, t: Seq<char>, m: Seq<(int, int)>, k: int) -> Seq<
    Seq<char>,
>
    decreases m.len() - k,
{
    if !(0 <= k && k < m.len()) {
        acc
    } else {
        add_emails(add_unique(acc, lower(t.subrange(m[k].0, m[k].1))), t, m, k + 1)
    }
}

pub open spec fn add_header_emails(acc: Seq<Seq<char>>, hs: Seq<EmailHeader>, j: int) -> Seq<
    Seq<char>,
>
    decreases hs.len() - j,
{
    if !(0 <= j && j < hs.len()) {
        acc
    } else {
        add_header_emails(
            add_emails(acc, hs[j].value@, scan_spec(Pattern::Email, hs[j].value@, 0), 0),
            hs,
            j + 1,
        )
    }
}

pub open spec fn emails_spec(t: Seq<char>, hs: Seq<EmailHeader>) -> Seq<Seq<char>> {
    add_header_emails(add_emails(Seq::empty(), t, scan_spec(Pattern::Email, t, 0), 0), hs, 0)
}

fn add_emails_exec(acc: &mut Vec<String>, t: &Vec<char>)
    ensures
        strs_view(final(acc)@) == add_emails(
            strs_view(old(acc)@),
            t@,
            scan_spec(Pattern::Email, t@, 0),
            0,
        ),
        views_distinct(old(acc)@) ==> views_distinct(final(acc)@),
{
    let m = scan_pattern(t, Pattern::Email);
    let mut k: usize = 0;
    while k < m.len()
        invariant
            k <= m@.len(),
            ranges_wf(m@, t@.len() as int),
            pairs_view(m@) == scan_spec(Pattern::Email, t@, 0),
            add_emails(strs_view(old(acc)@), t@, pairs_view(m@), 0) == add_emails(
                strs_view(acc@),
                t@,
                pairs_view(m@),
                k as int,
            ),
            views_distinct(old(acc)@) ==> views_distinct(acc@),
        decreases m@.len() - k,
    {
        let (a, b) = m[k];
        let mut sub: Vec<char> = Vec::new();
        append_range(&mut sub, t, a, b);
        let low = to_lower(&sub);
        insert_unique(acc, from_chars(&low));
        k = k + 1;
    }
}

/// E-mail addresses of the body text and the header values, lower-cased
/// and deduplicated.
pub fn extract_email_addresses(text: &str, headers: &Vec<EmailHeader>) -> (r: Vec<String>)
    ensures
        strs_view(r@) == emails_spec(text@, headers@),
        views_distinct(r@),
{
    let t = to_chars(text);
    let mut acc: Vec<String> = Vec::new();
    assert(strs_view(acc@) =~= Seq::<Seq<char>>::empty());
    add_emails_exec(&mut acc, &t);
    let mut j: usize = 0;
    while j < headers.len()
        invariant
            j <= headers@.len(),
            add_header_emails(
                add_emails(Seq::empty(), text@, scan_spec(Pattern::Email, text@, 0), 0),
                headers@,
                0,
            ) == add_header_emails(strs_view(acc@), headers@, j as int),
            views_distinct(acc@),
        decreases headers@.len() - j,
    {
        let hv = to_chars(headers[j].value.as_str());
        add_emails_exec(&mut acc, &hv);
        j = j + 1;
    }
    acc
}

// ---------------------------------------------------------------------------
// Building the structured email
// ---------------------------------------------------------------------------

/// Copy the top-level headers of a parsed message into plain name/value
/// pairs.
fn convert_headers(mail: &mailparse::ParsedMail<'_>) -> Vec<EmailHeader> {
    let hs = part_headers(mail);
    let mut out: Vec<EmailHeader> = Vec::new();
    let mut i: usize = 0;
    while i < hs.len()
        decreases hs@.len() - i,
    {
        let name = header_key(&hs[i]);
        let value = header_value(&hs[i]);
        out.push(EmailHeader { name, value });
        i = i + 1;
    }
    out
}

/// The full digest of a byte string, hex-encoded: what an attachment
/// record stores for its raw bytes.
pub fn hash_bytes(bytes: &[u8]) -> (r: String)
    ensures
        r@ == hex_of(sha256_of(bytes@)),
{
    let digest = sha256(bytes);
    from_chars(&hex_encode(&digest))
}

/// The identity fingerprint: the first eight digest bytes, hex-encoded.
pub open spec fn fingerprint_of(bytes: Seq<u8>) -> Seq<char> {
    hex_of(sha256_of(bytes).take(8))
}

fn compute_fingerprint(bytes: &[u8]) -> (r: String)
    ensures
        r@ == fingerprint_of(bytes@),
{
    let digest = sha256(bytes);
    let mut first8: Vec<u8> = Vec::new();
    let mut i: usize = 0;
    while i < 8
        invariant
            i <= 8,
            digest@.len() == 32,
            digest@ == sha256_of(bytes@),
            first8@ == sha256_of(bytes@).take(i as int),
        decreases 8 - i,
    {
        first8.push(digest[i]);
        assert(sha256_of(bytes@).take(i as int + 1) =~= sha256_of(bytes@).take(i as int).push(
            sha256_of(bytes@)[i as int],
        ));
        i = i + 1;
    }
    from_chars(&hex_encode(&first8))
}

/// Parse raw message text into a structured email.  Succeeds exactly when
/// the parser accepts the text as a MIME message; absent headers and
/// parts leave fields empty, never fail.  On success, the canonical
/// fields, the authentication statuses and the indicator lists are exactly
/// the stated functions of the returned headers and bodies, and the
/// identity fingerprint is the stated digest of the raw text.  On failure
/// a descriptive message is returned and no partial email.
pub fn parse_eml(content: &str) -> (r: Result<ParsedEmail, String>)
    ensures
        r is Ok <==> mime_parses(content.spec_bytes()),
        match r {
            Ok(email) => {
                &&& email.raw_content@ == content@
                &&& email.id@ == fingerprint_of(content.spec_bytes())
                &&& email.subject@ == header_or_empty(email.headers@, ("Subject")@)
                &&& email.from@ == header_or_empty(email.headers@, ("From")@)
                &&& email.to@ == header_or_empty(email.headers@, ("To")@)
                &&& (match email.reply_to {
                    Some(v) => header_lookup(email.headers@, ("Reply-To")@) == Some(v@),
                    None => header_lookup(email.headers@, ("Reply-To")@) is None,
                })
                &&& (match email.return_path {
                    Some(v) => header_lookup(email.headers@, ("Return-Path")@) == Some(v@),
                    None => header_lookup(email.headers@, ("Return-Path")@) is None,
                })
                &&& (match email.date {
                    Some(v) => header_lookup(email.headers@, ("Date")@) == Some(v@),
                    None => header_lookup(email.headers@, ("Date")@) is None,
                })
                &&& email.authentication.spf_status@ == spf_status_spec(
                    lower(header_or_empty(email.headers@, ("Authentication-Results")@)),
                    lower(header_or_empty(email.headers@, ("Received-SPF")@)),
                )
                &&& email.authentication.dkim_status@ == dkim_status_spec(
                    lower(header_or_empty(email.headers@, ("Authentication-Results")@)),
                    header_lookup(email.headers@, ("DKIM-Signature")@) is Some,
                )
                &&& email.authentication.dmarc_status@ == dmarc_status_spec(
                    lower(header_or_empty(email.headers@, ("Authentication-Results")@)),
                )
                &&& strs_view(email.urls@) == urls_spec(email.body_text@, email.body_html@)
                &&& strs_view(email.domains@) == domains_spec(
                    strs_view(email.urls@),
                    email.body_text@,
                )
                &&& strs_view(email.ip_addresses@) == ips_spec(email.headers@)
                &&& strs_view(email.email_addresses@) == emails_spec(
                    email.body_text@,
                    email.headers@,
                )
                &&& views_distinct(email.urls@)
                &&& views_distinct(email.domains@)
                &&& views_distinct(email.ip_addresses@)
                &&& views_distinct(email.email_addresses@)
            },
            Err(e) => has_prefix(e@, ("Failed to parse email: ")@),
        },
{
    let bytes = content.as_bytes();
    let mail = match parse_mail_outer(bytes) {
        Ok(m) => m,
        Err(e) => {
            let msg = "Failed to parse email: ".to_owned().concat(e.as_str());
            assert(msg@.subrange(0, ("Failed to parse email: ")@.len() as int) =~= (
            "Failed to parse email: ")@);
            return Err(msg);
        },
    };
    let headers = convert_headers(&mail);
    let tree = convert_part(&mail, 64);

    let (bt, bh) = fold_bodies_exec(&tree, (Vec::new(), Vec::new()));
    let body_text_chars = if bt.len() == 0 && bh.len() > 0 {
        strip_html(&bh)
    } else {
        bt
    };
    let body_text = from_chars(&body_text_chars);
    let body_html = from_chars(&bh);

    let attachments = fold_atts_exec(&tree, Vec::new());
    let authentication = parse_authentication_results(&headers);

    let urls = extract_urls(body_text.as_str(), body_html.as_str());
    let domains = extract_domains(&urls, body_text.as_str());
    let ip_addresses = extract_ips(&headers);
    let email_addresses = extract_email_addresses(body_text.as_str(), &headers);

    let id = compute_fingerprint(bytes);

    let subject = header_string_or_empty(&headers, "Subject");
    let from = header_string_or_empty(&headers, "From");
    let to = header_string_or_empty(&headers, "To");
    let reply_to = extract_header(&headers, "Reply-To");
    let return_path = extract_header(&headers, "Return-Path");
    let date = extract_header(&headers, "Date");

    Ok(
        ParsedEmail {
            id,
            subject,
            from,
            to,
            reply_to,
            return_path,
            date,
            headers,
            body_text,
            body_html,
            urls,
            domains,
            ip_addresses,
            email_addresses,
            attachments,
            authentication,
            raw_content: content.to_owned(),
        },
    )
}

} // verus!
