//! The threat-scoring engine: a fixed, ordered set of heuristic rules is
//! evaluated over a structured email; each rule that fires adds its fixed
//! weight to a score (which only grows) and one evidence entry; fixed
//! thresholds turn the score into a threat level.
use vstd::prelude::*;
use vstd::string::StringExecFns;

use crate::email_parser::{Attachment, ParsedEmail};
use crate::foreign::{host_of, url_host};
use crate::patterns::{
    contains_pair, contains_pair_exec, contains_word, contains_word_exec, find_first_word,
    first_word_from, vecs_view,
};
use crate::text::{
    append_vec, chars_equal, contains_seq, contains_sub, from_chars, lower, strs_view, to_chars,
    to_lower,
};

verus! {

#[derive(Debug, Clone, PartialEq, Eq, Structural)]
pub enum ThreatLevel {
    Low,
    Medium,
    High,
}

pub struct ThreatIndicator {
    pub category: String,
    pub description: String,
    pub severity: String,
    pub details: Option<String>,
}

pub struct ThreatAssessment {
    pub level: ThreatLevel,
    pub score: u32,
    pub indicators: Vec<ThreatIndicator>,
    pub summary: String,
}

// ---------------------------------------------------------------------------
// Phrase tables
// ---------------------------------------------------------------------------

pub open spec fn urgency_words() -> Seq<Seq<char>> {
    seq![
        ("urgent")@,
        ("immediately")@,
        ("asap")@,
        ("right away")@,
        ("act now")@,
        ("limited time")@,
        ("expire")@,
        ("suspend")@,
        ("terminate")@,
        ("deactivate")@,
        ("close your account")@,
        ("within 24 hours")@,
        ("within 48 hours")@,
        ("today only")@,
        ("final notice")@,
        ("last warning")@,
        ("immediate action required")@,
    ]
}

fn urgency_words_exec() -> (r: Vec<Vec<char>>)
    ensures
        vecs_view(r@) == urgency_words(),
        forall|k: int| 0 <= k < r@.len() ==> #[trigger] r@[k]@.len() >= 1,
{
    proof {
        reveal_strlit("urgent");
    }
    let mut r: Vec<Vec<char>> = Vec::new();
    r.push(to_chars("urgent"));
    r.push(to_chars("immediately"));
    r.push(to_chars("asap"));
    r.push(to_chars("right away"));
    r.push(to_chars("act now"));
    r.push(to_chars("limited time"));
    r.push(to_chars("expire"));
    r.push(to_chars("suspend"));
    r.push(to_chars("terminate"));
    r.push(to_chars("deactivate"));
    r.push(to_chars("close your account"));
    r.push(to_chars("within 24 hours"));
    r.push(to_chars("within 48 hours"));
    r.push(to_chars("today only"));
    r.push(to_chars("final notice"));
    r.push(to_chars("last warning"));
    r.push(to_chars("immediate action required"));
    assert(vecs_view(r@) =~= urgency_words());
    assert forall|k: int| 0 <= k < r@.len() implies #[trigger] r@[k]@.len() >= 1 by {
        reveal_strlit("urgent");
        reveal_strlit("immediately");
        reveal_strlit("asap");
        reveal_strlit("right away");
        reveal_strlit("act now");
        reveal_strlit("limited time");
        reveal_strlit("expire");
        reveal_strlit("suspend");
        reveal_strlit("terminate");
        reveal_strlit("deactivate");
        reveal_strlit("close your account");
        reveal_strlit("within 24 hours");
        reveal_strlit("within 48 hours");
        reveal_strlit("today only");
        reveal_strlit("final notice");
        reveal_strlit("last warning");
        reveal_strlit("immediate action required");
    }
    r
}

/// Whether any of `words` occurs word-bounded in `tl`.
pub open spec fn any_word(tl: Seq<char>, words: Seq<Seq<char>>) -> bool {
    exists|k: int| 0 <= k < words.len() && contains_word(tl, words[k])
}

fn any_word_exec(tl: &Vec<char>, words: &Vec<Vec<char>>) -> (b: bool)
    requires
        forall|k: int| 0 <= k < words@.len() ==> #[trigger] words@[k]@.len() >= 1,
    ensures
        b == any_word(tl@, vecs_view(words@)),
{
    let mut k: usize = 0;
    while k < words.len()
        invariant
            k <= words@.len(),
            forall|j: int| 0 <= j < k ==> !contains_word(tl@, vecs_view(words@)[j]),
            forall|j: int| 0 <= j < words@.len() ==> #[trigger] words@[j]@.len() >= 1,
        decreases words@.len() - k,
    {
        assert(vecs_view(words@)[k as int] == words@[k as int]@);
        if contains_word_exec(tl, &words[k]) {
            return true;
        }
        k = k + 1;
    }
    false
}

/// Whether some prefix of `ps` followed by whitespace and some suffix of
/// `ss` occurs word-bounded in `tl`.
pub open spec fn any_pair(tl: Seq<char>, ps: Seq<Seq<char>>, ss: Seq<Seq<char>>) -> bool {
    exists|i: int, j: int|
        0 <= i < ps.len() && 0 <= j < ss.len() && contains_pair(tl, ps[i], ss[j])
}

fn any_pair_exec(tl: &Vec<char>, ps: &Vec<Vec<char>>, ss: &Vec<Vec<char>>) -> (b: bool)
    requires
        forall|k: int| 0 <= k < ps@.len() ==> #[trigger] ps@[k]@.len() >= 1,
    ensures
        b == any_pair(tl@, vecs_view(ps@), vecs_view(ss@)),
{
    let mut i: usize = 0;
    while i < ps.len()
        invariant
            i <= ps@.len(),
            forall|a: int, b2: int|
                0 <= a < i && 0 <= b2 < ss@.len() ==> !contains_pair(
                    tl@,
                    vecs_view(ps@)[a],
                    vecs_view(ss@)[b2],
                ),
            forall|k: int| 0 <= k < ps@.len() ==> #[trigger] ps@[k]@.len() >= 1,
        decreases ps@.len() - i,
    {
        let mut j: usize = 0;
        while j < ss.len()
            invariant
                j <= ss@.len(),
                i < ps@.len(),
                forall|b2: int| 0 <= b2 < j ==> !contains_pair(
                    tl@,
                    vecs_view(ps@)[i as int],
                    vecs_view(ss@)[b2],
                ),
                forall|k: int| 0 <= k < ps@.len() ==> #[trigger] ps@[k]@.len() >= 1,
            decreases ss@.len() - j,
        {
            assert(vecs_view(ps@)[i as int] == ps@[i as int]@);
            assert(vecs_view(ss@)[j as int] == ss@[j as int]@);
            if contains_pair_exec(tl, &ps[i], &ss[j]) {
                return true;
            }
            j = j + 1;
        }
        i = i + 1;
    }
    false
}

pub open spec fn cred_p1() -> Seq<Seq<char>> {
    seq![("verify your")@, ("confirm your")@, ("update your")@]
}

pub open spec fn cred_s1() -> Seq<Seq<char>> {
    seq![("account")@, ("password")@, ("credentials")@, ("identity")@]
}

pub open spec fn cred_p2() -> Seq<Seq<char>> {
    seq![("login")@, ("sign in")@, ("log in")@]
}

pub open spec fn cred_s2() -> Seq<Seq<char>> {
    seq![("here")@, ("now")@, ("to")@]
}

pub open spec fn cred_p3() -> Seq<Seq<char>> {
    seq![("enter your")@, ("provide your")@]
}

pub open spec fn cred_s3() -> Seq<Seq<char>> {
    seq![("password")@, ("credentials")@, ("ssn")@, ("social security")@]
}

pub open spec fn cred_clicks() -> Seq<Seq<char>> {
    seq![("click here to")@, ("click the link")@, ("click below")@]
}

/// Whether any credential-harvesting phrase occurs in `tl`.
pub open spec fn credential_cond(tl: Seq<char>) -> bool {
    any_pair(tl, cred_p1(), cred_s1()) || any_pair(tl, cred_p2(), cred_s2()) || any_pair(
        tl,
        cred_p3(),
        cred_s3(),
    ) || any_word(tl, cred_clicks())
}

pub open spec fn brands1() -> Seq<Seq<char>> {
    seq![
        ("paypal")@,
        ("microsoft")@,
        ("apple")@,
        ("amazon")@,
        ("netflix")@,
        ("bank of")@,
        ("wells fargo")@,
        ("chase")@,
    ]
}

pub open spec fn brands2() -> Seq<Seq<char>> {
    seq![("security team")@, ("support team")@, ("customer service")@, ("help desk")@]
}

pub open spec fn brands3() -> Seq<Seq<char>> {
    seq![("official")@, ("authorized")@, ("verified")@]
}

/// The brand of the impersonation rule: for each group in order, the
/// leftmost word-bounded occurrence decides; the rule fires when the
/// sender's address does not mention the brand, else the next group is
/// tried.
pub open spec fn imp_group(tl: Seq<char>, froml: Seq<char>, ws: Seq<Seq<char>>) -> Option<
    Option<Seq<char>>,
> {
    match first_word_from(tl, ws, 0) {
        Some(b) => if !contains_seq(froml, ws[b]) {
            Some(Some(ws[b]))
        } else {
            Some(None)
        },
        None => None,
    }
}

pub open spec fn imp_brand(tl: Seq<char>, froml: Seq<char>) -> Option<Seq<char>> {
    match imp_group(tl, froml, brands1()) {
        Some(Some(b)) => Some(b),
        _ => match imp_group(tl, froml, brands2()) {
            Some(Some(b)) => Some(b),
            _ => match imp_group(tl, froml, brands3()) {
                Some(Some(b)) => Some(b),
                _ => None,
            },
        },
    }
}

pub open spec fn shorteners() -> Seq<Seq<char>> {
    seq![
        ("bit.ly")@,
        ("tinyurl.com")@,
        ("goo.gl")@,
        ("t.co")@,
        ("ow.ly")@,
        ("is.gd")@,
        ("buff.ly")@,
        ("adf.ly")@,
        ("bit.do")@,
        ("mcaf.ee")@,
        ("su.pr")@,
        ("tiny.cc")@,
    ]
}

/// The first shortener found in the first URL that mentions one.
pub open spec fn short_idx_at(ul: Seq<char>, ss: Seq<Seq<char>>, j: int) -> Option<int>
    decreases ss.len() - j,
{
    if !(0 <= j && j < ss.len()) {
        None
    } else if contains_seq(ul, ss[j]) {
        Some(j)
    } else {
        short_idx_at(ul, ss, j + 1)
    }
}

pub open spec fn short_hit(us: Seq<Seq<char>>, k: int) -> Option<Seq<char>>
    decreases us.len() - k,
{
    if !(0 <= k && k < us.len()) {
        None
    } else {
        match short_idx_at(lower(us[k]), shorteners(), 0) {
            Some(j) => Some(shorteners()[j]),
            None => short_hit(us, k + 1),
        }
    }
}

/// The text after the last `@`, or the whole text when there is none.
pub open spec fn last_at(s: Seq<char>, i: int) -> Option<int>
    decreases i + 1,
{
    if i < 0 {
        None
    } else if 0 <= i && i < s.len() && s[i] == '@' {
        Some(i)
    } else {
        last_at(s, i - 1)
    }
}

pub open spec fn from_domain_of(from: Seq<char>) -> Seq<char> {
    lower(
        match last_at(from, from.len() - 1) {
            Some(i) => from.skip(i + 1),
            None => from,
        },
    )
}

/// The host of the first URL that parses and whose host neither contains
/// nor is contained in the sender's domain.
pub open spec fn mism_hit(us: Seq<Seq<char>>, fd: Seq<char>, k: int) -> Option<Seq<char>>
    decreases us.len() - k,
{
    if !(0 <= k && k < us.len()) {
        None
    } else {
        match host_of(us[k]) {
            Some(h) => if fd.len() > 0 && !contains_seq(lower(h), fd) && !contains_seq(
                fd,
                lower(h),
            ) {
                Some(h)
            } else {
                mism_hit(us, fd, k + 1)
            },
            None => mism_hit(us, fd, k + 1),
        }
    }
}

/// The filename's extension: the part after the last dot, or the whole
/// name, lower-cased.
pub open spec fn last_dot(s: Seq<char>, i: int) -> Option<int>
    decreases i + 1,
{
    if i < 0 {
        None
    } else if 0 <= i && i < s.len() && s[i] == '.' {
        Some(i)
    } else {
        last_dot(s, i - 1)
    }
}

pub open spec fn ext_of(name: Seq<char>) -> Seq<char> {
    lower(
        match last_dot(name, name.len() - 1) {
            Some(i) => name.skip(i + 1),
            None => name,
        },
    )
}

pub open spec fn is_danger_ext(e: Seq<char>) -> bool {
    e == ("exe")@ || e == ("scr")@ || e == ("bat")@ || e == ("cmd")@ || e == ("ps1")@ || e == (
    "vbs")@ || e == ("js")@ || e == ("jar")@ || e == ("msi")@
}

pub open spec fn is_archive_ext(e: Seq<char>) -> bool {
    e == ("zip")@ || e == ("rar")@ || e == ("7z")@ || e == ("iso")@ || e == ("img")@
}

/// Dangerous attachments at or after index `i`.
pub open spec fn danger_count(atts: Seq<Attachment>, i: int) -> int
    decreases atts.len() - i,
{
    if !(0 <= i && i < atts.len()) {
        0
    } else {
        (if is_danger_ext(ext_of(atts[i].filename@)) {
            1int
        } else {
            0int
        }) + danger_count(atts, i + 1)
    }
}

/// Archive attachments at or after index `i` (dangerous ones excluded).
pub open spec fn archive_count(atts: Seq<Attachment>, i: int) -> int
    decreases atts.len() - i,
{
    if !(0 <= i && i < atts.len()) {
        0
    } else {
        (if !is_danger_ext(ext_of(atts[i].filename@)) && is_archive_ext(ext_of(atts[i].filename@)) {
            1int
        } else {
            0int
        }) + archive_count(atts, i + 1)
    }
}

// ---------------------------------------------------------------------------
// The rule record and the score
// ---------------------------------------------------------------------------

/// Which rules fire for an email, and how many attachments of each kind it
/// carries.  The SPF entry is graded: 0 none, 1 softfail, 2 fail.
pub struct RuleFlags {
    pub spf: int,
    pub dkim: bool,
    pub dmarc: bool,
    pub rp: bool,
    pub rt: bool,
    pub urg: bool,
    pub cred: bool,
    pub imp: bool,
    pub short: bool,
    pub mism: bool,
    pub danger: int,
    pub arch: int,
}

pub open spec fn combined_text(e: ParsedEmail) -> Seq<char> {
    e.subject@ + seq![' '] + e.body_text@ + seq![' '] + e.body_html@
}

pub open spec fn rp_cond(e: ParsedEmail) -> bool {
    match e.return_path {
        Some(rp) => rp@.len() > 0 && !contains_seq(lower(e.from@), lower(rp@)) && !contains_seq(
            lower(rp@),
            lower(e.from@),
        ),
        None => false,
    }
}

pub open spec fn rt_cond(e: ParsedEmail) -> bool {
    match e.reply_to {
        Some(rt) => rt@.len() > 0 && !contains_seq(lower(e.from@), lower(rt@)),
        None => false,
    }
}

pub open spec fn flags_of(e: ParsedEmail) -> RuleFlags {
    let tl = lower(combined_text(e));
    let froml = lower(e.from@);
    RuleFlags {
        spf: if e.authentication.spf_status@ == ("fail")@ {
            2int
        } else if e.authentication.spf_status@ == ("softfail")@ {
            1int
        } else {
            0int
        },
        dkim: e.authentication.dkim_status@ == ("fail")@,
        dmarc: e.authentication.dmarc_status@ == ("fail")@,
        rp: rp_cond(e),
        rt: rt_cond(e),
        urg: any_word(tl, urgency_words()),
        cred: credential_cond(tl),
        imp: imp_brand(tl, froml) is Some,
        short: short_hit(strs_view(e.urls@), 0) is Some,
        mism: mism_hit(strs_view(e.urls@), from_domain_of(e.from@), 0) is Some,
        danger: danger_count(e.attachments@, 0),
        arch: archive_count(e.attachments@, 0),
    }
}

pub open spec fn spf_weight(s: int) -> int {
    if s >= 2 {
        25
    } else if s == 1 {
        10
    } else {
        0
    }
}

pub open spec fn bool_weight(b: bool, w: int) -> int {
    if b {
        w
    } else {
        0
    }
}

/// The total score of a rule record, before capping at the machine limit.
pub open spec fn score_of(f: RuleFlags) -> int {
    spf_weight(f.spf) + bool_weight(f.dkim, 25) + bool_weight(f.dmarc, 25) + bool_weight(f.rp, 15)
        + bool_weight(f.rt, 15) + bool_weight(f.urg, 10) + bool_weight(f.cred, 20) + bool_weight(
        f.imp,
        15,
    ) + bool_weight(f.short, 10) + bool_weight(f.mism, 5) + 30 * f.danger + 10 * f.arch
}

/// One evidence entry per fired rule, one per dangerous or archive
/// attachment.
pub open spec fn indicator_count(f: RuleFlags) -> int {
    bool_weight(f.spf >= 1, 1) + bool_weight(f.dkim, 1) + bool_weight(f.dmarc, 1) + bool_weight(
        f.rp,
        1,
    ) + bool_weight(f.rt, 1) + bool_weight(f.urg, 1) + bool_weight(f.cred, 1) + bool_weight(
        f.imp,
        1,
    ) + bool_weight(f.short, 1) + bool_weight(f.mism, 1) + f.danger + f.arch
}

// ---------------------------------------------------------------------------
// The evidence list
// ---------------------------------------------------------------------------

/// The ghost image of an evidence entry.
pub struct IndView {
    pub category: Seq<char>,
    pub description: Seq<char>,
    pub severity: Seq<char>,
    pub details: Option<Seq<char>>,
}

pub open spec fn ind_view(i: ThreatIndicator) -> IndView {
    IndView {
        category: i.category@,
        description: i.description@,
        severity: i.severity@,
        details: match i.details {
            Some(d) => Some(d@),
            None => None,
        },
    }
}

pub open spec fn inds_view(v: Seq<ThreatIndicator>) -> Seq<IndView> {
    v.map_values(|i: ThreatIndicator| ind_view(i))
}

/// One entry per rule, named so the contracts and the code can point at
/// the same record.
pub open spec fn ev_spf_fail() -> Seq<IndView> {
    seq![
        IndView {
            category: ("Authentication")@,
            description: ("SPF check failed")@,
            severity: ("high")@,
            details: Some(
                (
                "The sender's domain did not authorize this server to send emails on its behalf.")@,
            ),
        },
    ]
}

pub open spec fn ev_spf_soft() -> Seq<IndView> {
    seq![
        IndView {
            category: ("Authentication")@,
            description: ("SPF soft fail")@,
            severity: ("medium")@,
            details: Some(
                ("The sender's SPF policy indicates this server may not be authorized.")@,
            ),
        },
    ]
}

pub open spec fn ev_dkim() -> Seq<IndView> {
    seq![
        IndView {
            category: ("Authentication")@,
            description: ("DKIM verification failed")@,
            severity: ("high")@,
            details: Some(("The email's DKIM signature could not be verified.")@),
        },
    ]
}

pub open spec fn ev_dmarc() -> Seq<IndView> {
    seq![
        IndView {
            category: ("Authentication")@,
            description: ("DMARC check failed")@,
            severity: ("high")@,
            details: Some(("The email failed DMARC policy validation.")@),
        },
    ]
}

pub open spec fn ev_rp(from: Seq<char>, rp: Seq<char>) -> Seq<IndView> {
    seq![
        IndView {
            category: ("Header Anomaly")@,
            description: ("Return-Path mismatch")@,
            severity: ("medium")@,
            details: Some(("From: ")@ + from + (" differs from Return-Path: ")@ + rp),
        },
    ]
}

pub open spec fn ev_rt(from: Seq<char>, rt: Seq<char>) -> Seq<IndView> {
    seq![
        IndView {
            category: ("Header Anomaly")@,
            description: ("Reply-To mismatch")@,
            severity: ("medium")@,
            details: Some(("Replies would go to ")@ + rt + (" instead of ")@ + from),
        },
    ]
}

pub open spec fn ev_urg() -> Seq<IndView> {
    seq![
        IndView {
            category: ("Social Engineering")@,
            description: ("Urgency language detected")@,
            severity: ("medium")@,
            details: Some(("The email uses urgent or pressure tactics common in phishing.")@),
        },
    ]
}

pub open spec fn ev_cred() -> Seq<IndView> {
    seq![
        IndView {
            category: ("Credential Harvesting")@,
            description: ("Credential request detected")@,
            severity: ("high")@,
            details: Some(
                ("The email contains language requesting login or personal information.")@,
            ),
        },
    ]
}

pub open spec fn ev_imp(b: Seq<char>) -> Seq<IndView> {
    seq![
        IndView {
            category: ("Impersonation")@,
            description: ("Possible ")@ + b + (" impersonation")@,
            severity: ("high")@,
            details: Some(("Email mentions ")@ + b + (" but sender domain doesn't match.")@),
        },
    ]
}

pub open spec fn ev_short(s: Seq<char>) -> Seq<IndView> {
    seq![
        IndView {
            category: ("Suspicious URL")@,
            description: ("URL shortener detected")@,
            severity: ("medium")@,
            details: Some(("URL shortener used: ")@ + s + (" (may hide malicious destination)")@),
        },
    ]
}

pub open spec fn ev_mism(h: Seq<char>) -> Seq<IndView> {
    seq![
        IndView {
            category: ("Suspicious URL")@,
            description: ("External domain in links")@,
            severity: ("low")@,
            details: Some(("Link points to ")@ + h + (" which differs from sender domain")@),
        },
    ]
}

/// The evidence of the authentication and header-anomaly rules, in rule
/// order.
pub open spec fn auth_evidence(e: ParsedEmail) -> Seq<IndView> {
    auth3_evidence(e) + hdr_evidence(e)
}

/// The evidence of the social-engineering and URL rules, in rule order.
pub open spec fn text_url_evidence(e: ParsedEmail) -> Seq<IndView> {
    let tl = lower(combined_text(e));
    let froml = lower(e.from@);
    (if any_word(tl, urgency_words()) {
        ev_urg()
    } else {
        Seq::empty()
    }) + (if credential_cond(tl) {
        ev_cred()
    } else {
        Seq::empty()
    }) + (match imp_brand(tl, froml) {
        Some(b) => ev_imp(b),
        None => Seq::empty(),
    }) + (match short_hit(strs_view(e.urls@), 0) {
        Some(s) => ev_short(s),
        None => Seq::empty(),
    }) + (match mism_hit(strs_view(e.urls@), from_domain_of(e.from@), 0) {
        Some(h) => ev_mism(h),
        None => Seq::empty(),
    })
}

/// The evidence entry (or none) for one attachment.
pub open spec fn att_entry(a: Attachment) -> Seq<IndView> {
    let ext = ext_of(a.filename@);
    if is_danger_ext(ext) {
        seq![
            IndView {
                category: ("Malicious Attachment")@,
                description: ("Dangerous file type: .")@ + ext,
                severity: ("high")@,
                details: Some(("Attachment '")@ + a.filename@ + ("' is an executable file type")@),
            },
        ]
    } else if is_archive_ext(ext) {
        seq![
            IndView {
                category: ("Suspicious Attachment")@,
                description: ("Archive file type: .")@ + ext,
                severity: ("medium")@,
                details: Some(
                    ("Attachment '")@ + a.filename@ + ("' is an archive that may contain malware")@,
                ),
            },
        ]
    } else {
        Seq::empty()
    }
}

/// The evidence of the attachment rules over the first `i` attachments.
pub open spec fn att_evidence(atts: Seq<Attachment>, i: int) -> Seq<IndView>
    decreases i,
{
    if i <= 0 {
        Seq::empty()
    } else {
        att_evidence(atts, i - 1) + att_entry(atts[i - 1])
    }
}

/// The whole evidence list, in rule evaluation order.
pub open spec fn evidence_of(e: ParsedEmail) -> Seq<IndView> {
    auth_evidence(e) + text_url_evidence(e) + att_evidence(
        e.attachments@,
        e.attachments@.len() as int,
    )
}

pub open spec fn cap32(x: int) -> int {
    if x <= u32::MAX as int {
        x
    } else {
        u32::MAX as int
    }
}

pub open spec fn level_of(score: int) -> ThreatLevel {
    if score >= 50 {
        ThreatLevel::High
    } else if score >= 25 {
        ThreatLevel::Medium
    } else {
        ThreatLevel::Low
    }
}

pub open spec fn summary_of(level: ThreatLevel) -> Seq<char> {
    match level {
        ThreatLevel::High => (
        "This email shows multiple high-risk indicators consistent with phishing or malicious intent.")@,
        ThreatLevel::Medium => (
        "This email shows some suspicious characteristics that warrant caution.")@,
        ThreatLevel::Low => (
        "This email shows minimal suspicious indicators but should still be verified.")@,
    }
}

/// Pointwise ordering of rule records.
pub open spec fn flags_le(f1: RuleFlags, f2: RuleFlags) -> bool {
    &&& f1.spf <= f2.spf
    &&& (f1.dkim ==> f2.dkim)
    &&& (f1.dmarc ==> f2.dmarc)
    &&& (f1.rp ==> f2.rp)
    &&& (f1.rt ==> f2.rt)
    &&& (f1.urg ==> f2.urg)
    &&& (f1.cred ==> f2.cred)
    &&& (f1.imp ==> f2.imp)
    &&& (f1.short ==> f2.short)
    &&& (f1.mism ==> f2.mism)
    &&& 0 <= f1.danger <= f2.danger
    &&& 0 <= f1.arch <= f2.arch
}

/// The threat score is monotone in each rule: firing one more rule, or a
/// stronger grade of one, never lowers the score, before or after capping.
pub proof fn lemma_score_monotone(f1: RuleFlags, f2: RuleFlags)
    requires
        flags_le(f1, f2),
    ensures
        score_of(f1) <= score_of(f2),
        cap32(score_of(f1)) <= cap32(score_of(f2)),
        level_of(cap32(score_of(f1))) == ThreatLevel::High ==> level_of(cap32(score_of(f2)))
            == ThreatLevel::High,
{
}

// ---------------------------------------------------------------------------
// The analyzer
// ---------------------------------------------------------------------------

fn sat_add(a: u32, d: u32) -> (r: u32)
    ensures
        r as int == cap32(a + d),
{
    if a > u32::MAX - d {
        u32::MAX
    } else {
        a + d
    }
}

fn cat3(a: &str, b: &str, c: &str) -> (r: String)
    ensures
        r@ == a@ + b@ + c@,
{
    let mut v = to_chars(a);
    append_vec(&mut v, &to_chars(b));
    append_vec(&mut v, &to_chars(c));
    from_chars(&v)
}

fn cat2(a: &str, b: &str) -> (r: String)
    ensures
        r@ == a@ + b@,
{
    let mut v = to_chars(a);
    append_vec(&mut v, &to_chars(b));
    from_chars(&v)
}

fn cat4(a: &str, b: &str, c: &str, d: &str) -> (r: String)
    ensures
        r@ == a@ + b@ + c@ + d@,
{
    let mut v = to_chars(a);
    append_vec(&mut v, &to_chars(b));
    append_vec(&mut v, &to_chars(c));
    append_vec(&mut v, &to_chars(d));
    from_chars(&v)
}

fn cred_p1_exec() -> (r: Vec<Vec<char>>)
    ensures
        vecs_view(r@) == cred_p1(),
        forall|k: int| 0 <= k < r@.len() ==> #[trigger] r@[k]@.len() >= 1,
{
    let mut r: Vec<Vec<char>> = Vec::new();
    r.push(to_chars("verify your"));
    r.push(to_chars("confirm your"));
    r.push(to_chars("update your"));
    assert(vecs_view(r@) =~= cred_p1());
    assert forall|k: int| 0 <= k < r@.len() implies #[trigger] r@[k]@.len() >= 1 by {
        reveal_strlit("verify your");
        reveal_strlit("confirm your");
        reveal_strlit("update your");
    }
    r
}

fn cred_s1_exec() -> (r: Vec<Vec<char>>)
    ensures
        vecs_view(r@) == cred_s1(),
{
    let mut r: Vec<Vec<char>> = Vec::new();
    r.push(to_chars("account"));
    r.push(to_chars("password"));
    r.push(to_chars("credentials"));
    r.push(to_chars("identity"));
    assert(vecs_view(r@) =~= cred_s1());
    r
}

fn cred_p2_exec() -> (r: Vec<Vec<char>>)
    ensures
        vecs_view(r@) == cred_p2(),
        forall|k: int| 0 <= k < r@.len() ==> #[trigger] r@[k]@.len() >= 1,
{
    let mut r: Vec<Vec<char>> = Vec::new();
    r.push(to_chars("login"));
    r.push(to_chars("sign in"));
    r.push(to_chars("log in"));
    assert(vecs_view(r@) =~= cred_p2());
    assert forall|k: int| 0 <= k < r@.len() implies #[trigger] r@[k]@.len() >= 1 by {
        reveal_strlit("login");
        reveal_strlit("sign in");
        reveal_strlit("log in");
    }
    r
}

fn cred_s2_exec() -> (r: Vec<Vec<char>>)
    ensures
        vecs_view(r@) == cred_s2(),
{
    let mut r: Vec<Vec<char>> = Vec::new();
    r.push(to_chars("here"));
    r.push(to_chars("now"));
    r.push(to_chars("to"));
    assert(vecs_view(r@) =~= cred_s2());
    r
}

fn cred_p3_exec() -> (r: Vec<Vec<char>>)
    ensures
        vecs_view(r@) == cred_p3(),
        forall|k: int| 0 <= k < r@.len() ==> #[trigger] r@[k]@.len() >= 1,
{
    let mut r: Vec<Vec<char>> = Vec::new();
    r.push(to_chars("enter your"));
    r.push(to_chars("provide your"));
    assert(vecs_view(r@) =~= cred_p3());
    assert forall|k: int| 0 <= k < r@.len() implies #[trigger] r@[k]@.len() >= 1 by {
        reveal_strlit("enter your");
        reveal_strlit("provide your");
    }
    r
}

fn cred_s3_exec() -> (r: Vec<Vec<char>>)
    ensures
        vecs_view(r@) == cred_s3(),
{
    let mut r: Vec<Vec<char>> = Vec::new();
    r.push(to_chars("password"));
    r.push(to_chars("credentials"));
    r.push(to_chars("ssn"));
    r.push(to_chars("social security"));
    assert(vecs_view(r@) =~= cred_s3());
    r
}

fn cred_clicks_exec() -> (r: Vec<Vec<char>>)
    ensures
        vecs_view(r@) == cred_clicks(),
        forall|k: int| 0 <= k < r@.len() ==> #[trigger] r@[k]@.len() >= 1,
{
    let mut r: Vec<Vec<char>> = Vec::new();
    r.push(to_chars("click here to"));
    r.push(to_chars("click the link"));
    r.push(to_chars("click below"));
    assert(vecs_view(r@) =~= cred_clicks());
    assert forall|k: int| 0 <= k < r@.len() implies #[trigger] r@[k]@.len() >= 1 by {
        reveal_strlit("click here to");
        reveal_strlit("click the link");
        reveal_strlit("click below");
    }
    r
}

fn credential_cond_exec(tl: &Vec<char>) -> (b: bool)
    ensures
        b == credential_cond(tl@),
{
    any_pair_exec(tl, &cred_p1_exec(), &cred_s1_exec()) || any_pair_exec(
        tl,
        &cred_p2_exec(),
        &cred_s2_exec(),
    ) || any_pair_exec(tl, &cred_p3_exec(), &cred_s3_exec()) || any_word_exec(
        tl,
        &cred_clicks_exec(),
    )
}

fn brands1_exec() -> (r: Vec<Vec<char>>)
    ensures
        vecs_view(r@) == brands1(),
{
    let mut r: Vec<Vec<char>> = Vec::new();
    r.push(to_chars("paypal"));
    r.push(to_chars("microsoft"));
    r.push(to_chars("apple"));
    r.push(to_chars("amazon"));
    r.push(to_chars("netflix"));
    r.push(to_chars("bank of"));
    r.push(to_chars("wells fargo"));
    r.push(to_chars("chase"));
    assert(vecs_view(r@) =~= brands1());
    r
}

fn brands2_exec() -> (r: Vec<Vec<char>>)
    ensures
        vecs_view(r@) == brands2(),
{
    let mut r: Vec<Vec<char>> = Vec::new();
    r.push(to_chars("security team"));
    r.push(to_chars("support team"));
    r.push(to_chars("customer service"));
    r.push(to_chars("help desk"));
    assert(vecs_view(r@) =~= brands2());
    r
}

fn brands3_exec() -> (r: Vec<Vec<char>>)
    ensures
        vecs_view(r@) == brands3(),
{
    let mut r: Vec<Vec<char>> = Vec::new();
    r.push(to_chars("official"));
    r.push(to_chars("authorized"));
    r.push(to_chars("verified"));
    assert(vecs_view(r@) =~= brands3());
    r
}

fn imp_group_exec(tl: &Vec<char>, froml: &Vec<char>, ws: &Vec<Vec<char>>) -> (r: Option<
    Option<String>,
>)
    ensures
        match r {
            Some(Some(b)) => imp_group(tl@, froml@, vecs_view(ws@)) == Some(
                Some(b@),
            ),
            Some(None) => imp_group(tl@, froml@, vecs_view(ws@)) == Some(None::<Seq<char>>),
            None => imp_group(tl@, froml@, vecs_view(ws@)) is None,
        },
{
    match find_first_word(tl, ws) {
        Some(bi) => {
            assert(vecs_view(ws@)[bi as int] == ws@[bi as int]@);
            if !contains_sub(froml, &ws[bi]) {
                Some(Some(from_chars(&ws[bi])))
            } else {
                Some(None)
            }
        },
        None => None,
    }
}

/// The brand of the impersonation rule, searched group by group.
fn find_impersonation(tl: &Vec<char>, froml: &Vec<char>) -> (r: Option<String>)
    ensures
        match r {
            Some(b) => imp_brand(tl@, froml@) == Some(b@),
            None => imp_brand(tl@, froml@) is None,
        },
{
    match imp_group_exec(tl, froml, &brands1_exec()) {
        Some(Some(b)) => {
            return Some(b);
        },
        _ => {},
    }
    match imp_group_exec(tl, froml, &brands2_exec()) {
        Some(Some(b)) => {
            return Some(b);
        },
        _ => {},
    }
    match imp_group_exec(tl, froml, &brands3_exec()) {
        Some(Some(b)) => {
            return Some(b);
        },
        _ => {},
    }
    None
}

fn shorteners_exec() -> (r: Vec<Vec<char>>)
    ensures
        vecs_view(r@) == shorteners(),
{
    let mut r: Vec<Vec<char>> = Vec::new();
    r.push(to_chars("bit.ly"));
    r.push(to_chars("tinyurl.com"));
    r.push(to_chars("goo.gl"));
    r.push(to_chars("t.co"));
    r.push(to_chars("ow.ly"));
    r.push(to_chars("is.gd"));
    r.push(to_chars("buff.ly"));
    r.push(to_chars("adf.ly"));
    r.push(to_chars("bit.do"));
    r.push(to_chars("mcaf.ee"));
    r.push(to_chars("su.pr"));
    r.push(to_chars("tiny.cc"));
    assert(vecs_view(r@) =~= shorteners());
    r
}

/// The first shortener mentioned by any URL, in URL order then list order.
fn find_shortener(urls: &Vec<String>) -> (r: Option<String>)
    ensures
        match r {
            Some(s) => short_hit(strs_view(urls@), 0) == Some(s@),
            None => short_hit(strs_view(urls@), 0) is None,
        },
{
    let ss = shorteners_exec();
    let mut k: usize = 0;
    while k < urls.len()
        invariant
            k <= urls@.len(),
            vecs_view(ss@) == shorteners(),
            short_hit(strs_view(urls@), 0) == short_hit(strs_view(urls@), k as int),
        decreases urls@.len() - k,
    {
        assert(strs_view(urls@)[k as int] == urls@[k as int]@);
        let ul = to_lower(&to_chars(urls[k].as_str()));
        let mut j: usize = 0;
        while j < ss.len()
            invariant
                j <= ss@.len(),
                k < urls@.len(),
                ul@ == lower(strs_view(urls@)[k as int]),
                vecs_view(ss@) == shorteners(),
                short_idx_at(ul@, shorteners(), 0) == short_idx_at(ul@, shorteners(), j as int),
            decreases ss@.len() - j,
        {
            assert(vecs_view(ss@)[j as int] == ss@[j as int]@);
            if contains_sub(&ul, &ss[j]) {
                return Some(from_chars(&ss[j]));
            }
            j = j + 1;
        }
        assert(short_idx_at(ul@, shorteners(), j as int) is None);
        k = k + 1;
    }
    None
}

/// The sender's domain: the text after the last `@`, lower-cased.
fn from_domain_exec(from: &str) -> (r: Vec<char>)
    ensures
        r@ == from_domain_of(from@),
{
    let v = to_chars(from);
    let n = v.len();
    let mut i: usize = n;
    while i > 0
        invariant
            i <= n,
            n == v@.len(),
            last_at(v@, n as int - 1) == last_at(v@, i as int - 1),
        decreases i,
    {
        if v[i - 1] == '@' {
            let mut tail: Vec<char> = Vec::new();
            let mut j: usize = i;
            while j < n
                invariant
                    i <= j <= n,
                    n == v@.len(),
                    tail@ == v@.subrange(i as int, j as int),
                decreases n - j,
            {
                tail.push(v[j]);
                assert(v@.subrange(i as int, j as int + 1) =~= v@.subrange(i as int, j as int).push(
                    v@[j as int],
                ));
                j = j + 1;
            }
            assert(v@.subrange(i as int, n as int) =~= v@.skip(i as int));
            return to_lower(&tail);
        }
        i = i - 1;
    }
    assert(last_at(v@, i as int - 1) is None);
    to_lower(&v)
}

/// The host of the first URL whose host mismatches the sender's domain.
fn find_mismatch(urls: &Vec<String>, fd: &Vec<char>) -> (r: Option<String>)
    ensures
        match r {
            Some(h) => mism_hit(strs_view(urls@), fd@, 0) == Some(h@),
            None => mism_hit(strs_view(urls@), fd@, 0) is None,
        },
{
    let mut k: usize = 0;
    while k < urls.len()
        invariant
            k <= urls@.len(),
            mism_hit(strs_view(urls@), fd@, 0) == mism_hit(strs_view(urls@), fd@, k as int),
        decreases urls@.len() - k,
    {
        assert(strs_view(urls@)[k as int] == urls@[k as int]@);
        match url_host(urls[k].as_str()) {
            Some(h) => {
                let hl = to_lower(&to_chars(h.as_str()));
                if fd.len() > 0 && !contains_sub(&hl, fd) && !contains_sub(fd, &hl) {
                    return Some(h);
                }
            },
            None => {},
        }
        k = k + 1;
    }
    None
}

/// The filename's extension, lower-cased.
fn ext_of_exec(name: &str) -> (r: Vec<char>)
    ensures
        r@ == ext_of(name@),
{
    let v = to_chars(name);
    let n = v.len();
    let mut i: usize = n;
    while i > 0
        invariant
            i <= n,
            n == v@.len(),
            last_dot(v@, n as int - 1) == last_dot(v@, i as int - 1),
        decreases i,
    {
        if v[i - 1] == '.' {
            let mut tail: Vec<char> = Vec::new();
            let mut j: usize = i;
            while j < n
                invariant
                    i <= j <= n,
                    n == v@.len(),
                    tail@ == v@.subrange(i as int, j as int),
                decreases n - j,
            {
                tail.push(v[j]);
                assert(v@.subrange(i as int, j as int + 1) =~= v@.subrange(i as int, j as int).push(
                    v@[j as int],
                ));
                j = j + 1;
            }
            assert(v@.subrange(i as int, n as int) =~= v@.skip(i as int));
            return to_lower(&tail);
        }
        i = i - 1;
    }
    assert(last_dot(v@, i as int - 1) is None);
    to_lower(&v)
}

fn is_danger_ext_exec(e: &Vec<char>) -> (b: bool)
    ensures
        b == is_danger_ext(e@),
{
    chars_equal(e, &to_chars("exe")) || chars_equal(e, &to_chars("scr")) || chars_equal(
        e,
        &to_chars("bat"),
    ) || chars_equal(e, &to_chars("cmd")) || chars_equal(e, &to_chars("ps1")) || chars_equal(
        e,
        &to_chars("vbs"),
    ) || chars_equal(e, &to_chars("js")) || chars_equal(e, &to_chars("jar")) || chars_equal(
        e,
        &to_chars("msi"),
    )
}

fn is_archive_ext_exec(e: &Vec<char>) -> (b: bool)
    ensures
        b == is_archive_ext(e@),
{
    chars_equal(e, &to_chars("zip")) || chars_equal(e, &to_chars("rar")) || chars_equal(
        e,
        &to_chars("7z"),
    ) || chars_equal(e, &to_chars("iso")) || chars_equal(e, &to_chars("img"))
}

/// The evidence of the three authentication rules alone.
pub open spec fn auth3_evidence(e: ParsedEmail) -> Seq<IndView> {
    (if e.authentication.spf_status@ == ("fail")@ {
        ev_spf_fail()
    } else if e.authentication.spf_status@ == ("softfail")@ {
        ev_spf_soft()
    } else {
        Seq::empty()
    }) + (if e.authentication.dkim_status@ == ("fail")@ {
        ev_dkim()
    } else {
        Seq::empty()
    }) + (if e.authentication.dmarc_status@ == ("fail")@ {
        ev_dmarc()
    } else {
        Seq::empty()
    })
}

/// The evidence of the two header-anomaly rules alone.
pub open spec fn hdr_evidence(e: ParsedEmail) -> Seq<IndView> {
    (if rp_cond(e) {
        ev_rp(e.from@, e.return_path->Some_0@)
    } else {
        Seq::empty()
    }) + (if rt_cond(e) {
        ev_rt(e.from@, e.reply_to->Some_0@)
    } else {
        Seq::empty()
    })
}

/// The authentication rules.
#[verifier::rlimit(100)]
fn auth_rules(email: &ParsedEmail, indicators: &mut Vec<ThreatIndicator>) -> (s: u32)
    ensures
        ({
            let f = flags_of(*email);
            &&& s as int == cap32(
                spf_weight(f.spf) + bool_weight(f.dkim, 25) + bool_weight(f.dmarc, 25),
            )
            &&& final(indicators)@.len() == old(indicators)@.len() + bool_weight(f.spf >= 1, 1)
                + bool_weight(f.dkim, 1) + bool_weight(f.dmarc, 1)
            &&& inds_view(final(indicators)@) == inds_view(old(indicators)@) + auth3_evidence(
                *email,
            )
        }),
{
    let ghost f = flags_of(*email);
    let ghost g0 = inds_view(old(indicators)@);
    let mut score: u32 = 0;
    let spf_status = to_chars(email.authentication.spf_status.as_str());
    if chars_equal(&spf_status, &to_chars("fail")) {
        score = sat_add(score, 25);
        indicators.push(
            ThreatIndicator {
                category: "Authentication".to_owned(),
                description: "SPF check failed".to_owned(),
                severity: "high".to_owned(),
                details: Some(
                    "The sender's domain did not authorize this server to send emails on its behalf.".to_owned(),
                ),
            },
        );
    } else if chars_equal(&spf_status, &to_chars("softfail")) {
        score = sat_add(score, 10);
        indicators.push(
            ThreatIndicator {
                category: "Authentication".to_owned(),
                description: "SPF soft fail".to_owned(),
                severity: "medium".to_owned(),
                details: Some(
                    "The sender's SPF policy indicates this server may not be authorized.".to_owned(),
                ),
            },
        );
    }
    assert(score as int == cap32(spf_weight(f.spf)));
    assert(indicators@.len() == old(indicators)@.len() + bool_weight(f.spf >= 1, 1));
    let ghost e1 = if email.authentication.spf_status@ == ("fail")@ {
        ev_spf_fail()
    } else if email.authentication.spf_status@ == ("softfail")@ {
        ev_spf_soft()
    } else {
        Seq::<IndView>::empty()
    };
    assert(inds_view(indicators@) =~= g0 + e1);

    if chars_equal(&to_chars(email.authentication.dkim_status.as_str()), &to_chars("fail")) {
        score = sat_add(score, 25);
        indicators.push(
            ThreatIndicator {
                category: "Authentication".to_owned(),
                description: "DKIM verification failed".to_owned(),
                severity: "high".to_owned(),
                details: Some("The email's DKIM signature could not be verified.".to_owned()),
            },
        );
    }
    let ghost s2 = spf_weight(f.spf) + bool_weight(f.dkim, 25);
    assert(score as int == cap32(s2));
    let ghost e2 = if email.authentication.dkim_status@ == ("fail")@ {
        ev_dkim()
    } else {
        Seq::<IndView>::empty()
    };
    assert(inds_view(indicators@) =~= g0 + e1 + e2);

    if chars_equal(&to_chars(email.authentication.dmarc_status.as_str()), &to_chars("fail")) {
        score = sat_add(score, 25);
        indicators.push(
            ThreatIndicator {
                category: "Authentication".to_owned(),
                description: "DMARC check failed".to_owned(),
                severity: "high".to_owned(),
                details: Some("The email failed DMARC policy validation.".to_owned()),
            },
        );
    }
    let ghost s3 = s2 + bool_weight(f.dmarc, 25);
    assert(score as int == cap32(s3));
    let ghost e3 = if email.authentication.dmarc_status@ == ("fail")@ {
        ev_dmarc()
    } else {
        Seq::<IndView>::empty()
    };
    assert(inds_view(indicators@) =~= g0 + e1 + e2 + e3);
    assert(inds_view(indicators@) =~= g0 + auth3_evidence(*email));
    score
}

/// The header-anomaly rules.
#[verifier::rlimit(100)]
fn header_rules(
    email: &ParsedEmail,
    froml: &Vec<char>,
    score0: u32,
    indicators: &mut Vec<ThreatIndicator>,
) -> (s: u32)
    requires
        froml@ == lower(email.from@),
    ensures
        ({
            let f = flags_of(*email);
            &&& s as int == cap32(score0 + bool_weight(f.rp, 15) + bool_weight(f.rt, 15))
            &&& final(indicators)@.len() == old(indicators)@.len() + bool_weight(f.rp, 1)
                + bool_weight(f.rt, 1)
            &&& inds_view(final(indicators)@) == inds_view(old(indicators)@) + hdr_evidence(
                *email,
            )
        }),
{
    let ghost f = flags_of(*email);
    let ghost g0 = inds_view(old(indicators)@);
    let mut score: u32 = score0;
    let ghost s3: int = score0 as int;

    match &email.return_path {
        Some(rp) => {
            let rpv = to_chars(rp.as_str());
            let rpl = to_lower(&rpv);
            if rpv.len() > 0 && !contains_sub(froml, &rpl) && !contains_sub(&rpl, froml) {
                score = sat_add(score, 15);
                indicators.push(
                    ThreatIndicator {
                        category: "Header Anomaly".to_owned(),
                        description: "Return-Path mismatch".to_owned(),
                        severity: "medium".to_owned(),
                        details: Some(
                            cat4(
                                "From: ",
                                email.from.as_str(),
                                " differs from Return-Path: ",
                                rp.as_str(),
                            ),
                        ),
                    },
                );
            }
        },
        None => {},
    }
    let ghost s4 = s3 + bool_weight(f.rp, 15);
    assert(score as int == cap32(s4));
    let ghost e4 = if rp_cond(*email) {
        ev_rp(email.from@, email.return_path->Some_0@)
    } else {
        Seq::<IndView>::empty()
    };
    assert(inds_view(indicators@) =~= g0 + e4);

    match &email.reply_to {
        Some(rt) => {
            let rtv = to_chars(rt.as_str());
            let rtl = to_lower(&rtv);
            if rtv.len() > 0 && !contains_sub(froml, &rtl) {
                score = sat_add(score, 15);
                indicators.push(
                    ThreatIndicator {
                        category: "Header Anomaly".to_owned(),
                        description: "Reply-To mismatch".to_owned(),
                        severity: "medium".to_owned(),
                        details: Some(
                            cat4(
                                "Replies would go to ",
                                rt.as_str(),
                                " instead of ",
                                email.from.as_str(),
                            ),
                        ),
                    },
                );
            }
        },
        None => {},
    }
    let ghost s5 = s4 + bool_weight(f.rt, 15);
    assert(score as int == cap32(s5));
    let ghost e5 = if rt_cond(*email) {
        ev_rt(email.from@, email.reply_to->Some_0@)
    } else {
        Seq::<IndView>::empty()
    };
    assert(inds_view(indicators@) =~= g0 + e4 + e5);
    assert(inds_view(indicators@) =~= g0 + hdr_evidence(*email));
    score
}

/// The social-engineering and URL rules.
#[verifier::rlimit(100)]
fn text_url_rules(
    email: &ParsedEmail,
    tl: &Vec<char>,
    froml: &Vec<char>,
    score0: u32,
    indicators: &mut Vec<ThreatIndicator>,
) -> (s: u32)
    requires
        tl@ == lower(combined_text(*email)),
        froml@ == lower(email.from@),
    ensures
        ({
            let f = flags_of(*email);
            &&& s as int == cap32(
                score0 + bool_weight(f.urg, 10) + bool_weight(f.cred, 20) + bool_weight(f.imp, 15)
                    + bool_weight(f.short, 10) + bool_weight(f.mism, 5),
            )
            &&& final(indicators)@.len() == old(indicators)@.len() + bool_weight(f.urg, 1)
                + bool_weight(f.cred, 1) + bool_weight(f.imp, 1) + bool_weight(f.short, 1)
                + bool_weight(f.mism, 1)
            &&& inds_view(final(indicators)@) == inds_view(old(indicators)@) + text_url_evidence(
                *email,
            )
        }),
{
    let ghost f = flags_of(*email);
    let ghost g0 = inds_view(old(indicators)@);
    let mut score: u32 = score0;
    let ghost s5: int = score0 as int;
    if any_word_exec(tl, &urgency_words_exec()) {
        score = sat_add(score, 10);
        indicators.push(
            ThreatIndicator {
                category: "Social Engineering".to_owned(),
                description: "Urgency language detected".to_owned(),
                severity: "medium".to_owned(),
                details: Some(
                    "The email uses urgent or pressure tactics common in phishing.".to_owned(),
                ),
            },
        );
    }
    let ghost s6 = s5 + bool_weight(f.urg, 10);
    assert(score as int == cap32(s6));
    let ghost e1 = if f.urg {
        ev_urg()
    } else {
        Seq::<IndView>::empty()
    };
    assert(inds_view(indicators@) =~= g0 + e1);

    if credential_cond_exec(tl) {
        score = sat_add(score, 20);
        indicators.push(
            ThreatIndicator {
                category: "Credential Harvesting".to_owned(),
                description: "Credential request detected".to_owned(),
                severity: "high".to_owned(),
                details: Some(
                    "The email contains language requesting login or personal information.".to_owned(),
                ),
            },
        );
    }
    let ghost s7 = s6 + bool_weight(f.cred, 20);
    assert(score as int == cap32(s7));
    let ghost e2 = if f.cred {
        ev_cred()
    } else {
        Seq::<IndView>::empty()
    };
    assert(inds_view(indicators@) =~= g0 + e1 + e2);

    match find_impersonation(tl, froml) {
        Some(brand) => {
            score = sat_add(score, 15);
            indicators.push(
                ThreatIndicator {
                    category: "Impersonation".to_owned(),
                    description: cat3("Possible ", brand.as_str(), " impersonation"),
                    severity: "high".to_owned(),
                    details: Some(
                        cat3(
                            "Email mentions ",
                            brand.as_str(),
                            " but sender domain doesn't match.",
                        ),
                    ),
                },
            );
        },
        None => {},
    }
    let ghost s8 = s7 + bool_weight(f.imp, 15);
    assert(score as int == cap32(s8));
    let ghost e3 = match imp_brand(lower(combined_text(*email)), lower(email.from@)) {
        Some(b) => ev_imp(b),
        None => Seq::<IndView>::empty(),
    };
    assert(inds_view(indicators@) =~= g0 + e1 + e2 + e3);

    match find_shortener(&email.urls) {
        Some(sh) => {
            score = sat_add(score, 10);
            indicators.push(
                ThreatIndicator {
                    category: "Suspicious URL".to_owned(),
                    description: "URL shortener detected".to_owned(),
                    severity: "medium".to_owned(),
                    details: Some(
                        cat3(
                            "URL shortener used: ",
                            sh.as_str(),
                            " (may hide malicious destination)",
                        ),
                    ),
                },
            );
        },
        None => {},
    }
    let ghost s9 = s8 + bool_weight(f.short, 10);
    assert(score as int == cap32(s9));
    let ghost e4 = match short_hit(strs_view(email.urls@), 0) {
        Some(sh) => ev_short(sh),
        None => Seq::<IndView>::empty(),
    };
    assert(inds_view(indicators@) =~= g0 + e1 + e2 + e3 + e4);

    let fd = from_domain_exec(email.from.as_str());
    match find_mismatch(&email.urls, &fd) {
        Some(host) => {
            score = sat_add(score, 5);
            indicators.push(
                ThreatIndicator {
                    category: "Suspicious URL".to_owned(),
                    description: "External domain in links".to_owned(),
                    severity: "low".to_owned(),
                    details: Some(
                        cat3(
                            "Link points to ",
                            host.as_str(),
                            " which differs from sender domain",
                        ),
                    ),
                },
            );
        },
        None => {},
    }
    let ghost s10 = s9 + bool_weight(f.mism, 5);
    assert(score as int == cap32(s10));
    let ghost e5 = match mism_hit(strs_view(email.urls@), from_domain_of(email.from@), 0) {
        Some(h) => ev_mism(h),
        None => Seq::<IndView>::empty(),
    };
    assert(inds_view(indicators@) =~= g0 + e1 + e2 + e3 + e4 + e5);
    assert(inds_view(indicators@) =~= g0 + text_url_evidence(*email));
    score
}

/// The attachment rules: a fixed weight per dangerous or archive file.
#[verifier::rlimit(100)]
fn attachment_rules(email: &ParsedEmail, score0: u32, indicators: &mut Vec<ThreatIndicator>) -> (s:
    u32)
    ensures
        s as int == cap32(
            score0 + 30 * danger_count(email.attachments@, 0) + 10 * archive_count(
                email.attachments@,
                0,
            ),
        ),
        final(indicators)@.len() == old(indicators)@.len() + danger_count(email.attachments@, 0)
            + archive_count(email.attachments@, 0),
        inds_view(final(indicators)@) == inds_view(old(indicators)@) + att_evidence(
            email.attachments@,
            email.attachments@.len() as int,
        ),
{
    proof {
        lemma_counts_nonneg(email.attachments@, 0);
    }
    let mut score: u32 = score0;
    let ghost s10: int = score0 as int;
    let ghost ind10 = indicators@.len() as int;
    let mut i: usize = 0;
    while i < email.attachments.len()
        invariant
            i <= email.attachments@.len(),
            score as int == cap32(
                s10 + 30 * (danger_count(email.attachments@, 0) - danger_count(
                    email.attachments@,
                    i as int,
                )) + 10 * (archive_count(email.attachments@, 0) - archive_count(
                    email.attachments@,
                    i as int,
                )),
            ),
            indicators@.len() as int == ind10 + (danger_count(email.attachments@, 0)
                - danger_count(email.attachments@, i as int)) + (archive_count(
                email.attachments@,
                0,
            ) - archive_count(email.attachments@, i as int)),
            inds_view(indicators@) == inds_view(old(indicators)@) + att_evidence(
                email.attachments@,
                i as int,
            ),
        decreases email.attachments@.len() - i,
    {
        let ghost pre = inds_view(indicators@);
        proof {
            lemma_counts_nonneg(email.attachments@, i as int);
            lemma_counts_nonneg(email.attachments@, i as int + 1);
        }
        let att = &email.attachments[i];
        let ext = ext_of_exec(att.filename.as_str());
        let ext_s = from_chars(&ext);
        if is_danger_ext_exec(&ext) {
            score = sat_add(score, 30);
            indicators.push(
                ThreatIndicator {
                    category: "Malicious Attachment".to_owned(),
                    description: cat2("Dangerous file type: .", ext_s.as_str()),
                    severity: "high".to_owned(),
                    details: Some(
                        cat3(
                            "Attachment '",
                            att.filename.as_str(),
                            "' is an executable file type",
                        ),
                    ),
                },
            );
        } else if is_archive_ext_exec(&ext) {
            score = sat_add(score, 10);
            indicators.push(
                ThreatIndicator {
                    category: "Suspicious Attachment".to_owned(),
                    description: cat2("Archive file type: .", ext_s.as_str()),
                    severity: "medium".to_owned(),
                    details: Some(
                        cat3(
                            "Attachment '",
                            att.filename.as_str(),
                            "' is an archive that may contain malware",
                        ),
                    ),
                },
            );
        }
        assert(inds_view(indicators@) =~= pre + att_entry(email.attachments@[i as int]));
        assert(att_evidence(email.attachments@, i as int + 1) == att_evidence(
            email.attachments@,
            i as int,
        ) + att_entry(email.attachments@[i as int]));
        assert(inds_view(indicators@) =~= inds_view(old(indicators)@) + att_evidence(
            email.attachments@,
            i as int + 1,
        ));
        i = i + 1;
    }
    proof {
        lemma_counts_nonneg(email.attachments@, i as int);
        assert(danger_count(email.attachments@, i as int) == 0);
        assert(archive_count(email.attachments@, i as int) == 0);
    }
    score
}

/// Evaluate every rule over the email, accumulate the score (saturating at
/// the machine limit) and the evidence list, and classify.
pub fn analyze_threats(email: &ParsedEmail) -> (r: ThreatAssessment)
    ensures
        r.score as int == cap32(score_of(flags_of(*email))),
        r.level == level_of(r.score as int),
        r.summary@ == summary_of(r.level),
        r.indicators@.len() == indicator_count(flags_of(*email)),
        inds_view(r.indicators@) == evidence_of(*email),
{
    let ghost f = flags_of(*email);
    let mut indicators: Vec<ThreatIndicator> = Vec::new();
    assert(inds_view(indicators@) =~= Seq::<IndView>::empty());

    let mut comb = to_chars(email.subject.as_str());
    comb.push(' ');
    append_vec(&mut comb, &to_chars(email.body_text.as_str()));
    comb.push(' ');
    append_vec(&mut comb, &to_chars(email.body_html.as_str()));
    assert(comb@ =~= combined_text(*email));
    let tl = to_lower(&comb);
    let froml = to_lower(&to_chars(email.from.as_str()));

    let s1 = auth_rules(email, &mut indicators);
    let s1b = header_rules(email, &froml, s1, &mut indicators);
    let s2 = text_url_rules(email, &tl, &froml, s1b, &mut indicators);
    let score = attachment_rules(email, s2, &mut indicators);
    proof {
        lemma_counts_nonneg(email.attachments@, 0);
    }
    assert(score as int == cap32(score_of(f)));
    assert(indicators@.len() as int == indicator_count(f));
    assert(inds_view(indicators@) =~= evidence_of(*email));

    let level = if score >= 50 {
        ThreatLevel::High
    } else if score >= 25 {
        ThreatLevel::Medium
    } else {
        ThreatLevel::Low
    };
    let summary = match level {
        ThreatLevel::High => "This email shows multiple high-risk indicators consistent with phishing or malicious intent.".to_owned(),
        ThreatLevel::Medium => "This email shows some suspicious characteristics that warrant caution.".to_owned(),
        ThreatLevel::Low => "This email shows minimal suspicious indicators but should still be verified.".to_owned(),
    };

    ThreatAssessment { level, score, indicators, summary }
}

/// The attachment counters depend on the filenames alone.
pub proof fn lemma_counts_eq(a1: Seq<Attachment>, a2: Seq<Attachment>, i: int)
    requires
        a1.len() == a2.len(),
        forall|k: int| 0 <= k < a1.len() ==> #[trigger] a1[k].filename@ == a2[k].filename@,
    ensures
        danger_count(a1, i) == danger_count(a2, i),
        archive_count(a1, i) == archive_count(a2, i),
    decreases a1.len() - i,
{
    if 0 <= i && i < a1.len() {
        lemma_counts_eq(a1, a2, i + 1);
    }
}

/// The attachment counters are non-negative.
pub proof fn lemma_counts_nonneg(atts: Seq<Attachment>, i: int)
    ensures
        0 <= danger_count(atts, i),
        0 <= archive_count(atts, i),
    decreases atts.len() - i,
{
    if 0 <= i && i < atts.len() {
        lemma_counts_nonneg(atts, i + 1);
    }
}

} // verus!
