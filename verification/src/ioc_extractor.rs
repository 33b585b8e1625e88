//! The indicator-extraction engine: defanging transforms, the IOC report
//! over a structured email (defanged indicator lists, attachment hash
//! records, headers of interest), and its copy-ready text rendering.
use vstd::prelude::*;

use crate::email_parser::{EmailHeader, ParsedEmail};
use crate::text::{
    append_vec, chars_equal, contains_seq, contains_sub, from_chars, lower, replace_all,
    replace_spec, strs_view, to_chars, to_lower,
};

verus! {

pub struct IOCReport {
    pub domains: Vec<String>,
    pub urls: Vec<String>,
    pub ip_addresses: Vec<String>,
    pub email_addresses: Vec<String>,
    pub file_hashes: Vec<FileHash>,
    pub headers_of_interest: Vec<HeaderOfInterest>,
}

pub struct FileHash {
    pub filename: String,
    pub sha256: String,
}

pub struct HeaderOfInterest {
    pub name: String,
    pub value: String,
    pub reason: String,
}

// ---------------------------------------------------------------------------
// Defanging
// ---------------------------------------------------------------------------

pub open spec fn defang_url_spec(u: Seq<char>) -> Seq<char> {
    replace_spec(
        replace_spec(
            replace_spec(u, ("http://")@, ("hxxp://")@),
            ("https://")@,
            ("hxxps://")@,
        ),
        (".")@,
        ("[.]")@,
    )
}

pub open spec fn defang_domain_spec(d: Seq<char>) -> Seq<char> {
    replace_spec(d, (".")@, ("[.]")@)
}

pub open spec fn defang_email_spec(e: Seq<char>) -> Seq<char> {
    replace_spec(replace_spec(e, ("@")@, ("[@]")@), (".")@, ("[.]")@)
}

pub open spec fn defang_ip_spec(i: Seq<char>) -> Seq<char> {
    replace_spec(i, (".")@, ("[.]")@)
}

/// Scheme substitution first, then every dot bracketed.
pub fn defang_url(url: &str) -> (r: String)
    ensures
        r@ == defang_url_spec(url@),
{
    proof {
        reveal_strlit("http://");
        reveal_strlit("https://");
        reveal_strlit(".");
    }
    let u = to_chars(url);
    let r1 = replace_all(&u, &to_chars("http://"), &to_chars("hxxp://"));
    let r2 = replace_all(&r1, &to_chars("https://"), &to_chars("hxxps://"));
    let r3 = replace_all(&r2, &to_chars("."), &to_chars("[.]"));
    from_chars(&r3)
}

/// Every dot bracketed.
pub fn defang_domain(domain: &str) -> (r: String)
    ensures
        r@ == defang_domain_spec(domain@),
{
    proof {
        reveal_strlit(".");
    }
    let d = to_chars(domain);
    let r1 = replace_all(&d, &to_chars("."), &to_chars("[.]"));
    from_chars(&r1)
}

/// The at-sign bracketed first, then every dot.
pub fn defang_email(email: &str) -> (r: String)
    ensures
        r@ == defang_email_spec(email@),
{
    proof {
        reveal_strlit("@");
        reveal_strlit(".");
    }
    let e = to_chars(email);
    let r1 = replace_all(&e, &to_chars("@"), &to_chars("[@]"));
    let r2 = replace_all(&r1, &to_chars("."), &to_chars("[.]"));
    from_chars(&r2)
}

/// Every dot bracketed.
pub fn defang_ip(ip: &str) -> (r: String)
    ensures
        r@ == defang_ip_spec(ip@),
{
    proof {
        reveal_strlit(".");
    }
    let i = to_chars(ip);
    let r1 = replace_all(&i, &to_chars("."), &to_chars("[.]"));
    from_chars(&r1)
}

// ---------------------------------------------------------------------------
// Headers of interest
// ---------------------------------------------------------------------------

/// The ghost image of a finding.
pub struct HoiView {
    pub name: Seq<char>,
    pub value: Seq<char>,
    pub reason: Seq<char>,
}

pub open spec fn hoi_view(h: HeaderOfInterest) -> HoiView {
    HoiView { name: h.name@, value: h.value@, reason: h.reason@ }
}

pub open spec fn hois_view(v: Seq<HeaderOfInterest>) -> Seq<HoiView> {
    v.map_values(|h: HeaderOfInterest| hoi_view(h))
}

/// The findings gathered from the header list itself: the originating-IP
/// and mailer headers always, and up to the first three `Received` headers
/// whose value mentions `from`.
pub open spec fn hoi_scan(hs: Seq<EmailHeader>, i: int, acc: Seq<HoiView>, rc: int) -> Seq<HoiView>
    decreases hs.len() - i,
{
    if !(0 <= i && i < hs.len()) {
        acc
    } else {
        let nl = lower(hs[i].name@);
        let acc1 = if nl == ("x-originating-ip")@ {
            acc.push(
                HoiView {
                    name: hs[i].name@,
                    value: hs[i].value@,
                    reason: ("Source IP of the email sender")@,
                },
            )
        } else {
            acc
        };
        let acc2 = if nl == ("x-mailer")@ {
            acc1.push(
                HoiView {
                    name: hs[i].name@,
                    value: hs[i].value@,
                    reason: ("Email client used to send the message")@,
                },
            )
        } else {
            acc1
        };
        if nl == ("received")@ && contains_seq(lower(hs[i].value@), ("from")@) && rc < 3 {
            hoi_scan(
                hs,
                i + 1,
                acc2.push(
                    HoiView {
                        name: hs[i].name@,
                        value: hs[i].value@,
                        reason: ("Email routing information")@,
                    },
                ),
                rc + 1,
            )
        } else {
            hoi_scan(hs, i + 1, acc2, rc)
        }
    }
}

/// `From: {} | Return-Path: {}`.
pub open spec fn rp_mismatch_value(from: Seq<char>, rp: Seq<char>) -> Seq<char> {
    ("From: ")@ + from + (" | Return-Path: ")@ + rp
}

/// `From: {} | Reply-To: {}`.
pub open spec fn rt_mismatch_value(from: Seq<char>, rt: Seq<char>) -> Seq<char> {
    ("From: ")@ + from + (" | Reply-To: ")@ + rt
}

/// All findings: the header scan, the possible-spoofing and
/// possible-redirect findings, and the three authentication summaries.
pub open spec fn hoi_spec(e: ParsedEmail) -> Seq<HoiView> {
    let base = hoi_scan(e.headers@, 0, Seq::empty(), 0);
    let b2 = match e.return_path {
        Some(rp) => if e.from@.len() > 0 && rp@.len() > 0 && !contains_seq(e.from@, rp@)
            && !contains_seq(rp@, e.from@) {
            base.push(
                HoiView {
                    name: ("Return-Path Mismatch")@,
                    value: rp_mismatch_value(e.from@, rp@),
                    reason: ("Return-Path does not match From address - possible spoofing")@,
                },
            )
        } else {
            base
        },
        None => base,
    };
    let b3 = match e.reply_to {
        Some(rt) => if rt@.len() > 0 && !contains_seq(e.from@, rt@) {
            b2.push(
                HoiView {
                    name: ("Reply-To Mismatch")@,
                    value: rt_mismatch_value(e.from@, rt@),
                    reason: ("Reply-To does not match From address - possible redirect")@,
                },
            )
        } else {
            b2
        },
        None => b2,
    };
    b3.push(
        HoiView {
            name: ("SPF")@,
            value: e.authentication.spf_status@,
            reason: ("SPF validation result")@,
        },
    ).push(
        HoiView {
            name: ("DKIM")@,
            value: e.authentication.dkim_status@,
            reason: ("DKIM validation result")@,
        },
    ).push(
        HoiView {
            name: ("DMARC")@,
            value: e.authentication.dmarc_status@,
            reason: ("DMARC validation result")@,
        },
    )
}

fn concat4(a: &str, b: &String, c: &str, d: &String) -> (r: String)
    ensures
        r@ == a@ + b@ + c@ + d@,
{
    let mut v = to_chars(a);
    append_vec(&mut v, &to_chars(b.as_str()));
    append_vec(&mut v, &to_chars(c));
    append_vec(&mut v, &to_chars(d.as_str()));
    from_chars(&v)
}

// ---------------------------------------------------------------------------
// The IOC report
// ---------------------------------------------------------------------------

pub open spec fn defanged_all(items: Seq<String>, f: spec_fn(Seq<char>) -> Seq<char>) -> Seq<
    Seq<char>,
> {
    strs_view(items).map_values(f)
}

/// Defang every indicator list of the email, copy the attachment hash
/// records, and gather the headers of interest.
fn defang_domains(items: &Vec<String>) -> (r: Vec<String>)
    ensures
        strs_view(r@) == defanged_all(items@, |d: Seq<char>| defang_domain_spec(d)),
{
    let mut out: Vec<String> = Vec::new();
    let mut k: usize = 0;
    while k < items.len()
        invariant
            k <= items@.len(),
            out@.len() == k,
            forall|j: int| 0 <= j < k ==> #[trigger] out@[j]@ == defang_domain_spec(items@[j]@),
        decreases items@.len() - k,
    {
        out.push(defang_domain(items[k].as_str()));
        k = k + 1;
    }
    assert forall|j: int| 0 <= j < items@.len() implies strs_view(out@)[j] == defanged_all(
        items@,
        |d: Seq<char>| defang_domain_spec(d),
    )[j] by {
        assert(out@[j]@ == defang_domain_spec(items@[j]@));
    }
    assert(strs_view(out@) =~= defanged_all(items@, |d: Seq<char>| defang_domain_spec(d)));
    out
}

fn defang_urls(items: &Vec<String>) -> (r: Vec<String>)
    ensures
        strs_view(r@) == defanged_all(items@, |u: Seq<char>| defang_url_spec(u)),
{
    let mut out: Vec<String> = Vec::new();
    let mut k: usize = 0;
    while k < items.len()
        invariant
            k <= items@.len(),
            out@.len() == k,
            forall|j: int| 0 <= j < k ==> #[trigger] out@[j]@ == defang_url_spec(items@[j]@),
        decreases items@.len() - k,
    {
        out.push(defang_url(items[k].as_str()));
        k = k + 1;
    }
    assert forall|j: int| 0 <= j < items@.len() implies strs_view(out@)[j] == defanged_all(
        items@,
        |u: Seq<char>| defang_url_spec(u),
    )[j] by {
        assert(out@[j]@ == defang_url_spec(items@[j]@));
    }
    assert(strs_view(out@) =~= defanged_all(items@, |u: Seq<char>| defang_url_spec(u)));
    out
}

fn defang_ips(items: &Vec<String>) -> (r: Vec<String>)
    ensures
        strs_view(r@) == defanged_all(items@, |d: Seq<char>| defang_ip_spec(d)),
{
    let mut out: Vec<String> = Vec::new();
    let mut k: usize = 0;
    while k < items.len()
        invariant
            k <= items@.len(),
            out@.len() == k,
            forall|j: int| 0 <= j < k ==> #[trigger] out@[j]@ == defang_ip_spec(items@[j]@),
        decreases items@.len() - k,
    {
        out.push(defang_ip(items[k].as_str()));
        k = k + 1;
    }
    assert forall|j: int| 0 <= j < items@.len() implies strs_view(out@)[j] == defanged_all(
        items@,
        |d: Seq<char>| defang_ip_spec(d),
    )[j] by {
        assert(out@[j]@ == defang_ip_spec(items@[j]@));
    }
    assert(strs_view(out@) =~= defanged_all(items@, |d: Seq<char>| defang_ip_spec(d)));
    out
}

fn defang_emails(items: &Vec<String>) -> (r: Vec<String>)
    ensures
        strs_view(r@) == defanged_all(items@, |d: Seq<char>| defang_email_spec(d)),
{
    let mut out: Vec<String> = Vec::new();
    let mut k: usize = 0;
    while k < items.len()
        invariant
            k <= items@.len(),
            out@.len() == k,
            forall|j: int| 0 <= j < k ==> #[trigger] out@[j]@ == defang_email_spec(items@[j]@),
        decreases items@.len() - k,
    {
        out.push(defang_email(items[k].as_str()));
        k = k + 1;
    }
    assert forall|j: int| 0 <= j < items@.len() implies strs_view(out@)[j] == defanged_all(
        items@,
        |d: Seq<char>| defang_email_spec(d),
    )[j] by {
        assert(out@[j]@ == defang_email_spec(items@[j]@));
    }
    assert(strs_view(out@) =~= defanged_all(items@, |d: Seq<char>| defang_email_spec(d)));
    out
}

pub fn extract_iocs(email: &ParsedEmail) -> (r: IOCReport)
    ensures
        strs_view(r.domains@) == defanged_all(email.domains@, |d: Seq<char>| defang_domain_spec(d)),
        strs_view(r.urls@) == defanged_all(email.urls@, |u: Seq<char>| defang_url_spec(u)),
        strs_view(r.ip_addresses@) == defanged_all(
            email.ip_addresses@,
            |i: Seq<char>| defang_ip_spec(i),
        ),
        strs_view(r.email_addresses@) == defanged_all(
            email.email_addresses@,
            |a: Seq<char>| defang_email_spec(a),
        ),
        r.file_hashes@.len() == email.attachments@.len(),
        forall|k: int|
            #![trigger r.file_hashes@[k]]
            0 <= k < email.attachments@.len() ==> r.file_hashes@[k].filename@
                == email.attachments@[k].filename@ && r.file_hashes@[k].sha256@
                == email.attachments@[k].sha256@,
        hois_view(r.headers_of_interest@) == hoi_spec(*email),
{
    let domains = defang_domains(&email.domains);
    let urls = defang_urls(&email.urls);
    let ips = defang_ips(&email.ip_addresses);
    let emails = defang_emails(&email.email_addresses);

    let mut file_hashes: Vec<FileHash> = Vec::new();
    let mut k5: usize = 0;
    while k5 < email.attachments.len()
        invariant
            k5 <= email.attachments@.len(),
            file_hashes@.len() == k5,
            forall|j: int|
                #![trigger file_hashes@[j]]
                0 <= j < k5 ==> file_hashes@[j].filename@ == email.attachments@[j].filename@
                    && file_hashes@[j].sha256@ == email.attachments@[j].sha256@,
        decreases email.attachments@.len() - k5,
    {
        file_hashes.push(
            FileHash {
                filename: email.attachments[k5].filename.clone(),
                sha256: email.attachments[k5].sha256.clone(),
            },
        );
        k5 = k5 + 1;
    }

    let hoi = build_headers_of_interest(email);

    IOCReport {
        domains,
        urls,
        ip_addresses: ips,
        email_addresses: emails,
        file_hashes,
        headers_of_interest: hoi,
    }
}

fn build_headers_of_interest(email: &ParsedEmail) -> (r: Vec<HeaderOfInterest>)
    ensures
        hois_view(r@) == hoi_spec(*email),
{
    let mut acc: Vec<HeaderOfInterest> = Vec::new();
    let mut rc: usize = 0;
    let mut i: usize = 0;
    assert(hois_view(acc@) =~= Seq::<HoiView>::empty());
    while i < email.headers.len()
        invariant
            i <= email.headers@.len(),
            rc <= 3,
            hoi_scan(email.headers@, 0, Seq::empty(), 0) == hoi_scan(
                email.headers@,
                i as int,
                hois_view(acc@),
                rc as int,
            ),
        decreases email.headers@.len() - i,
    {
        let h = &email.headers[i];
        let nl = to_lower(&to_chars(h.name.as_str()));
        let ghost before = hois_view(acc@);
        if chars_equal(&nl, &to_chars("x-originating-ip")) {
            acc.push(
                HeaderOfInterest {
                    name: h.name.clone(),
                    value: h.value.clone(),
                    reason: "Source IP of the email sender".to_owned(),
                },
            );
            assert(hois_view(acc@) =~= before.push(
                HoiView {
                    name: email.headers@[i as int].name@,
                    value: email.headers@[i as int].value@,
                    reason: ("Source IP of the email sender")@,
                },
            ));
        }
        let ghost after1 = hois_view(acc@);
        if chars_equal(&nl, &to_chars("x-mailer")) {
            acc.push(
                HeaderOfInterest {
                    name: h.name.clone(),
                    value: h.value.clone(),
                    reason: "Email client used to send the message".to_owned(),
                },
            );
            assert(hois_view(acc@) =~= after1.push(
                HoiView {
                    name: email.headers@[i as int].name@,
                    value: email.headers@[i as int].value@,
                    reason: ("Email client used to send the message")@,
                },
            ));
        }
        let ghost after2 = hois_view(acc@);
        let vl = to_lower(&to_chars(h.value.as_str()));
        if chars_equal(&nl, &to_chars("received")) && contains_sub(&vl, &to_chars("from")) && rc
            < 3 {
            acc.push(
                HeaderOfInterest {
                    name: h.name.clone(),
                    value: h.value.clone(),
                    reason: "Email routing information".to_owned(),
                },
            );
            assert(hois_view(acc@) =~= after2.push(
                HoiView {
                    name: email.headers@[i as int].name@,
                    value: email.headers@[i as int].value@,
                    reason: ("Email routing information")@,
                },
            ));
            rc = rc + 1;
        }
        i = i + 1;
    }

    let ghost base = hois_view(acc@);
    match &email.return_path {
        Some(rp) => {
            let fromv = to_chars(email.from.as_str());
            let rpv = to_chars(rp.as_str());
            if fromv.len() > 0 && rpv.len() > 0 && !contains_sub(&fromv, &rpv) && !contains_sub(
                &rpv,
                &fromv,
            ) {
                let value = concat4("From: ", &email.from, " | Return-Path: ", rp);
                acc.push(
                    HeaderOfInterest {
                        name: "Return-Path Mismatch".to_owned(),
                        value,
                        reason: "Return-Path does not match From address - possible spoofing"
                            .to_owned(),
                    },
                );
                assert(hois_view(acc@) =~= base.push(
                    HoiView {
                        name: ("Return-Path Mismatch")@,
                        value: rp_mismatch_value(email.from@, rp@),
                        reason: ("Return-Path does not match From address - possible spoofing")@,
                    },
                ));
            }
        },
        None => {},
    }

    let ghost b2 = hois_view(acc@);
    match &email.reply_to {
        Some(rt) => {
            let fromv = to_chars(email.from.as_str());
            let rtv = to_chars(rt.as_str());
            if rtv.len() > 0 && !contains_sub(&fromv, &rtv) {
                let value = concat4("From: ", &email.from, " | Reply-To: ", rt);
                acc.push(
                    HeaderOfInterest {
                        name: "Reply-To Mismatch".to_owned(),
                        value,
                        reason: "Reply-To does not match From address - possible redirect"
                            .to_owned(),
                    },
                );
                assert(hois_view(acc@) =~= b2.push(
                    HoiView {
                        name: ("Reply-To Mismatch")@,
                        value: rt_mismatch_value(email.from@, rt@),
                        reason: ("Reply-To does not match From address - possible redirect")@,
                    },
                ));
            }
        },
        None => {},
    }

    let ghost b3 = hois_view(acc@);
    acc.push(
        HeaderOfInterest {
            name: "SPF".to_owned(),
            value: email.authentication.spf_status.clone(),
            reason: "SPF validation result".to_owned(),
        },
    );
    acc.push(
        HeaderOfInterest {
            name: "DKIM".to_owned(),
            value: email.authentication.dkim_status.clone(),
            reason: "DKIM validation result".to_owned(),
        },
    );
    acc.push(
        HeaderOfInterest {
            name: "DMARC".to_owned(),
            value: email.authentication.dmarc_status.clone(),
            reason: "DMARC validation result".to_owned(),
        },
    );
    assert(hois_view(acc@) =~= b3.push(
        HoiView {
            name: ("SPF")@,
            value: email.authentication.spf_status@,
            reason: ("SPF validation result")@,
        },
    ).push(
        HoiView {
            name: ("DKIM")@,
            value: email.authentication.dkim_status@,
            reason: ("DKIM validation result")@,
        },
    ).push(
        HoiView {
            name: ("DMARC")@,
            value: email.authentication.dmarc_status@,
            reason: ("DMARC validation result")@,
        },
    ));
    acc
}

// ---------------------------------------------------------------------------
// Copy-ready rendering
// ---------------------------------------------------------------------------

/// `- {item}\n` for each item.
pub open spec fn bullet_list(items: Seq<Seq<char>>, i: int) -> Seq<char>
    decreases items.len() - i,
{
    if !(0 <= i && i < items.len()) {
        Seq::empty()
    } else {
        ("- ")@ + items[i] + ("\n")@ + bullet_list(items, i + 1)
    }
}

/// A titled section, empty when there are no items.
pub open spec fn section(title: Seq<char>, items: Seq<Seq<char>>) -> Seq<char> {
    if items.len() == 0 {
        Seq::empty()
    } else {
        title + bullet_list(items, 0) + ("\n")@
    }
}

/// `- {filename}: SHA256: {digest}\n` for each record.
pub open spec fn hash_list(hs: Seq<FileHash>, i: int) -> Seq<char>
    decreases hs.len() - i,
{
    if !(0 <= i && i < hs.len()) {
        Seq::empty()
    } else {
        ("- ")@ + hs[i].filename@ + (": SHA256: ")@ + hs[i].sha256@ + ("\n")@ + hash_list(hs, i + 1)
    }
}

/// `- {name}: {value}\n` for each finding.
pub open spec fn hoi_list(hs: Seq<HeaderOfInterest>, i: int) -> Seq<char>
    decreases hs.len() - i,
{
    if !(0 <= i && i < hs.len()) {
        Seq::empty()
    } else {
        ("- ")@ + hs[i].name@ + (": ")@ + hs[i].value@ + ("\n")@ + hoi_list(hs, i + 1)
    }
}

pub open spec fn format_iocs_spec(r: IOCReport) -> Seq<char> {
    section(("## Domains\n")@, strs_view(r.domains@)) + section(("## URLs\n")@, strs_view(r.urls@))
        + section(("## IP Addresses\n")@, strs_view(r.ip_addresses@)) + section(
        ("## Email Addresses\n")@,
        strs_view(r.email_addresses@),
    ) + (if r.file_hashes@.len() == 0 {
        Seq::<char>::empty()
    } else {
        ("## File Hashes\n")@ + hash_list(r.file_hashes@, 0) + ("\n")@
    }) + (if r.headers_of_interest@.len() == 0 {
        Seq::<char>::empty()
    } else {
        ("## Headers of Interest\n")@ + hoi_list(r.headers_of_interest@, 0)
    })
}

fn append_bullets(out: &mut Vec<char>, items: &Vec<String>)
    ensures
        final(out)@ == old(out)@ + bullet_list(strs_view(items@), 0),
{
    let mut i: usize = 0;
    while i < items.len()
        invariant
            i <= items@.len(),
            old(out)@ + bullet_list(strs_view(items@), 0) == out@ + bullet_list(
                strs_view(items@),
                i as int,
            ),
        decreases items@.len() - i,
    {
        append_vec(out, &to_chars("- "));
        append_vec(out, &to_chars(items[i].as_str()));
        append_vec(out, &to_chars("\n"));
        i = i + 1;
    }
}

fn append_section(out: &mut Vec<char>, title: &str, items: &Vec<String>)
    ensures
        final(out)@ == old(out)@ + section(title@, strs_view(items@)),
{
    if items.len() == 0 {
        return ;
    }
    append_vec(out, &to_chars(title));
    append_bullets(out, items);
    append_vec(out, &to_chars("\n"));
}

/// Render the report as titled bullet-list sections, each present only
/// when it has entries.
#[verifier::rlimit(100)]
pub fn format_iocs_for_copy(iocs: &IOCReport) -> (r: String)
    ensures
        r@ == format_iocs_spec(*iocs),
{
    let mut out: Vec<char> = Vec::new();
    append_section(&mut out, "## Domains\n", &iocs.domains);
    append_section(&mut out, "## URLs\n", &iocs.urls);
    append_section(&mut out, "## IP Addresses\n", &iocs.ip_addresses);
    append_section(&mut out, "## Email Addresses\n", &iocs.email_addresses);
    if iocs.file_hashes.len() > 0 {
        append_vec(&mut out, &to_chars("## File Hashes\n"));
        let mut i: usize = 0;
        let ghost mid = out@;
        while i < iocs.file_hashes.len()
            invariant
                i <= iocs.file_hashes@.len(),
                mid + hash_list(iocs.file_hashes@, 0) == out@ + hash_list(
                    iocs.file_hashes@,
                    i as int,
                ),
            decreases iocs.file_hashes@.len() - i,
        {
            append_vec(&mut out, &to_chars("- "));
            append_vec(&mut out, &to_chars(iocs.file_hashes[i].filename.as_str()));
            append_vec(&mut out, &to_chars(": SHA256: "));
            append_vec(&mut out, &to_chars(iocs.file_hashes[i].sha256.as_str()));
            append_vec(&mut out, &to_chars("\n"));
            i = i + 1;
        }
        append_vec(&mut out, &to_chars("\n"));
    }
    if iocs.headers_of_interest.len() > 0 {
        append_vec(&mut out, &to_chars("## Headers of Interest\n"));
        let mut i: usize = 0;
        let ghost mid = out@;
        while i < iocs.headers_of_interest.len()
            invariant
                i <= iocs.headers_of_interest@.len(),
                mid + hoi_list(iocs.headers_of_interest@, 0) == out@ + hoi_list(
                    iocs.headers_of_interest@,
                    i as int,
                ),
            decreases iocs.headers_of_interest@.len() - i,
        {
            append_vec(&mut out, &to_chars("- "));
            append_vec(&mut out, &to_chars(iocs.headers_of_interest[i].name.as_str()));
            append_vec(&mut out, &to_chars(": "));
            append_vec(&mut out, &to_chars(iocs.headers_of_interest[i].value.as_str()));
            append_vec(&mut out, &to_chars("\n"));
            i = i + 1;
        }
    }
    from_chars(&out)
}

} // verus!
