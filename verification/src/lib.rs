//! Email threat-triage library: builds a structured model of a raw email
//! message, extracts indicators of compromise, redacts PII from text, and
//! scores the message against a fixed set of phishing heuristics.
#![verifier::loop_isolation(false)]

pub mod email_parser;
pub mod foreign;
pub mod ioc_extractor;
pub mod mime;
pub mod patterns;
pub mod redactor;
pub mod text;
pub mod threat_analyzer;

pub mod laws;

use vstd::prelude::*;
use vstd::string::StringSliceAdditionalSpecFns;

use crate::email_parser::{
    dkim_status_spec, dmarc_status_spec, domains_spec, emails_spec, fingerprint_of,
    header_lookup, header_or_empty, ips_spec, parse_eml, spf_status_spec, urls_spec, ParsedEmail,
};
use crate::ioc_extractor::{
    defang_domain_spec, defang_email_spec, defang_ip_spec, defang_url_spec, defanged_all,
    extract_iocs, hoi_spec, hois_view, IOCReport,
};
use crate::mime::mime_parses;
use crate::redactor::{
    custom_chain, get_default_options, redact_log_fixed, redact_pipeline, redact_text, reds_view,
    RedactionResult,
};
use crate::text::{has_prefix, lower, strs_view, views_distinct};
use crate::threat_analyzer::{
    analyze_threats, cap32, evidence_of, flags_of, indicator_count, inds_view, level_of, score_of,
    summary_of, ThreatAssessment,
};

verus! {

/// One message's whole triage result: the structured email, the redacted
/// body, the indicator report, the threat assessment, and the caller's
/// timestamp.
pub struct AnalysisResult {
    pub email: ParsedEmail,
    pub redaction: RedactionResult,
    pub iocs: IOCReport,
    pub threat: ThreatAssessment,
    pub analyzed_at: String,
}

/// Run the whole pipeline over raw message text: build the structured
/// email, redact its plain body with the default options, extract the
/// indicator report, and score the threat.  Succeeds exactly when the
/// builder succeeds; the returned email is the builder's, the redaction
/// is the full default-option pipeline over its plain body, the report's
/// lists are the defanged images of its indicator lists, and the
/// assessment is the stated function of the email.  The caller supplies
/// the timestamp, which the analysis itself never reads.
pub fn analyze(content: &str, analyzed_at: String) -> (r: Result<AnalysisResult, String>)
    ensures
        r is Ok <==> mime_parses(content.spec_bytes()),
        match r {
            Ok(a) => {
                &&& a.analyzed_at@ == analyzed_at@
                &&& a.email.raw_content@ == content@
                &&& a.email.id@ == fingerprint_of(content.spec_bytes())
                &&& a.email.subject@ == header_or_empty(a.email.headers@, ("Subject")@)
                &&& a.email.from@ == header_or_empty(a.email.headers@, ("From")@)
                &&& a.email.to@ == header_or_empty(a.email.headers@, ("To")@)
                &&& (match a.email.reply_to {
                    Some(v) => header_lookup(a.email.headers@, ("Reply-To")@) == Some(v@),
                    None => header_lookup(a.email.headers@, ("Reply-To")@) is None,
                })
                &&& (match a.email.return_path {
                    Some(v) => header_lookup(a.email.headers@, ("Return-Path")@) == Some(v@),
                    None => header_lookup(a.email.headers@, ("Return-Path")@) is None,
                })
                &&& (match a.email.date {
                    Some(v) => header_lookup(a.email.headers@, ("Date")@) == Some(v@),
                    None => header_lookup(a.email.headers@, ("Date")@) is None,
                })
                &&& a.email.authentication.spf_status@ == spf_status_spec(
                    lower(header_or_empty(a.email.headers@, ("Authentication-Results")@)),
                    lower(header_or_empty(a.email.headers@, ("Received-SPF")@)),
                )
                &&& a.email.authentication.dkim_status@ == dkim_status_spec(
                    lower(header_or_empty(a.email.headers@, ("Authentication-Results")@)),
                    header_lookup(a.email.headers@, ("DKIM-Signature")@) is Some,
                )
                &&& a.email.authentication.dmarc_status@ == dmarc_status_spec(
                    lower(header_or_empty(a.email.headers@, ("Authentication-Results")@)),
                )
                &&& strs_view(a.email.urls@) == urls_spec(a.email.body_text@, a.email.body_html@)
                &&& strs_view(a.email.domains@) == domains_spec(
                    strs_view(a.email.urls@),
                    a.email.body_text@,
                )
                &&& strs_view(a.email.ip_addresses@) == ips_spec(a.email.headers@)
                &&& strs_view(a.email.email_addresses@) == emails_spec(
                    a.email.body_text@,
                    a.email.headers@,
                )
                &&& views_distinct(a.email.urls@)
                &&& views_distinct(a.email.domains@)
                &&& views_distinct(a.email.ip_addresses@)
                &&& views_distinct(a.email.email_addresses@)
                &&& a.redaction.redacted_text@ == redact_pipeline(
                    a.email.body_text@,
                    true,
                    true,
                    true,
                    true,
                    true,
                )
                &&& reds_view(a.redaction.redactions@) == redact_log_fixed(
                    a.email.body_text@,
                    true,
                    true,
                    true,
                    true,
                    true,
                )
                &&& a.redaction.redaction_count == a.redaction.redactions@.len()
                &&& strs_view(a.iocs.domains@) == defanged_all(
                    a.email.domains@,
                    |d: Seq<char>| defang_domain_spec(d),
                )
                &&& strs_view(a.iocs.urls@) == defanged_all(
                    a.email.urls@,
                    |u: Seq<char>| defang_url_spec(u),
                )
                &&& strs_view(a.iocs.ip_addresses@) == defanged_all(
                    a.email.ip_addresses@,
                    |i: Seq<char>| defang_ip_spec(i),
                )
                &&& strs_view(a.iocs.email_addresses@) == defanged_all(
                    a.email.email_addresses@,
                    |e: Seq<char>| defang_email_spec(e),
                )
                &&& a.iocs.file_hashes@.len() == a.email.attachments@.len()
                &&& (forall|k: int|
                    #![trigger a.iocs.file_hashes@[k]]
                    0 <= k < a.email.attachments@.len() ==> a.iocs.file_hashes@[k].filename@
                        == a.email.attachments@[k].filename@ && a.iocs.file_hashes@[k].sha256@
                        == a.email.attachments@[k].sha256@)
                &&& hois_view(a.iocs.headers_of_interest@) == hoi_spec(a.email)
                &&& a.threat.score as int == cap32(score_of(flags_of(a.email)))
                &&& a.threat.level == level_of(a.threat.score as int)
                &&& a.threat.summary@ == summary_of(a.threat.level)
                &&& a.threat.indicators@.len() == indicator_count(flags_of(a.email))
                &&& inds_view(a.threat.indicators@) == evidence_of(a.email)
            },
            Err(e) => has_prefix(e@, ("Failed to parse email: ")@),
        },
{
    let email = match parse_eml(content) {
        Ok(e) => e,
        Err(e) => {
            return Err(e);
        },
    };
    let redaction_options = get_default_options();
    let redaction = redact_text(email.body_text.as_str(), &redaction_options);
    proof {
        let ft = redact_pipeline(email.body_text@, true, true, true, true, true);
        assert(strs_view(redaction_options.custom_patterns@).len() == 0);
        assert(custom_chain(ft, strs_view(redaction_options.custom_patterns@), 0) == (
            ft,
            Seq::<crate::redactor::RedView>::empty(),
        ));
        assert(redact_log_fixed(email.body_text@, true, true, true, true, true)
            + Seq::<crate::redactor::RedView>::empty() =~= redact_log_fixed(
            email.body_text@,
            true,
            true,
            true,
            true,
            true,
        ));
    }
    let iocs = extract_iocs(&email);
    let threat = analyze_threats(&email);
    Ok(AnalysisResult { email, redaction, iocs, threat, analyzed_at })
}

} // verus!
