use mail_triage::analyze;
use mail_triage::email_parser::{hash_bytes, parse_eml};
use mail_triage::ioc_extractor::{
    defang_domain, defang_email, defang_ip, defang_url, extract_iocs, format_iocs_for_copy,
};
use mail_triage::redactor::{get_default_options, redact_text, RedactionOptions};
use mail_triage::threat_analyzer::{analyze_threats, ThreatLevel};

fn benign_email() -> String {
    [
        "Authentication-Results: mx.example.com; spf=pass; dkim=pass; dmarc=pass",
        "From: alice@example.com",
        "Reply-To: alice@example.com",
        "Return-Path: alice@example.com",
        "To: bob@example.com",
        "Subject: Lunch plans",
        "MIME-Version: 1.0",
        "Content-Type: text/plain",
        "",
        "See you at noon.",
        "",
    ]
    .join("\r\n")
}

#[test]
fn malformed_message_is_a_parse_error() {
    let result = parse_eml(" : an overhanging line with no preceding header\r\n\r\nbody");
    match result {
        Ok(_) => panic!("expected a parse error"),
        Err(e) => assert!(e.starts_with("Failed to parse email: ")),
    }
}

#[test]
fn defang_is_exact() {
    assert_eq!(defang_domain("evil.com"), "evil[.]com");
    assert_eq!(defang_email("a@b.com"), "a[@]b[.]com");
    assert_eq!(defang_url("https://evil.com/x"), "hxxps://evil[.]com/x");
    assert_eq!(defang_url("http://evil.com"), "hxxp://evil[.]com");
    assert_eq!(defang_ip("8.8.8.8"), "8[.]8[.]8[.]8");
}

#[test]
fn digest_has_known_value() {
    assert_eq!(
        hash_bytes(b"abc"),
        "ba7816bf8f01cfea414140de5dae2223b00361a396177a9cb410ff61f20015ad"
    );
    assert_eq!(
        hash_bytes(b""),
        "e3b0c44298fc1c149afbf4c8996fb92427ae41e4649b934ca495991b7852b855"
    );
}

#[test]
fn fingerprint_is_digest_prefix_and_pure() {
    let raw = benign_email();
    let e1 = parse_eml(&raw).unwrap();
    let e2 = parse_eml(&raw).unwrap();
    assert_eq!(e1.id, e2.id);
    assert_eq!(e1.id, hash_bytes(raw.as_bytes())[..16].to_string());

    let mut other = raw.clone();
    other.push('x');
    let e3 = parse_eml(&other).unwrap();
    assert_ne!(e1.id, e3.id);
}

#[test]
fn attachment_digest_round_trips() {
    let raw = [
        "From: a@example.com",
        "MIME-Version: 1.0",
        "Content-Type: multipart/mixed; boundary=\"xyz\"",
        "",
        "--xyz",
        "Content-Type: text/plain",
        "",
        "hello",
        "--xyz",
        "Content-Type: application/octet-stream; name=\"data.bin\"",
        "Content-Disposition: attachment; filename=\"data.bin\"",
        "",
        "HELLO",
        "--xyz--",
        "",
    ]
    .join("\r\n");
    let email = parse_eml(&raw).unwrap();
    assert_eq!(email.attachments.len(), 1);
    let att = &email.attachments[0];
    assert_eq!(att.filename, "data.bin");
    // re-hash the same raw attachment bytes and compare with the stored digest
    let body: &[u8] = b"HELLO\r\n";
    let prefix = &body[..att.size];
    assert_eq!(att.sha256, hash_bytes(prefix));
}

#[test]
fn indicator_sets_have_no_duplicates() {
    let raw = [
        "From: a@example.com",
        "Subject: links",
        "Content-Type: text/plain",
        "",
        "See https://example.com/a and https://example.com/a again,",
        "also a@example.com and A@EXAMPLE.COM.",
        "",
    ]
    .join("\r\n");
    let email = parse_eml(&raw).unwrap();
    for list in [&email.urls, &email.domains, &email.ip_addresses, &email.email_addresses] {
        for i in 0..list.len() {
            for j in 0..i {
                assert_ne!(list[i], list[j]);
            }
        }
    }
    assert_eq!(
        email.email_addresses.iter().filter(|e| e.as_str() == "a@example.com").count(),
        1
    );
}

#[test]
fn scenario_phishing_scores_high() {
    let raw = [
        "Authentication-Results: mx.victim.com; spf=fail; dkim=fail; dmarc=fail",
        "From: PayPal Security <security@paypal.com>",
        "Reply-To: helper@attacker.example",
        "To: victim@company.com",
        "Subject: URGENT notice",
        "Content-Type: text/plain",
        "",
        "URGENT: verify your account now.",
        "Enter your SSN: 123-45-6789",
        "Click https://bit.ly/x right away.",
        "",
    ]
    .join("\r\n");
    let email = parse_eml(&raw).unwrap();
    let threat = analyze_threats(&email);
    assert!(threat.score >= 100, "score was {}", threat.score);
    assert_eq!(threat.level, ThreatLevel::High);
}

#[test]
fn scenario_benign_scores_zero() {
    let email = parse_eml(&benign_email()).unwrap();
    let threat = analyze_threats(&email);
    assert_eq!(threat.score, 0, "indicators: {:?}", threat.indicators.len());
    assert_eq!(threat.level, ThreatLevel::Low);
}

#[test]
fn scenario_redaction_removes_pii() {
    let text = "Contact john@example.com or call 555-123-4567. SSN: 123-45-6789";
    let options = get_default_options();
    let result = redact_text(text, &options);
    assert!(result.redaction_count >= 3);
    assert_eq!(result.redaction_count, result.redactions.len());
    // the domain survives, the local part does not
    assert!(result.redacted_text.contains("[REDACTED]@example.com"));
    // no SSN-shaped substring is left
    assert!(!result.redacted_text.contains("123-45-6789"));
    let chars: Vec<char> = result.redacted_text.chars().collect();
    for w in chars.windows(9) {
        assert!(!w.iter().all(|c| c.is_ascii_digit()));
    }
}

#[test]
fn scenario_dangerous_attachment_adds_thirty() {
    let raw = [
        "Authentication-Results: mx; spf=pass; dkim=pass; dmarc=pass",
        "From: alice@example.com",
        "Reply-To: alice@example.com",
        "Return-Path: alice@example.com",
        "Subject: Files",
        "MIME-Version: 1.0",
        "Content-Type: multipart/mixed; boundary=\"xyz\"",
        "",
        "--xyz",
        "Content-Type: text/plain",
        "",
        "The file is attached.",
        "--xyz",
        "Content-Type: application/octet-stream; name=\"invoice.exe\"",
        "Content-Disposition: attachment; filename=\"invoice.exe\"",
        "",
        "MZbinary",
        "--xyz--",
        "",
    ]
    .join("\r\n");
    let email = parse_eml(&raw).unwrap();
    let threat = analyze_threats(&email);
    let danger: Vec<_> = threat
        .indicators
        .iter()
        .filter(|i| i.description.starts_with("Dangerous file type"))
        .collect();
    assert_eq!(danger.len(), 1);
    assert_eq!(danger[0].severity, "high");
    assert_eq!(threat.score, 30);
}

#[test]
fn custom_patterns_are_applied_and_bad_ones_skipped() {
    let options = RedactionOptions {
        redact_emails: false,
        redact_phones: false,
        redact_credit_cards: false,
        redact_ssn: false,
        redact_names: false,
        custom_patterns: vec!["(".to_string(), "secret-[a-z]+".to_string()],
    };
    let result = redact_text("the secret-word is here", &options);
    assert_eq!(result.redacted_text, "the [REDACTED-CUSTOM] is here");
    assert_eq!(result.redaction_count, 1);
    assert_eq!(result.redactions[0].redaction_type, "custom");
    assert_eq!(result.redactions[0].original, "secret-word");
}

#[test]
fn received_spf_softfail_is_softfail() {
    let raw = [
        "Received-SPF: softfail (domain owner discourages use of this host)",
        "From: a@example.com",
        "Subject: hello there",
        "Content-Type: text/plain",
        "",
        "body",
        "",
    ]
    .join("\r\n");
    let email = parse_eml(&raw).unwrap();
    assert_eq!(email.authentication.spf_status, "softfail");
    let threat = analyze_threats(&email);
    // softfail weighs +10/medium, not +25/high
    assert_eq!(threat.score, 10);
    assert_eq!(threat.indicators.len(), 1);
    assert_eq!(threat.indicators[0].description, "SPF soft fail");
    assert_eq!(threat.indicators[0].severity, "medium");
}

#[test]
fn only_capitalized_names_are_redacted() {
    let options = RedactionOptions {
        redact_emails: false,
        redact_phones: false,
        redact_credit_cards: false,
        redact_ssn: false,
        redact_names: true,
        custom_patterns: vec![],
    };
    let lower_case = redact_text("dear bob, your order shipped.", &options);
    assert_eq!(lower_case.redacted_text, "dear bob, your order shipped.");
    assert_eq!(lower_case.redaction_count, 0);
    assert!(lower_case.redactions.is_empty());
    let capitalized = redact_text("dear Bob, your order shipped.", &options);
    assert_eq!(capitalized.redacted_text, "dear [REDACTED-NAME], your order shipped.");
}

#[test]
fn redaction_log_records_each_pass() {
    let options = get_default_options();
    let result = redact_text("Contact john@example.com or call 555-123-4567.", &options);
    assert_eq!(result.redactions.len(), 2);
    assert_eq!(result.redactions[0].redaction_type, "email");
    assert_eq!(result.redactions[0].original, "john@example.com");
    assert_eq!(result.redactions[0].redacted, "[REDACTED]@example.com");
    assert_eq!(result.redactions[0].start, 8);
    assert_eq!(result.redactions[0].end, 24);
    // phone offsets are positions in the text the phone pass saw,
    // i.e. after the e-mail pass rewrote it
    assert_eq!(result.redactions[1].redaction_type, "phone");
    assert_eq!(result.redactions[1].original, "555-123-4567");
    assert_eq!(result.redactions[1].redacted, "[REDACTED-PHONE]");
}

#[test]
fn greeting_names_are_redacted() {
    let options = RedactionOptions {
        redact_emails: false,
        redact_phones: false,
        redact_credit_cards: false,
        redact_ssn: false,
        redact_names: true,
        custom_patterns: vec![],
    };
    let result = redact_text("Dear John Doe, your order shipped.", &options);
    assert_eq!(result.redacted_text, "Dear [REDACTED-NAME], your order shipped.");
    assert_eq!(result.redactions[0].original, "John Doe");
}

#[test]
fn url_hosts_become_domains() {
    let raw = [
        "From: a@example.com",
        "Subject: link",
        "Content-Type: text/plain",
        "",
        "Go to https://Sub.Example.ORG/path?q=1 now.",
        "",
    ]
    .join("\r\n");
    let email = parse_eml(&raw).unwrap();
    assert!(email.domains.iter().any(|d| d == "sub.example.org"));
}

#[test]
fn ioc_report_is_defanged_and_formatted() {
    let email = parse_eml(&benign_email()).unwrap();
    let iocs = extract_iocs(&email);
    for d in &iocs.domains {
        assert!(!d.contains('.') || d.contains("[.]"));
    }
    // the auth summary findings are always present
    let names: Vec<&str> = iocs.headers_of_interest.iter().map(|h| h.name.as_str()).collect();
    assert!(names.contains(&"SPF"));
    assert!(names.contains(&"DKIM"));
    assert!(names.contains(&"DMARC"));
    let formatted = format_iocs_for_copy(&iocs);
    assert!(formatted.contains("## Headers of Interest"));
    assert!(formatted.contains("- SPF: pass"));
}

#[test]
fn analyze_pipeline_runs_end_to_end() {
    let result = analyze(&benign_email(), "2025-01-04 10:30:00 UTC".to_string()).unwrap();
    assert_eq!(result.analyzed_at, "2025-01-04 10:30:00 UTC");
    assert_eq!(result.threat.score, 0);
    assert_eq!(result.redaction.redaction_count, result.redaction.redactions.len());
    // the default options redact the sender address out of the body copy
    assert_eq!(result.email.subject, "Lunch plans");
}

#[test]
fn private_ips_are_suppressed() {
    let raw = [
        "Received: from relay (relay [10.0.0.5]) by mx (mx [203.0.113.9])",
        "From: a@example.com",
        "Subject: hops",
        "Content-Type: text/plain",
        "",
        "body",
        "",
    ]
    .join("\r\n");
    let email = parse_eml(&raw).unwrap();
    assert!(email.ip_addresses.iter().any(|i| i == "203.0.113.9"));
    assert!(!email.ip_addresses.iter().any(|i| i == "10.0.0.5"));
}

#[test]
fn html_only_body_is_stripped_to_text() {
    let raw = [
        "From: a@example.com",
        "Subject: html",
        "MIME-Version: 1.0",
        "Content-Type: text/html",
        "",
        "<html><body><p>Hello   there</p></body></html>",
        "",
    ]
    .join("\r\n");
    let email = parse_eml(&raw).unwrap();
    assert_eq!(email.body_text, "Hello there");
    assert!(email.body_html.contains("<p>"));
}
