//! The redaction engine: finds and replaces PII substrings in a text,
//! category by category, producing the rewritten text together with an
//! ordered log of every substitution.  Categories are processed in a fixed
//! order — e-mail addresses, phone numbers, card numbers, SSNs,
//! greeting-prefixed names, then caller-supplied custom patterns — and each
//! category scans the text as left by the categories before it.  Logged
//! offsets are positions in the text as it stood at the start of that
//! category's own pass, not in the final output.
use vstd::prelude::*;

use crate::foreign::{regex_match_ranges, regex_matches, regex_valid};
use crate::patterns::{
    const_reps, const_reps_exec, pairs_view, ranges_ok, ranges_wf, scan_name_spec, scan_names,
    scan_pattern, scan_spec, seqs_view, splice_exec, splice_from, Pattern,
};
use crate::text::{append_range, find_first, find_sub_from, from_chars, strs_view, to_chars};

verus! {

pub struct Redaction {
    pub original: String,
    pub redacted: String,
    pub redaction_type: String,
    pub start: usize,
    pub end: usize,
}

pub struct RedactionResult {
    pub redacted_text: String,
    pub redaction_count: usize,
    pub redactions: Vec<Redaction>,
}

impl Default for RedactionResult {
    fn default() -> (r: RedactionResult)
        ensures
            r.redacted_text@.len() == 0,
            r.redaction_count == 0,
            r.redactions@.len() == 0,
    {
        RedactionResult { redacted_text: String::new(), redaction_count: 0, redactions: Vec::new() }
    }
}

pub struct RedactionOptions {
    pub redact_emails: bool,
    pub redact_phones: bool,
    pub redact_credit_cards: bool,
    pub redact_ssn: bool,
    pub redact_names: bool,
    pub custom_patterns: Vec<String>,
}

impl Default for RedactionOptions {
    fn default() -> (r: RedactionOptions)
        ensures
            !r.redact_emails,
            !r.redact_phones,
            !r.redact_credit_cards,
            !r.redact_ssn,
            !r.redact_names,
            r.custom_patterns@.len() == 0,
    {
        RedactionOptions {
            redact_emails: false,
            redact_phones: false,
            redact_credit_cards: false,
            redact_ssn: false,
            redact_names: false,
            custom_patterns: Vec::new(),
        }
    }
}

/// All categories on, no custom patterns.
pub fn get_default_options() -> (r: RedactionOptions)
    ensures
        r.redact_emails,
        r.redact_phones,
        r.redact_credit_cards,
        r.redact_ssn,
        r.redact_names,
        r.custom_patterns@.len() == 0,
{
    RedactionOptions {
        redact_emails: true,
        redact_phones: true,
        redact_credit_cards: true,
        redact_ssn: true,
        redact_names: true,
        custom_patterns: Vec::new(),
    }
}

// ---------------------------------------------------------------------------
// The log model
// ---------------------------------------------------------------------------

/// The ghost image of a log entry.
pub struct RedView {
    pub original: Seq<char>,
    pub redacted: Seq<char>,
    pub tag: Seq<char>,
    pub start: int,
    pub end: int,
}

pub open spec fn red_view(r: Redaction) -> RedView {
    RedView {
        original: r.original@,
        redacted: r.redacted@,
        tag: r.redaction_type@,
        start: r.start as int,
        end: r.end as int,
    }
}

pub open spec fn reds_view(v: Seq<Redaction>) -> Seq<RedView> {
    v.map_values(|r: Redaction| red_view(r))
}

/// The log of one category pass: one entry per match, recording the
/// matched substring of that pass's input text, its replacement, the
/// category tag, and the match's offsets in that same input text — not in
/// the final output, nor, for later categories, in the original input.
pub open spec fn pass_log(
    t: Seq<char>,
    m: Seq<(int, int)>,
    reps: Seq<Seq<char>>,
    tag: Seq<char>,
) -> Seq<RedView> {
    Seq::new(
        m.len(),
        |k: int|
            RedView {
                original: t.subrange(m[k].0, m[k].1),
                redacted: reps[k],
                tag: tag,
                start: m[k].0,
                end: m[k].1,
            },
    )
}

pub open spec fn email_log(t: Seq<char>) -> Seq<RedView> {
    pass_log(
        t,
        scan_spec(Pattern::Email, t, 0),
        email_reps(t, scan_spec(Pattern::Email, t, 0)),
        ("email")@,
    )
}

pub open spec fn fixed_log(t: Seq<char>, p: Pattern, rep: Seq<char>, tag: Seq<char>) -> Seq<
    RedView,
> {
    pass_log(t, scan_spec(p, t, 0), const_reps(scan_spec(p, t, 0).len(), rep), tag)
}

pub open spec fn name_log(t: Seq<char>) -> Seq<RedView> {
    pass_log(
        t,
        scan_name_spec(t, 0),
        const_reps(scan_name_spec(t, 0).len(), ("[REDACTED-NAME]")@),
        ("name")@,
    )
}

/// The whole log of the enabled fixed categories, grouped in their fixed
/// order, each category logged against its own pass's input text.
pub open spec fn redact_log_fixed(
    t: Seq<char>,
    emails: bool,
    phones: bool,
    cards: bool,
    ssns: bool,
    names: bool,
) -> Seq<RedView> {
    let t1 = if emails {
        after_email_pass(t)
    } else {
        t
    };
    let t2 = if phones {
        after_fixed_pass(t1, Pattern::Phone, ("[REDACTED-PHONE]")@)
    } else {
        t1
    };
    let t3 = if cards {
        after_fixed_pass(t2, Pattern::Cc, ("[REDACTED-CC]")@)
    } else {
        t2
    };
    let t4 = if ssns {
        after_fixed_pass(t3, Pattern::Ssn, ("[REDACTED-SSN]")@)
    } else {
        t3
    };
    (if emails {
        email_log(t)
    } else {
        Seq::empty()
    }) + (if phones {
        fixed_log(t1, Pattern::Phone, ("[REDACTED-PHONE]")@, ("phone")@)
    } else {
        Seq::empty()
    }) + (if cards {
        fixed_log(t2, Pattern::Cc, ("[REDACTED-CC]")@, ("credit_card")@)
    } else {
        Seq::empty()
    }) + (if ssns {
        fixed_log(t3, Pattern::Ssn, ("[REDACTED-SSN]")@, ("ssn")@)
    } else {
        Seq::empty()
    }) + (if names {
        name_log(t4)
    } else {
        Seq::empty()
    })
}

/// The custom passes, in supplied order: each valid pattern rewrites the
/// text and appends its log entries; an invalid pattern contributes
/// nothing.  Returns the final text and the appended log.
pub open spec fn custom_chain(t: Seq<char>, pats: Seq<Seq<char>>, i: int) -> (
    Seq<char>,
    Seq<RedView>,
)
    decreases pats.len() - i,
{
    if !(0 <= i && i < pats.len()) {
        (t, Seq::empty())
    } else if regex_valid(pats[i]) {
        let m = regex_matches(pats[i], t);
        let reps = const_reps(m.len(), ("[REDACTED-CUSTOM]")@);
        let t2 = splice_from(t, m, reps, 0, 0);
        let rest = custom_chain(t2, pats, i + 1);
        (rest.0, pass_log(t, m, reps, ("custom")@) + rest.1)
    } else {
        custom_chain(t, pats, i + 1)
    }
}

// ---------------------------------------------------------------------------
// Replacements
// ---------------------------------------------------------------------------

/// Replacement for a matched e-mail address: the local part is masked, the
/// domain after the first `@` is kept.
pub open spec fn email_rep(t: Seq<char>, a: int, b: int) -> Seq<char> {
    let m = t.subrange(a, b);
    match find_first(m, seq!['@'], 0) {
        Some(i) => ("[REDACTED]@")@ + m.skip(i + 1),
        None => ("[REDACTED-EMAIL]")@,
    }
}

/// Replacements for a whole e-mail pass.
pub open spec fn email_reps(t: Seq<char>, m: Seq<(int, int)>) -> Seq<Seq<char>> {
    Seq::new(m.len(), |k: int| email_rep(t, m[k].0, m[k].1))
}

fn email_rep_exec(t: &Vec<char>, a: usize, b: usize) -> (r: Vec<char>)
    requires
        a <= b,
        b <= t@.len(),
    ensures
        r@ == email_rep(t@, a as int, b as int),
{
    let mut m: Vec<char> = Vec::new();
    append_range(&mut m, t, a, b);
    let at: Vec<char> = vec!['@'];
    assert(at@ =~= seq!['@']);
    match find_sub_from(&m, &at, 0) {
        Some(i) => {
            let mut r = to_chars("[REDACTED]@");
            append_range(&mut r, &m, i + 1, m.len());
            assert(m@.subrange(i as int + 1, m@.len() as int) =~= m@.skip(i as int + 1));
            r
        },
        None => to_chars("[REDACTED-EMAIL]"),
    }
}

// ---------------------------------------------------------------------------
// One category pass
// ---------------------------------------------------------------------------

/// Splice the replacements into the text and append one log entry per
/// match, recording the matched substring, its replacement, the category
/// tag, and the match's offsets in this pass's input text.
fn apply_pass(
    t: &Vec<char>,
    m: &Vec<(usize, usize)>,
    reps: &Vec<Vec<char>>,
    tag: &str,
    log: &mut Vec<Redaction>,
) -> (out: Vec<char>)
    requires
        ranges_ok(m@, t@.len() as int),
        reps@.len() == m@.len(),
    ensures
        out@ == splice_from(t@, pairs_view(m@), seqs_view(reps@), 0, 0),
        final(log)@.len() == old(log)@.len() + m@.len(),
        forall|j: int|
            0 <= j < old(log)@.len() ==> final(log)@[j] == old(log)@[j],
        forall|j: int|
            #![trigger final(log)@[old(log)@.len() + j]]
            0 <= j < m@.len() ==> {
                let e = final(log)@[old(log)@.len() + j];
                e.original@ == t@.subrange(m@[j].0 as int, m@[j].1 as int) && e.redacted@
                    == reps@[j]@ && e.redaction_type@ == tag@ && e.start == m@[j].0 && e.end
                    == m@[j].1
            },
        reds_view(final(log)@) == reds_view(old(log)@) + pass_log(
            t@,
            pairs_view(m@),
            seqs_view(reps@),
            tag@,
        ),
{
    let out = splice_exec(t, m, reps);
    let mut k: usize = 0;
    while k < m.len()
        invariant
            k <= m@.len(),
            log@.len() == old(log)@.len() + k,
            forall|j: int| 0 <= j < old(log)@.len() ==> log@[j] == old(log)@[j],
            forall|j: int|
                #![trigger log@[old(log)@.len() + j]]
                0 <= j < k ==> {
                    let e = log@[old(log)@.len() + j];
                    e.original@ == t@.subrange(m@[j].0 as int, m@[j].1 as int) && e.redacted@
                        == reps@[j]@ && e.redaction_type@ == tag@ && e.start == m@[j].0 && e.end
                        == m@[j].1
                },
        decreases m@.len() - k,
    {
        let (a, b) = m[k];
        let mut orig: Vec<char> = Vec::new();
        append_range(&mut orig, t, a, b);
        log.push(
            Redaction {
                original: from_chars(&orig),
                redacted: from_chars(&reps[k]),
                redaction_type: tag.to_owned(),
                start: a,
                end: b,
            },
        );
        k = k + 1;
    }
    proof {
        let full = reds_view(old(log)@) + pass_log(t@, pairs_view(m@), seqs_view(reps@), tag@);
        assert forall|j: int| 0 <= j < reds_view(log@).len() implies reds_view(log@)[j] == full[j]
            by {
            if j < old(log)@.len() {
                assert(log@[j] == old(log)@[j]);
            } else {
                let i = j - old(log)@.len();
                assert(pairs_view(m@)[i] == (m@[i].0 as int, m@[i].1 as int));
                assert(seqs_view(reps@)[i] == reps@[i]@);
                let e = log@[old(log)@.len() + i];
                assert(red_view(e) == pass_log(t@, pairs_view(m@), seqs_view(reps@), tag@)[i]);
            }
        }
        assert(reds_view(log@) =~= full);
    }
    out
}

// ---------------------------------------------------------------------------
// The pipeline
// ---------------------------------------------------------------------------

/// The text after one fixed-replacement pattern pass.
pub open spec fn after_fixed_pass(t: Seq<char>, p: Pattern, rep: Seq<char>) -> Seq<char> {
    splice_from(t, scan_spec(p, t, 0), const_reps(scan_spec(p, t, 0).len(), rep), 0, 0)
}

/// The text after the e-mail pass.
pub open spec fn after_email_pass(t: Seq<char>) -> Seq<char> {
    splice_from(t, scan_spec(Pattern::Email, t, 0), email_reps(t, scan_spec(Pattern::Email, t, 0)), 0, 0)
}

/// The text after the greeting-name pass.
pub open spec fn after_name_pass(t: Seq<char>) -> Seq<char> {
    splice_from(
        t,
        scan_name_spec(t, 0),
        const_reps(scan_name_spec(t, 0).len(), ("[REDACTED-NAME]")@),
        0,
        0,
    )
}

/// The text after all enabled fixed categories, in their fixed order.
pub open spec fn redact_pipeline(
    t: Seq<char>,
    emails: bool,
    phones: bool,
    cards: bool,
    ssns: bool,
    names: bool,
) -> Seq<char> {
    let t1 = if emails {
        after_email_pass(t)
    } else {
        t
    };
    let t2 = if phones {
        after_fixed_pass(t1, Pattern::Phone, ("[REDACTED-PHONE]")@)
    } else {
        t1
    };
    let t3 = if cards {
        after_fixed_pass(t2, Pattern::Cc, ("[REDACTED-CC]")@)
    } else {
        t2
    };
    let t4 = if ssns {
        after_fixed_pass(t3, Pattern::Ssn, ("[REDACTED-SSN]")@)
    } else {
        t3
    };
    if names {
        after_name_pass(t4)
    } else {
        t4
    }
}

/// One fixed-replacement category pass over the current text.
fn run_fixed_pass(cur: Vec<char>, p: Pattern, rep: &str, tag: &str, log: &mut Vec<Redaction>) -> (out:
    Vec<char>)
    ensures
        out@ == after_fixed_pass(cur@, p, rep@),
        reds_view(final(log)@) == reds_view(old(log)@) + fixed_log(cur@, p, rep@, tag@),
{
    let m = scan_pattern(&cur, p);
    let repv = to_chars(rep);
    let mut reps: Vec<Vec<char>> = Vec::new();
    let mut k: usize = 0;
    while k < m.len()
        invariant
            k <= m@.len(),
            reps@.len() == k,
            forall|j: int| 0 <= j < k ==> #[trigger] reps@[j]@ == rep@,
        decreases m@.len() - k,
    {
        reps.push(repv.clone());
        k = k + 1;
    }
    assert(seqs_view(reps@) =~= const_reps(pairs_view(m@).len(), rep@));
    let out = apply_pass(&cur, &m, &reps, tag, log);
    out
}

/// The e-mail category pass over the current text.
fn run_email_pass(cur: Vec<char>, log: &mut Vec<Redaction>) -> (out: Vec<char>)
    ensures
        out@ == after_email_pass(cur@),
        reds_view(final(log)@) == reds_view(old(log)@) + email_log(cur@),
{
    let m = scan_pattern(&cur, Pattern::Email);
    let mut reps: Vec<Vec<char>> = Vec::new();
    let mut k: usize = 0;
    while k < m.len()
        invariant
            k <= m@.len(),
            reps@.len() == k,
            ranges_wf(m@, cur@.len() as int),
            pairs_view(m@) == scan_spec(Pattern::Email, cur@, 0),
            forall|j: int|
                0 <= j < k ==> #[trigger] reps@[j]@ == email_rep(
                    cur@,
                    m@[j].0 as int,
                    m@[j].1 as int,
                ),
        decreases m@.len() - k,
    {
        let (a, b) = m[k];
        let r = email_rep_exec(&cur, a, b);
        reps.push(r);
        k = k + 1;
    }
    assert(seqs_view(reps@) =~= email_reps(cur@, pairs_view(m@)));
    let out = apply_pass(&cur, &m, &reps, "email", log);
    out
}

/// The greeting-name category pass over the current text.
fn run_name_pass(cur: Vec<char>, log: &mut Vec<Redaction>) -> (out: Vec<char>)
    ensures
        out@ == after_name_pass(cur@),
        reds_view(final(log)@) == reds_view(old(log)@) + name_log(cur@),
{
    let m = scan_names(&cur);
    let repv = to_chars("[REDACTED-NAME]");
    let mut reps: Vec<Vec<char>> = Vec::new();
    let mut k: usize = 0;
    while k < m.len()
        invariant
            k <= m@.len(),
            reps@.len() == k,
            forall|j: int| 0 <= j < k ==> #[trigger] reps@[j]@ == ("[REDACTED-NAME]")@,
        decreases m@.len() - k,
    {
        reps.push(repv.clone());
        k = k + 1;
    }
    assert(seqs_view(reps@) =~= const_reps(pairs_view(m@).len(), ("[REDACTED-NAME]")@));
    let out = apply_pass(&cur, &m, &reps, "name", log);
    out
}

/// Find and replace PII in `text`.  Categories run in a fixed order, each
/// scanning the text as rewritten by the ones before it; the log records
/// every substitution, grouped in category order, each entry carrying the
/// matched substring, its replacement, the category tag, and the match's
/// offsets in that category's own input text.  Invalid custom patterns
/// are silently skipped.
pub fn redact_text(text: &str, options: &RedactionOptions) -> (r: RedactionResult)
    ensures
        r.redaction_count == r.redactions@.len(),
        ({
            let fixed_text = redact_pipeline(
                text@,
                options.redact_emails,
                options.redact_phones,
                options.redact_credit_cards,
                options.redact_ssn,
                options.redact_names,
            );
            let chain = custom_chain(fixed_text, strs_view(options.custom_patterns@), 0);
            &&& r.redacted_text@ == chain.0
            &&& reds_view(r.redactions@) == redact_log_fixed(
                text@,
                options.redact_emails,
                options.redact_phones,
                options.redact_credit_cards,
                options.redact_ssn,
                options.redact_names,
            ) + chain.1
        }),
{
    let ghost t0 = text@;
    let mut cur = to_chars(text);
    let mut log: Vec<Redaction> = Vec::new();
    assert(reds_view(log@) =~= Seq::<RedView>::empty());
    if options.redact_emails {
        cur = run_email_pass(cur, &mut log);
    }
    if options.redact_phones {
        cur = run_fixed_pass(cur, Pattern::Phone, "[REDACTED-PHONE]", "phone", &mut log);
    }
    if options.redact_credit_cards {
        cur = run_fixed_pass(cur, Pattern::Cc, "[REDACTED-CC]", "credit_card", &mut log);
    }
    if options.redact_ssn {
        cur = run_fixed_pass(cur, Pattern::Ssn, "[REDACTED-SSN]", "ssn", &mut log);
    }
    if options.redact_names {
        cur = run_name_pass(cur, &mut log);
    }
    let ghost base = redact_log_fixed(
        t0,
        options.redact_emails,
        options.redact_phones,
        options.redact_credit_cards,
        options.redact_ssn,
        options.redact_names,
    );
    assert(reds_view(log@) =~= base);
    let ghost fixed = cur@;
    let ghost pats = strs_view(options.custom_patterns@);
    let mut pi: usize = 0;
    while pi < options.custom_patterns.len()
        invariant
            pi <= options.custom_patterns@.len(),
            pats == strs_view(options.custom_patterns@),
            custom_chain(fixed, pats, 0).0 == custom_chain(cur@, pats, pi as int).0,
            reds_view(log@) + custom_chain(cur@, pats, pi as int).1 == base + custom_chain(
                fixed,
                pats,
                0,
            ).1,
        decreases options.custom_patterns@.len() - pi,
    {
        assert(pats[pi as int] == options.custom_patterns@[pi as int]@);
        let cur_s = from_chars(&cur);
        let ghost pre_log = reds_view(log@);
        let ghost pre_cur = cur@;
        match regex_match_ranges(options.custom_patterns[pi].as_str(), cur_s.as_str()) {
            Some(m) => {
                let reps = const_reps_exec(m.len(), &to_chars("[REDACTED-CUSTOM]"));
                cur = apply_pass(&cur, &m, &reps, "custom", &mut log);
                proof {
                    let mm = regex_matches(pats[pi as int], pre_cur);
                    let rr = const_reps(mm.len(), ("[REDACTED-CUSTOM]")@);
                    assert(custom_chain(pre_cur, pats, pi as int) == (
                        custom_chain(cur@, pats, pi as int + 1).0,
                        pass_log(pre_cur, mm, rr, ("custom")@) + custom_chain(
                            cur@,
                            pats,
                            pi as int + 1,
                        ).1,
                    ));
                    assert((pre_log + (pass_log(pre_cur, mm, rr, ("custom")@) + custom_chain(
                        cur@,
                        pats,
                        pi as int + 1,
                    ).1)) =~= (reds_view(log@) + custom_chain(cur@, pats, pi as int + 1).1));
                }
            },
            None => {
                assert(custom_chain(cur@, pats, pi as int) == custom_chain(
                    cur@,
                    pats,
                    pi as int + 1,
                ));
            },
        }
        pi = pi + 1;
    }
    assert(custom_chain(cur@, pats, pi as int).1 =~= Seq::<RedView>::empty());
    assert(reds_view(log@) + Seq::<RedView>::empty() =~= reds_view(log@));
    let count = log.len();
    RedactionResult {
        redacted_text: from_chars(&cur),
        redaction_count: count,
        redactions: log,
    }
}

} // verus!
