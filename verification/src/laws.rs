//! The library's global laws, stated and proved once over the
//! specifications that the individual functions' contracts use: purity of
//! the fingerprint and of the analysis layers, the attachment-digest
//! round trip, and gap preservation under redaction splicing.
use vstd::prelude::*;

use crate::email_parser::{att_of, fingerprint_of, urls_spec, ParsedEmail};
use crate::foreign::{regex_valid, sha256_of};
use crate::mime::MimePart;
use crate::patterns::splice_from;
use crate::redactor::custom_chain;
use crate::text::hex_of;
use crate::threat_analyzer::{flags_of, indicator_count, lemma_counts_nonneg, score_of};

verus! {

/// The identity fingerprint is a pure function of the raw bytes: equal
/// bytes always yield equal fingerprints.
pub proof fn lemma_fingerprint_pure(b1: Seq<u8>, b2: Seq<u8>)
    requires
        b1 == b2,
    ensures
        fingerprint_of(b1) == fingerprint_of(b2),
{
}

/// Re-hashing an attachment's raw bytes always reproduces the digest that
/// the builder stored for it.
pub proof fn lemma_attachment_digest_round_trip(p: MimePart)
    requires
        p.body_raw is Some,
    ensures
        att_of(p).sha256 == hex_of(sha256_of(p.body_raw->Some_0@)),
{
}

/// The analysis layers are pure: two structured emails that carry the same
/// text have the same indicator sets and the same threat score.  Together
/// with the builder's contracts this makes re-running an analysis on
/// identical bytes yield identical results.
pub proof fn lemma_analysis_deterministic(e1: ParsedEmail, e2: ParsedEmail)
    requires
        e1.subject@ == e2.subject@,
        e1.from@ == e2.from@,
        e1.body_text@ == e2.body_text@,
        e1.body_html@ == e2.body_html@,
        (match (e1.reply_to, e2.reply_to) {
            (Some(a), Some(b)) => a@ == b@,
            (None, None) => true,
            _ => false,
        }),
        (match (e1.return_path, e2.return_path) {
            (Some(a), Some(b)) => a@ == b@,
            (None, None) => true,
            _ => false,
        }),
        e1.authentication.spf_status@ == e2.authentication.spf_status@,
        e1.authentication.dkim_status@ == e2.authentication.dkim_status@,
        e1.authentication.dmarc_status@ == e2.authentication.dmarc_status@,
        crate::text::strs_view(e1.urls@) == crate::text::strs_view(e2.urls@),
        e1.attachments@.len() == e2.attachments@.len(),
        forall|k: int|
            0 <= k < e1.attachments@.len() ==> #[trigger] e1.attachments@[k].filename@
                == e2.attachments@[k].filename@,
    ensures
        urls_spec(e1.body_text@, e1.body_html@) == urls_spec(e2.body_text@, e2.body_html@),
        flags_of(e1) == flags_of(e2),
        score_of(flags_of(e1)) == score_of(flags_of(e2)),
{
    assert(crate::threat_analyzer::combined_text(e1) == crate::threat_analyzer::combined_text(e2));
    crate::threat_analyzer::lemma_counts_eq(e1.attachments@, e2.attachments@, 0);
}

/// The score is zero exactly when no rule fired, that is, when the
/// evidence list is empty.
pub proof fn lemma_score_zero_iff_no_evidence(e: ParsedEmail)
    ensures
        (score_of(flags_of(e)) == 0) <==> (indicator_count(flags_of(e)) == 0),
{
    lemma_counts_nonneg(e.attachments@, 0);
}

/// Later custom passes see the same position in a shifted pattern list.
proof fn lemma_custom_chain_shift(t: Seq<char>, pats: Seq<Seq<char>>, i: int)
    requires
        0 <= i <= pats.len(),
    ensures
        custom_chain(t, pats, i) == custom_chain(t, pats.skip(i), 0),
    decreases pats.len() - i,
{
    if i >= pats.len() {
        assert(custom_chain(t, pats.skip(i), 0) == (t, Seq::<crate::redactor::RedView>::empty()));
    } else {
        assert(pats.skip(i)[0] == pats[i]);
        if regex_valid(pats[i]) {
            let m = crate::foreign::regex_matches(pats[i], t);
            let reps = crate::patterns::const_reps(m.len(), ("[REDACTED-CUSTOM]")@);
            let t2 = splice_from(t, m, reps, 0, 0);
            lemma_custom_chain_shift(t2, pats, i + 1);
            lemma_custom_chain_shift(t2, pats.skip(i), 1);
            assert(pats.skip(i).skip(1) =~= pats.skip(i + 1));
        } else {
            lemma_custom_chain_shift(t, pats, i + 1);
            lemma_custom_chain_shift(t, pats.skip(i), 1);
            assert(pats.skip(i).skip(1) =~= pats.skip(i + 1));
        }
    }
}

/// An invalid custom pattern is silently skipped: the result is the same
/// as if the pattern had not been supplied at all.
pub proof fn lemma_invalid_pattern_skipped(t: Seq<char>, pats: Seq<Seq<char>>)
    requires
        pats.len() >= 1,
        !regex_valid(pats[0]),
    ensures
        custom_chain(t, pats, 0) == custom_chain(t, pats.skip(1), 0),
{
    lemma_custom_chain_shift(t, pats, 1);
}

// ---------------------------------------------------------------------------
// Redaction preserves everything outside the matched spans
// ---------------------------------------------------------------------------

/// The length change contributed by the matches that end at or before
/// position `j`.
pub open spec fn shift_before(m: Seq<(int, int)>, reps: Seq<Seq<char>>, k: int, j: int) -> int
    decreases m.len() - k,
{
    if !(0 <= k && k < m.len()) {
        0
    } else if m[k].1 <= j {
        reps[k].len() - (m[k].1 - m[k].0) + shift_before(m, reps, k + 1, j)
    } else {
        0
    }
}

/// A character outside every matched span reappears unchanged in the
/// spliced output, at its position adjusted by the length changes of the
/// replacements before it.
pub proof fn lemma_splice_preserves_gaps(
    t: Seq<char>,
    m: Seq<(int, int)>,
    reps: Seq<Seq<char>>,
    k: int,
    pos: int,
    j: int,
)
    requires
        0 <= k <= m.len(),
        reps.len() == m.len(),
        0 <= pos <= t.len(),
        pos <= j < t.len(),
        forall|i: int|
            k <= i < m.len() ==> pos <= #[trigger] m[i].0 && m[i].0 <= m[i].1 && m[i].1 <= t.len(),
        forall|i1: int, i2: int|
            k <= i1 < i2 < m.len() ==> #[trigger] m[i1].1 <= #[trigger] m[i2].0,
        forall|i: int| k <= i < m.len() ==> j < #[trigger] m[i].0 || j >= m[i].1,
    ensures
        ({
            let out = splice_from(t, m, reps, k, pos);
            let idx = j - pos + shift_before(m, reps, k, j);
            0 <= idx < out.len() && out[idx] == t[j]
        }),
    decreases m.len() - k,
{
    let out = splice_from(t, m, reps, k, pos);
    if k >= m.len() {
        assert(out == t.skip(pos));
        assert(out[j - pos] == t[j]);
    } else {
        let a = m[k].0;
        let b = m[k].1;
        let rest = splice_from(t, m, reps, k + 1, b);
        assert(out == t.subrange(pos, a) + reps[k] + rest);
        if j < a {
            assert(shift_before(m, reps, k, j) == 0);
            assert(out[j - pos] == t.subrange(pos, a)[j - pos]);
        } else {
            assert(j >= b);
            assert forall|i: int| k + 1 <= i < m.len() implies b <= #[trigger] m[i].0 by {
                assert(m[k].1 <= m[i].0);
            }
            lemma_splice_preserves_gaps(t, m, reps, k + 1, b, j);
            let sh = shift_before(m, reps, k + 1, j);
            assert(shift_before(m, reps, k, j) == reps[k].len() - (b - a) + sh);
            let inner = j - b + sh;
            assert(0 <= inner < rest.len());
            assert(rest[inner] == t[j]);
            let idx = j - pos + shift_before(m, reps, k, j);
            assert(idx == (a - pos) + reps[k].len() + inner);
            assert(out[idx] == rest[inner]);
        }
    }
}

} // verus!
