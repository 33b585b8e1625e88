//! The pattern library: the fixed text patterns used for indicator
//! extraction and redaction (URLs, e-mail addresses, IPv4 literals,
//! domains, phone numbers, card numbers, SSNs, greeting-prefixed names,
//! HTML tags and anchors), each given an exact character-level
//! specification of where it matches and how long the match is, together
//! with a scanner that collects all non-overlapping matches left to right.
use vstd::prelude::*;

use crate::text::{
    alnum, alpha, append_range, append_vec, digit, is_alnum, is_alpha, is_digit, is_lower_alpha,
    is_space, is_upper, is_word, lower_char, lower_char_exec, occurs_at, occurs_at_exec, space,
    word,
};

verus! {

// ---------------------------------------------------------------------------
// Character classes used by the patterns
// ---------------------------------------------------------------------------

#[derive(Clone, Copy)]
pub enum CharClass {
    Digit,
    Alpha,
    LowerAlpha,
    Space,
    /// Characters allowed in the local part of an e-mail address.
    EmailLocal,
    /// Characters allowed in the domain part of an e-mail address.
    EmailDomain,
    /// Characters that may appear in a URL after the scheme.
    UrlChar,
    /// Characters of a host-name label (alphanumeric or hyphen).
    LabelChar,
    /// Anything but `>`: the inside of an HTML tag.
    NotGt,
    /// Anything but a quote: the inside of an anchor attribute value.
    NotQuote,
    /// Characters of a filename token in a disposition header.
    FileChar,
}

pub open spec fn class_holds(k: CharClass, c: char) -> bool {
    match k {
        CharClass::Digit => is_digit(c),
        CharClass::Alpha => is_alpha(c),
        CharClass::LowerAlpha => is_lower_alpha(c),
        CharClass::Space => is_space(c),
        CharClass::EmailLocal => is_alnum(c) || c == '.' || c == '_' || c == '%' || c == '+'
            || c == '-',
        CharClass::EmailDomain => is_alnum(c) || c == '.' || c == '-',
        CharClass::UrlChar => !(is_space(c) || c == '<' || c == '>' || c == '"' || c == '\''
            || c == ')' || c == '}' || c == ']'),
        CharClass::LabelChar => is_alnum(c) || c == '-',
        CharClass::NotGt => c != '>',
        CharClass::NotQuote => c != '"' && c != '\'',
        CharClass::FileChar => c != '"' && c != ';' && !is_space(c),
    }
}

pub fn class_check(k: CharClass, c: char) -> (b: bool)
    ensures
        b == class_holds(k, c),
{
    match k {
        CharClass::Digit => digit(c),
        CharClass::Alpha => alpha(c),
        CharClass::LowerAlpha => 'a' <= c && c <= 'z',
        CharClass::Space => space(c),
        CharClass::EmailLocal => alnum(c) || c == '.' || c == '_' || c == '%' || c == '+' || c
            == '-',
        CharClass::EmailDomain => alnum(c) || c == '.' || c == '-',
        CharClass::UrlChar => !(space(c) || c == '<' || c == '>' || c == '"' || c == '\'' || c
            == ')' || c == '}' || c == ']'),
        CharClass::LabelChar => alnum(c) || c == '-',
        CharClass::NotGt => c != '>',
        CharClass::NotQuote => c != '"' && c != '\'',
        CharClass::FileChar => c != '"' && c != ';' && !space(c),
    }
}

/// Length of the maximal run of characters of class `k` starting at `i`.
pub open spec fn run_len(s: Seq<char>, i: int, k: CharClass) -> int
    decreases s.len() - i,
{
    if 0 <= i && i < s.len() && class_holds(k, s[i]) {
        1 + run_len(s, i + 1, k)
    } else {
        0
    }
}

pub proof fn lemma_run_len(s: Seq<char>, i: int, k: CharClass)
    requires
        0 <= i <= s.len(),
    ensures
        0 <= run_len(s, i, k),
        i + run_len(s, i, k) <= s.len(),
        forall|j: int| i <= j < i + run_len(s, i, k) ==> class_holds(k, s[j]),
        i + run_len(s, i, k) == s.len() || !class_holds(k, s[i + run_len(s, i, k)]),
    decreases s.len() - i,
{
    if i < s.len() && class_holds(k, s[i]) {
        lemma_run_len(s, i + 1, k);
    }
}

pub fn run_from(s: &Vec<char>, i: usize, k: CharClass) -> (r: usize)
    requires
        i <= s@.len(),
    ensures
        r == run_len(s@, i as int, k),
        i + r <= s@.len(),
{
    let mut j: usize = i;
    while j < s.len() && class_check(k, s[j])
        invariant
            i <= j <= s@.len(),
            run_len(s@, i as int, k) == (j - i) + run_len(s@, j as int, k),
        decreases s@.len() - j,
    {
        j = j + 1;
    }
    j - i
}

/// There are exactly `n` decimal digits at positions `i .. i+n`.
pub open spec fn digits_at(s: Seq<char>, i: int, n: int) -> bool {
    0 <= i && i + n <= s.len() && forall|j: int| i <= j < i + n ==> is_digit(s[j])
}

pub fn digits_at_exec(s: &Vec<char>, i: usize, n: usize) -> (b: bool)
    requires
        i <= s@.len(),
    ensures
        b == digits_at(s@, i as int, n as int),
{
    if n > s.len() - i {
        return false;
    }
    let mut j: usize = 0;
    while j < n
        invariant
            j <= n,
            i + n <= s@.len(),
            forall|t: int| i <= t < i + j ==> is_digit(s@[t]),
        decreases n - j,
    {
        if !digit(s[i + j]) {
            return false;
        }
        j = j + 1;
    }
    true
}

/// The literal `w` occurs at position `i` (case-sensitive).
pub open spec fn lit_at(s: Seq<char>, i: int, w: Seq<char>) -> bool {
    occurs_at(s, w, i)
}

/// The literal `w` (all lower-case) occurs at position `i` up to ASCII case.
pub open spec fn lit_ci_at(s: Seq<char>, i: int, w: Seq<char>) -> bool {
    0 <= i && i + w.len() <= s.len() && forall|j: int|
        0 <= j < w.len() ==> lower_char(s[i + j]) == w[j]
}

pub fn lit_ci_at_exec(s: &Vec<char>, i: usize, w: &Vec<char>) -> (b: bool)
    requires
        i <= s@.len(),
    ensures
        b == lit_ci_at(s@, i as int, w@),
{
    if w.len() > s.len() - i {
        return false;
    }
    let mut j: usize = 0;
    while j < w.len()
        invariant
            j <= w@.len(),
            i + w@.len() <= s@.len(),
            forall|t: int| 0 <= t < j ==> lower_char(s@[i + t]) == w@[t],
        decreases w@.len() - j,
    {
        if lower_char_exec(s[i + j]) != w[j] {
            return false;
        }
        j = j + 1;
    }
    true
}

/// A word boundary lies just before position `i`.
pub open spec fn boundary_before(s: Seq<char>, i: int) -> bool {
    i == 0 || !is_word(s[i - 1])
}

/// A word boundary lies just after position `e` (exclusive end).
pub open spec fn boundary_after(s: Seq<char>, e: int) -> bool {
    e >= s.len() || !is_word(s[e])
}

pub fn boundary_before_exec(s: &Vec<char>, i: usize) -> (b: bool)
    requires
        i <= s@.len(),
    ensures
        b == boundary_before(s@, i as int),
{
    i == 0 || !word(s[i - 1])
}

pub fn boundary_after_exec(s: &Vec<char>, e: usize) -> (b: bool)
    ensures
        b == boundary_after(s@, e as int),
{
    e >= s.len() || !word(s[e])
}

// ---------------------------------------------------------------------------
// The individual patterns: match length at a given position
// ---------------------------------------------------------------------------

/// E-mail addresses: a run of local-part characters, `@`, and a domain that
/// ends with a dot followed by at least two letters; the domain extends as
/// far right as such an ending allows.
pub open spec fn email_at(s: Seq<char>, i: int) -> Option<int> {
    let l1 = run_len(s, i, CharClass::EmailLocal);
    if l1 < 1 {
        None
    } else {
        let a = i + l1;
        if a < s.len() && s[a] == '@' {
            match email_domain_end(s, a + 1) {
                Some(e) => Some(e - i),
                None => None,
            }
        } else {
            None
        }
    }
}

/// End of the domain part starting at `d` (just after the `@`): the domain
/// run must contain a dot followed by at least two letters; the rightmost
/// such dot wins and the trailing letters extend greedily.
pub open spec fn email_domain_end(s: Seq<char>, d: int) -> Option<int> {
    let r = run_len(s, d, CharClass::EmailDomain);
    if r < 1 {
        None
    } else {
        match best_dot(s, d, d + r - 1) {
            Some(p) => Some(p + 1 + run_len(s, p + 1, CharClass::Alpha)),
            None => None,
        }
    }
}

/// The highest position `p` with `d < p <= hi` holding a dot followed by at
/// least two letters.
pub open spec fn best_dot(s: Seq<char>, d: int, p: int) -> Option<int>
    decreases p - d,
{
    if p <= d {
        None
    } else if 0 <= p && p < s.len() && s[p] == '.' && run_len(s, p + 1, CharClass::Alpha) >= 2 {
        Some(p)
    } else {
        best_dot(s, d, p - 1)
    }
}

pub fn email_at_exec(s: &Vec<char>, i: usize) -> (r: Option<usize>)
    requires
        i <= s@.len(),
    ensures
        match r {
            Some(l) => email_at(s@, i as int) == Some(l as int) && 1 <= l && i + l <= s@.len(),
            None => email_at(s@, i as int) is None,
        },
{
    let n = s.len();
    let l1 = run_from(s, i, CharClass::EmailLocal);
    if l1 < 1 {
        return None;
    }
    assert(i + l1 <= n);
    let a = i + l1;
    if !(a < s.len() && s[a] == '@') {
        return None;
    }
    let d = a + 1;
    let dr = run_from(s, d, CharClass::EmailDomain);
    if dr < 1 {
        return None;
    }
    let mut p: usize = d + dr - 1;
    while p > d
        invariant
            d <= p,
            p <= d + dr - 1,
            best_dot(s@, d as int, d + dr - 1) == best_dot(s@, d as int, p as int),
        decreases p,
    {
        if s[p] == '.' {
            let ar = run_from(s, p + 1, CharClass::Alpha);
            if ar >= 2 {
                let e = p + 1 + ar;
                proof {
                    lemma_run_len(s@, p as int + 1, CharClass::Alpha);
                }
                return Some(e - i);
            }
        }
        p = p - 1;
    }
    assert(best_dot(s@, d as int, p as int) is None);
    None
}

/// SSN-shaped tokens: three, two and four digits with optional single
/// dash-or-space separators, bounded by word boundaries.
pub open spec fn is_ssn_sep(c: char) -> bool {
    c == '-' || is_space(c)
}

pub open spec fn ssn_at(s: Seq<char>, i: int) -> Option<int> {
    if 0 <= i && boundary_before(s, i) && digits_at(s, i, 3) {
        let j1 = i + 3;
        let j2 = if j1 < s.len() && is_ssn_sep(s[j1]) {
            j1 + 1
        } else {
            j1
        };
        if digits_at(s, j2, 2) {
            let j3 = j2 + 2;
            let j4 = if j3 < s.len() && is_ssn_sep(s[j3]) {
                j3 + 1
            } else {
                j3
            };
            if digits_at(s, j4, 4) && boundary_after(s, j4 + 4) {
                Some(j4 + 4 - i)
            } else {
                None
            }
        } else {
            None
        }
    } else {
        None
    }
}

pub fn ssn_at_exec(s: &Vec<char>, i: usize) -> (r: Option<usize>)
    requires
        i <= s@.len(),
    ensures
        match r {
            Some(l) => ssn_at(s@, i as int) == Some(l as int) && 1 <= l && i + l <= s@.len(),
            None => ssn_at(s@, i as int) is None,
        },
{
    let n = s.len();
    if !(boundary_before_exec(s, i) && digits_at_exec(s, i, 3)) {
        return None;
    }
    assert(i + 3 <= n);
    let j1 = i + 3;
    let j2 = if j1 < s.len() && (s[j1] == '-' || space(s[j1])) {
        j1 + 1
    } else {
        j1
    };
    if !digits_at_exec(s, j2, 2) {
        return None;
    }
    let j3 = j2 + 2;
    let j4 = if j3 < s.len() && (s[j3] == '-' || space(s[j3])) {
        j3 + 1
    } else {
        j3
    };
    if digits_at_exec(s, j4, 4) && boundary_after_exec(s, j4 + 4) {
        Some(j4 + 4 - i)
    } else {
        None
    }
}

/// Card-number-shaped tokens of the four major issuers, bounded by word
/// boundaries: a digit run of the exact issuer length whose prefix fits the
/// issuer's range.
pub open spec fn cc_at(s: Seq<char>, i: int) -> Option<int> {
    if 0 <= i && i < s.len() && boundary_before(s, i) {
        let r = run_len(s, i, CharClass::Digit);
        if s[i] == '4' {
            if r == 16 && boundary_after(s, i + 16) {
                Some(16)
            } else if r == 13 && boundary_after(s, i + 13) {
                Some(13)
            } else {
                None
            }
        } else if s[i] == '5' && r == 16 && '1' <= s[i + 1] && s[i + 1] <= '5' && boundary_after(
            s,
            i + 16,
        ) {
            Some(16)
        } else if s[i] == '3' && r == 15 && (s[i + 1] == '4' || s[i + 1] == '7') && boundary_after(
            s,
            i + 15,
        ) {
            Some(15)
        } else if s[i] == '6' && r == 16 && ((s[i + 1] == '0' && s[i + 2] == '1' && s[i + 3] == '1')
            || s[i + 1] == '5') && boundary_after(s, i + 16) {
            Some(16)
        } else {
            None
        }
    } else {
        None
    }
}

pub fn cc_at_exec(s: &Vec<char>, i: usize) -> (r: Option<usize>)
    requires
        i <= s@.len(),
    ensures
        match r {
            Some(l) => cc_at(s@, i as int) == Some(l as int) && 1 <= l && i + l <= s@.len(),
            None => cc_at(s@, i as int) is None,
        },
{
    if !(i < s.len() && boundary_before_exec(s, i)) {
        return None;
    }
    let r = run_from(s, i, CharClass::Digit);
    let c0 = s[i];
    if c0 == '4' {
        if r == 16 && boundary_after_exec(s, i + 16) {
            Some(16)
        } else if r == 13 && boundary_after_exec(s, i + 13) {
            Some(13)
        } else {
            None
        }
    } else if c0 == '5' && r == 16 {
        proof {
            lemma_run_len(s@, i as int, CharClass::Digit);
        }
        if '1' <= s[i + 1] && s[i + 1] <= '5' && boundary_after_exec(s, i + 16) {
            Some(16)
        } else {
            None
        }
    } else if c0 == '3' && r == 15 {
        proof {
            lemma_run_len(s@, i as int, CharClass::Digit);
        }
        if (s[i + 1] == '4' || s[i + 1] == '7') && boundary_after_exec(s, i + 15) {
            Some(15)
        } else {
            None
        }
    } else if c0 == '6' && r == 16 {
        proof {
            lemma_run_len(s@, i as int, CharClass::Digit);
        }
        if ((s[i + 1] == '0' && s[i + 2] == '1' && s[i + 3] == '1') || s[i + 1] == '5')
            && boundary_after_exec(s, i + 16) {
            Some(16)
        } else {
            None
        }
    } else {
        None
    }
}

/// Phone-number-shaped tokens: an optional `+1` or `1` prefix with an
/// optional separator, then three, three and four digits with optional
/// parentheses around the first group and optional single separators.
pub open spec fn is_phone_sep(c: char) -> bool {
    c == '-' || c == '.' || is_space(c)
}

pub open spec fn phone_core(s: Seq<char>, p: int) -> Option<int> {
    let p1 = if 0 <= p && p < s.len() && s[p] == '(' {
        p + 1
    } else {
        p
    };
    if digits_at(s, p1, 3) {
        let q = p1 + 3;
        let q1 = if q < s.len() && s[q] == ')' {
            q + 1
        } else {
            q
        };
        let q2 = if q1 < s.len() && is_phone_sep(s[q1]) {
            q1 + 1
        } else {
            q1
        };
        if digits_at(s, q2, 3) {
            let t = q2 + 3;
            let t1 = if t < s.len() && is_phone_sep(s[t]) {
                t + 1
            } else {
                t
            };
            if digits_at(s, t1, 4) {
                Some(t1 + 4)
            } else {
                None
            }
        } else {
            None
        }
    } else {
        None
    }
}

pub open spec fn phone_at(s: Seq<char>, i: int) -> Option<int> {
    if !(0 <= i && i < s.len()) {
        None
    } else if s[i] == '+' {
        if i + 1 < s.len() && s[i + 1] == '1' {
            let p = if i + 2 < s.len() && is_phone_sep(s[i + 2]) {
                i + 3
            } else {
                i + 2
            };
            match phone_core(s, p) {
                Some(e) => Some(e - i),
                None => None,
            }
        } else {
            None
        }
    } else if s[i] == '1' {
        let p = if i + 1 < s.len() && is_phone_sep(s[i + 1]) {
            i + 2
        } else {
            i + 1
        };
        match phone_core(s, p) {
            Some(e) => Some(e - i),
            None => match phone_core(s, i) {
                Some(e) => Some(e - i),
                None => None,
            },
        }
    } else {
        match phone_core(s, i) {
            Some(e) => Some(e - i),
            None => None,
        }
    }
}

fn phone_sep_exec(c: char) -> (b: bool)
    ensures
        b == is_phone_sep(c),
{
    c == '-' || c == '.' || space(c)
}

fn phone_core_exec(s: &Vec<char>, p: usize) -> (r: Option<usize>)
    requires
        p <= s@.len(),
    ensures
        match r {
            Some(e) => phone_core(s@, p as int) == Some(e as int) && p < e && e <= s@.len(),
            None => phone_core(s@, p as int) is None,
        },
{
    let p1 = if p < s.len() && s[p] == '(' {
        p + 1
    } else {
        p
    };
    if !digits_at_exec(s, p1, 3) {
        return None;
    }
    let q = p1 + 3;
    let q1 = if q < s.len() && s[q] == ')' {
        q + 1
    } else {
        q
    };
    let q2 = if q1 < s.len() && phone_sep_exec(s[q1]) {
        q1 + 1
    } else {
        q1
    };
    if !digits_at_exec(s, q2, 3) {
        return None;
    }
    let t = q2 + 3;
    let t1 = if t < s.len() && phone_sep_exec(s[t]) {
        t + 1
    } else {
        t
    };
    if digits_at_exec(s, t1, 4) {
        Some(t1 + 4)
    } else {
        None
    }
}

pub fn phone_at_exec(s: &Vec<char>, i: usize) -> (r: Option<usize>)
    requires
        i <= s@.len(),
    ensures
        match r {
            Some(l) => phone_at(s@, i as int) == Some(l as int) && 1 <= l && i + l <= s@.len(),
            None => phone_at(s@, i as int) is None,
        },
{
    if i >= s.len() {
        return None;
    }
    if s[i] == '+' {
        if i + 1 < s.len() && s[i + 1] == '1' {
            let p = if i + 2 < s.len() && phone_sep_exec(s[i + 2]) {
                i + 3
            } else {
                i + 2
            };
            match phone_core_exec(s, p) {
                Some(e) => Some(e - i),
                None => None,
            }
        } else {
            None
        }
    } else if s[i] == '1' {
        let p = if i + 1 < s.len() && phone_sep_exec(s[i + 1]) {
            i + 2
        } else {
            i + 1
        };
        match phone_core_exec(s, p) {
            Some(e) => Some(e - i),
            None => match phone_core_exec(s, i) {
                Some(e) => Some(e - i),
                None => None,
            },
        }
    } else {
        match phone_core_exec(s, i) {
            Some(e) => Some(e - i),
            None => None,
        }
    }
}

/// `://` occurs at position `j`.
pub open spec fn sep3_at(s: Seq<char>, j: int) -> bool {
    0 <= j && j + 3 <= s.len() && s[j] == ':' && s[j + 1] == '/' && s[j + 2] == '/'
}

/// URLs: `http`, an optional `s`, `://`, then a non-empty greedy run of
/// characters that are not whitespace, angle brackets, quotes or closing
/// brackets.
pub open spec fn url_at(s: Seq<char>, i: int) -> Option<int> {
    if 0 <= i && i + 4 <= s.len() && s[i] == 'h' && s[i + 1] == 't' && s[i + 2] == 't' && s[i + 3]
        == 'p' {
        let k = if i + 4 < s.len() && s[i + 4] == 's' && sep3_at(s, i + 5) {
            i + 8
        } else if sep3_at(s, i + 4) {
            i + 7
        } else {
            -1
        };
        if k >= 0 {
            let r = run_len(s, k, CharClass::UrlChar);
            if r >= 1 {
                Some(k + r - i)
            } else {
                None
            }
        } else {
            None
        }
    } else {
        None
    }
}

fn sep3_at_exec(s: &Vec<char>, j: usize) -> (b: bool)
    requires
        j <= s@.len(),
    ensures
        b == sep3_at(s@, j as int),
{
    if s.len() - j < 3 {
        return false;
    }
    s[j] == ':' && s[j + 1] == '/' && s[j + 2] == '/'
}

pub fn url_at_exec(s: &Vec<char>, i: usize) -> (r: Option<usize>)
    requires
        i <= s@.len(),
    ensures
        match r {
            Some(l) => url_at(s@, i as int) == Some(l as int) && 1 <= l && i + l <= s@.len(),
            None => url_at(s@, i as int) is None,
        },
{
    let n = s.len();
    if !(n - i >= 4 && s[i] == 'h' && s[i + 1] == 't' && s[i + 2] == 't' && s[i + 3] == 'p') {
        return None;
    }
    let k: usize = if n - i >= 5 && s[i + 4] == 's' && sep3_at_exec(s, i + 5) {
        i + 8
    } else if sep3_at_exec(s, i + 4) {
        i + 7
    } else {
        return None;
    };
    let r = run_from(s, k, CharClass::UrlChar);
    if r >= 1 {
        Some(k + r - i)
    } else {
        None
    }
}

/// A digit run forming one IPv4 octet: one or two digits, or three digits
/// whose value does not exceed 255.
pub open spec fn octet_len(s: Seq<char>, p: int) -> Option<int> {
    let r = run_len(s, p, CharClass::Digit);
    if r == 1 || r == 2 {
        Some(r)
    } else if r == 3 && ((s[p] == '2' && s[p + 1] == '5' && '0' <= s[p + 2] && s[p + 2] <= '5') || (
    s[p] == '2' && '0' <= s[p + 1] && s[p + 1] <= '4') || (s[p] == '0' || s[p] == '1')) {
        Some(3)
    } else {
        None
    }
}

fn octet_len_exec(s: &Vec<char>, p: usize) -> (r: Option<usize>)
    requires
        p <= s@.len(),
    ensures
        match r {
            Some(l) => octet_len(s@, p as int) == Some(l as int) && 1 <= l && p + l <= s@.len(),
            None => octet_len(s@, p as int) is None,
        },
{
    let n = s.len();
    let r = run_from(s, p, CharClass::Digit);
    proof {
        lemma_run_len(s@, p as int, CharClass::Digit);
    }
    if r == 1 || r == 2 {
        Some(r)
    } else if r == 3 && ((s[p] == '2' && s[p + 1] == '5' && '0' <= s[p + 2] && s[p + 2] <= '5') || (
    s[p] == '2' && '0' <= s[p + 1] && s[p + 1] <= '4') || (s[p] == '0' || s[p] == '1')) {
        Some(3)
    } else {
        None
    }
}

/// IPv4 literals: four octets joined by dots, with word boundaries on both
/// sides.
pub open spec fn ip_at(s: Seq<char>, i: int) -> Option<int> {
    if 0 <= i && boundary_before(s, i) {
        match octet_len(s, i) {
            Some(r1) => if i + r1 < s.len() && s[i + r1] == '.' {
                let p1 = i + r1 + 1;
                match octet_len(s, p1) {
                    Some(r2) => if p1 + r2 < s.len() && s[p1 + r2] == '.' {
                        let p2 = p1 + r2 + 1;
                        match octet_len(s, p2) {
                            Some(r3) => if p2 + r3 < s.len() && s[p2 + r3] == '.' {
                                let p3 = p2 + r3 + 1;
                                match octet_len(s, p3) {
                                    Some(r4) => if boundary_after(s, p3 + r4) {
                                        Some(p3 + r4 - i)
                                    } else {
                                        None
                                    },
                                    None => None,
                                }
                            } else {
                                None
                            },
                            None => None,
                        }
                    } else {
                        None
                    },
                    None => None,
                }
            } else {
                None
            },
            None => None,
        }
    } else {
        None
    }
}

pub fn ip_at_exec(s: &Vec<char>, i: usize) -> (r: Option<usize>)
    requires
        i <= s@.len(),
    ensures
        match r {
            Some(l) => ip_at(s@, i as int) == Some(l as int) && 1 <= l && i + l <= s@.len(),
            None => ip_at(s@, i as int) is None,
        },
{
    let n = s.len();
    if !boundary_before_exec(s, i) {
        return None;
    }
    let r1 = match octet_len_exec(s, i) {
        Some(r) => r,
        None => {
            return None;
        },
    };
    if !(i + r1 < s.len() && s[i + r1] == '.') {
        return None;
    }
    let p1 = i + r1 + 1;
    let r2 = match octet_len_exec(s, p1) {
        Some(r) => r,
        None => {
            return None;
        },
    };
    if !(p1 + r2 < s.len() && s[p1 + r2] == '.') {
        return None;
    }
    let p2 = p1 + r2 + 1;
    let r3 = match octet_len_exec(s, p2) {
        Some(r) => r,
        None => {
            return None;
        },
    };
    if !(p2 + r3 < s.len() && s[p2 + r3] == '.') {
        return None;
    }
    let p3 = p2 + r3 + 1;
    let r4 = match octet_len_exec(s, p3) {
        Some(r) => r,
        None => {
            return None;
        },
    };
    if boundary_after_exec(s, p3 + r4) {
        Some(p3 + r4 - i)
    } else {
        None
    }
}

/// One host-name label followed by a dot starts at `p`: the label is the
/// whole run of label characters, 1 to 63 long, first and last alphanumeric.
pub open spec fn label_dot_at(s: Seq<char>, p: int) -> Option<int> {
    let r = run_len(s, p, CharClass::LabelChar);
    if 1 <= r && r <= 63 && is_alnum(s[p]) && is_alnum(s[p + r - 1]) && p + r < s.len() && s[p + r]
        == '.' {
        Some(r)
    } else {
        None
    }
}

fn label_dot_exec(s: &Vec<char>, p: usize) -> (r: Option<usize>)
    requires
        p <= s@.len(),
    ensures
        match r {
            Some(l) => label_dot_at(s@, p as int) == Some(l as int) && 1 <= l && p + l + 1
                < s@.len() + 1,
            None => label_dot_at(s@, p as int) is None,
        },
{
    let n = s.len();
    let r = run_from(s, p, CharClass::LabelChar);
    proof {
        lemma_run_len(s@, p as int, CharClass::LabelChar);
    }
    if 1 <= r && r <= 63 && p + r < s.len() && s[p + r] == '.' && alnum(s[p]) && alnum(
        s[p + r - 1],
    ) {
        Some(r)
    } else {
        None
    }
}

/// Trailing letters of a domain: at least two.
pub open spec fn tld_end(s: Seq<char>, p: int) -> Option<int> {
    let l = run_len(s, p, CharClass::Alpha);
    if l >= 2 {
        Some(p + l)
    } else {
        None
    }
}

/// Zero or more further labels followed by the trailing letters, preferring
/// more labels.
pub open spec fn domain_rest(s: Seq<char>, p: int) -> Option<int>
    decreases s.len() - p,
{
    if !(0 <= p && p <= s.len()) {
        None
    } else {
        match label_dot_at(s, p) {
            Some(r) => match domain_rest(s, p + r + 1) {
                Some(e) => Some(e),
                None => tld_end(s, p),
            },
            None => tld_end(s, p),
        }
    }
}

/// Domain-shaped tokens: one or more labels each followed by a dot, then at
/// least two letters; trailing labels that cannot be completed fall back to
/// serving as the final letters.
pub open spec fn domain_at(s: Seq<char>, i: int) -> Option<int> {
    match label_dot_at(s, i) {
        Some(r) => match domain_rest(s, i + r + 1) {
            Some(e) => Some(e - i),
            None => None,
        },
        None => None,
    }
}

fn domain_rest_exec(s: &Vec<char>, p: usize) -> (r: Option<usize>)
    requires
        p <= s@.len(),
    ensures
        match r {
            Some(e) => domain_rest(s@, p as int) == Some(e as int) && p < e && e <= s@.len(),
            None => domain_rest(s@, p as int) is None,
        },
    decreases s@.len() - p,
{
    let n = s.len();
    let tl = {
        let l = run_from(s, p, CharClass::Alpha);
        if l >= 2 {
            Some(p + l)
        } else {
            None
        }
    };
    match label_dot_exec(s, p) {
        Some(r) => {
            match domain_rest_exec(s, p + r + 1) {
                Some(e) => Some(e),
                None => tl,
            }
        },
        None => tl,
    }
}

pub fn domain_at_exec(s: &Vec<char>, i: usize) -> (r: Option<usize>)
    requires
        i <= s@.len(),
    ensures
        match r {
            Some(l) => domain_at(s@, i as int) == Some(l as int) && 1 <= l && i + l <= s@.len(),
            None => domain_at(s@, i as int) is None,
        },
{
    let n = s.len();
    match label_dot_exec(s, i) {
        Some(r) => {
            match domain_rest_exec(s, i + r + 1) {
                Some(e) => Some(e - i),
                None => None,
            }
        },
        None => None,
    }
}

/// HTML tags: `<`, a non-empty run of characters other than `>`, then `>`.
pub open spec fn tag_at(s: Seq<char>, i: int) -> Option<int> {
    if 0 <= i && i < s.len() && s[i] == '<' {
        let r = run_len(s, i + 1, CharClass::NotGt);
        if r >= 1 && i + 1 + r < s.len() && s[i + 1 + r] == '>' {
            Some(r + 2)
        } else {
            None
        }
    } else {
        None
    }
}

pub fn tag_at_exec(s: &Vec<char>, i: usize) -> (r: Option<usize>)
    requires
        i <= s@.len(),
    ensures
        match r {
            Some(l) => tag_at(s@, i as int) == Some(l as int) && 1 <= l && i + l <= s@.len(),
            None => tag_at(s@, i as int) is None,
        },
{
    if !(i < s.len() && s[i] == '<') {
        return None;
    }
    let r = run_from(s, i + 1, CharClass::NotGt);
    if r >= 1 && i + 1 + r < s.len() && s[i + 1 + r] == '>' {
        Some(r + 2)
    } else {
        None
    }
}

/// Runs of whitespace.
pub open spec fn ws_at(s: Seq<char>, i: int) -> Option<int> {
    let r = run_len(s, i, CharClass::Space);
    if r >= 1 {
        Some(r)
    } else {
        None
    }
}

pub fn ws_at_exec(s: &Vec<char>, i: usize) -> (r: Option<usize>)
    requires
        i <= s@.len(),
    ensures
        match r {
            Some(l) => ws_at(s@, i as int) == Some(l as int) && 1 <= l && i + l <= s@.len(),
            None => ws_at(s@, i as int) is None,
        },
{
    let r = run_from(s, i, CharClass::Space);
    if r >= 1 {
        Some(r)
    } else {
        None
    }
}

// ---------------------------------------------------------------------------
// Scanning: all non-overlapping matches, left to right
// ---------------------------------------------------------------------------

#[derive(Clone, Copy)]
pub enum Pattern {
    Email,
    Phone,
    Cc,
    Ssn,
    Url,
    Ip,
    Domain,
    Tag,
    Ws,
}

pub open spec fn pat_at(p: Pattern, s: Seq<char>, i: int) -> Option<int> {
    match p {
        Pattern::Email => email_at(s, i),
        Pattern::Phone => phone_at(s, i),
        Pattern::Cc => cc_at(s, i),
        Pattern::Ssn => ssn_at(s, i),
        Pattern::Url => url_at(s, i),
        Pattern::Ip => ip_at(s, i),
        Pattern::Domain => domain_at(s, i),
        Pattern::Tag => tag_at(s, i),
        Pattern::Ws => ws_at(s, i),
    }
}

pub fn pat_at_exec(p: Pattern, s: &Vec<char>, i: usize) -> (r: Option<usize>)
    requires
        i <= s@.len(),
    ensures
        match r {
            Some(l) => pat_at(p, s@, i as int) == Some(l as int) && 1 <= l && i + l <= s@.len(),
            None => pat_at(p, s@, i as int) is None,
        },
{
    match p {
        Pattern::Email => email_at_exec(s, i),
        Pattern::Phone => phone_at_exec(s, i),
        Pattern::Cc => cc_at_exec(s, i),
        Pattern::Ssn => ssn_at_exec(s, i),
        Pattern::Url => url_at_exec(s, i),
        Pattern::Ip => ip_at_exec(s, i),
        Pattern::Domain => domain_at_exec(s, i),
        Pattern::Tag => tag_at_exec(s, i),
        Pattern::Ws => ws_at_exec(s, i),
    }
}

/// All non-overlapping matches of `p` in `s` from position `i` on, scanning
/// left to right and resuming after each match.
pub open spec fn scan_spec(p: Pattern, s: Seq<char>, i: int) -> Seq<(int, int)>
    decreases s.len() - i,
{
    if !(0 <= i && i < s.len()) {
        Seq::empty()
    } else {
        match pat_at(p, s, i) {
            Some(l) => if 1 <= l && i + l <= s.len() {
                seq![(i, i + l)] + scan_spec(p, s, i + l)
            } else {
                scan_spec(p, s, i + 1)
            },
            None => scan_spec(p, s, i + 1),
        }
    }
}

pub open spec fn pairs_view(v: Seq<(usize, usize)>) -> Seq<(int, int)> {
    v.map_values(|pr: (usize, usize)| (pr.0 as int, pr.1 as int))
}

/// The ranges are in bounds, non-empty, ordered and pairwise disjoint.
pub open spec fn ranges_wf(v: Seq<(usize, usize)>, n: int) -> bool {
    &&& forall|k: int| #![trigger v[k]] 0 <= k < v.len() ==> v[k].0 < v[k].1 && v[k].1 <= n
    &&& forall|k: int| #![trigger v[k]] 0 <= k && k + 1 < v.len() ==> v[k].1 <= v[k + 1].0
}

#[verifier::rlimit(60)]
pub fn scan_pattern(s: &Vec<char>, p: Pattern) -> (r: Vec<(usize, usize)>)
    ensures
        pairs_view(r@) == scan_spec(p, s@, 0),
        ranges_wf(r@, s@.len() as int),
{
    let mut acc: Vec<(usize, usize)> = Vec::new();
    let mut i: usize = 0;
    assert(pairs_view(acc@) =~= Seq::<(int, int)>::empty());
    while i < s.len()
        invariant
            i <= s@.len(),
            scan_spec(p, s@, 0) == pairs_view(acc@) + scan_spec(p, s@, i as int),
            ranges_wf(acc@, s@.len() as int),
            forall|k: int| 0 <= k < acc@.len() ==> #[trigger] acc@[k].1 <= i,
        decreases s@.len() - i,
    {
        match pat_at_exec(p, s, i) {
            Some(l) => {
                let ghost oldacc = acc@;
                acc.push((i, i + l));
                proof {
                    assert(pairs_view(acc@) =~= pairs_view(oldacc).push(
                        (i as int, i as int + l as int),
                    ));
                    assert(pairs_view(oldacc) + (seq![(i as int, i as int + l as int)]
                        + scan_spec(p, s@, i as int + l as int)) =~= pairs_view(acc@) + scan_spec(
                        p,
                        s@,
                        i as int + l as int,
                    ));
                }
                i = i + l;
            },
            None => {
                i = i + 1;
            },
        }
    }
    assert(scan_spec(p, s@, i as int) =~= Seq::<(int, int)>::empty());
    assert(pairs_view(acc@) =~= pairs_view(acc@) + Seq::<(int, int)>::empty());
    acc
}

// ---------------------------------------------------------------------------
// Greeting-prefixed names (with a capture group)
// ---------------------------------------------------------------------------

pub open spec fn kw_dear() -> Seq<char> {
    seq!['d', 'e', 'a', 'r']
}

pub open spec fn kw_hello() -> Seq<char> {
    seq!['h', 'e', 'l', 'l', 'o']
}

pub open spec fn kw_hi() -> Seq<char> {
    seq!['h', 'i']
}

pub open spec fn kw_hey() -> Seq<char> {
    seq!['h', 'e', 'y']
}

/// A capitalized word at `p`: one upper-case letter followed by at least
/// one lower-case letter, extending over the whole lower-case run.
pub open spec fn cap_word_len(s: Seq<char>, p: int) -> int {
    if 0 <= p && p < s.len() && is_upper(s[p]) && run_len(s, p + 1, CharClass::LowerAlpha) >= 1 {
        1 + run_len(s, p + 1, CharClass::LowerAlpha)
    } else {
        0
    }
}

/// After a greeting: at least one whitespace character, a capitalized
/// word, and optionally whitespace and a second capitalized word.
/// Returns the captured name's start and end.
pub open spec fn name_rest(s: Seq<char>, g: int) -> Option<(int, int)> {
    let w = run_len(s, g, CharClass::Space);
    if w < 1 {
        None
    } else {
        let c1 = g + w;
        let l1 = cap_word_len(s, c1);
        if l1 < 2 {
            None
        } else {
            let e1 = c1 + l1;
            let w2 = run_len(s, e1, CharClass::Space);
            let l2 = cap_word_len(s, e1 + w2);
            if w2 >= 1 && l2 >= 2 {
                Some((c1, e1 + w2 + l2))
            } else {
                Some((c1, e1))
            }
        }
    }
}

fn cap_word_exec(s: &Vec<char>, p: usize) -> (r: usize)
    requires
        p <= s@.len(),
    ensures
        r == cap_word_len(s@, p as int),
        p + r <= s@.len(),
{
    if p < s.len() && 'A' <= s[p] && s[p] <= 'Z' {
        let l = run_from(s, p + 1, CharClass::LowerAlpha);
        if l >= 1 {
            return 1 + l;
        }
    }
    0
}

/// A greeting-prefixed name at `i`: one of the greeting words (first match
/// in the listed order wins), then `name_rest`.  Returns the overall match
/// end and the captured name's start and end.
pub open spec fn name_at(s: Seq<char>, i: int) -> Option<(int, int, int)> {
    if lit_ci_at(s, i, kw_dear()) && name_rest(s, i + 4) is Some {
        let c = name_rest(s, i + 4)->Some_0;
        Some((c.1, c.0, c.1))
    } else if lit_ci_at(s, i, kw_hello()) && name_rest(s, i + 5) is Some {
        let c = name_rest(s, i + 5)->Some_0;
        Some((c.1, c.0, c.1))
    } else if lit_ci_at(s, i, kw_hi()) && name_rest(s, i + 2) is Some {
        let c = name_rest(s, i + 2)->Some_0;
        Some((c.1, c.0, c.1))
    } else if lit_ci_at(s, i, kw_hey()) && name_rest(s, i + 3) is Some {
        let c = name_rest(s, i + 3)->Some_0;
        Some((c.1, c.0, c.1))
    } else {
        None
    }
}

fn name_rest_exec(s: &Vec<char>, g: usize) -> (r: Option<(usize, usize)>)
    requires
        g <= s@.len(),
    ensures
        match r {
            Some(c) => name_rest(s@, g as int) == Some((c.0 as int, c.1 as int)) && g < c.0 && c.0
                < c.1 && c.1 <= s@.len(),
            None => name_rest(s@, g as int) is None,
        },
{
    let n = s.len();
    let w = run_from(s, g, CharClass::Space);
    if w < 1 {
        return None;
    }
    let c1 = g + w;
    let l1 = cap_word_exec(s, c1);
    if l1 < 2 {
        return None;
    }
    let e1 = c1 + l1;
    let w2 = run_from(s, e1, CharClass::Space);
    let l2 = cap_word_exec(s, e1 + w2);
    if w2 >= 1 && l2 >= 2 {
        Some((c1, e1 + w2 + l2))
    } else {
        Some((c1, e1))
    }
}

pub fn name_at_exec(s: &Vec<char>, i: usize) -> (r: Option<(usize, usize, usize)>)
    requires
        i <= s@.len(),
    ensures
        match r {
            Some(t) => name_at(s@, i as int) == Some((t.0 as int, t.1 as int, t.2 as int)) && i
                < t.0 && t.0 <= s@.len() && t.1 < t.2 && t.2 <= t.0 && i < t.1,
            None => name_at(s@, i as int) is None,
        },
{
    let n = s.len();
    let dear: Vec<char> = vec!['d', 'e', 'a', 'r'];
    let hello: Vec<char> = vec!['h', 'e', 'l', 'l', 'o'];
    let hi: Vec<char> = vec!['h', 'i'];
    let hey: Vec<char> = vec!['h', 'e', 'y'];
    assert(dear@ =~= kw_dear());
    assert(hello@ =~= kw_hello());
    assert(hi@ =~= kw_hi());
    assert(hey@ =~= kw_hey());
    if lit_ci_at_exec(s, i, &dear) {
        match name_rest_exec(s, i + 4) {
            Some(c) => {
                return Some((c.1, c.0, c.1));
            },
            None => {},
        }
    }
    if lit_ci_at_exec(s, i, &dear) {
        // a failed `dear` greeting admits no other greeting at `i`
        assert(name_at(s@, i as int) is None);
        return None;
    }
    if lit_ci_at_exec(s, i, &hello) {
        match name_rest_exec(s, i + 5) {
            Some(c) => {
                return Some((c.1, c.0, c.1));
            },
            None => {},
        }
        assert(name_at(s@, i as int) is None);
        return None;
    }
    if lit_ci_at_exec(s, i, &hi) {
        match name_rest_exec(s, i + 2) {
            Some(c) => {
                return Some((c.1, c.0, c.1));
            },
            None => {},
        }
    }
    if lit_ci_at_exec(s, i, &hi) {
        assert(name_at(s@, i as int) is None);
        return None;
    }
    if lit_ci_at_exec(s, i, &hey) {
        match name_rest_exec(s, i + 3) {
            Some(c) => {
                return Some((c.1, c.0, c.1));
            },
            None => {},
        }
    }
    None
}

/// All greeting-name captures, scanning left to right and resuming after
/// each whole match.
pub open spec fn scan_name_spec(s: Seq<char>, i: int) -> Seq<(int, int)>
    decreases s.len() - i,
{
    if !(0 <= i && i < s.len()) {
        Seq::empty()
    } else {
        match name_at(s, i) {
            Some(t) => if i < t.0 && t.0 <= s.len() && i < t.1 && t.1 < t.2 && t.2 <= t.0 {
                seq![(t.1, t.2)] + scan_name_spec(s, t.0)
            } else {
                scan_name_spec(s, i + 1)
            },
            None => scan_name_spec(s, i + 1),
        }
    }
}

#[verifier::rlimit(60)]
pub fn scan_names(s: &Vec<char>) -> (r: Vec<(usize, usize)>)
    ensures
        pairs_view(r@) == scan_name_spec(s@, 0),
        ranges_wf(r@, s@.len() as int),
{
    let mut acc: Vec<(usize, usize)> = Vec::new();
    let mut i: usize = 0;
    assert(pairs_view(acc@) =~= Seq::<(int, int)>::empty());
    while i < s.len()
        invariant
            i <= s@.len(),
            scan_name_spec(s@, 0) == pairs_view(acc@) + scan_name_spec(s@, i as int),
            ranges_wf(acc@, s@.len() as int),
            forall|k: int| 0 <= k < acc@.len() ==> #[trigger] acc@[k].1 <= i,
        decreases s@.len() - i,
    {
        match name_at_exec(s, i) {
            Some(t) => {
                let ghost oldacc = acc@;
                acc.push((t.1, t.2));
                proof {
                    assert(pairs_view(acc@) =~= pairs_view(oldacc).push(
                        (t.1 as int, t.2 as int),
                    ));
                    assert(pairs_view(oldacc) + (seq![(t.1 as int, t.2 as int)] + scan_name_spec(
                        s@,
                        t.0 as int,
                    )) =~= pairs_view(acc@) + scan_name_spec(s@, t.0 as int));
                }
                i = t.0;
            },
            None => {
                i = i + 1;
            },
        }
    }
    assert(scan_name_spec(s@, i as int) =~= Seq::<(int, int)>::empty());
    assert(pairs_view(acc@) =~= pairs_view(acc@) + Seq::<(int, int)>::empty());
    acc
}

// ---------------------------------------------------------------------------
// Anchor attribute values
// ---------------------------------------------------------------------------

/// `href=` followed by a quoted non-empty value; either quote character may
/// open or close.  Returns the overall match end and the value's range.
pub open spec fn href_at(s: Seq<char>, i: int) -> Option<(int, int, int)> {
    if 0 <= i && i + 5 <= s.len() && s[i] == 'h' && s[i + 1] == 'r' && s[i + 2] == 'e' && s[i + 3]
        == 'f' && s[i + 4] == '=' {
        let q = i + 5;
        if q < s.len() && (s[q] == '"' || s[q] == '\'') {
            let r = run_len(s, q + 1, CharClass::NotQuote);
            if r >= 1 && q + 1 + r < s.len() && (s[q + 1 + r] == '"' || s[q + 1 + r] == '\'') {
                Some((q + 1 + r + 1, q + 1, q + 1 + r))
            } else {
                None
            }
        } else {
            None
        }
    } else {
        None
    }
}

pub fn href_at_exec(s: &Vec<char>, i: usize) -> (r: Option<(usize, usize, usize)>)
    requires
        i <= s@.len(),
    ensures
        match r {
            Some(t) => href_at(s@, i as int) == Some((t.0 as int, t.1 as int, t.2 as int)) && i
                < t.0 && t.0 <= s@.len() && i < t.1 && t.1 < t.2 && t.2 <= t.0,
            None => href_at(s@, i as int) is None,
        },
{
    let n = s.len();
    if !(n - i >= 5 && s[i] == 'h' && s[i + 1] == 'r' && s[i + 2] == 'e' && s[i + 3] == 'f' && s[i
        + 4] == '=') {
        return None;
    }
    let q = i + 5;
    if !(q < n && (s[q] == '"' || s[q] == '\'')) {
        return None;
    }
    let r = run_from(s, q + 1, CharClass::NotQuote);
    if r >= 1 && q + 1 + r < n && (s[q + 1 + r] == '"' || s[q + 1 + r] == '\'') {
        Some((q + 1 + r + 1, q + 1, q + 1 + r))
    } else {
        None
    }
}

/// All anchor attribute values, scanning left to right.
pub open spec fn scan_href_spec(s: Seq<char>, i: int) -> Seq<(int, int)>
    decreases s.len() - i,
{
    if !(0 <= i && i < s.len()) {
        Seq::empty()
    } else {
        match href_at(s, i) {
            Some(t) => if i < t.0 && t.0 <= s.len() && i < t.1 && t.1 < t.2 && t.2 <= t.0 {
                seq![(t.1, t.2)] + scan_href_spec(s, t.0)
            } else {
                scan_href_spec(s, i + 1)
            },
            None => scan_href_spec(s, i + 1),
        }
    }
}

#[verifier::rlimit(60)]
pub fn scan_hrefs(s: &Vec<char>) -> (r: Vec<(usize, usize)>)
    ensures
        pairs_view(r@) == scan_href_spec(s@, 0),
        ranges_wf(r@, s@.len() as int),
{
    let mut acc: Vec<(usize, usize)> = Vec::new();
    let mut i: usize = 0;
    assert(pairs_view(acc@) =~= Seq::<(int, int)>::empty());
    while i < s.len()
        invariant
            i <= s@.len(),
            scan_href_spec(s@, 0) == pairs_view(acc@) + scan_href_spec(s@, i as int),
            ranges_wf(acc@, s@.len() as int),
            forall|k: int| 0 <= k < acc@.len() ==> #[trigger] acc@[k].1 <= i,
        decreases s@.len() - i,
    {
        match href_at_exec(s, i) {
            Some(t) => {
                let ghost oldacc = acc@;
                acc.push((t.1, t.2));
                proof {
                    assert(pairs_view(acc@) =~= pairs_view(oldacc).push(
                        (t.1 as int, t.2 as int),
                    ));
                    assert(pairs_view(oldacc) + (seq![(t.1 as int, t.2 as int)] + scan_href_spec(
                        s@,
                        t.0 as int,
                    )) =~= pairs_view(acc@) + scan_href_spec(s@, t.0 as int));
                }
                i = t.0;
            },
            None => {
                i = i + 1;
            },
        }
    }
    assert(scan_href_spec(s@, i as int) =~= Seq::<(int, int)>::empty());
    assert(pairs_view(acc@) =~= pairs_view(acc@) + Seq::<(int, int)>::empty());
    acc
}

// ---------------------------------------------------------------------------
// Filename tokens in a disposition header
// ---------------------------------------------------------------------------

pub open spec fn fname_lit() -> Seq<char> {
    seq!['f', 'i', 'l', 'e', 'n', 'a', 'm', 'e', '=']
}

/// `filename=` followed by an optional quote and a non-empty token of
/// characters other than quotes, semicolons and whitespace.  Returns the
/// token's range.
pub open spec fn fname_at(s: Seq<char>, i: int) -> Option<(int, int)> {
    if lit_at(s, i, fname_lit()) {
        let q = if i + 9 < s.len() && s[i + 9] == '"' {
            i + 10
        } else {
            i + 9
        };
        let r = run_len(s, q, CharClass::FileChar);
        if r >= 1 {
            Some((q, q + r))
        } else {
            None
        }
    } else {
        None
    }
}

/// The first filename token at or after `i`.
pub open spec fn first_fname(s: Seq<char>, i: int) -> Option<(int, int)>
    decreases s.len() - i,
{
    if !(0 <= i && i < s.len()) {
        None
    } else {
        match fname_at(s, i) {
            Some(t) => Some(t),
            None => first_fname(s, i + 1),
        }
    }
}

fn fname_at_exec(s: &Vec<char>, i: usize) -> (r: Option<(usize, usize)>)
    requires
        i <= s@.len(),
    ensures
        match r {
            Some(t) => fname_at(s@, i as int) == Some((t.0 as int, t.1 as int)) && i <= t.0 && t.0
                < t.1 && t.1 <= s@.len(),
            None => fname_at(s@, i as int) is None,
        },
{
    let n = s.len();
    let lit: Vec<char> = vec!['f', 'i', 'l', 'e', 'n', 'a', 'm', 'e', '='];
    assert(lit@ =~= fname_lit());
    if !occurs_at_exec(s, &lit, i) {
        return None;
    }
    let q = if i + 9 < n && s[i + 9] == '"' {
        i + 10
    } else {
        i + 9
    };
    let r = run_from(s, q, CharClass::FileChar);
    if r >= 1 {
        Some((q, q + r))
    } else {
        None
    }
}

pub fn find_fname(s: &Vec<char>) -> (r: Option<(usize, usize)>)
    ensures
        match r {
            Some(t) => first_fname(s@, 0) == Some((t.0 as int, t.1 as int)) && t.0 < t.1 && t.1
                <= s@.len(),
            None => first_fname(s@, 0) is None,
        },
{
    let mut i: usize = 0;
    while i < s.len()
        invariant
            i <= s@.len(),
            first_fname(s@, 0) == first_fname(s@, i as int),
        decreases s@.len() - i,
    {
        match fname_at_exec(s, i) {
            Some(t) => {
                return Some(t);
            },
            None => {
                i = i + 1;
            },
        }
    }
    None
}

// ---------------------------------------------------------------------------
// Trailing punctuation trimming (for extracted URLs)
// ---------------------------------------------------------------------------

pub open spec fn is_trail_punct(c: char) -> bool {
    c == '.' || c == ',' || c == ')' || c == ']' || c == '>' || c == ';'
}

pub open spec fn trim_trailing(s: Seq<char>) -> Seq<char>
    decreases s.len(),
{
    if s.len() > 0 && is_trail_punct(s.last()) {
        trim_trailing(s.drop_last())
    } else {
        s
    }
}

fn trail_punct(c: char) -> (b: bool)
    ensures
        b == is_trail_punct(c),
{
    c == '.' || c == ',' || c == ')' || c == ']' || c == '>' || c == ';'
}

pub fn trim_trailing_exec(v: &Vec<char>) -> (r: Vec<char>)
    ensures
        r@ == trim_trailing(v@),
{
    let mut e: usize = v.len();
    assert(v@.take(e as int) =~= v@);
    while e > 0 && trail_punct(v[e - 1])
        invariant
            e <= v@.len(),
            trim_trailing(v@) == trim_trailing(v@.take(e as int)),
        decreases e,
    {
        assert(v@.take(e as int).last() == v@[e - 1]);
        assert(v@.take(e as int).drop_last() =~= v@.take(e as int - 1));
        e = e - 1;
    }
    let mut r: Vec<char> = Vec::new();
    append_range(&mut r, v, 0, e);
    assert(v@.subrange(0, e as int) =~= v@.take(e as int));
    if e > 0 {
        assert(trim_trailing(v@.take(e as int)) == v@.take(e as int));
    }
    r
}

// ---------------------------------------------------------------------------
// Splicing replacements into text
// ---------------------------------------------------------------------------

/// The ranges are in bounds (possibly empty), ordered and pairwise
/// disjoint; scanned matches always satisfy this (`ranges_wf` is stricter).
pub open spec fn ranges_ok(v: Seq<(usize, usize)>, n: int) -> bool {
    &&& forall|k: int| #![trigger v[k]] 0 <= k < v.len() ==> v[k].0 <= v[k].1 && v[k].1 <= n
    &&& forall|k: int| #![trigger v[k]] 0 <= k && k + 1 < v.len() ==> v[k].1 <= v[k + 1].0
}

pub open spec fn seqs_view(v: Seq<Vec<char>>) -> Seq<Seq<char>> {
    v.map_values(|w: Vec<char>| w@)
}

/// The same replacement text for each of `n` matches.
pub open spec fn const_reps(n: nat, rep: Seq<char>) -> Seq<Seq<char>> {
    Seq::new(n, |k: int| rep)
}

/// A vector of `n` copies of `rep`.
pub fn const_reps_exec(n: usize, rep: &Vec<char>) -> (r: Vec<Vec<char>>)
    ensures
        seqs_view(r@) == const_reps(n as nat, rep@),
        r@.len() == n,
{
    let mut r: Vec<Vec<char>> = Vec::new();
    let mut k: usize = 0;
    while k < n
        invariant
            k <= n,
            r@.len() == k,
            forall|j: int| 0 <= j < k ==> #[trigger] r@[j]@ == rep@,
        decreases n - k,
    {
        r.push(rep.clone());
        k = k + 1;
    }
    assert(seqs_view(r@) =~= const_reps(n as nat, rep@));
    r
}

/// The text obtained by replacing each range `m[k]` (from the `k`-th on)
/// with `reps[k]`, the cursor standing at `pos`.
pub open spec fn splice_from(
    t: Seq<char>,
    m: Seq<(int, int)>,
    reps: Seq<Seq<char>>,
    k: int,
    pos: int,
) -> Seq<char>
    decreases m.len() - k,
{
    if !(0 <= k && k < m.len()) {
        if 0 <= pos <= t.len() {
            t.skip(pos)
        } else {
            Seq::empty()
        }
    } else {
        let a = m[k].0;
        let b = m[k].1;
        if pos <= a && a <= b && b <= t.len() {
            t.subrange(pos, a) + reps[k] + splice_from(t, m, reps, k + 1, b)
        } else {
            Seq::empty()
        }
    }
}

/// Replace each matched range with its replacement, left to right.
pub fn splice_exec(t: &Vec<char>, m: &Vec<(usize, usize)>, reps: &Vec<Vec<char>>) -> (r: Vec<char>)
    requires
        ranges_ok(m@, t@.len() as int),
        reps@.len() == m@.len(),
    ensures
        r@ == splice_from(t@, pairs_view(m@), seqs_view(reps@), 0, 0),
{
    let mut out: Vec<char> = Vec::new();
    let mut k: usize = 0;
    let mut pos: usize = 0;
    while k < m.len()
        invariant
            k <= m@.len(),
            pos <= t@.len(),
            k < m@.len() ==> pos <= m@[k as int].0,
            splice_from(t@, pairs_view(m@), seqs_view(reps@), 0, 0) == out@ + splice_from(
                t@,
                pairs_view(m@),
                seqs_view(reps@),
                k as int,
                pos as int,
            ),
        decreases m@.len() - k,
    {
        let (a, b) = m[k];
        assert(pairs_view(m@)[k as int] == (a as int, b as int));
        append_range(&mut out, t, pos, a);
        append_vec(&mut out, &reps[k]);
        assert(seqs_view(reps@)[k as int] == reps@[k as int]@);
        pos = b;
        k = k + 1;
        assert(k < m@.len() ==> pos <= m@[k as int].0);
    }
    append_range(&mut out, t, pos, t.len());
    assert(t@.subrange(pos as int, t@.len() as int) =~= t@.skip(pos as int));
    out
}

// ---------------------------------------------------------------------------
// Word and phrase occurrence (with word boundaries)
// ---------------------------------------------------------------------------

/// `w` occurs at `i` with word boundaries on both sides.
pub open spec fn bounded_at(s: Seq<char>, i: int, w: Seq<char>) -> bool {
    occurs_at(s, w, i) && boundary_before(s, i) && boundary_after(s, i + w.len())
}

pub open spec fn contains_word(s: Seq<char>, w: Seq<char>) -> bool {
    exists|i: int| bounded_at(s, i, w)
}

pub fn contains_word_exec(s: &Vec<char>, w: &Vec<char>) -> (b: bool)
    requires
        w@.len() >= 1,
    ensures
        b == contains_word(s@, w@),
{
    let mut i: usize = 0;
    while i < s.len()
        invariant
            i <= s@.len(),
            forall|j: int| 0 <= j < i ==> !bounded_at(s@, j, w@),
        decreases s@.len() - i,
    {
        if occurs_at_exec(s, w, i) && boundary_before_exec(s, i) && boundary_after_exec(
            s,
            i + w.len(),
        ) {
            assert(bounded_at(s@, i as int, w@));
            return true;
        }
        i = i + 1;
    }
    assert forall|j: int| !bounded_at(s@, j, w@) by {
        if 0 <= j < s@.len() {
            assert(!bounded_at(s@, j, w@));
        }
    }
    false
}

/// `w1`, at least one whitespace character, then `w2`, with word boundaries
/// at the outer ends; the whitespace gap is the whole whitespace run.
pub open spec fn pair_at(s: Seq<char>, i: int, w1: Seq<char>, w2: Seq<char>) -> bool {
    let g = i + w1.len();
    let r = run_len(s, g, CharClass::Space);
    occurs_at(s, w1, i) && boundary_before(s, i) && r >= 1 && occurs_at(s, w2, g + r)
        && boundary_after(s, g + r + w2.len())
}

pub open spec fn contains_pair(s: Seq<char>, w1: Seq<char>, w2: Seq<char>) -> bool {
    exists|i: int| pair_at(s, i, w1, w2)
}

pub fn contains_pair_exec(s: &Vec<char>, w1: &Vec<char>, w2: &Vec<char>) -> (b: bool)
    requires
        w1@.len() >= 1,
    ensures
        b == contains_pair(s@, w1@, w2@),
{
    let mut i: usize = 0;
    while i < s.len()
        invariant
            i <= s@.len(),
            forall|j: int| 0 <= j < i ==> !pair_at(s@, j, w1@, w2@),
        decreases s@.len() - i,
    {
        if occurs_at_exec(s, w1, i) && boundary_before_exec(s, i) {
            let g = i + w1.len();
            let r = run_from(s, g, CharClass::Space);
            if r >= 1 && occurs_at_exec(s, w2, g + r) && boundary_after_exec(s, g + r + w2.len()) {
                assert(pair_at(s@, i as int, w1@, w2@));
                return true;
            }
        }
        i = i + 1;
    }
    assert forall|j: int| !pair_at(s@, j, w1@, w2@) by {
        if 0 <= j < s@.len() {
            assert(!pair_at(s@, j, w1@, w2@));
        } else if j >= s@.len() {
            assert(!occurs_at(s@, w1@, j));
        }
    }
    false
}

/// Views of a list of character vectors.
pub open spec fn vecs_view(v: Seq<Vec<char>>) -> Seq<Seq<char>> {
    v.map_values(|w: Vec<char>| w@)
}

/// The first of `words` (in listed order) that occurs bounded at `i`.
pub open spec fn word_idx_at(s: Seq<char>, words: Seq<Seq<char>>, i: int, b: int) -> Option<int>
    decreases words.len() - b,
{
    if !(0 <= b && b < words.len()) {
        None
    } else if bounded_at(s, i, words[b]) {
        Some(b)
    } else {
        word_idx_at(s, words, i, b + 1)
    }
}

/// The leftmost bounded occurrence of any of `words`; earlier positions
/// win, and at one position the earlier word in the list wins.
pub open spec fn first_word_from(s: Seq<char>, words: Seq<Seq<char>>, i: int) -> Option<int>
    decreases s.len() - i,
{
    if !(0 <= i && i < s.len()) {
        None
    } else {
        match word_idx_at(s, words, i, 0) {
            Some(b) => Some(b),
            None => first_word_from(s, words, i + 1),
        }
    }
}

pub fn find_first_word(s: &Vec<char>, words: &Vec<Vec<char>>) -> (r: Option<usize>)
    ensures
        match r {
            Some(b) => first_word_from(s@, vecs_view(words@), 0) == Some(b as int) && b
                < words@.len(),
            None => first_word_from(s@, vecs_view(words@), 0) is None,
        },
{
    let mut i: usize = 0;
    while i < s.len()
        invariant
            i <= s@.len(),
            first_word_from(s@, vecs_view(words@), 0) == first_word_from(
                s@,
                vecs_view(words@),
                i as int,
            ),
        decreases s@.len() - i,
    {
        let mut b: usize = 0;
        while b < words.len()
            invariant
                b <= words@.len(),
                i <= s@.len(),
                word_idx_at(s@, vecs_view(words@), i as int, 0) == word_idx_at(
                    s@,
                    vecs_view(words@),
                    i as int,
                    b as int,
                ),
            decreases words@.len() - b,
        {
            let w = &words[b];
            assert(vecs_view(words@)[b as int] == w@);
            if occurs_at_exec(s, w, i) && boundary_before_exec(s, i) && boundary_after_exec(
                s,
                i + w.len(),
            ) {
                return Some(b);
            }
            b = b + 1;
        }
        assert(word_idx_at(s@, vecs_view(words@), i as int, b as int) is None);
        i = i + 1;
    }
    None
}

} // verus!


