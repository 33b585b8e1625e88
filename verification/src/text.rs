//! Basic text machinery shared by the whole library: ASCII character
//! classes, substring search, case folding, find-and-replace, hexadecimal
//! rendering, and duplicate-free insertion into string vectors.
//! Text is handled as vectors of characters so that every operation has an
//! exact sequence-level specification.
use vstd::prelude::*;

verus! {

// ---------------------------------------------------------------------------
// Character classes
// ---------------------------------------------------------------------------

pub open spec fn is_digit(c: char) -> bool {
    '0' <= c && c <= '9'
}

pub open spec fn is_upper(c: char) -> bool {
    'A' <= c && c <= 'Z'
}

pub open spec fn is_lower_alpha(c: char) -> bool {
    'a' <= c && c <= 'z'
}

pub open spec fn is_alpha(c: char) -> bool {
    is_upper(c) || is_lower_alpha(c)
}

pub open spec fn is_alnum(c: char) -> bool {
    is_alpha(c) || is_digit(c)
}

/// A word character for the purpose of word-boundary checks.
pub open spec fn is_word(c: char) -> bool {
    is_alnum(c) || c == '_'
}

/// ASCII whitespace.
pub open spec fn is_space(c: char) -> bool {
    c == ' ' || c == '\t' || c == '\n' || c == '\r' || c == '\u{b}' || c == '\u{c}'
}

pub fn digit(c: char) -> (b: bool)
    ensures
        b == is_digit(c),
{
    '0' <= c && c <= '9'
}

pub fn alpha(c: char) -> (b: bool)
    ensures
        b == is_alpha(c),
{
    ('A' <= c && c <= 'Z') || ('a' <= c && c <= 'z')
}

pub fn alnum(c: char) -> (b: bool)
    ensures
        b == is_alnum(c),
{
    alpha(c) || digit(c)
}

pub fn word(c: char) -> (b: bool)
    ensures
        b == is_word(c),
{
    alnum(c) || c == '_'
}

pub fn space(c: char) -> (b: bool)
    ensures
        b == is_space(c),
{
    c == ' ' || c == '\t' || c == '\n' || c == '\r' || c == '\u{b}' || c == '\u{c}'
}

// ---------------------------------------------------------------------------
// Case folding (ASCII)
// ---------------------------------------------------------------------------

pub open spec fn lower_char(c: char) -> char {
    if is_upper(c) {
        (((c as u8) + 32) as u8) as char
    } else {
        c
    }
}

pub open spec fn lower(s: Seq<char>) -> Seq<char> {
    s.map_values(|c: char| lower_char(c))
}

pub fn lower_char_exec(c: char) -> (r: char)
    ensures
        r == lower_char(c),
{
    if 'A' <= c && c <= 'Z' {
        ((c as u8) + 32) as char
    } else {
        c
    }
}

pub fn to_lower(s: &Vec<char>) -> (r: Vec<char>)
    ensures
        r@ == lower(s@),
{
    let mut r: Vec<char> = Vec::new();
    let mut i: usize = 0;
    while i < s.len()
        invariant
            i <= s.len(),
            r@ == lower(s@.take(i as int)),
        decreases s.len() - i,
    {
        let c = lower_char_exec(s[i]);
        r.push(c);
        assert(lower(s@.take(i as int + 1)) =~= lower(s@.take(i as int)).push(
            lower_char(s@[i as int]),
        ));
        i = i + 1;
    }
    assert(s@.take(s@.len() as int) =~= s@);
    r
}

// ---------------------------------------------------------------------------
// Substring search
// ---------------------------------------------------------------------------

/// `needle` occurs in `hay` starting at index `i`.
pub open spec fn occurs_at(hay: Seq<char>, needle: Seq<char>, i: int) -> bool {
    0 <= i && i + needle.len() <= hay.len() && hay.subrange(i, i + needle.len()) == needle
}

pub open spec fn contains_seq(hay: Seq<char>, needle: Seq<char>) -> bool {
    exists|i: int| occurs_at(hay, needle, i)
}

/// Index of the first occurrence of `needle` in `hay` at or after `i`.
pub open spec fn find_first(hay: Seq<char>, needle: Seq<char>, i: int) -> Option<int>
    decreases hay.len() + 1 - i,
{
    if i < 0 {
        None
    } else if i + needle.len() > hay.len() {
        None
    } else if occurs_at(hay, needle, i) {
        Some(i)
    } else {
        find_first(hay, needle, i + 1)
    }
}

pub proof fn lemma_find_first(hay: Seq<char>, needle: Seq<char>, i: int)
    requires
        0 <= i,
    ensures
        match find_first(hay, needle, i) {
            Some(k) => i <= k && occurs_at(hay, needle, k) && forall|j: int|
                i <= j < k ==> !occurs_at(hay, needle, j),
            None => forall|j: int| i <= j ==> !occurs_at(hay, needle, j),
        },
    decreases hay.len() + 1 - i,
{
    if i + needle.len() > hay.len() {
    } else if occurs_at(hay, needle, i) {
    } else {
        lemma_find_first(hay, needle, i + 1);
    }
}

/// The first-occurrence characterisation pins `find_first` down.
pub proof fn lemma_find_first_is(hay: Seq<char>, needle: Seq<char>, from: int, k: int)
    requires
        0 <= from <= k,
        occurs_at(hay, needle, k),
        forall|j: int| from <= j < k ==> !occurs_at(hay, needle, j),
    ensures
        find_first(hay, needle, from) == Some(k),
    decreases k - from,
{
    if from == k {
    } else {
        lemma_find_first_is(hay, needle, from + 1, k);
    }
}

/// Occurrences in a suffix correspond to shifted occurrences in the whole.
pub proof fn lemma_occurs_skip(hay: Seq<char>, needle: Seq<char>, pos: int, j: int)
    requires
        0 <= pos <= hay.len(),
        pos <= j,
    ensures
        occurs_at(hay, needle, j) == occurs_at(hay.skip(pos), needle, j - pos),
{
    if j + needle.len() <= hay.len() {
        assert(hay.skip(pos).subrange(j - pos, j - pos + needle.len()) =~= hay.subrange(
            j,
            j + needle.len(),
        ));
    }
}

pub proof fn lemma_find_skip(hay: Seq<char>, needle: Seq<char>, pos: int)
    requires
        0 <= pos <= hay.len(),
    ensures
        match find_first(hay, needle, pos) {
            Some(i) => find_first(hay.skip(pos), needle, 0) == Some(i - pos),
            None => find_first(hay.skip(pos), needle, 0) is None,
        },
{
    lemma_find_first(hay, needle, pos);
    match find_first(hay, needle, pos) {
        Some(i) => {
            lemma_occurs_skip(hay, needle, pos, i);
            assert forall|j: int| 0 <= j < i - pos implies !occurs_at(
                hay.skip(pos),
                needle,
                j,
            ) by {
                lemma_occurs_skip(hay, needle, pos, j + pos);
            }
            lemma_find_first_is(hay.skip(pos), needle, 0, i - pos);
        },
        None => {
            lemma_find_first(hay.skip(pos), needle, 0);
            if find_first(hay.skip(pos), needle, 0) is Some {
                let k = find_first(hay.skip(pos), needle, 0)->Some_0;
                lemma_occurs_skip(hay, needle, pos, k + pos);
            }
        },
    }
}

/// Whether `needle` occurs at exactly position `i` of `hay`.
pub fn occurs_at_exec(hay: &Vec<char>, needle: &Vec<char>, i: usize) -> (b: bool)
    requires
        i <= hay@.len(),
    ensures
        b == occurs_at(hay@, needle@, i as int),
{
    if needle.len() > hay.len() - i {
        assert(!occurs_at(hay@, needle@, i as int));
        return false;
    }
    let mut j: usize = 0;
    while j < needle.len()
        invariant
            j <= needle.len(),
            i + needle.len() <= hay.len(),
            forall|k: int| 0 <= k < j ==> hay@[i + k] == needle@[k],
        decreases needle.len() - j,
    {
        if hay[i + j] != needle[j] {
            assert(hay@.subrange(i as int, i + needle@.len()) != needle@) by {
                assert(hay@.subrange(i as int, i + needle@.len())[j as int] == hay@[i + j]);
            }
            return false;
        }
        j = j + 1;
    }
    assert(hay@.subrange(i as int, i + needle@.len()) =~= needle@);
    true
}

/// First occurrence of `needle` in `hay` at or after `from`.
pub fn find_sub_from(hay: &Vec<char>, needle: &Vec<char>, from: usize) -> (r: Option<usize>)
    requires
        from <= hay@.len(),
    ensures
        match r {
            Some(k) => find_first(hay@, needle@, from as int) == Some(k as int) && from <= k
                && k + needle@.len() <= hay@.len(),
            None => find_first(hay@, needle@, from as int) is None,
        },
{
    let mut i: usize = from;
    while i <= hay.len()
        invariant
            from <= i,
            i <= hay.len() + 1,
            find_first(hay@, needle@, from as int) == find_first(hay@, needle@, i as int),
        decreases hay.len() + 1 - i,
    {
        if needle.len() > hay.len() - i {
            assert(find_first(hay@, needle@, i as int) is None);
            return None;
        }
        if occurs_at_exec(hay, needle, i) {
            return Some(i);
        }
        assert(i < hay.len()) by {
            if i == hay@.len() {
                assert(hay@.subrange(i as int, i as int) =~= needle@);
            }
        }
        i = i + 1;
    }
    assert(find_first(hay@, needle@, i as int) is None);
    None
}

pub fn contains_sub(hay: &Vec<char>, needle: &Vec<char>) -> (b: bool)
    ensures
        b == contains_seq(hay@, needle@),
{
    let r = find_sub_from(hay, needle, 0);
    proof {
        lemma_find_first(hay@, needle@, 0);
        if find_first(hay@, needle@, 0) is None {
            assert forall|i: int| !occurs_at(hay@, needle@, i) by {
                if 0 <= i {
                    assert(!occurs_at(hay@, needle@, i));
                }
            }
        }
    }
    r.is_some()
}

/// `pre` is a prefix of `s`.
pub open spec fn has_prefix(s: Seq<char>, pre: Seq<char>) -> bool {
    pre.len() <= s.len() && s.subrange(0, pre.len() as int) == pre
}

pub fn starts_with(s: &Vec<char>, pre: &Vec<char>) -> (b: bool)
    ensures
        b == has_prefix(s@, pre@),
{
    let b = occurs_at_exec(s, pre, 0);
    assert(occurs_at(s@, pre@, 0) == has_prefix(s@, pre@));
    b
}

/// `suf` is a suffix of `s`.
pub open spec fn has_suffix(s: Seq<char>, suf: Seq<char>) -> bool {
    suf.len() <= s.len() && s.subrange(s.len() - suf.len(), s.len() as int) == suf
}

pub fn ends_with(s: &Vec<char>, suf: &Vec<char>) -> (b: bool)
    ensures
        b == has_suffix(s@, suf@),
{
    if suf.len() > s.len() {
        return false;
    }
    let b = occurs_at_exec(s, suf, s.len() - suf.len());
    assert(occurs_at(s@, suf@, s@.len() - suf@.len()) == has_suffix(s@, suf@));
    b
}

// ---------------------------------------------------------------------------
// Vector building helpers
// ---------------------------------------------------------------------------

/// Append `s[a..b]` to `out`.
pub fn append_range(out: &mut Vec<char>, s: &Vec<char>, a: usize, b: usize)
    requires
        a <= b,
        b <= s@.len(),
    ensures
        final(out)@ == old(out)@ + s@.subrange(a as int, b as int),
{
    let mut k: usize = a;
    while k < b
        invariant
            a <= k <= b,
            out@ == old(out)@ + s@.subrange(a as int, k as int),
        decreases b - k,
    {
        out.push(s[k]);
        assert(s@.subrange(a as int, k as int + 1) =~= s@.subrange(a as int, k as int).push(
            s@[k as int],
        ));
        assert(out@ =~= old(out)@ + s@.subrange(a as int, k as int + 1));
        k = k + 1;
    }
}

/// Append all of `v` to `out`.
pub fn append_vec(out: &mut Vec<char>, v: &Vec<char>)
    ensures
        final(out)@ == old(out)@ + v@,
{
    append_range(out, v, 0, v.len());
    assert(v@.subrange(0, v@.len() as int) =~= v@);
}

// ---------------------------------------------------------------------------
// Find-and-replace (all non-overlapping occurrences, left to right)
// ---------------------------------------------------------------------------

pub open spec fn replace_spec(s: Seq<char>, from: Seq<char>, to: Seq<char>) -> Seq<char>
    decreases s.len(),
{
    if from.len() == 0 {
        s
    } else {
        match find_first(s, from, 0) {
            Some(i) => if 0 <= i && i + from.len() <= s.len() {
                s.take(i) + to + replace_spec(s.skip(i + from.len()), from, to)
            } else {
                s
            },
            None => s,
        }
    }
}

pub fn replace_all(s: &Vec<char>, from: &Vec<char>, to: &Vec<char>) -> (r: Vec<char>)
    requires
        from@.len() > 0,
    ensures
        r@ == replace_spec(s@, from@, to@),
{
    let mut out: Vec<char> = Vec::new();
    let mut pos: usize = 0;
    assert(s@.skip(0) =~= s@);
    assert(replace_spec(s@, from@, to@) == out@ + replace_spec(s@.skip(0), from@, to@));
    loop
        invariant
            pos <= s@.len(),
            replace_spec(s@, from@, to@) == out@ + replace_spec(s@.skip(pos as int), from@, to@),
        decreases s@.len() - pos,
    {
        let found = find_sub_from(s, from, pos);
        proof {
            lemma_find_skip(s@, from@, pos as int);
        }
        match found {
            Some(i) => {
                proof {
                    lemma_find_first(s@, from@, pos as int);
                    // unfold replace_spec on the suffix
                    let suf = s@.skip(pos as int);
                    assert(find_first(suf, from@, 0) == Some(i - pos));
                    assert(suf.take(i - pos) =~= s@.subrange(pos as int, i as int));
                    assert(suf.skip(i - pos + from@.len()) =~= s@.skip(i + from@.len()));
                    assert(replace_spec(suf, from@, to@) == s@.subrange(pos as int, i as int)
                        + to@ + replace_spec(s@.skip(i + from@.len()), from@, to@));
                }
                append_range(&mut out, s, pos, i);
                append_vec(&mut out, to);
                let n = s.len();
                assert(i + from@.len() <= n);
                pos = i + from.len();
            },
            None => {
                proof {
                    let suf = s@.skip(pos as int);
                    assert(replace_spec(suf, from@, to@) == suf);
                }
                let ghost old_out = out@;
                append_range(&mut out, s, pos, s.len());
                assert(s@.subrange(pos as int, s@.len() as int) =~= s@.skip(pos as int));
                return out;
            },
        }
    }
}

// ---------------------------------------------------------------------------
// Hexadecimal rendering
// ---------------------------------------------------------------------------

/// The lower-case hexadecimal digit for a value below 16.
pub open spec fn hex_digit(n: int) -> char {
    if n < 10 {
        ((0x30 + n) as u8) as char
    } else {
        ((0x57 + n) as u8) as char
    }
}

/// Lower-case hexadecimal rendering of a byte string, two digits per byte.
pub open spec fn hex_of(b: Seq<u8>) -> Seq<char>
    decreases b.len(),
{
    if b.len() == 0 {
        Seq::empty()
    } else {
        hex_of(b.drop_last()) + seq![
            hex_digit(b.last() as int / 16),
            hex_digit(b.last() as int % 16),
        ]
    }
}

fn hex_digit_exec(n: u8) -> (c: char)
    requires
        n < 16,
    ensures
        c == hex_digit(n as int),
{
    if n < 10 {
        (0x30 + n) as char
    } else {
        (0x57 + n) as char
    }
}

pub fn hex_encode(b: &Vec<u8>) -> (r: Vec<char>)
    ensures
        r@ == hex_of(b@),
{
    let mut r: Vec<char> = Vec::new();
    let mut i: usize = 0;
    while i < b.len()
        invariant
            i <= b.len(),
            r@ == hex_of(b@.take(i as int)),
        decreases b.len() - i,
    {
        let x = b[i];
        r.push(hex_digit_exec(x / 16));
        r.push(hex_digit_exec(x % 16));
        proof {
            let t = b@.take(i as int + 1);
            assert(t.drop_last() =~= b@.take(i as int));
            assert(t.last() == b@[i as int]);
        }
        i = i + 1;
    }
    assert(b@.take(b@.len() as int) =~= b@);
    r
}

// ---------------------------------------------------------------------------
// Duplicate-free string vectors
// ---------------------------------------------------------------------------

/// No two entries hold the same text.
pub open spec fn views_distinct(v: Seq<String>) -> bool {
    forall|i: int, j: int| 0 <= i < j < v.len() ==> v[i]@ != v[j]@
}

pub open spec fn has_view(v: Seq<String>, s: Seq<char>) -> bool {
    exists|i: int| 0 <= i < v.len() && v[i]@ == s
}

/// The texts of a vector of strings.
pub open spec fn strs_view(v: Seq<String>) -> Seq<Seq<char>> {
    v.map_values(|s: String| s@)
}

pub open spec fn seq_has(acc: Seq<Seq<char>>, x: Seq<char>) -> bool {
    exists|i: int| 0 <= i < acc.len() && acc[i] == x
}

/// Insertion into a duplicate-free sequence.
pub open spec fn add_unique(acc: Seq<Seq<char>>, x: Seq<char>) -> Seq<Seq<char>> {
    if seq_has(acc, x) {
        acc
    } else {
        acc.push(x)
    }
}

pub fn chars_equal(a: &Vec<char>, b: &Vec<char>) -> (r: bool)
    ensures
        r == (a@ == b@),
{
    if a.len() != b.len() {
        return false;
    }
    let r = occurs_at_exec(a, b, 0);
    proof {
        if occurs_at(a@, b@, 0) {
            assert(a@.subrange(0, b@.len() as int) =~= a@);
        } else {
            if a@ == b@ {
                assert(a@.subrange(0, b@.len() as int) =~= b@);
            }
        }
    }
    r
}

pub fn contains_string(v: &Vec<String>, s: &String) -> (b: bool)
    ensures
        b == has_view(v@, s@),
{
    let mut i: usize = 0;
    while i < v.len()
        invariant
            i <= v.len(),
            forall|j: int| 0 <= j < i ==> v@[j]@ != s@,
        decreases v.len() - i,
    {
        if v[i].eq(s) {
            return true;
        }
        i = i + 1;
    }
    false
}

/// Insert `s` unless an entry with the same text is already present.
pub fn insert_unique(v: &mut Vec<String>, s: String)
    ensures
        final(v)@ == if has_view(old(v)@, s@) {
            old(v)@
        } else {
            old(v)@.push(s)
        },
        views_distinct(old(v)@) ==> views_distinct(final(v)@),
        has_view(final(v)@, s@),
        forall|t: Seq<char>| has_view(final(v)@, t) == (has_view(old(v)@, t) || t == s@),
        strs_view(final(v)@) == add_unique(strs_view(old(v)@), s@),
{
    proof {
        if has_view(v@, s@) {
            let i = choose|i: int| 0 <= i < v@.len() && v@[i]@ == s@;
            assert(strs_view(v@)[i] == s@);
        }
        if seq_has(strs_view(v@), s@) {
            let i = choose|i: int| 0 <= i < strs_view(v@).len() && strs_view(v@)[i] == s@;
            assert(v@[i]@ == s@);
        }
    }
    let ghost oldview = strs_view(v@);
    let ghost sv = s@;
    let present = contains_string(v, &s);
    if !present {
        let ghost oldv = v@;
        v.push(s);
        assert forall|t: Seq<char>| has_view(v@, t) == (has_view(oldv, t) || t == s@) by {
            if has_view(oldv, t) {
                let i = choose|i: int| 0 <= i < oldv.len() && oldv[i]@ == t;
                assert(v@[i]@ == t);
            }
            if t == s@ {
                assert(v@[v@.len() - 1]@ == t);
            }
            if has_view(v@, t) {
                let i = choose|i: int| 0 <= i < v@.len() && v@[i]@ == t;
                if i < v@.len() - 1 {
                    assert(oldv[i]@ == t);
                }
            }
        }
        assert(strs_view(v@) =~= oldview.push(sv));
    } else {
        assert(strs_view(v@) =~= oldview);
    }
}

// ---------------------------------------------------------------------------
// Conversions between `String` and `Vec<char>`
// ---------------------------------------------------------------------------

pub fn to_chars(s: &str) -> (r: Vec<char>)
    ensures
        r@ == s@,
{
    let n = s.unicode_len();
    let mut r: Vec<char> = Vec::new();
    let mut i: usize = 0;
    while i < n
        invariant
            i <= n,
            n == s@.len(),
            r@ == s@.take(i as int),
        decreases n - i,
    {
        let c = s.get_char(i);
        r.push(c);
        assert(s@.take(i as int + 1) =~= s@.take(i as int).push(s@[i as int]));
        i = i + 1;
    }
    assert(s@.take(s@.len() as int) =~= s@);
    r
}

/// Relies on `String`'s `FromIterator<char>` implementation: collecting an
/// iterator of characters yields the string of exactly those characters in
/// order.
#[verifier::external_body]
pub fn from_chars(v: &Vec<char>) -> (r: String)
    ensures
        r@ == v@,
{
    v.iter().collect()
}

} // verus!
