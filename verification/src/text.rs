//! Character-level string operations with their specifications.
//!
//! Every string is modelled by its sequence of Unicode scalar values
//! (`Seq<char>`, the view that vstd gives `str` and `String`).
use vstd::prelude::*;

verus! {

// ---------------------------------------------------------------------------
// Specifications
// ---------------------------------------------------------------------------

/// `p` is a prefix of `s`.
pub open spec fn is_prefix(p: Seq<char>, s: Seq<char>) -> bool {
    p.len() <= s.len() && s.subrange(0, p.len() as int) == p
}

/// `p` occurs in `s` starting at index `i`.
pub open spec fn occurs_at(s: Seq<char>, p: Seq<char>, i: int) -> bool {
    0 <= i && i + p.len() <= s.len() && s.subrange(i, i + p.len()) == p
}

/// `p` occurs somewhere in `s` (the empty pattern occurs in every string).
pub open spec fn contains(s: Seq<char>, p: Seq<char>) -> bool {
    exists|i: int| occurs_at(s, p, i)
}

/// `i` is the first index at which `p` occurs in `s`.
pub open spec fn first_occurrence(s: Seq<char>, p: Seq<char>, i: int) -> bool {
    occurs_at(s, p, i) && forall|j: int| 0 <= j < i ==> !occurs_at(s, p, j)
}

/// The index of the first occurrence of `p` in `s`, if any.
pub open spec fn find(s: Seq<char>, p: Seq<char>) -> Option<int> {
    if contains(s, p) {
        Some(choose|i: int| first_occurrence(s, p, i))
    } else {
        None
    }
}

/// `s` with every occurrence of the non-empty pattern `pat`, scanned from the
/// left without overlap, replaced by `rep` (what `str::replace` computes).
pub open spec fn replace_all(s: Seq<char>, pat: Seq<char>, rep: Seq<char>) -> Seq<char>
    decreases s.len(),
{
    if s.len() == 0 || pat.len() == 0 {
        s
    } else if is_prefix(pat, s) {
        rep + replace_all(s.subrange(pat.len() as int, s.len() as int), pat, rep)
    } else {
        seq![s[0]] + replace_all(s.subrange(1, s.len() as int), pat, rep)
    }
}

/// `s` with every occurrence of the character `from` replaced by `to`.
pub open spec fn replace_char(s: Seq<char>, from: char, to: char) -> Seq<char> {
    s.map_values(|c: char| if c == from { to } else { c })
}

/// The part of `s` before the first occurrence of `sep` (all of `s` when
/// `sep` does not occur): the first item of `s.split(sep)`.
pub open spec fn first_segment(s: Seq<char>, sep: char) -> Seq<char> {
    match find(s, seq![sep]) {
        Some(i) => s.subrange(0, i),
        None => s,
    }
}


/// The first occurrence is unique, so `find` names it.
pub proof fn lemma_find_is_first(s: Seq<char>, p: Seq<char>, i: int)
    requires
        first_occurrence(s, p, i),
    ensures
        find(s, p) == Some(i),
{
    let j = choose|j: int| first_occurrence(s, p, j);
    assert(first_occurrence(s, p, j));
    if j < i {
        assert(!occurs_at(s, p, j));
    }
    if i < j {
        assert(!occurs_at(s, p, i));
    }
}

// ---------------------------------------------------------------------------
// Executable operations on character vectors
// ---------------------------------------------------------------------------

/// Appends one character to a string.
///
/// Wraps `String::push`, whose documentation says it appends the given `char`
/// to the end of the string; the contract claims exactly that.
#[verifier::external_body]
fn push_char(s: &mut String, c: char)
    ensures
        final(s)@ == old(s)@.push(c),
{
    s.push(c);
}

/// The characters of `s`, in order.
pub fn chars_of(s: &str) -> (out: Vec<char>)
    ensures
        out@ == s@,
{
    let mut out: Vec<char> = Vec::new();
    for c in it: s.chars()
        invariant
            out@ == it.seq().take(it.index() as int),
            it.seq() == s@,
    {
        out.push(c);
    }
    out
}

/// The string whose characters are `v`, in order.
pub fn string_of(v: &Vec<char>) -> (out: String)
    ensures
        out@ == v@,
{
    let mut out = String::new();
    let mut i: usize = 0;
    while i < v.len()
        invariant
            i <= v.len(),
            out@ == v@.take(i as int),
        decreases v.len() - i,
    {
        push_char(&mut out, v[i]);
        i = i + 1;
    }
    out
}

/// Appends the characters of `w` to `v`.
pub fn extend_chars(v: &mut Vec<char>, w: &Vec<char>)
    ensures
        final(v)@ == old(v)@ + w@,
{
    let mut i: usize = 0;
    while i < w.len()
        invariant
            i <= w.len(),
            v@ == old(v)@ + w@.take(i as int),
        decreases w.len() - i,
    {
        v.push(w[i]);
        i = i + 1;
    }
}

/// Whether `p` occurs in `s` at index `i`.
pub fn matches_at(s: &Vec<char>, p: &Vec<char>, i: usize) -> (r: bool)
    ensures
        r == occurs_at(s@, p@, i as int),
{
    if i > s.len() || p.len() > s.len() - i {
        return false;
    }
    let mut k: usize = 0;
    while k < p.len()
        invariant
            k <= p.len(),
            i + p.len() <= s.len(),
            forall|m: int| 0 <= m < k ==> s@[i + m] == p@[m],
        decreases p.len() - k,
    {
        if s[i + k] != p[k] {
            assert(s@.subrange(i as int, i + p.len())[k as int] != p@[k as int]);
            return false;
        }
        k = k + 1;
    }
    assert(s@.subrange(i as int, i + p.len()) =~= p@);
    true
}

/// The index of the first occurrence of `p` in `s`.
pub fn find_chars(s: &Vec<char>, p: &Vec<char>) -> (r: Option<usize>)
    ensures
        r matches Some(i) ==> first_occurrence(s@, p@, i as int) && find(s@, p@) == Some(i as int),
        r is None ==> !contains(s@, p@) && find(s@, p@) is None,
{
    if p.len() > s.len() {
        assert(!contains(s@, p@));
        return None;
    }
    let last = s.len() - p.len();
    let mut i: usize = 0;
    while i < last
        invariant
            last == s.len() - p.len(),
            i <= last,
            forall|j: int| 0 <= j < i ==> !occurs_at(s@, p@, j),
        decreases last - i,
    {
        if matches_at(s, p, i) {
            proof {
                lemma_find_is_first(s@, p@, i as int);
            }
            return Some(i);
        }
        i = i + 1;
    }
    if matches_at(s, p, last) {
        proof {
            lemma_find_is_first(s@, p@, last as int);
        }
        return Some(last);
    }
    assert forall|j: int| !occurs_at(s@, p@, j) by {
        if 0 <= j && j + p@.len() <= s@.len() {
            assert(j <= last);
        }
    }
    assert(!contains(s@, p@));
    None
}

// ---------------------------------------------------------------------------
// Executable operations on strings
// ---------------------------------------------------------------------------

/// Whether `s` begins with `p` (what `str::starts_with` computes).
pub fn starts_with(s: &str, p: &str) -> (r: bool)
    ensures
        r == is_prefix(p@, s@),
{
    let sv = chars_of(s);
    let pv = chars_of(p);
    let r = matches_at(&sv, &pv, 0);
    assert(r == is_prefix(p@, s@));
    r
}

/// Whether `s` contains `p` (what `str::contains` computes).
pub fn contains_str(s: &str, p: &str) -> (r: bool)
    ensures
        r == contains(s@, p@),
{
    let sv = chars_of(s);
    let pv = chars_of(p);
    find_chars(&sv, &pv).is_some()
}

/// Whether `a` and `b` hold the same characters.
pub fn str_eq(a: &str, b: &str) -> (r: bool)
    ensures
        r == (a@ == b@),
{
    let av = chars_of(a);
    let bv = chars_of(b);
    if av.len() != bv.len() {
        return false;
    }
    let r = matches_at(&av, &bv, 0);
    assert(r ==> av@.subrange(0, bv@.len() as int) == bv@);
    assert(av@.subrange(0, av@.len() as int) =~= av@);
    r
}


/// `s` with every occurrence of the non-empty pattern `pat` replaced by `rep`
/// (what `str::replace` computes).
pub fn replace_str(s: &str, pat: &str, rep: &str) -> (r: String)
    requires
        pat@.len() > 0,
    ensures
        r@ == replace_all(s@, pat@, rep@),
{
    let sv = chars_of(s);
    let pv = chars_of(pat);
    let rv = chars_of(rep);
    let n = sv.len();
    let mut out: Vec<char> = Vec::new();
    let mut i: usize = 0;
    assert(sv@.subrange(0, n as int) =~= sv@);
    while i < n
        invariant
            n == sv@.len(),
            pv@.len() > 0,
            i <= n,
            out@ + replace_all(sv@.subrange(i as int, n as int), pv@, rv@) == replace_all(sv@, pv@, rv@),
        decreases n - i,
    {
        let ghost rest = sv@.subrange(i as int, n as int);
        if matches_at(&sv, &pv, i) {
            assert(is_prefix(pv@, rest)) by {
                assert(rest.subrange(0, pv@.len() as int) =~= sv@.subrange(i as int, i + pv@.len()));
            }
            assert(rest.subrange(pv@.len() as int, rest.len() as int) =~= sv@.subrange(i + pv@.len(), n as int));
            extend_chars(&mut out, &rv);
            i = i + pv.len();
            assert(out@ + replace_all(sv@.subrange(i as int, n as int), pv@, rv@) =~= replace_all(sv@, pv@, rv@));
        } else {
            assert(!is_prefix(pv@, rest)) by {
                if is_prefix(pv@, rest) {
                    assert(rest.subrange(0, pv@.len() as int) =~= sv@.subrange(i as int, i + pv@.len()));
                }
            }
            assert(rest.subrange(1, rest.len() as int) =~= sv@.subrange(i + 1, n as int));
            out.push(sv[i]);
            i = i + 1;
            assert(out@ + replace_all(sv@.subrange(i as int, n as int), pv@, rv@) =~= replace_all(sv@, pv@, rv@));
        }
    }
    assert(out@ + replace_all(sv@.subrange(n as int, n as int), pv@, rv@) == out@);
    string_of(&out)
}

/// `s` with every `from` character replaced by `to` (what `str::replace`
/// computes for a single-character pattern).
pub fn replace_char_str(s: &str, from: char, to: char) -> (r: String)
    ensures
        r@ == replace_char(s@, from, to),
{
    let sv = chars_of(s);
    let mut out: Vec<char> = Vec::new();
    let mut i: usize = 0;
    while i < sv.len()
        invariant
            i <= sv.len(),
            out@ == replace_char(sv@.take(i as int), from, to),
        decreases sv.len() - i,
    {
        let c = sv[i];
        if c == from {
            out.push(to);
        } else {
            out.push(c);
        }
        i = i + 1;
        assert(out@ =~= replace_char(sv@.take(i as int), from, to));
    }
    assert(sv@.take(sv@.len() as int) =~= sv@);
    string_of(&out)
}

/// The part of `s` before the first `sep` (what `s.split(sep).next()` yields).
pub fn first_segment_str(s: &str, sep: char) -> (r: String)
    ensures
        r@ == first_segment(s@, sep),
{
    let sv = chars_of(s);
    let mut pv: Vec<char> = Vec::new();
    pv.push(sep);
    assert(pv@ =~= seq![sep]);
    match find_chars(&sv, &pv) {
        Some(i) => {
            let mut out: Vec<char> = Vec::new();
            let mut k: usize = 0;
            while k < i
                invariant
                    k <= i,
                    i <= sv.len(),
                    out@ == sv@.subrange(0, k as int),
                decreases i - k,
            {
                out.push(sv[k]);
                k = k + 1;
                assert(out@ =~= sv@.subrange(0, k as int));
            }
            string_of(&out)
        },
        None => string_of(&sv),
    }
}


// ---------------------------------------------------------------------------
// Whitespace and trimming
// ---------------------------------------------------------------------------

/// The Unicode `White_Space` property of a character (what
/// `char::is_whitespace` reports): U+0009..U+000D, U+0020, U+0085, U+00A0,
/// U+1680, U+2000..U+200A, U+2028, U+2029, U+202F, U+205F and U+3000.
pub open spec fn unicode_white_space(c: char) -> bool {
    let n = c as int;
    (9 <= n && n <= 13) || n == 0x20 || n == 0x85 || n == 0xA0 || n == 0x1680 || (0x2000 <= n && n <= 0x200A)
        || n == 0x2028 || n == 0x2029 || n == 0x202F || n == 0x205F || n == 0x3000
}

/// Reports whether `c` is whitespace.
///
/// Wraps `char::is_whitespace`, documented as the Unicode `White_Space`
/// property; the contract lists the code points that have it.
#[verifier::external_body]
fn is_whitespace_char(c: char) -> (r: bool)
    ensures
        r == unicode_white_space(c),
{
    c.is_whitespace()
}

/// `s` without its leading whitespace.
pub open spec fn trim_start_ws(s: Seq<char>) -> Seq<char>
    decreases s.len(),
{
    if s.len() > 0 && unicode_white_space(s[0]) {
        trim_start_ws(s.subrange(1, s.len() as int))
    } else {
        s
    }
}

/// `s` without its trailing whitespace.
pub open spec fn trim_end_ws(s: Seq<char>) -> Seq<char>
    decreases s.len(),
{
    if s.len() > 0 && unicode_white_space(s.last()) {
        trim_end_ws(s.drop_last())
    } else {
        s
    }
}

/// `s` without leading and trailing whitespace (what `str::trim` computes).
pub open spec fn trim_ws(s: Seq<char>) -> Seq<char> {
    trim_end_ws(trim_start_ws(s))
}

/// Replacing a pattern by something no longer never lengthens the text.
pub proof fn lemma_replace_no_longer(s: Seq<char>, pat: Seq<char>, rep: Seq<char>)
    requires
        rep.len() <= pat.len(),
    ensures
        replace_all(s, pat, rep).len() <= s.len(),
    decreases s.len(),
{
    if s.len() == 0 || pat.len() == 0 {
    } else if is_prefix(pat, s) {
        lemma_replace_no_longer(s.subrange(pat.len() as int, s.len() as int), pat, rep);
    } else {
        lemma_replace_no_longer(s.subrange(1, s.len() as int), pat, rep);
    }
}

proof fn lemma_trim_start_props(s: Seq<char>)
    ensures
        trim_start_ws(s).len() <= s.len(),
        trim_start_ws(s).len() > 0 ==> !unicode_white_space(trim_start_ws(s)[0]),
    decreases s.len(),
{
    if s.len() > 0 && unicode_white_space(s[0]) {
        lemma_trim_start_props(s.subrange(1, s.len() as int));
    }
}

proof fn lemma_trim_end_props(s: Seq<char>)
    ensures
        trim_end_ws(s).len() <= s.len(),
        forall|i: int| 0 <= i < trim_end_ws(s).len() ==> trim_end_ws(s)[i] == s[i],
        trim_end_ws(s).len() > 0 ==> !unicode_white_space(trim_end_ws(s).last()),
    decreases s.len(),
{
    if s.len() > 0 && unicode_white_space(s.last()) {
        lemma_trim_end_props(s.drop_last());
        assert forall|i: int| 0 <= i < trim_end_ws(s).len() implies trim_end_ws(s)[i] == s[i] by {
            assert(trim_end_ws(s)[i] == s.drop_last()[i]);
        }
    }
}

/// The UTF-8 encoding of a concatenation is the concatenation of the
/// encodings.
pub proof fn lemma_utf8_concat(a: Seq<char>, b: Seq<char>)
    ensures
        vstd::utf8::encode_utf8(a + b) == vstd::utf8::encode_utf8(a) + vstd::utf8::encode_utf8(b),
    decreases a.len(),
{
    if a.len() == 0 {
        assert(a + b =~= b);
        assert(vstd::utf8::encode_utf8(a) =~= Seq::<u8>::empty());
        assert(vstd::utf8::encode_utf8(a) + vstd::utf8::encode_utf8(b) =~= vstd::utf8::encode_utf8(b));
    } else {
        assert((a + b).drop_first() =~= a.drop_first() + b);
        assert((a + b)[0] == a[0]);
        lemma_utf8_concat(a.drop_first(), b);
        assert(vstd::utf8::encode_utf8(a + b) =~= vstd::utf8::encode_utf8(a) + vstd::utf8::encode_utf8(b));
    }
}

/// A text is at least as long in bytes as any of its slices.
pub proof fn lemma_utf8_slice_no_longer(s: Seq<char>, i: int, j: int)
    requires
        0 <= i <= j <= s.len(),
    ensures
        vstd::utf8::encode_utf8(s.subrange(i, j)).len() <= vstd::utf8::encode_utf8(s).len(),
{
    let a = s.subrange(0, i);
    let m = s.subrange(i, j);
    let c = s.subrange(j, s.len() as int);
    assert(s =~= a + m + c);
    lemma_utf8_concat(a + m, c);
    lemma_utf8_concat(a, m);
}

/// Replacing a pattern by something no longer in bytes never lengthens the
/// text in bytes.
pub proof fn lemma_replace_utf8_no_longer(s: Seq<char>, pat: Seq<char>, rep: Seq<char>)
    requires
        vstd::utf8::encode_utf8(rep).len() <= vstd::utf8::encode_utf8(pat).len(),
    ensures
        vstd::utf8::encode_utf8(replace_all(s, pat, rep)).len() <= vstd::utf8::encode_utf8(s).len(),
    decreases s.len(),
{
    if s.len() == 0 || pat.len() == 0 {
    } else if is_prefix(pat, s) {
        let rest = s.subrange(pat.len() as int, s.len() as int);
        lemma_replace_utf8_no_longer(rest, pat, rep);
        assert(s =~= pat + rest);
        lemma_utf8_concat(pat, rest);
        lemma_utf8_concat(rep, replace_all(rest, pat, rep));
    } else {
        let rest = s.subrange(1, s.len() as int);
        lemma_replace_utf8_no_longer(rest, pat, rep);
        assert(s =~= seq![s[0]] + rest);
        lemma_utf8_concat(seq![s[0]], rest);
        lemma_utf8_concat(seq![s[0]], replace_all(rest, pat, rep));
    }
}

/// Replacing a pattern that begins with a character the text does not hold
/// leaves the text unchanged.
pub proof fn lemma_replace_absent(s: Seq<char>, pat: Seq<char>, rep: Seq<char>)
    requires
        pat.len() > 0,
        forall|i: int| 0 <= i < s.len() ==> s[i] != pat[0],
    ensures
        replace_all(s, pat, rep) == s,
    decreases s.len(),
{
    if s.len() > 0 {
        assert(!is_prefix(pat, s)) by {
            if is_prefix(pat, s) {
                assert(s.subrange(0, pat.len() as int)[0] == s[0]);
            }
        }
        lemma_replace_absent(s.subrange(1, s.len() as int), pat, rep);
        assert(s =~= seq![s[0]] + s.subrange(1, s.len() as int));
    }
}

proof fn lemma_trim_start_is_suffix(s: Seq<char>) -> (k: int)
    ensures
        0 <= k <= s.len(),
        trim_start_ws(s) == s.subrange(k, s.len() as int),
    decreases s.len(),
{
    if s.len() > 0 && unicode_white_space(s[0]) {
        let t = s.subrange(1, s.len() as int);
        let k1 = lemma_trim_start_is_suffix(t);
        assert(t.subrange(k1, t.len() as int) =~= s.subrange(k1 + 1, s.len() as int));
        k1 + 1
    } else {
        assert(s.subrange(0, s.len() as int) =~= s);
        0
    }
}

proof fn lemma_trim_end_is_prefix(s: Seq<char>) -> (m: int)
    ensures
        0 <= m <= s.len(),
        trim_end_ws(s) == s.subrange(0, m),
    decreases s.len(),
{
    if s.len() > 0 && unicode_white_space(s.last()) {
        let t = s.drop_last();
        let m1 = lemma_trim_end_is_prefix(t);
        assert(t.subrange(0, m1) =~= s.subrange(0, m1));
        m1
    } else {
        assert(s.subrange(0, s.len() as int) =~= s);
        s.len() as int
    }
}

/// Trimming never lengthens a text in bytes.
pub proof fn lemma_trim_utf8_no_longer(s: Seq<char>)
    ensures
        vstd::utf8::encode_utf8(trim_ws(s)).len() <= vstd::utf8::encode_utf8(s).len(),
{
    let k = lemma_trim_start_is_suffix(s);
    let a = trim_start_ws(s);
    let m = lemma_trim_end_is_prefix(a);
    lemma_utf8_slice_no_longer(s, k, s.len() as int);
    lemma_utf8_slice_no_longer(a, 0, m);
}

/// Text that cannot start the pattern passes through a replacement in
/// front of the rest.
pub proof fn lemma_replace_after_plain(a: Seq<char>, c: Seq<char>, pat: Seq<char>, rep: Seq<char>)
    requires
        pat.len() > 0,
        forall|i: int| 0 <= i < a.len() ==> a[i] != pat[0],
    ensures
        replace_all(a + c, pat, rep) == a + replace_all(c, pat, rep),
    decreases a.len(),
{
    if a.len() == 0 {
        assert(a + c =~= c);
        assert(a + replace_all(c, pat, rep) =~= replace_all(c, pat, rep));
    } else {
        let s = a + c;
        assert(!is_prefix(pat, s)) by {
            if is_prefix(pat, s) {
                assert(s.subrange(0, pat.len() as int)[0] == s[0]);
            }
        }
        let a1 = a.subrange(1, a.len() as int);
        assert(s.subrange(1, s.len() as int) =~= a1 + c);
        lemma_replace_after_plain(a1, c, pat, rep);
        assert(seq![s[0]] + (a1 + replace_all(c, pat, rep)) =~= a + replace_all(c, pat, rep));
    }
}

/// The pattern in front of text that cannot start it is replaced once.
pub proof fn lemma_replace_hit(b: Seq<char>, pat: Seq<char>, rep: Seq<char>)
    requires
        pat.len() > 0,
        forall|i: int| 0 <= i < b.len() ==> b[i] != pat[0],
    ensures
        replace_all(pat + b, pat, rep) == rep + b,
{
    let s = pat + b;
    assert(s.subrange(0, pat.len() as int) =~= pat);
    assert(s.subrange(pat.len() as int, s.len() as int) =~= b);
    lemma_replace_absent(b, pat, rep);
}

/// Text that does not start with the pattern and holds its first character
/// only in front is left as it is.
pub proof fn lemma_replace_miss(c: Seq<char>, pat: Seq<char>, rep: Seq<char>)
    requires
        pat.len() > 0,
        c.len() > 0,
        !is_prefix(pat, c),
        forall|i: int| 1 <= i < c.len() ==> c[i] != pat[0],
    ensures
        replace_all(c, pat, rep) == c,
{
    let c1 = c.subrange(1, c.len() as int);
    lemma_replace_absent(c1, pat, rep);
    assert(seq![c[0]] + c1 =~= c);
}

/// Trimming is idempotent, and never lengthens the text.
pub proof fn lemma_trim_idempotent(s: Seq<char>)
    ensures
        trim_ws(s).len() <= s.len(),
        trim_ws(trim_ws(s)) == trim_ws(s),
{
    let a = trim_start_ws(s);
    let t = trim_end_ws(a);
    lemma_trim_start_props(s);
    lemma_trim_end_props(a);
    assert(t.len() > 0 ==> t[0] == a[0]);
    assert(trim_start_ws(t) == t);
    assert(trim_end_ws(t) == t);
}

/// `s` without leading and trailing whitespace.
pub fn trim_str(s: &str) -> (r: String)
    ensures
        r@ == trim_ws(s@),
{
    let sv = chars_of(s);
    let n = sv.len();
    let mut i: usize = 0;
    assert(sv@.subrange(0, n as int) =~= sv@);
    while i < n && is_whitespace_char(sv[i])
        invariant
            n == sv@.len(),
            i <= n,
            trim_start_ws(sv@.subrange(i as int, n as int)) == trim_start_ws(sv@),
        decreases n - i,
    {
        assert(sv@.subrange(i as int, n as int).subrange(1, (n - i) as int) =~= sv@.subrange(i + 1, n as int));
        i = i + 1;
    }
    assert(trim_start_ws(sv@) == sv@.subrange(i as int, n as int));
    let mut j: usize = n;
    while j > i && is_whitespace_char(sv[j - 1])
        invariant
            n == sv@.len(),
            i <= j <= n,
            trim_end_ws(sv@.subrange(i as int, j as int)) == trim_ws(sv@),
        decreases j - i,
    {
        assert(sv@.subrange(i as int, j as int).drop_last() =~= sv@.subrange(i as int, j - 1));
        j = j - 1;
    }
    let mut out: Vec<char> = Vec::new();
    let mut k: usize = i;
    while k < j
        invariant
            i <= k <= j,
            j <= n,
            n == sv@.len(),
            out@ == sv@.subrange(i as int, k as int),
        decreases j - k,
    {
        out.push(sv[k]);
        k = k + 1;
        assert(out@ =~= sv@.subrange(i as int, k as int));
    }
    string_of(&out)
}

/// Whether `s` is empty once whitespace is trimmed (`s.trim().is_empty()`).
pub fn is_blank(s: &str) -> (r: bool)
    ensures
        r == (trim_ws(s@).len() == 0),
{
    let t = trim_str(s);
    t.as_str().unicode_len() == 0
}


// ---------------------------------------------------------------------------
// Numbers as text
// ---------------------------------------------------------------------------

/// The ASCII character of the decimal digit `d` (`0 <= d < 10`).
pub open spec fn digit_char(d: nat) -> char {
    ((48 + d) as u8) as char
}

/// The decimal representation of `n`, without sign or leading zeros.
pub open spec fn decimal(n: nat) -> Seq<char>
    decreases n,
{
    if n < 10 {
        seq![digit_char(n)]
    } else {
        decimal(n / 10).push(digit_char(n % 10))
    }
}

/// The decimal representation of the signed integer `n` (what `Display`
/// writes for an integer): a `-` before the digits of a negative number.
pub open spec fn signed_decimal(n: int) -> Seq<char> {
    if n < 0 {
        seq!['-'] + decimal((-n) as nat)
    } else {
        decimal(n as nat)
    }
}

fn digit(d: u64) -> (c: char)
    requires
        d < 10,
    ensures
        c == digit_char(d as nat),
{
    ((d as u8) + 48u8) as char
}

fn push_decimal(out: &mut Vec<char>, n: u64)
    ensures
        final(out)@ == old(out)@ + decimal(n as nat),
    decreases n,
{
    if n >= 10 {
        push_decimal(out, n / 10);
    }
    out.push(digit(n % 10));
    assert(final(out)@ =~= old(out)@ + decimal(n as nat));
}

/// The decimal representation of `n`.
pub fn u64_to_decimal(n: u64) -> (r: String)
    ensures
        r@ == decimal(n as nat),
{
    let mut out: Vec<char> = Vec::new();
    push_decimal(&mut out, n);
    assert(out@ =~= decimal(n as nat));
    string_of(&out)
}

/// The decimal representation of the signed `n`.
pub fn i64_to_decimal(n: i64) -> (r: String)
    ensures
        r@ == signed_decimal(n as int),
{
    let mut out: Vec<char> = Vec::new();
    if n < 0 {
        out.push('-');
        let m: u64 = if n == i64::MIN {
            9223372036854775808u64
        } else {
            (-n) as u64
        };
        push_decimal(&mut out, m);
    } else {
        push_decimal(&mut out, n as u64);
    }
    assert(out@ =~= signed_decimal(n as int));
    string_of(&out)
}

/// The lower-case hexadecimal digit of `d` (`0 <= d < 16`).
pub open spec fn hex_digit_char(d: nat) -> char {
    if d < 10 {
        ((48 + d) as u8) as char
    } else {
        ((87 + d) as u8) as char
    }
}

/// Each byte as two lower-case hexadecimal digits (what formatting every
/// byte with `{:02x}` and concatenating gives).
pub open spec fn hex_lower(bytes: Seq<u8>) -> Seq<char>
    decreases bytes.len(),
{
    if bytes.len() == 0 {
        seq![]
    } else {
        hex_lower(bytes.drop_last()) + seq![
            hex_digit_char((bytes.last() / 16) as nat),
            hex_digit_char((bytes.last() % 16) as nat),
        ]
    }
}

fn hex_digit(d: u8) -> (c: char)
    requires
        d < 16,
    ensures
        c == hex_digit_char(d as nat),
{
    if d < 10 {
        (d + 48u8) as char
    } else {
        (d + 87u8) as char
    }
}

/// The bytes as a lower-case hexadecimal string, two digits per byte.
pub fn hex_encode(bytes: &Vec<u8>) -> (r: String)
    ensures
        r@ == hex_lower(bytes@),
{
    let mut out: Vec<char> = Vec::new();
    let mut i: usize = 0;
    while i < bytes.len()
        invariant
            i <= bytes.len(),
            out@ == hex_lower(bytes@.take(i as int)),
        decreases bytes.len() - i,
    {
        let b = bytes[i];
        out.push(hex_digit(b / 16));
        out.push(hex_digit(b % 16));
        assert(bytes@.take(i + 1).drop_last() =~= bytes@.take(i as int));
        i = i + 1;
        assert(out@ =~= hex_lower(bytes@.take(i as int)));
    }
    assert(bytes@.take(bytes@.len() as int) =~= bytes@);
    string_of(&out)
}

/// `c` is one of the ASCII digits `0`..`9`.
pub open spec fn is_ascii_digit(c: char) -> bool {
    48 <= (c as int) && (c as int) <= 57
}

/// The value of a string of ASCII digits read in base ten.
pub open spec fn digits_value(s: Seq<char>) -> nat
    decreases s.len(),
{
    if s.len() == 0 {
        0
    } else {
        digits_value(s.drop_last()) * 10 + ((s.last() as int) - 48) as nat
    }
}

/// `s` without one leading `+` sign, if it has one.
pub open spec fn without_plus(s: Seq<char>) -> Seq<char> {
    if s.len() > 0 && s[0] == '+' {
        s.subrange(1, s.len() as int)
    } else {
        s
    }
}

/// Every character of `s` is an ASCII digit.
pub open spec fn all_ascii_digits(s: Seq<char>) -> bool {
    forall|i: int| 0 <= i < s.len() ==> is_ascii_digit(#[trigger] s[i])
}

/// What `str::parse::<u16>` returns, as an option: an optional `+` sign and
/// then one or more ASCII digits whose value fits in a `u16`.
pub open spec fn parse_u16_spec(s: Seq<char>) -> Option<u16> {
    let d = without_plus(s);
    if d.len() > 0 && all_ascii_digits(d) && digits_value(d) <= 65535 {
        Some(digits_value(d) as u16)
    } else {
        None
    }
}

proof fn lemma_digits_grow(v: nat, d: nat)
    requires
        v >= 65536,
    ensures
        v * 10 + d >= 65536,
{
    assert(v * 10 >= v) by (nonlinear_arith)
        requires
            v >= 0,
    ;
}

/// Parses `s` as a `u16` the way `str::parse::<u16>` does, `None` on error.
pub fn parse_u16(s: &str) -> (r: Option<u16>)
    ensures
        r == parse_u16_spec(s@),
{
    let sv = chars_of(s);
    let n = sv.len();
    let start: usize = if n > 0 && sv[0] == '+' { 1 } else { 0 };
    let ghost d = without_plus(sv@);
    assert(d =~= sv@.subrange(start as int, n as int));
    if start >= n {
        return None;
    }
    let mut acc: u32 = 0;
    let mut k: usize = start;
    while k < n
        invariant
            start <= k <= n,
            n == sv@.len(),
            sv@ == s@,
            d == without_plus(sv@),
            d =~= sv@.subrange(start as int, n as int),
            forall|i: int| start <= i < k ==> is_ascii_digit(#[trigger] sv@[i]),
            acc <= 65536,
            acc == (if digits_value(sv@.subrange(start as int, k as int)) <= 65535 {
                digits_value(sv@.subrange(start as int, k as int))
            } else {
                65536
            }),
        decreases n - k,
    {
        let c = sv[k];
        if c < '0' || c > '9' {
            assert(('0' as int) == 48 && ('9' as int) == 57);
            assert(d[k - start] == sv@[k as int]);
            assert(!is_ascii_digit(d[k - start]));
            return None;
        }
        let ghost prev = sv@.subrange(start as int, k as int);
        assert(sv@.subrange(start as int, k + 1).drop_last() =~= prev);
        proof {
            if digits_value(prev) > 65535 {
                lemma_digits_grow(digits_value(prev), ((c as int) - 48) as nat);
            }
        }
        if acc <= 65535 {
            let code = c as u32;
            assert(code as int == c as int);
            let next = acc * 10 + (code - 48);
            acc = if next <= 65535 { next } else { 65536 };
        }
        k = k + 1;
    }
    assert(sv@.subrange(start as int, n as int) =~= d);
    if acc <= 65535 {
        Some(acc as u16)
    } else {
        None
    }
}

// ---------------------------------------------------------------------------
// Ordering of strings
// ---------------------------------------------------------------------------

/// Lexicographic order on strings by Unicode scalar value. Since UTF-8
/// preserves the order of scalar values, this is also the order that
/// `String`'s `Ord` gives by comparing bytes.
pub open spec fn lex_lt(a: Seq<char>, b: Seq<char>) -> bool
    decreases a.len(),
{
    if b.len() == 0 {
        false
    } else if a.len() == 0 {
        true
    } else if (a[0] as int) < (b[0] as int) {
        true
    } else if a[0] == b[0] {
        lex_lt(a.subrange(1, a.len() as int), b.subrange(1, b.len() as int))
    } else {
        false
    }
}

pub proof fn lemma_lex_irreflexive(a: Seq<char>)
    ensures
        !lex_lt(a, a),
    decreases a.len(),
{
    if a.len() > 0 {
        lemma_lex_irreflexive(a.subrange(1, a.len() as int));
    }
}

pub proof fn lemma_lex_transitive(a: Seq<char>, b: Seq<char>, c: Seq<char>)
    requires
        lex_lt(a, b),
        lex_lt(b, c),
    ensures
        lex_lt(a, c),
    decreases a.len(),
{
    if a.len() > 0 && b.len() > 0 && c.len() > 0 && a[0] == b[0] && b[0] == c[0] {
        lemma_lex_transitive(
            a.subrange(1, a.len() as int),
            b.subrange(1, b.len() as int),
            c.subrange(1, c.len() as int),
        );
    }
}

pub proof fn lemma_lex_total(a: Seq<char>, b: Seq<char>)
    ensures
        a == b || lex_lt(a, b) || lex_lt(b, a),
    decreases a.len(),
{
    if a.len() > 0 && b.len() > 0 && a[0] == b[0] {
        lemma_lex_total(a.subrange(1, a.len() as int), b.subrange(1, b.len() as int));
        if a.subrange(1, a.len() as int) == b.subrange(1, b.len() as int) {
            assert(a =~= seq![a[0]] + a.subrange(1, a.len() as int));
            assert(b =~= seq![b[0]] + b.subrange(1, b.len() as int));
        }
    } else if a.len() > 0 && b.len() > 0 {
        assert(a[0] != b[0]);
        if (a[0] as int) == (b[0] as int) {
            assert(a[0] == b[0]);
        }
    } else if a.len() == 0 && b.len() == 0 {
        assert(a =~= b);
    }
}

/// Whether `a` sorts strictly before `b`.
pub fn lex_less(a: &str, b: &str) -> (r: bool)
    ensures
        r == lex_lt(a@, b@),
{
    let av = chars_of(a);
    let bv = chars_of(b);
    let mut k: usize = 0;
    assert(av@.subrange(0, av@.len() as int) =~= av@);
    assert(bv@.subrange(0, bv@.len() as int) =~= bv@);
    while k < av.len() && k < bv.len()
        invariant
            k <= av.len(),
            k <= bv.len(),
            av@ == a@,
            bv@ == b@,
            lex_lt(av@.subrange(k as int, av@.len() as int), bv@.subrange(k as int, bv@.len() as int))
                == lex_lt(av@, bv@),
        decreases av.len() - k,
    {
        let x = av[k];
        let y = bv[k];
        assert(av@.subrange(k as int, av@.len() as int)[0] == x);
        assert(bv@.subrange(k as int, bv@.len() as int)[0] == y);
        if x < y {
            let ghost sa = av@.subrange(k as int, av@.len() as int);
            let ghost sb = bv@.subrange(k as int, bv@.len() as int);
            assert(sa.len() > 0 && sb.len() > 0);
            assert((sa[0] as int) < (sb[0] as int));
            assert(lex_lt(sa, sb));
            return true;
        }
        if x != y {
            return false;
        }
        assert(av@.subrange(k as int, av@.len() as int).subrange(1, av@.len() - k) =~= av@.subrange(k + 1, av@.len() as int));
        assert(bv@.subrange(k as int, bv@.len() as int).subrange(1, bv@.len() - k) =~= bv@.subrange(k + 1, bv@.len() as int));
        k = k + 1;
    }
    k < bv.len()
}

// ---------------------------------------------------------------------------
// Character classes
// ---------------------------------------------------------------------------

/// The Unicode `Alphabetic` or `Numeric` property of a character (what
/// `char::is_alphanumeric` reports).
pub uninterp spec fn unicode_alphanumeric(c: char) -> bool;

/// Reports whether `c` is alphanumeric.
///
/// Wraps `char::is_alphanumeric`, documented as `is_alphabetic() ||
/// is_numeric()` over the Unicode properties, named here
/// `unicode_alphanumeric`; among ASCII characters these hold exactly of the
/// letters `A`..`Z`, `a`..`z` and the digits `0`..`9`.
#[verifier::external_body]
pub(crate) fn is_alphanumeric_char(c: char) -> (r: bool)
    ensures
        r == unicode_alphanumeric(c),
        (c as int) < 128 ==> (r <==> (is_ascii_digit(c) || (65 <= (c as int) && (c as int) <= 90) || (
        97 <= (c as int) && (c as int) <= 122))),
{
    c.is_alphanumeric()
}

} // verus!
