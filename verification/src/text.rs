//! Character-level scanning primitives shared by all output matchers.
//!
//! The grammar of the external tool's output is expressed over `Seq<char>`
//! views. Character classes mirror the ASCII parts of the usual regular
//! expression classes: `\s`, `\w`, `\d`, and the bespoke classes the matchers
//! need (host-name characters, number-or-dot, word-or-space).

use vstd::prelude::*;

verus! {

/// A character class used by the scanners.
#[derive(Clone, Copy, PartialEq, Eq, Structural)]
pub enum CharClass {
    Whitespace,
    Word,
    Digit,
    Alpha,
    HexDigit,
    WordOrSpace,
    HostChar,
    NumOrDot,
    NonNewline,
}

pub open spec fn is_ws_char(c: char) -> bool {
    c == ' ' || c == '\t' || c == '\n' || c == '\r' || c == '\u{b}' || c == '\u{c}'
}

pub open spec fn is_digit_char(c: char) -> bool {
    '0' <= c && c <= '9'
}

pub open spec fn is_alpha_char(c: char) -> bool {
    ('a' <= c && c <= 'z') || ('A' <= c && c <= 'Z')
}

pub open spec fn is_word_char(c: char) -> bool {
    is_alpha_char(c) || is_digit_char(c) || c == '_'
}

pub open spec fn is_hex_char(c: char) -> bool {
    is_digit_char(c) || ('a' <= c && c <= 'f') || ('A' <= c && c <= 'F')
}

pub open spec fn in_class(k: CharClass, c: char) -> bool {
    match k {
        CharClass::Whitespace => is_ws_char(c),
        CharClass::Word => is_word_char(c),
        CharClass::Digit => is_digit_char(c),
        CharClass::Alpha => is_alpha_char(c),
        CharClass::HexDigit => is_hex_char(c),
        CharClass::WordOrSpace => is_word_char(c) || c == ' ',
        CharClass::HostChar => is_word_char(c) || c == '.',
        CharClass::NumOrDot => is_digit_char(c) || c == '.',
        CharClass::NonNewline => c != '\n',
    }
}

/// Executable twin of `in_class`.
pub fn class_char(k: CharClass, c: char) -> (b: bool)
    ensures
        b == in_class(k, c),
{
    match k {
        CharClass::Whitespace => c == ' ' || c == '\t' || c == '\n' || c == '\r' || c == '\u{b}'
            || c == '\u{c}',
        CharClass::Word => ('a' <= c && c <= 'z') || ('A' <= c && c <= 'Z') || ('0' <= c && c
            <= '9') || c == '_',
        CharClass::Digit => '0' <= c && c <= '9',
        CharClass::Alpha => ('a' <= c && c <= 'z') || ('A' <= c && c <= 'Z'),
        CharClass::HexDigit => ('0' <= c && c <= '9') || ('a' <= c && c <= 'f') || ('A' <= c && c
            <= 'F'),
        CharClass::WordOrSpace => ('a' <= c && c <= 'z') || ('A' <= c && c <= 'Z') || ('0' <= c
            && c <= '9') || c == '_' || c == ' ',
        CharClass::HostChar => ('a' <= c && c <= 'z') || ('A' <= c && c <= 'Z') || ('0' <= c && c
            <= '9') || c == '_' || c == '.',
        CharClass::NumOrDot => ('0' <= c && c <= '9') || c == '.',
        CharClass::NonNewline => c != '\n',
    }
}

/// End of the maximal run of characters of class `k` that starts at `i`.
pub open spec fn run_end(t: Seq<char>, k: CharClass, i: int) -> int
    recommends
        0 <= i <= t.len(),
    decreases t.len() - i,
{
    if i < 0 || i >= t.len() {
        i
    } else if in_class(k, t[i]) {
        run_end(t, k, i + 1)
    } else {
        i
    }
}

/// Scan forward from `i` past the characters of class `k`.
pub fn scan_run(t: &str, k: CharClass, i: usize) -> (j: usize)
    requires
        i <= t@.len(),
    ensures
        i <= j <= t@.len(),
        j as int == run_end(t@, k, i as int),
{
    let n = t.unicode_len();
    let mut j = i;
    while j < n && class_char(k, t.get_char(j))
        invariant
            i <= j <= n,
            n == t@.len(),
            run_end(t@, k, i as int) == run_end(t@, k, j as int),
        decreases n - j,
    {
        j = j + 1;
    }
    j
}

/// Bounds of a run and the class of the characters it spans.
pub proof fn lemma_run_end_props(t: Seq<char>, k: CharClass, i: int)
    requires
        0 <= i <= t.len(),
    ensures
        i <= run_end(t, k, i) <= t.len(),
        forall|x: int| i <= x < run_end(t, k, i) ==> in_class(k, t[x]),
    decreases t.len() - i,
{
    if i < t.len() && in_class(k, t[i]) {
        lemma_run_end_props(t, k, i + 1);
    }
}

/// The literal `pat` occurs in `t` starting at position `i`.
pub open spec fn occurs_at(t: Seq<char>, pat: Seq<char>, i: int) -> bool {
    0 <= i && i + pat.len() <= t.len() && t.subrange(i, i + pat.len()) == pat
}

/// Executable check that `pat` occurs at position `i` of `t`.
pub fn lit_at(t: &str, pat: &str, i: usize) -> (b: bool)
    ensures
        b == occurs_at(t@, pat@, i as int),
{
    let n = t.unicode_len();
    let m = pat.unicode_len();
    if m > n || i > n - m {
        assert(!occurs_at(t@, pat@, i as int));
        return false;
    }
    let mut k: usize = 0;
    while k < m
        invariant
            0 <= k <= m,
            i + m <= n,
            n == t@.len(),
            m == pat@.len(),
            forall|q: int| 0 <= q < k ==> t@[i + q] == pat@[q],
        decreases m - k,
    {
        if t.get_char(i + k) != pat.get_char(k) {
            assert(t@.subrange(i as int, i + m) != pat@) by {
                assert(t@.subrange(i as int, i + m)[k as int] != pat@[k as int]);
            }
            return false;
        }
        k = k + 1;
    }
    assert(t@.subrange(i as int, i + m) =~= pat@);
    true
}

/// First position at or after `i` where `pat` occurs in `t`.
pub open spec fn find_from(t: Seq<char>, pat: Seq<char>, i: int) -> Option<int>
    recommends
        0 <= i,
    decreases t.len() + 1 - i,
{
    if i < 0 || i + pat.len() > t.len() {
        None
    } else if occurs_at(t, pat, i) {
        Some(i)
    } else {
        find_from(t, pat, i + 1)
    }
}

/// The literal `pat` occurs somewhere in `t`.
pub open spec fn contains_lit(t: Seq<char>, pat: Seq<char>) -> bool {
    find_from(t, pat, 0) is Some
}

/// Executable search for the first occurrence of `pat` at or after `from`.
pub fn find_lit_from(t: &str, pat: &str, from: usize) -> (r: Option<usize>)
    requires
        1 <= pat@.len(),
    ensures
        match r {
            Some(j) => from <= j && j + pat@.len() <= t@.len() && find_from(
                t@,
                pat@,
                from as int,
            ) == Some(j as int),
            None => find_from(t@, pat@, from as int) is None,
        },
{
    let n = t.unicode_len();
    let m = pat.unicode_len();
    if m > n || from > n - m {
        return None;
    }
    let mut i = from;
    while i <= n - m
        invariant
            from <= i,
            1 <= m <= n,
            i <= n - m + 1,
            n == t@.len(),
            m == pat@.len(),
            find_from(t@, pat@, from as int) == find_from(t@, pat@, i as int),
        decreases n - m - i + 1,
    {
        if lit_at(t, pat, i) {
            return Some(i);
        }
        i = i + 1;
    }
    None
}

/// Executable check that `pat` occurs somewhere in `t`.
pub fn contains(t: &str, pat: &str) -> (b: bool)
    requires
        1 <= pat@.len(),
    ensures
        b == contains_lit(t@, pat@),
{
    find_lit_from(t, pat, 0).is_some()
}

/// Largest `j` in `[i, e]` such that no trailing whitespace of `t[i..e)`
/// remains in `t[i..j)`.
pub open spec fn trim_end(t: Seq<char>, i: int, e: int) -> int
    recommends
        0 <= i <= e <= t.len(),
    decreases e - i,
{
    if e <= i || e > t.len() || e < 0 {
        e
    } else if is_ws_char(t[e - 1]) {
        trim_end(t, i, e - 1)
    } else {
        e
    }
}

/// Executable twin of `trim_end`.
pub fn scan_trim_end(t: &str, i: usize, e: usize) -> (j: usize)
    requires
        i <= e <= t@.len(),
    ensures
        i <= j <= e,
        j as int == trim_end(t@, i as int, e as int),
{
    let mut j = e;
    while j > i && class_char(CharClass::Whitespace, t.get_char(j - 1))
        invariant
            i <= j <= e,
            e <= t@.len(),
            trim_end(t@, i as int, e as int) == trim_end(t@, i as int, j as int),
        decreases j,
    {
        j = j - 1;
    }
    j
}

/// The decimal value of a sequence of digit characters.
pub open spec fn dec_val(s: Seq<char>) -> int
    recommends
        forall|k: int| 0 <= k < s.len() ==> is_digit_char(s[k]),
    decreases s.len(),
{
    if s.len() == 0 {
        0
    } else {
        10 * dec_val(s.drop_last()) + (s.last() as u32 - '0' as u32)
    }
}

pub proof fn lemma_dec_val_nonneg(s: Seq<char>)
    requires
        forall|k: int| 0 <= k < s.len() ==> is_digit_char(s[k]),
    ensures
        dec_val(s) >= 0,
    decreases s.len(),
{
    if s.len() > 0 {
        lemma_dec_val_nonneg(s.drop_last());
    }
}

/// Appending one more digit can only increase the decimal value.
pub proof fn lemma_dec_val_mono(t: Seq<char>, i: int, k: int, j: int)
    requires
        0 <= i <= k <= j <= t.len(),
        forall|q: int| i <= q < j ==> is_digit_char(t[q]),
    ensures
        dec_val(t.subrange(i, j)) >= dec_val(t.subrange(i, k)),
    decreases j - k,
{
    if k < j {
        let prev = t.subrange(i, j - 1);
        let whole = t.subrange(i, j);
        assert(whole.drop_last() =~= prev);
        assert(forall|q: int| 0 <= q < prev.len() ==> is_digit_char(prev[q]));
        lemma_dec_val_nonneg(prev);
        assert(dec_val(whole) == 10 * dec_val(prev) + (whole.last() as u32 - '0' as u32));
        assert(dec_val(whole) >= dec_val(prev));
        lemma_dec_val_mono(t, i, k, j - 1);
    }
}

/// Parse the digit run `t[i..j)` as a `u64`; `None` exactly when the value
/// does not fit.
pub fn parse_u64_digits(t: &str, i: usize, j: usize) -> (r: Option<u64>)
    requires
        i <= j <= t@.len(),
        forall|q: int| i <= q < j ==> is_digit_char(t@[q]),
    ensures
        match r {
            Some(v) => v as int == dec_val(t@.subrange(i as int, j as int)) && dec_val(
                t@.subrange(i as int, j as int),
            ) <= u64::MAX,
            None => dec_val(t@.subrange(i as int, j as int)) > u64::MAX,
        },
{
    let mut val: u64 = 0;
    let mut k = i;
    assert(t@.subrange(i as int, i as int) =~= Seq::<char>::empty());
    while k < j
        invariant
            i <= k <= j <= t@.len(),
            forall|q: int| i <= q < j ==> is_digit_char(t@[q]),
            val as int == dec_val(t@.subrange(i as int, k as int)),
        decreases j - k,
    {
        let c = t.get_char(k);
        assert(is_digit_char(c));
        let d: u64 = (c as u32 - '0' as u32) as u64;
        let ghost prefix = t@.subrange(i as int, k as int);
        let ghost next = t@.subrange(i as int, k as int + 1);
        assert(next.drop_last() =~= prefix);
        assert(dec_val(next) == 10 * dec_val(prefix) + d);
        if val > (u64::MAX - d) / 10 {
            proof {
                assert(10 * ((u64::MAX - d) / 10) + 9 >= u64::MAX - d) by (nonlinear_arith)
                    requires
                        0 <= d <= 9,
                ;
                assert(10 * (val as int) + d > u64::MAX) by (nonlinear_arith)
                    requires
                        val as int > (u64::MAX - d) / 10,
                        10 * ((u64::MAX - d) / 10) + 9 >= u64::MAX - d,
                        0 <= d <= 9,
                ;
                lemma_dec_val_mono(t@, i as int, k as int + 1, j as int);
            }
            return None;
        }
        assert(10 * (val as int) + d <= u64::MAX) by (nonlinear_arith)
            requires
                0 <= d <= 9,
                0 <= val as int <= (u64::MAX - d) / 10,
        ;
        val = val * 10 + d;
        k = k + 1;
    }
    Some(val)
}

/// `c` equals the upper-case ASCII reference character `u`, ignoring case.
pub open spec fn ci_match_char(c: char, u: char) -> bool {
    c == u || c as u32 == u as u32 + 32
}

/// The word `w` (given in upper case) occurs at position `i` of `t`,
/// compared case-insensitively.
pub open spec fn ci_word_at(t: Seq<char>, i: int, w: Seq<char>) -> bool {
    0 <= i && i + w.len() <= t.len() && forall|k: int|
        0 <= k < w.len() ==> ci_match_char(t[i + k], w[k])
}

/// Executable twin of `ci_word_at`.
pub fn ci_lit_at(t: &str, w: &str, i: usize) -> (b: bool)
    ensures
        b == ci_word_at(t@, i as int, w@),
{
    let n = t.unicode_len();
    let m = w.unicode_len();
    if m > n || i > n - m {
        return false;
    }
    let mut k: usize = 0;
    while k < m
        invariant
            0 <= k <= m,
            i + m <= n,
            n == t@.len(),
            m == w@.len(),
            forall|q: int| 0 <= q < k ==> ci_match_char(t@[i + q], w@[q]),
        decreases m - k,
    {
        let c = t.get_char(i + k);
        let u = w.get_char(k);
        if !(c == u || c as u32 == u as u32 + 32) {
            return false;
        }
        k = k + 1;
    }
    true
}

/// Executable equality of two text views.
pub fn str_eq(a: &str, b: &str) -> (r: bool)
    ensures
        r == (a@ == b@),
{
    let n = a.unicode_len();
    if n != b.unicode_len() {
        return false;
    }
    let mut k: usize = 0;
    while k < n
        invariant
            k <= n,
            n == a@.len(),
            n == b@.len(),
            forall|q: int| 0 <= q < k ==> a@[q] == b@[q],
        decreases n - k,
    {
        if a.get_char(k) != b.get_char(k) {
            return false;
        }
        k = k + 1;
    }
    assert(a@ =~= b@);
    true
}

/// The whole of `s` spells the upper-case word `w`, ignoring case.
pub open spec fn ci_seq_eq(s: Seq<char>, w: Seq<char>) -> bool {
    s.len() == w.len() && ci_word_at(s, 0, w)
}

/// Executable twin of `ci_seq_eq`.
pub fn ci_eq(s: &str, w: &str) -> (b: bool)
    ensures
        b == ci_seq_eq(s@, w@),
{
    if s.unicode_len() != w.unicode_len() {
        return false;
    }
    ci_lit_at(s, w, 0)
}

/// First position at or after `i` that does not hold whitespace.
pub open spec fn skip_ws(t: Seq<char>, i: int) -> int {
    run_end(t, CharClass::Whitespace, i)
}

/// Executable twin of `skip_ws`.
pub fn scan_skip_ws(t: &str, i: usize) -> (j: usize)
    requires
        i <= t@.len(),
    ensures
        i <= j <= t@.len(),
        j as int == skip_ws(t@, i as int),
{
    scan_run(t, CharClass::Whitespace, i)
}

} // verus!
