//! The per-operation output grammar: one matcher per extracted field.
//!
//! Every matcher scans the captured text for the first occurrence of its
//! anchor literal that a valid continuation follows, mirroring how an
//! unanchored regular-expression search with a literal prefix behaves. The
//! character classes are the ASCII reading of the usual classes; positions
//! and captures are stated over the text's `Seq<char>` view.

use vstd::prelude::*;

use crate::text::{
    occurs_at, run_end, skip_ws, trim_end, dec_val, is_ws_char, is_word_char, is_digit_char,
    ci_word_at, CharClass, class_char, lit_at, scan_run, scan_skip_ws, scan_trim_end,
    parse_u64_digits, lemma_run_end_props, lemma_dec_val_nonneg,
};

verus! {

// ---------------------------------------------------------------------------
// Anchored run fields: a literal, then whitespace, then one run of a class.
// ---------------------------------------------------------------------------

/// Continuation of a run field at position `p` (just past the anchor):
/// at least one whitespace character, then a non-empty run of class `k`;
/// when `trail` is set, at least one whitespace character must follow the
/// run. The capture is the run.
pub open spec fn run_field_at(t: Seq<char>, p: int, k: CharClass, trail: bool) -> Option<
    (int, int),
> {
    let q = skip_ws(t, p);
    if !(p < q && q < t.len()) {
        None
    } else {
        let e = run_end(t, k, q);
        if e <= q {
            None
        } else if trail && !(e < t.len() && is_ws_char(t[e])) {
            None
        } else {
            Some((q, e))
        }
    }
}

/// First anchor occurrence whose run-field continuation matches.
pub open spec fn run_field_from(
    t: Seq<char>,
    i: int,
    lit: Seq<char>,
    k: CharClass,
    trail: bool,
) -> Option<(int, int)>
    decreases t.len() + 1 - i,
{
    if i < 0 || i + lit.len() > t.len() {
        None
    } else if occurs_at(t, lit, i) && run_field_at(t, i + lit.len(), k, trail) is Some {
        run_field_at(t, i + lit.len(), k, trail)
    } else {
        run_field_from(t, i + 1, lit, k, trail)
    }
}

/// Executable continuation check for run fields.
fn cont_run_field(t: &str, p: usize, k: CharClass, trail: bool) -> (r: Option<(usize, usize)>)
    requires
        p <= t@.len(),
    ensures
        match r {
            Some(c) => c.0 <= c.1 <= t@.len() && run_field_at(t@, p as int, k, trail) == Some(
                (c.0 as int, c.1 as int),
            ),
            None => run_field_at(t@, p as int, k, trail) is None,
        },
{
    let n = t.unicode_len();
    let q = scan_skip_ws(t, p);
    if q == p || q == n {
        return None;
    }
    let e = scan_run(t, k, q);
    if e == q {
        return None;
    }
    if trail && !(e < n && class_char(CharClass::Whitespace, t.get_char(e))) {
        return None;
    }
    Some((q, e))
}

/// Executable search for a run field anchored at `lit`.
pub fn find_run_field(t: &str, lit: &str, k: CharClass, trail: bool) -> (r: Option<
    (usize, usize),
>)
    requires
        1 <= lit@.len(),
    ensures
        match r {
            Some(c) => c.0 <= c.1 <= t@.len() && run_field_from(t@, 0, lit@, k, trail) == Some(
                (c.0 as int, c.1 as int),
            ),
            None => run_field_from(t@, 0, lit@, k, trail) is None,
        },
{
    let n = t.unicode_len();
    let m = lit.unicode_len();
    if m > n {
        return None;
    }
    let mut i: usize = 0;
    while i <= n - m
        invariant
            1 <= m <= n,
            i <= n - m + 1,
            n == t@.len(),
            m == lit@.len(),
            run_field_from(t@, 0, lit@, k, trail) == run_field_from(t@, i as int, lit@, k, trail),
        decreases n - m - i + 1,
    {
        if lit_at(t, lit, i) {
            let c = cont_run_field(t, i + m, k, trail);
            if let Some(cap) = c {
                return Some(cap);
            }
        }
        i = i + 1;
    }
    None
}

// ---------------------------------------------------------------------------
// Anchored line fields: a literal, whitespace, then the rest of the line.
// ---------------------------------------------------------------------------

/// Continuation of a line field at `p`: at least one whitespace character,
/// then a capture running to the end of the line with trailing whitespace
/// trimmed. When `to_end` is set, only whitespace may follow the capture in
/// the whole remaining text; otherwise at least one whitespace character
/// must follow it somewhere before the text ends.
pub open spec fn line_field_at(t: Seq<char>, p: int, to_end: bool) -> Option<(int, int)> {
    let q = skip_ws(t, p);
    if !(p < q && q < t.len()) {
        None
    } else {
        let e = run_end(t, CharClass::NonNewline, q);
        let j = trim_end(t, q, e);
        if j <= q {
            None
        } else if to_end {
            if skip_ws(t, j) == t.len() {
                Some((q, j))
            } else {
                None
            }
        } else {
            if j < t.len() {
                Some((q, j))
            } else {
                None
            }
        }
    }
}

/// First anchor occurrence whose line-field continuation matches.
pub open spec fn line_field_from(t: Seq<char>, i: int, lit: Seq<char>, to_end: bool) -> Option<
    (int, int),
>
    decreases t.len() + 1 - i,
{
    if i < 0 || i + lit.len() > t.len() {
        None
    } else if occurs_at(t, lit, i) && line_field_at(t, i + lit.len(), to_end) is Some {
        line_field_at(t, i + lit.len(), to_end)
    } else {
        line_field_from(t, i + 1, lit, to_end)
    }
}

/// Executable continuation check for line fields.
fn cont_line_field(t: &str, p: usize, to_end: bool) -> (r: Option<(usize, usize)>)
    requires
        p <= t@.len(),
    ensures
        match r {
            Some(c) => c.0 <= c.1 <= t@.len() && line_field_at(t@, p as int, to_end) == Some(
                (c.0 as int, c.1 as int),
            ),
            None => line_field_at(t@, p as int, to_end) is None,
        },
{
    let n = t.unicode_len();
    let q = scan_skip_ws(t, p);
    if q == p || q == n {
        return None;
    }
    let e = scan_run(t, CharClass::NonNewline, q);
    let j = scan_trim_end(t, q, e);
    if j == q {
        return None;
    }
    if to_end {
        if scan_skip_ws(t, j) == n {
            Some((q, j))
        } else {
            None
        }
    } else {
        if j < n {
            Some((q, j))
        } else {
            None
        }
    }
}

/// Executable search for a line field anchored at `lit`.
pub fn find_line_field(t: &str, lit: &str, to_end: bool) -> (r: Option<(usize, usize)>)
    requires
        1 <= lit@.len(),
    ensures
        match r {
            Some(c) => c.0 <= c.1 <= t@.len() && line_field_from(t@, 0, lit@, to_end) == Some(
                (c.0 as int, c.1 as int),
            ),
            None => line_field_from(t@, 0, lit@, to_end) is None,
        },
{
    let n = t.unicode_len();
    let m = lit.unicode_len();
    if m > n {
        return None;
    }
    let mut i: usize = 0;
    while i <= n - m
        invariant
            1 <= m <= n,
            i <= n - m + 1,
            n == t@.len(),
            m == lit@.len(),
            line_field_from(t@, 0, lit@, to_end) == line_field_from(t@, i as int, lit@, to_end),
        decreases n - m - i + 1,
    {
        if lit_at(t, lit, i) {
            let c = cont_line_field(t, i + m, to_end);
            if let Some(cap) = c {
                return Some(cap);
            }
        }
        i = i + 1;
    }
    None
}

// ---------------------------------------------------------------------------
// Anchored case-insensitive word alternatives (technology / protocol).
// ---------------------------------------------------------------------------

/// Continuation at `p`: at least one whitespace character, then one of the
/// two upper-case words `w1` or `w2`, compared case-insensitively and tried
/// in that order. `true` means the first word matched.
pub open spec fn ci_alt_at(t: Seq<char>, p: int, w1: Seq<char>, w2: Seq<char>) -> Option<bool> {
    let q = skip_ws(t, p);
    if !(p < q && q < t.len()) {
        None
    } else if ci_word_at(t, q, w1) {
        Some(true)
    } else if ci_word_at(t, q, w2) {
        Some(false)
    } else {
        None
    }
}

/// First anchor occurrence whose case-insensitive alternative matches.
pub open spec fn ci_alt_from(
    t: Seq<char>,
    i: int,
    lit: Seq<char>,
    w1: Seq<char>,
    w2: Seq<char>,
) -> Option<bool>
    decreases t.len() + 1 - i,
{
    if i < 0 || i + lit.len() > t.len() {
        None
    } else if occurs_at(t, lit, i) && ci_alt_at(t, i + lit.len(), w1, w2) is Some {
        ci_alt_at(t, i + lit.len(), w1, w2)
    } else {
        ci_alt_from(t, i + 1, lit, w1, w2)
    }
}

/// Executable search for a case-insensitive word alternative after `lit`.
pub fn find_ci_alt(t: &str, lit: &str, w1: &str, w2: &str) -> (r: Option<bool>)
    requires
        1 <= lit@.len(),
    ensures
        r == ci_alt_from(t@, 0, lit@, w1@, w2@),
{
    let n = t.unicode_len();
    let m = lit.unicode_len();
    if m > n {
        return None;
    }
    let mut i: usize = 0;
    while i <= n - m
        invariant
            1 <= m <= n,
            i <= n - m + 1,
            n == t@.len(),
            m == lit@.len(),
            ci_alt_from(t@, 0, lit@, w1@, w2@) == ci_alt_from(t@, i as int, lit@, w1@, w2@),
        decreases n - m - i + 1,
    {
        if lit_at(t, lit, i) {
            let p = i + m;
            let q = scan_skip_ws(t, p);
            if q > p && q < n {
                if crate::text::ci_lit_at(t, w1, q) {
                    return Some(true);
                }
                if crate::text::ci_lit_at(t, w2, q) {
                    return Some(false);
                }
            }
            assert(ci_alt_at(t@, p as int, w1@, w2@) is None);
        }
        i = i + 1;
    }
    None
}

// ---------------------------------------------------------------------------
// The account expiry date: "(Expires on <Mon> <day><ordinal>, <year>)".
// ---------------------------------------------------------------------------

/// An English ordinal suffix occurs at `i`.
pub open spec fn ordinal_at(t: Seq<char>, i: int) -> bool {
    occurs_at(t, "st"@, i) || occurs_at(t, "nd"@, i) || occurs_at(t, "rd"@, i) || occurs_at(
        t,
        "th"@,
        i,
    )
}

/// Continuation of the expiry field at `p`: whitespace, a three-letter month
/// word, whitespace, a day number with an ordinal suffix and a comma,
/// whitespace, a four-digit year, and a closing parenthesis. The captures
/// are the month, day and year spans.
pub open spec fn expires_at(t: Seq<char>, p: int) -> Option<(int, int, int, int, int, int)> {
    let q = skip_ws(t, p);
    if !(p < q) {
        None
    } else if q + 3 > t.len() {
        None
    } else if run_end(t, CharClass::Word, q) != q + 3 {
        None
    } else {
        let r = skip_ws(t, q + 3);
        if r == q + 3 {
            None
        } else {
            let de = run_end(t, CharClass::Digit, r);
            if de <= r || de + 3 > t.len() || !ordinal_at(t, de) || t[de + 2] != ',' {
                None
            } else {
                let s = skip_ws(t, de + 3);
                if s == de + 3 {
                    None
                } else {
                    let ye = run_end(t, CharClass::Digit, s);
                    if ye != s + 4 || ye >= t.len() || t[ye] != ')' {
                        None
                    } else {
                        Some((q, q + 3, r, de, s, ye))
                    }
                }
            }
        }
    }
}

/// First anchor occurrence whose expiry continuation matches.
pub open spec fn expires_from(t: Seq<char>, i: int) -> Option<(int, int, int, int, int, int)>
    decreases t.len() + 1 - i,
{
    let lit = "(Expires on"@;
    if i < 0 || i + lit.len() > t.len() {
        None
    } else if occurs_at(t, lit, i) && expires_at(t, i + lit.len()) is Some {
        expires_at(t, i + lit.len())
    } else {
        expires_from(t, i + 1)
    }
}

/// Executable continuation check for the expiry field.
fn cont_expires(t: &str, p: usize) -> (r: Option<(usize, usize, usize, usize, usize, usize)>)
    requires
        p <= t@.len(),
    ensures
        match r {
            Some(c) => c.0 <= c.1 <= t@.len() && c.2 <= c.3 <= t@.len() && c.4 <= c.5 <= t@.len()
                && expires_at(t@, p as int) == Some(
                (c.0 as int, c.1 as int, c.2 as int, c.3 as int, c.4 as int, c.5 as int),
            ),
            None => expires_at(t@, p as int) is None,
        },
{
    let n = t.unicode_len();
    let q = scan_skip_ws(t, p);
    if q == p {
        return None;
    }
    if n < 3 || q > n - 3 {
        return None;
    }
    let we = scan_run(t, CharClass::Word, q);
    if we != q + 3 {
        return None;
    }
    let r = scan_skip_ws(t, q + 3);
    if r == q + 3 {
        return None;
    }
    let de = scan_run(t, CharClass::Digit, r);
    if de == r || de > n - 3 {
        return None;
    }
    if !(lit_at(t, "st", de) || lit_at(t, "nd", de) || lit_at(t, "rd", de) || lit_at(
        t,
        "th",
        de,
    )) {
        return None;
    }
    if t.get_char(de + 2) != ',' {
        return None;
    }
    let s = scan_skip_ws(t, de + 3);
    if s == de + 3 {
        return None;
    }
    let ye = scan_run(t, CharClass::Digit, s);
    if ye - s != 4 {
        return None;
    }
    if ye == n || t.get_char(ye) != ')' {
        return None;
    }
    Some((q, q + 3, r, de, s, ye))
}

/// Executable search for the expiry field.
pub fn find_expires(t: &str) -> (r: Option<(usize, usize, usize, usize, usize, usize)>)
    ensures
        match r {
            Some(c) => c.0 <= c.1 <= t@.len() && c.2 <= c.3 <= t@.len() && c.4 <= c.5 <= t@.len()
                && expires_from(t@, 0) == Some(
                (c.0 as int, c.1 as int, c.2 as int, c.3 as int, c.4 as int, c.5 as int),
            ),
            None => expires_from(t@, 0) is None,
        },
{
    let lit = "(Expires on";
    proof {
        reveal_strlit("(Expires on");
    }
    let n = t.unicode_len();
    let m = lit.unicode_len();
    if m > n {
        return None;
    }
    let mut i: usize = 0;
    while i <= n - m
        invariant
            1 <= m <= n,
            i <= n - m + 1,
            n == t@.len(),
            m == "(Expires on"@.len(),
            lit@ == "(Expires on"@,
            expires_from(t@, 0) == expires_from(t@, i as int),
        decreases n - m - i + 1,
    {
        if lit_at(t, lit, i) {
            let c = cont_expires(t, i + m);
            if let Some(cap) = c {
                return Some(cap);
            }
        }
        i = i + 1;
    }
    None
}

// ---------------------------------------------------------------------------
// The connect confirmation: "You are connected to <country> #<id> (<host>)!".
// ---------------------------------------------------------------------------

/// Continuation of the connect confirmation at `p`. The result carries the
/// country span (trailing spaces trimmed), the server number's decimal
/// value, and the hostname span.
pub open spec fn connect_at(t: Seq<char>, p: int) -> Option<(int, int, int, int, int)> {
    let q = skip_ws(t, p);
    if !(p < q && q < t.len()) {
        None
    } else {
        let e = run_end(t, CharClass::WordOrSpace, q);
        let j = trim_end(t, q, e);
        if j <= q {
            None
        } else {
            let k = skip_ws(t, e);
            if k <= j || k >= t.len() || t[k] != '#' {
                None
            } else {
                let de = run_end(t, CharClass::Digit, k + 1);
                if de <= k + 1 || dec_val(t.subrange(k + 1, de)) > 0xFFFF_FFFF {
                    None
                } else {
                    let w = skip_ws(t, de);
                    if w <= de || w >= t.len() || t[w] != '(' {
                        None
                    } else {
                        let he = run_end(t, CharClass::HostChar, w + 1);
                        if he <= w + 1 || he + 2 > t.len() || t[he] != ')' || t[he + 1] != '!' {
                            None
                        } else {
                            Some((q, j, dec_val(t.subrange(k + 1, de)), w + 1, he))
                        }
                    }
                }
            }
        }
    }
}

/// First anchor occurrence whose connect continuation matches.
pub open spec fn connect_from(t: Seq<char>, i: int) -> Option<(int, int, int, int, int)>
    decreases t.len() + 1 - i,
{
    let lit = "You are connected to"@;
    if i < 0 || i + lit.len() > t.len() {
        None
    } else if occurs_at(t, lit, i) && connect_at(t, i + lit.len()) is Some {
        connect_at(t, i + lit.len())
    } else {
        connect_from(t, i + 1)
    }
}

/// Executable continuation check for the connect confirmation.
fn cont_connect(t: &str, p: usize) -> (r: Option<(usize, usize, u32, usize, usize)>)
    requires
        p <= t@.len(),
    ensures
        match r {
            Some(c) => c.0 <= c.1 <= t@.len() && c.3 <= c.4 <= t@.len() && connect_at(
                t@,
                p as int,
            ) == Some((c.0 as int, c.1 as int, c.2 as int, c.3 as int, c.4 as int)),
            None => connect_at(t@, p as int) is None,
        },
{
    let n = t.unicode_len();
    let q = scan_skip_ws(t, p);
    if q == p || q == n {
        return None;
    }
    let e = scan_run(t, CharClass::WordOrSpace, q);
    let j = scan_trim_end(t, q, e);
    if j == q {
        return None;
    }
    let k = scan_skip_ws(t, e);
    if k <= j || k == n || t.get_char(k) != '#' {
        return None;
    }
    let de = scan_run(t, CharClass::Digit, k + 1);
    if de == k + 1 {
        return None;
    }
    proof {
        lemma_run_end_props(t@, CharClass::Digit, k as int + 1);
    }
    let sv = match parse_u64_digits(t, k + 1, de) {
        Some(v) => if v <= 0xFFFF_FFFF {
            v as u32
        } else {
            return None;
        },
        None => {
            return None;
        },
    };
    let w = scan_skip_ws(t, de);
    if w <= de || w == n || t.get_char(w) != '(' {
        return None;
    }
    let he = scan_run(t, CharClass::HostChar, w + 1);
    if he == w + 1 {
        return None;
    }
    if he > n - 2 || t.get_char(he) != ')' || t.get_char(he + 1) != '!' {
        return None;
    }
    Some((q, j, sv, w + 1, he))
}

/// Executable search for the connect confirmation.
pub fn find_connect(t: &str) -> (r: Option<(usize, usize, u32, usize, usize)>)
    ensures
        match r {
            Some(c) => c.0 <= c.1 <= t@.len() && c.3 <= c.4 <= t@.len() && connect_from(t@, 0)
                == Some((c.0 as int, c.1 as int, c.2 as int, c.3 as int, c.4 as int)),
            None => connect_from(t@, 0) is None,
        },
{
    let lit = "You are connected to";
    proof {
        reveal_strlit("You are connected to");
    }
    let n = t.unicode_len();
    let m = lit.unicode_len();
    if m > n {
        return None;
    }
    let mut i: usize = 0;
    while i <= n - m
        invariant
            1 <= m <= n,
            i <= n - m + 1,
            n == t@.len(),
            m == "You are connected to"@.len(),
            lit@ == "You are connected to"@,
            connect_from(t@, 0) == connect_from(t@, i as int),
        decreases n - m - i + 1,
    {
        if lit_at(t, lit, i) {
            let c = cont_connect(t, i + m);
            if let Some(cap) = c {
                return Some(cap);
            }
        }
        i = i + 1;
    }
    None
}

// ---------------------------------------------------------------------------
// The transfer line: "<n> <unit> received, <n> <unit> sent".
// ---------------------------------------------------------------------------

/// Continuation of the transfer field at `p`. Each capture spans a number
/// run, the whitespace after it, and a unit word, exactly as handed to the
/// byte-quantity parser.
pub open spec fn transfer_at(t: Seq<char>, p: int) -> Option<(int, int, int, int)> {
    let q = skip_ws(t, p);
    if !(p < q && q < t.len()) {
        None
    } else {
        let n1 = run_end(t, CharClass::NumOrDot, q);
        if n1 <= q {
            None
        } else {
            let w1 = skip_ws(t, n1);
            if w1 <= n1 {
                None
            } else {
                let u1 = run_end(t, CharClass::Alpha, w1);
                if u1 <= w1 {
                    None
                } else {
                    let s2 = skip_ws(t, u1);
                    if s2 <= u1 || !occurs_at(t, "received,"@, s2) {
                        None
                    } else {
                        let p2 = s2 + "received,"@.len();
                        let q2 = skip_ws(t, p2);
                        if q2 <= p2 {
                            None
                        } else {
                            let n2 = run_end(t, CharClass::NumOrDot, q2);
                            if n2 <= q2 {
                                None
                            } else {
                                let w2 = skip_ws(t, n2);
                                if w2 <= n2 {
                                    None
                                } else {
                                    let u2 = run_end(t, CharClass::Alpha, w2);
                                    if u2 <= w2 {
                                        None
                                    } else {
                                        let s4 = skip_ws(t, u2);
                                        if s4 <= u2 || !occurs_at(t, "sent"@, s4) {
                                            None
                                        } else {
                                            Some((q, u1, q2, u2))
                                        }
                                    }
                                }
                            }
                        }
                    }
                }
            }
        }
    }
}

/// First anchor occurrence whose transfer continuation matches.
pub open spec fn transfer_from(t: Seq<char>, i: int) -> Option<(int, int, int, int)>
    decreases t.len() + 1 - i,
{
    let lit = "Transfer:"@;
    if i < 0 || i + lit.len() > t.len() {
        None
    } else if occurs_at(t, lit, i) && transfer_at(t, i + lit.len()) is Some {
        transfer_at(t, i + lit.len())
    } else {
        transfer_from(t, i + 1)
    }
}

/// Executable continuation check for the transfer field.
fn cont_transfer(t: &str, p: usize) -> (r: Option<(usize, usize, usize, usize)>)
    requires
        p <= t@.len(),
    ensures
        match r {
            Some(c) => c.0 <= c.1 <= t@.len() && c.2 <= c.3 <= t@.len() && transfer_at(
                t@,
                p as int,
            ) == Some((c.0 as int, c.1 as int, c.2 as int, c.3 as int)),
            None => transfer_at(t@, p as int) is None,
        },
{
    let n = t.unicode_len();
    let q = scan_skip_ws(t, p);
    if q == p || q == n {
        return None;
    }
    let n1 = scan_run(t, CharClass::NumOrDot, q);
    if n1 == q {
        return None;
    }
    let w1 = scan_skip_ws(t, n1);
    if w1 == n1 {
        return None;
    }
    let u1 = scan_run(t, CharClass::Alpha, w1);
    if u1 == w1 {
        return None;
    }
    let s2 = scan_skip_ws(t, u1);
    if s2 == u1 || !lit_at(t, "received,", s2) {
        return None;
    }
    proof {
        reveal_strlit("received,");
    }
    let p2 = s2 + "received,".unicode_len();
    let q2 = scan_skip_ws(t, p2);
    if q2 == p2 {
        return None;
    }
    let n2 = scan_run(t, CharClass::NumOrDot, q2);
    if n2 == q2 {
        return None;
    }
    let w2 = scan_skip_ws(t, n2);
    if w2 == n2 {
        return None;
    }
    let u2 = scan_run(t, CharClass::Alpha, w2);
    if u2 == w2 {
        return None;
    }
    let s4 = scan_skip_ws(t, u2);
    if s4 == u2 || !lit_at(t, "sent", s4) {
        return None;
    }
    Some((q, u1, q2, u2))
}

/// Executable search for the transfer field.
pub fn find_transfer(t: &str) -> (r: Option<(usize, usize, usize, usize)>)
    ensures
        match r {
            Some(c) => c.0 <= c.1 <= t@.len() && c.2 <= c.3 <= t@.len() && transfer_from(t@, 0)
                == Some((c.0 as int, c.1 as int, c.2 as int, c.3 as int)),
            None => transfer_from(t@, 0) is None,
        },
{
    let lit = "Transfer:";
    proof {
        reveal_strlit("Transfer:");
    }
    let n = t.unicode_len();
    let m = lit.unicode_len();
    if m > n {
        return None;
    }
    let mut i: usize = 0;
    while i <= n - m
        invariant
            1 <= m <= n,
            i <= n - m + 1,
            n == t@.len(),
            m == "Transfer:"@.len(),
            lit@ == "Transfer:"@,
            transfer_from(t@, 0) == transfer_from(t@, i as int),
        decreases n - m - i + 1,
    {
        if lit_at(t, lit, i) {
            let c = cont_transfer(t, i + m);
            if let Some(cap) = c {
                return Some(cap);
            }
        }
        i = i + 1;
    }
    None
}

// ---------------------------------------------------------------------------
// The uptime line: six optional "<n> <unit>" components in fixed order.
// ---------------------------------------------------------------------------

/// One optional uptime component at `i`: a digit run, whitespace, the unit
/// word with an optional plural `s`, then any further whitespace. The
/// result is the component's decimal value and the position after it.
pub open spec fn comp_at(t: Seq<char>, i: int, unit: Seq<char>) -> Option<(int, int)> {
    let de = run_end(t, CharClass::Digit, i);
    if de <= i {
        None
    } else {
        let w = skip_ws(t, de);
        if w <= de || !occurs_at(t, unit, w) {
            None
        } else {
            let a = w + unit.len();
            let a2: int = if a < t.len() && t[a] == 's' {
                a + 1
            } else {
                a
            };
            Some((dec_val(t.subrange(i, de)), skip_ws(t, a2)))
        }
    }
}

/// The component's value and next position, with an absent component
/// reading as zero and not advancing.
pub open spec fn comp_val(t: Seq<char>, i: int, unit: Seq<char>) -> (int, int) {
    match comp_at(t, i, unit) {
        Some(v) => v,
        None => (0, i),
    }
}

/// Continuation of the uptime field at `p`: whitespace, then the six
/// components in the fixed order years, months, days, hours, minutes,
/// seconds, each independently optional (absence means zero).
pub open spec fn uptime_at(t: Seq<char>, p: int) -> Option<(int, int, int, int, int, int)> {
    let q = skip_ws(t, p);
    if q <= p {
        None
    } else {
        let cy = comp_val(t, q, "year"@);
        let cmo = comp_val(t, cy.1, "month"@);
        let cd = comp_val(t, cmo.1, "day"@);
        let ch = comp_val(t, cd.1, "hour"@);
        let cmi = comp_val(t, ch.1, "minute"@);
        let cs = comp_val(t, cmi.1, "second"@);
        Some((cy.0, cmo.0, cd.0, ch.0, cmi.0, cs.0))
    }
}

/// First anchor occurrence whose uptime continuation matches.
pub open spec fn uptime_from(t: Seq<char>, i: int) -> Option<(int, int, int, int, int, int)>
    decreases t.len() + 1 - i,
{
    let lit = "Uptime:"@;
    if i < 0 || i + lit.len() > t.len() {
        None
    } else if occurs_at(t, lit, i) && uptime_at(t, i + lit.len()) is Some {
        uptime_at(t, i + lit.len())
    } else {
        uptime_from(t, i + 1)
    }
}

/// Executable check of one uptime component. The inner option is `None`
/// exactly when the component's value does not fit `u64`.
fn cont_comp(t: &str, i: usize, unit: &str) -> (r: Option<(Option<u64>, usize)>)
    requires
        i <= t@.len(),
        1 <= unit@.len(),
    ensures
        match r {
            Some(c) => comp_at(t@, i as int, unit@) matches Some(sv) && c.1 <= t@.len() && c.1
                as int == sv.1 && (match c.0 {
                Some(v) => v as int == sv.0 && sv.0 <= u64::MAX,
                None => sv.0 > u64::MAX,
            }),
            None => comp_at(t@, i as int, unit@) is None,
        },
{
    let n = t.unicode_len();
    let de = scan_run(t, CharClass::Digit, i);
    if de == i {
        return None;
    }
    let w = scan_skip_ws(t, de);
    if w == de || !lit_at(t, unit, w) {
        return None;
    }
    let a = w + unit.unicode_len();
    let a2 = if a < n && t.get_char(a) == 's' {
        a + 1
    } else {
        a
    };
    let nx = scan_skip_ws(t, a2);
    proof {
        lemma_run_end_props(t@, CharClass::Digit, i as int);
    }
    let v = parse_u64_digits(t, i, de);
    Some((v, nx))
}

/// Executable continuation check for the uptime field. The inner option is
/// `None` exactly when the normalized total does not fit `u64`; otherwise it
/// is the total in whole seconds.
fn cont_uptime(t: &str, p: usize) -> (r: Option<Option<u64>>)
    requires
        p <= t@.len(),
    ensures
        match r {
            Some(inner) => uptime_at(t@, p as int) matches Some(sv) && (match inner {
                Some(secs) => secs as int == crate::domain::uptime_total(
                    sv.0,
                    sv.1,
                    sv.2,
                    sv.3,
                    sv.4,
                    sv.5,
                ) && crate::domain::uptime_total(sv.0, sv.1, sv.2, sv.3, sv.4, sv.5) <= u64::MAX,
                None => crate::domain::uptime_total(sv.0, sv.1, sv.2, sv.3, sv.4, sv.5)
                    > u64::MAX,
            }),
            None => uptime_at(t@, p as int) is None,
        },
{
    let q = scan_skip_ws(t, p);
    if q == p {
        return None;
    }
    proof {
        reveal_strlit("year");
        reveal_strlit("month");
        reveal_strlit("day");
        reveal_strlit("hour");
        reveal_strlit("minute");
        reveal_strlit("second");
    }
    let mut pos = q;
    let vy = match cont_comp(t, pos, "year") {
        Some((v, nx)) => {
            pos = nx;
            v
        },
        None => Some(0u64),
    };
    let vmo = match cont_comp(t, pos, "month") {
        Some((v, nx)) => {
            pos = nx;
            v
        },
        None => Some(0u64),
    };
    let vd = match cont_comp(t, pos, "day") {
        Some((v, nx)) => {
            pos = nx;
            v
        },
        None => Some(0u64),
    };
    let vh = match cont_comp(t, pos, "hour") {
        Some((v, nx)) => {
            pos = nx;
            v
        },
        None => Some(0u64),
    };
    let vmi = match cont_comp(t, pos, "minute") {
        Some((v, nx)) => {
            pos = nx;
            v
        },
        None => Some(0u64),
    };
    let vs = match cont_comp(t, pos, "second") {
        Some((v, nx)) => {
            pos = nx;
            v
        },
        None => Some(0u64),
    };
    proof {
        let c1 = comp_val(t@, q as int, "year"@);
        lemma_comp_nonneg(t@, q as int, "year"@);
        let c2 = comp_val(t@, c1.1, "month"@);
        lemma_comp_nonneg(t@, c1.1, "month"@);
        let c3 = comp_val(t@, c2.1, "day"@);
        lemma_comp_nonneg(t@, c2.1, "day"@);
        let c4 = comp_val(t@, c3.1, "hour"@);
        lemma_comp_nonneg(t@, c3.1, "hour"@);
        let c5 = comp_val(t@, c4.1, "minute"@);
        lemma_comp_nonneg(t@, c4.1, "minute"@);
        lemma_comp_nonneg(t@, c5.1, "second"@);
    }
    match (vy, vmo, vd, vh, vmi, vs) {
        (Some(y), Some(mo), Some(d), Some(h), Some(mi), Some(s)) => Some(
            crate::domain::uptime_seconds(y, mo, d, h, mi, s),
        ),
        _ => Some(None),
    }
}

/// An absent or well-formed uptime component never has a negative value,
/// and never moves the scan backwards.
pub proof fn lemma_comp_nonneg(t: Seq<char>, i: int, unit: Seq<char>)
    requires
        0 <= i <= t.len(),
    ensures
        comp_val(t, i, unit).0 >= 0,
        i <= comp_val(t, i, unit).1 <= t.len(),
{
    lemma_run_end_props(t, CharClass::Digit, i);
    let de = run_end(t, CharClass::Digit, i);
    if comp_at(t, i, unit) is Some {
        let sub = t.subrange(i, de);
        assert(forall|k: int| 0 <= k < sub.len() ==> is_digit_char(sub[k]));
        lemma_dec_val_nonneg(sub);
        let w = skip_ws(t, de);
        lemma_run_end_props(t, CharClass::Whitespace, de);
        let a = w + unit.len();
        let a2: int = if a < t.len() && t[a] == 's' {
            a + 1
        } else {
            a
        };
        lemma_run_end_props(t, CharClass::Whitespace, a2);
    }
}

/// Executable search for the uptime field.
pub fn find_uptime(t: &str) -> (r: Option<Option<u64>>)
    ensures
        match r {
            Some(inner) => uptime_from(t@, 0) matches Some(sv) && (match inner {
                Some(secs) => secs as int == crate::domain::uptime_total(
                    sv.0,
                    sv.1,
                    sv.2,
                    sv.3,
                    sv.4,
                    sv.5,
                ) && crate::domain::uptime_total(sv.0, sv.1, sv.2, sv.3, sv.4, sv.5) <= u64::MAX,
                None => crate::domain::uptime_total(sv.0, sv.1, sv.2, sv.3, sv.4, sv.5)
                    > u64::MAX,
            }),
            None => uptime_from(t@, 0) is None,
        },
{
    let lit = "Uptime:";
    proof {
        reveal_strlit("Uptime:");
    }
    let n = t.unicode_len();
    let m = lit.unicode_len();
    if m > n {
        return None;
    }
    let mut i: usize = 0;
    while i <= n - m
        invariant
            1 <= m <= n,
            i <= n - m + 1,
            n == t@.len(),
            m == "Uptime:"@.len(),
            lit@ == "Uptime:"@,
            uptime_from(t@, 0) == uptime_from(t@, i as int),
        decreases n - m - i + 1,
    {
        if lit_at(t, lit, i) {
            let c = cont_uptime(t, i + m);
            if let Some(cap) = c {
                return Some(cap);
            }
        }
        i = i + 1;
    }
    None
}

// ---------------------------------------------------------------------------
// The server address: a colon-separated hex form tried first, then a
// dotted quad whose components must each fit in one byte.
// ---------------------------------------------------------------------------

/// Consume up to `k` groups of at most four hex digits each followed by a
/// colon, returning the position after the groups and how many were
/// consumed.
pub open spec fn v6_groups(t: Seq<char>, i: int, k: nat) -> (int, nat)
    decreases k,
{
    if k == 0 {
        (i, 0 as nat)
    } else {
        let e = run_end(t, CharClass::HexDigit, i);
        if e - i <= 4 && e < t.len() && t[e] == ':' {
            let rec = v6_groups(t, e + 1, (k - 1) as nat);
            (rec.0, (rec.1 + 1) as nat)
        } else {
            (i, 0 as nat)
        }
    }
}

/// A colon-separated address shape at `q`: one to seven hex groups with
/// colons, then a tail of at most four hex digits. Returns the end.
pub open spec fn ip_v6_at(t: Seq<char>, q: int) -> Option<int> {
    let g = v6_groups(t, q, 7);
    if g.1 >= 1 {
        let e = run_end(t, CharClass::HexDigit, g.0);
        if e - g.0 <= 4 {
            Some(e)
        } else {
            Some(g.0 + 4)
        }
    } else {
        None
    }
}

/// A dotted-quad shape at `q`: four runs of one to three digits separated
/// by dots, each with decimal value at most 255. Returns the four values
/// and the end.
pub open spec fn ip_v4_at(t: Seq<char>, q: int) -> Option<(int, int, int, int, int)> {
    let ae = run_end(t, CharClass::Digit, q);
    if !(q + 1 <= ae <= q + 3) || ae >= t.len() || t[ae] != '.' {
        None
    } else {
        let bs = ae + 1;
        let be = run_end(t, CharClass::Digit, bs);
        if !(bs + 1 <= be <= bs + 3) || be >= t.len() || t[be] != '.' {
            None
        } else {
            let cs = be + 1;
            let ce = run_end(t, CharClass::Digit, cs);
            if !(cs + 1 <= ce <= cs + 3) || ce >= t.len() || t[ce] != '.' {
                None
            } else {
                let ds = ce + 1;
                let dde = run_end(t, CharClass::Digit, ds);
                if !(ds + 1 <= dde <= ds + 3) {
                    None
                } else {
                    let a = dec_val(t.subrange(q, ae));
                    let b = dec_val(t.subrange(bs, be));
                    let c = dec_val(t.subrange(cs, ce));
                    let d = dec_val(t.subrange(ds, dde));
                    if a <= 255 && b <= 255 && c <= 255 && d <= 255 {
                        Some((a, b, c, d, dde))
                    } else {
                        None
                    }
                }
            }
        }
    }
}

/// Continuation of the address field at `p`: whitespace, then either shape,
/// the colon-separated one tried first. The flag is true for a dotted quad.
pub open spec fn ip_at(t: Seq<char>, p: int) -> Option<(bool, int, int)> {
    let q = skip_ws(t, p);
    if !(p < q && q < t.len()) {
        None
    } else if ip_v6_at(t, q) is Some {
        Some((false, q, ip_v6_at(t, q)->Some_0))
    } else if ip_v4_at(t, q) is Some {
        Some((true, q, ip_v4_at(t, q)->Some_0.4))
    } else {
        None
    }
}

/// First anchor occurrence whose address continuation matches.
pub open spec fn ip_from(t: Seq<char>, i: int) -> Option<(bool, int, int)>
    decreases t.len() + 1 - i,
{
    let lit = "Server IP:"@;
    if i < 0 || i + lit.len() > t.len() {
        None
    } else if occurs_at(t, lit, i) && ip_at(t, i + lit.len()) is Some {
        ip_at(t, i + lit.len())
    } else {
        ip_from(t, i + 1)
    }
}

/// An executable address capture: either the four byte values of a dotted
/// quad with its span start and end, or the span of a colon-separated form.
pub enum IpCapture {
    V4(u8, u8, u8, u8, usize, usize),
    V6(usize, usize),
}

/// Executable continuation check for the address field.
fn cont_ip(t: &str, p: usize) -> (r: Option<IpCapture>)
    requires
        p <= t@.len(),
    ensures
        match r {
            Some(IpCapture::V6(q, e)) => q <= e <= t@.len() && ip_at(t@, p as int) == Some(
                (false, q as int, e as int),
            ),
            Some(IpCapture::V4(a, b, c, d, q, e)) => q <= e <= t@.len() && ip_at(t@, p as int)
                == Some((true, q as int, e as int)) && ip_v4_at(t@, q as int) == Some(
                (a as int, b as int, c as int, d as int, e as int),
            ),
            None => ip_at(t@, p as int) is None,
        },
{
    let n = t.unicode_len();
    let q = scan_skip_ws(t, p);
    if q == p || q == n {
        return None;
    }
    // Colon-separated shape first.
    let mut pos = q;
    let mut used: usize = 0;
    let mut done = false;
    while !done && used < 7
        invariant
            q <= pos <= n,
            used <= 7,
            n == t@.len(),
            v6_groups(t@, q as int, 7).0 == v6_groups(t@, pos as int, (7 - used) as nat).0,
            v6_groups(t@, q as int, 7).1 == used + v6_groups(t@, pos as int, (7 - used) as nat).1,
            done ==> v6_groups(t@, pos as int, (7 - used) as nat) == (pos as int, 0 as nat),
        decreases 7 - used, 1int - (if done { 1int } else { 0int }),
    {
        let e = scan_run(t, CharClass::HexDigit, pos);
        if e - pos <= 4 && e < n && t.get_char(e) == ':' {
            pos = e + 1;
            used = used + 1;
        } else {
            done = true;
        }
    }
    assert(v6_groups(t@, pos as int, (7 - used) as nat) == (pos as int, 0 as nat));
    assert(v6_groups(t@, q as int, 7) == (pos as int, used as nat));
    if used >= 1 {
        let e = scan_run(t, CharClass::HexDigit, pos);
        let tail = if e - pos <= 4 {
            e
        } else {
            pos + 4
        };
        return Some(IpCapture::V6(q, tail));
    }
    // Dotted-quad shape.
    assert(ip_v6_at(t@, q as int) is None);
    let ae = scan_run(t, CharClass::Digit, q);
    if ae - q < 1 || ae - q > 3 || ae == n || t.get_char(ae) != '.' {
        return None;
    }
    let bs = ae + 1;
    let be = scan_run(t, CharClass::Digit, bs);
    if be - bs < 1 || be - bs > 3 || be == n || t.get_char(be) != '.' {
        return None;
    }
    let cs = be + 1;
    let ce = scan_run(t, CharClass::Digit, cs);
    if ce - cs < 1 || ce - cs > 3 || ce == n || t.get_char(ce) != '.' {
        return None;
    }
    let ds = ce + 1;
    let dde = scan_run(t, CharClass::Digit, ds);
    if dde - ds < 1 || dde - ds > 3 {
        return None;
    }
    proof {
        lemma_run_end_props(t@, CharClass::Digit, q as int);
        lemma_run_end_props(t@, CharClass::Digit, bs as int);
        lemma_run_end_props(t@, CharClass::Digit, cs as int);
        lemma_run_end_props(t@, CharClass::Digit, ds as int);
    }
    let a = match parse_u64_digits(t, q, ae) {
        Some(v) if v <= 255 => v as u8,
        _ => {
            return None;
        },
    };
    let b = match parse_u64_digits(t, bs, be) {
        Some(v) if v <= 255 => v as u8,
        _ => {
            return None;
        },
    };
    let c = match parse_u64_digits(t, cs, ce) {
        Some(v) if v <= 255 => v as u8,
        _ => {
            return None;
        },
    };
    let d = match parse_u64_digits(t, ds, dde) {
        Some(v) if v <= 255 => v as u8,
        _ => {
            return None;
        },
    };
    Some(IpCapture::V4(a, b, c, d, q, dde))
}

/// Executable search for the address field.
pub fn find_ip(t: &str) -> (r: Option<IpCapture>)
    ensures
        match r {
            Some(IpCapture::V6(q, e)) => q <= e <= t@.len() && ip_from(t@, 0) == Some(
                (false, q as int, e as int),
            ),
            Some(IpCapture::V4(a, b, c, d, q, e)) => q <= e <= t@.len() && ip_from(t@, 0) == Some(
                (true, q as int, e as int),
            ) && ip_v4_at(t@, q as int) == Some(
                (a as int, b as int, c as int, d as int, e as int),
            ),
            None => ip_from(t@, 0) is None,
        },
{
    let lit = "Server IP:";
    proof {
        reveal_strlit("Server IP:");
    }
    let n = t.unicode_len();
    let m = lit.unicode_len();
    if m > n {
        return None;
    }
    let mut i: usize = 0;
    while i <= n - m
        invariant
            1 <= m <= n,
            i <= n - m + 1,
            n == t@.len(),
            m == "Server IP:"@.len(),
            lit@ == "Server IP:"@,
            ip_from(t@, 0) == ip_from(t@, i as int),
        decreases n - m - i + 1,
    {
        if lit_at(t, lit, i) {
            let c = cont_ip(t, i + m);
            if let Some(cap) = c {
                return Some(cap);
            }
        }
        i = i + 1;
    }
    None
}

// ---------------------------------------------------------------------------
// The trailing version triple: "<digits>.<digits>.<digits>" then whitespace
// at the very end of the text.
// ---------------------------------------------------------------------------

/// A version triple at `i` that ends exactly at `end0`.
pub open spec fn version_at(t: Seq<char>, i: int, end0: int) -> Option<
    (int, int, int, int, int, int),
> {
    let d1 = run_end(t, CharClass::Digit, i);
    if d1 <= i || d1 >= end0 || t[d1] != '.' {
        None
    } else {
        let ms = d1 + 1;
        let me = run_end(t, CharClass::Digit, ms);
        if me <= ms || me >= end0 || t[me] != '.' {
            None
        } else {
            let ps = me + 1;
            let pe = run_end(t, CharClass::Digit, ps);
            if pe <= ps || pe != end0 {
                None
            } else {
                Some((i, d1, ms, me, ps, pe))
            }
        }
    }
}

/// Leftmost version triple ending at `end0`.
pub open spec fn version_from(t: Seq<char>, i: int, end0: int) -> Option<
    (int, int, int, int, int, int),
>
    decreases t.len() + 1 - i,
{
    if i < 0 || i >= end0 || end0 > t.len() {
        None
    } else if version_at(t, i, end0) is Some {
        version_at(t, i, end0)
    } else {
        version_from(t, i + 1, end0)
    }
}

/// The version capture of the whole text: at least one whitespace character
/// must close the text, and the triple must end right before it.
pub open spec fn version_match(t: Seq<char>) -> Option<(int, int, int, int, int, int)> {
    let end0 = trim_end(t, 0, t.len() as int);
    if end0 >= t.len() {
        None
    } else {
        version_from(t, 0, end0)
    }
}

/// Executable search for the trailing version triple.
pub fn find_version(t: &str) -> (r: Option<(usize, usize, usize, usize, usize, usize)>)
    ensures
        match r {
            Some(c) => c.0 < c.1 <= t@.len() && c.2 < c.3 <= t@.len() && c.4 < c.5 <= t@.len()
                && version_match(t@) == Some(
                (c.0 as int, c.1 as int, c.2 as int, c.3 as int, c.4 as int, c.5 as int),
            ) && c.1 as int == run_end(t@, CharClass::Digit, c.0 as int) && c.3 as int == run_end(
                t@,
                CharClass::Digit,
                c.2 as int,
            ) && c.5 as int == run_end(t@, CharClass::Digit, c.4 as int),
            None => version_match(t@) is None,
        },
{
    let n = t.unicode_len();
    let end0 = scan_trim_end(t, 0, n);
    if end0 == n {
        return None;
    }
    let mut i: usize = 0;
    while i < end0
        invariant
            i <= end0 < n,
            n == t@.len(),
            end0 as int == trim_end(t@, 0, t@.len() as int),
            version_from(t@, 0, end0 as int) == version_from(t@, i as int, end0 as int),
        decreases end0 - i,
    {
        let d1 = scan_run(t, CharClass::Digit, i);
        if d1 > i && d1 < end0 && t.get_char(d1) == '.' {
            let ms = d1 + 1;
            let me = scan_run(t, CharClass::Digit, ms);
            if me > ms && me < end0 && t.get_char(me) == '.' {
                let ps = me + 1;
                let pe = scan_run(t, CharClass::Digit, ps);
                if pe > ps && pe == end0 {
                    return Some((i, d1, ms, me, ps, pe));
                }
            }
        }
        assert(version_at(t@, i as int, end0 as int) is None);
        i = i + 1;
    }
    None
}

// ---------------------------------------------------------------------------
// Word lists: comma-separated word tokens, or one final token followed only
// by whitespace.
// ---------------------------------------------------------------------------

/// The word tokens of a list text, in order of appearance: a word run
/// followed by a comma is a token, and so is a word run followed only by
/// whitespace up to the end of the text. Any other run is skipped.
pub open spec fn list_texts(t: Seq<char>, i: int) -> Seq<Seq<char>>
    decreases t.len() - i,
    when 0 <= i <= t.len()
    via list_texts_dec
{
    if i < 0 || i >= t.len() {
        Seq::empty()
    } else if !is_word_char(t[i]) {
        list_texts(t, i + 1)
    } else {
        let e = run_end(t, CharClass::Word, i);
        if e < t.len() && t[e] == ',' {
            seq![t.subrange(i, e)] + list_texts(t, e + 1)
        } else if skip_ws(t, e) == t.len() {
            seq![t.subrange(i, e)]
        } else {
            list_texts(t, e)
        }
    }
}

#[via_fn]
proof fn list_texts_dec(t: Seq<char>, i: int) {
    if 0 <= i < t.len() && is_word_char(t[i]) {
        lemma_run_end_props(t, CharClass::Word, i + 1);
        assert(run_end(t, CharClass::Word, i) > i);
    }
}

/// Extract the list tokens of `t`, in order, with no token dropped and
/// none invented.
pub fn scan_list(t: &str) -> (r: Vec<String>)
    ensures
        r@.len() == list_texts(t@, 0).len(),
        forall|k: int| 0 <= k < r@.len() ==> r@[k]@ == list_texts(t@, 0)[k],
{
    let n = t.unicode_len();
    let mut acc: Vec<String> = Vec::new();
    let ghost mut done: Seq<Seq<char>> = Seq::empty();
    let mut i: usize = 0;
    while i < n
        invariant
            i <= n,
            n == t@.len(),
            done + list_texts(t@, i as int) == list_texts(t@, 0),
            acc@.len() == done.len(),
            forall|k: int| 0 <= k < acc@.len() ==> acc@[k]@ == done[k],
        decreases n - i,
    {
        let c = t.get_char(i);
        if !class_char(CharClass::Word, c) {
            i = i + 1;
        } else {
            let e = scan_run(t, CharClass::Word, i);
            proof {
                lemma_run_end_props(t@, CharClass::Word, i as int + 1);
            }
            assert(e > i);
            let token_follows_comma = e < n && t.get_char(e) == ',';
            if token_follows_comma || scan_skip_ws(t, e) == n {
                let tok = t.substring_char(i, e).to_owned();
                proof {
                    done = done.push(tok@);
                    if token_follows_comma {
                        assert(done + list_texts(t@, e as int + 1) =~= list_texts(t@, 0));
                    } else {
                        assert(list_texts(t@, i as int) =~= seq![t@.subrange(i as int, e as int)]);
                        assert(done + Seq::<Seq<char>>::empty() =~= list_texts(t@, 0));
                    }
                }
                acc.push(tok);
                if token_follows_comma {
                    i = e + 1;
                } else {
                    assert(acc@.len() == list_texts(t@, 0).len());
                    return acc;
                }
            } else {
                i = e;
            }
        }
    }
    acc
}

/// The word-list extractor of the list operations: `None` exactly when no
/// token exists; otherwise the tokens in order.
pub fn parse_list(t: &str) -> (r: Option<Vec<String>>)
    ensures
        match r {
            Some(v) => list_texts(t@, 0).len() > 0 && v@.len() == list_texts(t@, 0).len()
                && forall|k: int| 0 <= k < v@.len() ==> v@[k]@ == list_texts(t@, 0)[k],
            None => list_texts(t@, 0).len() == 0,
        },
{
    let v = scan_list(t);
    if v.len() == 0 {
        None
    } else {
        Some(v)
    }
}

} // verus!
