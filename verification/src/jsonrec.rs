//! The JSON record format used for persisted artifacts: string escaping,
//! quoted-string scanning and decimal number parsing, together with the
//! proofs that reading back what was written recovers the values written.
//!
//! The serializer emits a canonical form: object fields in a fixed order,
//! string values with `"` and `\` escaped and control characters written as
//! `\u00XX`, numbers in plain decimal. The parser accepts exactly that
//! canonical form, which is all the round-trip guarantee needs.

use vstd::prelude::*;
use vstd::string::StrSliceExecFns;
use vstd::string::StringExecFns;
use crate::chars::dec_val;
use crate::chars::digit_val;
use crate::chars::push_char;

verus! {

/// The lower-case hexadecimal digit character for a value below sixteen.
pub open spec fn hex_digit(d: int) -> char {
    if d == 0 {
        '0'
    } else if d == 1 {
        '1'
    } else if d == 2 {
        '2'
    } else if d == 3 {
        '3'
    } else if d == 4 {
        '4'
    } else if d == 5 {
        '5'
    } else if d == 6 {
        '6'
    } else if d == 7 {
        '7'
    } else if d == 8 {
        '8'
    } else if d == 9 {
        '9'
    } else if d == 10 {
        'a'
    } else if d == 11 {
        'b'
    } else if d == 12 {
        'c'
    } else if d == 13 {
        'd'
    } else if d == 14 {
        'e'
    } else {
        'f'
    }
}

/// The value of a lower-case hexadecimal digit character, or -1.
pub open spec fn hex_val(c: char) -> int {
    if c == 'a' {
        10
    } else if c == 'b' {
        11
    } else if c == 'c' {
        12
    } else if c == 'd' {
        13
    } else if c == 'e' {
        14
    } else if c == 'f' {
        15
    } else {
        digit_val(c)
    }
}

/// How one character is written inside a JSON string value.
pub open spec fn esc_char(c: char) -> Seq<char> {
    if c == '"' {
        seq!['\\', '"']
    } else if c == '\\' {
        seq!['\\', '\\']
    } else if (c as int) < 0x20 {
        seq!['\\', 'u', '0', '0', hex_digit((c as int) / 16), hex_digit((c as int) % 16)]
    } else {
        seq![c]
    }
}

/// A whole string as written inside a JSON string value.
pub open spec fn esc(s: Seq<char>) -> Seq<char>
    decreases s.len(),
{
    if s.len() == 0 {
        Seq::<char>::empty()
    } else {
        esc_char(s[0]) + esc(s.drop_first())
    }
}

proof fn lemma_esc_push(s: Seq<char>, c: char)
    ensures
        esc(s.push(c)) == esc(s) + esc_char(c),
    decreases s.len(),
{
    if s.len() == 0 {
        assert(s.push(c)[0] == c);
        assert(s.push(c).drop_first() =~= Seq::<char>::empty());
        assert(esc(Seq::<char>::empty()) == Seq::<char>::empty());
        assert(esc(s.push(c)) == esc_char(c) + esc(Seq::<char>::empty()));
        assert(esc(s.push(c)) =~= esc(s) + esc_char(c));
    } else {
        assert(s.push(c).drop_first() =~= s.drop_first().push(c));
        lemma_esc_push(s.drop_first(), c);
        assert(esc(s.push(c)) =~= esc(s) + esc_char(c));
    }
}

fn hex_char(d: u32) -> (c: char)
    requires
        d < 16,
    ensures
        c == hex_digit(d as int),
{
    if d == 0 {
        '0'
    } else if d == 1 {
        '1'
    } else if d == 2 {
        '2'
    } else if d == 3 {
        '3'
    } else if d == 4 {
        '4'
    } else if d == 5 {
        '5'
    } else if d == 6 {
        '6'
    } else if d == 7 {
        '7'
    } else if d == 8 {
        '8'
    } else if d == 9 {
        '9'
    } else if d == 10 {
        'a'
    } else if d == 11 {
        'b'
    } else if d == 12 {
        'c'
    } else if d == 13 {
        'd'
    } else if d == 14 {
        'e'
    } else {
        'f'
    }
}

/// Appends the JSON-escaped form of `s` to `out`.
pub fn append_escaped(out: &mut String, s: &str)
    ensures
        final(out)@ == old(out)@ + esc(s@),
{
    let n: usize = s.unicode_len();
    let mut i: usize = 0;
    proof {
        assert(s@.subrange(0, 0) =~= Seq::<char>::empty());
        assert(out@ + esc(s@.subrange(0, 0)) =~= out@);
    }
    while i < n
        invariant
            0 <= i <= n,
            n == s@.len(),
            out@ == old(out)@ + esc(s@.subrange(0, i as int)),
        decreases n - i,
    {
        let c = s.get_char(i);
        if c == '"' {
            push_char(out, '\\');
            push_char(out, '"');
        } else if c == '\\' {
            push_char(out, '\\');
            push_char(out, '\\');
        } else {
            let code: u32 = c as u32;
            if code < 0x20 {
                push_char(out, '\\');
                push_char(out, 'u');
                push_char(out, '0');
                push_char(out, '0');
                push_char(out, hex_char(code / 16));
                push_char(out, hex_char(code % 16));
            } else {
                push_char(out, c);
            }
        }
        proof {
            let pre = s@.subrange(0, i as int);
            assert(s@.subrange(0, i + 1) =~= pre.push(s@[i as int]));
            lemma_esc_push(pre, s@[i as int]);
            assert(out@ =~= old(out)@ + esc(s@.subrange(0, i + 1)));
        }
        i = i + 1;
    }
    proof {
        assert(s@.subrange(0, n as int) =~= s@);
    }
}

/// Reads the body of a JSON string value starting at `i`, up to and
/// including the closing quote; yields the unescaped content and the index
/// just past the quote. Accepts exactly the escapes the serializer emits.
pub open spec fn scan_string(s: Seq<char>, i: int) -> Option<(Seq<char>, int)>
    decreases s.len() - i,
{
    if i < 0 || i >= s.len() {
        None
    } else if s[i] == '"' {
        Some((Seq::<char>::empty(), i + 1))
    } else if s[i] == '\\' {
        if i + 1 < s.len() && (s[i + 1] == '"' || s[i + 1] == '\\') {
            match scan_string(s, i + 2) {
                Option::None => None,
                Option::Some((t, j)) => Some((seq![s[i + 1]] + t, j)),
            }
        } else if i + 5 < s.len() && s[i + 1] == 'u' && s[i + 2] == '0' && s[i + 3] == '0'
            && hex_val(s[i + 4]) >= 0 && hex_val(s[i + 5]) >= 0 {
            match scan_string(s, i + 6) {
                Option::None => None,
                Option::Some((t, j)) => Some(
                    (seq![(((hex_val(s[i + 4]) * 16 + hex_val(s[i + 5])) as u8) as char)] + t, j),
                ),
            }
        } else {
            None
        }
    } else {
        match scan_string(s, i + 1) {
            Option::None => None,
            Option::Some((t, j)) => Some((seq![s[i]] + t, j)),
        }
    }
}

/// The view of an executable scan result.
pub open spec fn scanned_view(r: Option<(String, usize)>) -> Option<(Seq<char>, int)> {
    match r {
        Option::None => None,
        Option::Some((t, j)) => Some((t@, j as int)),
    }
}

fn hex_value(c: char) -> (r: Option<u32>)
    ensures
        hex_val(c) >= 0 <==> r is Some,
        r matches Some(d) ==> d == hex_val(c) && d < 16,
{
    if c == '0' {
        Some(0)
    } else if c == '1' {
        Some(1)
    } else if c == '2' {
        Some(2)
    } else if c == '3' {
        Some(3)
    } else if c == '4' {
        Some(4)
    } else if c == '5' {
        Some(5)
    } else if c == '6' {
        Some(6)
    } else if c == '7' {
        Some(7)
    } else if c == '8' {
        Some(8)
    } else if c == '9' {
        Some(9)
    } else if c == 'a' {
        Some(10)
    } else if c == 'b' {
        Some(11)
    } else if c == 'c' {
        Some(12)
    } else if c == 'd' {
        Some(13)
    } else if c == 'e' {
        Some(14)
    } else if c == 'f' {
        Some(15)
    } else {
        None
    }
}

/// Executable counterpart of `scan_string`.
pub fn scan_string_at(s: &str, i: usize) -> (r: Option<(String, usize)>)
    ensures
        scanned_view(r) == scan_string(s@, i as int),
    decreases s@.len() - i,
{
    let n: usize = s.unicode_len();
    if i >= n {
        return None;
    }
    let c = s.get_char(i);
    if c == '"' {
        let out = String::new();
        return Some((out, i + 1));
    }
    if c == '\\' {
        if i + 1 < n {
            let e = s.get_char(i + 1);
            if e == '"' || e == '\\' {
                match scan_string_at(s, i + 2) {
                    Option::None => {
                        return None;
                    },
                    Option::Some((t, j)) => {
                        let mut out = String::new();
                        push_char(&mut out, e);
                        out.append(t.as_str());
                        proof {
                            assert(out@ =~= seq![s@[i + 1]] + t@);
                        }
                        return Some((out, j));
                    },
                }
            }
        }
        if n >= 6 && i <= n - 6 {
            let e1 = s.get_char(i + 1);
            let e2 = s.get_char(i + 2);
            let e3 = s.get_char(i + 3);
            if e1 == 'u' && e2 == '0' && e3 == '0' {
                let h1 = hex_value(s.get_char(i + 4));
                let h2 = hex_value(s.get_char(i + 5));
                match (h1, h2) {
                    (Option::Some(v1), Option::Some(v2)) => {
                        match scan_string_at(s, i + 6) {
                            Option::None => {
                                return None;
                            },
                            Option::Some((t, j)) => {
                                let b: u8 = (v1 * 16 + v2) as u8;
                                let dc: char = b as char;
                                let mut out = String::new();
                                push_char(&mut out, dc);
                                out.append(t.as_str());
                                proof {
                                    assert(out@ =~= seq![
                                        (((hex_val(s@[i + 4]) * 16 + hex_val(s@[i + 5])) as u8)
                                            as char),
                                    ] + t@);
                                }
                                return Some((out, j));
                            },
                        }
                    },
                    _ => {
                        return None;
                    },
                }
            }
        }
        return None;
    }
    match scan_string_at(s, i + 1) {
        Option::None => None,
        Option::Some((t, j)) => {
            let mut out = String::new();
            push_char(&mut out, c);
            out.append(t.as_str());
            proof {
                assert(out@ =~= seq![s@[i as int]] + t@);
            }
            Some((out, j))
        },
    }
}

proof fn lemma_hex_round(d: int)
    requires
        0 <= d < 16,
    ensures
        hex_val(hex_digit(d)) == d,
{
}

/// Whether every character carries a code point the way a well-formed
/// string does. Every character of a real Rust string satisfies this; it is
/// stated explicitly because a ghost `Seq<char>` is not known to.
pub open spec fn valid_chars(s: Seq<char>) -> bool {
    forall|k: int| 0 <= k < s.len() ==> 0 <= (#[trigger] s[k]) as int
}

proof fn lemma_index_of_subrange_eq(s: Seq<char>, i: int, w: Seq<char>, k: int)
    requires
        0 <= i,
        i + w.len() <= s.len(),
        s.subrange(i, i + w.len()) == w,
        0 <= k < w.len(),
    ensures
        s[i + k] == w[k],
{
    assert(s.subrange(i, i + w.len())[k] == s[i + k]);
}

/// Scanning an escaped string recovers it: if `s` holds the escaped form of
/// `t` followed by a closing quote at position `i`, the scan yields `t` and
/// stops just past that quote.
pub proof fn lemma_scan_esc(s: Seq<char>, t: Seq<char>, i: int)
    requires
        0 <= i,
        valid_chars(t),
        i + esc(t).len() + 1 <= s.len(),
        s.subrange(i, i + esc(t).len() + 1) == esc(t).push('"'),
    ensures
        scan_string(s, i) == Some((t, i + esc(t).len() + 1)),
    decreases t.len(),
{
    let e = esc(t);
    let w = e.push('"');
    assert(w.len() == e.len() + 1);
    assert(s.subrange(i, i + w.len()) == w);
    if t.len() == 0 {
        assert(e == Seq::<char>::empty());
        lemma_index_of_subrange_eq(s, i, w, 0);
        assert(s[i] == '"');
    } else {
        let c = t[0];
        let t2 = t.drop_first();
        assert(valid_chars(t2)) by {
            assert(forall|k: int| 0 <= k < t2.len() ==> t2[k] == t[k + 1]);
        }
        let ec = esc_char(c);
        let e2 = esc(t2);
        assert(e == ec + e2);
        let ln = ec.len() as int;
        assert(s.subrange(i + ln, i + ln + e2.len() + 1) =~= e2.push('"')) by {
            assert forall|k: int| 0 <= k < e2.len() + 1 implies s.subrange(
                i + ln,
                i + ln + e2.len() + 1,
            )[k] == e2.push('"')[k] by {
                assert(s.subrange(i + ln, i + ln + e2.len() + 1)[k] == s[i + ln + k]);
                lemma_index_of_subrange_eq(s, i, w, ln + k);
                if k < e2.len() {
                    assert(w[ln + k] == e[ln + k]);
                    assert(e[ln + k] == e2[k]);
                } else {
                    assert(ln + k == e.len());
                    assert(w[ln + k] == '"');
                }
            }
        }
        lemma_scan_esc(s, t2, i + ln);
        lemma_index_of_subrange_eq(s, i, w, 0);
        assert(s[i + 0] == w[0] && i + 0 == i);
        if c == '"' {
            lemma_index_of_subrange_eq(s, i, w, 1);
            assert(s[i] == '\\' && s[i + 1] == '"');
            assert(scan_string(s, i) == Some((seq![s[i + 1]] + t2, i + 2 + e2.len() + 1)));
            assert(seq![s[i + 1]] + t2 =~= t);
        } else if c == '\\' {
            lemma_index_of_subrange_eq(s, i, w, 1);
            assert(s[i] == '\\' && s[i + 1] == '\\');
            assert(scan_string(s, i) == Some((seq![s[i + 1]] + t2, i + 2 + e2.len() + 1)));
            assert(seq![s[i + 1]] + t2 =~= t);
        } else if (c as int) < 0x20 {
            let v = c as int;
            assert(0 <= v) by {
                assert(0 <= (t[0] as int));
            }
            assert(v < 0x20);
            assert(0 <= v / 16 < 16 && 0 <= v % 16 < 16);
            lemma_index_of_subrange_eq(s, i, w, 1);
            lemma_index_of_subrange_eq(s, i, w, 2);
            lemma_index_of_subrange_eq(s, i, w, 3);
            lemma_index_of_subrange_eq(s, i, w, 4);
            lemma_index_of_subrange_eq(s, i, w, 5);
            assert(s[i] == '\\' && s[i + 1] == 'u' && s[i + 2] == '0' && s[i + 3] == '0');
            assert(s[i + 4] == hex_digit(v / 16) && s[i + 5] == hex_digit(v % 16));
            lemma_hex_round(v / 16);
            lemma_hex_round(v % 16);
            assert(v / 16 * 16 + v % 16 == v);
            assert((((hex_val(s[i + 4]) * 16 + hex_val(s[i + 5])) as u8) as char) == c);
            assert(scan_string(s, i) == Some((seq![c] + t2, i + 6 + e2.len() + 1)));
            assert(seq![c] + t2 =~= t);
        } else {
            assert(s[i] == c);
            assert(scan_string(s, i) == Some((seq![c] + t2, i + 1 + e2.len() + 1)));
            assert(seq![c] + t2 =~= t);
        }
    }
}

/// A successful scan always moves forward and stays within the string.
pub proof fn lemma_scan_string_bounds(s: Seq<char>, i: int)
    ensures
        scan_string(s, i) matches Some((t, j)) ==> i < j <= s.len(),
    decreases s.len() - i,
{
    if 0 <= i && i < s.len() {
        lemma_scan_string_bounds(s, i + 1);
        if i + 2 <= s.len() {
            lemma_scan_string_bounds(s, i + 2);
        }
        if i + 6 <= s.len() {
            lemma_scan_string_bounds(s, i + 6);
        }
    }
}

/// The end of the run of decimal digits that starts at `i`.
pub open spec fn digit_run_end(s: Seq<char>, i: int) -> int
    decreases s.len() - i,
{
    if 0 <= i && i < s.len() && digit_val(s[i]) >= 0 {
        digit_run_end(s, i + 1)
    } else {
        i
    }
}

/// The digit run stays within the string.
pub proof fn lemma_digit_run_end_bounds(s: Seq<char>, i: int)
    requires
        0 <= i <= s.len(),
    ensures
        i <= digit_run_end(s, i) <= s.len(),
    decreases s.len() - i,
{
    if i < s.len() && digit_val(s[i]) >= 0 {
        lemma_digit_run_end_bounds(s, i + 1);
    }
}

/// A run of digits bounded by a non-digit (or the end) is the digit run.
pub proof fn lemma_digit_run_end(s: Seq<char>, i: int, j: int)
    requires
        0 <= i <= j <= s.len(),
        forall|k: int| i <= k < j ==> digit_val(#[trigger] s[k]) >= 0,
        j == s.len() || digit_val(s[j]) < 0,
    ensures
        digit_run_end(s, i) == j,
    decreases j - i,
{
    if i < j {
        lemma_digit_run_end(s, i + 1, j);
    }
}

proof fn lemma_dec_val_nonneg(s: Seq<char>, i: int, m: int)
    requires
        0 <= i <= m <= s.len(),
        forall|k: int| i <= k < m ==> digit_val(#[trigger] s[k]) >= 0,
    ensures
        dec_val(s.subrange(i, m)) >= 0,
    decreases m - i,
{
    if m == i {
        assert(s.subrange(i, m) =~= Seq::<char>::empty());
    } else {
        lemma_dec_val_nonneg(s, i, m - 1);
        assert(s.subrange(i, m).drop_last() =~= s.subrange(i, m - 1));
        assert(s.subrange(i, m)[m - i - 1] == s[m - 1]);
    }
}

proof fn lemma_dec_val_mono(s: Seq<char>, i: int, m: int, j: int)
    requires
        0 <= i <= m <= j <= s.len(),
        forall|k: int| i <= k < j ==> digit_val(#[trigger] s[k]) >= 0,
    ensures
        dec_val(s.subrange(i, m)) <= dec_val(s.subrange(i, j)),
    decreases j - m,
{
    if m < j {
        lemma_dec_val_mono(s, i, m, j - 1);
        lemma_dec_val_nonneg(s, i, j - 1);
        assert(s.subrange(i, j).drop_last() =~= s.subrange(i, j - 1));
        assert(s.subrange(i, j)[j - i - 1] == s[j - 1]);
        assert(dec_val(s.subrange(i, j)) == dec_val(s.subrange(i, j - 1)) * 10 + digit_val(
            s[j - 1],
        ));
    }
}

/// Reads the decimal number starting at `i`: the whole digit run, refused
/// when empty or when its value does not fit in a `u64`.
pub open spec fn parse_u64_at_spec(s: Seq<char>, i: int) -> Option<(u64, int)> {
    let j = digit_run_end(s, i);
    if j == i {
        None
    } else if dec_val(s.subrange(i, j)) > u64::MAX {
        None
    } else {
        Some((dec_val(s.subrange(i, j)) as u64, j))
    }
}

/// The view of an executable number-parse result.
pub open spec fn parsed_u64_view(r: Option<(u64, usize)>) -> Option<(u64, int)> {
    match r {
        Option::None => None,
        Option::Some((v, j)) => Some((v, j as int)),
    }
}

/// Executable counterpart of `parse_u64_at_spec`.
pub fn parse_u64_at(s: &str, i: usize) -> (r: Option<(u64, usize)>)
    requires
        i <= s@.len(),
    ensures
        parsed_u64_view(r) == parse_u64_at_spec(s@, i as int),
{
    let n: usize = s.unicode_len();
    let mut j: usize = i;
    while j < n && crate::chars::digit_value(s.get_char(j)).is_some()
        invariant
            i <= j <= n,
            n == s@.len(),
            forall|k: int| i <= k < j ==> digit_val(#[trigger] s@[k]) >= 0,
        decreases n - j,
    {
        j = j + 1;
    }
    proof {
        lemma_digit_run_end(s@, i as int, j as int);
    }
    if j == i {
        return None;
    }
    let mut acc: u64 = 0;
    let mut k: usize = i;
    proof {
        assert(s@.subrange(i as int, i as int) =~= Seq::<char>::empty());
    }
    while k < j
        invariant
            i <= k <= j <= n,
            n == s@.len(),
            forall|kk: int| i <= kk < j ==> digit_val(#[trigger] s@[kk]) >= 0,
            acc == dec_val(s@.subrange(i as int, k as int)),
            digit_run_end(s@, i as int) == j,
        decreases j - k,
    {
        let d: u64 = match crate::chars::digit_value(s.get_char(k)) {
            Option::Some(d) => d,
            Option::None => {
                proof {
                    assert(digit_val(s@[k as int]) >= 0);
                }
                return None;
            },
        };
        if acc > (u64::MAX - d) / 10 {
            proof {
                let mx = u64::MAX as int;
                assert(mx - d == 10 * ((mx - d) / 10) + (mx - d) % 10);
                assert(10 * (acc as int) + d > mx);
                assert(s@.subrange(i as int, k + 1).drop_last() =~= s@.subrange(
                    i as int,
                    k as int,
                ));
                assert(s@.subrange(i as int, k + 1)[k - i] == s@[k as int]);
                assert(dec_val(s@.subrange(i as int, k + 1)) == (acc as int) * 10 + d);
                lemma_dec_val_mono(s@, i as int, k + 1, j as int);
            }
            return None;
        }
        proof {
            let mx = u64::MAX as int;
            assert(mx - d == 10 * ((mx - d) / 10) + (mx - d) % 10);
            assert(10 * (acc as int) + d <= mx);
            assert(s@.subrange(i as int, k + 1).drop_last() =~= s@.subrange(i as int, k as int));
            assert(s@.subrange(i as int, k + 1)[k - i] == s@[k as int]);
        }
        acc = acc * 10 + d;
        k = k + 1;
    }
    Some((acc, j))
}

/// Whether the literal `l` occurs in `s` at position `i`.
pub open spec fn lit_at(s: Seq<char>, i: int, l: Seq<char>) -> bool {
    0 <= i && i + l.len() <= s.len() && s.subrange(i, i + l.len()) == l
}

/// Matches the literal `l` at position `i`, yielding the position just past
/// it.
pub fn expect_lit(s: &str, i: usize, l: &str) -> (r: Option<usize>)
    requires
        i <= s@.len(),
    ensures
        r is Some <==> lit_at(s@, i as int, l@),
        r matches Some(j) ==> j == i + l@.len(),
{
    let n: usize = s.unicode_len();
    let m: usize = l.unicode_len();
    if m > n - i {
        return None;
    }
    let sub = s.substring_char(i, i + m);
    if crate::chars::str_eq(sub, l) {
        Some(i + m)
    } else {
        None
    }
}

} // verus!
