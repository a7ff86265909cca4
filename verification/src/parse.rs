//! Parser for the upstream price response: a JSON-shaped object that maps
//! one asset name to an object of currency codes and decimal prices, for
//! example `{"bitcoin":{"usd":65497.0,"eur":60123.0}}`.
//!
//! The accepted grammar is defined by the `spec_parse_*` functions; the
//! executable parser returns exactly what the grammar assigns to the input.
//! Prices are read as fixed-point micro-units; a body whose numbers do not
//! fit is not in the grammar.

use vstd::prelude::*;

use crate::quotes::QuoteSet;
use crate::text::str_eq_chars;

verus! {

/// Whitespace accepted between tokens.
pub open spec fn is_ws(c: char) -> bool {
    c == ' ' || c == '\t' || c == '\n' || c == '\r'
}

/// A decimal digit.
pub open spec fn is_digit(c: char) -> bool {
    48 <= c as u32 && c as u32 <= 57
}

/// The first position at or after `i` that does not hold whitespace.
pub open spec fn spec_skip_ws(s: Seq<char>, i: int) -> int
    decreases s.len() - i,
{
    if 0 <= i < s.len() && is_ws(s[i]) {
        spec_skip_ws(s, i + 1)
    } else {
        i
    }
}

/// The end of the run of digits that starts at `i`.
pub open spec fn digits_end(s: Seq<char>, i: int) -> int
    decreases s.len() - i,
{
    if 0 <= i < s.len() && is_digit(s[i]) {
        digits_end(s, i + 1)
    } else {
        i
    }
}

/// The value of the digits `s[i..j]` read as a decimal number.
pub open spec fn digits_val(s: Seq<char>, i: int, j: int) -> int
    decreases j - i,
{
    if i >= j {
        0
    } else {
        digits_val(s, i, j - 1) * 10 + (s[j - 1] as u32 - 48)
    }
}

/// Ten to the `k`.
pub open spec fn pow10(k: int) -> int
    decreases k,
{
    if k <= 0 {
        1
    } else {
        10 * pow10(k - 1)
    }
}

/// The position of the closing quote of a string whose content starts at
/// `k`: the first `"` at or after `k`, unless a `\` comes first (escapes are
/// not in the grammar) or the input ends.
pub open spec fn str_scan(s: Seq<char>, k: int) -> Option<int>
    decreases s.len() - k,
{
    if !(0 <= k < s.len()) {
        None
    } else if s[k] == '"' {
        Some(k)
    } else if s[k] == '\\' {
        None
    } else {
        str_scan(s, k + 1)
    }
}

/// A quoted string at `i`: its content and the position after the closing
/// quote.
pub open spec fn spec_parse_string(s: Seq<char>, i: int) -> Option<(Seq<char>, int)> {
    if 0 <= i < s.len() && s[i] == '"' {
        match str_scan(s, i + 1) {
            Some(j) => Some((s.subrange(i + 1, j), j + 1)),
            None => None,
        }
    } else {
        None
    }
}

/// An unsigned decimal number at `i`, read in micro-units: digits, then
/// optionally a dot and more digits, of which the first six count. The
/// number must fit in a `u64` of micro-units.
pub open spec fn spec_parse_number(s: Seq<char>, i: int) -> Option<(u64, int)> {
    let e1 = digits_end(s, i);
    if !(0 <= i && e1 > i) {
        None
    } else {
        let ip = digits_val(s, i, e1);
        if e1 < s.len() && s[e1] == '.' {
            let e2 = digits_end(s, e1 + 1);
            if e2 == e1 + 1 {
                None
            } else {
                let k = if e2 - (e1 + 1) >= 6 {
                    e1 + 1 + 6
                } else {
                    e2
                };
                let v = ip * 1000000 + digits_val(s, e1 + 1, k) * pow10(6 - (k - (e1 + 1)));
                if v <= u64::MAX {
                    Some((v as u64, e2))
                } else {
                    None
                }
            }
        } else {
            let v = ip * 1000000;
            if v <= u64::MAX {
                Some((v as u64, e1))
            } else {
                None
            }
        }
    }
}

/// One `"key": number` member at `i`, with surrounding whitespace: the key,
/// the value, and the position after the member's trailing whitespace.
pub open spec fn spec_parse_pair(s: Seq<char>, i: int) -> Option<((Seq<char>, u64), int)> {
    let i1 = spec_skip_ws(s, i);
    match spec_parse_string(s, i1) {
        None => None,
        Some((key, i2)) => {
            let i3 = spec_skip_ws(s, i2);
            if i3 < s.len() && s[i3] == ':' {
                let i4 = spec_skip_ws(s, i3 + 1);
                match spec_parse_number(s, i4) {
                    None => None,
                    Some((v, i5)) => Some(((key, v), spec_skip_ws(s, i5))),
                }
            } else {
                None
            }
        },
    }
}

/// One or more comma-separated members starting at `i`, up to and including
/// the closing brace: the members in order and the position after the brace.
pub open spec fn spec_parse_members(s: Seq<char>, i: int) -> Option<(Seq<(Seq<char>, u64)>, int)>
    decreases s.len() - i
        via members_decreases
{
    match spec_parse_pair(s, i) {
        None => None,
        Some(((key, v), j)) => {
            if j < s.len() && s[j] == ',' {
                match spec_parse_members(s, j + 1) {
                    None => None,
                    Some((rest, e)) => Some((seq![(key, v)] + rest, e)),
                }
            } else if j < s.len() && s[j] == '}' {
                Some((seq![(key, v)], j + 1))
            } else {
                None
            }
        },
    }
}

#[via_fn]
proof fn members_decreases(s: Seq<char>, i: int) {
    lemma_pair_bounds(s, i);
}

/// The object of currency codes and prices at `i`: its members and the
/// position after its closing brace.
pub open spec fn spec_parse_inner(s: Seq<char>, i: int) -> Option<(Seq<(Seq<char>, u64)>, int)> {
    if 0 <= i < s.len() && s[i] == '{' {
        let j = spec_skip_ws(s, i + 1);
        if j < s.len() && s[j] == '}' {
            Some((Seq::empty(), j + 1))
        } else {
            spec_parse_members(s, i + 1)
        }
    } else {
        None
    }
}

/// The whole response body: an object with the single key `"bitcoin"` whose
/// value is the object of currency codes and prices, and nothing but
/// whitespace around either. The result is the price entries in order.
pub open spec fn spec_parse_body(s: Seq<char>) -> Option<Seq<(Seq<char>, u64)>> {
    let i0 = spec_skip_ws(s, 0);
    if i0 < s.len() && s[i0] == '{' {
        let i1 = spec_skip_ws(s, i0 + 1);
        match spec_parse_string(s, i1) {
            None => None,
            Some((key, i2)) => {
                if key == "bitcoin"@ {
                    let i3 = spec_skip_ws(s, i2);
                    if i3 < s.len() && s[i3] == ':' {
                        let i4 = spec_skip_ws(s, i3 + 1);
                        match spec_parse_inner(s, i4) {
                            None => None,
                            Some((entries, i5)) => {
                                let i6 = spec_skip_ws(s, i5);
                                if i6 < s.len() && s[i6] == '}' && spec_skip_ws(s, i6 + 1)
                                    == s.len() {
                                    Some(entries)
                                } else {
                                    None
                                }
                            },
                        }
                    } else {
                        None
                    }
                } else {
                    None
                }
            },
        }
    } else {
        None
    }
}

proof fn lemma_digits_val_nonneg(s: Seq<char>, i: int, j: int)
    requires
        i <= j,
        forall|k: int| i <= k < j ==> is_digit(#[trigger] s[k]),
    ensures
        digits_val(s, i, j) >= 0,
    decreases j - i,
{
    if i < j {
        lemma_digits_val_nonneg(s, i, j - 1)
    }
}

proof fn lemma_digits_val_mono(s: Seq<char>, i: int, j: int, j2: int)
    requires
        i <= j <= j2,
        forall|k: int| i <= k < j2 ==> is_digit(#[trigger] s[k]),
    ensures
        digits_val(s, i, j) <= digits_val(s, i, j2),
    decreases j2 - j,
{
    if j < j2 {
        lemma_digits_val_mono(s, i, j, j2 - 1);
        lemma_digits_val_nonneg(s, i, j2 - 1);
    }
}

proof fn lemma_digits_val_bound(s: Seq<char>, i: int, j: int)
    requires
        i <= j,
        forall|k: int| i <= k < j ==> is_digit(#[trigger] s[k]),
    ensures
        0 <= digits_val(s, i, j) < pow10(j - i),
    decreases j - i,
{
    if i < j {
        lemma_digits_val_bound(s, i, j - 1);
    }
}

proof fn lemma_pow10_pos(k: int)
    ensures
        pow10(k) >= 1,
    decreases k,
{
    if k > 0 {
        lemma_pow10_pos(k - 1);
    }
}

proof fn lemma_pow10_add(a: int, b: int)
    requires
        a >= 0,
        b >= 0,
    ensures
        pow10(a + b) == pow10(a) * pow10(b),
    decreases a,
{
    if a == 0 {
    } else {
        lemma_pow10_add(a - 1, b);
        assert(pow10(a + b) == 10 * pow10(a - 1 + b));
        assert(10 * (pow10(a - 1) * pow10(b)) == (10 * pow10(a - 1)) * pow10(b))
            by (nonlinear_arith);
    }
}

proof fn lemma_skip_ws_bounds(s: Seq<char>, i: int)
    requires
        0 <= i <= s.len(),
    ensures
        i <= spec_skip_ws(s, i) <= s.len(),
    decreases s.len() - i,
{
    if i < s.len() && is_ws(s[i]) {
        lemma_skip_ws_bounds(s, i + 1);
    }
}

proof fn lemma_digits_end_bounds(s: Seq<char>, i: int)
    requires
        0 <= i <= s.len(),
    ensures
        i <= digits_end(s, i) <= s.len(),
        forall|k: int| i <= k < digits_end(s, i) ==> is_digit(s[k]),
    decreases s.len() - i,
{
    if i < s.len() && is_digit(s[i]) {
        lemma_digits_end_bounds(s, i + 1);
    }
}

proof fn lemma_str_scan_bounds(s: Seq<char>, k: int)
    requires
        0 <= k <= s.len(),
    ensures
        match str_scan(s, k) {
            Some(j) => k <= j < s.len() && s[j] == '"',
            None => true,
        },
    decreases s.len() - k,
{
    if k < s.len() && s[k] != '"' && s[k] != '\\' {
        lemma_str_scan_bounds(s, k + 1);
    }
}

/// The first position at or after `i` that does not hold whitespace.
fn skip_ws(s: &str, i: usize) -> (r: usize)
    requires
        i <= s@.len(),
    ensures
        r as int == spec_skip_ws(s@, i as int),
        i <= r <= s@.len(),
{
    let ulen = s.unicode_len();
    let mut r = i;
    loop
        invariant
            ulen == s@.len(),
            i <= r <= ulen,
            spec_skip_ws(s@, i as int) == spec_skip_ws(s@, r as int),
        ensures
            i <= r <= ulen,
            spec_skip_ws(s@, i as int) == r as int,
        decreases ulen - r,
    {
        if r >= ulen {
            break ;
        }
        let c = s.get_char(r);
        if !(c == ' ' || c == '\t' || c == '\n' || c == '\r') {
            break ;
        }
        r = r + 1;
    }
    r
}

/// The end of the run of digits that starts at `i`.
fn digit_run(s: &str, i: usize) -> (r: usize)
    requires
        i <= s@.len(),
    ensures
        r as int == digits_end(s@, i as int),
        i <= r <= s@.len(),
        forall|k: int| i <= k < r ==> is_digit(#[trigger] s@[k]),
{
    let ulen = s.unicode_len();
    let mut r = i;
    loop
        invariant
            ulen == s@.len(),
            i <= r <= ulen,
            digits_end(s@, i as int) == digits_end(s@, r as int),
            forall|k: int| i <= k < r ==> is_digit(#[trigger] s@[k]),
        ensures
            i <= r <= ulen,
            r as int == digits_end(s@, i as int),
            forall|k: int| i <= k < r ==> is_digit(#[trigger] s@[k]),
        decreases ulen - r,
    {
        if r >= ulen {
            break ;
        }
        let c = s.get_char(r);
        let u = c as u32;
        if !(48 <= u && u <= 57) {
            break ;
        }
        r = r + 1;
    }
    r
}

/// The value of the digits `s[i..j]`, unless it exceeds `u64::MAX`.
fn digits_value(s: &str, i: usize, j: usize) -> (r: Option<u64>)
    requires
        i <= j <= s@.len(),
        forall|k: int| i <= k < j ==> is_digit(#[trigger] s@[k]),
    ensures
        match r {
            Some(v) => v as int == digits_val(s@, i as int, j as int),
            None => digits_val(s@, i as int, j as int) > u64::MAX,
        },
{
    let mut acc: u64 = 0;
    let mut k = i;
    while k < j
        invariant
            i <= k <= j <= s@.len(),
            forall|m: int| i <= m < j ==> is_digit(#[trigger] s@[m]),
            acc as int == digits_val(s@, i as int, k as int),
        decreases j - k,
    {
        let c = s.get_char(k);
        let u = c as u32;
        let d: u64 = (u - 48) as u64;
        proof {
            assert(is_digit(s@[k as int]));
            assert(digits_val(s@, i as int, k + 1) == digits_val(s@, i as int, k as int) * 10 + (
            s@[k as int] as u32 - 48));
        }
        if acc > 1844674407370955161u64 || (acc == 1844674407370955161u64 && d > 5) {
            proof {
                assert(digits_val(s@, i as int, k + 1) > u64::MAX);
                lemma_digits_val_mono(s@, i as int, k + 1, j as int);
            }
            return None;
        }
        acc = acc * 10 + d;
        k = k + 1;
    }
    Some(acc)
}

/// Ten to the `k`, for the scales of a fractional part.
fn pow10_exec(k: usize) -> (r: u64)
    requires
        k <= 6,
    ensures
        r as int == pow10(k as int),
{
    proof {
        reveal_with_fuel(pow10, 8);
    }
    if k == 0 {
        1
    } else if k == 1 {
        10
    } else if k == 2 {
        100
    } else if k == 3 {
        1000
    } else if k == 4 {
        10000
    } else if k == 5 {
        100000
    } else {
        1000000
    }
}

/// A quoted string at `i`: its content and the position after the closing
/// quote.
fn parse_string_at(s: &str, i: usize) -> (r: Option<(String, usize)>)
    requires
        i <= s@.len(),
    ensures
        match r {
            Some((key, p)) => {
                &&& spec_parse_string(s@, i as int) == Some((key@, p as int))
                &&& i + 2 <= p <= s@.len()
            },
            None => spec_parse_string(s@, i as int) is None,
        },
{
    let ulen = s.unicode_len();
    if i >= ulen || s.get_char(i) != '"' {
        return None;
    }
    let mut j = i + 1;
    loop
        invariant
            ulen == s@.len(),
            i + 1 <= j <= ulen,
            str_scan(s@, i + 1) == str_scan(s@, j as int),
        ensures
            i + 1 <= j <= ulen,
            str_scan(s@, i + 1) == str_scan(s@, j as int),
            j == ulen || s@[j as int] == '"' || s@[j as int] == '\\',
        decreases ulen - j,
    {
        if j >= ulen {
            break ;
        }
        let c = s.get_char(j);
        if c == '"' || c == '\\' {
            break ;
        }
        j = j + 1;
    }
    if j >= ulen {
        return None;
    }
    if s.get_char(j) == '\\' {
        return None;
    }
    let key = s.substring_char(i + 1, j).to_owned();
    Some((key, j + 1))
}

/// An unsigned decimal number at `i`, in micro-units.
fn parse_number_at(s: &str, i: usize) -> (r: Option<(u64, usize)>)
    requires
        i <= s@.len(),
    ensures
        match r {
            Some((v, p)) => {
                &&& spec_parse_number(s@, i as int) == Some((v, p as int))
                &&& i < p <= s@.len()
            },
            None => spec_parse_number(s@, i as int) is None,
        },
{
    let ulen = s.unicode_len();
    let e1 = digit_run(s, i);
    if e1 == i {
        return None;
    }
    let ip_opt = digits_value(s, i, e1);
    if e1 < ulen && s.get_char(e1) == '.' {
        let e2 = digit_run(s, e1 + 1);
        if e2 == e1 + 1 {
            return None;
        }
        let k = if e2 - (e1 + 1) >= 6 {
            e1 + 7
        } else {
            e2
        };
        let flen = k - (e1 + 1);
        let fv_opt = digits_value(s, e1 + 1, k);
        proof {
            lemma_digits_val_bound(s@, e1 + 1, k as int);
            lemma_pow10_add(flen as int, 6 - flen as int);
            lemma_pow10_pos(6 - flen as int);
            reveal_with_fuel(pow10, 8);
        }
        let fv = match fv_opt {
            Some(fv) => fv,
            None => {
                return None;  // unreachable: at most six digits fit well below u64::MAX
            },
        };
        let scale = pow10_exec(6 - flen);
        proof {
            vstd::arithmetic::mul::lemma_mul_strict_inequality(
                fv as int,
                pow10(flen as int),
                pow10(6 - flen as int),
            );
        }
        let frac = fv * scale;
        let ip = match ip_opt {
            Some(ip) => ip,
            None => {
                proof {
                    assert(digits_val(s@, i as int, e1 as int) * 1000000 >= digits_val(
                        s@,
                        i as int,
                        e1 as int,
                    ));
                }
                return None;
            },
        };
        proof {
            reveal_with_fuel(pow10, 8);
            assert(frac as int == fv as int * pow10(6 - flen as int));
            assert(frac < 1000000);
        }
        if ip > 18446744073709u64 || (ip == 18446744073709u64 && frac > 551615u64) {
            return None;
        }
        let v = ip * 1000000u64 + frac;
        Some((v, e2))
    } else {
        let ip = match ip_opt {
            Some(ip) => ip,
            None => {
                proof {
                    assert(digits_val(s@, i as int, e1 as int) * 1000000 >= digits_val(
                        s@,
                        i as int,
                        e1 as int,
                    ));
                }
                return None;
            },
        };
        if ip > 18446744073709u64 {
            return None;
        }
        Some((ip * 1000000u64, e1))
    }
}

/// One `"key": number` member at `i`, with surrounding whitespace.
fn parse_pair_at(s: &str, i: usize) -> (r: Option<((String, u64), usize)>)
    requires
        i <= s@.len(),
    ensures
        match r {
            Some(((key, v), p)) => {
                &&& spec_parse_pair(s@, i as int) == Some(((key@, v), p as int))
                &&& i < p <= s@.len()
            },
            None => spec_parse_pair(s@, i as int) is None,
        },
{
    let ulen = s.unicode_len();
    let i1 = skip_ws(s, i);
    let (key, i2) = match parse_string_at(s, i1) {
        Some(kp) => kp,
        None => {
            return None;
        },
    };
    let i3 = skip_ws(s, i2);
    if !(i3 < ulen && s.get_char(i3) == ':') {
        return None;
    }
    let i4 = skip_ws(s, i3 + 1);
    let (v, i5) = match parse_number_at(s, i4) {
        Some(vp) => vp,
        None => {
            return None;
        },
    };
    let i6 = skip_ws(s, i5);
    Some(((key, v), i6))
}

/// One or more comma-separated members at `i`, up to and including the
/// closing brace of the object they stand in.
fn parse_members_at(s: &str, i: usize) -> (r: Option<(QuoteSet, usize)>)
    requires
        i <= s@.len(),
    ensures
        match r {
            Some((q, p)) => {
                &&& spec_parse_members(s@, i as int) == Some((q@, p as int))
                &&& p <= s@.len()
            },
            None => spec_parse_members(s@, i as int) is None,
        },
{
    let ulen = s.unicode_len();
    let mut q = QuoteSet::new();
    let mut cur = i;
    loop
        invariant
            ulen == s@.len(),
            i <= cur <= ulen,
            match spec_parse_members(s@, cur as int) {
                Some((rest, e)) => spec_parse_members(s@, i as int) == Some((q@ + rest, e)),
                None => spec_parse_members(s@, i as int) is None,
            },
        decreases ulen - cur,
    {
        let ((key, v), j) = match parse_pair_at(s, cur) {
            Some(kvp) => kvp,
            None => {
                return None;
            },
        };
        let ghost pre = q@;
        if j < ulen && s.get_char(j) == ',' {
            q.push(key, v);
            proof {
                let (rest0, e0) = spec_parse_members(s@, cur as int) ->Some_0;
                if spec_parse_members(s@, j + 1) is Some {
                    let (rest1, e1) = spec_parse_members(s@, j + 1) ->Some_0;
                    assert(pre + (seq![(key@, v)] + rest1) =~= (pre.push((key@, v))) + rest1);
                }
            }
            cur = j + 1;
        } else if j < ulen && s.get_char(j) == '}' {
            q.push(key, v);
            proof {
                assert(pre + seq![(key@, v)] =~= pre.push((key@, v)));
            }
            return Some((q, j + 1));
        } else {
            return None;
        }
    }
}

/// The whole response body. Returns the quoted prices exactly when the body
/// is in the grammar.
pub fn parse_body(s: &str) -> (r: Option<QuoteSet>)
    ensures
        match r {
            Some(q) => spec_parse_body(s@) == Some(q@),
            None => spec_parse_body(s@) is None,
        },
{
    let ulen = s.unicode_len();
    let i0 = skip_ws(s, 0);
    if !(i0 < ulen && s.get_char(i0) == '{') {
        return None;
    }
    let i1 = skip_ws(s, i0 + 1);
    let (key, i2) = match parse_string_at(s, i1) {
        Some(kp) => kp,
        None => {
            return None;
        },
    };
    if !str_eq_chars(key.as_str(), "bitcoin") {
        return None;
    }
    let i3 = skip_ws(s, i2);
    if !(i3 < ulen && s.get_char(i3) == ':') {
        return None;
    }
    let i4 = skip_ws(s, i3 + 1);
    let (entries, i5) = match parse_inner_at(s, i4) {
        Some(ep) => ep,
        None => {
            return None;
        },
    };
    let i6 = skip_ws(s, i5);
    if !(i6 < ulen && s.get_char(i6) == '}') {
        return None;
    }
    if skip_ws(s, i6 + 1) != ulen {
        return None;
    }
    Some(entries)
}

/// The object of currency codes and prices at `i`.
fn parse_inner_at(s: &str, i: usize) -> (r: Option<(QuoteSet, usize)>)
    requires
        i <= s@.len(),
    ensures
        match r {
            Some((q, p)) => {
                &&& spec_parse_inner(s@, i as int) == Some((q@, p as int))
                &&& p <= s@.len()
            },
            None => spec_parse_inner(s@, i as int) is None,
        },
{
    let ulen = s.unicode_len();
    if !(i < ulen && s.get_char(i) == '{') {
        return None;
    }
    let j = skip_ws(s, i + 1);
    if j < ulen && s.get_char(j) == '}' {
        let q = QuoteSet::new();
        return Some((q, j + 1));
    }
    parse_members_at(s, i + 1)
}

/// A member occupies at least one position, and ends inside the input.
proof fn lemma_pair_bounds(s: Seq<char>, i: int)
    ensures
        match spec_parse_pair(s, i) {
            Some((kv, j)) => i < j <= s.len(),
            None => true,
        },
{
    if spec_parse_pair(s, i) is Some {
        let i1 = spec_skip_ws(s, i);
        assert(spec_parse_string(s, i1) is Some);
        assert(0 <= i1 < s.len());
        if 0 <= i {
            lemma_skip_ws_bounds(s, i);
        }
        lemma_str_scan_bounds(s, i1 + 1);
        let j0 = str_scan(s, i1 + 1) ->Some_0;
        let i2 = j0 + 1;
        lemma_skip_ws_bounds(s, i2);
        let i3 = spec_skip_ws(s, i2);
        assert(s[i3] == ':');
        lemma_skip_ws_bounds(s, i3 + 1);
        let i4 = spec_skip_ws(s, i3 + 1);
        lemma_digits_end_bounds(s, i4);
        let e1 = digits_end(s, i4);
        if e1 < s.len() && s[e1] == '.' {
            lemma_digits_end_bounds(s, e1 + 1);
            let e2 = digits_end(s, e1 + 1);
            lemma_skip_ws_bounds(s, e2);
        } else {
            lemma_skip_ws_bounds(s, e1);
        }
    }
}

} // verus!
