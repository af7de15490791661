//! Low-level scanning of the wire bytes: whitespace, string tokens, and
//! fixed-point decimal numbers.
//!
//! The protocol is ASCII JSON. Numbers are read into millionths (the
//! parameter's fixed-point unit): up to twelve integer digits are accepted,
//! and fractional digits beyond the sixth are ignored. Exponent notation
//! and escaped string characters are not part of the accepted subset; a
//! payload using them fails to decode and is discarded by the dispatcher
//! like any other malformed payload.

use vstd::prelude::*;

verus! {

/// JSON whitespace: space, tab, line feed, carriage return.
pub open spec fn is_ws_byte(b: u8) -> bool {
    b == 32 || b == 9 || b == 10 || b == 13
}

/// ASCII decimal digit.
pub open spec fn is_digit_byte(b: u8) -> bool {
    48 <= b && b <= 57
}

/// A byte that may stand unescaped inside a string token: no control
/// bytes, no quote, no backslash.
pub open spec fn is_string_byte(b: u8) -> bool {
    b >= 32 && b != 34 && b != 92
}

/// First position at or after `i` that does not hold whitespace.
pub open spec fn spec_skip_ws(s: Seq<u8>, i: int) -> int
    decreases s.len() - i,
{
    if 0 <= i < s.len() && is_ws_byte(s[i]) {
        spec_skip_ws(s, i + 1)
    } else {
        i
    }
}

pub proof fn lemma_skip_ws_bounds(s: Seq<u8>, i: int)
    requires
        0 <= i <= s.len(),
    ensures
        i <= spec_skip_ws(s, i) <= s.len(),
    decreases s.len() - i,
{
    if i < s.len() && is_ws_byte(s[i]) {
        lemma_skip_ws_bounds(s, i + 1);
    }
}

pub fn skip_ws(s: &Vec<u8>, i: usize) -> (r: usize)
    requires
        i <= s@.len(),
    ensures
        r == spec_skip_ws(s@, i as int),
        i <= r <= s@.len(),
    decreases s@.len() - i,
{
    proof {
        lemma_skip_ws_bounds(s@, i as int);
    }
    if i < s.len() {
        let b = s[i];
        if b == 32 || b == 9 || b == 10 || b == 13 {
            return skip_ws(s, i + 1);
        }
    }
    i
}

/// Position of the closing quote of a string token whose content starts at
/// `i`, if the content is entirely made of allowed string bytes.
pub open spec fn spec_scan_string(s: Seq<u8>, i: int) -> Option<int>
    decreases s.len() - i,
{
    if !(0 <= i < s.len()) {
        None
    } else if s[i] == 34 {
        Some(i)
    } else if is_string_byte(s[i]) {
        spec_scan_string(s, i + 1)
    } else {
        None
    }
}

pub proof fn lemma_scan_string_bounds(s: Seq<u8>, i: int)
    requires
        0 <= i <= s.len(),
    ensures
        spec_scan_string(s, i) matches Some(j) ==> i <= j < s.len() && s[j] == 34,
    decreases s.len() - i,
{
    if i < s.len() && s[i] != 34 && is_string_byte(s[i]) {
        lemma_scan_string_bounds(s, i + 1);
    }
}

fn scan_string(s: &Vec<u8>, i: usize) -> (r: Option<usize>)
    requires
        i <= s@.len(),
    ensures
        match r {
            Some(j) => spec_scan_string(s@, i as int) == Some(j as int) && i <= j < s@.len(),
            None => spec_scan_string(s@, i as int) is None,
        },
    decreases s@.len() - i,
{
    proof {
        lemma_scan_string_bounds(s@, i as int);
    }
    if i >= s.len() {
        None
    } else if s[i] == 34 {
        Some(i)
    } else if s[i] >= 32 && s[i] != 92 {
        scan_string(s, i + 1)
    } else {
        None
    }
}

/// A string token at `i`: its content bytes and the position just past the
/// closing quote.
pub open spec fn spec_parse_string(s: Seq<u8>, i: int) -> Option<(Seq<u8>, int)> {
    if 0 <= i < s.len() && s[i] == 34 {
        match spec_scan_string(s, i + 1) {
            Some(j) => Some((s.subrange(i + 1, j), j + 1)),
            None => None,
        }
    } else {
        None
    }
}

pub proof fn lemma_parse_string_advances(s: Seq<u8>, i: int)
    ensures
        spec_parse_string(s, i) matches Some(p) ==> 0 <= i && i + 2 <= p.1 <= s.len(),
{
    if 0 <= i < s.len() && s[i] == 34 {
        lemma_scan_string_bounds(s, i + 1);
    }
}

pub fn parse_string(s: &Vec<u8>, i: usize) -> (r: Option<(Vec<u8>, usize)>)
    requires
        i <= s@.len(),
    ensures
        match r {
            Some(p) => spec_parse_string(s@, i as int) == Some((p.0@, p.1 as int)) && p.1 <= s@.len(),
            None => spec_parse_string(s@, i as int) is None,
        },
{
    if i < s.len() && s[i] == 34 {
        match scan_string(s, i + 1) {
            Some(j) => {
                let mut content: Vec<u8> = Vec::new();
                let mut k: usize = i + 1;
                while k < j
                    invariant
                        i + 1 <= k <= j < s@.len(),
                        content@ == s@.subrange(i + 1 as int, k as int),
                    decreases j - k,
                {
                    content.push(s[k]);
                    proof {
                        assert(s@.subrange(i + 1 as int, k + 1 as int) =~= s@.subrange(
                            i + 1 as int,
                            k as int,
                        ).push(s@[k as int]));
                    }
                    k = k + 1;
                }
                Some((content, j + 1))
            },
            None => None,
        }
    } else {
        None
    }
}

/// Powers of ten.
pub open spec fn pow10(k: nat) -> int
    decreases k,
{
    if k == 0 {
        1
    } else {
        10 * pow10((k - 1) as nat)
    }
}

pub proof fn lemma_pow10_values()
    ensures
        pow10(0) == 1,
        pow10(1) == 10,
        pow10(2) == 100,
        pow10(3) == 1_000,
        pow10(4) == 10_000,
        pow10(5) == 100_000,
        pow10(6) == 1_000_000,
        pow10(7) == 10_000_000,
        pow10(8) == 100_000_000,
        pow10(9) == 1_000_000_000,
        pow10(10) == 10_000_000_000,
        pow10(11) == 100_000_000_000,
        pow10(12) == 1_000_000_000_000,
{
    assert(pow10(0) == 1);
    assert(pow10(1) == 10);
    assert(pow10(2) == 100);
    assert(pow10(3) == 1_000);
    assert(pow10(4) == 10_000);
    assert(pow10(5) == 100_000);
    assert(pow10(6) == 1_000_000);
    assert(pow10(7) == 10_000_000);
    assert(pow10(8) == 100_000_000);
    assert(pow10(9) == 1_000_000_000);
    assert(pow10(10) == 10_000_000_000);
    assert(pow10(11) == 100_000_000_000);
    assert(pow10(12) == 1_000_000_000_000);
}

/// First position at or after `i` that does not hold a digit.
pub open spec fn spec_scan_digits(s: Seq<u8>, i: int) -> int
    decreases s.len() - i,
{
    if 0 <= i < s.len() && is_digit_byte(s[i]) {
        spec_scan_digits(s, i + 1)
    } else {
        i
    }
}

pub proof fn lemma_scan_digits_bounds(s: Seq<u8>, i: int)
    requires
        0 <= i <= s.len(),
    ensures
        i <= spec_scan_digits(s, i) <= s.len(),
        forall|k: int| i <= k < spec_scan_digits(s, i) ==> is_digit_byte(s[k]),
    decreases s.len() - i,
{
    if i < s.len() && is_digit_byte(s[i]) {
        lemma_scan_digits_bounds(s, i + 1);
    }
}

fn scan_digits(s: &Vec<u8>, i: usize) -> (r: usize)
    requires
        i <= s@.len(),
    ensures
        r == spec_scan_digits(s@, i as int),
        i <= r <= s@.len(),
    decreases s@.len() - i,
{
    proof {
        lemma_scan_digits_bounds(s@, i as int);
    }
    if i < s.len() && s[i] >= 48 && s[i] <= 57 {
        scan_digits(s, i + 1)
    } else {
        i
    }
}

/// The value of the digit run `s[i..j)`.
pub open spec fn spec_digits_val(s: Seq<u8>, i: int, j: int) -> int
    decreases j - i,
{
    if i >= j {
        0
    } else {
        spec_digits_val(s, i, j - 1) * 10 + (s[j - 1] - 48)
    }
}

pub proof fn lemma_digits_val_bound(s: Seq<u8>, i: int, j: int)
    requires
        0 <= i <= j <= s.len(),
        forall|k: int| i <= k < j ==> is_digit_byte(s[k]),
    ensures
        0 <= spec_digits_val(s, i, j) < pow10((j - i) as nat),
    decreases j - i,
{
    if i < j {
        lemma_digits_val_bound(s, i, j - 1);
    }
}

fn digits_val(s: &Vec<u8>, i: usize, j: usize) -> (r: u64)
    requires
        i <= j <= s@.len(),
        j - i <= 12,
        forall|k: int| i <= k < j ==> is_digit_byte(s@[k]),
    ensures
        r == spec_digits_val(s@, i as int, j as int),
        r < 1_000_000_000_000,
{
    proof {
        lemma_pow10_values();
        lemma_digits_val_bound(s@, i as int, j as int);
        lemma_pow10_monotone((j - i) as nat, 12);
    }
    let mut acc: u64 = 0;
    let mut k: usize = i;
    while k < j
        invariant
            i <= k <= j <= s@.len(),
            j - i <= 12,
            forall|t: int| i <= t < j ==> is_digit_byte(s@[t]),
            acc == spec_digits_val(s@, i as int, k as int),
            acc < pow10((k - i) as nat),
            pow10(12) == 1_000_000_000_000,
        decreases j - k,
    {
        proof {
            lemma_digits_val_bound(s@, i as int, k as int);
            lemma_digits_val_bound(s@, i as int, k + 1 as int);
            lemma_pow10_values();
            lemma_pow10_monotone((k - i) as nat, 11);
        }
        acc = acc * 10 + ((s[k] - 48) as u64);
        k = k + 1;
    }
    acc
}

/// The contribution of the fraction digits `s[i..j)` in millionths: the
/// first six digits, scaled; digits beyond the sixth are ignored.
pub open spec fn spec_frac_micro(s: Seq<u8>, i: int, j: int) -> int {
    if j - i <= 6 {
        spec_digits_val(s, i, j) * pow10((6 - (j - i)) as nat)
    } else {
        spec_digits_val(s, i, i + 6)
    }
}

fn pow10_small(e: usize) -> (r: u64)
    requires
        e <= 6,
    ensures
        r == pow10(e as nat),
{
    proof {
        lemma_pow10_values();
    }
    if e == 0 {
        1
    } else if e == 1 {
        10
    } else if e == 2 {
        100
    } else if e == 3 {
        1_000
    } else if e == 4 {
        10_000
    } else if e == 5 {
        100_000
    } else {
        1_000_000
    }
}

/// A number token at `i0` with an optional leading minus already accounted
/// for by the caller: its absolute value in millionths and the position
/// just past the token. `None` when no digit stands at `i0`, when the
/// integer part exceeds twelve digits, or when a decimal point is not
/// followed by a digit.
pub open spec fn spec_parse_number_abs(s: Seq<u8>, i0: int) -> Option<(int, int)> {
    if !(0 <= i0 <= s.len()) {
        None
    } else {
        let j = spec_scan_digits(s, i0);
        if j == i0 || j - i0 > 12 {
            None
        } else if j < s.len() && s[j] == 46 {
            let f = spec_scan_digits(s, j + 1);
            if f == j + 1 {
                None
            } else {
                Some((spec_digits_val(s, i0, j) * 1_000_000 + spec_frac_micro(s, j + 1, f), f))
            }
        } else {
            Some((spec_digits_val(s, i0, j) * 1_000_000, j))
        }
    }
}

/// A signed number token at `i`: its value in millionths and the position
/// just past the token.
pub open spec fn spec_parse_number(s: Seq<u8>, i: int) -> Option<(int, int)> {
    if 0 <= i < s.len() && s[i] == 45 {
        match spec_parse_number_abs(s, i + 1) {
            Some(p) => Some((-p.0, p.1)),
            None => None,
        }
    } else {
        spec_parse_number_abs(s, i)
    }
}

pub proof fn lemma_parse_number_advances(s: Seq<u8>, i: int)
    ensures
        spec_parse_number(s, i) matches Some(p) ==> 0 <= i && i < p.1 <= s.len(),
{
    if 0 <= i <= s.len() {
        lemma_scan_digits_bounds(s, i);
        if 0 <= i < s.len() && s[i] == 45 {
            lemma_scan_digits_bounds(s, i + 1);
            let j = spec_scan_digits(s, i + 1);
            if i + 1 <= j <= s.len() && j < s.len() && s[j] == 46 {
                lemma_scan_digits_bounds(s, j + 1);
            }
        } else {
            let j = spec_scan_digits(s, i);
            if i <= j <= s.len() && j < s.len() && s[j] == 46 {
                lemma_scan_digits_bounds(s, j + 1);
            }
        }
    }
}

/// Absolute values handed back fit comfortably in a signed 64-bit word.
pub proof fn lemma_parse_number_abs_range(s: Seq<u8>, i0: int)
    ensures
        spec_parse_number_abs(s, i0) matches Some(p) ==> 0 <= p.0
            < 1_000_000_000_000_000_000,
{
    if 0 <= i0 <= s.len() {
        lemma_scan_digits_bounds(s, i0);
        let j = spec_scan_digits(s, i0);
        if i0 < j && j - i0 <= 12 {
            lemma_pow10_values();
            lemma_digits_val_bound(s, i0, j);
            lemma_pow10_monotone((j - i0) as nat, 12);
            if j < s.len() && s[j] == 46 {
                let f = spec_scan_digits(s, j + 1);
                lemma_scan_digits_bounds(s, j + 1);
                if f != j + 1 {
                    lemma_frac_micro_range(s, j + 1, f);
                }
            }
        }
    }
}

pub proof fn lemma_pow10_monotone(a: nat, b: nat)
    requires
        a <= b,
    ensures
        pow10(a) <= pow10(b),
        pow10(a) >= 1,
    decreases b,
{
    if a < b {
        lemma_pow10_monotone(a, (b - 1) as nat);
    } else if a > 0 {
        lemma_pow10_monotone((a - 1) as nat, (a - 1) as nat);
    }
}

pub proof fn lemma_frac_micro_range(s: Seq<u8>, i: int, j: int)
    requires
        0 <= i <= j <= s.len(),
        forall|k: int| i <= k < j ==> is_digit_byte(s[k]),
    ensures
        0 <= spec_frac_micro(s, i, j) < 1_000_000,
{
    lemma_pow10_values();
    if j - i <= 6 {
        lemma_digits_val_bound(s, i, j);
        let v = spec_digits_val(s, i, j);
        let e = (6 - (j - i)) as nat;
        lemma_pow10_monotone(e, 6);
        vstd::arithmetic::mul::lemma_mul_nonnegative(v, pow10(e));
        vstd::arithmetic::mul::lemma_mul_upper_bound(v, pow10((j - i) as nat) - 1, pow10(e), pow10(e));
        lemma_pow10_mul((j - i) as nat, e);
        vstd::arithmetic::mul::lemma_mul_is_distributive_sub_other_way(
            pow10(e),
            pow10((j - i) as nat),
            1,
        );
        vstd::arithmetic::mul::lemma_mul_basics(pow10(e));
    } else {
        lemma_digits_val_bound(s, i, i + 6);
    }
}

pub proof fn lemma_pow10_mul(a: nat, b: nat)
    ensures
        pow10(a) * pow10(b) == pow10((a + b) as nat),
    decreases a,
{
    if a == 0 {
        vstd::arithmetic::mul::lemma_mul_basics(pow10(b));
    } else {
        lemma_pow10_mul((a - 1) as nat, b);
        vstd::arithmetic::mul::lemma_mul_is_associative(10, pow10((a - 1) as nat), pow10(b));
    }
}

pub fn parse_number(s: &Vec<u8>, i: usize) -> (r: Option<(i64, usize)>)
    requires
        i <= s@.len(),
    ensures
        match r {
            Some(p) => spec_parse_number(s@, i as int) == Some((p.0 as int, p.1 as int)) && p.1
                <= s@.len(),
            None => spec_parse_number(s@, i as int) is None,
        },
{
    proof {
        lemma_pow10_values();
    }
    if i < s.len() && s[i] == 45 {
        proof {
            lemma_parse_number_abs_range(s@, i + 1 as int);
        }
        match parse_number_abs(s, i + 1) {
            Some((m, j)) => Some((-m, j)),
            None => None,
        }
    } else {
        parse_number_abs(s, i)
    }
}

fn parse_number_abs(s: &Vec<u8>, i0: usize) -> (r: Option<(i64, usize)>)
    requires
        i0 <= s@.len(),
    ensures
        match r {
            Some(p) => spec_parse_number_abs(s@, i0 as int) == Some((p.0 as int, p.1 as int))
                && 0 <= p.0 < 1_000_000_000_000_000_000 && p.1 <= s@.len(),
            None => spec_parse_number_abs(s@, i0 as int) is None,
        },
{
    proof {
        lemma_pow10_values();
        lemma_scan_digits_bounds(s@, i0 as int);
        lemma_parse_number_abs_range(s@, i0 as int);
    }
    let j = scan_digits(s, i0);
    if j == i0 || j - i0 > 12 {
        return None;
    }
    proof {
        lemma_digits_val_bound(s@, i0 as int, j as int);
        lemma_pow10_monotone((j - i0) as nat, 12);
    }
    let intval = digits_val(s, i0, j);
    if j < s.len() && s[j] == 46 {
        proof {
            lemma_scan_digits_bounds(s@, j + 1 as int);
        }
        let f = scan_digits(s, j + 1);
        if f == j + 1 {
            return None;
        }
        proof {
            lemma_frac_micro_range(s@, j + 1 as int, f as int);
        }
        let frac: u64 = if f - (j + 1) <= 6 {
            let dv = digits_val(s, j + 1, f);
            let scale = pow10_small(6 - (f - (j + 1)));
            proof {
                lemma_digits_val_bound(s@, j + 1 as int, f as int);
                lemma_pow10_monotone((f - (j + 1)) as nat, 6);
                lemma_pow10_monotone((6 - (f - (j + 1))) as nat, 6);
                vstd::arithmetic::mul::lemma_mul_nonnegative(dv as int, scale as int);
                vstd::arithmetic::mul::lemma_mul_upper_bound(
                    dv as int,
                    1_000_000,
                    scale as int,
                    1_000_000,
                );
            }
            dv * scale
        } else {
            digits_val(s, j + 1, j + 1 + 6)
        };
        Some(((intval * 1_000_000 + frac) as i64, f))
    } else {
        Some(((intval * 1_000_000) as i64, j))
    }
}

} // verus!
