//! Numeric command-line arguments with `parse_u64` semantics: an optional `0x`/`0b` base prefix, then `strtoull`
//! (leading whitespace, one sign, saturation on overflow), and the
//! whole string must be consumed.
use vstd::prelude::*;
use vstd::string::StringSliceAdditionalSpecFns;

verus! {

/// Failure to parse a numeric argument (reported as
/// `AIRSPY_ERROR_INVALID_PARAM`).
#[derive(Debug, Clone, Copy, PartialEq, Eq, Structural)]
pub struct ParseU64Error;

impl ParseU64Error {
    /// The text the tools print for this failure.
    pub fn message(&self) -> (s: String)
        ensures
            s@ == "AIRSPY_ERROR_INVALID_PARAM (-2)"@,
    {
        String::from_str("AIRSPY_ERROR_INVALID_PARAM (-2)")
    }
}

/// C `isspace()`: space, `\t`, `\n`, `\v`, `\f`, `\r`.
pub open spec fn is_c_space(b: u8) -> bool {
    b == 32 || (9 <= b && b <= 13)
}

/// The value of an ASCII digit or letter (`0-9`, then `a-z`/`A-Z`
/// from 10); 36 for every other byte.
pub open spec fn digit_value(b: u8) -> int {
    if 48 <= b <= 57 {
        b - 48
    } else if 97 <= b <= 122 {
        b - 87
    } else if 65 <= b <= 90 {
        b - 55
    } else {
        36
    }
}

/// Whether every byte of `s` is a digit in `base`.
pub open spec fn all_digits(s: Seq<u8>, base: int) -> bool {
    forall|i: int| 0 <= i < s.len() ==> #[trigger] digit_value(s[i]) < base
}

/// The unbounded value of the digit string `s` in `base`.
pub open spec fn digits_value(s: Seq<u8>, base: int) -> int
    decreases s.len(),
{
    if s.len() == 0 {
        0
    } else {
        digits_value(s.drop_last(), base) * base + digit_value(s.last())
    }
}

/// `s` without its leading C whitespace.
pub open spec fn trim_spaces(s: Seq<u8>) -> Seq<u8>
    decreases s.len(),
{
    if s.len() > 0 && is_c_space(s[0]) {
        trim_spaces(s.skip(1))
    } else {
        s
    }
}

/// One optional sign: whether it was `-`, and the rest.
pub open spec fn strip_sign(t: Seq<u8>) -> (bool, Seq<u8>) {
    if t.len() > 0 && (t[0] == 43 || t[0] == 45) {
        (t[0] == 45, t.skip(1))
    } else {
        (false, t)
    }
}

/// In base 16, one `0x`/`0X` is skipped when a hex digit follows it.
pub open spec fn strip_hex_prefix(t: Seq<u8>, base: int) -> Seq<u8> {
    if base == 16 && t.len() >= 3 && t[0] == 48 && (t[1] == 120 || t[1] == 88) && digit_value(t[2])
        < 16 {
        t.skip(2)
    } else {
        t
    }
}

/// `strtoull(s, &end, base)` accepted only when at least one digit was
/// consumed and nothing follows: values above `u64::MAX` saturate, and
/// a `-` negates with unsigned wraparound.
pub open spec fn strtoull_value(s: Seq<u8>, base: int) -> Option<u64> {
    let (neg, t0) = strip_sign(trim_spaces(s));
    let t = strip_hex_prefix(t0, base);
    if t.len() == 0 || !all_digits(t, base) {
        None
    } else {
        let v = digits_value(t, base);
        Some(
            if v > u64::MAX {
                u64::MAX
            } else if neg && v > 0 {
                (0x1_0000_0000_0000_0000 - v) as u64
            } else {
                v as u64
            },
        )
    }
}

/// The base selected by the raw string's prefix, and how many bytes
/// the prefix takes: `0x`/`0X` is 16 and `0b`/`0B` is 2, but only in a
/// string longer than two bytes; otherwise 10.
pub open spec fn prefix_base(s: Seq<u8>) -> (int, int) {
    if s.len() > 2 && s[0] == 48 && (s[1] == 120 || s[1] == 88) {
        (2, 16)
    } else if s.len() > 2 && s[0] == 48 && (s[1] == 98 || s[1] == 66) {
        (2, 2)
    } else {
        (0, 10)
    }
}

/// The value `parse_u64` gives the bytes `s`, if any.
pub open spec fn parse_u64_value(s: Seq<u8>) -> Option<u64> {
    let (skip, base) = prefix_base(s);
    strtoull_value(s.skip(skip), base)
}

/// The ASCII character of digit `d` (`0-9`, then lowercase `a-z`).
pub open spec fn digit_char(d: nat) -> u8 {
    if d < 10 {
        (48 + d) as u8
    } else {
        (87 + d) as u8
    }
}

/// The digits of `n` in `base` (2 to 36), most significant first,
/// lowercase, without leading zeros (`"0"` for zero): the text that
/// `to_string`, `{:x}` and `{:b}` give an unsigned integer.
pub open spec fn radix_text(n: nat, base: nat) -> Seq<u8>
    recommends
        2 <= base <= 36,
    decreases n,
{
    if base < 2 || n < base {
        seq![digit_char(n)]
    } else {
        proof {
            assert(n / base < n) by (nonlinear_arith)
                requires
                    n >= base,
                    base >= 2,
            ;
        }
        radix_text(n / base, base).push(digit_char(n % base))
    }
}

proof fn lemma_div_mod(n: nat, base: nat)
    by (nonlinear_arith)
    requires
        base >= 2,
        n >= base,
    ensures
        (n / base) * base + n % base == n,
        n / base < n,
        n % base < base,
{
}

/// The digit text of `n` is all digits in `base`, none of them a C
/// space, a sign or an `x`, and reads back as `n`.
proof fn lemma_radix_text(n: nat, base: nat)
    requires
        2 <= base <= 36,
    ensures
        radix_text(n, base).len() >= 1,
        all_digits(radix_text(n, base), base as int),
        digits_value(radix_text(n, base), base as int) == n,
        forall|i: int|
            0 <= i < radix_text(n, base).len() ==> {
                let c = #[trigger] radix_text(n, base)[i];
                48 <= c <= 57 || 97 <= c <= 122
            },
    decreases n,
{
    let t = radix_text(n, base);
    if n < base {
        assert(t == seq![digit_char(n)]);
        assert(t.drop_last() =~= Seq::<u8>::empty());
        assert(t.last() == digit_char(n));
        assert(digit_value(digit_char(n)) == n);
        assert(digits_value(t, base as int) == digits_value(t.drop_last(), base as int) * base
            + digit_value(t.last()));
    } else {
        lemma_div_mod(n, base);
        lemma_radix_text(n / base, base);
        let pre = radix_text(n / base, base);
        let d = n % base;
        assert(t.drop_last() =~= pre);
        assert(t.last() == digit_char(d));
        assert(digit_value(digit_char(d)) == d);
        assert forall|i: int| 0 <= i < t.len() implies #[trigger] digit_value(t[i]) < base by {
            if i < pre.len() {
                assert(t[i] == pre[i]);
            }
        }
        assert forall|i: int| 0 <= i < t.len() implies {
            let c = #[trigger] t[i];
            48 <= c <= 57 || 97 <= c <= 122
        } by {
            if i < pre.len() {
                assert(t[i] == pre[i]);
            }
        }
    }
}

/// Reading the bare digit text of `n` in `base` through `strtoull`.
proof fn lemma_strtoull_radix(n: u64, base: nat)
    requires
        base == 10 || base == 16 || base == 2,
    ensures
        strtoull_value(radix_text(n as nat, base), base as int) == Some(n),
{
    let t = radix_text(n as nat, base);
    lemma_radix_text(n as nat, base);
    assert(digit_value(t[0]) < base);
    assert(trim_spaces(t) == t);
    assert(strip_sign(t) == (false, t));
    assert(strip_hex_prefix(t, base as int) == t) by {
        if base == 16 && t.len() >= 3 && t[0] == 48 {
            assert(digit_value(t[1]) < 16);
        }
    }
}

/// `parse_u64` reads back the decimal text of every `u64` (what
/// `to_string` gives), its `0x` hexadecimal text (`{:#x}`) and its
/// `0b` binary text (`{:#b}`).
pub proof fn lemma_parse_u64_round_trip(n: u64)
    ensures
        parse_u64_value(radix_text(n as nat, 10)) == Some(n),
        parse_u64_value(seq![48u8, 120u8] + radix_text(n as nat, 16)) == Some(n),
        parse_u64_value(seq![48u8, 98u8] + radix_text(n as nat, 2)) == Some(n),
{
    let d = radix_text(n as nat, 10);
    lemma_strtoull_radix(n, 10);
    lemma_radix_text(n as nat, 10);
    if d.len() > 2 {
        assert(digit_value(d[1]) < 10);
    }
    assert(d.skip(0) =~= d);
    let h = seq![48u8, 120u8] + radix_text(n as nat, 16);
    lemma_strtoull_radix(n, 16);
    lemma_radix_text(n as nat, 16);
    assert(h.skip(2) =~= radix_text(n as nat, 16));
    let b = seq![48u8, 98u8] + radix_text(n as nat, 2);
    lemma_strtoull_radix(n, 2);
    lemma_radix_text(n as nat, 2);
    assert(b.skip(2) =~= radix_text(n as nat, 2));
}

/// The exec twin of [`is_c_space`].
pub fn is_space_byte(b: u8) -> (r: bool)
    ensures
        r == is_c_space(b),
{
    b == 32 || (9 <= b && b <= 13)
}

/// The exec twin of [`digit_value`].
pub fn digit_of(b: u8) -> (d: u32)
    ensures
        d == digit_value(b),
{
    if 48 <= b && b <= 57 {
        (b - 48) as u32
    } else if 97 <= b && b <= 122 {
        (b - 87) as u32
    } else if 65 <= b && b <= 90 {
        (b - 55) as u32
    } else {
        36
    }
}

proof fn lemma_no_overflow(v: int, b: int, d: int, m: int)
    by (nonlinear_arith)
    requires
        b > 0,
        0 <= d <= m,
        0 <= v <= (m - d) / b,
    ensures
        v * b + d <= m,
{
}

proof fn lemma_overflow(v: int, b: int, d: int, m: int)
    by (nonlinear_arith)
    requires
        b > 0,
        0 <= d <= m,
        v > (m - d) / b,
    ensures
        v * b + d > m,
{
}

proof fn lemma_grows(v: int, b: int, d: int)
    by (nonlinear_arith)
    requires
        b >= 1,
        d >= 0,
        v >= 0,
    ensures
        v * b + d >= v,
{
}

proof fn lemma_digits_nonneg(s: Seq<u8>, base: int)
    requires
        base >= 1,
        all_digits(s, base),
    ensures
        digits_value(s, base) >= 0,
    decreases s.len(),
{
    if s.len() > 0 {
        assert(all_digits(s.drop_last(), base)) by {
            assert forall|i: int| 0 <= i < s.drop_last().len() implies #[trigger] digit_value(
                s.drop_last()[i],
            ) < base by {
                assert(s.drop_last()[i] == s[i]);
            }
        }
        lemma_digits_nonneg(s.drop_last(), base);
        assert(digit_value(s[s.len() - 1]) >= 0);
        lemma_grows(digits_value(s.drop_last(), base), base, digit_value(s.last()));
    }
}

/// `strtoull(s, &end, base)` with the whole-string acceptance check:
/// `None` unless at least one digit was consumed and nothing remains.
pub fn strtoull_whole(s: &[u8], base: u32) -> (r: Option<u64>)
    requires
        2 <= base <= 36,
    ensures
        r == strtoull_value(s@, base as int),
{
    let n = s.len();
    let mut i: usize = 0;
    assert(s@.skip(0) =~= s@);
    while i < n && is_space_byte(s[i])
        invariant
            n == s@.len(),
            i <= n,
            trim_spaces(s@) == trim_spaces(s@.skip(i as int)),
        decreases n - i,
    {
        assert(s@.skip(i as int).skip(1) =~= s@.skip(i + 1));
        i = i + 1;
    }
    assert(trim_spaces(s@) == s@.skip(i as int));
    let mut neg = false;
    if i < n && (s[i] == 43 || s[i] == 45) {
        neg = s[i] == 45;
        assert(s@.skip(i as int).skip(1) =~= s@.skip(i + 1));
        i = i + 1;
    }
    let ghost t0 = s@.skip(i as int);
    assert(strip_sign(trim_spaces(s@)) == (neg, t0));
    if base == 16 && i < n && n - i > 2 && s[i] == 48 && (s[i + 1] == 120 || s[i + 1] == 88) && digit_of(
        s[i + 2],
    ) < 16 {
        assert(t0.skip(2) =~= s@.skip(i + 2));
        i = i + 2;
    }
    let start = i;
    let ghost t = s@.skip(start as int);
    assert(strip_hex_prefix(t0, base as int) == t);
    if i == n {
        assert(t.len() == 0);
        assert(strtoull_value(s@, base as int).is_none());
        return None;
    }
    let mut value: u64 = 0;
    let mut saturated = false;
    while i < n
        invariant
            n == s@.len(),
            start < n,
            start <= i <= n,
            2 <= base <= 36,
            t == s@.skip(start as int),
            strip_sign(trim_spaces(s@)) == (neg, t0),
            strip_hex_prefix(t0, base as int) == t,
            all_digits(s@.subrange(start as int, i as int), base as int),
            !saturated ==> value == digits_value(s@.subrange(start as int, i as int), base as int),
            saturated ==> digits_value(s@.subrange(start as int, i as int), base as int)
                > u64::MAX,
        decreases n - i,
    {
        let d = digit_of(s[i]);
        if d >= base {
            assert(t[i - start] == s@[i as int]);
            assert(!all_digits(t, base as int));
            return None;
        }
        let ghost pre = s@.subrange(start as int, i as int);
        let ghost next = s@.subrange(start as int, i + 1);
        assert(next.drop_last() =~= pre);
        assert(next.last() == s@[i as int]);
        assert(all_digits(next, base as int)) by {
            assert forall|k: int| 0 <= k < next.len() implies #[trigger] digit_value(next[k])
                < base by {
                if k < pre.len() {
                    assert(next[k] == pre[k]);
                }
            }
        }
        proof {
            lemma_digits_nonneg(pre, base as int);
        }
        if !saturated {
            if value > (u64::MAX - d as u64) / base as u64 {
                proof {
                    lemma_overflow(value as int, base as int, d as int, u64::MAX as int);
                }
                saturated = true;
            } else {
                proof {
                    lemma_no_overflow(value as int, base as int, d as int, u64::MAX as int);
                }
                value = value * base as u64 + d as u64;
            }
        } else {
            proof {
                lemma_grows(digits_value(pre, base as int), base as int, d as int);
            }
        }
        i = i + 1;
    }
    assert(s@.subrange(start as int, n as int) =~= t);
    if saturated {
        Some(u64::MAX)
    } else if neg && value > 0 {
        Some(u64::MAX - value + 1)
    } else {
        Some(value)
    }
}

/// Parse a numeric argument (`parse_u64`): a
/// `0x`/`0X` prefix on the raw string selects base 16 and `0b`/`0B`
/// base 2 (only when the string is longer than two bytes), otherwise
/// base 10; the rest goes through `strtoull` and must be consumed
/// whole.
pub fn parse_u64(s: &str) -> (r: Result<u64, ParseU64Error>)
    ensures
        r == (match parse_u64_value(s.spec_bytes()) {
            Some(v) => Ok::<u64, ParseU64Error>(v),
            None => Err(ParseU64Error),
        }),
{
    let bytes = s.as_bytes();
    let n = bytes.len();
    let parsed = if n > 2 && bytes[0] == 48 && (bytes[1] == 120 || bytes[1] == 88) {
        strtoull_whole(slice_from(bytes, 2), 16)
    } else if n > 2 && bytes[0] == 48 && (bytes[1] == 98 || bytes[1] == 66) {
        strtoull_whole(slice_from(bytes, 2), 2)
    } else {
        assert(bytes@.skip(0) =~= bytes@);
        strtoull_whole(bytes, 10)
    };
    match parsed {
        Some(v) => Ok(v),
        None => Err(ParseU64Error),
    }
}

/// The bytes of `b` from `start` on.
pub fn slice_from(b: &[u8], start: usize) -> (r: &[u8])
    requires
        start <= b@.len(),
    ensures
        r@ == b@.skip(start as int),
{
    let (_, tail) = b.split_at(start);
    tail
}

} // verus!
