//! Device identity: the USB ids the driver looks for, and the serial
//! number carried by the serial-number string descriptor.
use crate::cli::{digit_of, digit_value, digits_value};
use vstd::prelude::*;
use vstd::string::StringSliceAdditionalSpecFns;

verus! {

/// USB vendor id.
pub const AIRSPY_USB_VID: u16 = 0x1d50;

/// USB product id.
pub const AIRSPY_USB_PID: u16 = 0x60a1;

/// Characters before the hex digits (`AIRSPY SN:`).
pub const SERIAL_PREFIX_LEN: usize = 10;

/// The serial descriptor's total length.
pub const SERIAL_EXPECTED_LEN: usize = 26;

/// The number of hex digits `t` starts with.
pub open spec fn hex_prefix_len(t: Seq<u8>) -> nat
    decreases t.len(),
{
    if t.len() > 0 && digit_value(t[0]) < 16 {
        1 + hex_prefix_len(t.skip(1))
    } else {
        0
    }
}

/// The serial a descriptor names: a 26-byte descriptor whose tail
/// after the 10-byte prefix starts with at least one hex digit; the
/// digits up to the first other byte give the value (`strtoull` in
/// base 16).
pub open spec fn serial_of(d: Seq<u8>) -> Option<u64> {
    let t = d.skip(10);
    let k = hex_prefix_len(t);
    if d.len() != 26 || k == 0 {
        None
    } else {
        Some(digits_value(t.take(k as int), 16) as u64)
    }
}

/// `16^n`.
pub open spec fn pow16(n: nat) -> nat
    decreases n,
{
    if n == 0 {
        1
    } else {
        16 * pow16((n - 1) as nat)
    }
}

proof fn lemma_pow16_mono(a: nat, b: nat)
    requires
        a <= b,
    ensures
        pow16(a) <= pow16(b),
    decreases b,
{
    if a < b {
        lemma_pow16_mono(a, (b - 1) as nat);
    }
}

proof fn lemma_step_bound(v: int, d: int, p: int)
    by (nonlinear_arith)
    requires
        0 <= v < p,
        0 <= d < 16,
    ensures
        v * 16 + d < 16 * p,
{
}

proof fn lemma_hex_prefix_len_le(t: Seq<u8>)
    ensures
        hex_prefix_len(t) <= t.len(),
    decreases t.len(),
{
    if t.len() > 0 && digit_value(t[0]) < 16 {
        lemma_hex_prefix_len_le(t.skip(1));
    }
}

proof fn lemma_hex_prefix_take(t: Seq<u8>, i: nat)
    requires
        i <= hex_prefix_len(t),
    ensures
        hex_prefix_len(t) == i + hex_prefix_len(t.skip(i as int)),
        forall|j: int| 0 <= j < i ==> #[trigger] digit_value(t[j]) < 16,
    decreases i,
{
    lemma_hex_prefix_len_le(t);
    if i > 0 {
        assert(t.len() > 0 && digit_value(t[0]) < 16);
        lemma_hex_prefix_take(t.skip(1), (i - 1) as nat);
        assert(t.skip(1).skip((i - 1) as int) =~= t.skip(i as int));
        assert forall|j: int| 0 <= j < i implies #[trigger] digit_value(t[j]) < 16 by {
            if j > 0 {
                assert(t[j] == t.skip(1)[j - 1]);
            }
        }
    } else {
        assert(t.skip(0) =~= t);
    }
}

/// Parse a serial-number string descriptor: exactly
/// [`SERIAL_EXPECTED_LEN`] bytes, then the hex digits after the prefix
/// up to the first other byte; `None` when there is no digit.
pub fn parse_serial(descriptor: &str) -> (r: Option<u64>)
    ensures
        r == serial_of(descriptor.spec_bytes()),
{
    let b = descriptor.as_bytes();
    if b.len() != SERIAL_EXPECTED_LEN {
        return None;
    }
    let ghost t = b@.skip(10);
    let mut i: usize = SERIAL_PREFIX_LEN;
    let mut value: u64 = 0;
    proof {
        lemma_hex_prefix_take(t, 0);
        assert(t.take(0) =~= Seq::<u8>::empty());
    }
    while i < 26 && digit_of(b[i]) < 16
        invariant
            b@.len() == 26,
            b@ == descriptor.spec_bytes(),
            t == b@.skip(10),
            10 <= i <= 26,
            (i - 10) <= hex_prefix_len(t),
            hex_prefix_len(t) == (i - 10) + hex_prefix_len(t.skip(i - 10)),
            value == digits_value(t.take(i - 10), 16),
            value < pow16((i - 10) as nat),
        decreases 26 - i,
    {
        let d = digit_of(b[i]);
        let ghost k = (i - 10) as int;
        assert(t.skip(k)[0] == b@[i as int]);
        assert(t.skip(k).skip(1) =~= t.skip(k + 1));
        assert(t.take(k + 1).drop_last() =~= t.take(k));
        assert(t.take(k + 1).last() == b@[i as int]);
        proof {
            lemma_step_bound(value as int, d as int, pow16(k as nat) as int);
            lemma_pow16_mono((k + 1) as nat, 16);
            reveal_with_fuel(pow16, 17);
        }
        value = value * 16 + d as u64;
        i = i + 1;
    }
    let ghost k = (i - 10) as int;
    assert(hex_prefix_len(t.skip(k)) == 0) by {
        if i < 26 {
            assert(t.skip(k)[0] == b@[i as int]);
        }
    }
    if i == SERIAL_PREFIX_LEN {
        None
    } else {
        Some(value)
    }
}

} // verus!
