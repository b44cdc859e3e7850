//! Half-band FIR kernel of the fixed-point IQ converter.
use vstd::prelude::*;

verus! {

/// Number of taps in [`HB_KERNEL_INT16`].
pub const HB_KERNEL_INT16_LEN: usize = 47;

/// Q15 half-band low-pass taps; every odd tap is zero apart from the
/// center (16384 = 0.5 in Q15).
pub const HB_KERNEL_INT16: [i16; 47] = [
    -33, 0, 56, 0, -100, 0, 166, 0, -259, 0, 389, 0, -571, 0, 829, 0,
    -1220, 0, 1885, 0, -3353, 0, 10389, 16384, 10389, 0, -3353, 0,
    1885, 0, -1220, 0, 829, 0, -571, 0, 389, 0, -259, 0, 166, 0,
    -100, 0, 56, 0, -33,
];

} // verus!
