//! The capture tool's limits and defaults, its 32-bit argument parser,
//! the transfer byte accounting and the sample-rate selection.
use crate::cli::{is_c_space, is_space_byte, parse_u64, parse_u64_value, ParseU64Error};
use crate::commands::SampleType;
pub use crate::wav::{
    wav_filename, wav_header_finalized, wav_header_placeholder, WavParams, WAV_HEADER_LEN,
    WAV_MAX_DATA_BYTES,
};
use vstd::prelude::*;
use vstd::string::StringSliceAdditionalSpecFns;

verus! {

/// One megahertz in hertz.
pub const FREQ_ONE_MHZ: u32 = 1_000_000;

/// The default tuning frequency (900 MHz).
pub const DEFAULT_FREQ_HZ: u32 = 900_000_000;

/// The lowest accepted tuning frequency (24 MHz).
pub const FREQ_HZ_MIN: u32 = 24_000_000;

/// The bound above the accepted tuning frequencies (1900 MHz;
/// officially 1750 MHz).
pub const FREQ_HZ_MAX: u32 = 1_900_000_000;

/// The default VGA/IF gain.
pub const DEFAULT_VGA_IF_GAIN: u32 = 5;

/// The default LNA gain.
pub const DEFAULT_LNA_GAIN: u32 = 1;

/// The default mixer gain.
pub const DEFAULT_MIXER_GAIN: u32 = 5;

/// The highest VGA gain.
pub const VGA_GAIN_MAX: u32 = 15;

/// The highest mixer gain.
pub const MIXER_GAIN_MAX: u32 = 15;

/// The highest LNA gain.
pub const LNA_GAIN_MAX: u32 = 14;

/// The highest linearity gain.
pub const LINEARITY_GAIN_MAX: u32 = 21;

/// The highest sensitivity gain.
pub const SENSITIVITY_GAIN_MAX: u32 = 21;

/// The highest bias-tee value.
pub const BIAST_MAX: u32 = 1;

/// The bound above the accepted sample counts (`2^63`).
pub const SAMPLES_TO_XFER_MAX: u64 = 0x8000_0000_0000_0000;

/// Sample-rate values at or below this are indices into the supported
/// rate table; larger values are literal rates in hertz.
pub const MIN_SAMPLERATE_BY_VALUE: u32 = 1_000_000;

/// The output buffer size of the capture file.
pub const FD_BUFFER_SIZE: usize = 16 * 1024;

/// `parse_u64`, then the value keeps its low 32 bits (a 64-bit
/// `strtoul` result stored into a `uint32_t`).
pub fn parse_u32(s: &str) -> (r: Result<u32, ParseU64Error>)
    ensures
        r == (match parse_u64_value(s.spec_bytes()) {
            Some(v) => Ok::<u32, ParseU64Error>((v % 0x1_0000_0000) as u32),
            None => Err(ParseU64Error),
        }),
{
    match parse_u64(s) {
        Ok(v) => Ok((v % 0x1_0000_0000) as u32),
        Err(e) => Err(e),
    }
}

/// The bits per sample the byte budget counts: 16 for unpacked RAW
/// (16-bit words on the wire), the format's bits otherwise.
pub open spec fn budget_bits(params: WavParams, sample_type: SampleType, packing: bool) -> u64 {
    if sample_type == SampleType::Raw && !packing {
        16
    } else {
        params.bits_per_sample as u64
    }
}

/// `samples * bits * channels / 8` with the two products wrapping at
/// 64 bits.
pub open spec fn bytes_to_xfer_of(
    samples: u64,
    params: WavParams,
    sample_type: SampleType,
    packing: bool,
) -> u64 {
    (samples.wrapping_mul(budget_bits(params, sample_type, packing)).wrapping_mul(
        params.channels as u64,
    ) / 8) as u64
}

/// The byte budget of a `-n` sample limit.
pub fn bytes_to_xfer(samples_to_xfer: u64, params: &WavParams, sample_type: SampleType, packing: bool) -> (b: u64)
    ensures
        b == bytes_to_xfer_of(samples_to_xfer, *params, sample_type, packing),
{
    let bits: u64 = if sample_type == SampleType::Raw && !packing {
        16
    } else {
        params.bits_per_sample as u64
    };
    samples_to_xfer.wrapping_mul(bits).wrapping_mul(params.channels as u64) / 8
}

/// The rate shown for a `-a` value: an index into `rates` (`None` past
/// its end) up to [`MIN_SAMPLERATE_BY_VALUE`], the value itself above.
pub fn resolve_display_rate(sample_rate_val: u32, rates: &[u32]) -> (r: Option<u32>)
    ensures
        sample_rate_val <= MIN_SAMPLERATE_BY_VALUE ==> r == (if sample_rate_val < rates@.len() {
            Some(rates@[sample_rate_val as int])
        } else {
            None
        }),
        sample_rate_val > MIN_SAMPLERATE_BY_VALUE ==> r == Some(sample_rate_val),
{
    if sample_rate_val <= MIN_SAMPLERATE_BY_VALUE {
        if (sample_rate_val as usize) < rates.len() {
            Some(rates[sample_rate_val as usize])
        } else {
            None
        }
    } else {
        Some(sample_rate_val)
    }
}

/// The `-n` limiting of one delivered block: with no budget the whole
/// block is written; otherwise the block is clamped to what remains and
/// that much is deducted.
pub fn apply_byte_budget(remaining: &mut Option<u64>, block_len: usize) -> (n: usize)
    ensures
        *old(remaining) is None ==> n == block_len && *final(remaining) is None,
        *old(remaining) matches Some(r) ==> {
            &&& n == budget_written(r, block_len)
            &&& *final(remaining) == Some((r - n) as u64)
        },
{
    match remaining {
        None => block_len,
        Some(r) => {
            let n: usize = if block_len as u64 >= *r {
                *r as usize
            } else {
                block_len
            };
            *r = *r - n as u64;
            n
        },
    }
}

/// The element type a delivered block is made of.
#[derive(Debug, Clone, Copy, PartialEq, Eq, Structural)]
pub enum SampleKind {
    /// 32-bit floats.
    Float32,
    /// Signed 16-bit integers.
    Int16,
    /// Unsigned 16-bit words.
    Uint16,
    /// Raw wire bytes.
    Raw,
}

/// The sample count of a delivered block of `len` elements: IQ types
/// count pairs, real types elements, and RAW the samples behind its
/// bytes (`len * 2 / 3` packed 12-bit, `len / 2` unpacked 16-bit).
pub open spec fn frame_count_of(kind: SampleKind, len: int, sample_type: SampleType, packing: bool) -> int {
    match kind {
        SampleKind::Float32 => if sample_type == SampleType::Float32Iq {
            len / 2
        } else {
            len
        },
        SampleKind::Int16 => if sample_type == SampleType::Int16Iq {
            len / 2
        } else {
            len
        },
        SampleKind::Uint16 => len,
        SampleKind::Raw => if packing {
            len * 2 / 3
        } else {
            len / 2
        },
    }
}

/// The sample count of a delivered block (truncated to 32 bits).
pub fn frame_count(kind: SampleKind, len: usize, sample_type: SampleType, packing: bool) -> (n: u32)
    requires
        len * 2 <= usize::MAX,
    ensures
        n == frame_count_of(kind, len as int, sample_type, packing) % 0x1_0000_0000,
{
    let frames: usize = match kind {
        SampleKind::Float32 => if sample_type == SampleType::Float32Iq {
            len / 2
        } else {
            len
        },
        SampleKind::Int16 => if sample_type == SampleType::Int16Iq {
            len / 2
        } else {
            len
        },
        SampleKind::Uint16 => len,
        SampleKind::Raw => if packing {
            len * 2 / 3
        } else {
            len / 2
        },
    };
    (frames as u64 % 0x1_0000_0000) as u32
}

/// The little-endian bytes of 16-bit values, one after another.
pub open spec fn le16_stream(words: Seq<int>) -> Seq<u8>
    decreases words.len(),
{
    if words.len() == 0 {
        Seq::empty()
    } else {
        le16_stream(words.drop_last()) + seq![
            (words.last() % 256) as u8,
            ((words.last() / 256) % 256) as u8,
        ]
    }
}

/// Append signed 16-bit samples as little-endian bytes
/// (two's complement).
pub fn extend_i16_bytes(out: &mut Vec<u8>, samples: &[i16])
    ensures
        final(out)@ == old(out)@ + le16_stream(samples@.map_values(|v: i16| v as int)),
{
    let ghost start = out@;
    let mut i: usize = 0;
    while i < samples.len()
        invariant
            i <= samples@.len(),
            out@ == start + le16_stream(samples@.subrange(0, i as int).map_values(|v: i16| v as int)),
        decreases samples@.len() - i,
    {
        let v = samples[i];
        let u: u16 = if v < 0 {
            (v as i32 + 65536) as u16
        } else {
            v as u16
        };
        out.push((u % 256) as u8);
        out.push((u / 256) as u8);
        proof {
            let w = samples@.subrange(0, i + 1).map_values(|x: i16| x as int);
            assert(w.drop_last() =~= samples@.subrange(0, i as int).map_values(|x: i16| x as int));
            assert(w.last() == v as int);
        }
        i = i + 1;
        assert(out@ =~= start + le16_stream(samples@.subrange(0, i as int).map_values(|x: i16| x as int)));
    }
    assert(samples@.subrange(0, samples@.len() as int) =~= samples@);
}

/// Append unsigned 16-bit samples as little-endian bytes.
pub fn extend_u16_bytes(out: &mut Vec<u8>, samples: &[u16])
    ensures
        final(out)@ == old(out)@ + le16_stream(samples@.map_values(|v: u16| v as int)),
{
    let ghost start = out@;
    let mut i: usize = 0;
    while i < samples.len()
        invariant
            i <= samples@.len(),
            out@ == start + le16_stream(samples@.subrange(0, i as int).map_values(|v: u16| v as int)),
        decreases samples@.len() - i,
    {
        let u = samples[i];
        out.push((u % 256) as u8);
        out.push((u / 256) as u8);
        proof {
            let w = samples@.subrange(0, i + 1).map_values(|x: u16| x as int);
            assert(w.drop_last() =~= samples@.subrange(0, i as int).map_values(|x: u16| x as int));
            assert(w.last() == u as int);
        }
        i = i + 1;
        assert(out@ =~= start + le16_stream(samples@.subrange(0, i as int).map_values(|x: u16| x as int)));
    }
    assert(samples@.subrange(0, samples@.len() as int) =~= samples@);
}

/// The bytes written for one block under a remaining budget `r`.
pub open spec fn budget_written(r: u64, len: usize) -> u64 {
    if len >= r {
        r
    } else {
        len as u64
    }
}

/// The total written for blocks of lengths `lens` starting from the
/// budget `r`.
pub open spec fn budget_total(r: u64, lens: Seq<usize>) -> int
    decreases lens.len(),
{
    if lens.len() == 0 {
        0
    } else {
        budget_written(r, lens[0]) + budget_total((r - budget_written(r, lens[0])) as u64, lens.skip(1))
    }
}

/// The budget left after blocks of lengths `lens`.
pub open spec fn budget_left(r: u64, lens: Seq<usize>) -> u64
    decreases lens.len(),
{
    if lens.len() == 0 {
        r
    } else {
        budget_left((r - budget_written(r, lens[0])) as u64, lens.skip(1))
    }
}

/// A `-n` limit is never exceeded: over any sequence of blocks, what
/// is written plus what remains is exactly the initial budget.
pub proof fn lemma_budget_never_exceeded(r: u64, lens: Seq<usize>)
    ensures
        budget_total(r, lens) + budget_left(r, lens) == r,
        budget_total(r, lens) <= r,
    decreases lens.len(),
{
    if lens.len() > 0 {
        lemma_budget_never_exceeded((r - budget_written(r, lens[0])) as u64, lens.skip(1));
    }
}

/// Whether `b` is an ASCII decimal digit.
pub open spec fn is_decimal_digit(b: u8) -> bool {
    48 <= b <= 57
}

/// How many C spaces run from position `i` of `s`.
pub open spec fn space_run(s: Seq<u8>, i: int) -> nat
    decreases s.len() - i,
{
    if 0 <= i < s.len() && is_c_space(s[i]) {
        1 + space_run(s, i + 1)
    } else {
        0
    }
}

/// How many decimal digits run from position `i` of `s`.
pub open spec fn digit_run(s: Seq<u8>, i: int) -> nat
    decreases s.len() - i,
{
    if 0 <= i < s.len() && is_decimal_digit(s[i]) {
        1 + digit_run(s, i + 1)
    } else {
        0
    }
}

/// Whether position `i` of `s` holds `+` or `-`.
pub open spec fn sign_at(s: Seq<u8>, i: int) -> bool {
    0 <= i < s.len() && (s[i] == 43 || s[i] == 45)
}

/// Where the longest decimal number after the leading C spaces of `s`
/// ends (`strtod`'s decimal forms): an optional sign, digits, an
/// optional `.` with digits (at least one digit in all), then an
/// exponent `e`/`E`, optionally signed, counted only when a digit
/// follows it. With no digit at all the number is empty: it ends
/// where it starts, after the spaces.
pub open spec fn decimal_number_end(s: Seq<u8>) -> int {
    let w = space_run(s, 0) as int;
    let p0 = if sign_at(s, w) {
        w + 1
    } else {
        w
    };
    let id = digit_run(s, p0);
    let p1 = p0 + id;
    let has_point = 0 <= p1 < s.len() && s[p1] == 46;
    let fd = if has_point {
        digit_run(s, p1 + 1)
    } else {
        0
    };
    let p2 = if has_point {
        p1 + 1 + fd
    } else {
        p1
    };
    if id == 0 && fd == 0 {
        w
    } else if 0 <= p2 < s.len() && (s[p2] == 101 || s[p2] == 69) {
        let q = if sign_at(s, p2 + 1) {
            p2 + 2
        } else {
            p2 + 1
        };
        if digit_run(s, q) > 0 {
            q + digit_run(s, q)
        } else {
            p2
        }
    } else {
        p2
    }
}

fn count_spaces(s: &[u8], i: usize) -> (n: usize)
    requires
        i <= s@.len(),
    ensures
        n == space_run(s@, i as int),
        i + n <= s@.len(),
{
    let mut j = i;
    while j < s.len() && is_space_byte(s[j])
        invariant
            i <= j <= s@.len(),
            space_run(s@, i as int) == (j - i) + space_run(s@, j as int),
        decreases s@.len() - j,
    {
        j = j + 1;
    }
    j - i
}

fn count_digits(s: &[u8], i: usize) -> (n: usize)
    requires
        i <= s@.len(),
    ensures
        n == digit_run(s@, i as int),
        i + n <= s@.len(),
{
    let mut j = i;
    while j < s.len() && 48 <= s[j] && s[j] <= 57
        invariant
            i <= j <= s@.len(),
            digit_run(s@, i as int) == (j - i) + digit_run(s@, j as int),
        decreases s@.len() - j,
    {
        j = j + 1;
    }
    j - i
}

fn sign_byte_at(s: &[u8], i: usize) -> (b: bool)
    ensures
        b == sign_at(s@, i as int),
{
    i < s.len() && (s[i] == 43 || s[i] == 45)
}

/// The decimal number at the start of `s` (the `-f` argument), as
/// `(start, end)`: `start` skips the leading C spaces, `end` is
/// [`decimal_number_end`]. The number's text is `s[start..end]`, empty
/// when nothing parses (the value is then 0).
pub fn decimal_prefix(s: &[u8]) -> (r: (usize, usize))
    ensures
        r.0 == space_run(s@, 0),
        r.1 == decimal_number_end(s@),
        r.0 <= r.1 <= s@.len(),
{
    let n = s.len();
    let w = count_spaces(s, 0);
    let p0 = if sign_byte_at(s, w) {
        w + 1
    } else {
        w
    };
    let id = count_digits(s, p0);
    let p1 = p0 + id;
    let has_point = p1 < n && s[p1] == 46;
    let fd = if has_point {
        count_digits(s, p1 + 1)
    } else {
        0
    };
    let p2 = if has_point {
        p1 + 1 + fd
    } else {
        p1
    };
    if id == 0 && fd == 0 {
        return (w, w);
    }
    if p2 < n && (s[p2] == 101 || s[p2] == 69) {
        let q = if sign_byte_at(s, p2 + 1) {
            p2 + 2
        } else {
            p2 + 1
        };
        let ed = count_digits(s, q);
        if ed > 0 {
            (w, q + ed)
        } else {
            (w, p2)
        }
    } else {
        (w, p2)
    }
}

/// The data budget of a WAV capture with `-n` budget `samples_budget`:
/// at most [`WAV_MAX_DATA_BYTES`], so the finalized header's sizes
/// stay representable.
pub open spec fn wav_capture_budget(samples_budget: Option<u64>) -> u64 {
    match samples_budget {
        Some(n) => if n < WAV_MAX_DATA_BYTES {
            n
        } else {
            WAV_MAX_DATA_BYTES
        },
        None => WAV_MAX_DATA_BYTES,
    }
}

/// The byte budget of a capture: a WAV capture (`-w`) stops at
/// [`wav_capture_budget`]; any other capture has its `-n` budget, or
/// none.
pub fn capture_byte_budget(receive_wav: bool, samples_budget: Option<u64>) -> (b: Option<u64>)
    ensures
        b == if receive_wav {
            Some(wav_capture_budget(samples_budget))
        } else {
            samples_budget
        },
{
    if !receive_wav {
        return samples_budget;
    }
    match samples_budget {
        Some(n) => if n < WAV_MAX_DATA_BYTES {
            Some(n)
        } else {
            Some(WAV_MAX_DATA_BYTES)
        },
        None => Some(WAV_MAX_DATA_BYTES),
    }
}

/// Whatever blocks a WAV capture receives, the file it writes (header
/// and data) ends at or below `u32::MAX`, so the finalized header's
/// data size is exactly the data written and its RIFF size that plus
/// 36.
pub proof fn lemma_wav_capture_fits(samples_budget: Option<u64>, lens: Seq<usize>)
    ensures
        ({
            let written = budget_total(wav_capture_budget(samples_budget), lens);
            let file_pos = (WAV_HEADER_LEN + written) as u32;
            &&& WAV_HEADER_LEN + written <= u32::MAX
            &&& file_pos.wrapping_sub(44) == written
            &&& file_pos.wrapping_sub(8) == written + 36
        }),
{
    let b = wav_capture_budget(samples_budget);
    lemma_budget_never_exceeded(b, lens);
    let written = budget_total(b, lens);
    assert(written >= 0) by {
        lemma_budget_nonneg(b, lens);
    }
}

proof fn lemma_budget_nonneg(r: u64, lens: Seq<usize>)
    ensures
        budget_total(r, lens) >= 0,
    decreases lens.len(),
{
    if lens.len() > 0 {
        lemma_budget_nonneg((r - budget_written(r, lens[0])) as u64, lens.skip(1));
    }
}

} // verus!
