//! Sample-format conversion: the 12-bit packed-mode unpacker, the
//! little-endian word view of unpacked transfers, and the signed
//! 16-bit conversion.
use crate::commands::SampleType;
use vstd::prelude::*;

verus! {

/// Bytes consumed per unpacked group (three 32-bit words).
pub const BYTES_PER_GROUP: usize = 12;

/// Samples produced per group.
pub const SAMPLES_PER_GROUP: usize = 8;

/// Bits the 12-bit samples are shifted up by in the signed 16-bit
/// conversion (16-bit encapsulation minus 12-bit resolution).
pub const SAMPLE_SHIFT: i32 = 4;

/// The little-endian 32-bit word at byte offset `off`, zero when fewer
/// than four bytes remain.
pub open spec fn le_word(b: Seq<u8>, off: int) -> u32 {
    if 0 <= off && off + 4 <= b.len() {
        (b[off] as int + b[off + 1] as int * 0x100 + b[off + 2] as int * 0x1_0000 + b[off + 3] as int
            * 0x100_0000) as u32
    } else {
        0
    }
}

/// Sample `k` (0..8) of a group of three packed words — the firmware's
/// 12-bit bit layout.
pub open spec fn packed_field(k: int, w0: u32, w1: u32, w2: u32) -> u16 {
    if k == 0 {
        ((w0 >> 20u32) & 0xFFF) as u16
    } else if k == 1 {
        ((w0 >> 8u32) & 0xFFF) as u16
    } else if k == 2 {
        (((w0 & 0xFF) << 4u32) | ((w1 >> 28u32) & 0xF)) as u16
    } else if k == 3 {
        ((w1 & 0x0FFF_0000) >> 16u32) as u16
    } else if k == 4 {
        ((w1 & 0xFFF0) >> 4u32) as u16
    } else if k == 5 {
        (((w1 & 0xF) << 8u32) | ((w2 & 0xFF00_0000) >> 24u32)) as u16
    } else if k == 6 {
        ((w2 >> 12u32) & 0xFFF) as u16
    } else {
        (w2 & 0xFFF) as u16
    }
}

/// The sample at position `p` of the unpacked stream of `input`.
pub open spec fn packed_sample(input: Seq<u8>, p: int) -> u16 {
    let g = p / 8;
    packed_field(
        p % 8,
        le_word(input, 12 * g),
        le_word(input, 12 * g + 4),
        le_word(input, 12 * g + 8),
    )
}

/// How many samples [`unpack_samples`] writes for `ilen` input bytes
/// into `olen` output slots: eight per whole group that fits both
/// buffers, then the samples fully contained in the remaining
/// in-bounds words (two for a 4-byte tail, five for an 8-byte tail),
/// as far as the output has room.
pub open spec fn unpacked_len(ilen: int, olen: int) -> int {
    let g: int = if ilen / 12 <= olen / 8 {
        ilen / 12
    } else {
        olen / 8
    };
    let tail: int = ilen - 12 * g;
    let tc: int = if tail >= 8 {
        5
    } else if tail >= 4 {
        2
    } else {
        0
    };
    8 * g + if tc <= olen - 8 * g {
        tc
    } else {
        olen - 8 * g
    }
}

/// Read the little-endian word at `off`.
fn read_le_word(b: &[u8], off: usize) -> (w: u32)
    requires
        off + 4 <= b@.len(),
    ensures
        w == le_word(b@, off as int),
{
    (b[off] as u32) + (b[off + 1] as u32) * 0x100 + (b[off + 2] as u32) * 0x1_0000 + (b[off + 3]
        as u32) * 0x100_0000
}

/// Sample `k` of a packed group, computed.
fn field(k: usize, w0: u32, w1: u32, w2: u32) -> (s: u16)
    requires
        k < 8,
    ensures
        s == packed_field(k as int, w0, w1, w2),
        s < 4096,
{
    let v: u32 = if k == 0 {
        (w0 >> 20) & 0xFFF
    } else if k == 1 {
        (w0 >> 8) & 0xFFF
    } else if k == 2 {
        ((w0 & 0xFF) << 4) | ((w1 >> 28) & 0xF)
    } else if k == 3 {
        (w1 & 0x0FFF_0000) >> 16
    } else if k == 4 {
        (w1 & 0xFFF0) >> 4
    } else if k == 5 {
        ((w1 & 0xF) << 8) | ((w2 & 0xFF00_0000) >> 24)
    } else if k == 6 {
        (w2 >> 12) & 0xFFF
    } else {
        w2 & 0xFFF
    };
    assert(((w0 >> 20u32) & 0xFFF) < 4096) by (bit_vector);
    assert(((w0 >> 8u32) & 0xFFF) < 4096) by (bit_vector);
    assert((((w0 & 0xFF) << 4u32) | ((w1 >> 28u32) & 0xF)) < 4096) by (bit_vector);
    assert(((w1 & 0x0FFF_0000) >> 16u32) < 4096) by (bit_vector);
    assert(((w1 & 0xFFF0) >> 4u32) < 4096) by (bit_vector);
    assert((((w1 & 0xF) << 8u32) | ((w2 & 0xFF00_0000) >> 24u32)) < 4096) by (bit_vector);
    assert(((w2 >> 12u32) & 0xFFF) < 4096) by (bit_vector);
    assert((w2 & 0xFFF) < 4096) by (bit_vector);
    v as u16
}

/// Unpack 12-bit packed samples from the raw USB byte stream: each
/// 12-byte group (three little-endian 32-bit words) yields eight
/// samples. After the whole groups, the samples fully contained in the
/// remaining in-bounds words are decoded too (never reading past the
/// input or writing past the output). Returns the number of samples
/// written.
pub fn unpack_samples(input: &[u8], output: &mut [u16]) -> (written: usize)
    ensures
        written == unpacked_len(input@.len() as int, old(output)@.len() as int),
        final(output)@.len() == old(output)@.len(),
        forall|p: int| 0 <= p < written ==> #[trigger] final(output)@[p] == packed_sample(input@, p),
        forall|p: int| written <= p < old(output)@.len() ==> #[trigger] final(output)@[p] == old(
            output,
        )@[p],
{
    let ilen = input.len();
    let olen = output.len();
    let groups = if ilen / BYTES_PER_GROUP <= olen / SAMPLES_PER_GROUP {
        ilen / BYTES_PER_GROUP
    } else {
        olen / SAMPLES_PER_GROUP
    };
    let ghost out0 = output@;
    let mut g: usize = 0;
    while g < groups
        invariant
            ilen == input@.len(),
            olen == output@.len(),
            olen == out0.len(),
            groups == (if ilen / 12 <= olen / 8 { ilen / 12 } else { olen / 8 }),
            groups * 12 <= ilen,
            groups * 8 <= olen,
            g <= groups,
            forall|p: int| 0 <= p < 8 * g ==> #[trigger] output@[p] == packed_sample(input@, p),
            forall|p: int| 8 * g <= p < olen ==> #[trigger] output@[p] == out0[p],
        decreases groups - g,
    {
        let base = g * BYTES_PER_GROUP;
        let w0 = read_le_word(input, base);
        let w1 = read_le_word(input, base + 4);
        let w2 = read_le_word(input, base + 8);
        let mut k: usize = 0;
        while k < SAMPLES_PER_GROUP
            invariant
                ilen == input@.len(),
                olen == output@.len(),
                g < groups,
                groups * 8 <= olen,
                base == g * 12,
                w0 == le_word(input@, base as int),
                w1 == le_word(input@, base + 4),
                w2 == le_word(input@, base + 8),
                k <= 8,
                forall|p: int| 0 <= p < 8 * g + k ==> #[trigger] output@[p] == packed_sample(input@, p),
                forall|p: int| 8 * g + k <= p < olen ==> #[trigger] output@[p] == out0[p],
            decreases 8 - k,
        {
            let s = field(k, w0, w1, w2);
            let pos = g * SAMPLES_PER_GROUP + k;
            output[pos] = s;
            assert(pos as int / 8 == g && pos as int % 8 == k);
            k = k + 1;
        }
        g = g + 1;
    }
    let mut written = groups * SAMPLES_PER_GROUP;
    let tail = ilen - groups * BYTES_PER_GROUP;
    let tc: usize = if tail >= 8 {
        5
    } else if tail >= 4 {
        2
    } else {
        0
    };
    if tc > 0 {
        let base = groups * BYTES_PER_GROUP;
        let w0 = read_le_word(input, base);
        let w1 = if tc == 5 {
            read_le_word(input, base + 4)
        } else {
            0
        };
        let mut k: usize = 0;
        while k < tc && written < olen
            invariant
                ilen == input@.len(),
                olen == output@.len(),
                base == groups * 12,
                groups == (if ilen / 12 <= olen / 8 { ilen / 12 } else { olen / 8 }),
                groups * 8 <= olen,
                tail == ilen - base,
                tc == (if tail >= 8 { 5usize } else if tail >= 4 { 2usize } else { 0usize }),
                w0 == le_word(input@, base as int),
                tc == 5 ==> w1 == le_word(input@, base + 4),
                k <= tc,
                written == groups * 8 + k,
                written <= olen,
                forall|p: int| 0 <= p < written ==> #[trigger] output@[p] == packed_sample(input@, p),
                forall|p: int| written <= p < olen ==> #[trigger] output@[p] == out0[p],
            decreases tc - k,
        {
            let s = field(k, w0, w1, 0);
            output[written] = s;
            proof {
                let pw = written as int;
                assert(pw / 8 == groups && pw % 8 == k);
                assert(k >= 2 ==> tc == 5);
                assert(packed_field(k as int, w0, w1, 0) == packed_field(
                    k as int,
                    w0,
                    w1,
                    le_word(input@, base + 8),
                ));
            }
            written = written + 1;
            k = k + 1;
        }
    }
    written
}

/// The sample count [`unpack_samples`] yields for `len` packed bytes
/// when the output has room: `len * 2 / 3`.
pub fn unpacked_sample_count(len: usize) -> (n: usize)
    requires
        len * 2 <= usize::MAX,
    ensures
        n == len * 2 / 3,
{
    len * 2 / 3
}

/// The signed conversion of one 12-bit sample: `(s - 2048) << 4`,
/// computed in 32 bits and truncated to 16.
pub open spec fn int16_sample(s: u16) -> i16 {
    ((s - 2048) * 16) as i16
}

/// Convert unsigned 12-bit samples to signed 16-bit ones, over the
/// common length of `src` and `dest`.
pub fn convert_samples_int16(src: &[u16], dest: &mut [i16])
    ensures
        final(dest)@.len() == old(dest)@.len(),
        forall|i: int|
            0 <= i < src@.len() && i < old(dest)@.len() ==> #[trigger] final(dest)@[i]
                == int16_sample(src@[i]),
        forall|i: int| src@.len() <= i < old(dest)@.len() ==> #[trigger] final(dest)@[i] == old(
            dest,
        )@[i],
{
    let n = if src.len() <= dest.len() {
        src.len()
    } else {
        dest.len()
    };
    let ghost d0 = dest@;
    let mut i: usize = 0;
    while i < n
        invariant
            n <= src@.len(),
            n <= dest@.len(),
            dest@.len() == d0.len(),
            n == (if src@.len() <= d0.len() { src@.len() } else { d0.len() }),
            i <= n,
            forall|k: int| 0 <= k < i ==> #[trigger] dest@[k] == int16_sample(src@[k]),
            forall|k: int| i <= k < dest@.len() ==> #[trigger] dest@[k] == d0[k],
        decreases n - i,
    {
        let v = ((src[i] as i32 - 2048) * 16) as i16;
        dest[i] = v;
        i = i + 1;
    }
}

/// The unpacked-mode view of a transfer: consecutive little-endian
/// 16-bit words (a trailing odd byte is ignored).
pub fn le_words(bytes: &[u8]) -> (words: Vec<u16>)
    ensures
        words@.len() == bytes@.len() / 2,
        forall|i: int|
            0 <= i < words@.len() ==> #[trigger] words@[i] as int == bytes@[2 * i] as int + bytes@[2
                * i + 1] as int * 256,
{
    let len = bytes.len();
    let n = len / 2;
    let mut words: Vec<u16> = Vec::new();
    let mut i: usize = 0;
    while i < n
        invariant
            len == bytes@.len(),
            n == len / 2,
            i <= n,
            words@.len() == i,
            forall|k: int|
                0 <= k < i ==> #[trigger] words@[k] as int == bytes@[2 * k] as int + bytes@[2 * k
                    + 1] as int * 256,
        decreases n - i,
    {
        let w = (bytes[2 * i] as u16) + (bytes[2 * i + 1] as u16) * 256;
        words.push(w);
        i = i + 1;
    }
    words
}

/// The 12-bit words of a transfer: the unpacked stream when packing is
/// enabled, the little-endian 16-bit words otherwise.
pub open spec fn transfer_words_of(bytes: Seq<u8>, packing_enabled: bool) -> Seq<u16> {
    if packing_enabled {
        Seq::new(
            unpacked_len(bytes.len() as int, (bytes.len() * 2 / 3) as int) as nat,
            |p: int| packed_sample(bytes, p),
        )
    } else {
        Seq::new(
            bytes.len() / 2,
            |i: int| (bytes[2 * i] as int + bytes[2 * i + 1] as int * 256) as u16,
        )
    }
}

/// The 12-bit words of a transfer before per-type conversion.
pub fn transfer_words(bytes: &[u8], packing_enabled: bool) -> (words: Vec<u16>)
    requires
        bytes@.len() * 2 <= usize::MAX,
    ensures
        words@ == transfer_words_of(bytes@, packing_enabled),
{
    if packing_enabled {
        let cap = unpacked_sample_count(bytes.len());
        let mut out: Vec<u16> = vec![0u16; cap];
        let n = unpack_samples(bytes, out.as_mut_slice());
        out.truncate(n);
        assert(out@ =~= transfer_words_of(bytes@, packing_enabled));
        out
    } else {
        let w = le_words(bytes);
        assert forall|i: int| 0 <= i < w@.len() implies #[trigger] w@[i] == (bytes@[2 * i] as int
            + bytes@[2 * i + 1] as int * 256) as u16 by {
            assert(w@[i] as int == bytes@[2 * i] as int + bytes@[2 * i + 1] as int * 256);
        }
        assert(w@ =~= transfer_words_of(bytes@, packing_enabled));
        w
    }
}

/// One block after the sample-type dispatch of the consumer.
#[derive(Debug)]
pub enum ConvertedBlock {
    /// The transfer's bytes as they came (RAW, and the IQ types, which
    /// this dispatch delivers raw).
    Raw,
    /// Unsigned 12-bit words (UINT16_REAL).
    Uint16(Vec<u16>),
    /// Signed 16-bit samples (INT16_REAL).
    Int16(Vec<i16>),
    /// The words still to be scaled to 32-bit floats (FLOAT32_REAL).
    Float32Words(Vec<u16>),
}

/// The signed conversion of every word.
pub open spec fn int16_samples(words: Seq<u16>) -> Seq<i16> {
    Seq::new(words.len(), |i: int| int16_sample(words[i]))
}

/// The consumer's sample-type dispatch: RAW and the IQ types bypass all
/// preparation; the others unpack (when packing) or read the
/// little-endian words, then convert per type. Also returns the block's
/// sample count (half the byte count for the bypassing types).
pub fn convert_block(sample_type: SampleType, packing_enabled: bool, bytes: &[u8]) -> (r: (
    ConvertedBlock,
    usize,
))
    requires
        bytes@.len() * 2 <= usize::MAX,
    ensures
        ({
            let words = transfer_words_of(bytes@, packing_enabled);
            match sample_type {
                SampleType::Raw | SampleType::Float32Iq | SampleType::Int16Iq => r.0 is Raw
                    && r.1 == bytes@.len() / 2,
                SampleType::Uint16Real => r.0 matches ConvertedBlock::Uint16(w) && w@ == words
                    && r.1 == words.len(),
                SampleType::Int16Real => r.0 matches ConvertedBlock::Int16(v) && v@
                    == int16_samples(words) && r.1 == words.len(),
                SampleType::Float32Real => r.0 matches ConvertedBlock::Float32Words(w) && w@
                    == words && r.1 == words.len(),
            }
        }),
{
    match sample_type {
        SampleType::Raw | SampleType::Float32Iq | SampleType::Int16Iq => {
            (ConvertedBlock::Raw, bytes.len() / 2)
        },
        SampleType::Uint16Real => {
            let words = transfer_words(bytes, packing_enabled);
            let n = words.len();
            (ConvertedBlock::Uint16(words), n)
        },
        SampleType::Int16Real => {
            let words = transfer_words(bytes, packing_enabled);
            let n = words.len();
            let mut out: Vec<i16> = vec![0i16; n];
            convert_samples_int16(words.as_slice(), out.as_mut_slice());
            assert(out@ =~= int16_samples(words@));
            (ConvertedBlock::Int16(out), n)
        },
        SampleType::Float32Real => {
            let words = transfer_words(bytes, packing_enabled);
            let n = words.len();
            (ConvertedBlock::Float32Words(words), n)
        },
    }
}

/// The firmware's packing of eight 12-bit samples into three words,
/// the inverse of [`packed_field`].
pub open spec fn pack_words(s: Seq<u16>) -> (u32, u32, u32) {
    let v = |k: int| s[k] as u32;
    (
        (v(0) << 20u32) | (v(1) << 8u32) | (v(2) >> 4u32),
        ((v(2) & 0xF) << 28u32) | (v(3) << 16u32) | (v(4) << 4u32) | (v(5) >> 8u32),
        ((v(5) & 0xFF) << 24u32) | (v(6) << 12u32) | v(7),
    )
}

/// Unpacking inverts the firmware's packing: the eight 12-bit samples
/// packed into a group of three words come back, in order.
pub proof fn lemma_unpack_inverts_packing(s: Seq<u16>)
    requires
        s.len() == 8,
        forall|k: int| 0 <= k < 8 ==> #[trigger] s[k] < 4096,
    ensures
        forall|k: int|
            0 <= k < 8 ==> #[trigger] packed_field(k, pack_words(s).0, pack_words(s).1, pack_words(s).2)
                == s[k],
{
    let a = s[0] as u32;
    let b = s[1] as u32;
    let c = s[2] as u32;
    let d = s[3] as u32;
    let e = s[4] as u32;
    let f = s[5] as u32;
    let g = s[6] as u32;
    let h = s[7] as u32;
    assert(s[0] < 4096 && s[1] < 4096 && s[2] < 4096 && s[3] < 4096);
    assert(s[4] < 4096 && s[5] < 4096 && s[6] < 4096 && s[7] < 4096);
    let w0 = (a << 20u32) | (b << 8u32) | (c >> 4u32);
    let w1 = ((c & 0xF) << 28u32) | (d << 16u32) | (e << 4u32) | (f >> 8u32);
    let w2 = ((f & 0xFF) << 24u32) | (g << 12u32) | h;
    assert(pack_words(s) == (w0, w1, w2));
    assert(((w0 >> 20u32) & 0xFFF) == a) by (bit_vector)
        requires
            a < 4096 && b < 4096 && c < 4096,
            w0 == (a << 20u32) | (b << 8u32) | (c >> 4u32),
    ;
    assert(((w0 >> 8u32) & 0xFFF) == b) by (bit_vector)
        requires
            a < 4096 && b < 4096 && c < 4096,
            w0 == (a << 20u32) | (b << 8u32) | (c >> 4u32),
    ;
    assert((((w0 & 0xFF) << 4u32) | ((w1 >> 28u32) & 0xF)) == c) by (bit_vector)
        requires
            a < 4096 && b < 4096 && c < 4096 && d < 4096 && e < 4096 && f < 4096,
            w0 == (a << 20u32) | (b << 8u32) | (c >> 4u32),
            w1 == ((c & 0xF) << 28u32) | (d << 16u32) | (e << 4u32) | (f >> 8u32),
    ;
    assert(((w1 & 0x0FFF_0000) >> 16u32) == d) by (bit_vector)
        requires
            c < 4096 && d < 4096 && e < 4096 && f < 4096,
            w1 == ((c & 0xF) << 28u32) | (d << 16u32) | (e << 4u32) | (f >> 8u32),
    ;
    assert(((w1 & 0xFFF0) >> 4u32) == e) by (bit_vector)
        requires
            c < 4096 && d < 4096 && e < 4096 && f < 4096,
            w1 == ((c & 0xF) << 28u32) | (d << 16u32) | (e << 4u32) | (f >> 8u32),
    ;
    assert((((w1 & 0xF) << 8u32) | ((w2 & 0xFF00_0000) >> 24u32)) == f) by (bit_vector)
        requires
            c < 4096 && d < 4096 && e < 4096 && f < 4096 && g < 4096 && h < 4096,
            w1 == ((c & 0xF) << 28u32) | (d << 16u32) | (e << 4u32) | (f >> 8u32),
            w2 == ((f & 0xFF) << 24u32) | (g << 12u32) | h,
    ;
    assert(((w2 >> 12u32) & 0xFFF) == g) by (bit_vector)
        requires
            f < 4096 && g < 4096 && h < 4096,
            w2 == ((f & 0xFF) << 24u32) | (g << 12u32) | h,
    ;
    assert((w2 & 0xFFF) == h) by (bit_vector)
        requires
            f < 4096 && g < 4096 && h < 4096,
            w2 == ((f & 0xFF) << 24u32) | (g << 12u32) | h,
    ;
}

/// A whole transfer whose length is a multiple of four unpacks into
/// exactly `len * 2 / 3` samples when the output has that much room
/// (174762 for a 262144-byte buffer).
pub proof fn lemma_whole_transfer_count(len: int)
    requires
        len >= 0,
        len % 4 == 0,
    ensures
        unpacked_len(len, len * 2 / 3) == len * 2 / 3,
{
    let g = len / 12;
    let r = len % 12;
    assert(len == 12 * g + r);
    assert(r == 0 || r == 4 || r == 8);
    assert((len * 2 / 3) / 8 == g);
}

} // verus!
