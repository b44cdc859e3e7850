//! The 44-byte RIFF/WAVE header of a capture: its placeholder written
//! before streaming, its rewrite once the capture is over, the format
//! fields chosen by the sample type, and the automatic file name.
use crate::commands::SampleType;
use crate::text::{decimal, push_decimal};
use vstd::prelude::*;

verus! {

/// The header's size: 12-byte RIFF header, 24-byte format chunk and
/// 8-byte data-chunk header, no padding.
pub const WAV_HEADER_LEN: usize = 44;

/// The most data bytes a classic WAV file can carry: its 32-bit size
/// fields cap the whole file, header included, at `u32::MAX` bytes
/// (`u32::MAX - 44`).
pub const WAV_MAX_DATA_BYTES: u64 = 4294967251;

/// The format-chunk fields chosen by the sample type.
#[derive(Debug, Clone, Copy, PartialEq, Eq, Structural)]
pub struct WavParams {
    /// `wFormatTag`: 1 = PCM, 3 = IEEE float.
    pub format_tag: u16,
    /// `wChannels`: 2 for IQ, 1 for real/raw.
    pub channels: u16,
    /// `wBitsPerSample`.
    pub bits_per_sample: u16,
}

/// The format fields of each sample type; RAW keeps the PCM tag with
/// one 12-bit channel.
pub open spec fn wav_params_of(t: SampleType) -> WavParams {
    match t {
        SampleType::Float32Iq => WavParams { format_tag: 3, channels: 2, bits_per_sample: 32 },
        SampleType::Float32Real => WavParams { format_tag: 3, channels: 1, bits_per_sample: 32 },
        SampleType::Int16Iq => WavParams { format_tag: 1, channels: 2, bits_per_sample: 16 },
        SampleType::Int16Real => WavParams { format_tag: 1, channels: 1, bits_per_sample: 16 },
        SampleType::Uint16Real => WavParams { format_tag: 1, channels: 1, bits_per_sample: 16 },
        SampleType::Raw => WavParams { format_tag: 1, channels: 1, bits_per_sample: 12 },
    }
}

impl WavParams {
    /// The format fields for `sample_type`.
    pub fn for_sample_type(sample_type: SampleType) -> (p: Self)
        ensures
            p == wav_params_of(sample_type),
    {
        match sample_type {
            SampleType::Float32Iq => WavParams { format_tag: 3, channels: 2, bits_per_sample: 32 },
            SampleType::Float32Real => WavParams {
                format_tag: 3,
                channels: 1,
                bits_per_sample: 32,
            },
            SampleType::Int16Iq => WavParams { format_tag: 1, channels: 2, bits_per_sample: 16 },
            SampleType::Int16Real => WavParams { format_tag: 1, channels: 1, bits_per_sample: 16 },
            SampleType::Uint16Real => WavParams {
                format_tag: 1,
                channels: 1,
                bits_per_sample: 16,
            },
            SampleType::Raw => WavParams { format_tag: 1, channels: 1, bits_per_sample: 12 },
        }
    }

    /// Bytes per sample of one channel (`wBitsPerSample / 8`).
    pub fn bytes_per_sample(&self) -> (b: u16)
        ensures
            b == self.bits_per_sample / 8,
    {
        self.bits_per_sample / 8
    }

    /// `wBlockAlign`: `wChannels * (wBitsPerSample / 8)`.
    pub open spec fn spec_block_align(&self) -> int {
        self.channels * (self.bits_per_sample / 8)
    }

    /// `wBlockAlign`: `wChannels * (wBitsPerSample / 8)`.
    pub fn block_align(&self) -> (b: u16)
        requires
            self.spec_block_align() <= u16::MAX,
        ensures
            b == self.spec_block_align(),
    {
        self.channels * (self.bits_per_sample / 8)
    }
}

/// The two little-endian bytes of `v`.
pub open spec fn le16(v: u16) -> Seq<u8> {
    seq![(v % 256) as u8, (v / 256) as u8]
}

/// The four little-endian bytes of `v`.
pub open spec fn le32(v: u32) -> Seq<u8> {
    seq![(v % 256) as u8, ((v / 256) % 256) as u8, ((v / 65536) % 256) as u8, (v / 16777216) as u8]
}

/// The 44 header bytes with the given field values: `RIFF`, the RIFF
/// size, `WAVE`, `fmt `, the format-chunk size 16, the format fields,
/// `data` and the data size.
pub open spec fn wav_header(
    riff_size: u32,
    format_tag: u16,
    channels: u16,
    samples_per_sec: u32,
    avg_bytes_per_sec: u32,
    block_align: u16,
    bits_per_sample: u16,
    data_size: u32,
) -> Seq<u8> {
    seq![82u8, 73u8, 70u8, 70u8] + le32(riff_size) + seq![87u8, 65u8, 86u8, 69u8] + seq![
        102u8,
        109u8,
        116u8,
        32u8,
    ] + le32(16) + le16(format_tag) + le16(channels) + le32(samples_per_sec) + le32(
        avg_bytes_per_sec,
    ) + le16(block_align) + le16(bits_per_sample) + seq![100u8, 97u8, 116u8, 97u8] + le32(
        data_size,
    )
}

fn push_bytes4(v: &mut Vec<u8>, a: u8, b: u8, c: u8, d: u8)
    ensures
        final(v)@ == old(v)@ + seq![a, b, c, d],
{
    v.push(a);
    v.push(b);
    v.push(c);
    v.push(d);
    assert(v@ =~= old(v)@ + seq![a, b, c, d]);
}

fn push_le16(v: &mut Vec<u8>, x: u16)
    ensures
        final(v)@ == old(v)@ + le16(x),
{
    v.push((x % 256) as u8);
    v.push((x / 256) as u8);
    assert(v@ =~= old(v)@ + le16(x));
}

fn push_le32(v: &mut Vec<u8>, x: u32)
    ensures
        final(v)@ == old(v)@ + le32(x),
{
    push_bytes4(
        v,
        (x % 256) as u8,
        ((x / 256) % 256) as u8,
        ((x / 65536) % 256) as u8,
        (x / 16777216) as u8,
    );
}

fn fill_header(
    riff_size: u32,
    format_tag: u16,
    channels: u16,
    samples_per_sec: u32,
    avg_bytes_per_sec: u32,
    block_align: u16,
    bits_per_sample: u16,
    data_size: u32,
) -> (b: [u8; 44])
    ensures
        b@ == wav_header(
            riff_size,
            format_tag,
            channels,
            samples_per_sec,
            avg_bytes_per_sec,
            block_align,
            bits_per_sample,
            data_size,
        ),
{
    let mut v: Vec<u8> = Vec::new();
    push_bytes4(&mut v, 82, 73, 70, 70);
    assert(v@ =~= seq![82u8, 73u8, 70u8, 70u8]);
    push_le32(&mut v, riff_size);
    push_bytes4(&mut v, 87, 65, 86, 69);
    push_bytes4(&mut v, 102, 109, 116, 32);
    push_le32(&mut v, 16);
    push_le16(&mut v, format_tag);
    push_le16(&mut v, channels);
    push_le32(&mut v, samples_per_sec);
    push_le32(&mut v, avg_bytes_per_sec);
    push_le16(&mut v, block_align);
    push_le16(&mut v, bits_per_sample);
    push_bytes4(&mut v, 100, 97, 116, 97);
    push_le32(&mut v, data_size);
    let ghost h = wav_header(
        riff_size,
        format_tag,
        channels,
        samples_per_sec,
        avg_bytes_per_sec,
        block_align,
        bits_per_sample,
        data_size,
    );
    assert(v@ == h);
    let mut b = [0u8; 44];
    let mut i: usize = 0;
    while i < 44
        invariant
            v@ == h,
            h.len() == 44,
            i <= 44,
            forall|k: int| 0 <= k < i ==> #[trigger] b@[k] == h[k],
        decreases 44 - i,
    {
        b[i] = v[i];
        i = i + 1;
    }
    assert(b@ =~= h);
    b
}

/// The header written before streaming: chunk ids and the format-chunk
/// size present, every field to be filled in later zero.
pub fn wav_header_placeholder() -> (b: [u8; 44])
    ensures
        b@ == wav_header(0, 0, 0, 0, 0, 0, 0, 0),
{
    fill_header(0, 0, 0, 0, 0, 0, 0, 0)
}

/// The header rewritten once `file_pos` bytes (header included) have
/// been written: RIFF size `file_pos - 8`, data size `file_pos - 44`
/// (both wrapping), the format fields of `params`, and the byte rate
/// `samples_per_sec * wBlockAlign` (wrapping).
pub fn wav_header_finalized(file_pos: u32, params: &WavParams, samples_per_sec: u32) -> (b: [u8;
    44])
    requires
        params.spec_block_align() <= u16::MAX,
    ensures
        b@ == wav_header(
            file_pos.wrapping_sub(8),
            params.format_tag,
            params.channels,
            samples_per_sec,
            samples_per_sec.wrapping_mul(params.spec_block_align() as u32),
            params.spec_block_align() as u16,
            params.bits_per_sample,
            file_pos.wrapping_sub(44),
        ),
{
    let align = params.block_align();
    fill_header(
        file_pos.wrapping_sub(8),
        params.format_tag,
        params.channels,
        samples_per_sec,
        samples_per_sec.wrapping_mul(align as u32),
        align,
        params.bits_per_sample,
        file_pos.wrapping_sub(44),
    )
}

/// `AirSpy_<date_time>Z_<freq_hz / 1000>kHz_IQ.wav`.
pub open spec fn wav_filename_of(date_time: Seq<char>, freq_hz: u32) -> Seq<char> {
    "AirSpy_"@ + date_time + "Z_"@ + decimal((freq_hz / 1000) as nat) + "kHz_IQ.wav"@
}

/// The automatic capture file name for the local `date_time`
/// (`%Y%m%d_%H%M%S`) and the tuned frequency.
pub fn wav_filename(date_time: &str, freq_hz: u32) -> (s: String)
    ensures
        s@ == wav_filename_of(date_time@, freq_hz),
{
    let mut s = String::from_str("AirSpy_");
    s.append(date_time);
    s.append("Z_");
    push_decimal(&mut s, (freq_hz / 1000) as u64);
    s.append("kHz_IQ.wav");
    s
}

/// In a finalized header of a file of at least 44 bytes, the RIFF
/// size is the data size plus the 36 header bytes that follow the RIFF
/// size field.
pub proof fn lemma_wav_sizes_consistent(file_pos: u32)
    requires
        file_pos >= 44,
    ensures
        file_pos.wrapping_sub(8) == file_pos.wrapping_sub(44) + 36,
        file_pos.wrapping_sub(44) == file_pos - 44,
{
}

} // verus!
