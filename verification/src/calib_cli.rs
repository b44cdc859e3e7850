//! The calibration record kept in the device's flash: its place, its
//! 12-byte little-endian layout, and the timestamp format of the
//! calibration tool.
use crate::text::{push_zero_padded, zero_padded};
use crate::wav::le32;
use vstd::prelude::*;

verus! {

/// Where the record lives in flash: after the 128 KiB reserved for the
/// firmware and 64 KiB spare.
pub const CALIB_OFFSET: u32 = 0x20000;

/// The magic that marks a programmed record.
pub const CALIB_HEADER: u32 = 0xCA1B_0001;

/// The record's size: three packed 32-bit fields.
pub const CALIB_LEN: usize = 12;

/// The flash sector holding the record.
pub const CALIB_SECTOR: u16 = 2;

/// The calibration record.
#[derive(Debug, Clone, Copy, PartialEq, Eq, Structural)]
pub struct Calib {
    /// Shall equal [`CALIB_HEADER`].
    pub header: u32,
    /// Unix timestamp of the calibration.
    pub timestamp: u32,
    /// The frequency correction in parts per billion.
    pub correction_ppb: i32,
}

/// The 32-bit word stored little-endian at `b[off..off + 4]`.
pub open spec fn le_u32_at(b: Seq<u8>, off: int) -> u32 {
    (b[off] + b[off + 1] * 256 + b[off + 2] * 65536 + b[off + 3] * 16777216) as u32
}

/// The two's-complement bits of `v`.
pub open spec fn i32_bits(v: i32) -> u32 {
    if v < 0 {
        (v + 0x1_0000_0000) as u32
    } else {
        v as u32
    }
}

/// The signed value of the bits `u`.
pub open spec fn bits_i32(u: u32) -> i32 {
    if u >= 0x8000_0000 {
        (u - 0x1_0000_0000) as i32
    } else {
        u as i32
    }
}

/// The 12 flash bytes of a record.
pub open spec fn calib_bytes(c: Calib) -> Seq<u8> {
    le32(c.header) + le32(c.timestamp) + le32(i32_bits(c.correction_ppb))
}

fn read_u32(raw: &[u8; 12], off: usize) -> (w: u32)
    requires
        off + 4 <= 12,
    ensures
        w == le_u32_at(raw@, off as int),
{
    raw[off] as u32 + raw[off + 1] as u32 * 256 + raw[off + 2] as u32 * 65536 + raw[off + 3] as u32
        * 16777216
}

fn write_u32(raw: &mut [u8; 12], off: usize, v: u32)
    requires
        off + 4 <= 12,
    ensures
        final(raw)@ == old(raw)@.subrange(0, off as int) + le32(v) + old(raw)@.subrange(
            off + 4,
            12,
        ),
{
    raw[off] = (v % 256) as u8;
    raw[off + 1] = ((v / 256) % 256) as u8;
    raw[off + 2] = ((v / 65536) % 256) as u8;
    raw[off + 3] = (v / 16777216) as u8;
    assert(raw@ =~= old(raw)@.subrange(0, off as int) + le32(v) + old(raw)@.subrange(off + 4, 12));
}

impl Calib {
    /// Decode the 12 flash bytes.
    pub fn from_le_bytes(raw: &[u8; 12]) -> (c: Self)
        ensures
            c.header == le_u32_at(raw@, 0),
            c.timestamp == le_u32_at(raw@, 4),
            c.correction_ppb == bits_i32(le_u32_at(raw@, 8)),
    {
        let header = read_u32(raw, 0);
        let timestamp = read_u32(raw, 4);
        let bits = read_u32(raw, 8);
        let correction_ppb: i32 = if bits >= 0x8000_0000 {
            (bits as i64 - 0x1_0000_0000i64) as i32
        } else {
            bits as i32
        };
        Calib { header, timestamp, correction_ppb }
    }

    /// Encode the 12 flash bytes.
    pub fn to_le_bytes(&self) -> (raw: [u8; 12])
        ensures
            raw@ == calib_bytes(*self),
    {
        let mut raw = [0u8; 12];
        write_u32(&mut raw, 0, self.header);
        write_u32(&mut raw, 4, self.timestamp);
        let bits: u32 = if self.correction_ppb < 0 {
            (self.correction_ppb as i64 + 0x1_0000_0000i64) as u32
        } else {
            self.correction_ppb as u32
        };
        write_u32(&mut raw, 8, bits);
        assert(raw@ =~= calib_bytes(*self));
        raw
    }

    /// Whether the magic matches (erased flash reads as all `0xFF`).
    pub fn header_valid(&self) -> (b: bool)
        ensures
            b == (self.header == CALIB_HEADER),
    {
        self.header == CALIB_HEADER
    }
}

/// Decoding the encoding of a record gives the record back.
pub proof fn lemma_calib_round_trip(c: Calib)
    ensures
        le_u32_at(calib_bytes(c), 0) == c.header,
        le_u32_at(calib_bytes(c), 4) == c.timestamp,
        bits_i32(le_u32_at(calib_bytes(c), 8)) == c.correction_ppb,
{
    let b = calib_bytes(c);
    assert(b[0] == (c.header % 256) as u8);
    assert(b[4] == (c.timestamp % 256) as u8);
}

/// The four digits of a year, with a sign before a negative one
/// (`%04d`).
pub open spec fn year_text(year: i32) -> Seq<char> {
    if year < 0 {
        seq!['-'] + zero_padded((-year) as nat, 3)
    } else {
        zero_padded(year as nat, 4)
    }
}

/// `YYYY/MM/DD hh:mm:ss`, each field zero-padded.
pub open spec fn calib_time_text(
    year: i32,
    month: u32,
    day: u32,
    hour: u32,
    minute: u32,
    second: u32,
) -> Seq<char> {
    year_text(year) + "/"@ + zero_padded(month as nat, 2) + "/"@ + zero_padded(day as nat, 2)
        + " "@ + zero_padded(hour as nat, 2) + ":"@ + zero_padded(minute as nat, 2) + ":"@
        + zero_padded(second as nat, 2)
}

/// Format a local date and time as the calibration tool prints it:
/// `%04d/%02d/%02d %02d:%02d:%02d`.
pub fn format_calib_time(
    year: i32,
    month: u32,
    day: u32,
    hour: u32,
    minute: u32,
    second: u32,
) -> (s: String)
    ensures
        s@ == calib_time_text(year, month, day, hour, minute, second),
{
    let mut s = String::new();
    if year < 0 {
        s.append("-");
        let mag: u64 = if year == i32::MIN {
            0x8000_0000u64
        } else {
            (-year) as u64
        };
        push_zero_padded(&mut s, mag, 3);
    } else {
        push_zero_padded(&mut s, year as u64, 4);
    }
    proof {
        reveal_strlit("-");
    }
    assert(s@ =~= year_text(year));
    s.append("/");
    push_zero_padded(&mut s, month as u64, 2);
    s.append("/");
    push_zero_padded(&mut s, day as u64, 2);
    s.append(" ");
    push_zero_padded(&mut s, hour as u64, 2);
    s.append(":");
    push_zero_padded(&mut s, minute as u64, 2);
    s.append(":");
    push_zero_padded(&mut s, second as u64, 2);
    s
}

} // verus!
