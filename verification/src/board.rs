//! Board information replies: the MCU part id and serial number, and
//! the firmware version string.
use crate::calib_cli::le_u32_at;
use vstd::prelude::*;
use vstd::utf8::{decode_utf8, valid_utf8};

verus! {

/// The version read's buffer size; the wire read requests one byte
/// less.
pub const VERSION_LOCAL_SIZE: usize = 128;

/// The part-id/serial reply's size: six little-endian 32-bit words.
pub const PARTID_SERIALNO_LEN: usize = 24;

/// MCU part id and serial number.
#[derive(Debug, Clone, Copy, PartialEq, Eq)]
pub struct PartIdSerial {
    /// `part_id[2]`
    pub part_id: [u32; 2],
    /// `serial_no[4]`
    pub serial_no: [u32; 4],
}

fn word_at(raw: &[u8; 24], off: usize) -> (w: u32)
    requires
        off + 4 <= 24,
    ensures
        w == le_u32_at(raw@, off as int),
{
    raw[off] as u32 + raw[off + 1] as u32 * 256 + raw[off + 2] as u32 * 65536 + raw[off + 3] as u32
        * 16777216
}

impl PartIdSerial {
    /// Decode the 24-byte reply: `part_id[0..2]` then `serial_no[0..4]`,
    /// each a little-endian word.
    pub fn from_le_bytes(raw: &[u8; 24]) -> (p: Self)
        ensures
            p.part_id@ == seq![le_u32_at(raw@, 0), le_u32_at(raw@, 4)],
            p.serial_no@ == seq![
                le_u32_at(raw@, 8),
                le_u32_at(raw@, 12),
                le_u32_at(raw@, 16),
                le_u32_at(raw@, 20),
            ],
    {
        let part_id = [word_at(raw, 0), word_at(raw, 4)];
        let serial_no = [word_at(raw, 8), word_at(raw, 12), word_at(raw, 16), word_at(raw, 20)];
        let p = PartIdSerial { part_id, serial_no };
        assert(p.part_id@ =~= seq![le_u32_at(raw@, 0), le_u32_at(raw@, 4)]);
        assert(p.serial_no@ =~= seq![
            le_u32_at(raw@, 8),
            le_u32_at(raw@, 12),
            le_u32_at(raw@, 16),
            le_u32_at(raw@, 20),
        ]);
        p
    }
}

/// What `String::from_utf8_lossy` makes of `bytes`.
pub uninterp spec fn utf8_lossy(bytes: Seq<u8>) -> Seq<char>;

/// `String::from_utf8_lossy`: the bytes decoded as UTF-8, each invalid
/// sequence replaced by U+FFFD. Stated: the result is the named
/// decoding of the bytes, and valid UTF-8 decodes exactly.
#[verifier::external_body]
fn from_utf8_lossy(bytes: &[u8]) -> (s: String)
    ensures
        s@ == utf8_lossy(bytes@),
        valid_utf8(bytes@) ==> s@ == decode_utf8(bytes@),
{
    String::from_utf8_lossy(bytes).into_owned()
}

/// The index of the first NUL in `b`, or its length.
pub open spec fn nul_position(b: Seq<u8>) -> int
    decreases b.len(),
{
    if b.len() == 0 {
        0
    } else if b[0] == 0 {
        0
    } else {
        1 + nul_position(b.skip(1))
    }
}

/// The version string a reply holds: its bytes up to the first NUL,
/// decoded leniently.
pub open spec fn version_of(raw: Seq<u8>) -> Seq<char> {
    utf8_lossy(raw.take(nul_position(raw)))
}

proof fn lemma_nul_position(b: Seq<u8>, i: int)
    requires
        0 <= i <= b.len(),
        forall|j: int| 0 <= j < i ==> b[j] != 0,
        i == b.len() || b[i] == 0,
    ensures
        nul_position(b) == i,
    decreases i,
{
    if i > 0 {
        lemma_nul_position(b.skip(1), i - 1);
    }
}

/// The version string in a reply: the bytes up to the first NUL (all
/// of them when there is none), decoded with invalid sequences
/// replaced.
pub fn parse_version(raw: &[u8]) -> (s: String)
    ensures
        s@ == version_of(raw@),
        valid_utf8(raw@.take(nul_position(raw@))) ==> s@ == decode_utf8(
            raw@.take(nul_position(raw@)),
        ),
{
    let mut end: usize = 0;
    while end < raw.len() && raw[end] != 0
        invariant
            end <= raw@.len(),
            forall|j: int| 0 <= j < end ==> raw@[j] != 0,
        decreases raw@.len() - end,
    {
        end = end + 1;
    }
    proof {
        lemma_nul_position(raw@, end as int);
    }
    let (head, _) = raw.split_at(end);
    assert(head@ =~= raw@.take(end as int));
    from_utf8_lossy(head)
}

} // verus!
