//! The SPI-flash tool's range rules: the flash size, the validation of
//! a requested range, its walk in 256-byte transfers, and the checked
//! 32-bit argument parser for addresses and lengths.
use crate::cli::{parse_u64, parse_u64_value, ParseU64Error};
use vstd::prelude::*;
use vstd::string::StringSliceAdditionalSpecFns;

verus! {

/// The flash size: 8 Mbit (1 MiB).
pub const MAX_LENGTH: u32 = 0x0010_0000;

/// The largest single flash transfer.
pub const XFER_CHUNK: u32 = 256;

/// Why a requested range is invalid.
#[derive(Debug, Clone, Copy, PartialEq, Eq, Structural)]
pub enum FlashRangeError {
    /// Nothing to transfer.
    ZeroLength,
    /// The range runs past the end of the flash (the address counts,
    /// so a transfer cannot stop partway through).
    ExceedsFlash,
}

/// Check a transfer of `length` bytes at `address`.
pub fn validate_range(address: u32, length: u32) -> (r: Result<(), FlashRangeError>)
    ensures
        length == 0 ==> r == Err::<(), FlashRangeError>(FlashRangeError::ZeroLength),
        length != 0 && address + length > MAX_LENGTH ==> r == Err::<(), FlashRangeError>(
            FlashRangeError::ExceedsFlash,
        ),
        length != 0 && address + length <= MAX_LENGTH ==> r is Ok,
{
    if length == 0 {
        return Err(FlashRangeError::ZeroLength);
    }
    if address as u64 + length as u64 > MAX_LENGTH as u64 {
        return Err(FlashRangeError::ExceedsFlash);
    }
    Ok(())
}

/// The number of transfers a range of `length` bytes takes.
pub open spec fn chunk_count(length: u32) -> int {
    (length + 255) / 256
}

/// The `k`-th transfer of the range: `(address, size)`.
pub open spec fn chunk_at(address: u32, length: u32, k: int) -> (u32, u16) {
    let done = 256 * k;
    let size = if length - done > 256 {
        256
    } else {
        length - done
    };
    ((address + done) as u32, size as u16)
}

/// Walk the range in transfers of at most 256 bytes: each pair is the
/// transfer's address and size, addresses advancing by the sizes.
pub fn transfer_chunks(address: u32, length: u32) -> (chunks: Vec<(u32, u16)>)
    requires
        address + length <= u32::MAX,
    ensures
        chunks@.len() == chunk_count(length),
        forall|k: int| 0 <= k < chunks@.len() ==> #[trigger] chunks@[k] == chunk_at(address, length, k),
{
    let mut chunks: Vec<(u32, u16)> = Vec::new();
    let mut addr = address;
    let mut remaining = length;
    while remaining > 0
        invariant
            address + length <= u32::MAX,
            remaining <= length,
            addr == address + (length - remaining),
            remaining > 0 ==> (length - remaining) == 256 * chunks@.len(),
            remaining > 0 ==> chunks@.len() < chunk_count(length),
            remaining == 0 ==> chunks@.len() == chunk_count(length),
            forall|k: int| 0 <= k < chunks@.len() ==> #[trigger] chunks@[k] == chunk_at(address, length, k),
        decreases remaining,
    {
        let xfer = if remaining > XFER_CHUNK {
            XFER_CHUNK
        } else {
            remaining
        };
        let ghost k = chunks@.len() as int;
        assert(length - remaining == 256 * k);
        chunks.push((addr, xfer as u16));
        assert(chunks@[k] == chunk_at(address, length, k));
        addr = addr + xfer;
        remaining = remaining - xfer;
        if remaining > 0 {
            assert(remaining >= 1 && xfer == 256);
        }
    }
    chunks
}

/// `parse_u64` for flash addresses and lengths, refusing values that do
/// not fit 32 bits (no silent truncation).
pub fn parse_flash_u32(s: &str) -> (r: Result<u32, ParseU64Error>)
    ensures
        r == (match parse_u64_value(s.spec_bytes()) {
            Some(v) => if v <= u32::MAX {
                Ok::<u32, ParseU64Error>(v as u32)
            } else {
                Err(ParseU64Error)
            },
            None => Err(ParseU64Error),
        }),
{
    match parse_u64(s) {
        Ok(v) => if v <= u32::MAX as u64 {
            Ok(v as u32)
        } else {
            Err(ParseU64Error)
        },
        Err(e) => Err(e),
    }
}

/// The transfers of a range are contiguous and cover it exactly: each
/// starts where the previous one ended, none is empty, and the last
/// ends at `address + length`.
pub proof fn lemma_chunks_cover(address: u32, length: u32)
    requires
        address + length <= u32::MAX,
        length > 0,
    ensures
        chunk_at(address, length, 0).0 == address,
        forall|k: int|
            0 <= k < chunk_count(length) ==> #[trigger] chunk_at(address, length, k).1 >= 1,
        forall|k: int|
            0 <= k < chunk_count(length) - 1 ==> #[trigger] chunk_at(address, length, k + 1).0
                == chunk_at(address, length, k).0 + chunk_at(address, length, k).1,
        chunk_at(address, length, chunk_count(length) - 1).0 + chunk_at(
            address,
            length,
            chunk_count(length) - 1,
        ).1 == address + length,
{
    let n = chunk_count(length);
    assert forall|k: int| 0 <= k < n implies #[trigger] chunk_at(address, length, k).1 >= 1 by {
        assert(256 * k < length);
    }
    assert forall|k: int| 0 <= k < n - 1 implies #[trigger] chunk_at(address, length, k + 1).0
        == chunk_at(address, length, k).0 + chunk_at(address, length, k).1 by {
        assert(256 * (k + 1) < length);
    }
    assert(256 * (n - 1) < length);
    assert(length - 256 * (n - 1) <= 256);
}

} // verus!
