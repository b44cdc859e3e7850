//! Verified core of a driver library for the Airspy R2 / Mini
//! software-defined radio receivers and its command-line tools.
pub mod commands;
pub mod control;
pub mod conversion;
pub mod device;
pub mod error;
pub mod filters;
pub mod flash_cli;
pub mod gpio_cli;
pub mod iqconverter_int16;
pub mod options;
pub mod reg_cli;
pub mod rx;
pub mod rx_cli;
pub mod stream;
pub mod board;
pub mod calib_cli;
pub mod cli;
pub mod text;
pub mod transfer;
pub mod wav;

use vstd::prelude::*;

verus! {

/// A library version: major, minor and revision numbers.
#[derive(Debug, Clone, Copy, PartialEq, Eq, Structural)]
pub struct LibVersion {
    /// `major_version`
    pub major: u32,
    /// `minor_version`
    pub minor: u32,
    /// `revision`
    pub revision: u32,
}

/// The version of this library: 0.2.1.
pub fn lib_version() -> (v: LibVersion)
    ensures
        v == (LibVersion { major: 0, minor: 2, revision: 1 }),
{
    LibVersion { major: 0, minor: 2, revision: 1 }
}

} // verus!
