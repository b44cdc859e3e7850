//! The control-transfer conventions every vendor request follows.
use vstd::prelude::*;

verus! {

/// The control-transfer timeout, in milliseconds.
pub const CTRL_TIMEOUT_MS: u64 = 500;

/// `bmRequestType` of every host-to-device request: endpoint out,
/// vendor type, device recipient.
pub const VENDOR_OUT_REQUEST_TYPE: u8 = 0x40;

/// `bmRequestType` of every device-to-host request: endpoint in,
/// vendor type, device recipient.
pub const VENDOR_IN_REQUEST_TYPE: u8 = 0xC0;

/// The `wValue` of requests that carry none.
pub const NO_WVALUE: u16 = 0;

/// The `wIndex` of requests that carry none.
pub const NO_WINDEX: u16 = 0;

} // verus!
