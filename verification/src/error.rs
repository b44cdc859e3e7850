//! The driver's error type, one variant per `enum airspy_error` value
//! (success is `Ok`), each with its integer code and its
//! `airspy_error_name()` string.
use rusb::Error as UsbError;
use vstd::prelude::*;

verus! {

/// The USB stack's error type, carried through [`Error::Usb`].
#[verifier::external_type_specification]
#[verifier::external_body]
pub struct ExUsbError(UsbError);

/// Errors reported by the driver.
#[derive(Debug)]
#[non_exhaustive]
pub enum Error {
    /// `AIRSPY_ERROR_INVALID_PARAM` (-2)
    InvalidParam,
    /// `AIRSPY_ERROR_NOT_FOUND` (-5)
    NotFound,
    /// `AIRSPY_ERROR_BUSY` (-6)
    Busy,
    /// `AIRSPY_ERROR_NO_MEM` (-11)
    NoMem,
    /// `AIRSPY_ERROR_UNSUPPORTED` (-12)
    Unsupported,
    /// `AIRSPY_ERROR_LIBUSB` (-1000), carrying the USB stack's error.
    Usb(UsbError),
    /// A control transfer moved a different byte count than the
    /// request required; reported as `AIRSPY_ERROR_LIBUSB` while
    /// keeping both counts.
    TransferLengthMismatch {
        /// Bytes the request required.
        expected: usize,
        /// Bytes actually transferred.
        actual: usize,
    },
    /// `AIRSPY_ERROR_THREAD` (-1001)
    Thread,
    /// `AIRSPY_ERROR_STREAMING_THREAD_ERR` (-1002)
    StreamingThread,
    /// `AIRSPY_ERROR_STREAMING_STOPPED` (-1003)
    StreamingStopped,
    /// `AIRSPY_ERROR_OTHER` (-9999)
    Other,
}

impl Error {
    /// The `enum airspy_error` integer code of this error.
    pub open spec fn spec_code(&self) -> i32 {
        match self {
            Error::InvalidParam => -2i32,
            Error::NotFound => -5i32,
            Error::Busy => -6i32,
            Error::NoMem => -11i32,
            Error::Unsupported => -12i32,
            Error::Usb(_) => -1000i32,
            Error::TransferLengthMismatch { .. } => -1000i32,
            Error::Thread => -1001i32,
            Error::StreamingThread => -1002i32,
            Error::StreamingStopped => -1003i32,
            Error::Other => -9999i32,
        }
    }

    /// The `airspy_error_name()` string of this error. The name
    /// table has no case for `AIRSPY_ERROR_UNSUPPORTED`, so that one gets the
    /// default string.
    pub open spec fn spec_name(&self) -> Seq<char> {
        match self {
            Error::InvalidParam => "AIRSPY_ERROR_INVALID_PARAM"@,
            Error::NotFound => "AIRSPY_ERROR_NOT_FOUND"@,
            Error::Busy => "AIRSPY_ERROR_BUSY"@,
            Error::NoMem => "AIRSPY_ERROR_NO_MEM"@,
            Error::Unsupported => "airspy unknown error"@,
            Error::Usb(_) => "AIRSPY_ERROR_LIBUSB"@,
            Error::TransferLengthMismatch { .. } => "AIRSPY_ERROR_LIBUSB"@,
            Error::Thread => "AIRSPY_ERROR_THREAD"@,
            Error::StreamingThread => "AIRSPY_ERROR_STREAMING_THREAD_ERR"@,
            Error::StreamingStopped => "AIRSPY_ERROR_STREAMING_STOPPED"@,
            Error::Other => "AIRSPY_ERROR_OTHER"@,
        }
    }

    /// The `enum airspy_error` integer code for this error.
    pub fn code(&self) -> (c: i32)
        ensures
            c == self.spec_code(),
    {
        match self {
            Error::InvalidParam => -2,
            Error::NotFound => -5,
            Error::Busy => -6,
            Error::NoMem => -11,
            Error::Unsupported => -12,
            Error::Usb(_) => -1000,
            Error::TransferLengthMismatch { .. } => -1000,
            Error::Thread => -1001,
            Error::StreamingThread => -1002,
            Error::StreamingStopped => -1003,
            Error::Other => -9999,
        }
    }

    /// The constant name, exactly as `airspy_error_name()` returns it.
    pub fn name(&self) -> (s: &'static str)
        ensures
            s@ == self.spec_name(),
    {
        match self {
            Error::InvalidParam => "AIRSPY_ERROR_INVALID_PARAM",
            Error::NotFound => "AIRSPY_ERROR_NOT_FOUND",
            Error::Busy => "AIRSPY_ERROR_BUSY",
            Error::NoMem => "AIRSPY_ERROR_NO_MEM",
            Error::Unsupported => "airspy unknown error",
            Error::Usb(_) => "AIRSPY_ERROR_LIBUSB",
            Error::TransferLengthMismatch { .. } => "AIRSPY_ERROR_LIBUSB",
            Error::Thread => "AIRSPY_ERROR_THREAD",
            Error::StreamingThread => "AIRSPY_ERROR_STREAMING_THREAD_ERR",
            Error::StreamingStopped => "AIRSPY_ERROR_STREAMING_STOPPED",
            Error::Other => "AIRSPY_ERROR_OTHER",
        }
    }
}

impl From<UsbError> for Error {
    /// A USB stack error is `AIRSPY_ERROR_LIBUSB`.
    fn from(e: UsbError) -> (r: Self) {
        Error::Usb(e)
    }
}

impl vstd::std_specs::convert::FromSpecImpl<UsbError> for Error {
    open spec fn obeys_from_spec() -> bool {
        true
    }

    open spec fn from_spec(v: UsbError) -> Self {
        Error::Usb(v)
    }
}

} // verus!
