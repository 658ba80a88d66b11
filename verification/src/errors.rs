//! Errors reported by the relay board driver.

use vstd::prelude::*;

verus! {

/// Why the USB transport gave up on a request.
#[derive(Debug, Clone, Copy, PartialEq, Eq, Structural)]
pub enum UsbError {
    /// Input/output error.
    Io,
    /// Invalid parameter.
    InvalidParam,
    /// Access denied.
    Access,
    /// No such device; it may have been unplugged.
    NoDevice,
    /// Entity not found.
    NotFound,
    /// Resource busy.
    Busy,
    /// The transfer timed out.
    Timeout,
    /// Overflow.
    Overflow,
    /// Pipe error.
    Pipe,
    /// System call interrupted.
    Interrupted,
    /// Insufficient memory.
    NoMem,
    /// Operation not supported on this platform.
    NotSupported,
    /// The device returned a malformed descriptor.
    BadDescriptor,
    /// Any other failure.
    Other,
}

/// Errors returned by the relay board driver.
#[derive(Debug, Clone, Copy, PartialEq, Eq, Structural)]
pub enum Error {
    /// The USB transport failed.
    Usb(UsbError),
    /// No relay board was found.
    NotFound,
    /// Several relay boards were found and no port was given to tell them apart.
    MultipleFound,
    /// The board did not read back the relays that were written.
    VerificationFailed,
    /// The transport reported more bytes than the read buffer holds.
    UnsafeRead,
    /// The board failed its self-test.
    BadDevice,
}

} // verus!
