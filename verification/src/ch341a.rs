//! The CH341A bridge: what goes over the bulk endpoints to drive its output
//! lines and to sample its input lines.

use vstd::prelude::*;

use crate::errors::Error;
use crate::errors::UsbError;

verus! {

/// The bulk endpoint that commands are written to.
pub const ENDPOINT_OUT: u8 = 0x02;

/// The bulk endpoint that answers are read from.
pub const ENDPOINT_IN: u8 = 0x82;

/// The capacity, in bytes, of the buffer that answers are read into.
pub const READ_BUF_SIZE: usize = 32;

/// How long a bulk write may take, in milliseconds.
pub const WRITE_TIMEOUT_MS: u64 = 100;

/// How long a bulk read may take, in milliseconds.
pub const READ_TIMEOUT_MS: u64 = 10;

/// A command of the bridge.
#[derive(Debug, Clone, Copy, PartialEq, Eq, Structural)]
pub enum Command {
    /// Drive the output lines with the given byte.
    SetOutput(u8),
    /// Report the state of the input lines.
    GetInput,
}

/// One thing to ask of the USB transport.
#[derive(Debug, Clone, Copy, PartialEq, Eq, Structural)]
pub enum Request {
    /// Write the bytes of `command` to `endpoint` in one bulk transfer.
    Write { endpoint: u8, command: Command, timeout_ms: u64 },
    /// Read at most `capacity` bytes from `endpoint` in one bulk transfer.
    Read { endpoint: u8, capacity: usize, timeout_ms: u64 },
    /// Reset the device.
    Reset,
}

/// The bytes of the command that drives the output lines with `data`.
pub open spec fn output_frame(data: u8) -> Seq<u8> {
    seq![0xA1u8, 0x6au8, 0x1fu8, 0x00u8, 0x10u8, data, 0x3fu8, 0x00u8, 0x00u8, 0x00u8, 0x00u8]
}

/// The bytes of the command that asks for the state of the input lines.
pub open spec fn input_frame() -> Seq<u8> {
    seq![0xA0u8]
}

/// What the answer to a read means: the state of the input lines, which is
/// the first byte of the buffer, unless the transfer failed or reported more
/// bytes than the buffer holds.
pub open spec fn input_of(result: Result<usize, UsbError>, first: u8) -> Result<u8, Error> {
    match result {
        Err(err) => Err(Error::Usb(err)),
        Ok(len) => if len > READ_BUF_SIZE {
            Err(Error::UnsafeRead)
        } else {
            Ok(first)
        },
    }
}

/// The write that sends `command`.
pub open spec fn write_of(command: Command) -> Request {
    Request::Write { endpoint: ENDPOINT_OUT, command, timeout_ms: WRITE_TIMEOUT_MS }
}

/// The read that fetches an answer.
pub open spec fn read_of() -> Request {
    Request::Read { endpoint: ENDPOINT_IN, capacity: READ_BUF_SIZE, timeout_ms: READ_TIMEOUT_MS }
}

impl Command {
    /// The bytes that go over the wire for this command.
    pub open spec fn wire(self) -> Seq<u8> {
        match self {
            Command::SetOutput(data) => output_frame(data),
            Command::GetInput => input_frame(),
        }
    }

    /// Encodes the command for the wire.
    pub fn bytes(&self) -> (msg: Vec<u8>)
        ensures
            msg@ == self.wire(),
    {
        match self {
            Command::SetOutput(data) => set_output(*data),
            Command::GetInput => {
                let msg = vec![0xA0u8];
                assert(msg@ =~= input_frame());
                msg
            },
        }
    }
}

/// Builds the command that drives the output lines with `data`: eleven bytes
/// with `data` in the sixth.
pub fn set_output(data: u8) -> (msg: Vec<u8>)
    ensures
        msg@ == output_frame(data),
{
    let msg = vec![
        0xA1u8, 0x6au8, 0x1fu8, 0x00u8, 0x10u8, data, 0x3fu8, 0x00u8, 0x00u8, 0x00u8, 0x00u8,
    ];
    assert(msg@ =~= output_frame(data));
    msg
}

/// Makes sense of the answer to a read of the input lines.
///
/// `result` is what the bulk read returned, the number of bytes on success,
/// and `buffer` is what it read into. A failed transfer is a `Usb` error; a
/// length beyond the buffer is `UnsafeRead`, and nothing is taken from the
/// buffer then. Otherwise the first byte is the state of the input lines.
pub fn get_input(result: Result<usize, UsbError>, buffer: &[u8; READ_BUF_SIZE]) -> (input:
    Result<u8, Error>)
    ensures
        input == input_of(result, buffer[0]),
        input is Ok <==> (result matches Ok(len) && len <= READ_BUF_SIZE),
        input == Err::<u8, Error>(Error::UnsafeRead) <==> (result matches Ok(len) && len
            > READ_BUF_SIZE),
{
    match result {
        Err(err) => Err(Error::Usb(err)),
        Ok(len) => {
            if len > READ_BUF_SIZE {
                return Err(Error::UnsafeRead);
            }
            Ok(buffer[0])
        },
    }
}

/// The request that writes `command` to the bridge.
pub fn write(command: Command) -> (request: Request)
    ensures
        request == write_of(command),
{
    Request::Write { endpoint: ENDPOINT_OUT, command, timeout_ms: WRITE_TIMEOUT_MS }
}

/// The request that reads an answer from the bridge.
pub fn read() -> (request: Request)
    ensures
        request == read_of(),
{
    Request::Read { endpoint: ENDPOINT_IN, capacity: READ_BUF_SIZE, timeout_ms: READ_TIMEOUT_MS }
}

} // verus!
