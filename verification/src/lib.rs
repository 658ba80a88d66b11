//! Driver logic for an eight-channel relay board that hangs off a CH341A
//! USB bridge and an A6275 shift-register driver.
//!
//! The crate performs no I/O. It picks the board among the devices of a bus
//! scan ([`find_relay_board`]) and runs each operation on the board as a
//! [`Session`]: a state machine that names the next USB transfer and takes
//! its answer. The caller owns the USB handle and makes the transfers.
//!
//! ```text
//! let mut session = arb::set_status(0b0011_0111, true);
//! loop {
//!     match session.action() {
//!         Action::Done(outcome) => break outcome,
//!         Action::Request(request) => { /* transfer, then session.step(..) */ }
//!     }
//! }
//! ```

pub mod board;
pub mod ch341a;
pub mod errors;
pub mod helper;
pub mod protocol;
pub mod relay_board;
pub mod relays;
pub mod session;
pub mod theorems;

pub use ch341a::get_input;
pub use ch341a::set_output;
pub use ch341a::Command;
pub use ch341a::Request;
pub use errors::Error;
pub use errors::UsbError;
pub use helper::Device;
pub use helper::DeviceDescriptor;
pub use relay_board::find_relay_board;
pub use relay_board::RelayBoard;
pub use session::get_status;
pub use session::reset;
pub use session::set_status;
pub use session::Action;
pub use session::Session;
