//! What the driver needs to know of a USB device in order to recognise a
//! relay board. The USB binding implements these for its devices; an
//! in-memory record can stand in for one.

use vstd::prelude::*;

use crate::errors::UsbError;

verus! {

/// A USB device as a bus scan lists it.
pub trait Device<T: DeviceDescriptor> {
    /// The address the bus assigned to the device.
    fn address(&self) -> u8;

    /// The number of the bus the device is attached to.
    fn bus_number(&self) -> u8;

    /// Reads the device descriptor.
    fn device_descriptor(&self) -> Result<T, UsbError>;

    /// The number of the port the device is plugged into.
    fn port_number(&self) -> u8;
}

/// The identifiers in a device descriptor.
pub trait DeviceDescriptor {
    /// The vendor identifier.
    fn vendor_id(&self) -> u16;

    /// The product identifier.
    fn product_id(&self) -> u16;
}

} // verus!
