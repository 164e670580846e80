//! Device-side USB stack for embedded devices, with its protocol logic verified.
//!
//! A USB device consists of a [`UsbDevice`](device::UsbDevice) instance, one or more
//! [`UsbClass`](class::UsbClass)es, and a platform-specific [`UsbBus`](bus::UsbBus)
//! implementation which together form a USB composite device.
//!
//! This crate uses standard host-centric USB terminology for transfer directions: an OUT
//! transfer is host-to-device, an IN transfer is device-to-host.
#![allow(unused_imports)]
#![allow(dead_code)]

use vstd::prelude::*;

/// USB control transfers and the SETUP packet.
pub mod control;

/// For implementing peripheral drivers.
pub mod bus;

/// For implementing standard as well as vendor-specific USB classes.
pub mod class;

/// USB endpoints.
pub mod endpoint;

/// USB composite device.
pub mod device;

/// Creating USB descriptors.
pub mod descriptor;

/// Handles for interfaces and strings.
pub mod allocator;

/// Interface descriptor settings used when registering interfaces.
pub mod config;

/// Plain description of a device's identity.
pub mod device_info;

/// Test USB class for testing USB driver implementations.
pub mod test_class;

/// Dummy bus with no functionality.
pub mod dummy;

mod control_pipe;

mod device_builder;

/// Prelude for device implementors.
pub mod prelude;

/// Prelude for class implementors.
pub mod class_prelude;

pub use descriptor::lang_id::LangID;

verus! {

/// A USB stack error.
#[derive(Copy, Clone, Eq, PartialEq, Structural, Debug)]
pub enum UsbError {
    /// An operation would block because the device is currently busy or there is no data available.
    WouldBlock,
    /// Parsing failed due to invalid input.
    ParseError,
    /// A buffer too short for the data to read was passed, or provided data cannot fit within
    /// length constraints.
    BufferOverflow,
    /// Classes attempted to allocate more endpoints than the peripheral supports.
    EndpointOverflow,
    /// Classes attempted to allocate more packet buffer memory than the peripheral supports.
    EndpointMemoryOverflow,
    /// The endpoint address is invalid or already used.
    InvalidEndpoint,
    /// Operation is not supported by device or configuration.
    Unsupported,
    /// Operation is not valid in the current state of the object.
    InvalidState,
}

/// Direction of USB traffic, always seen from the host. The direction bit of endpoint addresses
/// and control request types is `0x80` for IN and `0x00` for OUT.
#[derive(Copy, Clone, Eq, PartialEq, Structural, Debug)]
pub enum UsbDirection {
    /// Host to device (OUT)
    Out,
    /// Device to host (IN)
    In,
}

/// The direction bit of a direction: `0x00` for OUT, `0x80` for IN.
pub open spec fn direction_bits(d: UsbDirection) -> u8 {
    match d {
        UsbDirection::Out => 0x00u8,
        UsbDirection::In => 0x80u8,
    }
}

/// The direction that bit 7 of a byte selects.
pub open spec fn direction_of_byte(value: u8) -> UsbDirection {
    if value >= 0x80 { UsbDirection::In } else { UsbDirection::Out }
}

impl UsbDirection {
    /// The direction bit of this direction (`0x00` or `0x80`).
    pub fn bits(self) -> (r: u8)
        ensures
            r == direction_bits(self),
    {
        match self {
            UsbDirection::Out => 0x00,
            UsbDirection::In => 0x80,
        }
    }
}

impl From<u8> for UsbDirection {
    /// Reads the direction from bit 7 of `value`; the other bits are ignored.
    fn from(value: u8) -> (r: Self) {
        if value & 0x80 != 0 {
            assert(value >= 0x80) by (bit_vector)
                requires value & 0x80 != 0;
            UsbDirection::In
        } else {
            assert(value < 0x80) by (bit_vector)
                requires value & 0x80 == 0;
            UsbDirection::Out
        }
    }
}

impl vstd::std_specs::convert::FromSpecImpl<u8> for UsbDirection {
    open spec fn obeys_from_spec() -> bool {
        true
    }

    open spec fn from_spec(v: u8) -> UsbDirection {
        direction_of_byte(v)
    }
}

/// Result for USB operations.
pub type Result<T> = core::result::Result<T, UsbError>;

/// Reading a direction back from its own bit gives the same direction.
pub proof fn lemma_direction_bits_roundtrip(d: UsbDirection)
    ensures
        direction_of_byte(direction_bits(d)) == d,
{
}

} // verus!
