use vstd::prelude::*;
use crate::bus::{PollResult, UsbBus};
use crate::endpoint::{EndpointAddress, EndpointType};
use crate::{Result, UsbDirection, UsbError};

verus! {

/// Dummy bus implementation with no functionality.
///
/// Examples can create an instance of this bus so they can be compile-checked. It has no
/// peripheral behind it: every allocation, transfer and forced reset fails with `Unsupported`,
/// a poll reports no event, no endpoint is ever stalled, and the other operations do nothing.
pub struct DummyUsbBus;

impl DummyUsbBus {
    /// Creates a new `DummyUsbBus`.
    pub fn new() -> (r: Self)
        ensures
            r == DummyUsbBus,
    {
        DummyUsbBus
    }
}

impl Default for DummyUsbBus {
    fn default() -> (r: Self)
        ensures
            r == DummyUsbBus,
    {
        Self::new()
    }
}

impl UsbBus for DummyUsbBus {
    fn alloc_ep(
        &self,
        ep_dir: UsbDirection,
        ep_addr: Option<EndpointAddress>,
        ep_type: EndpointType,
        max_packet_size: u16,
        interval: u8,
    ) -> (r: Result<EndpointAddress>)
        ensures
            r == Err::<EndpointAddress, UsbError>(UsbError::Unsupported),
    {
        Err(UsbError::Unsupported)
    }

    fn enable(&self) {
    }

    fn reset(&self) {
    }

    fn set_device_address(&self, addr: u8) {
    }

    fn write(&self, ep_addr: EndpointAddress, buf: &[u8]) -> (r: Result<usize>)
        ensures
            r == Err::<usize, UsbError>(UsbError::Unsupported),
    {
        Err(UsbError::Unsupported)
    }

    fn read(&self, ep_addr: EndpointAddress, buf: &mut [u8]) -> (r: Result<usize>)
        ensures
            r == Err::<usize, UsbError>(UsbError::Unsupported),
            final(buf)@ == old(buf)@,
    {
        Err(UsbError::Unsupported)
    }

    fn set_stalled(&self, ep_addr: EndpointAddress, stalled: bool) {
    }

    fn is_stalled(&self, ep_addr: EndpointAddress) -> (r: bool)
        ensures
            !r,
    {
        false
    }

    fn suspend(&self) {
    }

    fn resume(&self) {
    }

    fn poll(&self) -> (r: PollResult)
        ensures
            r == PollResult::NoEvent,
    {
        PollResult::NoEvent
    }

    fn force_reset(&self) -> (r: Result<()>)
        ensures
            r == Err::<(), UsbError>(UsbError::Unsupported),
    {
        Err(UsbError::Unsupported)
    }
}

} // verus!
