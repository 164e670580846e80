use vstd::prelude::*;
use crate::endpoint::{Endpoint, EndpointAddress, EndpointDirection, EndpointType,
    IsochronousSynchronizationType, IsochronousUsageType};
use crate::{Result, UsbDirection, UsbError};

verus! {

/// A trait for accessing device-specific USB peripherals. Implement this to add support for a new
/// hardware platform.
///
/// All methods take `&self`: the peripheral is shared between the device and the endpoints of
/// the classes, so an implementation that needs to change its own state uses interior
/// mutability.
pub trait UsbBus: Sync + Sized {
    /// Allocates an endpoint and specified endpoint parameters. This method is called by the device
    /// and class implementations to allocate endpoints, and can only be called before the device
    /// is enabled.
    fn alloc_ep(
        &self,
        ep_dir: UsbDirection,
        ep_addr: Option<EndpointAddress>,
        ep_type: EndpointType,
        max_packet_size: u16,
        interval: u8,
    ) -> Result<EndpointAddress>;

    /// Enables and initializes the USB peripheral. Soon after enabling the device will be reset, so
    /// there is no need to perform a USB reset in this method.
    fn enable(&self);

    /// Called when the host resets the device. This will be soon called after
    /// [`poll`](crate::device::UsbDevice::poll) returns [`PollResult::Reset`]. This method should
    /// reset the state of all endpoints and peripheral flags back to a state suitable for
    /// enumeration, as well as ensure that all endpoints previously allocated with alloc_ep are
    /// initialized as specified.
    fn reset(&self);

    /// Sets the device USB address to `addr`.
    fn set_device_address(&self, addr: u8);

    /// Writes a single packet of data to the specified endpoint and returns number of bytes
    /// actually written.
    fn write(&self, ep_addr: EndpointAddress, buf: &[u8]) -> Result<usize>;

    /// Reads a single packet of data from the specified endpoint and returns the actual length of
    /// the packet.
    fn read(&self, ep_addr: EndpointAddress, buf: &mut [u8]) -> Result<usize>;

    /// Sets or clears the STALL condition for an endpoint. If the endpoint is an OUT endpoint, it
    /// should be prepared to receive data again.
    fn set_stalled(&self, ep_addr: EndpointAddress, stalled: bool);

    /// Gets whether the STALL condition is set for an endpoint.
    fn is_stalled(&self, ep_addr: EndpointAddress) -> bool;

    /// Causes the USB peripheral to enter USB suspend mode, lowering power consumption and
    /// preparing to detect a USB wakeup event.
    fn suspend(&self);

    /// Resumes from suspend mode. This may only be called after the peripheral has been previously
    /// suspended.
    fn resume(&self);

    /// Gets information about events and incoming data. Usually called in a loop or from an
    /// interrupt handler. See the [`PollResult`] struct for more information.
    fn poll(&self) -> PollResult;

    /// Simulates a disconnect from the USB bus, causing the host to reset and re-enumerate the
    /// device. The default implementation reports that the operation is unsupported.
    fn force_reset(&self) -> (r: Result<()>)
        default_ensures
            r == Err::<(), UsbError>(UsbError::Unsupported),
    {
        Err(UsbError::Unsupported)
    }

    /// Indicates that `set_device_address` must be called before accepting the corresponding
    /// control transfer, not after.
    ///
    /// The default value for this constant is `false`, which corresponds to the USB 2.0 spec,
    /// 9.4.6.
    const QUIRK_SET_ADDRESS_BEFORE_STATUS: bool = false;
}

/// Event and incoming packet information returned by [`UsbBus::poll`].
#[derive(Copy, Clone, Eq, PartialEq, Structural, Debug)]
pub enum PollResult {
    /// No events or packets to report.
    NoEvent,

    /// The USB reset condition has been detected.
    Reset,

    /// USB packets have been received or sent. Each data field is a bit-field where the least
    /// significant bit represents endpoint 0 etc., and a set bit signifies the event has occurred
    /// for the corresponding endpoint.
    Data {
        /// An OUT packet has been received. This event should continue to be reported until the
        /// packet is read.
        ep_out: u16,

        /// An IN packet has finished transmitting. This event should only be reported once for each
        /// completed transfer.
        ep_in_complete: u16,

        /// A SETUP packet has been received. This event should continue to be reported until the
        /// packet is read. The corresponding bit in `ep_out` may also be set but is ignored.
        ep_setup: u16,
    },

    /// A USB suspend request has been detected or, in the case of self-powered devices, the device
    /// has been disconnected from the USB bus.
    Suspend,

    /// A USB resume request has been detected after being suspended or, in the case of self-powered
    /// devices, the device has been connected to the USB bus.
    Resume,
}

/// A handle for a USB interface that contains its number.
#[derive(Copy, Clone, Eq, PartialEq, Structural, Debug)]
pub struct InterfaceNumber(pub(crate) u8);

impl View for InterfaceNumber {
    type V = u8;

    closed spec fn view(&self) -> u8 {
        self.0
    }
}

impl From<InterfaceNumber> for u8 {
    fn from(n: InterfaceNumber) -> (r: u8) {
        n.0
    }
}

impl vstd::std_specs::convert::FromSpecImpl<InterfaceNumber> for u8 {
    open spec fn obeys_from_spec() -> bool {
        true
    }

    open spec fn from_spec(v: InterfaceNumber) -> u8 {
        v@
    }
}

impl InterfaceNumber {
    /// The interface number as a byte.
    pub fn number(&self) -> (r: u8)
        ensures
            r == self@,
    {
        self.0
    }

    pub(crate) fn new(n: u8) -> (r: InterfaceNumber)
        ensures
            r@ == n,
    {
        InterfaceNumber(n)
    }
}

/// A handle for a USB string descriptor that contains its index.
#[derive(Copy, Clone, Eq, PartialEq, Structural, Debug)]
pub struct StringIndex(u8);

impl View for StringIndex {
    type V = u8;

    closed spec fn view(&self) -> u8 {
        self.0
    }
}

impl StringIndex {
    pub(crate) fn new(index: u8) -> (r: StringIndex)
        ensures
            r@ == index,
    {
        StringIndex(index)
    }

    /// The string index as a byte.
    pub fn index(&self) -> (r: u8)
        ensures
            r == self@,
    {
        self.0
    }
}

impl From<StringIndex> for u8 {
    fn from(i: StringIndex) -> (r: u8) {
        i.0
    }
}

impl vstd::std_specs::convert::FromSpecImpl<StringIndex> for u8 {
    open spec fn obeys_from_spec() -> bool {
        true
    }

    open spec fn from_spec(v: StringIndex) -> u8 {
        v@
    }
}

/// Index of the first string descriptor that classes can allocate; 1 to 3 are the manufacturer,
/// product and serial number strings.
pub const FIRST_ALLOCATED_STRING: u8 = 4;

/// Helper type used for UsbBus resource allocation and initialization.
pub struct UsbBusAllocator<'a, B: UsbBus> {
    bus: &'a B,
    next_interface: u8,
    next_string: u8,
}

impl<'a, B: UsbBus> UsbBusAllocator<'a, B> {
    /// The number that the next allocated interface gets.
    pub closed spec fn spec_next_interface(&self) -> u8 {
        self.next_interface
    }

    /// The index that the next allocated string gets.
    pub closed spec fn spec_next_string(&self) -> u8 {
        self.next_string
    }

    /// The bus that this allocator allocates on.
    pub closed spec fn spec_bus(&self) -> &'a B {
        self.bus
    }

    /// Creates a new [`UsbBusAllocator`] that wraps the provided [`UsbBus`]. Usually only called by
    /// USB driver implementations.
    pub fn new(bus: &'a B) -> (r: UsbBusAllocator<'a, B>)
        ensures
            r.spec_bus() == bus,
            r.spec_next_interface() == 0,
            r.spec_next_string() == FIRST_ALLOCATED_STRING,
    {
        UsbBusAllocator { bus, next_interface: 0, next_string: FIRST_ALLOCATED_STRING }
    }

    /// The bus that this allocator allocates on.
    pub fn bus(&self) -> (r: &'a B)
        ensures
            r == self.spec_bus(),
    {
        self.bus
    }

    /// Enables the bus for use by a device and hands it over.
    pub(crate) fn freeze(&self) -> (r: &'a B)
        ensures
            r == self.spec_bus(),
    {
        self.bus.enable();
        self.bus
    }

    /// Allocates a new interface number.
    pub fn interface(&mut self) -> (r: InterfaceNumber)
        requires
            old(self).spec_next_interface() < 255,
        ensures
            r@ == old(self).spec_next_interface(),
            final(self).spec_next_interface() == old(self).spec_next_interface() + 1,
            final(self).spec_next_string() == old(self).spec_next_string(),
            final(self).spec_bus() == old(self).spec_bus(),
    {
        let number = self.next_interface;
        self.next_interface = number + 1;
        InterfaceNumber(number)
    }

    /// Allocates a new string index.
    pub fn string(&mut self) -> (r: StringIndex)
        requires
            old(self).spec_next_string() < 255,
        ensures
            r@ == old(self).spec_next_string(),
            final(self).spec_next_string() == old(self).spec_next_string() + 1,
            final(self).spec_next_interface() == old(self).spec_next_interface(),
            final(self).spec_bus() == old(self).spec_bus(),
    {
        let index = self.next_string;
        self.next_string = index + 1;
        StringIndex(index)
    }

    /// Allocates an endpoint with the specified direction and address.
    ///
    /// This directly delegates to [`UsbBus::alloc_ep`], so see that method for details. In most
    /// cases classes should call the endpoint type specific methods instead.
    pub fn alloc_endpoint<D: EndpointDirection>(
        &self,
        ep_addr: Option<EndpointAddress>,
        ep_type: EndpointType,
        max_packet_size: u16,
        interval: u8,
    ) -> (r: Result<Endpoint<'a, B, D>>)
        ensures
            r matches Ok(ep) ==> {
                &&& ep.spec_ep_type() == ep_type
                &&& ep.spec_max_packet_size() == max_packet_size
                &&& ep.spec_interval() == interval
                &&& ep.spec_bus() == self.spec_bus()
            },
    {
        match self.bus.alloc_ep(D::DIRECTION, ep_addr, ep_type, max_packet_size, interval) {
            Ok(address) => Ok(Endpoint::new(self.bus, address, ep_type, max_packet_size, interval)),
            Err(e) => Err(e),
        }
    }

    /// Allocates a control endpoint.
    pub fn control<D: EndpointDirection>(&self, max_packet_size: u16) -> (r: Result<Endpoint<'a, B, D>>)
        ensures
            r matches Ok(ep) ==> {
                &&& ep.spec_ep_type() == EndpointType::Control
                &&& ep.spec_max_packet_size() == max_packet_size
                &&& ep.spec_interval() == 0
                &&& ep.spec_bus() == self.spec_bus()
            },
    {
        self.alloc_endpoint(None, EndpointType::Control, max_packet_size, 0)
    }

    /// Allocates an isochronous endpoint.
    pub fn isochronous<D: EndpointDirection>(
        &self,
        synchronization: IsochronousSynchronizationType,
        usage: IsochronousUsageType,
        payload_size: u16,
        interval: u8,
    ) -> (r: Result<Endpoint<'a, B, D>>)
        ensures
            r matches Ok(ep) ==> {
                &&& ep.spec_ep_type() == (EndpointType::Isochronous { synchronization, usage })
                &&& ep.spec_max_packet_size() == payload_size
                &&& ep.spec_interval() == interval
                &&& ep.spec_bus() == self.spec_bus()
            },
    {
        self.alloc_endpoint(None, EndpointType::Isochronous { synchronization, usage }, payload_size, interval)
    }

    /// Allocates a bulk endpoint.
    pub fn bulk<D: EndpointDirection>(&self, max_packet_size: u16) -> (r: Result<Endpoint<'a, B, D>>)
        ensures
            r matches Ok(ep) ==> {
                &&& ep.spec_ep_type() == EndpointType::Bulk
                &&& ep.spec_max_packet_size() == max_packet_size
                &&& ep.spec_interval() == 0
                &&& ep.spec_bus() == self.spec_bus()
            },
    {
        self.alloc_endpoint(None, EndpointType::Bulk, max_packet_size, 0)
    }

    /// Allocates an interrupt endpoint.
    pub fn interrupt<D: EndpointDirection>(&self, max_packet_size: u16, interval: u8) -> (r: Result<Endpoint<'a, B, D>>)
        ensures
            r matches Ok(ep) ==> {
                &&& ep.spec_ep_type() == EndpointType::Interrupt
                &&& ep.spec_max_packet_size() == max_packet_size
                &&& ep.spec_interval() == interval
                &&& ep.spec_bus() == self.spec_bus()
            },
    {
        self.alloc_endpoint(None, EndpointType::Interrupt, max_packet_size, interval)
    }
}

/// Interfaces are numbered in the order they are allocated: when the allocator `allocs[k]` hands
/// out the number `numbers[k]` with [`UsbBusAllocator::interface`] and becomes `allocs[k + 1]`,
/// starting from a new allocator, the `k`-th number is `k`: 0, 1, 2 and so on, with no gaps or
/// repeats.
pub proof fn lemma_interfaces_numbered_in_order<'a, B: UsbBus>(
    allocs: Seq<UsbBusAllocator<'a, B>>,
    numbers: Seq<InterfaceNumber>,
)
    requires
        allocs.len() == numbers.len() + 1,
        allocs[0].spec_next_interface() == 0,
        forall|k: int| 0 <= k < numbers.len() ==> #[trigger] numbers[k]@ == allocs[k].spec_next_interface()
            && allocs[k + 1].spec_next_interface() == allocs[k].spec_next_interface() + 1,
    ensures
        forall|k: int| 0 <= k < numbers.len() ==> #[trigger] numbers[k]@ == k,
    decreases numbers.len(),
{
    if numbers.len() > 0 {
        let n = numbers.len() - 1;
        let a1 = allocs.drop_last();
        let i1 = numbers.drop_last();
        assert forall|k: int| 0 <= k < i1.len() implies #[trigger] i1[k]@ == a1[k].spec_next_interface()
            && a1[k + 1].spec_next_interface() == a1[k].spec_next_interface() + 1 by {
            assert(i1[k] == numbers[k] && a1[k] == allocs[k] && a1[k + 1] == allocs[k + 1]);
            assert(numbers[k]@ == allocs[k].spec_next_interface());
        }
        assert(a1[0] == allocs[0]);
        lemma_interfaces_numbered_in_order(a1, i1);
        assert forall|k: int| 0 <= k < numbers.len() implies #[trigger] numbers[k]@ == k by {
            if k < n {
                assert(numbers[k] == i1[k]);
            } else {
                assert(numbers[n]@ == allocs[n].spec_next_interface());
                if n > 0 {
                    assert(numbers[n - 1]@ == allocs[n - 1].spec_next_interface());
                    assert(i1[n - 1] == numbers[n - 1]);
                }
            }
        }
    }
}

/// Strings are numbered in the order they are allocated: when the allocator `allocs[k]` hands
/// out the index `indices[k]` with [`UsbBusAllocator::string`] and becomes `allocs[k + 1]`,
/// starting from a new allocator, the `k`-th index is [`FIRST_ALLOCATED_STRING`] plus `k`.
pub proof fn lemma_strings_numbered_in_order<'a, B: UsbBus>(
    allocs: Seq<UsbBusAllocator<'a, B>>,
    indices: Seq<StringIndex>,
)
    requires
        allocs.len() == indices.len() + 1,
        allocs[0].spec_next_string() == FIRST_ALLOCATED_STRING,
        forall|k: int| 0 <= k < indices.len() ==> #[trigger] indices[k]@ == allocs[k].spec_next_string()
            && allocs[k + 1].spec_next_string() == allocs[k].spec_next_string() + 1,
    ensures
        forall|k: int| 0 <= k < indices.len() ==> #[trigger] indices[k]@ == FIRST_ALLOCATED_STRING + k,
    decreases indices.len(),
{
    if indices.len() > 0 {
        let n = indices.len() - 1;
        let a1 = allocs.drop_last();
        let i1 = indices.drop_last();
        assert forall|k: int| 0 <= k < i1.len() implies #[trigger] i1[k]@ == a1[k].spec_next_string()
            && a1[k + 1].spec_next_string() == a1[k].spec_next_string() + 1 by {
            assert(i1[k] == indices[k] && a1[k] == allocs[k] && a1[k + 1] == allocs[k + 1]);
            assert(indices[k]@ == allocs[k].spec_next_string());
        }
        assert(a1[0] == allocs[0]);
        lemma_strings_numbered_in_order(a1, i1);
        assert forall|k: int| 0 <= k < indices.len() implies #[trigger] indices[k]@ == FIRST_ALLOCATED_STRING + k by {
            if k < n {
                assert(indices[k] == i1[k]);
            } else {
                assert(indices[n]@ == allocs[n].spec_next_string());
                if n > 0 {
                    assert(indices[n - 1]@ == allocs[n - 1].spec_next_string());
                    assert(i1[n - 1] == indices[n - 1]);
                }
            }
        }
    }
}

/// Two interface numbers handed out by successive calls of [`UsbBusAllocator::interface`] are
/// different, and so are two string indices handed out by successive calls of
/// [`UsbBusAllocator::string`]: each call gives the counter's value and moves it on.
pub proof fn lemma_allocations_distinct<'a, B: UsbBus>(
    a0: UsbBusAllocator<'a, B>,
    a1: UsbBusAllocator<'a, B>,
    i1: InterfaceNumber,
    i2: InterfaceNumber,
    s1: StringIndex,
    s2: StringIndex,
)
    requires
        i1@ == a0.spec_next_interface(),
        a1.spec_next_interface() == a0.spec_next_interface() + 1,
        i2@ == a1.spec_next_interface(),
        s1@ == a0.spec_next_string(),
        a1.spec_next_string() == a0.spec_next_string() + 1,
        s2@ == a1.spec_next_string(),
    ensures
        i1 != i2,
        s1 != s2,
{
}

} // verus!
