use vstd::prelude::*;
use core::marker::PhantomData;
use crate::bus::UsbBus;
use crate::{direction_bits, Result, UsbDirection};

verus! {

/// Trait for endpoint type markers.
pub trait EndpointDirection {
    /// Direction value of the marker type.
    const DIRECTION: UsbDirection;
}

/// Marker type for OUT endpoints.
pub struct Out;

impl EndpointDirection for Out {
    const DIRECTION: UsbDirection = UsbDirection::Out;
}

/// Marker type for IN endpoints.
pub struct In;

impl EndpointDirection for In {
    const DIRECTION: UsbDirection = UsbDirection::In;
}

/// A host-to-device (OUT) endpoint.
pub type EndpointOut<'a, B> = Endpoint<'a, B, Out>;

/// A device-to-host (IN) endpoint.
pub type EndpointIn<'a, B> = Endpoint<'a, B, In>;

/// Isochronous transfers employ one of three synchronization schemes. See USB 2.0 spec 5.12.4.1.
#[derive(Copy, Clone, Eq, PartialEq, Structural, Debug)]
pub enum IsochronousSynchronizationType {
    /// Synchronization is not implemented for this endpoint.
    NoSynchronization,
    /// Source and Sink sample clocks are free running.
    Asynchronous,
    /// Source sample clock is locked to Sink, Sink sample clock is locked to data flow.
    Adaptive,
    /// Source and Sink sample clocks are locked to USB SOF.
    Synchronous,
}

/// Intended use of an isochronous endpoint, see USB 2.0 spec sections 5.12 and 9.6.6.
#[derive(Copy, Clone, Eq, PartialEq, Structural, Debug)]
pub enum IsochronousUsageType {
    /// Endpoint is used for isochronous data.
    Data,
    /// Feedback for synchronization.
    Feedback,
    /// Endpoint is data and provides implicit feedback for synchronization.
    ImplicitFeedbackData,
}

/// USB endpoint transfer type.
#[derive(Copy, Clone, Eq, PartialEq, Structural, Debug)]
pub enum EndpointType {
    /// Control endpoint. Used for device management. Only the host can initiate requests.
    Control,
    /// Isochronous endpoint. Used for time-critical unreliable data.
    Isochronous {
        /// Synchronization model used for the data stream that this endpoint relates to.
        synchronization: IsochronousSynchronizationType,
        /// Endpoint's role in the synchronization model.
        usage: IsochronousUsageType,
    },
    /// Bulk endpoint. Used for large amounts of best-effort reliable data.
    Bulk,
    /// Interrupt endpoint. Used for small amounts of time-critical reliable data.
    Interrupt,
}

/// The two synchronization bits of an isochronous endpoint.
pub open spec fn sync_bits(s: IsochronousSynchronizationType) -> u8 {
    match s {
        IsochronousSynchronizationType::NoSynchronization => 0u8,
        IsochronousSynchronizationType::Asynchronous => 1u8,
        IsochronousSynchronizationType::Adaptive => 2u8,
        IsochronousSynchronizationType::Synchronous => 3u8,
    }
}

/// The two usage bits of an isochronous endpoint.
pub open spec fn usage_bits(u: IsochronousUsageType) -> u8 {
    match u {
        IsochronousUsageType::Data => 0u8,
        IsochronousUsageType::Feedback => 1u8,
        IsochronousUsageType::ImplicitFeedbackData => 2u8,
    }
}

/// The bmAttributes byte of an endpoint descriptor for a transfer type (USB 2.0 spec 9.6.6):
/// transfer type in bits 0-1, synchronization in bits 2-3 and usage in bits 4-5.
pub open spec fn bm_attributes(t: EndpointType) -> u8 {
    match t {
        EndpointType::Control => 0u8,
        EndpointType::Isochronous { synchronization, usage } =>
            (usage_bits(usage) * 16 + sync_bits(synchronization) * 4 + 1) as u8,
        EndpointType::Bulk => 2u8,
        EndpointType::Interrupt => 3u8,
    }
}

impl EndpointType {
    /// Format EndpointType for use in bmAttributes transfer type field USB 2.0 spec section 9.6.6
    pub fn to_bm_attributes(&self) -> (r: u8)
        ensures
            r == bm_attributes(*self),
    {
        match self {
            EndpointType::Control => 0b00,
            EndpointType::Isochronous { synchronization, usage } => {
                let sync_bits: u8 = match synchronization {
                    IsochronousSynchronizationType::NoSynchronization => 0b00,
                    IsochronousSynchronizationType::Asynchronous => 0b01,
                    IsochronousSynchronizationType::Adaptive => 0b10,
                    IsochronousSynchronizationType::Synchronous => 0b11,
                };
                let usage_bits: u8 = match usage {
                    IsochronousUsageType::Data => 0b00,
                    IsochronousUsageType::Feedback => 0b01,
                    IsochronousUsageType::ImplicitFeedbackData => 0b10,
                };
                assert((usage_bits << 4u8) | (sync_bits << 2u8) | 1u8 == usage_bits * 16 + sync_bits * 4 + 1)
                    by (bit_vector)
                    requires usage_bits < 4, sync_bits < 4;
                (usage_bits << 4u8) | (sync_bits << 2u8) | 0b01
            },
            EndpointType::Bulk => 0b10,
            EndpointType::Interrupt => 0b11,
        }
    }
}

/// Handle for a USB endpoint. The endpoint direction is constrained by the `D` type argument, which
/// must be either `In` or `Out`.
pub struct Endpoint<'a, B: UsbBus, D: EndpointDirection> {
    bus: &'a B,
    address: EndpointAddress,
    ep_type: EndpointType,
    max_packet_size: u16,
    interval: u8,
    _marker: PhantomData<D>,
}

impl<'a, B: UsbBus, D: EndpointDirection> Endpoint<'a, B, D> {
    pub(crate) fn new(
        bus: &'a B,
        address: EndpointAddress,
        ep_type: EndpointType,
        max_packet_size: u16,
        interval: u8,
    ) -> (r: Endpoint<'a, B, D>)
        ensures
            r.spec_address() == address,
            r.spec_ep_type() == ep_type,
            r.spec_max_packet_size() == max_packet_size,
            r.spec_interval() == interval,
            r.spec_bus() == bus,
    {
        Endpoint { bus, address, ep_type, max_packet_size, interval, _marker: PhantomData }
    }

    /// The address of the endpoint.
    pub closed spec fn spec_address(&self) -> EndpointAddress {
        self.address
    }

    /// The transfer type of the endpoint.
    pub closed spec fn spec_ep_type(&self) -> EndpointType {
        self.ep_type
    }

    /// The maximum packet size of the endpoint.
    pub closed spec fn spec_max_packet_size(&self) -> u16 {
        self.max_packet_size
    }

    /// The poll interval of the endpoint.
    pub closed spec fn spec_interval(&self) -> u8 {
        self.interval
    }

    /// The bus that the endpoint was allocated on.
    pub closed spec fn spec_bus(&self) -> &'a B {
        self.bus
    }

    /// Gets the endpoint address including direction bit.
    pub fn address(&self) -> (r: EndpointAddress)
        ensures
            r == self.spec_address(),
    {
        self.address
    }

    /// Gets the endpoint transfer type.
    pub fn ep_type(&self) -> (r: EndpointType)
        ensures
            r == self.spec_ep_type(),
    {
        self.ep_type
    }

    /// Gets the maximum packet size for the endpoint.
    pub fn max_packet_size(&self) -> (r: u16)
        ensures
            r == self.spec_max_packet_size(),
    {
        self.max_packet_size
    }

    /// Gets the poll interval for interrupt endpoints.
    pub fn interval(&self) -> (r: u8)
        ensures
            r == self.spec_interval(),
    {
        self.interval
    }

    /// Sets the STALL condition for the endpoint.
    pub fn stall(&self) {
        self.bus.set_stalled(self.address, true);
    }

    /// Clears the STALL condition of the endpoint.
    pub fn unstall(&self) {
        self.bus.set_stalled(self.address, false);
    }
}

impl<'a, B: UsbBus> Endpoint<'a, B, In> {
    /// Writes a single packet of data to the endpoint and returns number of bytes actually
    /// written. The buffer must not be longer than the `max_packet_size` specified when
    /// allocating the endpoint. Errors of the bus implementation are passed through.
    pub fn write(&self, data: &[u8]) -> Result<usize> {
        self.bus.write(self.address, data)
    }
}

impl<'a, B: UsbBus> Endpoint<'a, B, Out> {
    /// Reads a single packet of data from the endpoint and returns the actual length of the
    /// packet. Errors of the bus implementation are passed through.
    pub fn read(&self, data: &mut [u8]) -> Result<usize> {
        self.bus.read(self.address, data)
    }
}

/// Type-safe endpoint address.
#[derive(Debug, Clone, Copy, Eq, PartialEq, Structural)]
pub struct EndpointAddress(u8);

impl View for EndpointAddress {
    type V = u8;

    closed spec fn view(&self) -> u8 {
        self.0
    }
}

/// The address byte made of an endpoint index and a direction: the low 8 bits of the index with
/// the direction bit set for IN.
pub open spec fn address_byte(index: usize, dir: UsbDirection) -> u8 {
    (index as u8) | direction_bits(dir)
}

impl From<u8> for EndpointAddress {
    fn from(addr: u8) -> (r: EndpointAddress)
        ensures
            r@ == addr,
    {
        EndpointAddress(addr)
    }
}

impl vstd::std_specs::convert::FromSpecImpl<u8> for EndpointAddress {
    open spec fn obeys_from_spec() -> bool {
        true
    }

    closed spec fn from_spec(v: u8) -> EndpointAddress {
        EndpointAddress(v)
    }
}

impl From<EndpointAddress> for u8 {
    fn from(addr: EndpointAddress) -> (r: u8) {
        addr.0
    }
}

impl vstd::std_specs::convert::FromSpecImpl<EndpointAddress> for u8 {
    open spec fn obeys_from_spec() -> bool {
        true
    }

    open spec fn from_spec(v: EndpointAddress) -> u8 {
        v@
    }
}

impl EndpointAddress {
    /// The address whose byte is `b`.
    pub closed spec fn spec_from_byte(b: u8) -> EndpointAddress {
        EndpointAddress(b)
    }

    /// An address is the address of its own byte.
    pub proof fn lemma_spec_from_byte(a: EndpointAddress)
        ensures
            a == EndpointAddress::spec_from_byte(a@),
            EndpointAddress::spec_from_byte(a@)@ == a@,
    {
    }

    /// The address whose byte is `b`.
    pub fn from_byte(b: u8) -> (r: EndpointAddress)
        ensures
            r@ == b,
            r == EndpointAddress::spec_from_byte(b),
    {
        EndpointAddress(b)
    }

    /// Constructs a new EndpointAddress with the given index and direction.
    pub fn from_parts(index: usize, dir: UsbDirection) -> (r: Self)
        ensures
            r@ == address_byte(index, dir),
    {
        EndpointAddress((index as u8) | dir.bits())
    }

    /// Gets the direction part of the address.
    pub fn direction(&self) -> (r: UsbDirection)
        ensures
            r == (if self@ >= 0x80 { UsbDirection::In } else { UsbDirection::Out }),
    {
        let b = self.0;
        if (b & 0x80) != 0 {
            assert(b >= 0x80) by (bit_vector) requires (b & 0x80) != 0;
            UsbDirection::In
        } else {
            assert(b < 0x80) by (bit_vector) requires (b & 0x80) == 0;
            UsbDirection::Out
        }
    }

    /// Returns true if the direction is IN, otherwise false.
    pub fn is_in(&self) -> (r: bool)
        ensures
            r == (self@ >= 0x80),
    {
        let b = self.0;
        assert(((b & 0x80) != 0) == (b >= 0x80)) by (bit_vector);
        (b & 0x80) != 0
    }

    /// Returns true if the direction is OUT, otherwise false.
    pub fn is_out(&self) -> (r: bool)
        ensures
            r == (self@ < 0x80),
    {
        let b = self.0;
        assert(((b & 0x80) == 0) == (b < 0x80)) by (bit_vector);
        (b & 0x80) == 0
    }

    /// Gets the index part of the endpoint address.
    pub fn index(&self) -> (r: usize)
        ensures
            r == self@ % 128,
    {
        let b = self.0;
        assert(b & 0x7f == b % 128) by (bit_vector);
        (b & 0x7f) as usize
    }
}

/// An address made from an index below 128 and a direction gives back that index and that
/// direction.
pub proof fn lemma_address_parts_roundtrip(index: usize, dir: UsbDirection)
    requires
        index < 128,
    ensures
        address_byte(index, dir) % 128 == index,
        (address_byte(index, dir) >= 0x80) == (dir == UsbDirection::In),
{
    let i = index as u8;
    assert(i == index);
    assert((i | 0x80u8) % 128 == i && (i | 0x80u8) >= 0x80) by (bit_vector) requires i < 128;
    assert((i | 0x00u8) % 128 == i && (i | 0x00u8) < 0x80) by (bit_vector) requires i < 128;
}

/// Every address is either IN or OUT, never both.
pub proof fn lemma_address_in_xor_out(a: EndpointAddress)
    ensures
        (a@ >= 0x80) != (a@ < 0x80),
{
}

} // verus!
