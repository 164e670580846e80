use vstd::prelude::*;
use crate::bus::{InterfaceNumber, StringIndex, UsbBus, UsbBusAllocator};
use crate::class::{ControlIn, ControlOut, UsbClass};
use crate::control::{setup_bytes, Recipient, Request, RequestType};
use crate::control_pipe::{is_waiting, min_nat, ControlPipe};
use crate::descriptor::lang_id::LangID;
use crate::descriptor::{bump_at, descriptor_type, endpoint_descriptor_head, interface_descriptor_body, put_descriptor,
    DescriptorWriter};
use crate::device::{string_table, BuilderError, StringDescriptors, UsbDevice, UsbDeviceBuilder, UsbVidPid};
use crate::endpoint::{
    bm_attributes, Endpoint, EndpointAddress, EndpointDirection, EndpointIn, EndpointOut, EndpointType, In,
    IsochronousSynchronizationType,
    IsochronousUsageType, Out,
};
use crate::{Result, UsbError};

verus! {

/// Size of the control, bulk and interrupt buffers of the test class.
pub const BUFFER: usize = 256;
/// Maximum packet size of the control endpoint of a test device.
pub const CONTROL_ENDPOINT: u8 = 8;
/// Maximum packet size of the bulk endpoints.
pub const BULK_ENDPOINT: u16 = 64;
/// Maximum packet size of the interrupt endpoints.
pub const INTERRUPT_ENDPOINT: u16 = 31;

/// Vendor ID of a test device.
pub const VID: u16 = 0x16c0;
/// Product ID of a test device.
pub const PID: u16 = 0x05dc;
/// Manufacturer string of a test device.
pub const MANUFACTURER: &'static str = "TestClass Manufacturer";
/// Product string of a test device.
pub const PRODUCT: &'static str = "virkkunen.net usb-device TestClass";
/// Serial number string of a test device.
pub const SERIAL_NUMBER: &'static str = "TestClass Serial";
/// The custom string of the class.
pub const CUSTOM_STRING: &'static str = "TestClass Custom String";
/// The description string of the alternate setting of the interface.
pub const INTERFACE_STRING: &'static str = "TestClass Interface";

/// Vendor request: store the SETUP packet of this request in the control buffer.
pub const REQ_STORE_REQUEST: u8 = 1;
/// Vendor request: read the start of the control buffer.
pub const REQ_READ_BUFFER: u8 = 2;
/// Vendor request: write the data stage into the start of the control buffer.
pub const REQ_WRITE_BUFFER: u8 = 3;
/// Vendor request: enable (value not 0) or disable (value 0) bulk benchmarking.
pub const REQ_SET_BENCH_ENABLED: u8 = 4;
/// Vendor request: read [`LONG_DATA_LEN`] bytes of [`LONG_DATA_BYTE`].
pub const REQ_READ_LONG_DATA: u8 = 5;
/// A vendor request that the class does not know.
pub const REQ_UNKNOWN: u8 = 42;

/// The length of the long data.
pub const LONG_DATA_LEN: usize = 257;
/// The byte that the long data repeats.
pub const LONG_DATA_BYTE: u8 = 0x17;

/// The long data: [`LONG_DATA_LEN`] bytes of [`LONG_DATA_BYTE`], longer than the control buffer
/// of a test device so that it is sent from static data.
pub fn long_data() -> (r: &'static [u8])
    ensures
        r@ == Seq::new(LONG_DATA_LEN as nat, |i: int| LONG_DATA_BYTE),
{
    let data: &'static [u8] = &[0x17u8; 257];
    assert(data@ =~= Seq::new(LONG_DATA_LEN as nat, |i: int| LONG_DATA_BYTE));
    data
}

/// The first five bytes of the endpoint descriptor of an endpoint: its address, attributes,
/// maximum packet size and interval.
pub open spec fn endpoint_head<'b, B: UsbBus, D: EndpointDirection>(ep: Endpoint<'b, B, D>) -> Seq<u8> {
    endpoint_descriptor_head(ep.spec_address()@, bm_attributes(ep.spec_ep_type()), ep.spec_max_packet_size(),
        ep.spec_interval())
}

/// A way in which the bus or the host misbehaved in a test. The class records the first one and
/// then stops responding, so that the test fails.
#[derive(Copy, Clone, Eq, PartialEq, Structural, Debug)]
pub enum TestFailure {
    /// Reading the bulk OUT endpoint in benchmark mode failed.
    BulkBenchRead(UsbError),
    /// Writing the bulk IN endpoint in benchmark mode failed.
    BulkBenchWrite(UsbError),
    /// Data was read from the bulk OUT endpoint without an OUT event for it.
    UnexpectedBulkOut,
    /// Reading the bulk OUT endpoint failed.
    BulkRead(UsbError),
    /// Writing the bulk IN endpoint failed.
    BulkWrite(UsbError),
    /// The bus wrote another number of bytes than asked to the bulk IN endpoint.
    BulkWriteLength,
    /// Data was read from the interrupt OUT endpoint without an OUT event for it.
    UnexpectedInterruptOut,
    /// Reading the interrupt OUT endpoint failed.
    InterruptRead(UsbError),
    /// Writing the interrupt IN endpoint failed.
    InterruptWrite(UsbError),
    /// An IN packet completed that the class did not send.
    UnexpectedInComplete,
    /// Answering a control IN request failed.
    ControlIn(UsbError),
    /// Answering a control OUT request failed.
    ControlOut(UsbError),
    /// The data stage of a WRITE_BUFFER request was not as long as the request said.
    WriteBufferLength,
}

/// Test USB class for testing USB driver implementations. Supports various endpoint types and
/// requests for testing USB peripheral drivers on actual hardware.
pub struct TestClass<'a, B: UsbBus> {
    custom_string: StringIndex,
    interface_string: StringIndex,
    iface: InterfaceNumber,
    ep_bulk_in: EndpointIn<'a, B>,
    ep_bulk_out: EndpointOut<'a, B>,
    ep_interrupt_in: EndpointIn<'a, B>,
    ep_interrupt_out: EndpointOut<'a, B>,
    ep_iso_in: EndpointIn<'a, B>,
    control_buf: [u8; 256],
    bulk_buf: [u8; 256],
    interrupt_buf: [u8; 256],
    len: usize,
    i: usize,
    bench: bool,
    expect_bulk_in_complete: bool,
    expect_bulk_out: bool,
    expect_interrupt_in_complete: bool,
    expect_interrupt_out: bool,
    failure: Option<TestFailure>,
}

/// `dst` with `src` copied in at `at`.
pub open spec fn copied_in(dst: Seq<u8>, at: int, src: Seq<u8>) -> Seq<u8> {
    dst.take(at) + src + dst.skip(at + src.len())
}

/// Copies `src` into `dst` at `at`.
fn copy_into(dst: &mut [u8; 256], at: usize, src: &[u8])
    requires
        at + src@.len() <= 256,
    ensures
        final(dst)@ == copied_in(old(dst)@, at as int, src@),
{
    let n = src.len();
    let mut k: usize = 0;
    while k < n
        invariant
            k <= n,
            n == src@.len(),
            at + n <= 256,
            dst@.len() == 256,
            dst@ == copied_in(old(dst)@, at as int, src@.take(k as int)),
        decreases n - k,
    {
        let ghost before = dst@;
        dst[at + k] = src[k];
        proof {
            assert(src@.take(k + 1) =~= src@.take(k as int).push(src@[k as int]));
            assert(dst@ =~= copied_in(old(dst)@, at as int, src@.take(k + 1)));
        }
        k = k + 1;
    }
    proof {
        assert(src@.take(n as int) =~= src@);
    }
}

/// A buffer of `n` zero bytes.
fn zeros(n: usize) -> (r: Vec<u8>)
    ensures
        r@.len() == n,
{
    let mut v: Vec<u8> = Vec::new();
    let mut k: usize = 0;
    while k < n
        invariant
            k <= n,
            v@.len() == k,
        decreases n - k,
    {
        v.push(0u8);
        k = k + 1;
    }
    v
}

impl<'a, B: UsbBus> TestClass<'a, B> {
    /// The first failure of the test, if there was one.
    pub closed spec fn spec_failure(&self) -> Option<TestFailure> {
        self.failure
    }

    /// The control buffer.
    pub closed spec fn spec_control_buf(&self) -> Seq<u8> {
        self.control_buf@
    }

    /// Whether benchmark mode is on.
    pub closed spec fn spec_bench(&self) -> bool {
        self.bench
    }

    /// The index of the custom string.
    pub closed spec fn spec_custom_string(&self) -> StringIndex {
        self.custom_string
    }

    /// The index of the interface description string.
    pub closed spec fn spec_interface_string(&self) -> StringIndex {
        self.interface_string
    }

    /// The number of the interface.
    pub closed spec fn spec_iface(&self) -> InterfaceNumber {
        self.iface
    }

    /// The length of the bulk data being echoed.
    pub closed spec fn spec_len(&self) -> nat {
        self.len as nat
    }

    /// How much of the bulk data has been received or echoed so far.
    pub closed spec fn spec_i(&self) -> nat {
        self.i as nat
    }

    /// Whether the class waits for the completion of a bulk IN packet it sent.
    pub closed spec fn spec_expect_bulk_in(&self) -> bool {
        self.expect_bulk_in_complete
    }

    /// Whether the class was told of a bulk OUT packet it has not read yet.
    pub closed spec fn spec_expect_bulk_out(&self) -> bool {
        self.expect_bulk_out
    }

    /// Whether the class waits for the completion of an interrupt IN packet it sent.
    pub closed spec fn spec_expect_interrupt_in(&self) -> bool {
        self.expect_interrupt_in_complete
    }

    /// Whether the class was told of an interrupt OUT packet it has not read yet.
    pub closed spec fn spec_expect_interrupt_out(&self) -> bool {
        self.expect_interrupt_out
    }

    /// The address of the bulk IN endpoint.
    pub closed spec fn spec_bulk_in_address(&self) -> EndpointAddress {
        self.ep_bulk_in.spec_address()
    }

    /// The address of the bulk OUT endpoint.
    pub closed spec fn spec_bulk_out_address(&self) -> EndpointAddress {
        self.ep_bulk_out.spec_address()
    }

    /// The address of the interrupt IN endpoint.
    pub closed spec fn spec_interrupt_in_address(&self) -> EndpointAddress {
        self.ep_interrupt_in.spec_address()
    }

    /// The address of the interrupt OUT endpoint.
    pub closed spec fn spec_interrupt_out_address(&self) -> EndpointAddress {
        self.ep_interrupt_out.spec_address()
    }

    /// The maximum packet size of the bulk IN endpoint.
    pub closed spec fn spec_bulk_in_mps(&self) -> nat {
        self.ep_bulk_in.spec_max_packet_size() as nat
    }

    /// Whether `after` has the setup of `before`: strings, interface, endpoints, control buffer,
    /// benchmark mode and failure.
    pub closed spec fn same_setup(before: Self, after: Self) -> bool {
        &&& after.custom_string == before.custom_string
        &&& after.interface_string == before.interface_string
        &&& after.iface == before.iface
        &&& after.ep_bulk_in == before.ep_bulk_in
        &&& after.ep_bulk_out == before.ep_bulk_out
        &&& after.ep_interrupt_in == before.ep_interrupt_in
        &&& after.ep_interrupt_out == before.ep_interrupt_out
        &&& after.ep_iso_in == before.ep_iso_in
        &&& after.control_buf == before.control_buf
        &&& after.bench == before.bench
        &&& after.failure == before.failure
    }

    /// Whether `after` is what writing the next bulk IN packet gives from `before`, whatever the
    /// bus did with the packet: with nothing left to write (and no zero-length packet asked for)
    /// the echo ends; otherwise the packet of at most one maximum packet size is written and
    /// awaited, or the bus did not take it and nothing changes, or the test failed.
    pub open spec fn bulk_written(before: Self, after: Self, write_empty: bool) -> bool {
        let to_write = min_nat((before.spec_len() - before.spec_i()) as nat, before.spec_bulk_in_mps());
        if to_write == 0 && !write_empty {
            &&& Self::same_setup(before, after)
            &&& after.spec_len() == 0
            &&& after.spec_i() == 0
            &&& after.spec_expect_bulk_in() == before.spec_expect_bulk_in()
            &&& after.spec_expect_bulk_out() == before.spec_expect_bulk_out()
            &&& after.spec_expect_interrupt_in() == before.spec_expect_interrupt_in()
            &&& after.spec_expect_interrupt_out() == before.spec_expect_interrupt_out()
        } else {
            ||| after == before
            ||| (after.spec_failure() is Some && after.spec_control_buf() == before.spec_control_buf()
                && after.spec_bench() == before.spec_bench())
            ||| {
                &&& Self::same_setup(before, after)
                &&& after.spec_len() == before.spec_len()
                &&& after.spec_i() == before.spec_i() + to_write
                &&& after.spec_expect_bulk_in()
                &&& after.spec_expect_bulk_out() == before.spec_expect_bulk_out()
                &&& after.spec_expect_interrupt_in() == before.spec_expect_interrupt_in()
                &&& after.spec_expect_interrupt_out() == before.spec_expect_interrupt_out()
            }
        }
    }

    /// Whether `after` is `before` with, at most, another failure recorded.
    pub closed spec fn same_except_failure(before: Self, after: Self) -> bool {
        after == (TestClass { failure: after.failure, ..before })
    }

    /// The bulk IN endpoint.
    pub closed spec fn spec_ep_bulk_in(&self) -> EndpointIn<'a, B> {
        self.ep_bulk_in
    }

    /// The bulk OUT endpoint.
    pub closed spec fn spec_ep_bulk_out(&self) -> EndpointOut<'a, B> {
        self.ep_bulk_out
    }

    /// The interrupt IN endpoint.
    pub closed spec fn spec_ep_interrupt_in(&self) -> EndpointIn<'a, B> {
        self.ep_interrupt_in
    }

    /// The interrupt OUT endpoint.
    pub closed spec fn spec_ep_interrupt_out(&self) -> EndpointOut<'a, B> {
        self.ep_interrupt_out
    }

    /// The isochronous IN endpoint.
    pub closed spec fn spec_ep_iso_in(&self) -> EndpointIn<'a, B> {
        self.ep_iso_in
    }

    /// The buffer `bytes` once the class has written its descriptors at `pos`, 53 bytes in all,
    /// where the interface count of the configuration descriptor is at `mark`: the vendor-specific
    /// interface (adding one to the interface count) with its bulk and interrupt endpoints (each
    /// adding one to the interface's endpoint count), then its alternate setting 1 (sub-class 1,
    /// with the interface string) with the isochronous endpoint.
    pub open spec fn configuration_written(&self, bytes: Seq<u8>, pos: int, mark: int) -> Seq<u8> {
        let b1 = put_descriptor(bump_at(bytes, mark), pos, descriptor_type::INTERFACE,
            interface_descriptor_body(self.spec_iface()@, 0, 0xff, 0, 0, 0));
        let b2 = put_descriptor(bump_at(b1, pos + 4), pos + 9, descriptor_type::ENDPOINT, endpoint_head(self.spec_ep_bulk_in()));
        let b3 = put_descriptor(bump_at(b2, pos + 4), pos + 16, descriptor_type::ENDPOINT, endpoint_head(self.spec_ep_bulk_out()));
        let b4 = put_descriptor(bump_at(b3, pos + 4), pos + 23, descriptor_type::ENDPOINT, endpoint_head(self.spec_ep_interrupt_in()));
        let b5 = put_descriptor(bump_at(b4, pos + 4), pos + 30, descriptor_type::ENDPOINT, endpoint_head(self.spec_ep_interrupt_out()));
        let b6 = put_descriptor(b5, pos + 37, descriptor_type::INTERFACE,
            interface_descriptor_body(self.spec_iface()@, 1, 0xff, 1, 0, self.spec_interface_string()@));
        put_descriptor(bump_at(b6, pos + 41), pos + 46, descriptor_type::ENDPOINT, endpoint_head(self.spec_ep_iso_in()))
    }

    /// Whether the transfer state of the class (counters and expected events) is reset.
    pub closed spec fn is_idle(&self) -> bool {
        &&& self.len == 0
        &&& self.i == 0
        &&& !self.bench
        &&& !self.expect_bulk_in_complete
        &&& !self.expect_bulk_out
        &&& !self.expect_interrupt_in_complete
        &&& !self.expect_interrupt_out
    }

    /// Creates a new TestClass: allocates two strings, an interface, bulk and interrupt
    /// endpoints in both directions and an isochronous IN endpoint. Fails with the error of the
    /// first endpoint allocation that the bus refuses.
    pub fn new(alloc: &mut UsbBusAllocator<'a, B>) -> (r: Result<TestClass<'a, B>>)
        requires
            old(alloc).spec_next_string() < 254,
            old(alloc).spec_next_interface() < 255,
        ensures
            final(alloc).spec_next_string() == old(alloc).spec_next_string() + 2,
            final(alloc).spec_next_interface() == old(alloc).spec_next_interface() + 1,
            final(alloc).spec_bus() == old(alloc).spec_bus(),
            r matches Ok(c) ==> {
                &&& c.spec_custom_string()@ == old(alloc).spec_next_string()
                &&& c.spec_interface_string()@ == old(alloc).spec_next_string() + 1
                &&& c.spec_iface()@ == old(alloc).spec_next_interface()
                &&& c.spec_control_buf() == Seq::new(256, |i: int| 0u8)
                &&& c.spec_failure() is None
                &&& c.is_idle()
            },
    {
        let custom_string = alloc.string();
        let interface_string = alloc.string();
        let iface = alloc.interface();
        let ep_bulk_in = match alloc.bulk::<In>(BULK_ENDPOINT) {
            Ok(ep) => ep,
            Err(e) => return Err(e),
        };
        let ep_bulk_out = match alloc.bulk::<Out>(BULK_ENDPOINT) {
            Ok(ep) => ep,
            Err(e) => return Err(e),
        };
        let ep_interrupt_in = match alloc.interrupt::<In>(INTERRUPT_ENDPOINT, 1) {
            Ok(ep) => ep,
            Err(e) => return Err(e),
        };
        let ep_interrupt_out = match alloc.interrupt::<Out>(INTERRUPT_ENDPOINT, 1) {
            Ok(ep) => ep,
            Err(e) => return Err(e),
        };
        // The last two arguments are arbitrary in this usage; they let the host know how much
        // bandwidth to reserve.
        let ep_iso_in = match alloc.isochronous::<In>(
            IsochronousSynchronizationType::Asynchronous,
            IsochronousUsageType::ImplicitFeedbackData,
            500,
            1,
        ) {
            Ok(ep) => ep,
            Err(e) => return Err(e),
        };
        let c = TestClass {
            custom_string,
            interface_string,
            iface,
            ep_bulk_in,
            ep_bulk_out,
            ep_interrupt_in,
            ep_interrupt_out,
            ep_iso_in,
            control_buf: [0u8; 256],
            bulk_buf: [0u8; 256],
            interrupt_buf: [0u8; 256],
            len: 0,
            i: 0,
            bench: false,
            expect_bulk_in_complete: false,
            expect_bulk_out: false,
            expect_interrupt_in_complete: false,
            expect_interrupt_out: false,
            failure: None,
        };
        assert(c.control_buf@ =~= Seq::new(256, |i: int| 0u8));
        Ok(c)
    }

    /// Convenience method to create a UsbDeviceBuilder that is configured correctly for
    /// TestClass: the test vendor and product IDs, the manufacturer, product and serial number
    /// strings in US English, an 8-byte control endpoint and a 256-byte control buffer. If you
    /// change the manufacturer, product, or serial number fields, the test host may misbehave.
    pub fn make_device_builder(&self, usb_bus: &'a UsbBusAllocator<'a, B>) -> (r: UsbDeviceBuilder<'a, B>)
        ensures
            r.spec_alloc() == usb_bus,
            r.spec_buffer().len() == BUFFER,
            r.spec_config().vendor_id == VID,
            r.spec_config().product_id == PID,
            r.spec_config().max_packet_size_0 == CONTROL_ENDPOINT,
            string_table(r.spec_config().string_descriptors).len() == 1,
            string_table(r.spec_config().string_descriptors)[0].spec_id() == LangID::EN_US,
            string_table(r.spec_config().string_descriptors)[0].spec_manufacturer() == Some(MANUFACTURER),
            string_table(r.spec_config().string_descriptors)[0].spec_product() == Some(PRODUCT),
            string_table(r.spec_config().string_descriptors)[0].spec_serial() == Some(SERIAL_NUMBER),
    {
        let builder = UsbDeviceBuilder::new(usb_bus, UsbVidPid(VID, PID), zeros(BUFFER));
        let strings: [StringDescriptors<'a>; 1] = [
            StringDescriptors::default().manufacturer(MANUFACTURER).product(PRODUCT).serial_number(SERIAL_NUMBER),
        ];
        builder.strings(strings.as_slice()).unwrap().max_packet_size_0(CONTROL_ENDPOINT).unwrap()
    }

    /// Convenience method to create a UsbDevice that is configured correctly for TestClass; see
    /// [`Self::make_device_builder`]. Fails when the bus refuses the control endpoints.
    pub fn make_device(&self, usb_bus: &'a UsbBusAllocator<'a, B>) -> (r: core::result::Result<UsbDevice<'a, B>, BuilderError>)
        ensures
            r matches Err(e) ==> e == BuilderError::ControlEndpointAllocation,
            r matches Ok(dev) ==> dev.inv() && dev.spec_bus() == usb_bus.spec_bus(),
    {
        self.make_device_builder(usb_bus).build()
    }

    /// The first failure of the test, if there was one.
    pub fn failure(&self) -> (r: Option<TestFailure>)
        ensures
            r == self.spec_failure(),
    {
        self.failure
    }

    /// Records the first failure of the test.
    fn fail(&mut self, failure: TestFailure)
        ensures
            *final(self) == (TestClass { failure: Some(failure), ..*old(self) }),
    {
        self.failure = Some(failure);
    }

    /// What handling a read of the bulk OUT endpoint in benchmark mode that gave `read`, into
    /// `packet`, gives from `before`, and whether the test goes on (`r`): a packet is kept at the
    /// start of the bulk buffer, no packet changes nothing, and an error, or a length longer than
    /// the space given, fails the test.
    pub closed spec fn bench_read(before: Self, after: Self, read: Result<usize>, packet: Seq<u8>, r: bool) -> bool {
        &&& r == (after.failure is None)
        &&& match read {
            Ok(count) => if count <= BUFFER && count <= packet.len() {
                after == (TestClass { bulk_buf: after.bulk_buf, ..before })
                    && after.bulk_buf@ == copied_in(before.bulk_buf@, 0, packet.take(count as int))
            } else {
                after == (TestClass { failure: Some(TestFailure::BulkBenchRead(UsbError::BufferOverflow)), ..before })
            },
            Err(UsbError::WouldBlock) => after == before,
            Err(e) => after == (TestClass { failure: Some(TestFailure::BulkBenchRead(e)), ..before }),
        }
    }

    /// What handling a write of the bulk IN endpoint in benchmark mode that gave `written` gives
    /// from `before`: only an error other than `WouldBlock` fails the test.
    pub closed spec fn bench_write_done(before: Self, after: Self, written: Result<usize>) -> bool {
        match written {
            Err(e) => if e == UsbError::WouldBlock {
                after == before
            } else {
                after == (TestClass { failure: Some(TestFailure::BulkBenchWrite(e)), ..before })
            },
            Ok(_) => after == before,
        }
    }

    /// What handling a read of the bulk OUT endpoint that gave `read`, into `packet` (the space
    /// after the data so far), gives from `before`, and whether to echo the data then (`r`, with
    /// whether to echo with a zero-length packet): data that the class was told of is added to
    /// the bulk buffer, and a packet shorter than the maximum packet size ends the data; data the
    /// class was not told of, a read error, or a length longer than the space given fails the
    /// test; no packet changes nothing.
    pub closed spec fn bulk_read(before: Self, after: Self, read: Result<usize>, packet: Seq<u8>, r: Option<bool>) -> bool {
        match read {
            Ok(count) => if !before.expect_bulk_out {
                r is None && after == (TestClass { failure: Some(TestFailure::UnexpectedBulkOut), ..before })
            } else if count > packet.len() || count > BUFFER - before.i {
                r is None && after == (TestClass {
                    failure: Some(TestFailure::BulkRead(UsbError::BufferOverflow)),
                    expect_bulk_out: false,
                    ..before
                })
            } else {
                let i2 = (before.i + count) as usize;
                &&& after.bulk_buf@ == copied_in(before.bulk_buf@, before.i as int, packet.take(count as int))
                &&& if count < before.ep_bulk_out.spec_max_packet_size() {
                    &&& r == Some(count == 0)
                    &&& after == (TestClass { bulk_buf: after.bulk_buf, expect_bulk_out: false, len: i2, i: 0, ..before })
                } else {
                    &&& r is None
                    &&& after == (TestClass { bulk_buf: after.bulk_buf, expect_bulk_out: false, i: i2, ..before })
                }
            },
            Err(UsbError::WouldBlock) => r is None && after == before,
            Err(e) => r is None && after == (TestClass { failure: Some(TestFailure::BulkRead(e)), ..before }),
        }
    }

    /// What handling a read of the interrupt OUT endpoint that gave `read`, into `packet`, gives
    /// from `before`, and the length of the packet to echo (`r`): data that the class was told
    /// of is kept at the start of the interrupt buffer; data the class was not told of, a read
    /// error, or a length longer than the space given fails the test; no packet changes nothing.
    pub closed spec fn interrupt_read(before: Self, after: Self, read: Result<usize>, packet: Seq<u8>, r: Option<usize>) -> bool {
        &&& r matches Some(count) ==> count <= BUFFER
        &&& match read {
            Ok(count) => if !before.expect_interrupt_out {
                r is None && after == (TestClass { failure: Some(TestFailure::UnexpectedInterruptOut), ..before })
            } else if count > BUFFER || count > packet.len() {
                r is None && after == (TestClass {
                    failure: Some(TestFailure::InterruptRead(UsbError::BufferOverflow)),
                    expect_interrupt_out: false,
                    ..before
                })
            } else {
                &&& r == Some(count)
                &&& after.interrupt_buf@ == copied_in(before.interrupt_buf@, 0, packet.take(count as int))
                &&& after == (TestClass { interrupt_buf: after.interrupt_buf, expect_interrupt_out: false, ..before })
            },
            Err(UsbError::WouldBlock) => r is None && after == before,
            Err(e) => r is None && after == (TestClass { failure: Some(TestFailure::InterruptRead(e)), ..before }),
        }
    }

    /// What handling the write of the echoed interrupt packet that gave `written` gives from
    /// `before`: the class then waits for its completion, or the test fails with the error.
    pub closed spec fn interrupt_echo_done(before: Self, after: Self, written: Result<usize>) -> bool {
        match written {
            Ok(_) => after == (TestClass { expect_interrupt_in_complete: true, ..before }),
            Err(e) => after == (TestClass { failure: Some(TestFailure::InterruptWrite(e)), ..before }),
        }
    }

    /// What writing the next packet of the echoed bulk data gives from `before`; see
    /// [`Self::bulk_written`].
    pub closed spec fn bulk_in_step(before: Self, after: Self, write_empty: bool) -> bool {
        &&& before.spec_failure() is Some ==> after == before
        &&& after.spec_failure() is None ==> before.spec_failure() is None
        &&& after.spec_control_buf() == before.spec_control_buf()
        &&& after.spec_bench() == before.spec_bench()
        &&& before.spec_failure() is None && before.spec_i() <= before.spec_len() <= BUFFER
            ==> Self::bulk_written(before, after, write_empty)
        &&& before.spec_failure() is None && !(before.spec_i() <= before.spec_len() <= BUFFER)
            ==> after.spec_failure() == Some(TestFailure::BulkWrite(UsbError::BufferOverflow))
    }

    /// What a poll in benchmark mode gives from `before`, for some outcome of the bus's read and
    /// write: the packet read is handled ([`Self::bench_read`]); when the test goes on, a full
    /// packet from the start of the bulk buffer is written ([`Self::bench_write_done`]), or the
    /// test fails when the maximum packet size is larger than the buffer.
    pub closed spec fn bench_polled(before: Self, after: Self) -> bool {
        exists|read: Result<usize>, packet: Seq<u8>, mid: Self, r: bool| {
            &&& #[trigger] Self::bench_read(before, mid, read, packet, r)
            &&& if !r {
                after == mid
            } else if mid.ep_bulk_in.spec_max_packet_size() > BUFFER {
                after == (TestClass { failure: Some(TestFailure::BulkBenchWrite(UsbError::BufferOverflow)), ..mid })
            } else {
                exists|written: Result<usize>| #[trigger] Self::bench_write_done(mid, after, written)
            }
        }
    }

    /// What the bulk part of an echoing poll gives from `before`, for some outcome of the bus's
    /// read and writes: the packet read is handled ([`Self::bulk_read`]), and once the data ends
    /// its echo starts ([`Self::bulk_in_step`]).
    pub closed spec fn bulk_polled(before: Self, after: Self) -> bool {
        exists|read: Result<usize>, packet: Seq<u8>, mid: Self, r: Option<bool>| {
            &&& #[trigger] Self::bulk_read(before, mid, read, packet, r)
            &&& match r {
                Some(write_empty) => Self::bulk_in_step(mid, after, write_empty),
                None => after == mid,
            }
        }
    }

    /// What the interrupt part of an echoing poll gives from `before`, for some outcome of the
    /// bus's read and write: after a failure nothing; otherwise the packet read is handled
    /// ([`Self::interrupt_read`]) and echoed ([`Self::interrupt_echo_done`]).
    pub closed spec fn interrupt_polled(before: Self, after: Self) -> bool {
        if before.failure is Some {
            after == before
        } else {
            exists|read: Result<usize>, packet: Seq<u8>, mid: Self, r: Option<usize>| {
                &&& #[trigger] Self::interrupt_read(before, mid, read, packet, r)
                &&& match r {
                    Some(_) => exists|written: Result<usize>| #[trigger] Self::interrupt_echo_done(mid, after, written),
                    None => after == mid,
                }
            }
        }
    }

    /// What an echoing poll gives from `before`: its bulk part, then its interrupt part.
    pub closed spec fn echo_polled(before: Self, after: Self) -> bool {
        exists|mid: Self| #[trigger] Self::bulk_polled(before, mid) && Self::interrupt_polled(mid, after)
    }

    /// Must be called after polling the UsbDevice. In benchmark mode, reads a packet from the bulk
    /// OUT endpoint and writes a full packet to the bulk IN endpoint. Otherwise collects data from
    /// the bulk OUT endpoint until a short packet ends it and then starts echoing it to the bulk
    /// IN endpoint, and echoes each packet of the interrupt OUT endpoint to the interrupt IN
    /// endpoint. After a failure nothing happens.
    pub fn poll(&mut self)
        ensures
            old(self).spec_failure() is Some ==> *final(self) == *old(self),
            final(self).spec_failure() is None ==> old(self).spec_failure() is None,
            final(self).spec_control_buf() == old(self).spec_control_buf(),
            final(self).spec_bench() == old(self).spec_bench(),
            old(self).spec_failure() is None && !old(self).spec_bench() && old(self).spec_i() > BUFFER
                ==> final(self).spec_failure() == Some(TestFailure::BulkRead(UsbError::BufferOverflow))
                    && Self::same_except_failure(*old(self), *final(self)),
            old(self).spec_failure() is None && old(self).spec_bench() ==> Self::bench_polled(*old(self), *final(self)),
            old(self).spec_failure() is None && !old(self).spec_bench() && old(self).spec_i() <= BUFFER
                ==> Self::echo_polled(*old(self), *final(self)),
            old(self).spec_bench() ==> {
                &&& final(self).spec_len() == old(self).spec_len()
                &&& final(self).spec_i() == old(self).spec_i()
                &&& final(self).spec_expect_bulk_in() == old(self).spec_expect_bulk_in()
                &&& final(self).spec_expect_bulk_out() == old(self).spec_expect_bulk_out()
                &&& final(self).spec_expect_interrupt_in() == old(self).spec_expect_interrupt_in()
                &&& final(self).spec_expect_interrupt_out() == old(self).spec_expect_interrupt_out()
            },
    {
        if self.failure.is_some() {
            return;
        }
        if self.bench {
            let mut packet = zeros(BUFFER);
            let read = self.ep_bulk_out.read(packet.as_mut_slice());
            if !self.bench_received(read, packet.as_slice()) {
                return;
            }
            let mps = self.ep_bulk_in.max_packet_size() as usize;
            if mps > BUFFER {
                self.fail(TestFailure::BulkBenchWrite(UsbError::BufferOverflow));
                return;
            }
            let written = self.ep_bulk_in.write(self.bulk_packet(0, mps));
            self.bench_written(written);
            return;
        }
        let temp_i = self.i;
        if temp_i > BUFFER {
            self.fail(TestFailure::BulkRead(UsbError::BufferOverflow));
            return;
        }
        let ghost s0 = *self;
        let mut packet = zeros(BUFFER - temp_i);
        let read = self.ep_bulk_out.read(packet.as_mut_slice());
        let echo = self.bulk_received(read, packet.as_slice());
        let ghost s1 = *self;
        match echo {
            Some(write_empty) => {
                self.write_bulk_in(write_empty);
            },
            None => {},
        }
        let ghost s2 = *self;
        proof {
            assert(Self::bulk_read(s0, s1, read, packet@, echo));
            assert(Self::bulk_polled(s0, s2));
        }
        if self.failure.is_some() {
            proof {
                assert(Self::interrupt_polled(s2, *self));
                assert(Self::echo_polled(s0, *self));
            }
            return;
        }
        let mut packet = zeros(BUFFER);
        let read = self.ep_interrupt_out.read(packet.as_mut_slice());
        let received = self.interrupt_received(read, packet.as_slice());
        let ghost s3 = *self;
        match received {
            Some(count) => {
                let written = self.ep_interrupt_in.write(self.interrupt_packet(count));
                self.interrupt_echoed(written);
                proof {
                    assert(Self::interrupt_echo_done(s3, *self, written));
                }
            },
            None => {},
        }
        proof {
            assert(Self::interrupt_read(s2, s3, read, packet@, received));
            assert(Self::interrupt_polled(s2, *self));
            assert(Self::echo_polled(s0, *self));
        }
    }

    /// Handles what reading the bulk OUT endpoint in benchmark mode gave: a packet is kept at the
    /// start of the bulk buffer, no packet changes nothing, and an error, or a length longer than
    /// the space given, fails the test. Returns whether the test goes on.
    fn bench_received(&mut self, read: Result<usize>, packet: &[u8]) -> (r: bool)
        requires
            old(self).failure is None,
        ensures
            Self::bench_read(*old(self), *final(self), read, packet@, r),
    {
        match read {
            Ok(count) => {
                if count > BUFFER || count > packet.len() {
                    self.fail(TestFailure::BulkBenchRead(UsbError::BufferOverflow));
                    return false;
                }
                copy_into(&mut self.bulk_buf, 0, vstd::slice::slice_subrange(packet, 0, count));
                true
            },
            Err(UsbError::WouldBlock) => true,
            Err(err) => {
                self.fail(TestFailure::BulkBenchRead(err));
                false
            },
        }
    }

    /// Handles what writing the bulk IN endpoint in benchmark mode gave: only an error other than
    /// `WouldBlock` fails the test.
    fn bench_written(&mut self, written: Result<usize>)
        ensures
            Self::bench_write_done(*old(self), *final(self), written),
    {
        match written {
            Ok(_) | Err(UsbError::WouldBlock) => {},
            Err(err) => {
                self.fail(TestFailure::BulkBenchWrite(err));
            },
        }
    }

    /// Handles what reading the bulk OUT endpoint gave, `packet` being the space after the data
    /// so far. Data that the class was told of is added to the bulk buffer; a packet shorter than
    /// the maximum packet size ends the data, which is then to be echoed (returned: whether to
    /// echo with a zero-length packet, for empty last packets). Data the class was not told of,
    /// a read error, or a length longer than the space given fails the test; no packet changes
    /// nothing.
    fn bulk_received(&mut self, read: Result<usize>, packet: &[u8]) -> (r: Option<bool>)
        requires
            old(self).failure is None,
            old(self).i <= BUFFER,
        ensures
            Self::bulk_read(*old(self), *final(self), read, packet@, r),
    {
        let temp_i = self.i;
        match read {
            Ok(count) => {
                if self.expect_bulk_out {
                    self.expect_bulk_out = false;
                } else {
                    self.fail(TestFailure::UnexpectedBulkOut);
                    return None;
                }
                if count > packet.len() || count > BUFFER - temp_i {
                    self.fail(TestFailure::BulkRead(UsbError::BufferOverflow));
                    return None;
                }
                copy_into(&mut self.bulk_buf, temp_i, vstd::slice::slice_subrange(packet, 0, count));
                self.i = temp_i + count;
                if count < self.ep_bulk_out.max_packet_size() as usize {
                    self.len = self.i;
                    self.i = 0;
                    return Some(count == 0);
                }
                None
            },
            Err(UsbError::WouldBlock) => None,
            Err(err) => {
                self.fail(TestFailure::BulkRead(err));
                None
            },
        }
    }

    /// Handles what reading the interrupt OUT endpoint gave: data that the class was told of is
    /// kept at the start of the interrupt buffer, to be echoed (returned: its length). Data the
    /// class was not told of, a read error, or a length longer than the space given fails the
    /// test; no packet changes nothing.
    fn interrupt_received(&mut self, read: Result<usize>, packet: &[u8]) -> (r: Option<usize>)
        requires
            old(self).failure is None,
        ensures
            Self::interrupt_read(*old(self), *final(self), read, packet@, r),
    {
        match read {
            Ok(count) => {
                if self.expect_interrupt_out {
                    self.expect_interrupt_out = false;
                } else {
                    self.fail(TestFailure::UnexpectedInterruptOut);
                    return None;
                }
                if count > BUFFER || count > packet.len() {
                    self.fail(TestFailure::InterruptRead(UsbError::BufferOverflow));
                    return None;
                }
                copy_into(&mut self.interrupt_buf, 0, vstd::slice::slice_subrange(packet, 0, count));
                Some(count)
            },
            Err(UsbError::WouldBlock) => None,
            Err(err) => {
                self.fail(TestFailure::InterruptRead(err));
                None
            },
        }
    }

    /// Handles what writing the echoed interrupt packet gave: the class then waits for its
    /// completion, or the test fails with the error.
    fn interrupt_echoed(&mut self, written: Result<usize>)
        ensures
            Self::interrupt_echo_done(*old(self), *final(self), written),
    {
        match written {
            Ok(_) => {
                self.expect_interrupt_in_complete = true;
            },
            Err(err) => {
                self.fail(TestFailure::InterruptWrite(err));
            },
        }
    }

    /// The `count` bytes of the bulk buffer from `start`: what a bulk IN packet sends.
    fn bulk_packet(&self, start: usize, count: usize) -> (r: &[u8])
        requires
            start + count <= BUFFER,
        ensures
            r@ == self.bulk_buf@.subrange(start as int, start + count),
    {
        vstd::slice::slice_subrange(self.bulk_buf.as_slice(), start, start + count)
    }

    /// The first `count` bytes of the interrupt buffer: what an interrupt IN packet sends.
    fn interrupt_packet(&self, count: usize) -> (r: &[u8])
        requires
            count <= BUFFER,
        ensures
            r@ == self.interrupt_buf@.take(count as int),
    {
        vstd::slice::slice_subrange(self.interrupt_buf.as_slice(), 0, count)
    }

    /// Writes the next packet of the echoed bulk data: at most one full packet of what remains.
    /// When nothing remains the transfer ends, unless `write_empty` asks for a zero-length packet.
    fn write_bulk_in(&mut self, write_empty: bool)
        ensures
            Self::bulk_in_step(*old(self), *final(self), write_empty),
    {
        if self.failure.is_some() {
            return;
        }
        if self.i > self.len || self.len > BUFFER {
            self.fail(TestFailure::BulkWrite(UsbError::BufferOverflow));
            return;
        }
        let mps = self.ep_bulk_in.max_packet_size() as usize;
        let rest = self.len - self.i;
        let to_write = if rest < mps { rest } else { mps };
        if to_write == 0 && !write_empty {
            self.len = 0;
            self.i = 0;
            return;
        }
        match self.ep_bulk_in.write(self.bulk_packet(self.i, to_write)) {
            Ok(count) => {
                if count != to_write {
                    self.fail(TestFailure::BulkWriteLength);
                    return;
                }
                self.expect_bulk_in_complete = true;
                self.i = self.i + count;
            },
            Err(UsbError::WouldBlock) => {},
            Err(err) => {
                self.fail(TestFailure::BulkWrite(err));
            },
        }
    }

    /// Stores the SETUP packet of `req` in the first 8 bytes of the control buffer.
    fn store_request(&mut self, req: &Request)
        ensures
            final(self).spec_control_buf() == copied_in(old(self).spec_control_buf(), 0, setup_bytes(*req)),
            final(self).spec_failure() == old(self).spec_failure(),
            final(self).spec_bench() == old(self).spec_bench(),
    {
        let bytes = req.to_bytes();
        copy_into(&mut self.control_buf, 0, bytes.as_slice());
    }

    /// Stores `data` at the start of the control buffer.
    fn store_data(&mut self, data: &[u8])
        requires
            data@.len() <= BUFFER,
        ensures
            final(self).spec_control_buf() == copied_in(old(self).spec_control_buf(), 0, data@),
            final(self).spec_failure() == old(self).spec_failure(),
            final(self).spec_bench() == old(self).spec_bench(),
    {
        copy_into(&mut self.control_buf, 0, data);
    }
}

/// What answering the test request `req` on the control pipe `p` gives: READ_BUFFER (for at most
/// the class's buffer) answers with that many bytes of the control buffer, which works when an IN
/// request waits and the bytes fit in the pipe's buffer; READ_LONG_DATA answers with the long
/// data, which works when an IN request waits; any other request is refused, which works when a
/// request waits. Otherwise the answer fails with the pipe's error.
pub open spec fn test_in_answer<'a, B: UsbBus>(req: Request, p: ControlPipe<'a, B>) -> Result<()> {
    if req.request == REQ_READ_BUFFER && req.length <= BUFFER {
        if !(p.spec_state() is CompleteIn) {
            Err(UsbError::InvalidState)
        } else if req.length > p.spec_buf().len() {
            Err(UsbError::BufferOverflow)
        } else {
            Ok(())
        }
    } else if req.request == REQ_READ_LONG_DATA {
        if p.spec_state() is CompleteIn { Ok(()) } else { Err(UsbError::InvalidState) }
    } else {
        if is_waiting(p.spec_state()) { Ok(()) } else { Err(UsbError::InvalidState) }
    }
}

/// Whether the control pipe `p0` became `p1` by the test class's answer to the test request
/// `req`, with `control_buf` the class's control buffer: READ_BUFFER (for at most the class's
/// buffer) answers with that many bytes of `control_buf`, READ_LONG_DATA with the long data, sent
/// from static data, and any other request is refused, each as the handle states and with the
/// result that [`test_in_answer`] gives.
pub open spec fn test_in_answered<'a, B: UsbBus>(req: Request, p0: ControlPipe<'a, B>, p1: ControlPipe<'a, B>, control_buf: Seq<u8>) -> bool {
    if req.request == REQ_READ_BUFFER && req.length <= BUFFER {
        ControlPipe::answered(p0, p1, test_in_answer(req, p0), control_buf.take(req.length as int))
    } else if req.request == REQ_READ_LONG_DATA {
        if p0.spec_state() is CompleteIn {
            ControlPipe::in_transfer_started(p0, p1, p0.spec_state()->CompleteIn_0, LONG_DATA_LEN as nat,
                Some(Seq::new(LONG_DATA_LEN as nat, |i: int| LONG_DATA_BYTE)), p0.spec_buf())
        } else {
            p1 == p0
        }
    } else {
        ControlPipe::rejected(p0, p1, test_in_answer(req, p0))
    }
}

/// Whether the test class accepts the OUT test request `req` whose data stage brought `data`:
/// STORE_REQUEST, SET_BENCH_ENABLED, and WRITE_BUFFER with data of the length the request gives
/// that fits in the class's buffer. WRITE_BUFFER with data of another length fails the test
/// unanswered; any other request is refused.
pub open spec fn test_out_accepted(req: Request, data: Seq<u8>) -> bool {
    ||| req.request == REQ_STORE_REQUEST
    ||| req.request == REQ_SET_BENCH_ENABLED
    ||| (req.request == REQ_WRITE_BUFFER && data.len() <= BUFFER && data.len() == req.length)
}

/// Whether the OUT test request `req` with data `data` is left unanswered: WRITE_BUFFER with data
/// that fits in the class's buffer but is not of the length the request gives.
pub open spec fn test_out_unanswered(req: Request, data: Seq<u8>) -> bool {
    req.request == REQ_WRITE_BUFFER && data.len() <= BUFFER && data.len() != req.length
}

/// What answering the OUT test request `req` with data `data` on the control pipe `p` gives: an
/// accepted request works when an OUT request waits, a refused one when a request waits;
/// otherwise the answer fails with `InvalidState`.
pub open spec fn test_out_answer<'a, B: UsbBus>(req: Request, data: Seq<u8>, p: ControlPipe<'a, B>) -> Result<()> {
    if test_out_accepted(req, data) {
        if p.spec_state() is CompleteOut { Ok(()) } else { Err(UsbError::InvalidState) }
    } else {
        if is_waiting(p.spec_state()) { Ok(()) } else { Err(UsbError::InvalidState) }
    }
}

/// Whether the control pipe `p0` became `p1` by the test class's answer to the OUT test request
/// `req` with data `data`: accepted, refused or left as it is, as [`test_out_accepted`] and
/// [`test_out_unanswered`] say, each as the handle states.
pub open spec fn test_out_answered<'a, B: UsbBus>(req: Request, data: Seq<u8>, p0: ControlPipe<'a, B>, p1: ControlPipe<'a, B>) -> bool {
    if test_out_unanswered(req, data) {
        p1 == p0
    } else if test_out_accepted(req, data) {
        ControlPipe::accepted_out(p0, p1, test_out_answer(req, data, p0))
    } else {
        ControlPipe::rejected(p0, p1, test_out_answer(req, data, p0))
    }
}

/// What WRITE_BUFFER stores, READ_BUFFER reads back: once data of up to the class's buffer size
/// is copied to the start of the control buffer `buf` (as the class does for WRITE_BUFFER with
/// data of the announced length), a READ_BUFFER request for that many bytes is answered on the
/// control pipe with exactly that data.
pub proof fn lemma_write_then_read_buffer<'a, B: UsbBus>(
    buf: Seq<u8>,
    data: Seq<u8>,
    req: Request,
    p0: ControlPipe<'a, B>,
    p1: ControlPipe<'a, B>,
)
    requires
        buf.len() == BUFFER,
        data.len() <= BUFFER,
        req.request == REQ_READ_BUFFER,
        req.length == data.len(),
        test_in_answered(req, p0, p1, copied_in(buf, 0, data)),
    ensures
        ControlPipe::answered(p0, p1, test_in_answer(req, p0), data),
{
    assert(copied_in(buf, 0, data).take(data.len() as int) =~= data);
}

/// Whether a request is a vendor request for the device, the only ones the test class answers.
pub open spec fn is_test_request(req: Request) -> bool {
    req.request_type == RequestType::Vendor && req.recipient == Recipient::Device
}

impl<'a, B: UsbBus> UsbClass<B> for TestClass<'a, B> {
    fn reset(&mut self)
        ensures
            final(self).is_idle(),
            final(self).spec_failure() == old(self).spec_failure(),
            final(self).spec_control_buf() == old(self).spec_control_buf(),
    {
        self.len = 0;
        self.i = 0;
        self.bench = false;
        self.expect_bulk_in_complete = false;
        self.expect_bulk_out = false;
        self.expect_interrupt_in_complete = false;
        self.expect_interrupt_out = false;
    }

    fn get_configuration_descriptors(&self, writer: &mut DescriptorWriter) -> (r: Result<()>)
        ensures
            (r is Ok) == (old(writer).interfaces_mark() is Some && old(writer).pos() + 53 <= old(writer).bytes().len()),
            old(writer).interfaces_mark() is None ==> r == Err::<(), UsbError>(UsbError::InvalidState),
            old(writer).interfaces_mark() is Some && old(writer).pos() + 53 > old(writer).bytes().len()
                ==> r == Err::<(), UsbError>(UsbError::BufferOverflow),
            r is Ok ==> {
                &&& final(writer).bytes() == self.configuration_written(old(writer).bytes(), old(writer).pos() as int,
                    old(writer).interfaces_mark().unwrap() as int)
                &&& final(writer).pos() == old(writer).pos() + 53
                &&& final(writer).endpoints_mark() == Some((old(writer).pos() + 41) as usize)
            },
    {
        let _ = writer.position();
        let ghost w0 = *writer;
        match writer.interface(self.iface, 0xff, 0x00, 0x00) {
            Ok(()) => {},
            Err(e) => return Err(e),
        }
        let ghost w1 = *writer;
        let r = writer.endpoint(&self.ep_bulk_in);
        proof { DescriptorWriter::lemma_extends_trans(w0, w1, *writer); }
        if r.is_err() {
            return r;
        }
        let ghost w2 = *writer;
        let r = writer.endpoint(&self.ep_bulk_out);
        proof { DescriptorWriter::lemma_extends_trans(w0, w2, *writer); }
        if r.is_err() {
            return r;
        }
        let ghost w3 = *writer;
        let r = writer.endpoint(&self.ep_interrupt_in);
        proof { DescriptorWriter::lemma_extends_trans(w0, w3, *writer); }
        if r.is_err() {
            return r;
        }
        let ghost w4 = *writer;
        let r = writer.endpoint(&self.ep_interrupt_out);
        proof { DescriptorWriter::lemma_extends_trans(w0, w4, *writer); }
        if r.is_err() {
            return r;
        }
        let ghost w5 = *writer;
        let r = writer.interface_alt(self.iface, 1, 0xff, 0x01, 0x00, Some(self.interface_string));
        proof { DescriptorWriter::lemma_extends_trans(w0, w5, *writer); }
        if r.is_err() {
            return r;
        }
        let ghost w6 = *writer;
        let r = writer.endpoint(&self.ep_iso_in);
        proof { DescriptorWriter::lemma_extends_trans(w0, w6, *writer); }
        r
    }

    fn get_string(&self, index: StringIndex, lang_id: LangID) -> (r: Option<&str>)
        ensures
            r == (if lang_id == LangID::EN_US && index == self.spec_custom_string() {
                Some(CUSTOM_STRING)
            } else if lang_id == LangID::EN_US && index == self.spec_interface_string() {
                Some(INTERFACE_STRING)
            } else {
                None
            }),
    {
        if lang_id == LangID::EN_US {
            if index == self.custom_string {
                return Some(CUSTOM_STRING);
            } else if index == self.interface_string {
                return Some(INTERFACE_STRING);
            }
        }
        None
    }

    fn endpoint_in_complete(&mut self, addr: EndpointAddress)
        ensures
            old(self).spec_failure() is Some || old(self).spec_bench() ==> *final(self) == *old(self),
            final(self).spec_control_buf() == old(self).spec_control_buf(),
            old(self).spec_failure() is None && !old(self).spec_bench() ==> {
                if addr == old(self).spec_bulk_in_address() {
                    if old(self).spec_expect_bulk_in() {
                        // The next packet of the echo goes out.
                        old(self).spec_i() <= old(self).spec_len() <= BUFFER ==> exists|mid: Self| {
                            &&& Self::same_setup(*old(self), mid)
                            &&& mid.spec_len() == old(self).spec_len()
                            &&& mid.spec_i() == old(self).spec_i()
                            &&& !mid.spec_expect_bulk_in()
                            &&& mid.spec_expect_bulk_out() == old(self).spec_expect_bulk_out()
                            &&& mid.spec_expect_interrupt_in() == old(self).spec_expect_interrupt_in()
                            &&& mid.spec_expect_interrupt_out() == old(self).spec_expect_interrupt_out()
                            &&& #[trigger] Self::bulk_written(mid, *final(self), false)
                        }
                    } else {
                        final(self).spec_failure() == Some(TestFailure::UnexpectedInComplete)
                    }
                } else if addr == old(self).spec_interrupt_in_address() {
                    if old(self).spec_expect_interrupt_in() {
                        &&& Self::same_setup(*old(self), *final(self))
                        &&& !final(self).spec_expect_interrupt_in()
                        &&& final(self).spec_len() == old(self).spec_len()
                        &&& final(self).spec_i() == old(self).spec_i()
                        &&& final(self).spec_expect_bulk_in() == old(self).spec_expect_bulk_in()
                        &&& final(self).spec_expect_bulk_out() == old(self).spec_expect_bulk_out()
                        &&& final(self).spec_expect_interrupt_out() == old(self).spec_expect_interrupt_out()
                    } else {
                        final(self).spec_failure() == Some(TestFailure::UnexpectedInComplete)
                    }
                } else {
                    *final(self) == *old(self)
                }
            },
    {
        if self.failure.is_some() || self.bench {
            return;
        }
        if addr == self.ep_bulk_in.address() {
            if self.expect_bulk_in_complete {
                self.expect_bulk_in_complete = false;
                let ghost mid = *self;
                self.write_bulk_in(false);
                assert(mid.spec_i() <= mid.spec_len() <= BUFFER ==> Self::bulk_written(mid, *self, false));
            } else {
                self.fail(TestFailure::UnexpectedInComplete);
            }
        } else if addr == self.ep_interrupt_in.address() {
            if self.expect_interrupt_in_complete {
                self.expect_interrupt_in_complete = false;
            } else {
                self.fail(TestFailure::UnexpectedInComplete);
            }
        }
    }

    fn endpoint_out(&mut self, addr: EndpointAddress)
        ensures
            Self::same_setup(*old(self), *final(self)),
            final(self).spec_failure() == old(self).spec_failure(),
            final(self).spec_control_buf() == old(self).spec_control_buf(),
            final(self).spec_len() == old(self).spec_len(),
            final(self).spec_i() == old(self).spec_i(),
            final(self).spec_expect_bulk_in() == old(self).spec_expect_bulk_in(),
            final(self).spec_expect_interrupt_in() == old(self).spec_expect_interrupt_in(),
            final(self).spec_expect_bulk_out() == (old(self).spec_expect_bulk_out()
                || addr == old(self).spec_bulk_out_address()),
            final(self).spec_expect_interrupt_out() == (old(self).spec_expect_interrupt_out()
                || (addr != old(self).spec_bulk_out_address() && addr == old(self).spec_interrupt_out_address())),
    {
        if addr == self.ep_bulk_out.address() {
            self.expect_bulk_out = true;
        } else if addr == self.ep_interrupt_out.address() {
            self.expect_interrupt_out = true;
        }
    }

    fn control_in(&mut self, xfer: ControlIn<'_, '_, '_, B>)
        ensures
            final(self).spec_control_buf() == old(self).spec_control_buf(),
            final(self).spec_bench() == old(self).spec_bench(),
            !is_test_request(xfer.spec_request()) || old(self).spec_failure() is Some ==> *final(self) == *old(self)
                && *final(xfer.pipe) == xfer.spec_pipe(),
            is_test_request(xfer.spec_request()) && old(self).spec_failure() is None ==> {
                &&& test_in_answered(xfer.spec_request(), xfer.spec_pipe(), *final(xfer.pipe), old(self).spec_control_buf())
                &&& Self::same_except_failure(*old(self), *final(self))
                &&& final(self).spec_failure() == match test_in_answer(xfer.spec_request(), xfer.spec_pipe()) {
                    Ok(()) => None,
                    Err(e) => Some(TestFailure::ControlIn(e)),
                }
            },
    {
        let req = *xfer.request();
        if self.failure.is_some() || !(req.request_type == RequestType::Vendor && req.recipient == Recipient::Device) {
            return;
        }
        let r = if req.request == REQ_READ_BUFFER && req.length as usize <= BUFFER {
            xfer.accept_with(vstd::slice::slice_subrange(self.control_buf.as_slice(), 0, req.length as usize))
        } else if req.request == REQ_READ_LONG_DATA {
            xfer.accept_with_static(long_data())
        } else {
            xfer.reject()
        };
        match r {
            Ok(()) => {},
            Err(e) => self.fail(TestFailure::ControlIn(e)),
        }
    }

    fn control_out(&mut self, xfer: ControlOut<'_, '_, '_, B>)
        ensures
            final(self).spec_failure() is None ==> old(self).spec_failure() is None,
            !is_test_request(xfer.spec_request()) || old(self).spec_failure() is Some ==> *final(self) == *old(self)
                && *final(xfer.pipe) == xfer.spec_pipe(),
            is_test_request(xfer.spec_request()) && old(self).spec_failure() is None ==> {
                let req = xfer.spec_request();
                let data = xfer.spec_pipe().spec_buf().take(
                    min_nat(xfer.spec_pipe().spec_len(), xfer.spec_pipe().spec_buf().len()) as int);
                &&& test_out_answered(req, data, xfer.spec_pipe(), *final(xfer.pipe))
                &&& final(self).spec_failure() == if test_out_unanswered(req, data) {
                    Some(TestFailure::WriteBufferLength)
                } else {
                    match test_out_answer(req, data, xfer.spec_pipe()) {
                        Ok(()) => None,
                        Err(e) => Some(TestFailure::ControlOut(e)),
                    }
                }
                &&& if req.request == REQ_STORE_REQUEST {
                    &&& final(self).spec_control_buf() == copied_in(old(self).spec_control_buf(), 0, setup_bytes(req))
                    &&& final(self).spec_bench() == old(self).spec_bench()
                } else if req.request == REQ_WRITE_BUFFER && data.len() <= BUFFER {
                    &&& (data.len() == req.length ==> final(self).spec_control_buf() == copied_in(old(self).spec_control_buf(), 0, data))
                    &&& (data.len() != req.length ==> final(self).spec_failure() == Some(TestFailure::WriteBufferLength)
                        && final(self).spec_control_buf() == old(self).spec_control_buf())
                    &&& final(self).spec_bench() == old(self).spec_bench()
                } else if req.request == REQ_SET_BENCH_ENABLED {
                    &&& final(self).spec_bench() == (req.value != 0)
                    &&& final(self).spec_control_buf() == old(self).spec_control_buf()
                } else {
                    &&& final(self).spec_control_buf() == old(self).spec_control_buf()
                    &&& final(self).spec_bench() == old(self).spec_bench()
                }
            },
    {
        let req = *xfer.request();
        if self.failure.is_some() || !(req.request_type == RequestType::Vendor && req.recipient == Recipient::Device) {
            return;
        }
        let r = if req.request == REQ_STORE_REQUEST {
            self.store_request(&req);
            xfer.accept()
        } else if req.request == REQ_WRITE_BUFFER && xfer.data().len() <= BUFFER {
            let data = xfer.data();
            if data.len() != req.length as usize {
                self.fail(TestFailure::WriteBufferLength);
                return;
            }
            self.store_data(data);
            xfer.accept()
        } else if req.request == REQ_SET_BENCH_ENABLED {
            self.bench = req.value != 0;
            xfer.accept()
        } else {
            xfer.reject()
        };
        match r {
            Ok(()) => {},
            Err(e) => self.fail(TestFailure::ControlOut(e)),
        }
    }
}

} // verus!
