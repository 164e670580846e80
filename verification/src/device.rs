use vstd::prelude::*;
use crate::bus::{InterfaceNumber, PollResult, StringIndex, UsbBus, UsbBusAllocator};
use crate::class::{ControlIn, ControlOut, UsbClass};
use crate::control::{Recipient, Request, RequestType};
use crate::control_pipe::{is_waiting, ControlPipe, ControlState};
use crate::descriptor::lang_id::{lang_code, lang_of_code, LangID};
use crate::descriptor::{bos_start, configuration_descriptor_body, put_total_length, descriptor_bytes, descriptor_type, device_descriptor_body, lemma_put_descriptor_at_start,
    put_descriptor, string_body, BosWriter, DescriptorWriter};
pub use crate::device_builder::{BuilderError, StringDescriptors, UsbDeviceBuilder, UsbVidPid};
use crate::endpoint::{address_byte, EndpointAddress, EndpointType};
use crate::{Result, UsbDirection, UsbError};

verus! {

/// The global state of the USB device.
///
/// In general class traffic is only possible in the `Configured` state.
#[derive(PartialEq, Eq, Copy, Clone, Debug, Structural)]
pub enum UsbDeviceState {
    /// The USB device has just been created or reset.
    Default,
    /// The USB device has received an address from the host.
    Addressed,
    /// The USB device has been configured and is fully functional.
    Configured,
    /// The USB device has been suspended by the host or it has been unplugged from the USB bus.
    Suspend,
}

/// Maximum number of endpoints in one direction. Specified by the USB specification.
pub const MAX_ENDPOINTS: usize = 16;

/// Usb spec revision.
#[derive(Debug, Clone, Copy, PartialEq, Eq, PartialOrd, Ord, Structural)]
pub enum UsbRev {
    /// USB 1.0 compliance
    Usb100,
    /// USB 1.1 compliance
    Usb110,
    /// USB 2.0 compliance
    Usb200,
    /// USB 2.1 compliance.
    ///
    /// Typically adds support for BOS requests.
    Usb210,
}

/// The bcdUSB value of a revision.
pub open spec fn usb_rev_bcd(r: UsbRev) -> u16 {
    match r {
        UsbRev::Usb100 => 0x100u16,
        UsbRev::Usb110 => 0x110u16,
        UsbRev::Usb200 => 0x200u16,
        UsbRev::Usb210 => 0x210u16,
    }
}

impl UsbRev {
    /// The bcdUSB value of this revision.
    pub fn bcd(&self) -> (r: u16)
        ensures
            r == usb_rev_bcd(*self),
    {
        match self {
            UsbRev::Usb100 => 0x100,
            UsbRev::Usb110 => 0x110,
            UsbRev::Usb200 => 0x200,
            UsbRev::Usb210 => 0x210,
        }
    }
}

/// The bConfiguration value for the not configured state.
pub const CONFIGURATION_NONE: u8 = 0;

/// The bConfiguration value for the single configuration supported by this device.
pub const CONFIGURATION_VALUE: u8 = 1;

/// The default value for bAlternateSetting for all interfaces.
pub const DEFAULT_ALTERNATE_SETTING: u8 = 0;

#[verifier::external_type_specification]
#[verifier::external_body]
#[verifier::reject_recursive_types(T)]
pub struct ExHeaplessVec<T, const N: usize>(heapless::Vec<T, N>);

/// The languages, in order, that a table of string descriptors holds.
pub uninterp spec fn string_table(v: heapless::Vec<StringDescriptors<'_>, 16>) -> Seq<StringDescriptors<'_>>;

/// Calls `heapless::Vec::new`: an empty table.
#[verifier::external_body]
pub(crate) fn string_table_new<'a>() -> (r: heapless::Vec<StringDescriptors<'a>, 16>)
    ensures
        string_table(r) == Seq::<StringDescriptors<'a>>::empty(),
{
    heapless::Vec::new()
}

/// Calls `heapless::Vec::from_slice`: fails, holding nothing, when the slice has more items than
/// the capacity of 16; otherwise the table holds the items of the slice in order (they are
/// `Copy`, so their clones are the items themselves).
#[verifier::external_body]
pub(crate) fn string_table_from_slice<'a>(items: &[StringDescriptors<'a>]) -> (r: core::result::Result<heapless::Vec<StringDescriptors<'a>, 16>, ()>)
    ensures
        r is Ok <==> items@.len() <= 16,
        r matches Ok(v) ==> string_table(v) == items@,
{
    heapless::Vec::from_slice(items)
}

/// Calls `heapless::Vec::as_slice`: the items of the table, in order; a table never holds more
/// than its capacity of 16.
#[verifier::external_body]
pub(crate) fn string_table_as_slice<'b, 'a>(v: &'b heapless::Vec<StringDescriptors<'a>, 16>) -> (r: &'b [StringDescriptors<'a>])
    ensures
        r@ == string_table(*v),
        r@.len() <= 16,
{
    v.as_slice()
}

/// The settings of a device that its descriptors report.
pub struct Config<'a> {
    /// bDeviceClass
    pub device_class: u8,
    /// bDeviceSubClass
    pub device_sub_class: u8,
    /// bDeviceProtocol
    pub device_protocol: u8,
    /// bMaxPacketSize0
    pub max_packet_size_0: u8,
    /// idVendor
    pub vendor_id: u16,
    /// idProduct
    pub product_id: u16,
    /// bcdUSB
    pub usb_rev: UsbRev,
    /// bcdDevice
    pub device_release: u16,
    /// The strings of the device in each language.
    pub string_descriptors: heapless::Vec<StringDescriptors<'a>, 16>,
    /// Whether the device may have an external power source.
    pub self_powered: bool,
    /// Whether the device supports remotely waking up the host.
    pub supports_remote_wakeup: bool,
    /// Whether the device is composite with interface association descriptors.
    pub composite_with_iads: bool,
    /// bMaxPower, in units of 2 mA.
    pub max_power: u8,
}

} // verus!

verus! {

/// The classes of a device, in the order they are offered each event.
pub type ClassList<'c, B> = [&'c mut dyn UsbClass<B>];

/// The state and the state before a suspend that an event other than packet traffic leaves a
/// device in: while suspended, only a suspend or no event leave it suspended, and any other event
/// resumes it into its state before the suspend first; a reset returns it to `Default`; a suspend
/// remembers the current state.
pub open spec fn event_state(state: UsbDeviceState, suspended: Option<UsbDeviceState>, pr: PollResult)
    -> (UsbDeviceState, Option<UsbDeviceState>)
{
    if state == UsbDeviceState::Suspend && (pr is Suspend || pr is NoEvent) {
        (state, suspended)
    } else {
        let s1 = if state == UsbDeviceState::Suspend { suspended.unwrap() } else { state };
        let sus1 = if state == UsbDeviceState::Suspend { None } else { suspended };
        match pr {
            PollResult::Reset => (UsbDeviceState::Default, None),
            PollResult::Suspend => (UsbDeviceState::Suspend, Some(s1)),
            _ => (s1, sus1),
        }
    }
}

/// Whether bit `i` of `x` is set.
pub open spec fn bit_set(x: u16, i: u16) -> bool {
    (x >> i) & 1u16 == 1u16
}

/// An event on a non-control endpoint.
#[derive(Copy, Clone, Eq, PartialEq, Structural, Debug)]
pub enum EndpointEvent {
    /// A SETUP packet arrived on the endpoint.
    Setup(EndpointAddress),
    /// An OUT packet arrived on the endpoint.
    Out(EndpointAddress),
    /// An IN packet was sent on the endpoint.
    InComplete(EndpointAddress),
}

/// The events that the bit fields of a data event report for endpoint `i`: a SETUP packet or
/// else an OUT packet on the OUT endpoint, then a completed IN packet on the IN endpoint.
pub open spec fn events_at(ep_out: u16, ep_in_complete: u16, ep_setup: u16, i: u16) -> Seq<EndpointEvent> {
    let out_addr = address_byte(i as usize, UsbDirection::Out);
    let in_addr = address_byte(i as usize, UsbDirection::In);
    let first: Seq<EndpointEvent> = if bit_set(ep_setup, i) {
        seq![EndpointEvent::Setup(EndpointAddress::spec_from_byte(out_addr))]
    } else if bit_set(ep_out, i) {
        seq![EndpointEvent::Out(EndpointAddress::spec_from_byte(out_addr))]
    } else {
        Seq::empty()
    };
    let second: Seq<EndpointEvent> = if bit_set(ep_in_complete, i) {
        seq![EndpointEvent::InComplete(EndpointAddress::spec_from_byte(in_addr))]
    } else {
        Seq::empty()
    };
    first + second
}

/// The events of endpoints 1 up to (not including) `n`, in order of endpoint number.
pub open spec fn events_below(ep_out: u16, ep_in_complete: u16, ep_setup: u16, n: u16) -> Seq<EndpointEvent>
    decreases n,
{
    if n <= 1 {
        Seq::empty()
    } else {
        events_below(ep_out, ep_in_complete, ep_setup, (n - 1) as u16) + events_at(ep_out, ep_in_complete, ep_setup, (n - 1) as u16)
    }
}

/// The events that the bit fields of a data event report for the endpoints other than endpoint 0.
pub open spec fn endpoint_events(ep_out: u16, ep_in_complete: u16, ep_setup: u16) -> Seq<EndpointEvent> {
    events_below(ep_out, ep_in_complete, ep_setup, MAX_ENDPOINTS as u16)
}

/// The events that the bit fields of a data event report for the endpoints other than endpoint 0,
/// in order of endpoint number.
pub fn decode_endpoint_events(ep_out: u16, ep_in_complete: u16, ep_setup: u16) -> (r: Vec<EndpointEvent>)
    ensures
        r@ == endpoint_events(ep_out, ep_in_complete, ep_setup),
{
    let mut events: Vec<EndpointEvent> = Vec::new();
    let mut i: u16 = 1;
    while i < MAX_ENDPOINTS as u16
        invariant
            1 <= i <= MAX_ENDPOINTS,
            events@ == events_below(ep_out, ep_in_complete, ep_setup, i),
        decreases MAX_ENDPOINTS - i,
    {
        let out_addr = EndpointAddress::from_parts(i as usize, UsbDirection::Out);
        let in_addr = EndpointAddress::from_parts(i as usize, UsbDirection::In);
        let ghost before = events@;
        if (ep_setup >> i) & 1 == 1 {
            events.push(EndpointEvent::Setup(out_addr));
        } else if (ep_out >> i) & 1 == 1 {
            events.push(EndpointEvent::Out(out_addr));
        }
        if (ep_in_complete >> i) & 1 == 1 {
            events.push(EndpointEvent::InComplete(in_addr));
        }
        proof {
            EndpointAddress::lemma_spec_from_byte(out_addr);
            EndpointAddress::lemma_spec_from_byte(in_addr);
            assert(events@ =~= before + events_at(ep_out, ep_in_complete, ep_setup, i));
        }
        i = i + 1;
    }
    events
}

/// A USB device consisting of one or more device classes.
pub struct UsbDevice<'a, B: UsbBus> {
    bus: &'a B,
    config: Config<'a>,
    control: ControlPipe<'a, B>,
    device_state: UsbDeviceState,
    remote_wakeup_enabled: bool,
    self_powered: bool,
    suspended_device_state: Option<UsbDeviceState>,
    pending_address: u8,
}

impl<'a, B: UsbBus> UsbDevice<'a, B> {
    /// The device's own invariant: it is suspended exactly when it remembers a state to resume
    /// into, which is never `Suspend` itself, and a pending address is a valid address or 0.
    pub open spec fn inv(&self) -> bool {
        &&& (self.spec_state() == UsbDeviceState::Suspend) == (self.spec_suspended() is Some)
        &&& (self.spec_suspended() matches Some(s) ==> s != UsbDeviceState::Suspend)
        &&& self.spec_pending_address() <= 127
    }

    /// The state of the device.
    pub closed spec fn spec_state(&self) -> UsbDeviceState {
        self.device_state
    }

    /// The state the device was in before it was suspended, while it is suspended.
    pub closed spec fn spec_suspended(&self) -> Option<UsbDeviceState> {
        self.suspended_device_state
    }

    /// Whether the host enabled remote wakeup.
    pub closed spec fn spec_remote_wakeup(&self) -> bool {
        self.remote_wakeup_enabled
    }

    /// Whether the device is self powered.
    pub closed spec fn spec_self_powered(&self) -> bool {
        self.self_powered
    }

    /// The address that the host assigned and that takes effect once the status stage of its
    /// request completes; 0 when there is none.
    pub closed spec fn spec_pending_address(&self) -> u8 {
        self.pending_address
    }

    /// The settings of the device.
    pub closed spec fn spec_config(&self) -> Config<'a> {
        self.config
    }

    /// Whether `after` has the same state, remembered state, flags, pending address, settings and
    /// bus as `before` (its control pipe may differ).
    pub open spec fn same_device(before: Self, after: Self) -> bool {
        &&& after.spec_state() == before.spec_state()
        &&& after.spec_suspended() == before.spec_suspended()
        &&& after.spec_remote_wakeup() == before.spec_remote_wakeup()
        &&& after.spec_self_powered() == before.spec_self_powered()
        &&& after.spec_pending_address() == before.spec_pending_address()
        &&& after.spec_config() == before.spec_config()
        &&& after.spec_bus() == before.spec_bus()
    }

    /// The control pipe of the device.
    pub closed spec fn spec_pipe(&self) -> ControlPipe<'a, B> {
        self.control
    }

    /// The bus of the device.
    pub closed spec fn spec_bus(&self) -> &'a B {
        self.bus
    }

    pub(crate) fn build(alloc: &UsbBusAllocator<'a, B>, config: Config<'a>, control_buffer: Vec<u8>)
        -> (r: core::result::Result<UsbDevice<'a, B>, BuilderError>)
        requires
            control_buffer@.len() + 1024 <= usize::MAX,
        ensures
            r matches Ok(dev) ==> {
                &&& dev.inv()
                &&& dev.spec_state() == UsbDeviceState::Default
                &&& dev.spec_suspended() is None
                &&& !dev.spec_remote_wakeup()
                &&& !dev.spec_self_powered()
                &&& dev.spec_pending_address() == 0
                &&& dev.spec_pipe().spec_state() == ControlState::Idle
                &&& dev.spec_pipe().spec_buf() == control_buffer@
                &&& dev.spec_pipe().spec_mps() == config.max_packet_size_0
                &&& dev.spec_bus() == alloc.spec_bus()
                &&& dev.spec_config() == config
            },
            r matches Err(e) ==> e == BuilderError::ControlEndpointAllocation,
    {
        let mps = config.max_packet_size_0 as u16;
        let control_out = match alloc.alloc_endpoint(Some(EndpointAddress::from_byte(0x00)), EndpointType::Control, mps, 0) {
            Ok(ep) => ep,
            Err(_) => return Err(BuilderError::ControlEndpointAllocation),
        };
        let control_in = match alloc.alloc_endpoint(Some(EndpointAddress::from_byte(0x80)), EndpointType::Control, mps, 0) {
            Ok(ep) => ep,
            Err(_) => return Err(BuilderError::ControlEndpointAllocation),
        };
        let bus = alloc.freeze();
        Ok(UsbDevice {
            bus,
            config,
            control: ControlPipe::new(control_buffer, control_out, control_in),
            device_state: UsbDeviceState::Default,
            remote_wakeup_enabled: false,
            self_powered: false,
            suspended_device_state: None,
            pending_address: 0,
        })
    }

    /// Gets a reference to the [`UsbBus`] implementation used by this `UsbDevice`.
    pub fn bus(&self) -> (r: &'a B)
        ensures
            r == self.spec_bus(),
    {
        self.bus
    }

    /// Gets the current state of the device.
    ///
    /// In general class traffic is only possible in the `Configured` state.
    pub fn state(&self) -> (r: UsbDeviceState)
        ensures
            r == self.spec_state(),
    {
        self.device_state
    }

    /// Gets whether host remote wakeup has been enabled by the host.
    pub fn remote_wakeup_enabled(&self) -> (r: bool)
        ensures
            r == self.spec_remote_wakeup(),
    {
        self.remote_wakeup_enabled
    }

    /// Gets whether the device is currently self powered.
    pub fn self_powered(&self) -> (r: bool)
        ensures
            r == self.spec_self_powered(),
    {
        self.self_powered
    }

    /// Sets whether the device is currently self powered.
    pub fn set_self_powered(&mut self, is_self_powered: bool)
        ensures
            final(self).spec_self_powered() == is_self_powered,
            final(self).spec_state() == old(self).spec_state(),
            final(self).spec_suspended() == old(self).spec_suspended(),
            final(self).spec_remote_wakeup() == old(self).spec_remote_wakeup(),
            final(self).spec_pending_address() == old(self).spec_pending_address(),
            final(self).spec_pipe() == old(self).spec_pipe(),
    {
        self.self_powered = is_self_powered;
    }

    /// Simulates a disconnect from the USB bus, causing the host to reset and re-enumerate the
    /// device. The bus decides whether it can.
    pub fn force_reset(&mut self) -> (r: Result<()>)
        ensures
            *final(self) == *old(self),
    {
        self.bus.force_reset()
    }
}

} // verus!

verus! {

/// Whether the control pipe `p0` became `p1` and gave `r` by reading a packet from endpoint 0:
/// a SETUP packet when the bit of endpoint 0 is set in `ep_setup`, otherwise an OUT packet. With
/// no packet nothing changes, a failed read fails the transfer, and a packet read is handled as
/// the control pipe states.
pub open spec fn ep0_read<'a, B: UsbBus>(p0: ControlPipe<'a, B>, p1: ControlPipe<'a, B>, r: Option<Request>, ep_setup: u16) -> bool {
    let setup = ep_setup % 2 != 0;
    ||| (r is None && p1 == p0)
    ||| (r is None && ControlPipe::only_state(p0, p1, ControlState::Error))
    ||| (setup && exists|packet: Seq<u8>| #[trigger] ControlPipe::setup_handled(p0, p1, packet, r))
    ||| (!setup && exists|packet: Seq<u8>| #[trigger] ControlPipe::out_packet_handled(p0, p1, packet, r))
}

/// `data` when it fits in `len` bytes and in a one-byte descriptor length (255 bytes), else
/// `BufferOverflow`.
pub open spec fn fitting(data: Seq<u8>, len: nat) -> core::result::Result<Seq<u8>, UsbError> {
    if data.len() <= len && data.len() <= 255 {
        Ok(data)
    } else {
        Err(UsbError::BufferOverflow)
    }
}

/// The language codes of a table of strings, two little-endian bytes each, in order.
pub open spec fn lang_id_bytes(langs: Seq<StringDescriptors>) -> Seq<u8>
    decreases langs.len(),
{
    if langs.len() == 0 {
        Seq::empty()
    } else {
        let code = lang_code(langs.last().spec_id());
        lang_id_bytes(langs.drop_last()) + seq![(code % 256) as u8, (code / 256) as u8]
    }
}

/// Whether `k` is the position of the first language of `langs` that is `id`.
pub open spec fn is_first_lang(langs: Seq<StringDescriptors>, id: LangID, k: int) -> bool {
    &&& 0 <= k < langs.len()
    &&& langs[k].spec_id() == id
    &&& forall|j: int| 0 <= j < k ==> langs[j].spec_id() != id
}

/// The position of the first language of `langs` that is `id`, if there is one.
pub open spec fn first_lang(langs: Seq<StringDescriptors>, id: LangID) -> Option<int> {
    if exists|k: int| #[trigger] is_first_lang(langs, id, k) {
        Some(choose|k: int| #[trigger] is_first_lang(langs, id, k))
    } else {
        None
    }
}

/// There is at most one first position of a language.
proof fn lemma_first_lang_unique(langs: Seq<StringDescriptors>, id: LangID, a: int, b: int)
    requires
        is_first_lang(langs, id, a),
        is_first_lang(langs, id, b),
    ensures
        a == b,
{
    if a < b {
        assert(langs[a].spec_id() != id);
    } else if b < a {
        assert(langs[b].spec_id() != id);
    }
}

/// The manufacturer (1), product (2) or serial number (any other index) string of a language.
pub open spec fn lang_string<'s>(d: StringDescriptors<'s>, index: u8) -> Option<&'s str> {
    if index == 1 {
        d.spec_manufacturer()
    } else if index == 2 {
        d.spec_product()
    } else {
        d.spec_serial()
    }
}

/// Whether `after` and `r` are what answering the IN request that `before` waits for with a
/// descriptor gives, where `written` is the descriptor or the error met while writing it:
/// `InvalidState` and no change unless an IN request waits, the error and no change when the
/// descriptor could not be written, and otherwise the answer with the descriptor.
pub open spec fn descriptor_answered<'a, B: UsbBus>(
    before: ControlPipe<'a, B>,
    after: ControlPipe<'a, B>,
    r: Result<()>,
    written: core::result::Result<Seq<u8>, UsbError>,
) -> bool {
    if !(before.spec_state() is CompleteIn) {
        r == Err::<(), UsbError>(UsbError::InvalidState) && after == before
    } else {
        match written {
            Ok(data) => ControlPipe::answered(before, after, r, data),
            Err(e) => r == Err::<(), UsbError>(e) && after == before,
        }
    }
}

/// Whether `after` and `r` are what answering the IN request that `before` waits for with the
/// BOS descriptor gives: `InvalidState` and no change unless an IN request waits,
/// `BufferOverflow` and no change when the BOS header and the USB 2.0 extension capability do not
/// fit, and otherwise an error of a class with no change or the answer with a BOS descriptor that
/// holds what the classes wrote ([`bos_data`]).
pub open spec fn bos_answered<'a, B: UsbBus>(
    before: ControlPipe<'a, B>,
    after: ControlPipe<'a, B>,
    r: Result<()>,
) -> bool {
    if !(before.spec_state() is CompleteIn) {
        r == Err::<(), UsbError>(UsbError::InvalidState) && after == before
    } else if 12 > before.spec_buf().len() {
        r == Err::<(), UsbError>(UsbError::BufferOverflow) && after == before
    } else {
        ||| (r is Err && after == before)
        ||| exists|data: Seq<u8>| #[trigger] bos_data(data) && data.len() <= before.spec_buf().len()
            && ControlPipe::answered(before, after, r, data)
    }
}

/// Whether `after` and `r` are what answering the IN request that `before` waits for with the
/// configuration descriptor gives: `InvalidState` and no change unless an IN request waits,
/// `BufferOverflow` and no change when the 9-byte configuration descriptor does not fit, and
/// otherwise an error of a class with no change or the answer with a configuration descriptor
/// that holds what the classes wrote ([`configuration_data`]).
pub open spec fn configuration_answered<'a, B: UsbBus>(
    config: Config<'a>,
    before: ControlPipe<'a, B>,
    after: ControlPipe<'a, B>,
    r: Result<()>,
) -> bool {
    if !(before.spec_state() is CompleteIn) {
        r == Err::<(), UsbError>(UsbError::InvalidState) && after == before
    } else if 9 > before.spec_buf().len() {
        r == Err::<(), UsbError>(UsbError::BufferOverflow) && after == before
    } else {
        ||| (r is Err && after == before)
        ||| exists|data: Seq<u8>| #[trigger] configuration_data(config, data) && data.len() <= before.spec_buf().len()
            && ControlPipe::answered(before, after, r, data)
    }
}

/// Whether `after` and `r` are what answering a GET_DESCRIPTOR request `req` for a device with
/// settings `config` gives, from the control pipe `before`.
///
/// The descriptor type is the high byte of the request's value and the descriptor index its low
/// byte. A BOS descriptor (for devices above USB 2.0) and the configuration descriptor are
/// written by the device and its classes together. The device descriptor is the device's own.
/// String descriptor 0 lists the codes of the languages the device has strings in; strings 1 to
/// 3 are the manufacturer, product and serial number strings in the language whose code is the
/// request's index (an unknown code reads as US English), and are refused when the device has no
/// such language or string; a class may answer for the others. Any other descriptor is refused.
pub open spec fn get_descriptor_answered<'a, B: UsbBus>(
    config: Config<'a>,
    req: Request,
    before: ControlPipe<'a, B>,
    after: ControlPipe<'a, B>,
    r: Result<()>,
) -> bool {
    let dtype = req.value / 256;
    let index = req.value % 256;
    let len = before.spec_buf().len();
    let langs = string_table(config.string_descriptors);
    if dtype == descriptor_type::BOS && usb_rev_bcd(config.usb_rev) > 0x200 {
        bos_answered(before, after, r)
    } else if dtype == descriptor_type::DEVICE {
        descriptor_answered(before, after, r, fitting(descriptor_bytes(descriptor_type::DEVICE, device_descriptor_body(config)), len))
    } else if dtype == descriptor_type::CONFIGURATION {
        configuration_answered(config, before, after, r)
    } else if dtype == descriptor_type::STRING {
        if index == 0 {
            descriptor_answered(before, after, r, fitting(descriptor_bytes(descriptor_type::STRING, lang_id_bytes(langs)), len))
        } else if index <= 3 {
            match first_lang(langs, lang_of_code(req.index)) {
                None => ControlPipe::rejected(before, after, r),
                Some(k) => match lang_string(langs[k], index as u8) {
                    None => ControlPipe::rejected(before, after, r),
                    Some(s) => descriptor_answered(before, after, r,
                        fitting(descriptor_bytes(descriptor_type::STRING, string_body(s@)), len)),
                },
            }
        } else {
            ControlPipe::rejected(before, after, r) || exists|s: Seq<char>| #[trigger] descriptor_answered(before, after, r,
                fitting(descriptor_bytes(descriptor_type::STRING, string_body(s)), len))
        }
    } else {
        ControlPipe::rejected(before, after, r)
    }
}

/// A buffer of `n` zero bytes.
fn zeroed(n: usize) -> (r: Vec<u8>)
    ensures
        r@ == Seq::new(n as nat, |i: int| 0u8),
{
    let mut v: Vec<u8> = Vec::new();
    let mut k: usize = 0;
    while k < n
        invariant
            k <= n,
            v@ == Seq::new(k as nat, |i: int| 0u8),
        decreases n - k,
    {
        v.push(0u8);
        k = k + 1;
        assert(v@ =~= Seq::new(k as nat, |i: int| 0u8));
    }
    v
}

/// `n` zero bytes.
pub open spec fn zero_bytes(n: nat) -> Seq<u8> {
    Seq::new(n, |i: int| 0u8)
}

/// A writer over a zeroed buffer as long as the control buffer.
fn control_writer<'a, B: UsbBus>(pipe: &ControlPipe<'a, B>) -> (w: DescriptorWriter)
    ensures
        w.bytes() == zero_bytes(pipe.spec_buf().len()),
        w.pos() == 0,
        w.interfaces_mark() is None,
        w.endpoints_mark() is None,
        !w.writes_iads(),
{
    let n = pipe.buffer_len();
    DescriptorWriter::new(zeroed(n))
}

/// Answers the IN request the pipe waits for with what `w` has written.
fn answer_with_written<'a, B: UsbBus>(pipe: &mut ControlPipe<'a, B>, w: DescriptorWriter) -> (r: Result<()>)
    ensures
        ControlPipe::answered(*old(pipe), *final(pipe), r, w.bytes().take(w.pos() as int)),
{
    let pos = w.position();
    let bytes = w.into_bytes();
    pipe.accept_in_with(vstd::slice::slice_subrange(bytes.as_slice(), 0, pos))
}

/// Whether `data` is a configuration descriptor with everything its classes wrote, of a device
/// with settings `config`: it starts with the 9-byte configuration descriptor, whose total
/// length is the length of `data` and whose configuration value, attributes and maximum power
/// are the device's (its interface count is what the classes' interfaces made it).
pub open spec fn configuration_data(config: Config, data: Seq<u8>) -> bool {
    let total = data.len() as u16;
    &&& 9 <= data.len()
    &&& data[0] == 9
    &&& data[1] == descriptor_type::CONFIGURATION
    &&& data[2] == (total % 256) as u8
    &&& data[3] == (total / 256) as u8
    &&& data.subrange(5, 9) == configuration_descriptor_body(config).subrange(3, 7)
}

/// The configuration descriptor of a device with settings `config` and no classes: the 9-byte
/// configuration descriptor alone, whose total length is 9.
pub open spec fn bare_configuration(config: Config) -> Seq<u8> {
    put_total_length(descriptor_bytes(descriptor_type::CONFIGURATION, configuration_descriptor_body(config)), 9)
}

/// The BOS descriptor of a device with no classes: the BOS header and the USB 2.0 extension
/// capability, whose total length is 12.
pub open spec fn bare_bos() -> Seq<u8> {
    put_total_length(bos_start(), 12)
}

/// Whether the writer `last` holds the configuration descriptor of a device with settings
/// `config` written into `bytes`, followed by what each class wrote: class `k` got the writer
/// `ins[k]` and left `outs[k]`, only adding to it (as every class does), the first class got the
/// writer with just the 9-byte configuration descriptor, each next class got what the one before
/// left (with no endpoint count pending, the interface count at byte 4), and `last` is what the
/// last class left (or the configuration descriptor alone, with no classes) with its total
/// length filled in.
pub open spec fn configuration_chain(bytes: Seq<u8>, config: Config, ins: Seq<DescriptorWriter>,
    outs: Seq<DescriptorWriter>, last: DescriptorWriter) -> bool {
    let header = put_descriptor(bytes, 0, descriptor_type::CONFIGURATION, configuration_descriptor_body(config));
    let n = ins.len();
    &&& outs.len() == n
    &&& (n > 0 ==> ins[0].bytes() == header && ins[0].pos() == 9)
    &&& forall|k: int| 0 < k < n ==> #[trigger] ins[k].bytes() == outs[k - 1].bytes() && ins[k].pos() == outs[k - 1].pos()
    &&& forall|k: int| 0 <= k < n ==> (#[trigger] ins[k]).interfaces_mark() == Some(4usize) && ins[k].endpoints_mark() is None
    &&& forall|k: int| 0 <= k < n ==> DescriptorWriter::extends(#[trigger] ins[k], outs[k])
    &&& forall|k: int| 0 <= k < n ==> (#[trigger] outs[k]).pos() <= outs[k].bytes().len()
    &&& if n == 0 {
        last.bytes() == put_total_length(header, 9) && last.pos() == 9
    } else {
        last.bytes() == put_total_length(outs[n - 1].bytes(), outs[n - 1].pos() as u16) && last.pos() == outs[n - 1].pos()
    }
}

/// What the classes added to the configuration descriptor, one after the other: for class `k`,
/// the bytes of `outs[k]` from where it got the writer (`ins[k]`) to where it left it.
pub open spec fn class_bytes(ins: Seq<DescriptorWriter>, outs: Seq<DescriptorWriter>) -> Seq<u8>
    decreases ins.len(),
{
    if ins.len() == 0 || outs.len() < ins.len() {
        Seq::empty()
    } else {
        let k = ins.len() - 1;
        class_bytes(ins.drop_last(), outs.take(k)) + outs[k].bytes().subrange(ins[k].pos() as int, outs[k].pos() as int)
    }
}

/// The class writes up to class `m` follow the configuration descriptor without a gap.
proof fn lemma_class_bytes_prefix(bytes: Seq<u8>, config: Config, ins: Seq<DescriptorWriter>,
    outs: Seq<DescriptorWriter>, last: DescriptorWriter, m: int)
    requires
        configuration_chain(bytes, config, ins, outs, last),
        9 <= bytes.len() <= usize::MAX,
        1 <= m <= ins.len(),
    ensures
        9 <= outs[m - 1].pos() <= outs[m - 1].bytes().len(),
        outs[m - 1].bytes().len() == bytes.len(),
        outs[m - 1].bytes().subrange(9, outs[m - 1].pos() as int) == class_bytes(ins.take(m), outs.take(m)),
    decreases m,
{
    let k = m - 1;
    let a = ins[k];
    let b = outs[k];
    assert(DescriptorWriter::extends(a, b));
    assert(a.interfaces_mark() == Some(4usize) && a.endpoints_mark() is None);
    assert(b.pos() <= b.bytes().len());
    assert(ins.take(m).drop_last() =~= ins.take(k));
    assert(outs.take(m).take(k) =~= outs.take(k));
    assert(ins.take(m)[k] == a && outs.take(m)[k] == b);
    if k == 0 {
        assert(a.pos() == 9);
        assert(class_bytes(ins.take(0), outs.take(0)) =~= Seq::<u8>::empty());
        assert(b.bytes().subrange(9, 9) =~= Seq::<u8>::empty());
        assert(b.bytes().subrange(9, b.pos() as int) =~= b.bytes().subrange(9, 9) + b.bytes().subrange(9, b.pos() as int));
        assert(put_descriptor(bytes, 0, descriptor_type::CONFIGURATION, configuration_descriptor_body(config)).len() == bytes.len());
    } else {
        lemma_class_bytes_prefix(bytes, config, ins, outs, last, k);
        let p = outs[k - 1];
        assert(a.bytes() == p.bytes() && a.pos() == p.pos());
        assert forall|j: int| 9 <= j < a.pos() implies #[trigger] b.bytes()[j] == a.bytes()[j] by {
            assert(j as usize == j);
            assert(Some(j as usize) != a.interfaces_mark());
        }
        assert(b.bytes().subrange(9, a.pos() as int) =~= p.bytes().subrange(9, p.pos() as int));
        assert(b.bytes().subrange(9, b.pos() as int) =~= b.bytes().subrange(9, a.pos() as int)
            + b.bytes().subrange(a.pos() as int, b.pos() as int));
    }
}

/// The configuration descriptor holds every class's descriptors, in list order: after the 9-byte
/// configuration descriptor come exactly the bytes each class added, class after class, and the
/// total length is 9 plus all of them.
pub proof fn lemma_configuration_holds_every_class(bytes: Seq<u8>, config: Config, ins: Seq<DescriptorWriter>,
    outs: Seq<DescriptorWriter>, last: DescriptorWriter)
    requires
        configuration_chain(bytes, config, ins, outs, last),
        9 <= bytes.len() <= usize::MAX,
    ensures
        9 <= last.pos() <= last.bytes().len(),
        last.bytes().subrange(9, last.pos() as int) == class_bytes(ins, outs),
        last.pos() == 9 + class_bytes(ins, outs).len(),
{
    let n = ins.len() as int;
    let header = put_descriptor(bytes, 0, descriptor_type::CONFIGURATION, configuration_descriptor_body(config));
    assert(header.len() == bytes.len());
    if n == 0 {
        assert(class_bytes(ins, outs) =~= Seq::<u8>::empty());
        assert(last.bytes().subrange(9, 9) =~= Seq::<u8>::empty());
    } else {
        lemma_class_bytes_prefix(bytes, config, ins, outs, last, n);
        assert(ins.take(n) =~= ins);
        assert(outs.take(n) =~= outs);
        let b = outs[n - 1];
        assert(last.bytes() == put_total_length(b.bytes(), b.pos() as u16));
        assert(last.bytes().subrange(9, last.pos() as int) =~= b.bytes().subrange(9, b.pos() as int));
    }
}

/// Writes the configuration descriptor and the descriptors of the classes into a fresh writer,
/// and fills in the total length.
fn write_configuration<'a, B: UsbBus, C: UsbClass<B>>(w: &mut DescriptorWriter, config: &Config<'a>, classes: &mut [C]) -> (r: Result<()>)
    requires
        old(w).pos() == 0,
        old(w).endpoints_mark() is None,
    ensures
        final(classes)@.len() == old(classes)@.len(),
        old(w).bytes().len() < 9 ==> r == Err::<(), UsbError>(UsbError::BufferOverflow),
        final(w).bytes().len() == old(w).bytes().len(),
        r is Ok ==> configuration_data(*config, final(w).bytes().take(final(w).pos() as int)),
        old(classes)@.len() == 0 && old(w).bytes().len() >= 9 ==> r is Ok
            && final(w).bytes().take(final(w).pos() as int) == bare_configuration(*config),
        r is Ok ==> exists|crs: Seq<&C>, wrs: Seq<&mut DescriptorWriter>, ins: Seq<DescriptorWriter>, outs: Seq<DescriptorWriter>|
            #![trigger crs.len(), wrs.len(), configuration_chain(old(w).bytes(), *config, ins, outs, *final(w))] {
            &&& crs.len() == old(classes)@.len()
            &&& wrs.len() == old(classes)@.len()
            &&& ins.len() == old(classes)@.len()
            &&& outs.len() == old(classes)@.len()
            &&& forall|k: int| 0 <= k < crs.len() ==> #[trigger] call_ensures(C::get_configuration_descriptors, (crs[k], wrs[k]), Ok::<(), UsbError>(()))
            &&& forall|k: int| 0 <= k < crs.len() ==> *#[trigger] crs[k] == old(classes)@[k]
            &&& forall|k: int| 0 <= k < wrs.len() ==> *#[trigger] wrs[k] == ins[k] && *final(wrs[k]) == outs[k]
            &&& configuration_chain(old(w).bytes(), *config, ins, outs, *final(w))
        },
{
    match w.configuration(config) {
        Ok(()) => {},
        Err(e) => return Err(e),
    }
    let ghost w1 = *w;
    assert(w1.bytes() == put_descriptor(old(w).bytes(), 0, descriptor_type::CONFIGURATION, configuration_descriptor_body(*config)));
    let ghost mut ins: Seq<DescriptorWriter> = Seq::empty();
    let ghost mut outs: Seq<DescriptorWriter> = Seq::empty();
    proof {
        let e1: Seq<&C> = Seq::empty();
        let e2: Seq<&mut DescriptorWriter> = Seq::empty();
        assert(e1.len() == 0 && e2.len() == 0);
    }
    let n = classes.len();
    let mut i: usize = 0;
    while i < n
        invariant
            i <= n,
            n == classes.len(),
            DescriptorWriter::extends(w1, *w),
            w1.pos() == 9,
            w1.interfaces_mark() == Some(4usize),
            w1.endpoints_mark() is None,
            w1.bytes().len() == old(w).bytes().len(),
            old(w).bytes().len() >= 9,
            n == old(classes)@.len(),
            classes@ == old(classes)@,
            i == 0 ==> *w == w1,
            ins.len() == i,
            outs.len() == i,
            exists|crs: Seq<&C>, wrs: Seq<&mut DescriptorWriter>| #![trigger crs.len(), wrs.len()] {
                &&& crs.len() == i
                &&& wrs.len() == i
                &&& forall|k: int| 0 <= k < crs.len() ==> #[trigger] call_ensures(C::get_configuration_descriptors, (crs[k], wrs[k]), Ok::<(), UsbError>(()))
                &&& forall|k: int| 0 <= k < crs.len() ==> *#[trigger] crs[k] == old(classes)@[k]
                &&& forall|k: int| 0 <= k < wrs.len() ==> *#[trigger] wrs[k] == ins[k] && *final(wrs[k]) == outs[k]
            },
            i > 0 ==> ins[0] == w1,
            forall|k: int| 0 < k < i ==> #[trigger] ins[k].bytes() == outs[k - 1].bytes() && ins[k].pos() == outs[k - 1].pos(),
            i > 0 ==> w.bytes() == outs[i - 1].bytes() && w.pos() == outs[i - 1].pos(),
            w.endpoints_mark() is None,
            forall|k: int| 0 <= k < i ==> (#[trigger] ins[k]).interfaces_mark() == Some(4usize) && ins[k].endpoints_mark() is None,
            forall|k: int| 0 <= k < i ==> DescriptorWriter::extends(#[trigger] ins[k], outs[k]),
            forall|k: int| 0 <= k < i ==> (#[trigger] outs[k]).pos() <= outs[k].bytes().len(),
        decreases n - i,
    {
        let ghost before = *w;
        let wr: &mut DescriptorWriter = &mut *w;
        let ghost g = wr;
        let outcome = classes[i].get_configuration_descriptors(wr);
        let _ = w.position();
        let ghost mid = *w;
        proof {
            assert(exists|cr: &C, w2: &mut DescriptorWriter| #[trigger] call_ensures(C::get_configuration_descriptors, (cr, w2), outcome)
                && *cr == old(classes)@[i as int] && *w2 == *g && *final(w2) == *final(g));
            assert(*g == before);
            assert(*final(g) == mid);
        }
        match outcome {
            Ok(()) => {},
            Err(e) => return Err(e),
        }
        proof {
            let (cr, w2) = choose|cr: &C, w2: &mut DescriptorWriter| #[trigger] call_ensures(C::get_configuration_descriptors, (cr, w2), outcome)
                && *cr == old(classes)@[i as int] && *w2 == *g && *final(w2) == *final(g);
            let (crs0, wrs0) = choose|crs: Seq<&C>, wrs: Seq<&mut DescriptorWriter>| #![trigger crs.len(), wrs.len()] {
                &&& crs.len() == i
                &&& wrs.len() == i
                &&& forall|k: int| 0 <= k < crs.len() ==> #[trigger] call_ensures(C::get_configuration_descriptors, (crs[k], wrs[k]), Ok::<(), UsbError>(()))
                &&& forall|k: int| 0 <= k < crs.len() ==> *#[trigger] crs[k] == old(classes)@[k]
                &&& forall|k: int| 0 <= k < wrs.len() ==> *#[trigger] wrs[k] == ins[k] && *final(wrs[k]) == outs[k]
            };
            let ins0 = ins;
            let outs0 = outs;
            ins = ins.push(before);
            outs = outs.push(mid);
            let crs1 = crs0.push(cr);
            let wrs1 = wrs0.push(w2);
            assert(outcome is Ok);
            assert(outcome->Ok_0 == ());
            assert(outcome == Ok::<(), UsbError>(()));
            assert forall|k: int| 0 <= k < crs1.len() implies #[trigger] call_ensures(C::get_configuration_descriptors, (crs1[k], wrs1[k]), Ok::<(), UsbError>(())) by {
                if k < i { assert(crs1[k] == crs0[k] && wrs1[k] == wrs0[k]); }
            }
            assert forall|k: int| 0 <= k < crs1.len() implies *#[trigger] crs1[k] == old(classes)@[k] by {
                if k < i { assert(crs1[k] == crs0[k]); }
            }
            assert forall|k: int| 0 <= k < wrs1.len() implies *#[trigger] wrs1[k] == ins[k] && *final(wrs1[k]) == outs[k] by {
                if k < i { assert(wrs1[k] == wrs0[k] && ins[k] == ins0[k] && outs[k] == outs0[k]); }
            }
            assert(crs1.len() == i + 1 && wrs1.len() == i + 1);
        }
        w.end_class();
        proof {
            DescriptorWriter::lemma_extends_trans(w1, before, mid);
            assert(DescriptorWriter::extends(mid, *w));
            DescriptorWriter::lemma_extends_trans(w1, mid, *w);
        }
        i = i + 1;
    }
    let ghost w2 = *w;
    w.end_configuration();
    proof {
        let data = w.bytes().take(w.pos() as int);
        let body = configuration_descriptor_body(*config);
        assert(w2.pos() >= 9);
        assert(w.pos() == w2.pos());
        assert(w.bytes() == put_total_length(w2.bytes(), w2.pos() as u16));
        assert(w2.bytes().len() >= 9);
        assert(data.len() == w.pos());
        assert forall|k: int| 5 <= k < 9 implies #[trigger] data[k] == w2.bytes()[k] by {}
        assert(w1.bytes()[0] == 9);
        assert(w1.bytes()[1] == descriptor_type::CONFIGURATION);
        assert(w2.bytes()[0] == w1.bytes()[0]);
        assert(w2.bytes()[1] == w1.bytes()[1]);
        assert forall|k: int| 5 <= k < 9 implies #[trigger] w2.bytes()[k] == w1.bytes()[k] by {}
        assert(data.subrange(5, 9) =~= body.subrange(3, 7));
        if n == 0 {
            assert(w2 == w1);
            let d = descriptor_bytes(descriptor_type::CONFIGURATION, body);
            assert(w1.bytes().take(9) =~= d);
            assert(data =~= bare_configuration(*config));
        }
        assert(configuration_chain(old(w).bytes(), *config, ins, outs, *w));
    }
    Ok(())
}

/// Whether `data` is a BOS descriptor with everything its classes wrote: it starts with the BOS
/// header and the USB 2.0 extension capability ([`bos_start`]), with the total length of `data`
/// filled in (the capability count is what the classes' capabilities made it).
pub open spec fn bos_data(data: Seq<u8>) -> bool {
    let total = data.len() as u16;
    &&& 12 <= data.len()
    &&& data[0] == bos_start()[0]
    &&& data[1] == bos_start()[1]
    &&& data[2] == (total % 256) as u8
    &&& data[3] == (total / 256) as u8
    &&& data.subrange(5, 12) == bos_start().subrange(5, 12)
}

/// Whether the BOS writer `last` holds what the classes wrote after the BOS header and USB 2.0
/// extension capability (`first`): class `k` got the writer `ins[k]` and left `outs[k]`, the
/// first class got `first`, each next class got what the one before left, and `last` is what the
/// last class left (or `first`, with no classes) with its total length filled in.
pub open spec fn bos_chain(first: BosWriter, ins: Seq<BosWriter>, outs: Seq<BosWriter>, last: BosWriter) -> bool {
    let n = ins.len();
    let done = if n == 0 { first } else { outs[n - 1] };
    &&& outs.len() == n
    &&& (n > 0 ==> ins[0] == first)
    &&& forall|k: int| 0 < k < n ==> #[trigger] ins[k] == outs[k - 1]
    &&& last.spec_writer().bytes() == put_total_length(done.spec_writer().bytes(), done.spec_writer().pos() as u16)
    &&& last.spec_writer().pos() == done.spec_writer().pos()
}

/// Writes the BOS descriptor and the capabilities of the classes into a fresh writer, and fills
/// in the total length.
fn write_bos<B: UsbBus, C: UsbClass<B>>(bw: &mut BosWriter, classes: &mut [C]) -> (r: Result<()>)
    requires
        old(bw).spec_writer().pos() == 0,
    ensures
        final(classes)@.len() == old(classes)@.len(),
        old(bw).spec_writer().bytes().len() < 12 ==> r == Err::<(), UsbError>(UsbError::BufferOverflow),
        final(bw).spec_writer().bytes().len() == old(bw).spec_writer().bytes().len(),
        r is Ok ==> bos_data(final(bw).spec_writer().bytes().take(final(bw).spec_writer().pos() as int)),
        old(classes)@.len() == 0 && old(bw).spec_writer().bytes().len() >= 12 ==> r is Ok
            && final(bw).spec_writer().bytes().take(final(bw).spec_writer().pos() as int) == bare_bos(),
        r is Ok ==> exists|crs: Seq<&C>, wrs: Seq<&mut BosWriter>, ins: Seq<BosWriter>, outs: Seq<BosWriter>, first: BosWriter|
            #![trigger crs.len(), wrs.len(), bos_chain(first, ins, outs, *final(bw))] {
            &&& crs.len() == old(classes)@.len()
            &&& wrs.len() == old(classes)@.len()
            &&& ins.len() == old(classes)@.len()
            &&& first.spec_writer().pos() == 12
            &&& first.spec_writer().bytes().subrange(0, 12) == bos_start()
            &&& forall|k: int| 0 <= k < crs.len() ==> #[trigger] call_ensures(C::get_bos_descriptors, (crs[k], wrs[k]), Ok::<(), UsbError>(()))
            &&& forall|k: int| 0 <= k < crs.len() ==> *#[trigger] crs[k] == old(classes)@[k]
            &&& forall|k: int| 0 <= k < wrs.len() ==> *#[trigger] wrs[k] == ins[k] && *final(wrs[k]) == outs[k]
            &&& bos_chain(first, ins, outs, *final(bw))
        },
{
    match bw.bos() {
        Ok(()) => {},
        Err(e) => return Err(e),
    }
    let ghost bw1 = *bw;
    let ghost mut ins: Seq<BosWriter> = Seq::empty();
    let ghost mut outs: Seq<BosWriter> = Seq::empty();
    proof {
        let e1: Seq<&C> = Seq::empty();
        let e2: Seq<&mut BosWriter> = Seq::empty();
        assert(e1.len() == 0 && e2.len() == 0);
    }
    let n = classes.len();
    let mut i: usize = 0;
    while i < n
        invariant
            i <= n,
            n == classes.len(),
            BosWriter::extends(bw1, *bw),
            bw1.spec_writer().pos() == 12,
            bw1.caps_mark() == Some(4usize),
            bw1.spec_writer().bytes().subrange(0, 12) == bos_start(),
            bw1.spec_writer().bytes().len() == old(bw).spec_writer().bytes().len(),
            old(bw).spec_writer().bytes().len() >= 12,
            n == old(classes)@.len(),
            classes@ == old(classes)@,
            i == 0 ==> *bw == bw1,
            ins.len() == i,
            outs.len() == i,
            i > 0 ==> ins[0] == bw1,
            forall|k: int| 0 < k < i ==> #[trigger] ins[k] == outs[k - 1],
            i > 0 ==> outs[i - 1] == *bw,
            exists|crs: Seq<&C>, wrs: Seq<&mut BosWriter>| #![trigger crs.len(), wrs.len()] {
                &&& crs.len() == i
                &&& wrs.len() == i
                &&& forall|k: int| 0 <= k < crs.len() ==> #[trigger] call_ensures(C::get_bos_descriptors, (crs[k], wrs[k]), Ok::<(), UsbError>(()))
                &&& forall|k: int| 0 <= k < crs.len() ==> *#[trigger] crs[k] == old(classes)@[k]
                &&& forall|k: int| 0 <= k < wrs.len() ==> *#[trigger] wrs[k] == ins[k] && *final(wrs[k]) == outs[k]
            },
        decreases n - i,
    {
        let ghost before = *bw;
        let wr: &mut BosWriter = &mut *bw;
        let ghost g = wr;
        let outcome = classes[i].get_bos_descriptors(wr);
        let ghost mid = *bw;
        proof {
            assert(exists|cr: &C, w2: &mut BosWriter| #[trigger] call_ensures(C::get_bos_descriptors, (cr, w2), outcome)
                && *cr == old(classes)@[i as int] && *w2 == *g && *final(w2) == *final(g));
            assert(*g == before);
            assert(*final(g) == mid);
        }
        match outcome {
            Ok(()) => {},
            Err(e) => return Err(e),
        }
        proof {
            BosWriter::lemma_extends_trans(bw1, before, *bw);
            let (cr, w2) = choose|cr: &C, w2: &mut BosWriter| #[trigger] call_ensures(C::get_bos_descriptors, (cr, w2), outcome)
                && *cr == old(classes)@[i as int] && *w2 == *g && *final(w2) == *final(g);
            let (crs0, wrs0) = choose|crs: Seq<&C>, wrs: Seq<&mut BosWriter>| #![trigger crs.len(), wrs.len()] {
                &&& crs.len() == i
                &&& wrs.len() == i
                &&& forall|k: int| 0 <= k < crs.len() ==> #[trigger] call_ensures(C::get_bos_descriptors, (crs[k], wrs[k]), Ok::<(), UsbError>(()))
                &&& forall|k: int| 0 <= k < crs.len() ==> *#[trigger] crs[k] == old(classes)@[k]
                &&& forall|k: int| 0 <= k < wrs.len() ==> *#[trigger] wrs[k] == ins[k] && *final(wrs[k]) == outs[k]
            };
            let ins0 = ins;
            let outs0 = outs;
            ins = ins.push(before);
            outs = outs.push(mid);
            let crs1 = crs0.push(cr);
            let wrs1 = wrs0.push(w2);
            assert(outcome is Ok);
            assert(outcome->Ok_0 == ());
            assert(outcome == Ok::<(), UsbError>(()));
            assert forall|k: int| 0 <= k < crs1.len() implies #[trigger] call_ensures(C::get_bos_descriptors, (crs1[k], wrs1[k]), Ok::<(), UsbError>(())) by {
                if k < i { assert(crs1[k] == crs0[k] && wrs1[k] == wrs0[k]); }
            }
            assert forall|k: int| 0 <= k < crs1.len() implies *#[trigger] crs1[k] == old(classes)@[k] by {
                if k < i { assert(crs1[k] == crs0[k]); }
            }
            assert forall|k: int| 0 <= k < wrs1.len() implies *#[trigger] wrs1[k] == ins[k] && *final(wrs1[k]) == outs[k] by {
                if k < i { assert(wrs1[k] == wrs0[k] && ins[k] == ins0[k] && outs[k] == outs0[k]); }
            }
            assert forall|k: int| 0 < k < i + 1 implies #[trigger] ins[k] == outs[k - 1] by {
                if k < i { assert(ins[k] == ins0[k] && outs[k - 1] == outs0[k - 1]); }
            }
            assert(crs1.len() == i + 1 && wrs1.len() == i + 1);
        }
        i = i + 1;
    }
    let ghost w2 = bw.spec_writer();
    let ghost w2_full = *bw;
    bw.end_bos();
    proof {
        let w = bw.spec_writer();
        let w1 = bw1.spec_writer();
        let data = w.bytes().take(w.pos() as int);
        assert(w1.bytes()[0] == bos_start()[0]);
        assert(w1.bytes()[1] == bos_start()[1]);
        assert(w2.bytes()[0] == w1.bytes()[0]);
        assert(w2.bytes()[1] == w1.bytes()[1]);
        assert forall|k: int| 5 <= k < 12 implies #[trigger] w2.bytes()[k] == bos_start()[k] by {
            assert(w2.bytes()[k] == w1.bytes()[k]);
            assert(w1.bytes()[k] == w1.bytes().subrange(0, 12)[k]);
        }
        assert(w2.pos() >= 12);
        assert(data.len() == w.pos());
        assert forall|k: int| 5 <= k < 12 implies #[trigger] data[k] == w2.bytes()[k] by {}
        assert(data.subrange(5, 12) =~= bos_start().subrange(5, 12));
        if n == 0 {
            assert(w2 == w1);
            assert(w1.bytes().take(12) =~= w1.bytes().subrange(0, 12));
            assert(data =~= bare_bos());
        }
        assert(bos_chain(bw1, ins, outs, *bw));
    }
    Ok(())
}

/// The language codes of the strings of a device, two little-endian bytes each.
fn lang_ids<'a>(config: &Config<'a>) -> (r: Vec<u8>)
    ensures
        r@ == lang_id_bytes(string_table(config.string_descriptors)),
        r@.len() == 2 * string_table(config.string_descriptors).len(),
        r@.len() <= 32,
{
    let langs = string_table_as_slice(&config.string_descriptors);
    let mut ids: Vec<u8> = Vec::new();
    let mut i: usize = 0;
    while i < langs.len()
        invariant
            i <= langs@.len(),
            langs@.len() <= 16,
            ids@ == lang_id_bytes(langs@.take(i as int)),
            ids@.len() == 2 * i,
        decreases langs@.len() - i,
    {
        let code = langs[i].lang().code();
        ids.push((code % 256) as u8);
        ids.push((code / 256) as u8);
        proof {
            assert(langs@.take(i + 1).drop_last() =~= langs@.take(i as int));
        }
        i = i + 1;
    }
    proof {
        assert(langs@.take(i as int) =~= langs@);
    }
    ids
}

/// The position of the first language of the device's strings that is `id`.
fn find_lang<'a>(config: &Config<'a>, id: LangID) -> (r: Option<usize>)
    ensures
        r matches Some(k) ==> first_lang(string_table(config.string_descriptors), id) == Some(k as int),
        r is None ==> first_lang(string_table(config.string_descriptors), id) is None,
{
    let langs = string_table_as_slice(&config.string_descriptors);
    let mut i: usize = 0;
    while i < langs.len()
        invariant
            i <= langs@.len(),
            langs@ == string_table(config.string_descriptors),
            forall|j: int| 0 <= j < i ==> langs@[j].spec_id() != id,
        decreases langs@.len() - i,
    {
        if langs[i].lang() == id {
            proof {
                assert(is_first_lang(langs@, id, i as int));
                let k = choose|k: int| #[trigger] is_first_lang(langs@, id, k);
                lemma_first_lang_unique(langs@, id, k, i as int);
            }
            return Some(i);
        }
        i = i + 1;
    }
    proof {
        assert(!exists|k: int| #[trigger] is_first_lang(langs@, id, k));
    }
    None
}

/// The first answer that is some string, if any is.
pub open spec fn first_some<T>(answers: Seq<Option<T>>) -> Option<T>
    decreases answers.len(),
{
    if answers.len() == 0 {
        None
    } else if answers[0] is Some {
        answers[0]
    } else {
        first_some(answers.skip(1))
    }
}

/// Whether `answers` are the answers of the first of `n` classes, asked in order until one
/// answers with some string: at least one class is asked when there is one, every answer but
/// the last is none, and a class is left unasked only after one answered.
pub open spec fn asked_in_order<T>(answers: Seq<Option<T>>, n: nat) -> bool {
    &&& answers.len() <= n
    &&& (n > 0 ==> answers.len() > 0)
    &&& forall|j: int| 0 <= j < answers.len() - 1 ==> #[trigger] answers[j] is None
    &&& (answers.len() < n ==> answers.last() is Some)
}

/// When every answer but the last is none, the first answer that is some is the last one, if
/// it is some.
proof fn lemma_first_some_last<T>(answers: Seq<Option<T>>)
    requires
        forall|j: int| 0 <= j < answers.len() - 1 ==> #[trigger] answers[j] is None,
    ensures
        first_some(answers) == (if answers.len() == 0 { None } else { answers.last() }),
    decreases answers.len(),
{
    if answers.len() > 1 {
        assert(answers[0] is None);
        let rest = answers.skip(1);
        assert forall|j: int| 0 <= j < rest.len() - 1 implies #[trigger] rest[j] is None by {
            assert(rest[j] == answers[j + 1]);
        }
        lemma_first_some_last(rest);
        assert(rest.last() == answers.last());
    } else if answers.len() == 1 {
        assert(answers.skip(1).len() == 0);
        assert(first_some(answers.skip(1)) is None);
        assert(answers.last() == answers[0]);
    }
}

/// Whether `answer` is the string (by its characters) that the class `class`'s
/// [`UsbClass::get_string`] gave for the string index `index` in the language `lang_id`.
pub open spec fn class_gave_string<B: UsbBus, C: UsbClass<B>>(class: C, index: u8, lang_id: LangID, answer: Option<Seq<char>>) -> bool {
    exists|cr: &C, idx: StringIndex, raw: Option<&str>| #[trigger] call_ensures(C::get_string, (cr, idx, lang_id), raw)
        && *cr == class && idx@ == index && answer_chars(raw) == answer
}

/// A string answer by its characters.
pub open spec fn answer_chars(a: Option<&str>) -> Option<Seq<char>> {
    match a {
        Some(s) => Some(s@),
        None => None,
    }
}

/// String answers by their characters.
pub open spec fn answers_chars(answers: Seq<Option<&str>>) -> Seq<Option<Seq<char>>> {
    answers.map_values(|a: Option<&str>| answer_chars(a))
}

/// Taking answers by their characters keeps which answers are some, and so the first one.
proof fn lemma_answers_chars(answers: Seq<Option<&str>>, n: nat)
    ensures
        asked_in_order(answers, n) ==> asked_in_order(answers_chars(answers), n),
        first_some(answers_chars(answers)) == answer_chars(first_some(answers)),
    decreases answers.len(),
{
    let c = answers_chars(answers);
    assert(c.len() == answers.len());
    assert forall|j: int| 0 <= j < answers.len() implies (#[trigger] c[j] is None) == (answers[j] is None) by {}
    if answers.len() > 0 {
        assert(answers_chars(answers.skip(1)) =~= c.skip(1));
        lemma_answers_chars(answers.skip(1), n);
    }
}

/// Whether `answer` is what the class `class`'s [`UsbClass::get_alt_setting`] gave for the
/// interface with number `interface`, when the device asked it.
pub open spec fn class_alt_setting<B: UsbBus, C: UsbClass<B>>(class: C, interface: u8, answer: Option<u8>) -> bool {
    exists|cr: &mut C, iface: InterfaceNumber| #[trigger] call_ensures(C::get_alt_setting, (cr, iface), answer)
        && *cr == class && iface@ == interface
}

/// Whether the GET_INTERFACE request `req` was answered, from the control pipe `p0` to `p1` with
/// result `r`, with the alternate setting that the classes `classes` report: they are asked in
/// order until one knows the interface, and the first setting reported is sent, or the default
/// setting when none knows it.
pub open spec fn alt_setting_answered<'a, B: UsbBus, C: UsbClass<B>>(classes: Seq<C>, req: Request,
    p0: ControlPipe<'a, B>, p1: ControlPipe<'a, B>, r: Result<()>) -> bool {
    exists|answers: Seq<Option<u8>>| {
        &&& #[trigger] asked_in_order(answers, classes.len())
        &&& forall|j: int| 0 <= j < answers.len() ==> #[trigger] class_alt_setting::<B, C>(classes[j], req.index as u8, answers[j])
        &&& ControlPipe::answered(p0, p1, r,
            single_byte(match first_some(answers) { Some(v) => v, None => DEFAULT_ALTERNATE_SETTING }))
    }
}

/// Whether the GET_STATUS request `req` for an endpoint was answered, from the control pipe `p0`
/// to `p1` with result `r`, with the stall state that the bus `bus` reported for the endpoint
/// that the request names.
pub open spec fn endpoint_status_answered<'a, B: UsbBus>(bus: &B, req: Request,
    p0: ControlPipe<'a, B>, p1: ControlPipe<'a, B>, r: Result<()>) -> bool {
    exists|addr: EndpointAddress, stalled: bool| #[trigger] call_ensures(B::is_stalled, (bus, addr), stalled)
        && addr@ == halt_address_byte(req.index)
        && ControlPipe::answered(p0, p1, r, endpoint_status(stalled))
}

/// Whether, for a bus that takes the address before the status stage, the address that the
/// SET_ADDRESS request `req` asks for (from 1 to 127) was handed to the bus `bus`.
pub open spec fn quirk_address_given<B: UsbBus>(bus: &B, req: Request) -> bool {
    B::QUIRK_SET_ADDRESS_BEFORE_STATUS && is_request(req, Recipient::Device, Request::SET_ADDRESS) && 1 <= req.value <= 127
        ==> call_ensures(B::set_device_address, (bus, req.value as u8), ())
}

/// GET_INTERFACE answers with the setting of the first class that knows the interface: when
/// class `k` is the first of the list whose `get_alt_setting` gave some setting `v`, the one byte
/// sent is `v`; when no class knows it, the byte is 0.
pub proof fn lemma_alt_setting_is_first_known<'a, B: UsbBus, C: UsbClass<B>>(classes: Seq<C>, req: Request,
    p0: ControlPipe<'a, B>, p1: ControlPipe<'a, B>, r: Result<()>)
    requires
        alt_setting_answered::<B, C>(classes, req, p0, p1, r),
    ensures
        exists|answers: Seq<Option<u8>>| {
            &&& answers.len() <= classes.len()
            &&& forall|j: int| 0 <= j < answers.len() ==> #[trigger] class_alt_setting::<B, C>(classes[j], req.index as u8, answers[j])
            &&& (forall|j: int| 0 <= j < answers.len() ==> answers[j] is None) ==> answers.len() == classes.len()
                && ControlPipe::answered(p0, p1, r, seq![0u8])
            &&& forall|k: int| 0 <= k < answers.len() && #[trigger] answers[k] is Some
                && (forall|j: int| 0 <= j < k ==> answers[j] is None)
                ==> ControlPipe::answered(p0, p1, r, seq![answers[k]->0])
        },
{
    let answers = choose|answers: Seq<Option<u8>>| {
        &&& #[trigger] asked_in_order(answers, classes.len())
        &&& forall|j: int| 0 <= j < answers.len() ==> #[trigger] class_alt_setting::<B, C>(classes[j], req.index as u8, answers[j])
        &&& ControlPipe::answered(p0, p1, r,
            single_byte(match first_some(answers) { Some(v) => v, None => DEFAULT_ALTERNATE_SETTING }))
    };
    lemma_first_some_last(answers);
    if forall|j: int| 0 <= j < answers.len() ==> answers[j] is None {
        if answers.len() > 0 {
            assert(answers.last() is None);
        }
        assert(single_byte(DEFAULT_ALTERNATE_SETTING) =~= seq![0u8]);
    }
    assert forall|k: int| 0 <= k < answers.len() && #[trigger] answers[k] is Some
        && (forall|j: int| 0 <= j < k ==> answers[j] is None)
        implies ControlPipe::answered(p0, p1, r, seq![answers[k]->0]) by {
        if k < answers.len() - 1 {
            assert(answers[k] is None);
        }
        assert(answers.last() == answers[k]);
        assert(single_byte(answers[k]->0) =~= seq![answers[k]->0]);
    }
}

/// GET_STATUS for an endpoint reports the stall state of exactly the endpoint the request names:
/// the bus was asked about the address whose direction bit and endpoint number are those of the
/// request's index, and the first byte sent is 1 exactly when the bus said it is stalled.
pub proof fn lemma_endpoint_status_is_named_endpoint<'a, B: UsbBus>(bus: &B, req: Request,
    p0: ControlPipe<'a, B>, p1: ControlPipe<'a, B>, r: Result<()>)
    requires
        endpoint_status_answered(bus, req, p0, p1, r),
    ensures
        exists|addr: EndpointAddress, stalled: bool| {
            &&& #[trigger] call_ensures(B::is_stalled, (bus, addr), stalled)
            &&& addr@ & 0x80 == (req.index % 256) as u8 & 0x80
            &&& addr@ & 0x0f == (req.index % 256) as u8 & 0x0f
            &&& addr@ & 0x70 == 0
            &&& ControlPipe::answered(p0, p1, r, seq![if stalled { 1u8 } else { 0u8 }, 0u8])
        },
{
    let (addr, stalled) = choose|addr: EndpointAddress, stalled: bool| #[trigger] call_ensures(B::is_stalled, (bus, addr), stalled)
        && addr@ == halt_address_byte(req.index)
        && ControlPipe::answered(p0, p1, r, endpoint_status(stalled));
    let b = (req.index % 256) as u8;
    let a = addr@;
    assert(a == b & 0x8f);
    assert(a & 0x80 == b & 0x80 && a & 0x0f == b & 0x0f && a & 0x70 == 0) by (bit_vector)
        requires a == b & 0x8f;
    assert(endpoint_status(stalled) =~= seq![if stalled { 1u8 } else { 0u8 }, 0u8]);
}

/// With a bus that takes the address before the status stage, SET_ADDRESS hands the bus exactly
/// the address the host asked for, and the device is then addressed.
pub proof fn lemma_quirk_address_is_requested<'a, B: UsbBus>(before: UsbDevice<'a, B>, after: UsbDevice<'a, B>,
    req: Request, r: Result<()>)
    requires
        B::QUIRK_SET_ADDRESS_BEFORE_STATUS,
        is_request(req, Recipient::Device, Request::SET_ADDRESS),
        1 <= req.value <= 127,
        quirk_address_given(before.spec_bus(), req),
        UsbDevice::standard_out_answered(before, before.spec_pipe(), after, req, r),
    ensures
        exists|address: u8| #[trigger] call_ensures(B::set_device_address, (before.spec_bus(), address), ())
            && address == req.value && 1 <= address <= 127,
        after.spec_state() == UsbDeviceState::Addressed,
{
    assert(call_ensures(B::set_device_address, (before.spec_bus(), req.value as u8), ()));
}

/// The events of a data event include those of each endpoint from 1 below `n`.
proof fn lemma_events_below_contain(ep_out: u16, ep_in_complete: u16, ep_setup: u16, n: u16, a: u16, ev: EndpointEvent)
    requires
        1 <= a < n,
        events_at(ep_out, ep_in_complete, ep_setup, a).contains(ev),
    ensures
        events_below(ep_out, ep_in_complete, ep_setup, n).contains(ev),
    decreases n,
{
    let prev = events_below(ep_out, ep_in_complete, ep_setup, (n - 1) as u16);
    let here = events_at(ep_out, ep_in_complete, ep_setup, (n - 1) as u16);
    assert(events_below(ep_out, ep_in_complete, ep_setup, n) == prev + here);
    if a == n - 1 {
        let j = choose|j: int| 0 <= j < here.len() && here[j] == ev;
        assert((prev + here)[prev.len() + j] == ev);
    } else {
        lemma_events_below_contain(ep_out, ep_in_complete, ep_setup, (n - 1) as u16, a, ev);
        let j = choose|j: int| 0 <= j < prev.len() && prev[j] == ev;
        assert((prev + here)[j] == ev);
    }
}

/// Every class of the list hears of every packet on the other endpoints: when the classes got
/// the events of a data event as [`UsbDevice::dispatch_endpoint_events`] states (class `k`
/// through `refs[e][k]` for event `e`, as it was then, `vals[e][k]`), then for every endpoint
/// number `a` from 1 to 15 and every class `k`, a SETUP packet on OUT endpoint `a` reached the
/// class through `endpoint_setup`, otherwise an OUT packet on it through `endpoint_out`, and a
/// completed IN packet on IN endpoint `a` through `endpoint_in_complete`, with that endpoint's
/// address.
pub proof fn lemma_every_class_gets_every_event<B: UsbBus, C: UsbClass<B>>(ep_out: u16, ep_in_complete: u16,
    ep_setup: u16, refs: Seq<Seq<&mut C>>, vals: Seq<Seq<C>>, a: u16, k: int)
    requires
        refs.len() == endpoint_events(ep_out, ep_in_complete, ep_setup).len(),
        vals.len() == refs.len() + 1,
        forall|e: int| 0 <= e < vals.len() ==> #[trigger] vals[e].len() == vals[0].len(),
        forall|e: int| 0 <= e < refs.len() ==> #[trigger] events_delivered::<B, C>(endpoint_events(ep_out, ep_in_complete, ep_setup)[e], refs[e], vals[e]),
        1 <= a < MAX_ENDPOINTS,
        0 <= k < vals[0].len(),
    ensures
        bit_set(ep_setup, a) ==> exists|e: int| 0 <= e < refs.len()
            && #[trigger] call_ensures(C::endpoint_setup, (refs[e][k], EndpointAddress::spec_from_byte(a as u8)), ())
            && *refs[e][k] == vals[e][k],
        !bit_set(ep_setup, a) && bit_set(ep_out, a) ==> exists|e: int| 0 <= e < refs.len()
            && #[trigger] call_ensures(C::endpoint_out, (refs[e][k], EndpointAddress::spec_from_byte(a as u8)), ())
            && *refs[e][k] == vals[e][k],
        bit_set(ep_in_complete, a) ==> exists|e: int| 0 <= e < refs.len()
            && #[trigger] call_ensures(C::endpoint_in_complete, (refs[e][k], EndpointAddress::spec_from_byte((a as u8) | 0x80)), ())
            && *refs[e][k] == vals[e][k],
{
    let events = endpoint_events(ep_out, ep_in_complete, ep_setup);
    let here = events_at(ep_out, ep_in_complete, ep_setup, a);
    let out_b = address_byte(a as usize, UsbDirection::Out);
    let in_b = address_byte(a as usize, UsbDirection::In);
    assert(out_b == a as u8) by {
        assert((a as usize) as u8 == a as u8);
        assert(crate::direction_bits(UsbDirection::Out) == 0);
        let x = a as u8;
        assert(x | 0 == x) by (bit_vector);
    }
    assert(in_b == (a as u8) | 0x80);
    if bit_set(ep_setup, a) || bit_set(ep_out, a) {
        let ev = here[0];
        assert(here.contains(ev));
        lemma_events_below_contain(ep_out, ep_in_complete, ep_setup, MAX_ENDPOINTS as u16, a, ev);
        let e = choose|e: int| 0 <= e < events.len() && events[e] == ev;
        assert(events_delivered::<B, C>(events[e], refs[e], vals[e]));
        assert(vals[e].len() == vals[0].len());
        assert(refs[e].len() == vals[e].len());
        assert(0 <= k < refs[e].len());
        assert(event_delivered::<B, C>(events[e], refs[e][k]));
        assert(*refs[e][k] == vals[e][k]);
    }
    if bit_set(ep_in_complete, a) {
        let ev = here.last();
        assert(here.contains(ev));
        lemma_events_below_contain(ep_out, ep_in_complete, ep_setup, MAX_ENDPOINTS as u16, a, ev);
        let e = choose|e: int| 0 <= e < events.len() && events[e] == ev;
        assert(events_delivered::<B, C>(events[e], refs[e], vals[e]));
        assert(vals[e].len() == vals[0].len());
        assert(refs[e].len() == vals[e].len());
        assert(0 <= k < refs[e].len());
        assert(event_delivered::<B, C>(events[e], refs[e][k]));
        assert(*refs[e][k] == vals[e][k]);
    }
}

/// Whether `answer` is what the class `class`'s [`UsbClass::set_alt_setting`] gave when the
/// device asked it to switch the interface with number `interface` to the alternate setting
/// `setting`.
pub open spec fn class_set_alt<B: UsbBus, C: UsbClass<B>>(class: C, interface: u8, setting: u8, answer: bool) -> bool {
    exists|cr: &mut C, iface: InterfaceNumber| #[trigger] call_ensures(C::set_alt_setting, (cr, iface, setting), answer)
        && *cr == class && iface@ == interface
}

/// Whether `answers` are the answers of the first of `n` classes, asked in order until one
/// answers true: every answer but the last is false, and a class is left unasked only after one
/// answered true.
pub open spec fn answers_until_true(answers: Seq<bool>, n: nat) -> bool {
    &&& answers.len() <= n
    &&& forall|j: int| 0 <= j < answers.len() - 1 ==> !#[trigger] answers[j]
    &&& (answers.len() < n ==> answers.len() > 0 && answers.last())
}

/// Whether the SET_INTERFACE request `req` was answered, from the control pipe `p0` to `p1` with
/// result `r`, after asking the classes `classes` in order to switch the interface until one did:
/// accepted when a class switched it or the request asks for the default setting, refused
/// otherwise.
pub open spec fn alt_setting_set<'a, B: UsbBus, C: UsbClass<B>>(classes: Seq<C>, req: Request,
    p0: ControlPipe<'a, B>, p1: ControlPipe<'a, B>, r: Result<()>) -> bool {
    exists|answers: Seq<bool>| {
        &&& #[trigger] answers_until_true(answers, classes.len())
        &&& forall|j: int| 0 <= j < answers.len() ==> #[trigger] class_set_alt::<B, C>(classes[j], req.index as u8,
            req.value as u8, answers[j])
        &&& if answers.contains(true) || req.value == DEFAULT_ALTERNATE_SETTING {
            ControlPipe::accepted_out(p0, p1, r)
        } else {
            ControlPipe::rejected(p0, p1, r)
        }
    }
}

/// Whether a pending address that was cleared (`pending` before, `after` after) was handed to
/// the bus `bus`: the address a SET_ADDRESS request asked for takes effect on the bus when it
/// leaves the device's pending state.
pub open spec fn address_latched<B: UsbBus>(bus: &B, pending: u8, after: u8) -> bool {
    pending != 0 && after == 0 ==> call_ensures(B::set_device_address, (bus, pending), ())
}

/// Whether `r` is a class reference that got the callback of the endpoint event `event`:
/// `endpoint_setup`, `endpoint_out` or `endpoint_in_complete` with the event's endpoint address.
pub open spec fn event_delivered<B: UsbBus, C: UsbClass<B>>(event: EndpointEvent, r: &mut C) -> bool {
    match event {
        EndpointEvent::Setup(addr) => call_ensures(C::endpoint_setup, (r, addr), ()),
        EndpointEvent::Out(addr) => call_ensures(C::endpoint_out, (r, addr), ()),
        EndpointEvent::InComplete(addr) => call_ensures(C::endpoint_in_complete, (r, addr), ()),
    }
}

/// Whether the classes `before` (the whole list, in order) each got the callback of `event`
/// through `row`: class `k` through `row[k]`, as it was before.
pub open spec fn events_delivered<B: UsbBus, C: UsbClass<B>>(event: EndpointEvent, row: Seq<&mut C>, before: Seq<C>) -> bool {
    &&& row.len() == before.len()
    &&& forall|k: int| 0 <= k < row.len() ==> #[trigger] event_delivered::<B, C>(event, row[k]) && *row[k] == before[k]
}

/// The address of the endpoint that a request about an endpoint's halt names in its index: the
/// low byte of the index, with the direction bit and the endpoint number kept.
pub open spec fn halt_address_byte(index: u16) -> u8 {
    ((index % 256) as u8) & 0x8f
}

/// Whether `pipes` are the control pipe as the first of `n` classes found it and left it when
/// a request was offered to them in order, from `p0`, until one answered: `pipes[j]` is the pipe
/// before class `j` was asked, which still waits for an answer, and the last is the pipe the last
/// class asked left, which no longer waits unless every class was asked.
pub open spec fn offered_in_order<'a, B: UsbBus>(pipes: Seq<ControlPipe<'a, B>>, n: nat, p0: ControlPipe<'a, B>) -> bool {
    &&& 1 <= pipes.len() <= n + 1
    &&& pipes[0] == p0
    &&& forall|j: int| 0 <= j < pipes.len() - 1 ==> is_waiting(#[trigger] pipes[j].spec_state())
    &&& (pipes.len() - 1 < n ==> !is_waiting(pipes.last().spec_state()))
}

/// Whether `after` and `r` are what answering a request for a class's string gives from the
/// control pipe `before`, when the first class string found is `found`: a refusal when there is
/// none, and otherwise the string descriptor of that string.
pub open spec fn class_string_answered<'a, B: UsbBus>(found: Option<Seq<char>>, before: ControlPipe<'a, B>,
    after: ControlPipe<'a, B>, r: Result<()>) -> bool {
    match found {
        None => ControlPipe::rejected(before, after, r),
        Some(s) => descriptor_answered(before, after, r,
            fitting(descriptor_bytes(descriptor_type::STRING, string_body(s)), before.spec_buf().len())),
    }
}

/// The first of the answers that is some string, looked for from the front.
fn first_answer<'c>(answers: &Vec<Option<&'c str>>) -> (r: Option<&'c str>)
    ensures
        r == first_some(answers@),
{
    let mut k: usize = answers.len();
    let mut found: Option<&'c str> = None;
    while k > 0
        invariant
            k <= answers@.len(),
            found == first_some(answers@.skip(k as int)),
        decreases k,
    {
        k = k - 1;
        proof {
            assert(answers@.skip(k as int).skip(1) =~= answers@.skip(k + 1));
        }
        if answers[k].is_some() {
            found = answers[k];
        }
    }
    proof {
        assert(answers@.skip(0) =~= answers@);
    }
    found
}

/// The string that the first class with some string for `index` in `lang_id` gives: the classes
/// are asked in order until one answers with some string ([`asked_in_order`]), and the answer is
/// the first such string ([`first_some`]); with no classes there is none.
fn class_string<'c, B: UsbBus, C: UsbClass<B>>(classes: &'c [C], index: u8, lang_id: LangID) -> (r: Option<&'c str>)
    ensures
        classes@.len() == 0 ==> r is None,
        exists|answers: Seq<Option<Seq<char>>>| #[trigger] asked_in_order(answers, classes@.len())
            && answer_chars(r) == first_some(answers)
            && forall|j: int| 0 <= j < answers.len() ==> #[trigger] class_gave_string::<B, C>(classes@[j], index, lang_id, answers[j]),
{
    let handle = StringIndex::new(index);
    let n = classes.len();
    let mut answers: Vec<Option<&'c str>> = Vec::new();
    let mut i: usize = 0;
    while i < n && (i == 0 || answers[i - 1].is_none())
        invariant
            i <= n,
            n == classes.len(),
            n == classes@.len(),
            answers@.len() == i,
            forall|j: int| 0 <= j < i - 1 ==> #[trigger] answers@[j] is None,
            handle@ == index,
            forall|j: int| 0 <= j < i ==> #[trigger] class_gave_string::<B, C>(classes@[j], index, lang_id, answer_chars(answers@[j])),
        decreases n - i,
    {
        let answer = classes[i].get_string(handle, lang_id);
        proof {
            assert(class_gave_string::<B, C>(classes@[i as int], index, lang_id, answer_chars(answer)));
        }
        answers.push(answer);
        i = i + 1;
    }
    proof {
        assert(asked_in_order(answers@, n as nat));
        lemma_answers_chars(answers@, n as nat);
        assert(asked_in_order(answers_chars(answers@), n as nat));
        assert forall|j: int| 0 <= j < answers@.len() implies #[trigger] class_gave_string::<B, C>(classes@[j], index, lang_id, answers_chars(answers@)[j]) by {
            assert(answers_chars(answers@)[j] == answer_chars(answers@[j]));
        }
    }
    first_answer(&answers)
}

impl<'a, B: UsbBus> UsbDevice<'a, B> {
    /// Answers a GET_DESCRIPTOR request; see [`get_descriptor_answered`]. With no classes, the BOS
    /// and configuration descriptors are the device's own ([`bare_bos`], [`bare_configuration`])
    /// and are sent whenever they fit in the control buffer.
    fn get_descriptor<C: UsbClass<B>>(config: &Config<'a>, classes: &mut [C], pipe: &mut ControlPipe<'a, B>, req: Request) -> (r: Result<()>)
        ensures
            final(classes)@.len() == old(classes)@.len(),
            get_descriptor_answered(*config, req, *old(pipe), *final(pipe), r),
            old(classes)@.len() == 0 && old(pipe).spec_state() is CompleteIn ==> {
                let dtype = req.value / 256;
                &&& (dtype == descriptor_type::BOS && usb_rev_bcd(config.usb_rev) > 0x200 && 12 <= old(pipe).spec_buf().len()
                    ==> ControlPipe::answered(*old(pipe), *final(pipe), r, bare_bos()))
                &&& (dtype == descriptor_type::CONFIGURATION && 9 <= old(pipe).spec_buf().len() ==> ControlPipe::answered(*old(pipe), *final(pipe), r, bare_configuration(*config)))
            },
            req.value / 256 == descriptor_type::STRING && req.value % 256 > 3 ==> exists|answers: Seq<Option<Seq<char>>>|
                #[trigger] asked_in_order(answers, old(classes)@.len())
                && (forall|j: int| 0 <= j < answers.len() ==> #[trigger] class_gave_string::<B, C>(old(classes)@[j],
                    (req.value % 256) as u8, lang_of_code(req.index), answers[j]))
                && class_string_answered(first_some(answers), *old(pipe), *final(pipe), r),
            req.value / 256 == descriptor_type::CONFIGURATION && r is Ok ==>
                exists|crs: Seq<&C>, wrs: Seq<&mut DescriptorWriter>, ins: Seq<DescriptorWriter>, outs: Seq<DescriptorWriter>,
                    last: DescriptorWriter|
                #![trigger crs.len(), wrs.len(), configuration_chain(zero_bytes(old(pipe).spec_buf().len()), *config, ins, outs, last)] {
                &&& crs.len() == old(classes)@.len()
                &&& wrs.len() == old(classes)@.len()
                &&& ins.len() == old(classes)@.len()
                &&& outs.len() == old(classes)@.len()
                &&& forall|k: int| 0 <= k < crs.len() ==> #[trigger] call_ensures(C::get_configuration_descriptors, (crs[k], wrs[k]), Ok::<(), UsbError>(()))
                &&& forall|k: int| 0 <= k < crs.len() ==> *#[trigger] crs[k] == old(classes)@[k]
                &&& forall|k: int| 0 <= k < wrs.len() ==> *#[trigger] wrs[k] == ins[k] && *final(wrs[k]) == outs[k]
                &&& configuration_chain(zero_bytes(old(pipe).spec_buf().len()), *config, ins, outs, last)
                &&& ControlPipe::answered(*old(pipe), *final(pipe), r, last.bytes().take(last.pos() as int))
            },
    {
        let (dtype, index) = req.descriptor_type_index();
        let complete_in = match pipe.state() {
            ControlState::CompleteIn(_) => true,
            _ => false,
        };
        if dtype == descriptor_type::BOS && config.usb_rev.bcd() > 0x200 {
            if !complete_in {
                return Err(UsbError::InvalidState);
            }
            let mut bw = BosWriter::new(control_writer(pipe));
            match write_bos(&mut bw, classes) {
                Ok(()) => {},
                Err(e) => return Err(e),
            }
            let w = bw.into_writer();
            let ghost data = w.bytes().take(w.pos() as int);
            let r = answer_with_written(pipe, w);
            assert(bos_data(data));
            return r;
        }
        if dtype == descriptor_type::DEVICE {
            if !complete_in {
                return Err(UsbError::InvalidState);
            }
            let mut w = control_writer(pipe);
            let ghost w0 = w;
            match w.device(config) {
                Ok(()) => {},
                Err(e) => return Err(e),
            }
            proof {
                lemma_put_descriptor_at_start(w0.bytes(), descriptor_type::DEVICE, device_descriptor_body(*config));
            }
            return answer_with_written(pipe, w);
        }
        if dtype == descriptor_type::CONFIGURATION {
            if !complete_in {
                return Err(UsbError::InvalidState);
            }
            let mut w = control_writer(pipe);
            match write_configuration(&mut w, config, classes) {
                Ok(()) => {},
                Err(e) => return Err(e),
            }
            let ghost data = w.bytes().take(w.pos() as int);
            let r = answer_with_written(pipe, w);
            assert(configuration_data(*config, data));
            return r;
        }
        if dtype == descriptor_type::STRING {
            if index == 0 {
                if !complete_in {
                    return Err(UsbError::InvalidState);
                }
                let ids = lang_ids(config);
                let mut w = control_writer(pipe);
                let ghost w0 = w;
                match w.write(descriptor_type::STRING, ids.as_slice()) {
                    Ok(()) => {},
                    Err(e) => return Err(e),
                }
                proof {
                    lemma_put_descriptor_at_start(w0.bytes(), descriptor_type::STRING, ids@);
                }
                return answer_with_written(pipe, w);
            }
            let lang_id = LangID::from(req.index);
            let string = if index <= 3 {
                match find_lang(config, lang_id) {
                    None => return pipe.reject(),
                    Some(k) => {
                        let langs = string_table_as_slice(&config.string_descriptors);
                        let lang = &langs[k];
                        if index == 1 {
                            lang.manufacturer_string()
                        } else if index == 2 {
                            lang.product_string()
                        } else {
                            lang.serial_string()
                        }
                    },
                }
            } else {
                class_string(classes, index, lang_id)
            };
            match string {
                Some(s) => {
                    let ghost written = fitting(descriptor_bytes(descriptor_type::STRING, string_body(s@)), pipe.spec_buf().len());
                    if !complete_in {
                        assert(descriptor_answered(*old(pipe), *pipe, Err(UsbError::InvalidState), written));
                        return Err(UsbError::InvalidState);
                    }
                    let mut w = control_writer(pipe);
                    let ghost w0 = w;
                    match w.string(s) {
                        Ok(()) => {},
                        Err(e) => {
                            assert(descriptor_answered(*old(pipe), *pipe, Err(e), written));
                            return Err(e);
                        },
                    }
                    proof {
                        lemma_put_descriptor_at_start(w0.bytes(), descriptor_type::STRING, string_body(s@));
                    }
                    let r = answer_with_written(pipe, w);
                    assert(descriptor_answered(*old(pipe), *pipe, r, written));
                    return r;
                },
                None => return pipe.reject(),
            }
        }
        pipe.reject()
    }
}

} // verus!

verus! {

/// The two status bytes of a device: bit 0 tells whether it is self powered, bit 1 whether
/// remote wakeup is enabled.
pub open spec fn device_status(self_powered: bool, remote_wakeup: bool) -> Seq<u8> {
    seq![((if self_powered { 1int } else { 0int }) + (if remote_wakeup { 2int } else { 0int })) as u8, 0u8]
}

/// The two status bytes of an endpoint: bit 0 tells whether it is stalled.
pub open spec fn endpoint_status(stalled: bool) -> Seq<u8> {
    seq![if stalled { 1u8 } else { 0u8 }, 0u8]
}

/// The one byte that answers a request for a single value.
pub open spec fn single_byte(value: u8) -> Seq<u8> {
    seq![value]
}

/// Whether a request is the standard request `request` for `recipient`.
pub open spec fn is_request(req: Request, recipient: Recipient, request: u8) -> bool {
    req.recipient == recipient && req.request == request
}

impl<'a, B: UsbBus> UsbDevice<'a, B> {
    /// Whether `p1` and `r` are what the device's own answer to the standard IN request `req`
    /// gives, from the control pipe `p0` of the device `dev`.
    ///
    /// GET_STATUS is answered with the device's status, zero for an interface and, for an
    /// endpoint, whether the bus reports it stalled. GET_DESCRIPTOR is answered as
    /// [`get_descriptor_answered`] says. GET_CONFIGURATION is answered with 1 when the device is
    /// configured and 0 otherwise. GET_INTERFACE is refused for interface numbers above 255 and
    /// otherwise answered with the alternate setting that a class reports (0 when none does).
    /// Any other request is refused.
    pub open spec fn standard_in_answered(dev: Self, p0: ControlPipe<'a, B>, p1: ControlPipe<'a, B>, req: Request, r: Result<()>) -> bool {
        if is_request(req, Recipient::Device, Request::GET_STATUS) {
            ControlPipe::answered(p0, p1, r, device_status(dev.spec_self_powered(), dev.spec_remote_wakeup()))
        } else if is_request(req, Recipient::Interface, Request::GET_STATUS) {
            ControlPipe::answered(p0, p1, r, seq![0u8, 0u8])
        } else if is_request(req, Recipient::Endpoint, Request::GET_STATUS) {
            exists|stalled: bool| #[trigger] ControlPipe::answered(p0, p1, r, endpoint_status(stalled))
        } else if is_request(req, Recipient::Device, Request::GET_DESCRIPTOR) {
            get_descriptor_answered(dev.spec_config(), req, p0, p1, r)
        } else if is_request(req, Recipient::Device, Request::GET_CONFIGURATION) {
            ControlPipe::answered(p0, p1, r,
                single_byte(if dev.spec_state() == UsbDeviceState::Configured { CONFIGURATION_VALUE } else { CONFIGURATION_NONE }))
        } else if is_request(req, Recipient::Interface, Request::GET_INTERFACE) {
            if req.index > 255 {
                ControlPipe::rejected(p0, p1, r)
            } else {
                exists|setting: u8| #[trigger] ControlPipe::answered(p0, p1, r, single_byte(setting))
            }
        } else {
            ControlPipe::rejected(p0, p1, r)
        }
    }

    /// Answers a standard IN request that no class answered; see [`Self::standard_in_answered`].
    fn standard_control_in<C: UsbClass<B>>(&mut self, classes: &mut [C], req: Request) -> (r: Result<()>)
        requires
            is_waiting(old(self).spec_pipe().spec_state()),
        ensures
            final(classes)@.len() == old(classes)@.len(),
            Self::same_device(*old(self), *final(self)),
            Self::standard_in_answered(*old(self), old(self).spec_pipe(), final(self).spec_pipe(), req, r),
            is_request(req, Recipient::Interface, Request::GET_INTERFACE) && req.index <= 255
                ==> alt_setting_answered::<B, C>(old(classes)@, req, old(self).spec_pipe(), final(self).spec_pipe(), r),
            is_request(req, Recipient::Endpoint, Request::GET_STATUS)
                ==> endpoint_status_answered(old(self).spec_bus(), req, old(self).spec_pipe(), final(self).spec_pipe(), r),
            is_request(req, Recipient::Device, Request::GET_DESCRIPTOR) && req.value / 256 == descriptor_type::CONFIGURATION && r is Ok ==>
                exists|crs: Seq<&C>, wrs: Seq<&mut DescriptorWriter>, ins: Seq<DescriptorWriter>, outs: Seq<DescriptorWriter>,
                    last: DescriptorWriter|
                #![trigger crs.len(), wrs.len(), configuration_chain(zero_bytes(old(self).spec_pipe().spec_buf().len()), old(self).spec_config(), ins, outs, last)] {
                &&& crs.len() == old(classes)@.len()
                &&& wrs.len() == old(classes)@.len()
                &&& ins.len() == old(classes)@.len()
                &&& outs.len() == old(classes)@.len()
                &&& forall|k: int| 0 <= k < crs.len() ==> #[trigger] call_ensures(C::get_configuration_descriptors, (crs[k], wrs[k]), Ok::<(), UsbError>(()))
                &&& forall|k: int| 0 <= k < crs.len() ==> *#[trigger] crs[k] == old(classes)@[k]
                &&& forall|k: int| 0 <= k < wrs.len() ==> *#[trigger] wrs[k] == ins[k] && *final(wrs[k]) == outs[k]
                &&& configuration_chain(zero_bytes(old(self).spec_pipe().spec_buf().len()), old(self).spec_config(), ins, outs, last)
                &&& ControlPipe::answered(old(self).spec_pipe(), final(self).spec_pipe(), r, last.bytes().take(last.pos() as int))
            },
    {
        let ghost p0 = self.control;
        if req.recipient == Recipient::Device && req.request == Request::GET_STATUS {
            let status: u8 = (if self.self_powered { 1u8 } else { 0u8 }) + (if self.remote_wakeup_enabled { 2u8 } else { 0u8 });
            let data: [u8; 2] = [status, 0];
            assert(data@ =~= device_status(self.self_powered, self.remote_wakeup_enabled));
            return self.control.accept_in_with(data.as_slice());
        }
        if req.recipient == Recipient::Interface && req.request == Request::GET_STATUS {
            let data: [u8; 2] = [0, 0];
            assert(data@ =~= seq![0u8, 0u8]);
            return self.control.accept_in_with(data.as_slice());
        }
        if req.recipient == Recipient::Endpoint && req.request == Request::GET_STATUS {
            let ep_addr = EndpointAddress::from_byte(((req.index % 256) as u8) & 0x8f);
            let stalled = self.bus.is_stalled(ep_addr);
            let data: [u8; 2] = [if stalled { 1 } else { 0 }, 0];
            assert(data@ =~= endpoint_status(stalled));
            let r = self.control.accept_in_with(data.as_slice());
            assert(ControlPipe::answered(p0, self.control, r, endpoint_status(stalled)));
            assert(call_ensures(B::is_stalled, (self.bus, ep_addr), stalled));
            assert(ep_addr@ == halt_address_byte(req.index));
            assert(old(self).spec_bus() == self.bus);
            assert(call_ensures(B::is_stalled, (old(self).spec_bus(), ep_addr), stalled));
            assert(ControlPipe::answered(old(self).spec_pipe(), self.spec_pipe(), r, endpoint_status(stalled)));
            return r;
        }
        if req.recipient == Recipient::Device && req.request == Request::GET_DESCRIPTOR {
            return Self::get_descriptor(&self.config, classes, &mut self.control, req);
        }
        if req.recipient == Recipient::Device && req.request == Request::GET_CONFIGURATION {
            let config = match self.device_state {
                UsbDeviceState::Configured => CONFIGURATION_VALUE,
                _ => CONFIGURATION_NONE,
            };
            let data: [u8; 1] = [config];
            assert(data@ =~= single_byte(config));
            return self.control.accept_in_with(data.as_slice());
        }
        if req.recipient == Recipient::Interface && req.request == Request::GET_INTERFACE {
            // Reject interface numbers bigger than 255
            if req.index > 255 {
                return self.control.reject();
            }
            // Ask class implementations whether they know the alternate setting of the interface
            let interface = InterfaceNumber::new(req.index as u8);
            let n = classes.len();
            let mut setting: Option<u8> = None;
            let mut i: usize = 0;
            let ghost mut answers: Seq<Option<u8>> = Seq::empty();
            while i < n && setting.is_none()
                invariant
                    i <= n,
                    n == classes.len(),
                    n == old(classes)@.len(),
                    interface@ == req.index as u8,
                    answers.len() == i,
                    setting == (if i == 0 { None } else { answers.last() }),
                    forall|j: int| 0 <= j < i - 1 ==> #[trigger] answers[j] is None,
                    forall|j: int| 0 <= j < answers.len() ==> #[trigger] class_alt_setting::<B, C>(old(classes)@[j], req.index as u8, answers[j]),
                    classes@.len() == n,
                    forall|j: int| i <= j < n ==> #[trigger] classes@[j] == old(classes)@[j],
                decreases n - i,
            {
                setting = classes[i].get_alt_setting(interface);
                proof {
                    answers = answers.push(setting);
                    assert(class_alt_setting::<B, C>(old(classes)@[i as int], req.index as u8, answers[i as int]));
                }
                i = i + 1;
            }
            proof {
                assert(asked_in_order(answers, n as nat));
                lemma_first_some_last(answers);
            }
            // If no class returned an alternate setting, answer with the default value
            let value = match setting {
                Some(v) => v,
                None => DEFAULT_ALTERNATE_SETTING,
            };
            let data: [u8; 1] = [value];
            assert(data@ =~= single_byte(value));
            let r = self.control.accept_in_with(data.as_slice());
            assert(ControlPipe::answered(p0, self.control, r, single_byte(value)));
            return r;
        }
        self.control.reject()
    }
}

} // verus!

verus! {

impl<'a, B: UsbBus> UsbDevice<'a, B> {
    /// Whether `after` keeps the device state, the remote wakeup flag and the pending address of
    /// `before`.
    pub open spec fn same_flags(before: Self, after: Self) -> bool {
        &&& after.spec_state() == before.spec_state()
        &&& after.spec_remote_wakeup() == before.spec_remote_wakeup()
        &&& after.spec_pending_address() == before.spec_pending_address()
    }

    /// Whether `after` and `r` are what the device's own handling of the standard OUT request
    /// `req` gives, from the device `before` whose control pipe is `p0`.
    ///
    /// CLEAR_FEATURE and SET_FEATURE of remote wakeup disable and enable it; those of the halt
    /// feature of an endpoint have the bus clear or set its stall. SET_ADDRESS with an address
    /// from 1 to 127 sets the address at once and makes the device `Addressed` when the bus asks
    /// for the address before the status stage, and otherwise keeps the address until the status
    /// stage completes. SET_CONFIGURATION 1 makes the device `Configured`; SET_CONFIGURATION 0
    /// makes a device that is not in its `Default` state `Addressed`. All of these are accepted.
    /// SET_INTERFACE is refused for interface numbers or settings above 255, accepted when a
    /// class takes the setting or the setting is 0, and otherwise refused. Any other request is
    /// refused. The power flag, the remembered state, the settings and the bus never change.
    pub open spec fn standard_out_answered(before: Self, p0: ControlPipe<'a, B>, after: Self, req: Request, r: Result<()>) -> bool {
        let p1 = after.spec_pipe();
        &&& after.spec_self_powered() == before.spec_self_powered()
        &&& after.spec_suspended() == before.spec_suspended()
        &&& after.spec_config() == before.spec_config()
        &&& after.spec_bus() == before.spec_bus()
        &&& if is_request(req, Recipient::Device, Request::CLEAR_FEATURE) && req.value == Request::FEATURE_DEVICE_REMOTE_WAKEUP {
            &&& !after.spec_remote_wakeup()
            &&& after.spec_state() == before.spec_state()
            &&& after.spec_pending_address() == before.spec_pending_address()
            &&& ControlPipe::accepted_out(p0, p1, r)
        } else if is_request(req, Recipient::Device, Request::SET_FEATURE) && req.value == Request::FEATURE_DEVICE_REMOTE_WAKEUP {
            &&& after.spec_remote_wakeup()
            &&& after.spec_state() == before.spec_state()
            &&& after.spec_pending_address() == before.spec_pending_address()
            &&& ControlPipe::accepted_out(p0, p1, r)
        } else if (is_request(req, Recipient::Endpoint, Request::CLEAR_FEATURE) || is_request(req, Recipient::Endpoint, Request::SET_FEATURE))
            && req.value == Request::FEATURE_ENDPOINT_HALT {
            Self::same_flags(before, after) && ControlPipe::accepted_out(p0, p1, r)
        } else if is_request(req, Recipient::Device, Request::SET_ADDRESS) && 1 <= req.value <= 127 {
            &&& after.spec_remote_wakeup() == before.spec_remote_wakeup()
            &&& if B::QUIRK_SET_ADDRESS_BEFORE_STATUS {
                after.spec_state() == UsbDeviceState::Addressed && after.spec_pending_address() == before.spec_pending_address()
            } else {
                after.spec_state() == before.spec_state() && after.spec_pending_address() == req.value
            }
            &&& ControlPipe::accepted_out(p0, p1, r)
        } else if is_request(req, Recipient::Device, Request::SET_CONFIGURATION) && req.value == CONFIGURATION_VALUE {
            &&& after.spec_state() == UsbDeviceState::Configured
            &&& after.spec_remote_wakeup() == before.spec_remote_wakeup()
            &&& after.spec_pending_address() == before.spec_pending_address()
            &&& ControlPipe::accepted_out(p0, p1, r)
        } else if is_request(req, Recipient::Device, Request::SET_CONFIGURATION) && req.value == CONFIGURATION_NONE {
            &&& after.spec_state() == (if before.spec_state() == UsbDeviceState::Default {
                UsbDeviceState::Default
            } else {
                UsbDeviceState::Addressed
            })
            &&& after.spec_remote_wakeup() == before.spec_remote_wakeup()
            &&& after.spec_pending_address() == before.spec_pending_address()
            &&& ControlPipe::accepted_out(p0, p1, r)
        } else if is_request(req, Recipient::Interface, Request::SET_INTERFACE) {
            &&& Self::same_flags(before, after)
            &&& if req.index > 255 || req.value > 255 {
                ControlPipe::rejected(p0, p1, r)
            } else if req.value == DEFAULT_ALTERNATE_SETTING {
                ControlPipe::accepted_out(p0, p1, r)
            } else {
                ControlPipe::accepted_out(p0, p1, r) || ControlPipe::rejected(p0, p1, r)
            }
        } else {
            Self::same_flags(before, after) && ControlPipe::rejected(p0, p1, r)
        }
    }

    /// Answers a standard OUT request that no class answered; see
    /// [`Self::standard_out_answered`].
    fn standard_control_out<C: UsbClass<B>>(&mut self, classes: &mut [C], req: Request) -> (r: Result<()>)
        requires
            old(self).inv(),
            old(self).spec_state() != UsbDeviceState::Suspend,
            is_waiting(old(self).spec_pipe().spec_state()),
        ensures
            final(classes)@.len() == old(classes)@.len(),
            final(self).inv(),
            Self::standard_out_answered(*old(self), old(self).spec_pipe(), *final(self), req, r),
            quirk_address_given(old(self).spec_bus(), req),
            is_request(req, Recipient::Interface, Request::SET_INTERFACE) && req.index <= 255 && req.value <= 255
                ==> alt_setting_set::<B, C>(old(classes)@, req, old(self).spec_pipe(), final(self).spec_pipe(), r),
            (is_request(req, Recipient::Endpoint, Request::CLEAR_FEATURE) || is_request(req, Recipient::Endpoint, Request::SET_FEATURE))
                && req.value == Request::FEATURE_ENDPOINT_HALT
                ==> exists|addr: EndpointAddress, halt: bool| #[trigger] call_ensures(B::set_stalled, (old(self).spec_bus(), addr, halt), ())
                    && addr@ == halt_address_byte(req.index) && halt == (req.request == Request::SET_FEATURE),
    {
        if req.recipient == Recipient::Device && req.request == Request::CLEAR_FEATURE
            && req.value == Request::FEATURE_DEVICE_REMOTE_WAKEUP {
            self.remote_wakeup_enabled = false;
            return self.control.accept_out();
        }
        if req.recipient == Recipient::Device && req.request == Request::SET_FEATURE
            && req.value == Request::FEATURE_DEVICE_REMOTE_WAKEUP {
            self.remote_wakeup_enabled = true;
            return self.control.accept_out();
        }
        if req.recipient == Recipient::Endpoint && (req.request == Request::CLEAR_FEATURE || req.request == Request::SET_FEATURE)
            && req.value == Request::FEATURE_ENDPOINT_HALT {
            let ep_addr = EndpointAddress::from_byte(((req.index % 256) as u8) & 0x8f);
            self.bus.set_stalled(ep_addr, req.request == Request::SET_FEATURE);
            return self.control.accept_out();
        }
        if req.recipient == Recipient::Device && req.request == Request::SET_ADDRESS && 1 <= req.value && req.value <= 127 {
            if B::QUIRK_SET_ADDRESS_BEFORE_STATUS {
                self.bus.set_device_address(req.value as u8);
                self.device_state = UsbDeviceState::Addressed;
            } else {
                self.pending_address = req.value as u8;
            }
            return self.control.accept_out();
        }
        if req.recipient == Recipient::Device && req.request == Request::SET_CONFIGURATION
            && req.value == CONFIGURATION_VALUE as u16 {
            self.device_state = UsbDeviceState::Configured;
            return self.control.accept_out();
        }
        if req.recipient == Recipient::Device && req.request == Request::SET_CONFIGURATION
            && req.value == CONFIGURATION_NONE as u16 {
            match self.device_state {
                UsbDeviceState::Default => {},
                _ => {
                    self.device_state = UsbDeviceState::Addressed;
                },
            }
            return self.control.accept_out();
        }
        if req.recipient == Recipient::Interface && req.request == Request::SET_INTERFACE {
            // Reject interface numbers and alt settings bigger than 255
            if req.index > 255 || req.value > 255 {
                return self.control.reject();
            }
            // Ask class implementations whether they accept the alternate interface setting.
            let interface = InterfaceNumber::new(req.index as u8);
            let setting = req.value as u8;
            let n = classes.len();
            let mut accepted = false;
            let mut i: usize = 0;
            let ghost mut answers: Seq<bool> = Seq::empty();
            while i < n && !accepted
                invariant
                    i <= n,
                    n == classes.len(),
                    n == old(classes)@.len(),
                    interface@ == req.index as u8,
                    setting == req.value as u8,
                    answers.len() == i,
                    accepted == (i > 0 && answers.last()),
                    forall|j: int| 0 <= j < i - 1 ==> !#[trigger] answers[j],
                    forall|j: int| 0 <= j < answers.len() ==> #[trigger] class_set_alt::<B, C>(old(classes)@[j], req.index as u8,
                        req.value as u8, answers[j]),
                    classes@.len() == n,
                    forall|j: int| i <= j < n ==> #[trigger] classes@[j] == old(classes)@[j],
                    self.control == old(self).control,
                    *self == *old(self),
                decreases n - i,
            {
                accepted = classes[i].set_alt_setting(interface, setting);
                proof {
                    answers = answers.push(accepted);
                    assert(class_set_alt::<B, C>(old(classes)@[i as int], req.index as u8, req.value as u8, answers[i as int]));
                }
                i = i + 1;
            }
            proof {
                assert(answers_until_true(answers, n as nat));
                assert(accepted == answers.contains(true)) by {
                    if accepted {
                        assert(answers[answers.len() - 1]);
                    } else {
                        assert forall|j: int| 0 <= j < answers.len() implies !answers[j] by {}
                    }
                }
            }
            if accepted || req.value == DEFAULT_ALTERNATE_SETTING as u16 {
                return self.control.accept_out();
            }
            return self.control.reject();
        }
        self.control.reject()
    }

    /// Whether `after` and `r` are what handling the OUT request `req` gives once the classes
    /// have been offered it and left the control pipe `p`: nothing more when a class answered,
    /// the device's own handling of a standard request, and otherwise a refusal.
    pub open spec fn out_handled(before: Self, p: ControlPipe<'a, B>, after: Self, req: Request, r: Result<()>) -> bool {
        if !is_waiting(p.spec_state()) {
            r is Ok && Self::same_device(before, after) && after.spec_pipe() == p
        } else if req.request_type == RequestType::Standard {
            Self::standard_out_answered(before, p, after, req, r)
        } else {
            Self::same_device(before, after) && ControlPipe::rejected(p, after.spec_pipe(), r)
        }
    }

    /// Whether `after` and `r` are what handling the IN request `req` gives once the classes have
    /// been offered it and left the control pipe `p`: nothing more when a class answered, the
    /// device's own answer to a standard request, and otherwise a refusal.
    pub open spec fn in_handled(before: Self, p: ControlPipe<'a, B>, after: Self, req: Request, r: Result<()>) -> bool {
        &&& Self::same_device(before, after)
        &&& if !is_waiting(p.spec_state()) {
            r is Ok && after.spec_pipe() == p
        } else if req.request_type == RequestType::Standard {
            Self::standard_in_answered(before, p, after.spec_pipe(), req, r)
        } else {
            ControlPipe::rejected(p, after.spec_pipe(), r)
        }
    }

    /// Handles an OUT request: offers it to the classes in turn until one answers, then handles
    /// it as [`Self::out_handled`] says, from whatever the classes left the control pipe in.
    fn control_out<C: UsbClass<B>>(&mut self, classes: &mut [C], req: Request) -> (r: Result<()>)
        requires
            old(self).inv(),
            old(self).spec_state() != UsbDeviceState::Suspend,
            is_waiting(old(self).spec_pipe().spec_state()),
        ensures
            final(classes)@.len() == old(classes)@.len(),
            final(self).inv(),
            exists|pipes: Seq<ControlPipe<'a, B>>| #[trigger] offered_in_order(pipes, old(classes)@.len(), old(self).spec_pipe())
                && Self::out_handled(*old(self), pipes.last(), *final(self), req, r),
            exists|pipes: Seq<ControlPipe<'a, B>>, crs: Seq<&mut C>, xs: Seq<ControlOut<'a, '_, '_, B>>|
                #![trigger offered_in_order(pipes, old(classes)@.len(), old(self).spec_pipe()), crs.len(), xs.len()] {
                &&& offered_in_order(pipes, old(classes)@.len(), old(self).spec_pipe())
                &&& Self::out_handled(*old(self), pipes.last(), *final(self), req, r)
                &&& crs.len() == pipes.len() - 1
                &&& xs.len() == pipes.len() - 1
                &&& forall|k: int| 0 <= k < crs.len() ==> #[trigger] call_ensures(C::control_out, (crs[k], xs[k]), ())
                &&& forall|k: int| 0 <= k < crs.len() ==> *(#[trigger] crs[k]) == old(classes)@[k]
                &&& forall|k: int| 0 <= k < xs.len() ==> (#[trigger] xs[k]).spec_request() == req && xs[k].spec_pipe() == pipes[k]
                    && *final(xs[k].pipe) == pipes[k + 1]
            },
            old(classes)@.len() == 0 ==> Self::out_handled(*old(self), old(self).spec_pipe(), *final(self), req, r),
    {
        let n = classes.len();
        let mut i: usize = 0;
        let ghost before = *self;
        let ghost mut pipes: Seq<ControlPipe<'a, B>> = seq![self.control];
        proof {
            let c0: Seq<&mut C> = Seq::empty();
            let x0: Seq<ControlOut<'a, '_, '_, B>> = Seq::empty();
            assert(c0.len() == 0 && x0.len() == 0);
        }
        while i < n
            invariant
                i <= n,
                n == classes.len(),
                n == old(classes)@.len(),
                classes@.len() == n,
                forall|k: int| i <= k < n ==> #[trigger] classes@[k] == old(classes)@[k],
                i == 0 ==> *self == before,
                pipes.len() == i + 1,
                pipes[0] == before.spec_pipe(),
                pipes.last() == self.control,
                forall|j: int| 0 <= j < pipes.len() ==> is_waiting(#[trigger] pipes[j].spec_state()),
                Self::same_device(before, *self),
                before.inv(),
                before.spec_state() != UsbDeviceState::Suspend,
                before == *old(self),
                is_waiting(self.control.spec_state()),
                exists|crs: Seq<&mut C>, xs: Seq<ControlOut<'a, '_, '_, B>>| #![trigger crs.len(), xs.len()] {
                    &&& crs.len() == i
                    &&& xs.len() == i
                    &&& forall|k: int| 0 <= k < crs.len() ==> #[trigger] call_ensures(C::control_out, (crs[k], xs[k]), ())
                    &&& forall|k: int| 0 <= k < crs.len() ==> *(#[trigger] crs[k]) == old(classes)@[k]
                    &&& forall|k: int| 0 <= k < xs.len() ==> (#[trigger] xs[k]).spec_request() == req && xs[k].spec_pipe() == pipes[k]
                        && *final(xs[k].pipe) == pipes[k + 1]
                },
            decreases n - i,
        {
            let ghost p_before = self.control;
            let ghost c_before = classes@[i as int];
            let x = ControlOut::new(&mut self.control, &req);
            let ghost gx = x;
            classes[i].control_out(x);
            proof {
                assert(*final(gx.pipe) == self.control);
                assert(exists|cr: &mut C| #[trigger] call_ensures(C::control_out, (cr, gx), ()) && *cr == c_before);
                let cr = choose|cr: &mut C| #[trigger] call_ensures(C::control_out, (cr, gx), ()) && *cr == c_before;
                let (crs0, xs0) = choose|crs: Seq<&mut C>, xs: Seq<ControlOut<'a, '_, '_, B>>| #![trigger crs.len(), xs.len()] {
                    &&& crs.len() == i
                    &&& xs.len() == i
                    &&& forall|k: int| 0 <= k < crs.len() ==> #[trigger] call_ensures(C::control_out, (crs[k], xs[k]), ())
                    &&& forall|k: int| 0 <= k < crs.len() ==> *(#[trigger] crs[k]) == old(classes)@[k]
                    &&& forall|k: int| 0 <= k < xs.len() ==> (#[trigger] xs[k]).spec_request() == req && xs[k].spec_pipe() == pipes[k]
                        && *final(xs[k].pipe) == pipes[k + 1]
                };
                let pipes0 = pipes;
                pipes = pipes.push(self.control);
                let crs1 = crs0.push(cr);
                let xs1 = xs0.push(gx);
                assert forall|k: int| 0 <= k < crs1.len() implies #[trigger] call_ensures(C::control_out, (crs1[k], xs1[k]), ()) by {
                    if k < i { assert(crs1[k] == crs0[k] && xs1[k] == xs0[k]); }
                }
                assert forall|k: int| 0 <= k < crs1.len() implies *(#[trigger] crs1[k]) == old(classes)@[k] by {
                    if k < i { assert(crs1[k] == crs0[k]); }
                }
                assert forall|k: int| 0 <= k < xs1.len() implies (#[trigger] xs1[k]).spec_request() == req && xs1[k].spec_pipe() == pipes[k]
                    && *final(xs1[k].pipe) == pipes[k + 1] by {
                    if k < i { assert(xs1[k] == xs0[k] && pipes[k] == pipes0[k] && pipes[k + 1] == pipes0[k + 1]); }
                }
                assert(crs1.len() == i + 1 && xs1.len() == i + 1);
            }
            if !self.control.waiting_for_response() {
                assert(Self::out_handled(*old(self), self.control, *self, req, Ok(())));
                assert(offered_in_order(pipes, n as nat, before.spec_pipe()));
                return Ok(());
            }
            i = i + 1;
        }
        let ghost p = self.control;
        assert(offered_in_order(pipes, n as nat, before.spec_pipe()));
        if req.request_type == RequestType::Standard {
            let r = self.standard_control_out(classes, req);
            assert(Self::out_handled(*old(self), p, *self, req, r));
            return r;
        }
        let r = self.control.reject();
        assert(Self::out_handled(*old(self), p, *self, req, r));
        r
    }

    /// Handles an IN request: offers it to the classes in turn until one answers, then handles it
    /// as [`Self::in_handled`] says, from whatever the classes left the control pipe in.
    fn control_in<C: UsbClass<B>>(&mut self, classes: &mut [C], req: Request) -> (r: Result<()>)
        requires
            is_waiting(old(self).spec_pipe().spec_state()),
        ensures
            final(classes)@.len() == old(classes)@.len(),
            exists|pipes: Seq<ControlPipe<'a, B>>| #[trigger] offered_in_order(pipes, old(classes)@.len(), old(self).spec_pipe())
                && Self::in_handled(*old(self), pipes.last(), *final(self), req, r),
            exists|pipes: Seq<ControlPipe<'a, B>>, crs: Seq<&mut C>, xs: Seq<ControlIn<'a, '_, '_, B>>|
                #![trigger offered_in_order(pipes, old(classes)@.len(), old(self).spec_pipe()), crs.len(), xs.len()] {
                &&& offered_in_order(pipes, old(classes)@.len(), old(self).spec_pipe())
                &&& Self::in_handled(*old(self), pipes.last(), *final(self), req, r)
                &&& crs.len() == pipes.len() - 1
                &&& xs.len() == pipes.len() - 1
                &&& forall|k: int| 0 <= k < crs.len() ==> #[trigger] call_ensures(C::control_in, (crs[k], xs[k]), ())
                &&& forall|k: int| 0 <= k < crs.len() ==> *(#[trigger] crs[k]) == old(classes)@[k]
                &&& forall|k: int| 0 <= k < xs.len() ==> (#[trigger] xs[k]).spec_request() == req && xs[k].spec_pipe() == pipes[k]
                    && *final(xs[k].pipe) == pipes[k + 1]
            },
            old(classes)@.len() == 0 ==> Self::in_handled(*old(self), old(self).spec_pipe(), *final(self), req, r),
    {
        let n = classes.len();
        let mut i: usize = 0;
        let ghost before = *self;
        let ghost mut pipes: Seq<ControlPipe<'a, B>> = seq![self.control];
        proof {
            let c0: Seq<&mut C> = Seq::empty();
            let x0: Seq<ControlIn<'a, '_, '_, B>> = Seq::empty();
            assert(c0.len() == 0 && x0.len() == 0);
        }
        while i < n
            invariant
                i <= n,
                n == classes.len(),
                n == old(classes)@.len(),
                classes@.len() == n,
                forall|k: int| i <= k < n ==> #[trigger] classes@[k] == old(classes)@[k],
                i == 0 ==> *self == before,
                pipes.len() == i + 1,
                pipes[0] == before.spec_pipe(),
                pipes.last() == self.control,
                forall|j: int| 0 <= j < pipes.len() ==> is_waiting(#[trigger] pipes[j].spec_state()),
                Self::same_device(before, *self),
                before == *old(self),
                is_waiting(self.control.spec_state()),
                exists|crs: Seq<&mut C>, xs: Seq<ControlIn<'a, '_, '_, B>>| #![trigger crs.len(), xs.len()] {
                    &&& crs.len() == i
                    &&& xs.len() == i
                    &&& forall|k: int| 0 <= k < crs.len() ==> #[trigger] call_ensures(C::control_in, (crs[k], xs[k]), ())
                    &&& forall|k: int| 0 <= k < crs.len() ==> *(#[trigger] crs[k]) == old(classes)@[k]
                    &&& forall|k: int| 0 <= k < xs.len() ==> (#[trigger] xs[k]).spec_request() == req && xs[k].spec_pipe() == pipes[k]
                        && *final(xs[k].pipe) == pipes[k + 1]
                },
            decreases n - i,
        {
            let ghost p_before = self.control;
            let ghost c_before = classes@[i as int];
            let x = ControlIn::new(&mut self.control, &req);
            let ghost gx = x;
            classes[i].control_in(x);
            proof {
                assert(*final(gx.pipe) == self.control);
                assert(exists|cr: &mut C| #[trigger] call_ensures(C::control_in, (cr, gx), ()) && *cr == c_before);
                let cr = choose|cr: &mut C| #[trigger] call_ensures(C::control_in, (cr, gx), ()) && *cr == c_before;
                let (crs0, xs0) = choose|crs: Seq<&mut C>, xs: Seq<ControlIn<'a, '_, '_, B>>| #![trigger crs.len(), xs.len()] {
                    &&& crs.len() == i
                    &&& xs.len() == i
                    &&& forall|k: int| 0 <= k < crs.len() ==> #[trigger] call_ensures(C::control_in, (crs[k], xs[k]), ())
                    &&& forall|k: int| 0 <= k < crs.len() ==> *(#[trigger] crs[k]) == old(classes)@[k]
                    &&& forall|k: int| 0 <= k < xs.len() ==> (#[trigger] xs[k]).spec_request() == req && xs[k].spec_pipe() == pipes[k]
                        && *final(xs[k].pipe) == pipes[k + 1]
                };
                let pipes0 = pipes;
                pipes = pipes.push(self.control);
                let crs1 = crs0.push(cr);
                let xs1 = xs0.push(gx);
                assert forall|k: int| 0 <= k < crs1.len() implies #[trigger] call_ensures(C::control_in, (crs1[k], xs1[k]), ()) by {
                    if k < i { assert(crs1[k] == crs0[k] && xs1[k] == xs0[k]); }
                }
                assert forall|k: int| 0 <= k < crs1.len() implies *(#[trigger] crs1[k]) == old(classes)@[k] by {
                    if k < i { assert(crs1[k] == crs0[k]); }
                }
                assert forall|k: int| 0 <= k < xs1.len() implies (#[trigger] xs1[k]).spec_request() == req && xs1[k].spec_pipe() == pipes[k]
                    && *final(xs1[k].pipe) == pipes[k + 1] by {
                    if k < i { assert(xs1[k] == xs0[k] && pipes[k] == pipes0[k] && pipes[k + 1] == pipes0[k + 1]); }
                }
                assert(crs1.len() == i + 1 && xs1.len() == i + 1);
            }
            if !self.control.waiting_for_response() {
                assert(Self::in_handled(*old(self), self.control, *self, req, Ok(())));
                assert(offered_in_order(pipes, n as nat, before.spec_pipe()));
                return Ok(());
            }
            i = i + 1;
        }
        let ghost p = self.control;
        assert(offered_in_order(pipes, n as nat, before.spec_pipe()));
        if req.request_type == RequestType::Standard {
            let r = self.standard_control_in(classes, req);
            assert(Self::in_handled(*old(self), p, *self, req, r));
            return r;
        }
        let r = self.control.reject();
        assert(Self::in_handled(*old(self), p, *self, req, r));
        r
    }
}

} // verus!

verus! {

impl<'a, B: UsbBus> UsbDevice<'a, B> {
    /// Whether `after` is `before` after a USB reset: back in the `Default` state, nothing
    /// remembered from before a suspend, remote wakeup disabled, no pending address and no
    /// transfer in progress; the power flag, the settings and the bus stay.
    pub open spec fn reset_done(before: Self, after: Self) -> bool {
        &&& after.spec_state() == UsbDeviceState::Default
        &&& after.spec_suspended() is None
        &&& !after.spec_remote_wakeup()
        &&& after.spec_pending_address() == 0
        &&& after.spec_self_powered() == before.spec_self_powered()
        &&& after.spec_config() == before.spec_config()
        &&& after.spec_bus() == before.spec_bus()
        &&& ControlPipe::only_state(before.spec_pipe(), after.spec_pipe(), ControlState::Idle)
    }

    /// Whether `after` is `before` whose control pipe `p` handled the completion of an IN packet
    /// on endpoint 0: when that completed the status stage of a SET_ADDRESS request (for a bus
    /// that takes the address after the status stage), the pending address takes effect and the
    /// device becomes `Addressed`.
    pub open spec fn in_complete_latched(before: Self, p: ControlPipe<'a, B>, after: Self) -> bool {
        let completed = p.spec_state() is StatusIn;
        &&& ControlPipe::in_complete_handled(p, after.spec_pipe(), completed)
        &&& after.spec_remote_wakeup() == before.spec_remote_wakeup()
        &&& after.spec_self_powered() == before.spec_self_powered()
        &&& after.spec_suspended() == before.spec_suspended()
        &&& after.spec_config() == before.spec_config()
        &&& after.spec_bus() == before.spec_bus()
        &&& if !B::QUIRK_SET_ADDRESS_BEFORE_STATUS && completed && before.spec_pending_address() != 0 {
            after.spec_state() == UsbDeviceState::Addressed && after.spec_pending_address() == 0
        } else {
            after.spec_state() == before.spec_state() && after.spec_pending_address() == before.spec_pending_address()
        }
    }

    /// Whether `after` is what handling the request `req` read from endpoint 0 gives, from
    /// `before`, with some result.
    pub open spec fn ep0_request_handled(before: Self, after: Self, req: Request) -> bool {
        exists|p: ControlPipe<'a, B>, r: Result<()>| #[trigger] Self::request_handled(before, p, after, req, r)
    }

    /// Whether `after` and `r` are what handling the request `req` gives once the classes have
    /// left the control pipe `p`.
    pub open spec fn request_handled(before: Self, p: ControlPipe<'a, B>, after: Self, req: Request, r: Result<()>) -> bool {
        if req.direction == UsbDirection::In {
            Self::in_handled(before, p, after, req, r)
        } else {
            Self::out_handled(before, p, after, req, r)
        }
    }

    /// Whether `after` is what the packets that a data event reports give, from the device
    /// `before` (which is not suspended). Only endpoint 0 concerns the device itself; the events
    /// of the other endpoints go to the classes. With no event on endpoint 0 nothing changes.
    /// When only an IN packet completed on endpoint 0, the control pipe handles it as
    /// [`Self::in_complete_latched`] says. After a SETUP or OUT packet on endpoint 0, the control
    /// pipe either yields a request, which is handled, or none; in the latter case a completed
    /// IN packet reported with it is then handled.
    pub open spec fn data_handled(before: Self, after: Self, ep_out: u16, ep_in_complete: u16, ep_setup: u16) -> bool {
        if ep_setup % 2 == 0 && ep_out % 2 == 0 {
            if ep_in_complete % 2 == 0 {
                Self::same_device(before, after) && after.spec_pipe() == before.spec_pipe()
            } else {
                Self::in_complete_latched(before, before.spec_pipe(), after)
            }
        } else {
            exists|p: ControlPipe<'a, B>, r: Option<Request>| {
                &&& #[trigger] ep0_read(before.spec_pipe(), p, r, ep_setup)
                &&& match r {
                    Some(req) => Self::ep0_request_handled(before, after, req),
                    None => if ep_in_complete % 2 != 0 {
                        Self::in_complete_latched(before, p, after)
                    } else {
                        Self::same_device(before, after) && after.spec_pipe() == p
                    },
                }
            }
        }
    }

    /// Whether `dev` is `before` resumed: its state is the state it had before the suspend and
    /// it remembers none; everything else is the same.
    pub open spec fn resumed(before: Self, dev: Self) -> bool {
        &&& dev.spec_state() == (if before.spec_state() == UsbDeviceState::Suspend {
            before.spec_suspended()->0
        } else {
            before.spec_state()
        })
        &&& dev.spec_suspended() is None
        &&& dev.spec_remote_wakeup() == before.spec_remote_wakeup()
        &&& dev.spec_self_powered() == before.spec_self_powered()
        &&& dev.spec_pending_address() == before.spec_pending_address()
        &&& dev.spec_config() == before.spec_config()
        &&& dev.spec_bus() == before.spec_bus()
        &&& dev.spec_pipe() == before.spec_pipe()
    }

    /// Whether `after` and `r` are what the event `pr` gives, from `before`.
    ///
    /// While suspended, a suspend or no event changes nothing; any other event first resumes the
    /// device into its state before the suspend. Then a reset resets the device
    /// ([`Self::reset_done`]), a suspend suspends it, remembering its state, and a data event is
    /// handled as [`Self::data_handled`] says; no event and a resume change nothing more. The
    /// result is true exactly for a data event: a class may then have data to read or room to
    /// write.
    pub open spec fn event_handled(before: Self, after: Self, pr: PollResult, r: bool) -> bool {
        let (state, suspended) = event_state(before.spec_state(), before.spec_suspended(), pr);
        if before.spec_state() == UsbDeviceState::Suspend && (pr is Suspend || pr is NoEvent) {
            !r && after == before
        } else {
            match pr {
                PollResult::Reset => !r && Self::reset_done(before, after),
                PollResult::Data { ep_out, ep_in_complete, ep_setup } => {
                    r && exists|dev: Self| Self::resumed(before, dev) && #[trigger] Self::data_handled(dev, after, ep_out, ep_in_complete, ep_setup)
                },
                _ => {
                    &&& !r
                    &&& after.spec_state() == state
                    &&& after.spec_suspended() == suspended
                    &&& after.spec_remote_wakeup() == before.spec_remote_wakeup()
                    &&& after.spec_self_powered() == before.spec_self_powered()
                    &&& after.spec_pending_address() == before.spec_pending_address()
                    &&& after.spec_config() == before.spec_config()
                    &&& after.spec_bus() == before.spec_bus()
                    &&& after.spec_pipe() == before.spec_pipe()
                },
            }
        }
    }

    /// Resets the device after a USB reset; see [`Self::reset_done`]. The bus and the classes
    /// are reset too.
    fn reset<C: UsbClass<B>>(&mut self, classes: &mut [C])
        ensures
            final(classes)@.len() == old(classes)@.len(),
            Self::reset_done(*old(self), *final(self)),
            call_ensures(B::reset, (old(self).spec_bus(),), ()),
            exists|refs: Seq<&mut C>| #![trigger refs.len()] {
                &&& refs.len() == old(classes)@.len()
                &&& forall|k: int| 0 <= k < refs.len() ==> #[trigger] call_ensures(C::reset, (refs[k],), ()) && *refs[k] == old(classes)@[k]
                &&& forall|k: int| 0 <= k < refs.len() ==> *final(#[trigger] refs[k]) == final(classes)@[k]
            },
    {
        self.bus.reset();
        self.device_state = UsbDeviceState::Default;
        self.suspended_device_state = None; // We may reset during Suspend
        self.remote_wakeup_enabled = false;
        self.pending_address = 0;
        self.control.reset();
        let n = classes.len();
        let mut i: usize = 0;
        let ghost after_self = *self;
        proof {
            let p0: Seq<&mut C> = Seq::empty();
            assert(p0.len() == 0);
        }
        while i < n
            invariant
                i <= n,
                n == classes.len(),
                n == classes@.len(),
                n == old(classes)@.len(),
                *self == after_self,
                forall|k: int| i <= k < n ==> #[trigger] classes@[k] == old(classes)@[k],
                exists|cur: Seq<&mut C>| #![trigger cur.len()] {
                    &&& cur.len() == i
                    &&& forall|k: int| 0 <= k < i ==> #[trigger] call_ensures(C::reset, (cur[k],), ()) && *cur[k] == old(classes)@[k]
                    &&& forall|k: int| 0 <= k < i ==> *final(#[trigger] cur[k]) == classes@[k]
                },
            decreases n - i,
        {
            let ghost before = classes@;
            classes[i].reset();
            proof {
                assert(exists|r: &mut C| #[trigger] call_ensures(C::reset, (r,), ()) && *r == before[i as int]
                    && *final(r) == classes@[i as int]);
                let r = choose|r: &mut C| #[trigger] call_ensures(C::reset, (r,), ()) && *r == before[i as int]
                    && *final(r) == classes@[i as int];
                let cur0 = choose|cur: Seq<&mut C>| #![trigger cur.len()] {
                    &&& cur.len() == i
                    &&& forall|k: int| 0 <= k < i ==> #[trigger] call_ensures(C::reset, (cur[k],), ()) && *cur[k] == old(classes)@[k]
                    &&& forall|k: int| 0 <= k < i ==> *final(#[trigger] cur[k]) == before[k]
                };
                let cur1 = cur0.push(r);
                assert forall|k: int| 0 <= k < i + 1 implies #[trigger] call_ensures(C::reset, (cur1[k],), ()) && *cur1[k] == old(classes)@[k] by {
                    if k < i { assert(cur1[k] == cur0[k]); }
                }
                assert forall|k: int| 0 <= k < i + 1 implies *final(#[trigger] cur1[k]) == classes@[k] by {
                    if k < i { assert(cur1[k] == cur0[k]); assert(classes@[k] == before[k]); }
                }
                assert(cur1.len() == i + 1);
            }
            i = i + 1;
        }
    }

    /// Handles the packets of a data event on endpoint 0; see [`Self::data_handled`].
    fn handle_ep0<C: UsbClass<B>>(&mut self, classes: &mut [C], ep_out: u16, ep_in_complete: u16, ep_setup: u16)
        requires
            old(self).inv(),
            old(self).spec_state() != UsbDeviceState::Suspend,
        ensures
            final(classes)@.len() == old(classes)@.len(),
            final(self).inv(),
            Self::data_handled(*old(self), *final(self), ep_out, ep_in_complete, ep_setup),
            address_latched(old(self).spec_bus(), old(self).spec_pending_address(), final(self).spec_pending_address()),
            ep_setup % 2 != 0 || ep_out % 2 != 0 ==> exists|p1: ControlPipe<'a, B>, got: Option<Request>|
                #![trigger ep0_read(old(self).spec_pipe(), p1, got, ep_setup)] {
                &&& ep0_read(old(self).spec_pipe(), p1, got, ep_setup)
                &&& (got is Some && got->0.direction == UsbDirection::In ==>
                    (exists|pipes: Seq<ControlPipe<'a, B>>, crs: Seq<&mut C>, xs: Seq<ControlIn<'a, '_, '_, B>>|
                    #![trigger offered_in_order(pipes, old(classes)@.len(), p1), crs.len(), xs.len()] {
                    &&& offered_in_order(pipes, old(classes)@.len(), p1)
                    &&& crs.len() == pipes.len() - 1
                    &&& xs.len() == pipes.len() - 1
                    &&& forall|k: int| 0 <= k < crs.len() ==> #[trigger] call_ensures(C::control_in, (crs[k], xs[k]), ())
                    &&& forall|k: int| 0 <= k < crs.len() ==> *(#[trigger] crs[k]) == old(classes)@[k]
                    &&& forall|k: int| 0 <= k < xs.len() ==> (#[trigger] xs[k]).spec_request() == got->0 && xs[k].spec_pipe() == pipes[k]
                        && *final(xs[k].pipe) == pipes[k + 1]
                }))
                &&& (got is Some && got->0.direction == UsbDirection::Out ==>
                    (exists|pipes: Seq<ControlPipe<'a, B>>, crs: Seq<&mut C>, xs: Seq<ControlOut<'a, '_, '_, B>>|
                    #![trigger offered_in_order(pipes, old(classes)@.len(), p1), crs.len(), xs.len()] {
                    &&& offered_in_order(pipes, old(classes)@.len(), p1)
                    &&& crs.len() == pipes.len() - 1
                    &&& xs.len() == pipes.len() - 1
                    &&& forall|k: int| 0 <= k < crs.len() ==> #[trigger] call_ensures(C::control_out, (crs[k], xs[k]), ())
                    &&& forall|k: int| 0 <= k < crs.len() ==> *(#[trigger] crs[k]) == old(classes)@[k]
                    &&& forall|k: int| 0 <= k < xs.len() ==> (#[trigger] xs[k]).spec_request() == got->0 && xs[k].spec_pipe() == pipes[k]
                        && *final(xs[k].pipe) == pipes[k + 1]
                }))
            },
    {
        if ep_setup % 2 == 0 && ep_out % 2 == 0 && ep_in_complete % 2 == 0 {
            return;
        }
        let req = if ep_setup % 2 != 0 {
            self.control.handle_setup()
        } else if ep_out % 2 != 0 {
            self.control.handle_out()
        } else {
            None
        };
        let ghost read = *self;
        proof {
            if ep_setup % 2 != 0 || ep_out % 2 != 0 {
                if req is None && read.spec_pipe() == old(self).spec_pipe() {
                    assert(ep0_read(old(self).spec_pipe(), read.spec_pipe(), req, ep_setup));
                } else if req is None && ControlPipe::only_state(old(self).spec_pipe(), read.spec_pipe(), ControlState::Error) {
                    assert(ep0_read(old(self).spec_pipe(), read.spec_pipe(), req, ep_setup));
                } else if ep_setup % 2 != 0 {
                    let packet = choose|packet: Seq<u8>| #[trigger] ControlPipe::setup_handled(old(self).spec_pipe(), read.spec_pipe(), packet, req);
                    assert(ep0_read(old(self).spec_pipe(), read.spec_pipe(), req, ep_setup));
                } else {
                    let packet = choose|packet: Seq<u8>| #[trigger] ControlPipe::out_packet_handled(old(self).spec_pipe(), read.spec_pipe(), packet, req);
                    assert(ep0_read(old(self).spec_pipe(), read.spec_pipe(), req, ep_setup));
                }
            }
        }
        match req {
            Some(req) => {
                if req.direction == UsbDirection::In {
                    let r = self.control_in(classes, req);
                    proof {
                        let p = choose|p: ControlPipe<'a, B>| #[trigger] Self::in_handled(read, p, *self, req, r);
                        assert(Self::request_handled(*old(self), p, *self, req, r));
                        assert(Self::ep0_request_handled(*old(self), *self, req));
                    }
                } else {
                    let r = self.control_out(classes, req);
                    proof {
                        let p = choose|p: ControlPipe<'a, B>| #[trigger] Self::out_handled(read, p, *self, req, r);
                        assert(Self::request_handled(*old(self), p, *self, req, r));
                        assert(Self::ep0_request_handled(*old(self), *self, req));
                    }
                }
            },
            None => {
                if ep_in_complete % 2 != 0 {
                    // An IN completion is handled only when no request was read: it may come from
                    // the status stage of a transfer, and a new SETUP or OUT packet ends that.
                    let completed = self.control.handle_in_complete();
                    if !B::QUIRK_SET_ADDRESS_BEFORE_STATUS && completed && self.pending_address != 0 {
                        self.bus.set_device_address(self.pending_address);
                        self.pending_address = 0;
                        self.device_state = UsbDeviceState::Addressed;
                    }
                    assert(Self::in_complete_latched(*old(self), read.spec_pipe(), *self));
                }
            },
        }
    }

    /// Passes the events of the endpoints other than endpoint 0 to each class in turn, then
    /// polls every class. Event by event, in the order [`endpoint_events`] gives them, every class
    /// of the list, in order, gets the event's callback ([`event_delivered`]); `vals[e]` are the
    /// classes before event `e` and each callback leaves its class as the next event finds it.
    /// Then every class is polled once.
    fn dispatch_endpoint_events<C: UsbClass<B>>(classes: &mut [C], ep_out: u16, ep_in_complete: u16, ep_setup: u16)
        ensures
            final(classes)@.len() == old(classes)@.len(),
            exists|refs: Seq<Seq<&mut C>>, vals: Seq<Seq<C>>, polls: Seq<&mut C>|
                #![trigger refs.len(), vals.len(), polls.len()] {
                let events = endpoint_events(ep_out, ep_in_complete, ep_setup);
                let n = old(classes)@.len();
                &&& refs.len() == events.len()
                &&& vals.len() == events.len() + 1
                &&& vals[0] == old(classes)@
                &&& forall|e: int| 0 <= e < vals.len() ==> #[trigger] vals[e].len() == n
                &&& forall|e: int| 0 <= e < events.len() ==> #[trigger] events_delivered::<B, C>(events[e], refs[e], vals[e])
                &&& forall|e: int, k: int| 0 <= e < events.len() && 0 <= k < n ==> *final(#[trigger] refs[e][k]) == vals[e + 1][k]
                &&& polls.len() == n
                &&& forall|k: int| 0 <= k < n ==> #[trigger] call_ensures(C::poll, (polls[k],), ()) && *polls[k] == vals.last()[k]
                    && *final(polls[k]) == final(classes)@[k]
            },
    {
        let events = decode_endpoint_events(ep_out, ep_in_complete, ep_setup);
        let n = classes.len();
        let ghost mut vals: Seq<Seq<C>> = seq![classes@];
        proof {
            let r0: Seq<Seq<&mut C>> = Seq::empty();
            assert(r0.len() == 0 && vals.len() == 1);
        }
        let mut e: usize = 0;
        while e < events.len()
            invariant
                n == classes.len(),
                n == classes@.len(),
                n == old(classes)@.len(),
                e <= events@.len(),
                events@ == endpoint_events(ep_out, ep_in_complete, ep_setup),
                vals.len() == e + 1,
                vals[0] == old(classes)@,
                vals.last() == classes@,
                forall|j: int| 0 <= j < vals.len() ==> #[trigger] vals[j].len() == n,
                exists|refs: Seq<Seq<&mut C>>| #![trigger refs.len()] {
                    &&& refs.len() == e
                    &&& forall|j: int| 0 <= j < e ==> #[trigger] events_delivered::<B, C>(events@[j], refs[j], vals[j])
                    &&& forall|j: int, k: int| 0 <= j < e && 0 <= k < n ==> *final(#[trigger] refs[j][k]) == vals[j + 1][k]
                },
            decreases events.len() - e,
        {
            let event = events[e];
            let ghost snap = classes@;
            proof {
                let c0: Seq<&mut C> = Seq::empty();
                assert(c0.len() == 0);
            }
            let mut i: usize = 0;
            while i < n
                invariant
                    i <= n,
                    n == classes.len(),
                    n == classes@.len(),
                    snap.len() == n,
                    forall|k: int| i <= k < n ==> #[trigger] classes@[k] == snap[k],
                    exists|cur: Seq<&mut C>| #![trigger cur.len()] {
                        &&& cur.len() == i
                        &&& forall|k: int| 0 <= k < i ==> #[trigger] event_delivered::<B, C>(event, cur[k]) && *cur[k] == snap[k]
                        &&& forall|k: int| 0 <= k < i ==> *final(#[trigger] cur[k]) == classes@[k]
                    },
                decreases n - i,
            {
                let ghost before = classes@;
                match event {
                    EndpointEvent::Setup(addr) => {
                        classes[i].endpoint_setup(addr);
                        proof {
                            assert(exists|r: &mut C| #[trigger] call_ensures(C::endpoint_setup, (r, addr), ()) && *r == before[i as int]
                                && *final(r) == classes@[i as int]);
                            let r = choose|r: &mut C| #[trigger] call_ensures(C::endpoint_setup, (r, addr), ()) && *r == before[i as int]
                                && *final(r) == classes@[i as int];
                            assert(event_delivered::<B, C>(event, r));
                        }
                    },
                    EndpointEvent::Out(addr) => {
                        classes[i].endpoint_out(addr);
                        proof {
                            assert(exists|r: &mut C| #[trigger] call_ensures(C::endpoint_out, (r, addr), ()) && *r == before[i as int]
                                && *final(r) == classes@[i as int]);
                            let r = choose|r: &mut C| #[trigger] call_ensures(C::endpoint_out, (r, addr), ()) && *r == before[i as int]
                                && *final(r) == classes@[i as int];
                            assert(event_delivered::<B, C>(event, r));
                        }
                    },
                    EndpointEvent::InComplete(addr) => {
                        classes[i].endpoint_in_complete(addr);
                        proof {
                            assert(exists|r: &mut C| #[trigger] call_ensures(C::endpoint_in_complete, (r, addr), ()) && *r == before[i as int]
                                && *final(r) == classes@[i as int]);
                            let r = choose|r: &mut C| #[trigger] call_ensures(C::endpoint_in_complete, (r, addr), ()) && *r == before[i as int]
                                && *final(r) == classes@[i as int];
                            assert(event_delivered::<B, C>(event, r));
                        }
                    },
                }
                proof {
                    assert(exists|r: &mut C| #[trigger] event_delivered::<B, C>(event, r) && *r == before[i as int]
                        && *final(r) == classes@[i as int]);
                    let r = choose|r: &mut C| #[trigger] event_delivered::<B, C>(event, r) && *r == before[i as int]
                        && *final(r) == classes@[i as int];
                    let cur0 = choose|cur: Seq<&mut C>| #![trigger cur.len()] {
                        &&& cur.len() == i
                        &&& forall|k: int| 0 <= k < i ==> #[trigger] event_delivered::<B, C>(event, cur[k]) && *cur[k] == snap[k]
                        &&& forall|k: int| 0 <= k < i ==> *final(#[trigger] cur[k]) == before[k]
                    };
                    let cur1 = cur0.push(r);
                    assert forall|k: int| 0 <= k < i + 1 implies #[trigger] event_delivered::<B, C>(event, cur1[k]) && *cur1[k] == snap[k] by {
                        if k < i { assert(cur1[k] == cur0[k]); }
                    }
                    assert forall|k: int| 0 <= k < i + 1 implies *final(#[trigger] cur1[k]) == classes@[k] by {
                        if k < i { assert(cur1[k] == cur0[k]); assert(classes@[k] == before[k]); }
                    }
                    assert(cur1.len() == i + 1);
                }
                i = i + 1;
            }
            proof {
                let row = choose|cur: Seq<&mut C>| #![trigger cur.len()] {
                    &&& cur.len() == n
                    &&& forall|k: int| 0 <= k < n ==> #[trigger] event_delivered::<B, C>(event, cur[k]) && *cur[k] == snap[k]
                    &&& forall|k: int| 0 <= k < n ==> *final(#[trigger] cur[k]) == classes@[k]
                };
                let refs0 = choose|refs: Seq<Seq<&mut C>>| #![trigger refs.len()] {
                    &&& refs.len() == e
                    &&& forall|j: int| 0 <= j < e ==> #[trigger] events_delivered::<B, C>(events@[j], refs[j], vals[j])
                    &&& forall|j: int, k: int| 0 <= j < e && 0 <= k < n ==> *final(#[trigger] refs[j][k]) == vals[j + 1][k]
                };
                let vals0 = vals;
                vals = vals.push(classes@);
                assert forall|j: int| 0 <= j < vals.len() implies #[trigger] vals[j].len() == n by {
                    if j < vals0.len() { assert(vals[j] == vals0[j]); }
                }
                let refs1 = refs0.push(row);
                assert(events_delivered::<B, C>(events@[e as int], row, vals[e as int])) by {
                    assert(vals[e as int] == snap);
                    assert(event == events@[e as int]);
                }
                assert forall|j: int| 0 <= j < e + 1 implies #[trigger] events_delivered::<B, C>(events@[j], refs1[j], vals[j]) by {
                    if j < e { assert(refs1[j] == refs0[j] && vals[j] == vals0[j]); }
                }
                assert forall|j: int, k: int| 0 <= j < e + 1 && 0 <= k < n implies *final(#[trigger] refs1[j][k]) == vals[j + 1][k] by {
                    if j < e { assert(refs1[j] == refs0[j] && vals[j + 1] == vals0[j + 1]); }
                    else { assert(refs1[j] == row); assert(vals[j + 1] == classes@); }
                }
                assert(refs1.len() == e + 1);
            }
            e = e + 1;
        }
        let ghost last = classes@;
        proof {
            let p0: Seq<&mut C> = Seq::empty();
            assert(p0.len() == 0);
        }
        let mut i: usize = 0;
        while i < n
            invariant
                i <= n,
                n == classes.len(),
                n == classes@.len(),
                last.len() == n,
                forall|k: int| i <= k < n ==> #[trigger] classes@[k] == last[k],
                exists|cur: Seq<&mut C>| #![trigger cur.len()] {
                    &&& cur.len() == i
                    &&& forall|k: int| 0 <= k < i ==> #[trigger] call_ensures(C::poll, (cur[k],), ()) && *cur[k] == last[k]
                    &&& forall|k: int| 0 <= k < i ==> *final(#[trigger] cur[k]) == classes@[k]
                },
            decreases n - i,
        {
            let ghost before = classes@;
            classes[i].poll();
            proof {
                assert(exists|r: &mut C| #[trigger] call_ensures(C::poll, (r,), ()) && *r == before[i as int]
                    && *final(r) == classes@[i as int]);
                let r = choose|r: &mut C| #[trigger] call_ensures(C::poll, (r,), ()) && *r == before[i as int]
                    && *final(r) == classes@[i as int];
                let cur0 = choose|cur: Seq<&mut C>| #![trigger cur.len()] {
                    &&& cur.len() == i
                    &&& forall|k: int| 0 <= k < i ==> #[trigger] call_ensures(C::poll, (cur[k],), ()) && *cur[k] == last[k]
                    &&& forall|k: int| 0 <= k < i ==> *final(#[trigger] cur[k]) == before[k]
                };
                let cur1 = cur0.push(r);
                assert forall|k: int| 0 <= k < i + 1 implies #[trigger] call_ensures(C::poll, (cur1[k],), ()) && *cur1[k] == last[k] by {
                    if k < i { assert(cur1[k] == cur0[k]); }
                }
                assert forall|k: int| 0 <= k < i + 1 implies *final(#[trigger] cur1[k]) == classes@[k] by {
                    if k < i { assert(cur1[k] == cur0[k]); assert(classes@[k] == before[k]); }
                }
                assert(cur1.len() == i + 1);
            }
            i = i + 1;
        }
        proof {
            let polls = choose|cur: Seq<&mut C>| #![trigger cur.len()] {
                &&& cur.len() == n
                &&& forall|k: int| 0 <= k < n ==> #[trigger] call_ensures(C::poll, (cur[k],), ()) && *cur[k] == last[k]
                &&& forall|k: int| 0 <= k < n ==> *final(#[trigger] cur[k]) == classes@[k]
            };
            let refs = choose|refs: Seq<Seq<&mut C>>| #![trigger refs.len()] {
                &&& refs.len() == events@.len()
                &&& forall|j: int| 0 <= j < events@.len() ==> #[trigger] events_delivered::<B, C>(events@[j], refs[j], vals[j])
                &&& forall|j: int, k: int| 0 <= j < events@.len() && 0 <= k < n ==> *final(#[trigger] refs[j][k]) == vals[j + 1][k]
            };
            assert(vals.last() == last);
            assert(refs.len() == events@.len() && vals.len() == events@.len() + 1 && polls.len() == n);
        }
    }

    /// Handles an event that the bus reported and dispatches it to the classes; see
    /// [`Self::event_handled`]. Returns true if one of the classes may have data available for
    /// reading or be ready for writing, false otherwise.
    pub fn process_event(&mut self, classes: &mut ClassList<'_, B>, pr: PollResult) -> (r: bool)
        requires
            old(self).inv(),
        ensures
            final(self).inv(),
            Self::event_handled(*old(self), *final(self), pr, r),
            pr is Reset ==> exists|refs: Seq<&mut &mut dyn UsbClass<B>>| #![trigger refs.len()] {
                &&& refs.len() == old(classes)@.len()
                &&& forall|k: int| 0 <= k < refs.len() ==> #[trigger] call_ensures(<&mut dyn UsbClass<B> as UsbClass<B>>::reset, (refs[k],), ())
                    && *refs[k] == old(classes)@[k]
                &&& forall|k: int| 0 <= k < refs.len() ==> *final(#[trigger] refs[k]) == final(classes)@[k]
            },
            pr is Data && (pr->ep_setup % 2 != 0 || pr->ep_out % 2 != 0) ==> exists|p1: ControlPipe<'a, B>, got: Option<Request>|
                #![trigger ep0_read(old(self).spec_pipe(), p1, got, pr->ep_setup)] {
                &&& ep0_read(old(self).spec_pipe(), p1, got, pr->ep_setup)
                &&& (got is Some && got->0.direction == UsbDirection::In ==>
                    (exists|pipes: Seq<ControlPipe<'a, B>>, crs: Seq<&mut &mut dyn UsbClass<B>>, xs: Seq<ControlIn<'a, '_, '_, B>>|
                    #![trigger offered_in_order(pipes, old(classes)@.len(), p1), crs.len(), xs.len()] {
                    &&& offered_in_order(pipes, old(classes)@.len(), p1)
                    &&& crs.len() == pipes.len() - 1
                    &&& xs.len() == pipes.len() - 1
                    &&& forall|k: int| 0 <= k < crs.len() ==> #[trigger] call_ensures(<&mut dyn UsbClass<B> as UsbClass<B>>::control_in, (crs[k], xs[k]), ())
                    &&& forall|k: int| 0 <= k < crs.len() ==> *(#[trigger] crs[k]) == old(classes)@[k]
                    &&& forall|k: int| 0 <= k < xs.len() ==> (#[trigger] xs[k]).spec_request() == got->0 && xs[k].spec_pipe() == pipes[k]
                        && *final(xs[k].pipe) == pipes[k + 1]
                }))
                &&& (got is Some && got->0.direction == UsbDirection::Out ==>
                    (exists|pipes: Seq<ControlPipe<'a, B>>, crs: Seq<&mut &mut dyn UsbClass<B>>, xs: Seq<ControlOut<'a, '_, '_, B>>|
                    #![trigger offered_in_order(pipes, old(classes)@.len(), p1), crs.len(), xs.len()] {
                    &&& offered_in_order(pipes, old(classes)@.len(), p1)
                    &&& crs.len() == pipes.len() - 1
                    &&& xs.len() == pipes.len() - 1
                    &&& forall|k: int| 0 <= k < crs.len() ==> #[trigger] call_ensures(<&mut dyn UsbClass<B> as UsbClass<B>>::control_out, (crs[k], xs[k]), ())
                    &&& forall|k: int| 0 <= k < crs.len() ==> *(#[trigger] crs[k]) == old(classes)@[k]
                    &&& forall|k: int| 0 <= k < xs.len() ==> (#[trigger] xs[k]).spec_request() == got->0 && xs[k].spec_pipe() == pipes[k]
                        && *final(xs[k].pipe) == pipes[k + 1]
                }))
            },
            pr is Data ==>
                exists|mid: Seq<&mut dyn UsbClass<B>>, refs: Seq<Seq<&mut &mut dyn UsbClass<B>>>, vals: Seq<Seq<&mut dyn UsbClass<B>>>, polls: Seq<&mut &mut dyn UsbClass<B>>|
                #![trigger mid.len(), refs.len(), vals.len(), polls.len()] {
                let events = endpoint_events(pr->ep_out, pr->ep_in_complete, pr->ep_setup);
                let n = old(classes)@.len();
                &&& mid.len() == n
                &&& refs.len() == events.len()
                &&& vals.len() == events.len() + 1
                &&& vals[0] == mid
                &&& forall|e: int| 0 <= e < vals.len() ==> #[trigger] vals[e].len() == n
                &&& forall|e: int| 0 <= e < events.len() ==> #[trigger] events_delivered::<B, &mut dyn UsbClass<B>>(events[e], refs[e], vals[e])
                &&& forall|e: int, k: int| 0 <= e < events.len() && 0 <= k < n ==> *final(#[trigger] refs[e][k]) == vals[e + 1][k]
                &&& polls.len() == n
                &&& forall|k: int| 0 <= k < n ==> #[trigger] call_ensures(<&mut dyn UsbClass<B> as UsbClass<B>>::poll, (polls[k],), ()) && *polls[k] == vals.last()[k]
                    && *final(polls[k]) == final(classes)@[k]
            },
    {
        let r = self.handle_event(classes, pr);
        proof {
            if pr is Reset {
                let refs = choose|refs: Seq<&mut &mut dyn UsbClass<B>>| #![trigger refs.len()] {
                    &&& refs.len() == old(classes)@.len()
                    &&& forall|k: int| 0 <= k < refs.len() ==> #[trigger] call_ensures(<&mut dyn UsbClass<B> as UsbClass<B>>::reset, (refs[k],), ())
                        && *refs[k] == old(classes)@[k]
                    &&& forall|k: int| 0 <= k < refs.len() ==> *final(#[trigger] refs[k]) == classes@[k]
                };
                assert(refs.len() == old(classes)@.len());
            }
        }
        r
    }

    /// Handles a data event: the packets of endpoint 0 (see [`Self::handle_ep0`]), then the
    /// events of the other endpoints, which go to every class, which are then polled (see
    /// [`Self::dispatch_endpoint_events`]).
    fn handle_data<C: UsbClass<B>>(&mut self, classes: &mut [C], ep_out: u16, ep_in_complete: u16, ep_setup: u16)
        requires
            old(self).inv(),
            old(self).spec_state() != UsbDeviceState::Suspend,
        ensures
            final(classes)@.len() == old(classes)@.len(),
            final(self).inv(),
            Self::data_handled(*old(self), *final(self), ep_out, ep_in_complete, ep_setup),
            ep_setup % 2 != 0 || ep_out % 2 != 0 ==> exists|p1: ControlPipe<'a, B>, got: Option<Request>|
                #![trigger ep0_read(old(self).spec_pipe(), p1, got, ep_setup)] {
                &&& ep0_read(old(self).spec_pipe(), p1, got, ep_setup)
                &&& (got is Some && got->0.direction == UsbDirection::In ==>
                    (exists|pipes: Seq<ControlPipe<'a, B>>, crs: Seq<&mut C>, xs: Seq<ControlIn<'a, '_, '_, B>>|
                    #![trigger offered_in_order(pipes, old(classes)@.len(), p1), crs.len(), xs.len()] {
                    &&& offered_in_order(pipes, old(classes)@.len(), p1)
                    &&& crs.len() == pipes.len() - 1
                    &&& xs.len() == pipes.len() - 1
                    &&& forall|k: int| 0 <= k < crs.len() ==> #[trigger] call_ensures(C::control_in, (crs[k], xs[k]), ())
                    &&& forall|k: int| 0 <= k < crs.len() ==> *(#[trigger] crs[k]) == old(classes)@[k]
                    &&& forall|k: int| 0 <= k < xs.len() ==> (#[trigger] xs[k]).spec_request() == got->0 && xs[k].spec_pipe() == pipes[k]
                        && *final(xs[k].pipe) == pipes[k + 1]
                }))
                &&& (got is Some && got->0.direction == UsbDirection::Out ==>
                    (exists|pipes: Seq<ControlPipe<'a, B>>, crs: Seq<&mut C>, xs: Seq<ControlOut<'a, '_, '_, B>>|
                    #![trigger offered_in_order(pipes, old(classes)@.len(), p1), crs.len(), xs.len()] {
                    &&& offered_in_order(pipes, old(classes)@.len(), p1)
                    &&& crs.len() == pipes.len() - 1
                    &&& xs.len() == pipes.len() - 1
                    &&& forall|k: int| 0 <= k < crs.len() ==> #[trigger] call_ensures(C::control_out, (crs[k], xs[k]), ())
                    &&& forall|k: int| 0 <= k < crs.len() ==> *(#[trigger] crs[k]) == old(classes)@[k]
                    &&& forall|k: int| 0 <= k < xs.len() ==> (#[trigger] xs[k]).spec_request() == got->0 && xs[k].spec_pipe() == pipes[k]
                        && *final(xs[k].pipe) == pipes[k + 1]
                }))
            },
            exists|mid: Seq<C>, refs: Seq<Seq<&mut C>>, vals: Seq<Seq<C>>, polls: Seq<&mut C>|
                #![trigger mid.len(), refs.len(), vals.len(), polls.len()] {
                let events = endpoint_events(ep_out, ep_in_complete, ep_setup);
                let n = old(classes)@.len();
                &&& mid.len() == n
                &&& refs.len() == events.len()
                &&& vals.len() == events.len() + 1
                &&& vals[0] == mid
                &&& forall|e: int| 0 <= e < vals.len() ==> #[trigger] vals[e].len() == n
                &&& forall|e: int| 0 <= e < events.len() ==> #[trigger] events_delivered::<B, C>(events[e], refs[e], vals[e])
                &&& forall|e: int, k: int| 0 <= e < events.len() && 0 <= k < n ==> *final(#[trigger] refs[e][k]) == vals[e + 1][k]
                &&& polls.len() == n
                &&& forall|k: int| 0 <= k < n ==> #[trigger] call_ensures(C::poll, (polls[k],), ()) && *polls[k] == vals.last()[k]
                    && *final(polls[k]) == final(classes)@[k]
            },
    {
        self.handle_ep0(classes, ep_out, ep_in_complete, ep_setup);
        let ghost mid = classes@;
        assert(mid.len() == old(classes)@.len());
        Self::dispatch_endpoint_events(classes, ep_out, ep_in_complete, ep_setup);
    }

    /// Handles the event `pr` for the list of classes `classes`: see [`Self::event_handled`]. The
    /// classes are reset on a reset, and on a data event they get the endpoint events and are
    /// polled, as [`Self::dispatch_endpoint_events`] states, after the device handled endpoint 0.
    fn handle_event<C: UsbClass<B>>(&mut self, classes: &mut [C], pr: PollResult) -> (r: bool)
        requires
            old(self).inv(),
        ensures
            final(classes)@.len() == old(classes)@.len(),
            final(self).inv(),
            Self::event_handled(*old(self), *final(self), pr, r),
            pr is Reset ==> exists|refs: Seq<&mut C>| #![trigger refs.len()] {
                &&& refs.len() == old(classes)@.len()
                &&& forall|k: int| 0 <= k < refs.len() ==> #[trigger] call_ensures(C::reset, (refs[k],), ()) && *refs[k] == old(classes)@[k]
                &&& forall|k: int| 0 <= k < refs.len() ==> *final(#[trigger] refs[k]) == final(classes)@[k]
            },
            pr is Data && (pr->ep_setup % 2 != 0 || pr->ep_out % 2 != 0) ==> exists|p1: ControlPipe<'a, B>, got: Option<Request>|
                #![trigger ep0_read(old(self).spec_pipe(), p1, got, pr->ep_setup)] {
                &&& ep0_read(old(self).spec_pipe(), p1, got, pr->ep_setup)
                &&& (got is Some && got->0.direction == UsbDirection::In ==>
                    (exists|pipes: Seq<ControlPipe<'a, B>>, crs: Seq<&mut C>, xs: Seq<ControlIn<'a, '_, '_, B>>|
                    #![trigger offered_in_order(pipes, old(classes)@.len(), p1), crs.len(), xs.len()] {
                    &&& offered_in_order(pipes, old(classes)@.len(), p1)
                    &&& crs.len() == pipes.len() - 1
                    &&& xs.len() == pipes.len() - 1
                    &&& forall|k: int| 0 <= k < crs.len() ==> #[trigger] call_ensures(C::control_in, (crs[k], xs[k]), ())
                    &&& forall|k: int| 0 <= k < crs.len() ==> *(#[trigger] crs[k]) == old(classes)@[k]
                    &&& forall|k: int| 0 <= k < xs.len() ==> (#[trigger] xs[k]).spec_request() == got->0 && xs[k].spec_pipe() == pipes[k]
                        && *final(xs[k].pipe) == pipes[k + 1]
                }))
                &&& (got is Some && got->0.direction == UsbDirection::Out ==>
                    (exists|pipes: Seq<ControlPipe<'a, B>>, crs: Seq<&mut C>, xs: Seq<ControlOut<'a, '_, '_, B>>|
                    #![trigger offered_in_order(pipes, old(classes)@.len(), p1), crs.len(), xs.len()] {
                    &&& offered_in_order(pipes, old(classes)@.len(), p1)
                    &&& crs.len() == pipes.len() - 1
                    &&& xs.len() == pipes.len() - 1
                    &&& forall|k: int| 0 <= k < crs.len() ==> #[trigger] call_ensures(C::control_out, (crs[k], xs[k]), ())
                    &&& forall|k: int| 0 <= k < crs.len() ==> *(#[trigger] crs[k]) == old(classes)@[k]
                    &&& forall|k: int| 0 <= k < xs.len() ==> (#[trigger] xs[k]).spec_request() == got->0 && xs[k].spec_pipe() == pipes[k]
                        && *final(xs[k].pipe) == pipes[k + 1]
                }))
            },
            pr is Data ==>
                exists|mid: Seq<C>, refs: Seq<Seq<&mut C>>, vals: Seq<Seq<C>>, polls: Seq<&mut C>|
                #![trigger mid.len(), refs.len(), vals.len(), polls.len()] {
                let events = endpoint_events(pr->ep_out, pr->ep_in_complete, pr->ep_setup);
                let n = old(classes)@.len();
                &&& mid.len() == n
                &&& refs.len() == events.len()
                &&& vals.len() == events.len() + 1
                &&& vals[0] == mid
                &&& forall|e: int| 0 <= e < vals.len() ==> #[trigger] vals[e].len() == n
                &&& forall|e: int| 0 <= e < events.len() ==> #[trigger] events_delivered::<B, C>(events[e], refs[e], vals[e])
                &&& forall|e: int, k: int| 0 <= e < events.len() && 0 <= k < n ==> *final(#[trigger] refs[e][k]) == vals[e + 1][k]
                &&& polls.len() == n
                &&& forall|k: int| 0 <= k < n ==> #[trigger] call_ensures(C::poll, (polls[k],), ()) && *polls[k] == vals.last()[k]
                    && *final(polls[k]) == final(classes)@[k]
            },
    {
        if self.device_state == UsbDeviceState::Suspend {
            match pr {
                PollResult::Suspend | PollResult::NoEvent => {
                    return false;
                },
                _ => {
                    self.bus.resume();
                    self.device_state = self.suspended_device_state.unwrap();
                    self.suspended_device_state = None;
                },
            }
        }
        let ghost dev = *self;
        match pr {
            PollResult::NoEvent => {},
            PollResult::Reset => {
                assert(classes@ == old(classes)@);
                self.reset(classes);
                assert(exists|refs: Seq<&mut C>| #![trigger refs.len()] {
                    &&& refs.len() == old(classes)@.len()
                    &&& forall|k: int| 0 <= k < refs.len() ==> #[trigger] call_ensures(C::reset, (refs[k],), ()) && *refs[k] == old(classes)@[k]
                    &&& forall|k: int| 0 <= k < refs.len() ==> *final(#[trigger] refs[k]) == classes@[k]
                });
                return false;
            },
            PollResult::Data { ep_out, ep_in_complete, ep_setup } => {
                assert(self.spec_pipe() == old(self).spec_pipe());
                assert(classes@ == old(classes)@);
                self.handle_data(classes, ep_out, ep_in_complete, ep_setup);
                assert(Self::data_handled(dev, *self, ep_out, ep_in_complete, ep_setup));
                assert(exists|mid: Seq<C>, refs: Seq<Seq<&mut C>>, vals: Seq<Seq<C>>, polls: Seq<&mut C>|
                #![trigger mid.len(), refs.len(), vals.len(), polls.len()] {
                let events = endpoint_events(ep_out, ep_in_complete, ep_setup);
                let n = old(classes)@.len();
                &&& mid.len() == n
                &&& refs.len() == events.len()
                &&& vals.len() == events.len() + 1
                &&& vals[0] == mid
                &&& forall|e: int| 0 <= e < vals.len() ==> #[trigger] vals[e].len() == n
                &&& forall|e: int| 0 <= e < events.len() ==> #[trigger] events_delivered::<B, C>(events[e], refs[e], vals[e])
                &&& forall|e: int, k: int| 0 <= e < events.len() && 0 <= k < n ==> *final(#[trigger] refs[e][k]) == vals[e + 1][k]
                &&& polls.len() == n
                &&& forall|k: int| 0 <= k < n ==> #[trigger] call_ensures(C::poll, (polls[k],), ()) && *polls[k] == vals.last()[k]
                    && *final(polls[k]) == classes@[k]
            });
                return true;
            },
            PollResult::Resume => {},
            PollResult::Suspend => {
                self.bus.suspend();
                self.suspended_device_state = Some(self.device_state);
                self.device_state = UsbDeviceState::Suspend;
            },
        }
        false
    }

    /// Polls the [`UsbBus`] for new events and dispatches them to the provided classes; see
    /// [`Self::process_event`]. Returns true if one of the classes may have data available for
    /// reading or be ready for writing, false otherwise. This should be called periodically as
    /// often as possible for the best data rate, or preferably from an interrupt handler. Must be
    /// called at least once every 10 milliseconds while connected to the USB host to be USB
    /// compliant.
    ///
    /// Note: The list of classes passed in must be the same classes in the same order for every
    /// call while the device is configured, or the device may enumerate incorrectly or otherwise
    /// misbehave. Strictly speaking the list of classes is allowed to change between polls if the
    /// device has been reset, which is indicated by `state` being equal to
    /// [`UsbDeviceState::Default`].
    pub fn poll(&mut self, classes: &mut ClassList<'_, B>) -> (r: bool)
        requires
            old(self).inv(),
        ensures
            final(self).inv(),
            exists|pr: PollResult| #[trigger] Self::event_handled(*old(self), *final(self), pr, r),
            exists|pr: PollResult| #![trigger Self::event_handled(*old(self), *final(self), pr, r)] {
                &&& Self::event_handled(*old(self), *final(self), pr, r)
                &&& call_ensures(B::poll, (old(self).spec_bus(),), pr)
                &&& (pr is Reset ==> exists|refs: Seq<&mut &mut dyn UsbClass<B>>| #![trigger refs.len()] {
                &&& refs.len() == old(classes)@.len()
                &&& forall|k: int| 0 <= k < refs.len() ==> #[trigger] call_ensures(<&mut dyn UsbClass<B> as UsbClass<B>>::reset, (refs[k],), ())
                    && *refs[k] == old(classes)@[k]
                &&& forall|k: int| 0 <= k < refs.len() ==> *final(#[trigger] refs[k]) == final(classes)@[k]
            })
                &&& (pr is Data && (pr->ep_setup % 2 != 0 || pr->ep_out % 2 != 0) ==> exists|p1: ControlPipe<'a, B>, got: Option<Request>|
                #![trigger ep0_read(old(self).spec_pipe(), p1, got, pr->ep_setup)] {
                &&& ep0_read(old(self).spec_pipe(), p1, got, pr->ep_setup)
                &&& (got is Some && got->0.direction == UsbDirection::In ==>
                    (exists|pipes: Seq<ControlPipe<'a, B>>, crs: Seq<&mut &mut dyn UsbClass<B>>, xs: Seq<ControlIn<'a, '_, '_, B>>|
                    #![trigger offered_in_order(pipes, old(classes)@.len(), p1), crs.len(), xs.len()] {
                    &&& offered_in_order(pipes, old(classes)@.len(), p1)
                    &&& crs.len() == pipes.len() - 1
                    &&& xs.len() == pipes.len() - 1
                    &&& forall|k: int| 0 <= k < crs.len() ==> #[trigger] call_ensures(<&mut dyn UsbClass<B> as UsbClass<B>>::control_in, (crs[k], xs[k]), ())
                    &&& forall|k: int| 0 <= k < crs.len() ==> *(#[trigger] crs[k]) == old(classes)@[k]
                    &&& forall|k: int| 0 <= k < xs.len() ==> (#[trigger] xs[k]).spec_request() == got->0 && xs[k].spec_pipe() == pipes[k]
                        && *final(xs[k].pipe) == pipes[k + 1]
                }))
                &&& (got is Some && got->0.direction == UsbDirection::Out ==>
                    (exists|pipes: Seq<ControlPipe<'a, B>>, crs: Seq<&mut &mut dyn UsbClass<B>>, xs: Seq<ControlOut<'a, '_, '_, B>>|
                    #![trigger offered_in_order(pipes, old(classes)@.len(), p1), crs.len(), xs.len()] {
                    &&& offered_in_order(pipes, old(classes)@.len(), p1)
                    &&& crs.len() == pipes.len() - 1
                    &&& xs.len() == pipes.len() - 1
                    &&& forall|k: int| 0 <= k < crs.len() ==> #[trigger] call_ensures(<&mut dyn UsbClass<B> as UsbClass<B>>::control_out, (crs[k], xs[k]), ())
                    &&& forall|k: int| 0 <= k < crs.len() ==> *(#[trigger] crs[k]) == old(classes)@[k]
                    &&& forall|k: int| 0 <= k < xs.len() ==> (#[trigger] xs[k]).spec_request() == got->0 && xs[k].spec_pipe() == pipes[k]
                        && *final(xs[k].pipe) == pipes[k + 1]
                }))
            })
                &&& (pr is Data ==>
                exists|mid: Seq<&mut dyn UsbClass<B>>, refs: Seq<Seq<&mut &mut dyn UsbClass<B>>>, vals: Seq<Seq<&mut dyn UsbClass<B>>>, polls: Seq<&mut &mut dyn UsbClass<B>>|
                #![trigger mid.len(), refs.len(), vals.len(), polls.len()] {
                let events = endpoint_events(pr->ep_out, pr->ep_in_complete, pr->ep_setup);
                let n = old(classes)@.len();
                &&& mid.len() == n
                &&& refs.len() == events.len()
                &&& vals.len() == events.len() + 1
                &&& vals[0] == mid
                &&& forall|e: int| 0 <= e < vals.len() ==> #[trigger] vals[e].len() == n
                &&& forall|e: int| 0 <= e < events.len() ==> #[trigger] events_delivered::<B, &mut dyn UsbClass<B>>(events[e], refs[e], vals[e])
                &&& forall|e: int, k: int| 0 <= e < events.len() && 0 <= k < n ==> *final(#[trigger] refs[e][k]) == vals[e + 1][k]
                &&& polls.len() == n
                &&& forall|k: int| 0 <= k < n ==> #[trigger] call_ensures(<&mut dyn UsbClass<B> as UsbClass<B>>::poll, (polls[k],), ()) && *polls[k] == vals.last()[k]
                    && *final(polls[k]) == final(classes)@[k]
            })
            },
    {
        let pr = self.bus.poll();
        self.process_event(classes, pr)
    }
}

} // verus!

verus! {

impl<'a, B: UsbBus> UsbDevice<'a, B> {
    /// A device that is suspended and then resumed is back in the state it was in before the
    /// suspend, and remembers nothing more.
    pub proof fn lemma_suspend_resume_restores_state(d0: Self, d1: Self, d2: Self, r1: bool, r2: bool)
        requires
            d0.inv(),
            d0.spec_state() != UsbDeviceState::Suspend,
            Self::event_handled(d0, d1, PollResult::Suspend, r1),
            Self::event_handled(d1, d2, PollResult::Resume, r2),
        ensures
            d1.spec_state() == UsbDeviceState::Suspend,
            d2.spec_state() == d0.spec_state(),
            d2.spec_suspended() is None,
            d2.spec_pending_address() == d0.spec_pending_address(),
            d2.spec_remote_wakeup() == d0.spec_remote_wakeup(),
            !r1 && !r2,
    {
    }

    /// While the device is suspended, polls that report no event or another suspend leave it
    /// exactly as it is.
    pub proof fn lemma_suspended_stays(d0: Self, d1: Self, pr: PollResult, r: bool)
        requires
            d0.spec_state() == UsbDeviceState::Suspend,
            pr is NoEvent || pr is Suspend,
            Self::event_handled(d0, d1, pr, r),
        ensures
            d1 == d0,
            !r,
    {
    }

    /// A USB reset, in any state (suspended too), puts the device in its `Default` state with
    /// remote wakeup disabled and no pending address.
    pub proof fn lemma_reset_restarts(d0: Self, d1: Self, r: bool)
        requires
            Self::event_handled(d0, d1, PollResult::Reset, r),
        ensures
            d1.spec_state() == UsbDeviceState::Default,
            d1.spec_suspended() is None,
            !d1.spec_remote_wakeup(),
            d1.spec_pending_address() == 0,
            d1.spec_pipe().spec_state() == ControlState::Idle,
            !r,
    {
    }

    /// For a bus that takes the address after the status stage (USB 2.0, 9.4.6), SET_ADDRESS
    /// does not change the device's state: the address waits until the status stage of the
    /// request completes, and then takes effect and the device becomes `Addressed`.
    pub proof fn lemma_set_address_after_status(
        d0: Self,
        p0: ControlPipe<'a, B>,
        d1: Self,
        req: Request,
        r: Result<()>,
        d2: Self,
    )
        requires
            !B::QUIRK_SET_ADDRESS_BEFORE_STATUS,
            is_request(req, Recipient::Device, Request::SET_ADDRESS),
            1 <= req.value <= 127,
            p0.spec_state() is CompleteOut,
            Self::standard_out_answered(d0, p0, d1, req, r),
            Self::in_complete_latched(d1, d1.spec_pipe(), d2),
        ensures
            r is Ok,
            d1.spec_state() == d0.spec_state(),
            d1.spec_pending_address() == req.value,
            d1.spec_pipe().spec_state() == ControlState::StatusIn,
            d2.spec_state() == UsbDeviceState::Addressed,
            d2.spec_pending_address() == 0,
            d2.spec_pipe().spec_state() == ControlState::Idle,
    {
    }

    /// For a bus that needs the address before the status stage, SET_ADDRESS makes the device
    /// `Addressed` at once.
    pub proof fn lemma_set_address_before_status(d0: Self, p0: ControlPipe<'a, B>, d1: Self, req: Request, r: Result<()>)
        requires
            B::QUIRK_SET_ADDRESS_BEFORE_STATUS,
            is_request(req, Recipient::Device, Request::SET_ADDRESS),
            1 <= req.value <= 127,
            p0.spec_state() is CompleteOut,
            Self::standard_out_answered(d0, p0, d1, req, r),
        ensures
            r is Ok,
            d1.spec_state() == UsbDeviceState::Addressed,
            d1.spec_pending_address() == d0.spec_pending_address(),
    {
    }

    /// After SET_CONFIGURATION with the device's configuration value, GET_CONFIGURATION answers
    /// with that value, and after SET_CONFIGURATION 0 it answers 0.
    pub proof fn lemma_configuration_read_back(
        d0: Self,
        p0: ControlPipe<'a, B>,
        d1: Self,
        set: Request,
        r1: Result<()>,
        get: Request,
        q0: ControlPipe<'a, B>,
        q1: ControlPipe<'a, B>,
        r2: Result<()>,
    )
        requires
            is_request(set, Recipient::Device, Request::SET_CONFIGURATION),
            set.value == CONFIGURATION_VALUE || set.value == CONFIGURATION_NONE,
            Self::standard_out_answered(d0, p0, d1, set, r1),
            is_request(get, Recipient::Device, Request::GET_CONFIGURATION),
            Self::standard_in_answered(d1, q0, q1, get, r2),
        ensures
            ControlPipe::answered(q0, q1, r2, single_byte(set.value as u8)),
    {
    }

    /// After SET_FEATURE or CLEAR_FEATURE of remote wakeup, GET_STATUS of the device reports
    /// remote wakeup (bit 1) as set or clear, next to the power flag (bit 0).
    pub proof fn lemma_remote_wakeup_read_back(
        d0: Self,
        p0: ControlPipe<'a, B>,
        d1: Self,
        set: Request,
        r1: Result<()>,
        get: Request,
        q0: ControlPipe<'a, B>,
        q1: ControlPipe<'a, B>,
        r2: Result<()>,
    )
        requires
            is_request(set, Recipient::Device, Request::SET_FEATURE) || is_request(set, Recipient::Device, Request::CLEAR_FEATURE),
            set.value == Request::FEATURE_DEVICE_REMOTE_WAKEUP,
            Self::standard_out_answered(d0, p0, d1, set, r1),
            is_request(get, Recipient::Device, Request::GET_STATUS),
            Self::standard_in_answered(d1, q0, q1, get, r2),
        ensures
            ControlPipe::answered(q0, q1, r2,
                device_status(d0.spec_self_powered(), set.request == Request::SET_FEATURE)),
    {
    }
}

} // verus!
