use std::collections::{HashMap, HashSet, VecDeque};
use std::sync::Mutex;

use usb_device::bus::{PollResult, UsbBus, UsbBusAllocator};
use usb_device::class::UsbClass;
use usb_device::device::{
    BuilderError, StringDescriptors, UsbDevice, UsbDeviceBuilder, UsbDeviceState, UsbRev,
    UsbVidPid,
};
use usb_device::descriptor::lang_id::LangID;
use usb_device::dummy::DummyUsbBus;
use usb_device::endpoint::{EndpointAddress, EndpointType};
use usb_device::test_class::{
    TestClass, TestFailure, CUSTOM_STRING, LONG_DATA_BYTE, LONG_DATA_LEN, MANUFACTURER, PID, PRODUCT,
    SERIAL_NUMBER,
    REQ_READ_BUFFER, REQ_READ_LONG_DATA, REQ_SET_BENCH_ENABLED, REQ_STORE_REQUEST, REQ_UNKNOWN,
    REQ_WRITE_BUFFER, VID,
};
use usb_device::{UsbDirection, UsbError};

#[derive(Default)]
struct BusState {
    next_in: u8,
    next_out: u8,
    refuse_alloc: bool,
    allocated: Vec<(u8, EndpointType, u16)>,
    to_read: HashMap<u8, VecDeque<Vec<u8>>>,
    written: Vec<(u8, Vec<u8>)>,
    stalled: HashSet<u8>,
    address: Option<u8>,
    events: VecDeque<PollResult>,
    calls: Vec<&'static str>,
}

/// A bus that records what the device does and hands it packets and events from queues.
struct MockBus {
    state: Mutex<BusState>,
}

impl MockBus {
    fn new() -> MockBus {
        MockBus { state: Mutex::new(BusState { next_in: 1, next_out: 1, ..BusState::default() }) }
    }

    fn refusing() -> MockBus {
        let bus = MockBus::new();
        bus.state.lock().unwrap().refuse_alloc = true;
        bus
    }

    fn queue_packet(&self, addr: u8, data: &[u8]) {
        self.state.lock().unwrap().to_read.entry(addr).or_default().push_back(data.to_vec());
    }

    fn queue_event(&self, event: PollResult) {
        self.state.lock().unwrap().events.push_back(event);
    }

    fn take_written(&self, addr: u8) -> Vec<Vec<u8>> {
        let mut st = self.state.lock().unwrap();
        let mut taken = Vec::new();
        let mut kept = Vec::new();
        for (a, d) in st.written.drain(..) {
            if a == addr {
                taken.push(d);
            } else {
                kept.push((a, d));
            }
        }
        st.written = kept;
        taken
    }

    fn is_ep_stalled(&self, addr: u8) -> bool {
        self.state.lock().unwrap().stalled.contains(&addr)
    }

    fn address(&self) -> Option<u8> {
        self.state.lock().unwrap().address
    }

    fn calls(&self) -> Vec<&'static str> {
        self.state.lock().unwrap().calls.clone()
    }
}

impl UsbBus for MockBus {
    fn alloc_ep(
        &self,
        ep_dir: UsbDirection,
        ep_addr: Option<EndpointAddress>,
        ep_type: EndpointType,
        max_packet_size: u16,
        _interval: u8,
    ) -> usb_device::Result<EndpointAddress> {
        let mut st = self.state.lock().unwrap();
        if st.refuse_alloc {
            return Err(UsbError::EndpointOverflow);
        }
        let addr = match ep_addr {
            Some(a) => a,
            None => {
                let index = if ep_dir == UsbDirection::In { st.next_in } else { st.next_out };
                if ep_dir == UsbDirection::In {
                    st.next_in += 1;
                } else {
                    st.next_out += 1;
                }
                EndpointAddress::from_parts(index as usize, ep_dir)
            }
        };
        st.allocated.push((u8::from(addr), ep_type, max_packet_size));
        Ok(addr)
    }

    fn enable(&self) {
        self.state.lock().unwrap().calls.push("enable");
    }

    fn reset(&self) {
        self.state.lock().unwrap().calls.push("reset");
    }

    fn set_device_address(&self, addr: u8) {
        self.state.lock().unwrap().address = Some(addr);
    }

    fn write(&self, ep_addr: EndpointAddress, buf: &[u8]) -> usb_device::Result<usize> {
        self.state.lock().unwrap().written.push((u8::from(ep_addr), buf.to_vec()));
        Ok(buf.len())
    }

    fn read(&self, ep_addr: EndpointAddress, buf: &mut [u8]) -> usb_device::Result<usize> {
        let mut st = self.state.lock().unwrap();
        let queue = st.to_read.entry(u8::from(ep_addr)).or_default();
        match queue.pop_front() {
            None => Err(UsbError::WouldBlock),
            Some(p) => {
                if p.len() > buf.len() {
                    return Err(UsbError::BufferOverflow);
                }
                buf[..p.len()].copy_from_slice(&p);
                Ok(p.len())
            }
        }
    }

    fn set_stalled(&self, ep_addr: EndpointAddress, stalled: bool) {
        let mut st = self.state.lock().unwrap();
        if stalled {
            st.stalled.insert(u8::from(ep_addr));
        } else {
            st.stalled.remove(&u8::from(ep_addr));
        }
    }

    fn is_stalled(&self, ep_addr: EndpointAddress) -> bool {
        self.state.lock().unwrap().stalled.contains(&u8::from(ep_addr))
    }

    fn suspend(&self) {
        self.state.lock().unwrap().calls.push("suspend");
    }

    fn resume(&self) {
        self.state.lock().unwrap().calls.push("resume");
    }

    fn poll(&self) -> PollResult {
        self.state.lock().unwrap().events.pop_front().unwrap_or(PollResult::NoEvent)
    }
}

const EP0_OUT: u8 = 0x00;
const EP0_IN: u8 = 0x80;
const MPS0: usize = 8;

fn setup_event() -> PollResult {
    PollResult::Data { ep_out: 0, ep_in_complete: 0, ep_setup: 1 }
}

fn out_event() -> PollResult {
    PollResult::Data { ep_out: 1, ep_in_complete: 0, ep_setup: 0 }
}

fn in_complete_event() -> PollResult {
    PollResult::Data { ep_out: 0, ep_in_complete: 1, ep_setup: 0 }
}

/// Sends a SETUP packet and polls once. Like USB hardware, the bus clears a stall of endpoint 0
/// when a SETUP packet arrives.
fn send_setup(dev: &mut UsbDevice<'_, MockBus>, class: &mut TestClass<'_, MockBus>, bus: &MockBus, setup: [u8; 8]) {
    {
        let mut st = bus.state.lock().unwrap();
        st.stalled.remove(&EP0_OUT);
        st.stalled.remove(&EP0_IN);
    }
    bus.queue_packet(EP0_OUT, &setup);
    bus.queue_event(setup_event());
    dev.poll(&mut [class as &mut dyn UsbClass<MockBus>]);
}

/// Reports one completed IN packet on endpoint 0 and polls once.
fn complete_in(dev: &mut UsbDevice<'_, MockBus>, class: &mut TestClass<'_, MockBus>, bus: &MockBus) {
    bus.queue_event(in_complete_event());
    dev.poll(&mut [class as &mut dyn UsbClass<MockBus>]);
}

/// Sends an OUT packet on endpoint 0 and polls once.
fn send_out(dev: &mut UsbDevice<'_, MockBus>, class: &mut TestClass<'_, MockBus>, bus: &MockBus, data: &[u8]) {
    bus.queue_packet(EP0_OUT, data);
    bus.queue_event(out_event());
    dev.poll(&mut [class as &mut dyn UsbClass<MockBus>]);
}

/// Runs a control IN transfer as a host would and returns the data stage and its packets, or
/// None when the device stalled.
fn control_in(
    dev: &mut UsbDevice<'_, MockBus>,
    class: &mut TestClass<'_, MockBus>,
    bus: &MockBus,
    setup: [u8; 8],
) -> Option<(Vec<u8>, Vec<usize>)> {
    send_setup(dev, class, bus, setup);
    if bus.is_ep_stalled(EP0_IN) {
        return None;
    }
    let mut data = Vec::new();
    let mut sizes = Vec::new();
    loop {
        let packets = bus.take_written(EP0_IN);
        assert_eq!(packets.len(), 1, "one packet per IN completion");
        let p = &packets[0];
        sizes.push(p.len());
        data.extend_from_slice(p);
        if p.len() < MPS0 {
            break;
        }
        complete_in(dev, class, bus);
    }
    // Status stage: the last data packet completes, then the host sends an empty OUT packet.
    complete_in(dev, class, bus);
    send_out(dev, class, bus, &[]);
    Some((data, sizes))
}

/// Runs a control OUT transfer with the given data stage; returns false when the device stalled.
fn control_out(
    dev: &mut UsbDevice<'_, MockBus>,
    class: &mut TestClass<'_, MockBus>,
    bus: &MockBus,
    setup: [u8; 8],
    data: &[u8],
) -> bool {
    send_setup(dev, class, bus, setup);
    for chunk in data.chunks(MPS0) {
        send_out(dev, class, bus, chunk);
    }
    if bus.is_ep_stalled(EP0_IN) {
        return false;
    }
    let status = bus.take_written(EP0_IN);
    assert_eq!(status, vec![Vec::<u8>::new()], "zero-length status packet");
    complete_in(dev, class, bus);
    true
}

fn get_descriptor(dtype: u8, index: u8, lang: u16, length: u16) -> [u8; 8] {
    [0x80, 0x06, index, dtype, lang as u8, (lang >> 8) as u8, length as u8, (length >> 8) as u8]
}

fn utf16le(s: &str) -> Vec<u8> {
    s.encode_utf16().flat_map(|u| u.to_le_bytes()).collect()
}

#[test]
fn builder_errors() {
    let bus = MockBus::new();
    let alloc = UsbBusAllocator::new(&bus);
    let b = UsbDeviceBuilder::new(&alloc, UsbVidPid(1, 2), vec![0; 64]);
    assert_eq!(b.max_packet_size_0(7).err(), Some(BuilderError::InvalidPacketSize));
    let b = UsbDeviceBuilder::new(&alloc, UsbVidPid(1, 2), vec![0; 32]);
    assert_eq!(b.max_packet_size_0(64).err(), Some(BuilderError::ControlBufferTooSmall));
    let b = UsbDeviceBuilder::new(&alloc, UsbVidPid(1, 2), vec![0; 64]);
    assert_eq!(b.max_power(501).err(), Some(BuilderError::PowerTooHigh));
    let b = UsbDeviceBuilder::new(&alloc, UsbVidPid(1, 2), vec![0; 64]);
    let many = [StringDescriptors::new(LangID::EN_US); 17];
    assert_eq!(b.strings(&many).err(), Some(BuilderError::TooManyLanguages));
    let b = UsbDeviceBuilder::new(&alloc, UsbVidPid(1, 2), vec![0; 4]);
    assert_eq!(b.build().err(), Some(BuilderError::ControlBufferTooSmall));
}

#[test]
fn builder_refused_control_endpoints() {
    let bus = MockBus::refusing();
    let alloc = UsbBusAllocator::new(&bus);
    let b = UsbDeviceBuilder::new(&alloc, UsbVidPid(1, 2), vec![0; 64]);
    assert_eq!(b.build().err(), Some(BuilderError::ControlEndpointAllocation));
}

#[test]
fn new_device_is_default() {
    let bus = MockBus::new();
    let alloc = UsbBusAllocator::new(&bus);
    let mut dev = UsbDeviceBuilder::new(&alloc, UsbVidPid(0x1234, 0x5678), vec![0; 64])
        .usb_rev(UsbRev::Usb200)
        .build()
        .unwrap();
    assert_eq!(dev.state(), UsbDeviceState::Default);
    assert!(!dev.remote_wakeup_enabled());
    assert!(!dev.self_powered());
    dev.set_self_powered(true);
    assert!(dev.self_powered());
    assert_eq!(dev.force_reset(), Err(UsbError::Unsupported));
    assert_eq!(bus.calls(), vec!["enable"]);
}

struct Fixture {
    bus: MockBus,
}

fn with_test_device(f: impl FnOnce(&MockBus, &mut UsbDevice<'_, MockBus>, &mut TestClass<'_, MockBus>)) {
    let fixture = Fixture { bus: MockBus::new() };
    let mut alloc = UsbBusAllocator::new(&fixture.bus);
    let mut class = TestClass::new(&mut alloc).unwrap();
    let mut dev = class.make_device(&alloc).unwrap();
    f(&fixture.bus, &mut dev, &mut class);
}

#[test]
fn device_descriptor_in_packets() {
    with_test_device(|bus, dev, class| {
        let (data, sizes) = control_in(dev, class, bus, get_descriptor(1, 0, 0, 64)).unwrap();
        assert_eq!(sizes, vec![8, 8, 2]);
        assert_eq!(
            data,
            vec![
                18, 1, 0x10, 0x02, 0, 0, 0, 8, (VID & 0xff) as u8, (VID >> 8) as u8,
                (PID & 0xff) as u8, (PID >> 8) as u8, 0x10, 0x00, 1, 2, 3, 1
            ]
        );
    });
}

#[test]
fn descriptor_cut_to_requested_length() {
    with_test_device(|bus, dev, class| {
        let (data, sizes) = control_in(dev, class, bus, get_descriptor(1, 0, 0, 8)).unwrap();
        // A full last packet is followed by a zero-length packet, even when the host asked for
        // exactly that much.
        assert_eq!(data.len(), 8);
        assert_eq!(sizes, vec![8, 0]);
        assert_eq!(&data[..2], &[18, 1]);
    });
}

#[test]
fn string_descriptor_bytes() {
    with_test_device(|bus, dev, class| {
        let (langs, _) = control_in(dev, class, bus, get_descriptor(3, 0, 0, 255)).unwrap();
        assert_eq!(langs, vec![4, 3, 0x09, 0x04]);

        let (manufacturer, _) = control_in(dev, class, bus, get_descriptor(3, 1, 0x0409, 255)).unwrap();
        let mut expected = vec![(2 + 2 * MANUFACTURER.len()) as u8, 3];
        expected.extend(utf16le(MANUFACTURER));
        assert_eq!(manufacturer, expected);

        // A class string: the first string the class allocated.
        let (custom, _) = control_in(dev, class, bus, get_descriptor(3, 4, 0x0409, 255)).unwrap();
        let mut expected = vec![(2 + 2 * CUSTOM_STRING.len()) as u8, 3];
        expected.extend(utf16le(CUSTOM_STRING));
        assert_eq!(custom, expected);
    });
}

#[test]
fn unknown_language_reads_as_us_english() {
    with_test_device(|bus, dev, class| {
        let (product, _) = control_in(dev, class, bus, get_descriptor(3, 2, 0x7777, 255)).unwrap();
        assert_eq!(product[1], 3);
    });
}

#[test]
fn missing_strings_are_refused() {
    with_test_device(|bus, dev, class| {
        // German is not one of the device's languages.
        assert!(control_in(dev, class, bus, get_descriptor(3, 1, 0x0407, 255)).is_none());
        assert!(bus.is_ep_stalled(EP0_OUT));
        // A new SETUP packet clears the stall of endpoint 0 OUT.
        let (langs, _) = control_in(dev, class, bus, get_descriptor(3, 0, 0, 255)).unwrap();
        assert_eq!(langs.len(), 4);
        // No class has string 9.
        assert!(control_in(dev, class, bus, get_descriptor(3, 9, 0x0409, 255)).is_none());
    });
}

#[test]
fn unknown_descriptor_is_refused() {
    with_test_device(|bus, dev, class| {
        assert!(control_in(dev, class, bus, get_descriptor(0x21, 0, 0, 255)).is_none());
        assert!(bus.is_ep_stalled(EP0_IN));
    });
}

#[test]
fn configuration_descriptor() {
    with_test_device(|bus, dev, class| {
        let (data, _) = control_in(dev, class, bus, get_descriptor(2, 0, 0, 255)).unwrap();
        let total = data.len();
        assert_eq!(&data[..9], &[9, 2, total as u8, (total >> 8) as u8, 1, 1, 0, 0x80, 50]);
        // The interface of the test class with its four endpoints, then its alternate setting
        // with one isochronous endpoint.
        assert_eq!(&data[9..18], &[9, 4, 0, 0, 4, 0xff, 0x00, 0x00, 0]);
        assert_eq!(data[18..20], [7, 5]);
        let alt = 18 + 4 * 7;
        assert_eq!(&data[alt..alt + 9], &[9, 4, 0, 1, 1, 0xff, 0x01, 0x00, 5]);
        assert_eq!(data[alt + 9..alt + 11], [7, 5]);
        assert_eq!(total, alt + 9 + 7);
    });
}

#[test]
fn bos_descriptor() {
    with_test_device(|bus, dev, class| {
        let (data, _) = control_in(dev, class, bus, get_descriptor(15, 0, 0, 255)).unwrap();
        assert_eq!(data, vec![5, 15, 12, 0, 1, 7, 16, 2, 0, 0, 0, 0]);
    });
}

#[test]
fn set_address_after_status_stage() {
    with_test_device(|bus, dev, class| {
        send_setup(dev, class, bus, [0x00, 0x05, 0x2a, 0, 0, 0, 0, 0]);
        // The status packet is sent but the address waits.
        assert_eq!(bus.take_written(EP0_IN), vec![Vec::<u8>::new()]);
        assert_eq!(bus.address(), None);
        assert_eq!(dev.state(), UsbDeviceState::Default);
        complete_in(dev, class, bus);
        assert_eq!(bus.address(), Some(42));
        assert_eq!(dev.state(), UsbDeviceState::Addressed);
    });
}

#[test]
fn set_address_out_of_range_is_refused() {
    with_test_device(|bus, dev, class| {
        assert!(!control_out(dev, class, bus, [0x00, 0x05, 200, 0, 0, 0, 0, 0], &[]));
        assert_eq!(dev.state(), UsbDeviceState::Default);
    });
}

#[test]
fn configuration_read_back() {
    with_test_device(|bus, dev, class| {
        assert!(control_out(dev, class, bus, [0x00, 0x05, 7, 0, 0, 0, 0, 0], &[]));
        assert!(control_out(dev, class, bus, [0x00, 0x09, 1, 0, 0, 0, 0, 0], &[]));
        assert_eq!(dev.state(), UsbDeviceState::Configured);
        let (conf, _) = control_in(dev, class, bus, [0x80, 0x08, 0, 0, 0, 0, 1, 0]).unwrap();
        assert_eq!(conf, vec![1]);
        assert!(control_out(dev, class, bus, [0x00, 0x09, 0, 0, 0, 0, 0, 0], &[]));
        assert_eq!(dev.state(), UsbDeviceState::Addressed);
        let (conf, _) = control_in(dev, class, bus, [0x80, 0x08, 0, 0, 0, 0, 1, 0]).unwrap();
        assert_eq!(conf, vec![0]);
    });
}

#[test]
fn remote_wakeup_status() {
    with_test_device(|bus, dev, class| {
        let (status, _) = control_in(dev, class, bus, [0x80, 0x00, 0, 0, 0, 0, 2, 0]).unwrap();
        assert_eq!(status, vec![0, 0]);
        assert!(control_out(dev, class, bus, [0x00, 0x03, 1, 0, 0, 0, 0, 0], &[]));
        assert!(dev.remote_wakeup_enabled());
        dev.set_self_powered(true);
        let (status, _) = control_in(dev, class, bus, [0x80, 0x00, 0, 0, 0, 0, 2, 0]).unwrap();
        assert_eq!(status, vec![3, 0]);
        assert!(control_out(dev, class, bus, [0x00, 0x01, 1, 0, 0, 0, 0, 0], &[]));
        assert!(!dev.remote_wakeup_enabled());
    });
}

#[test]
fn endpoint_halt_and_status() {
    with_test_device(|bus, dev, class| {
        assert!(control_out(dev, class, bus, [0x02, 0x03, 0, 0, 0x81, 0, 0, 0], &[]));
        assert!(bus.is_ep_stalled(0x81));
        let (status, _) = control_in(dev, class, bus, [0x82, 0x00, 0, 0, 0x81, 0, 2, 0]).unwrap();
        assert_eq!(status, vec![1, 0]);
        assert!(control_out(dev, class, bus, [0x02, 0x01, 0, 0, 0x81, 0, 0, 0], &[]));
        assert!(!bus.is_ep_stalled(0x81));
        let (status, _) = control_in(dev, class, bus, [0x82, 0x00, 0, 0, 0x81, 0, 2, 0]).unwrap();
        assert_eq!(status, vec![0, 0]);
    });
}

#[test]
fn interface_settings() {
    with_test_device(|bus, dev, class| {
        let (alt, _) = control_in(dev, class, bus, [0x81, 0x0a, 0, 0, 0, 0, 1, 0]).unwrap();
        assert_eq!(alt, vec![0]);
        assert!(control_out(dev, class, bus, [0x01, 0x0b, 0, 0, 0, 0, 0, 0], &[]));
        // No class takes alternate setting 1, so it is refused.
        assert!(!control_out(dev, class, bus, [0x01, 0x0b, 1, 0, 0, 0, 0, 0], &[]));
        // Interface numbers above 255 are refused.
        assert!(control_in(dev, class, bus, [0x81, 0x0a, 0, 0, 0, 1, 1, 0]).is_none());
    });
}

#[test]
fn unknown_standard_request_is_refused() {
    with_test_device(|bus, dev, class| {
        assert!(!control_out(dev, class, bus, [0x00, 0x07, 0, 0, 0, 0, 0, 0], &[]));
        assert!(bus.is_ep_stalled(EP0_IN));
        assert!(bus.is_ep_stalled(EP0_OUT));
    });
}

#[test]
fn write_then_read_buffer() {
    with_test_device(|bus, dev, class| {
        let data: Vec<u8> = (0..20u8).map(|b| b * 3).collect();
        assert!(control_out(dev, class, bus, [0x40, REQ_WRITE_BUFFER, 0, 0, 0, 0, 20, 0], &data));
        let (read, sizes) = control_in(dev, class, bus, [0xc0, REQ_READ_BUFFER, 0, 0, 0, 0, 20, 0]).unwrap();
        assert_eq!(read, data);
        assert_eq!(sizes, vec![8, 8, 4]);
        assert_eq!(class.failure(), None);
    });
}

#[test]
fn store_request_read_back() {
    with_test_device(|bus, dev, class| {
        let setup = [0x40, REQ_STORE_REQUEST, 0x34, 0x12, 0x78, 0x56, 0, 0];
        assert!(control_out(dev, class, bus, setup, &[]));
        let (read, _) = control_in(dev, class, bus, [0xc0, REQ_READ_BUFFER, 0, 0, 0, 0, 8, 0]).unwrap();
        assert_eq!(read, setup.to_vec());
    });
}

#[test]
fn long_data_with_zero_length_packet() {
    with_test_device(|bus, dev, class| {
        // 256 of the 257 bytes: 32 full packets and a closing zero-length packet.
        let (data, sizes) = control_in(dev, class, bus, [0xc0, REQ_READ_LONG_DATA, 0, 0, 0, 0, 0, 1]).unwrap();
        assert_eq!(data.len(), 256);
        assert_eq!(sizes.len(), 33);
        assert_eq!(sizes[32], 0);
        assert!(data.iter().all(|&b| b == LONG_DATA_BYTE));
        // All 257 bytes: 32 full packets and one of 1 byte.
        let (data, sizes) = control_in(dev, class, bus, [0xc0, REQ_READ_LONG_DATA, 0, 0, 0, 0, 0x01, 0x01]).unwrap();
        assert_eq!(data.len(), LONG_DATA_LEN);
        assert_eq!(sizes.len(), 33);
        assert_eq!(sizes[32], 1);
    });
}

#[test]
fn unknown_vendor_request_is_refused() {
    with_test_device(|bus, dev, class| {
        assert!(control_in(dev, class, bus, [0xc0, REQ_UNKNOWN, 0, 0, 0, 0, 1, 0]).is_none());
        assert_eq!(class.failure(), None);
    });
}

#[test]
fn bench_mode_toggles() {
    with_test_device(|bus, dev, class| {
        assert!(control_out(dev, class, bus, [0x40, REQ_SET_BENCH_ENABLED, 1, 0, 0, 0, 0, 0], &[]));
        assert!(control_out(dev, class, bus, [0x40, REQ_SET_BENCH_ENABLED, 0, 0, 0, 0, 0, 0], &[]));
        assert_eq!(class.failure(), None);
    });
}

#[test]
fn write_buffer_keeps_announced_length() {
    with_test_device(|bus, dev, class| {
        // The host announces 4 bytes but sends 6 in one packet: the data stage holds the 4
        // announced bytes.
        send_setup(dev, class, bus, [0x40, REQ_WRITE_BUFFER, 0, 0, 0, 0, 4, 0]);
        send_out(dev, class, bus, &[1, 2, 3, 4, 5, 6]);
        assert_eq!(bus.take_written(EP0_IN), vec![Vec::<u8>::new()]);
        complete_in(dev, class, bus);
        let (read, _) = control_in(dev, class, bus, [0xc0, REQ_READ_BUFFER, 0, 0, 0, 0, 6, 0]).unwrap();
        assert_eq!(read, vec![1, 2, 3, 4, 0, 0]);
        assert_eq!(class.failure(), None);
    });
}

#[test]
fn bulk_echo() {
    with_test_device(|bus, dev, class| {
        bus.queue_packet(0x01, &[9, 8, 7]);
        bus.queue_event(PollResult::Data { ep_out: 0b10, ep_in_complete: 0, ep_setup: 0 });
        assert!(dev.poll(&mut [class as &mut dyn UsbClass<MockBus>]));
        class.poll();
        assert_eq!(bus.take_written(0x81), vec![vec![9, 8, 7]]);
        assert_eq!(class.failure(), None);
        // An IN completion nobody expected is reported.
        bus.queue_event(PollResult::Data { ep_out: 0, ep_in_complete: 0b100, ep_setup: 0 });
        dev.poll(&mut [class as &mut dyn UsbClass<MockBus>]);
        assert_eq!(class.failure(), Some(TestFailure::UnexpectedInComplete));
    });
}

#[test]
fn unexpected_bulk_data_fails_test() {
    with_test_device(|bus, _dev, class| {
        bus.queue_packet(0x01, &[1]);
        class.poll();
        assert_eq!(class.failure(), Some(TestFailure::UnexpectedBulkOut));
        // After a failure the class does nothing more.
        bus.queue_packet(0x02, &[1]);
        class.poll();
        assert_eq!(class.failure(), Some(TestFailure::UnexpectedBulkOut));
    });
}

#[test]
fn suspend_and_resume_restore_state() {
    with_test_device(|bus, dev, class| {
        assert!(control_out(dev, class, bus, [0x00, 0x05, 3, 0, 0, 0, 0, 0], &[]));
        assert_eq!(dev.state(), UsbDeviceState::Addressed);
        bus.queue_event(PollResult::Suspend);
        assert!(!dev.poll(&mut [class as &mut dyn UsbClass<MockBus>]));
        assert_eq!(dev.state(), UsbDeviceState::Suspend);
        // Nothing changes while suspended without events.
        assert!(!dev.poll(&mut [class as &mut dyn UsbClass<MockBus>]));
        assert_eq!(dev.state(), UsbDeviceState::Suspend);
        bus.queue_event(PollResult::Resume);
        assert!(!dev.poll(&mut [class as &mut dyn UsbClass<MockBus>]));
        assert_eq!(dev.state(), UsbDeviceState::Addressed);
        let calls = bus.calls();
        assert_eq!(&calls[calls.len() - 2..], &["suspend", "resume"]);
    });
}

#[test]
fn reset_returns_to_default() {
    with_test_device(|bus, dev, class| {
        assert!(control_out(dev, class, bus, [0x00, 0x05, 3, 0, 0, 0, 0, 0], &[]));
        assert!(control_out(dev, class, bus, [0x00, 0x03, 1, 0, 0, 0, 0, 0], &[]));
        bus.queue_event(PollResult::Suspend);
        dev.poll(&mut [class as &mut dyn UsbClass<MockBus>]);
        bus.queue_event(PollResult::Reset);
        assert!(!dev.poll(&mut [class as &mut dyn UsbClass<MockBus>]));
        assert_eq!(dev.state(), UsbDeviceState::Default);
        assert!(!dev.remote_wakeup_enabled());
        assert_eq!(bus.calls().last(), Some(&"reset"));
    });
}

#[test]
fn process_event_without_bus_poll() {
    with_test_device(|_bus, dev, class| {
        assert!(!dev.process_event(&mut [class as &mut dyn UsbClass<MockBus>], PollResult::NoEvent));
        assert!(dev.process_event(
            &mut [class as &mut dyn UsbClass<MockBus>],
            PollResult::Data { ep_out: 0, ep_in_complete: 0, ep_setup: 0 }
        ));
        assert_eq!(dev.state(), UsbDeviceState::Default);
    });
}

#[test]
fn test_class_allocations() {
    let bus = MockBus::new();
    let mut alloc = UsbBusAllocator::new(&bus);
    let _class = TestClass::new(&mut alloc).unwrap();
    let st = bus.state.lock().unwrap();
    let types: Vec<(u8, EndpointType, u16)> = st.allocated.clone();
    assert_eq!(types.len(), 5);
    assert_eq!(types[0], (0x81, EndpointType::Bulk, 64));
    assert_eq!(types[1], (0x01, EndpointType::Bulk, 64));
    assert_eq!(types[2], (0x82, EndpointType::Interrupt, 31));
    assert_eq!(types[3], (0x02, EndpointType::Interrupt, 31));
}

#[test]
fn test_class_refused_endpoints() {
    let bus = MockBus::refusing();
    let mut alloc = UsbBusAllocator::new(&bus);
    assert_eq!(TestClass::new(&mut alloc).err(), Some(UsbError::EndpointOverflow));
}

#[test]
fn dummy_bus_does_nothing() {
    let bus = DummyUsbBus::new();
    let _ = DummyUsbBus::default();
    assert_eq!(bus.poll(), PollResult::NoEvent);
    assert_eq!(bus.force_reset(), Err(UsbError::Unsupported));
    assert!(!bus.is_stalled(EndpointAddress::from(0x81u8)));
    assert_eq!(bus.write(EndpointAddress::from(0x81u8), &[1]), Err(UsbError::Unsupported));
    let alloc = UsbBusAllocator::new(&bus);
    assert_eq!(alloc.bulk::<usb_device::endpoint::In>(64).err(), Some(UsbError::Unsupported));
}

fn ensure_sync<T: Sync + Send>() {}

#[test]
fn ensure_sync_types() {
    ensure_sync::<MockBus>();
    ensure_sync::<usb_device::endpoint::EndpointIn<'static, MockBus>>();
    ensure_sync::<usb_device::endpoint::EndpointOut<'static, MockBus>>();
    ensure_sync::<TestClass<'static, MockBus>>();
}

const EN_US: u16 = 0x0409;

/// Reads string descriptor `index` in `lang` as a host would, decoding it from UTF-16.
fn read_string(
    dev: &mut UsbDevice<'_, MockBus>,
    class: &mut TestClass<'_, MockBus>,
    bus: &MockBus,
    lang: u16,
    index: u8,
) -> Option<String> {
    let (data, _) = control_in(dev, class, bus, get_descriptor(3, index, lang, 255))?;
    assert_eq!(data[0] as usize, data.len());
    assert_eq!(data[1], 3);
    let units: Vec<u16> = data[2..].chunks(2).map(|c| u16::from_le_bytes([c[0], c[1]])).collect();
    Some(String::from_utf16(&units).unwrap())
}

#[test]
fn open_device() {
    with_test_device(|bus, dev, class| {
        let (langs, _) = control_in(dev, class, bus, get_descriptor(3, 0, 0, 255)).unwrap();
        assert_eq!(u16::from_le_bytes([langs[2], langs[3]]), EN_US);
        assert_eq!(read_string(dev, class, bus, EN_US, 2).unwrap(), PRODUCT);
    });
}

#[test]
fn string_descriptors() {
    with_test_device(|bus, dev, class| {
        assert_eq!(read_string(dev, class, bus, EN_US, 2).expect("read product string"), PRODUCT);
        assert_eq!(read_string(dev, class, bus, EN_US, 1).expect("read manufacturer string"), MANUFACTURER);
        assert_eq!(read_string(dev, class, bus, EN_US, 3).expect("read serial number string"), SERIAL_NUMBER);
        assert_eq!(read_string(dev, class, bus, EN_US, 4).expect("read custom string"), CUSTOM_STRING);
    });
}

#[test]
fn control_error() {
    with_test_device(|bus, dev, class| {
        let res = control_out(dev, class, bus, [0x40, REQ_UNKNOWN, 0, 0, 0, 0, 0, 0], &[]);
        if res {
            panic!("unknown control request succeeded");
        }
    });
}

#[test]
fn device_without_strings() {
    let bus = MockBus::new();
    let mut alloc = UsbBusAllocator::new(&bus);
    let mut class = TestClass::new(&mut alloc).unwrap();
    let mut dev = UsbDeviceBuilder::new(&alloc, UsbVidPid(1, 2), vec![0; 64]).build().unwrap();
    let (langs, _) = control_in(&mut dev, &mut class, &bus, get_descriptor(3, 0, 0, 255)).unwrap();
    assert_eq!(langs, vec![2, 3]);
    // No language, so no manufacturer string; the device descriptor names no strings.
    assert!(control_in(&mut dev, &mut class, &bus, get_descriptor(3, 1, EN_US, 255)).is_none());
    let (desc, _) = control_in(&mut dev, &mut class, &bus, get_descriptor(1, 0, 0, 255)).unwrap();
    assert_eq!(&desc[14..17], &[0, 0, 0]);
}

#[test]
fn descriptor_larger_than_control_buffer() {
    let bus = MockBus::new();
    let mut alloc = UsbBusAllocator::new(&bus);
    let mut class = TestClass::new(&mut alloc).unwrap();
    let mut dev = UsbDeviceBuilder::new(&alloc, UsbVidPid(1, 2), vec![0; 16]).build().unwrap();
    // The 18-byte device descriptor does not fit in a 16-byte control buffer: nothing is sent
    // and the endpoint is not stalled either.
    send_setup(&mut dev, &mut class, &bus, get_descriptor(1, 0, 0, 64));
    assert!(bus.take_written(EP0_IN).is_empty());
    assert!(!bus.is_ep_stalled(EP0_IN));
    // A short descriptor still fits.
    let (langs, _) = control_in(&mut dev, &mut class, &bus, get_descriptor(3, 0, 0, 255)).unwrap();
    assert_eq!(langs, vec![2, 3]);
}

#[test]
fn bench_mode_echoes_full_packets() {
    with_test_device(|bus, dev, class| {
        assert!(control_out(dev, class, bus, [0x40, REQ_SET_BENCH_ENABLED, 1, 0, 0, 0, 0, 0], &[]));
        bus.queue_packet(0x01, &[5; 64]);
        class.poll();
        let written = bus.take_written(0x81);
        assert_eq!(written.len(), 1);
        assert_eq!(written[0], vec![5; 64]);
        // Without data the class still writes a packet from its buffer.
        class.poll();
        assert_eq!(bus.take_written(0x81).len(), 1);
        assert_eq!(class.failure(), None);
    });
}

#[test]
fn interrupt_echo() {
    with_test_device(|bus, dev, class| {
        bus.queue_packet(0x02, &[1, 2, 3, 4]);
        bus.queue_event(PollResult::Data { ep_out: 0b100, ep_in_complete: 0, ep_setup: 0 });
        dev.poll(&mut [class as &mut dyn UsbClass<MockBus>]);
        class.poll();
        assert_eq!(bus.take_written(0x82), vec![vec![1, 2, 3, 4]]);
        bus.queue_event(PollResult::Data { ep_out: 0, ep_in_complete: 0b100, ep_setup: 0 });
        dev.poll(&mut [class as &mut dyn UsbClass<MockBus>]);
        assert_eq!(class.failure(), None);
    });
}

#[test]
fn bulk_echo_of_several_packets() {
    with_test_device(|bus, dev, class| {
        let data: Vec<u8> = (0..100u8).collect();
        // A full packet, then a short one ends the data.
        for chunk in data.chunks(64) {
            bus.queue_packet(0x01, chunk);
            bus.queue_event(PollResult::Data { ep_out: 0b10, ep_in_complete: 0, ep_setup: 0 });
            dev.poll(&mut [class as &mut dyn UsbClass<MockBus>]);
            class.poll();
        }
        let first = bus.take_written(0x81);
        assert_eq!(first, vec![data[..64].to_vec()]);
        bus.queue_event(PollResult::Data { ep_out: 0, ep_in_complete: 0b10, ep_setup: 0 });
        dev.poll(&mut [class as &mut dyn UsbClass<MockBus>]);
        assert_eq!(bus.take_written(0x81), vec![data[64..].to_vec()]);
        bus.queue_event(PollResult::Data { ep_out: 0, ep_in_complete: 0b10, ep_setup: 0 });
        dev.poll(&mut [class as &mut dyn UsbClass<MockBus>]);
        assert!(bus.take_written(0x81).is_empty());
        assert_eq!(class.failure(), None);
    });
}

/// Runs `f` with a device whose product string is `product`, with a large control buffer.
fn with_product_string(product: &'static str, f: impl FnOnce(&MockBus, &mut UsbDevice<'_, MockBus>, &mut TestClass<'_, MockBus>)) {
    let fixture = Fixture { bus: MockBus::new() };
    let mut alloc = UsbBusAllocator::new(&fixture.bus);
    let mut class = TestClass::new(&mut alloc).unwrap();
    let strings = [StringDescriptors::new(LangID::EN_US).product(product)];
    let mut dev = UsbDeviceBuilder::new(&alloc, UsbVidPid(VID, PID), vec![0; 512])
        .strings(&strings)
        .unwrap()
        .build()
        .unwrap();
    f(&fixture.bus, &mut dev, &mut class);
}

#[test]
fn longest_string_descriptor_is_sent() {
    // 126 UTF-16 code units make a 252-byte body: a 254-byte descriptor.
    let product: &'static str = Box::leak("p".repeat(126).into_boxed_str());
    with_product_string(product, |bus, dev, class| {
        let (data, _) = control_in(dev, class, bus, get_descriptor(3, 2, 0x0409, 512)).unwrap();
        assert_eq!(data.len(), 254);
        assert_eq!(data[0], 254);
        assert_eq!(data[1], 3);
        assert_eq!(&data[2..], &utf16le(product)[..]);
    });
}

#[test]
fn string_descriptor_over_255_bytes_is_not_sent() {
    // 127 UTF-16 code units would make a 256-byte descriptor, which its length byte cannot hold.
    let product: &'static str = Box::leak("p".repeat(127).into_boxed_str());
    with_product_string(product, |bus, dev, class| {
        send_setup(dev, class, bus, get_descriptor(3, 2, 0x0409, 512));
        assert!(bus.take_written(EP0_IN).is_empty());
    });
}

/// A class whose configuration descriptors exercise the descriptor writer, and which records what
/// each write gave.
struct WriterClass<'a> {
    iface: usb_device::bus::InterfaceNumber,
    ep: usb_device::endpoint::Endpoint<'a, MockBus, usb_device::endpoint::In>,
    results: std::cell::RefCell<Vec<Result<(), UsbError>>>,
}

impl<'a> UsbClass<MockBus> for WriterClass<'a> {
    fn get_configuration_descriptors(
        &self,
        w: &mut usb_device::descriptor::DescriptorWriter,
    ) -> Result<(), UsbError> {
        let mut results = self.results.borrow_mut();
        results.clear();
        w.interface(self.iface, 0xff, 0, 0)?;
        results.push(w.write_with(0x24, |buf| {
            buf[..3].copy_from_slice(&[1, 2, 3]);
            Ok(3)
        }));
        results.push(w.write_with(0x24, |_| Err(UsbError::ParseError)));
        results.push(w.write_with(0x24, |_| Ok(254)));
        results.push(w.write(0x24, &[0u8; 254]));
        results.push(w.endpoint_ex(&self.ep, |buf| {
            buf[0] = 9;
            Ok(1)
        }));
        Ok(())
    }
}

#[test]
fn descriptor_writer_callbacks() {
    let bus = MockBus::new();
    let mut alloc = UsbBusAllocator::new(&bus);
    let iface = alloc.interface();
    let ep = alloc.bulk::<usb_device::endpoint::In>(64).unwrap();
    let ep_addr: u8 = ep.address().into();
    let mut class = WriterClass { iface, ep, results: std::cell::RefCell::new(Vec::new()) };
    let mut dev = UsbDeviceBuilder::new(&alloc, UsbVidPid(VID, PID), vec![0; 512]).build().unwrap();

    bus.queue_packet(EP0_OUT, &get_descriptor(2, 0, 0, 512));
    bus.queue_event(setup_event());
    dev.poll(&mut [&mut class as &mut dyn UsbClass<MockBus>]);
    let mut data = Vec::new();
    loop {
        let packets = bus.take_written(EP0_IN);
        assert_eq!(packets.len(), 1);
        data.extend_from_slice(&packets[0]);
        if packets[0].len() < MPS0 {
            break;
        }
        bus.queue_event(in_complete_event());
        dev.poll(&mut [&mut class as &mut dyn UsbClass<MockBus>]);
    }

    assert_eq!(
        *class.results.borrow(),
        vec![
            Ok(()),
            Err(UsbError::ParseError),
            Err(UsbError::BufferOverflow),
            Err(UsbError::BufferOverflow),
            Ok(()),
        ]
    );
    // Configuration descriptor, interface descriptor with one endpoint, the callback's
    // descriptor, then the endpoint descriptor with one extra byte.
    assert_eq!(data.len(), 9 + 9 + 5 + 8);
    assert_eq!(data[2], data.len() as u8);
    assert_eq!(&data[9..18], &[9, 4, 0, 0, 1, 0xff, 0, 0, 0]);
    assert_eq!(&data[18..23], &[5, 0x24, 1, 2, 3]);
    assert_eq!(&data[23..31], &[8, 5, ep_addr, 0x02, 64, 0, 0, 9]);
}
