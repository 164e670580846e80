use usb_device::allocator::{InterfaceHandle, StringHandle};
use usb_device::config::InterfaceDescriptor;
use usb_device::control::{Recipient, Request, RequestType};
use usb_device::descriptor::lang_id::LangID;
use usb_device::device::{UsbDeviceState, UsbRev};
use usb_device::device_info::UsbDeviceInfo;
use usb_device::endpoint::{
    EndpointAddress, EndpointType, IsochronousSynchronizationType, IsochronousUsageType,
};
use usb_device::{UsbDirection, UsbError};

#[test]
fn parse_get_descriptor_request() {
    let req = Request::parse(&[0x80, 0x06, 0x00, 0x01, 0x00, 0x00, 0x40, 0x00]).unwrap();
    assert_eq!(req.direction, UsbDirection::In);
    assert_eq!(req.request_type, RequestType::Standard);
    assert_eq!(req.recipient, Recipient::Device);
    assert_eq!(req.request, Request::GET_DESCRIPTOR);
    assert_eq!(req.value, 0x0100);
    assert_eq!(req.index, 0);
    assert_eq!(req.length, 64);
    assert_eq!(req.descriptor_type_index(), (1, 0));
}

#[test]
fn parse_vendor_interface_request() {
    let req = Request::parse(&[0x41, 0x2a, 0x34, 0x12, 0x02, 0x00, 0x10, 0x01]).unwrap();
    assert_eq!(req.direction, UsbDirection::Out);
    assert_eq!(req.request_type, RequestType::Vendor);
    assert_eq!(req.recipient, Recipient::Interface);
    assert_eq!(req.request, 0x2a);
    assert_eq!(req.value, 0x1234);
    assert_eq!(req.index, 2);
    assert_eq!(req.length, 0x110);
}

#[test]
fn parse_reserved_recipient_and_type() {
    let req = Request::parse(&[0x7f, 0, 0, 0, 0, 0, 0, 0]).unwrap();
    assert_eq!(req.request_type, RequestType::Reserved);
    assert_eq!(req.recipient, Recipient::Reserved);
    let req = Request::parse(&[0x23, 0, 0, 0, 0, 0, 0, 0]).unwrap();
    assert_eq!(req.request_type, RequestType::Class);
    assert_eq!(req.recipient, Recipient::Other);
}

#[test]
fn parse_rejects_wrong_length() {
    assert_eq!(Request::parse(&[0x80, 0x06, 0x00]), Err(UsbError::ParseError));
    assert_eq!(Request::parse(&[0u8; 9]), Err(UsbError::ParseError));
    assert_eq!(Request::parse(&[]), Err(UsbError::ParseError));
}

#[test]
fn request_bytes_roundtrip() {
    let bytes = [0xc1, 0x05, 0x78, 0x56, 0x34, 0x12, 0xff, 0x00];
    let req = Request::parse(&bytes).unwrap();
    assert_eq!(req.to_bytes(), bytes);
    let again = Request::parse(&req.to_bytes()).unwrap();
    assert_eq!(again, req);
}

#[test]
fn direction_from_byte() {
    assert_eq!(UsbDirection::from(0x81u8), UsbDirection::In);
    assert_eq!(UsbDirection::from(0x80u8), UsbDirection::In);
    assert_eq!(UsbDirection::from(0x7fu8), UsbDirection::Out);
    assert_eq!(UsbDirection::from(0x00u8), UsbDirection::Out);
    assert_eq!(UsbDirection::In.bits(), 0x80);
    assert_eq!(UsbDirection::Out.bits(), 0x00);
    assert_eq!(UsbDirection::from(UsbDirection::In.bits()), UsbDirection::In);
}

#[test]
fn endpoint_address_parts() {
    let a = EndpointAddress::from_parts(3, UsbDirection::In);
    assert_eq!(u8::from(a), 0x83);
    assert_eq!(a.index(), 3);
    assert_eq!(a.direction(), UsbDirection::In);
    assert!(a.is_in());
    assert!(!a.is_out());
    let b = EndpointAddress::from_parts(15, UsbDirection::Out);
    assert_eq!(u8::from(b), 0x0f);
    assert_eq!(b.index(), 15);
    assert_eq!(b.direction(), UsbDirection::Out);
    assert!(b.is_out());
    assert_eq!(EndpointAddress::from(0x82u8), EndpointAddress::from_byte(0x82));
    assert_eq!(EndpointAddress::from(0x82u8).index(), 2);
}

#[test]
fn endpoint_type_attributes() {
    assert_eq!(EndpointType::Control.to_bm_attributes(), 0);
    assert_eq!(EndpointType::Bulk.to_bm_attributes(), 2);
    assert_eq!(EndpointType::Interrupt.to_bm_attributes(), 3);
    let iso = EndpointType::Isochronous {
        synchronization: IsochronousSynchronizationType::Asynchronous,
        usage: IsochronousUsageType::ImplicitFeedbackData,
    };
    assert_eq!(iso.to_bm_attributes(), 0b10_01_01);
    let iso = EndpointType::Isochronous {
        synchronization: IsochronousSynchronizationType::Synchronous,
        usage: IsochronousUsageType::Feedback,
    };
    assert_eq!(iso.to_bm_attributes(), 0b01_11_01);
    let iso = EndpointType::Isochronous {
        synchronization: IsochronousSynchronizationType::NoSynchronization,
        usage: IsochronousUsageType::Data,
    };
    assert_eq!(iso.to_bm_attributes(), 0b00_00_01);
}

#[test]
fn lang_id_codes() {
    assert_eq!(u16::from(LangID::EN_US), 0x0409);
    assert_eq!(LangID::from(0x0407u16), LangID::DE_DE);
    assert_eq!(LangID::from(u16::from(LangID::JA_JP)), LangID::JA_JP);
    // An unknown code reads as US English.
    assert_eq!(LangID::from(0x7777u16), LangID::EN_US);
}

#[test]
fn usb_rev_bcd_values() {
    assert_eq!(UsbRev::Usb100.bcd(), 0x100);
    assert_eq!(UsbRev::Usb110.bcd(), 0x110);
    assert_eq!(UsbRev::Usb200.bcd(), 0x200);
    assert_eq!(UsbRev::Usb210.bcd(), 0x210);
    assert!(UsbRev::Usb200 < UsbRev::Usb210);
    assert_ne!(UsbDeviceState::Default, UsbDeviceState::Configured);
}

#[test]
fn interface_handle_numbers() {
    let h = InterfaceHandle::new();
    assert_eq!(h.number(), 0xff);
    assert_eq!(u8::from(&h), 0xff);
    let d = InterfaceHandle::default();
    // Unallocated handles equal nothing, not even each other.
    assert!(h != d);
    assert!(h != 0xffu8);
}

#[test]
fn string_handle_indices() {
    let h = StringHandle::new();
    assert_eq!(h.index(), 0xff);
    assert_eq!(u8::from(&h), 0);
    assert!(h != StringHandle::default());
    assert!(h != 0u8);
}

#[test]
fn interface_descriptor_settings() {
    let s = StringHandle::new();
    let d = InterfaceDescriptor::class(0xff).sub_class(0x12).protocol(0x34).description(&s);
    let d2 = InterfaceDescriptor::class(0x02);
    let _ = (d, d2);
}

#[test]
fn device_info_defaults() {
    let info = UsbDeviceInfo::new(0x1234, 0x5678);
    assert_eq!(info.vendor_id, 0x1234);
    assert_eq!(info.product_id, 0x5678);
    assert_eq!(info.device_class, 0);
    assert_eq!(info.max_packet_size_0, 8);
    assert_eq!(info.device_release, 0x0010);
    assert_eq!(info.manufacturer, "");
    assert_eq!(info.product, "");
    assert_eq!(info.serial_number, "");
    assert!(!info.self_powered);
    assert!(!info.remote_wakeup);
    assert_eq!(info.max_power, 50);
}
