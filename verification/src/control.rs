use vstd::prelude::*;
use crate::{direction_bits, direction_of_byte, Result, UsbDirection, UsbError};

verus! {

/// Control request direction, as the direction bit of the request type byte encodes it.
#[derive(Copy, Clone, Eq, PartialEq, Structural, Debug)]
pub enum Direction {
    /// Host-to-device direction (control OUT transfer)
    HostToDevice,
    /// Device-to-host direction (control IN transfer)
    DeviceToHost,
}

/// Control request type.
#[derive(Copy, Clone, Eq, PartialEq, Structural, Debug)]
pub enum RequestType {
    /// Request is a USB standard request. Usually handled by [`UsbDevice`](crate::device::UsbDevice).
    Standard,
    /// Request is intended for a USB class.
    Class,
    /// Request is vendor-specific.
    Vendor,
    /// Reserved.
    Reserved,
}

/// Control request recipient.
#[derive(Copy, Clone, Eq, PartialEq, Structural, Debug)]
pub enum Recipient {
    /// Request is intended for the entire device.
    Device,
    /// Request is intended for an interface. Generally, the `index` field of the request specifies
    /// the interface number.
    Interface,
    /// Request is intended for an endpoint. Generally, the `index` field of the request specifies
    /// the endpoint address.
    Endpoint,
    /// None of the above.
    Other,
    /// Reserved.
    Reserved,
}

/// A control request read from a SETUP packet.
#[derive(Copy, Clone, Eq, PartialEq, Structural, Debug)]
pub struct Request {
    /// Direction of the request.
    pub direction: UsbDirection,
    /// Type of the request.
    pub request_type: RequestType,
    /// Recipient of the request.
    pub recipient: Recipient,
    /// Request code. The meaning of the value depends on the previous fields.
    pub request: u8,
    /// Request value. The meaning of the value depends on the previous fields.
    pub value: u16,
    /// Request index. The meaning of the value depends on the previous fields.
    pub index: u16,
    /// Length of the DATA stage. For control OUT transfers this is the exact length of the data the
    /// host sent. For control IN transfers this is the maximum length of data the device should
    /// return.
    pub length: u16,
}

/// The request type that bits 5 and 6 of the request type byte select.
pub open spec fn request_type_of_byte(rt: u8) -> RequestType {
    let t = (rt / 32) % 4;
    if t == 0 {
        RequestType::Standard
    } else if t == 1 {
        RequestType::Class
    } else if t == 2 {
        RequestType::Vendor
    } else {
        RequestType::Reserved
    }
}

/// The recipient that bits 0 to 4 of the request type byte select; values above 3 are reserved.
pub open spec fn recipient_of_byte(rt: u8) -> Recipient {
    let r = rt % 32;
    if r == 0 {
        Recipient::Device
    } else if r == 1 {
        Recipient::Interface
    } else if r == 2 {
        Recipient::Endpoint
    } else if r == 3 {
        Recipient::Other
    } else {
        Recipient::Reserved
    }
}

/// The number of a request type in bits 5 and 6 of the request type byte.
pub open spec fn request_type_number(t: RequestType) -> u8 {
    match t {
        RequestType::Standard => 0u8,
        RequestType::Class => 1u8,
        RequestType::Vendor => 2u8,
        RequestType::Reserved => 3u8,
    }
}

/// The number of a recipient in bits 0 to 4 of the request type byte.
pub open spec fn recipient_number(r: Recipient) -> u8 {
    match r {
        Recipient::Device => 0u8,
        Recipient::Interface => 1u8,
        Recipient::Endpoint => 2u8,
        Recipient::Other => 3u8,
        Recipient::Reserved => 4u8,
    }
}

/// A little-endian 16-bit value from its two bytes.
pub open spec fn le_u16(lo: u8, hi: u8) -> u16 {
    (lo + hi * 256) as u16
}

/// The request that an 8-byte SETUP packet encodes.
pub open spec fn setup_request(b: Seq<u8>) -> Request
    recommends
        b.len() == 8,
{
    Request {
        direction: direction_of_byte(b[0]),
        request_type: request_type_of_byte(b[0]),
        recipient: recipient_of_byte(b[0]),
        request: b[1],
        value: le_u16(b[2], b[3]),
        index: le_u16(b[4], b[5]),
        length: le_u16(b[6], b[7]),
    }
}

/// The 8 bytes of a SETUP packet that carry a request.
pub open spec fn setup_bytes(r: Request) -> Seq<u8> {
    seq![
        (direction_bits(r.direction) + request_type_number(r.request_type) * 32 + recipient_number(r.recipient)) as u8,
        r.request,
        (r.value % 256) as u8,
        (r.value / 256) as u8,
        (r.index % 256) as u8,
        (r.index / 256) as u8,
        (r.length % 256) as u8,
        (r.length / 256) as u8,
    ]
}

impl Request {
    /// Standard request code GET_STATUS.
    pub const GET_STATUS: u8 = 0;
    /// Standard request code CLEAR_FEATURE.
    pub const CLEAR_FEATURE: u8 = 1;
    /// Standard request code SET_FEATURE.
    pub const SET_FEATURE: u8 = 3;
    /// Standard request code SET_ADDRESS.
    pub const SET_ADDRESS: u8 = 5;
    /// Standard request code GET_DESCRIPTOR.
    pub const GET_DESCRIPTOR: u8 = 6;
    /// Standard request code SET_DESCRIPTOR.
    pub const SET_DESCRIPTOR: u8 = 7;
    /// Standard request code GET_CONFIGURATION.
    pub const GET_CONFIGURATION: u8 = 8;
    /// Standard request code SET_CONFIGURATION.
    pub const SET_CONFIGURATION: u8 = 9;
    /// Standard request code GET_INTERFACE.
    pub const GET_INTERFACE: u8 = 10;
    /// Standard request code SET_INTERFACE.
    pub const SET_INTERFACE: u8 = 11;
    /// Standard request code SYNCH_FRAME.
    pub const SYNCH_FRAME: u8 = 12;
    /// Standard feature selector for stalling an endpoint.
    pub const FEATURE_ENDPOINT_HALT: u16 = 0;
    /// Standard feature selector for remote wakeup of the host.
    pub const FEATURE_DEVICE_REMOTE_WAKEUP: u16 = 1;

    /// Parses a SETUP packet. Fails with `ParseError` unless the packet is exactly 8 bytes long.
    pub fn parse(buf: &[u8]) -> (r: Result<Request>)
        ensures
            buf@.len() == 8 <==> r is Ok,
            buf@.len() != 8 ==> r == Err::<Request, UsbError>(UsbError::ParseError),
            r matches Ok(req) ==> req == setup_request(buf@),
    {
        if buf.len() != 8 {
            return Err(UsbError::ParseError);
        }
        let rt = buf[0];
        let direction = if rt >= 0x80 { UsbDirection::In } else { UsbDirection::Out };
        let t = (rt / 32) % 4;
        let request_type = if t == 0 {
            RequestType::Standard
        } else if t == 1 {
            RequestType::Class
        } else if t == 2 {
            RequestType::Vendor
        } else {
            RequestType::Reserved
        };
        let rc = rt % 32;
        let recipient = if rc == 0 {
            Recipient::Device
        } else if rc == 1 {
            Recipient::Interface
        } else if rc == 2 {
            Recipient::Endpoint
        } else if rc == 3 {
            Recipient::Other
        } else {
            Recipient::Reserved
        };
        Ok(Request {
            direction,
            request_type,
            recipient,
            request: buf[1],
            value: (buf[2] as u16) + (buf[3] as u16) * 256,
            index: (buf[4] as u16) + (buf[5] as u16) * 256,
            length: (buf[6] as u16) + (buf[7] as u16) * 256,
        })
    }

    /// Gets the descriptor type and index from the value field of a GET_DESCRIPTOR request.
    pub fn descriptor_type_index(&self) -> (r: (u8, u8))
        ensures
            r.0 == self.value / 256,
            r.1 == self.value % 256,
    {
        ((self.value / 256) as u8, (self.value % 256) as u8)
    }

    /// The 8 bytes of the SETUP packet that carries this request.
    pub fn to_bytes(&self) -> (r: [u8; 8])
        ensures
            r@ == setup_bytes(*self),
    {
        let d: u8 = self.direction.bits();
        let t: u8 = match self.request_type {
            RequestType::Standard => 0,
            RequestType::Class => 1,
            RequestType::Vendor => 2,
            RequestType::Reserved => 3,
        };
        let rc: u8 = match self.recipient {
            Recipient::Device => 0,
            Recipient::Interface => 1,
            Recipient::Endpoint => 2,
            Recipient::Other => 3,
            Recipient::Reserved => 4,
        };
        let r = [
            d + t * 32 + rc,
            self.request,
            (self.value % 256) as u8,
            (self.value / 256) as u8,
            (self.index % 256) as u8,
            (self.index / 256) as u8,
            (self.length % 256) as u8,
            (self.length / 256) as u8,
        ];
        assert(r@ =~= setup_bytes(*self));
        r
    }
}

/// Writing a request into a SETUP packet and parsing it back gives the same request, for every
/// recipient that is not reserved.
pub proof fn lemma_request_bytes_roundtrip(r: Request)
    requires
        r.recipient != Recipient::Reserved,
    ensures
        setup_bytes(r).len() == 8,
        setup_request(setup_bytes(r)) == r,
{
}

/// Parsing a SETUP packet and writing the request back gives the same bytes, for every packet
/// whose recipient field (bits 0 to 4 of the first byte) is below 4.
pub proof fn lemma_setup_bytes_roundtrip(b: Seq<u8>)
    requires
        b.len() == 8,
        b[0] % 32 < 4,
    ensures
        setup_bytes(setup_request(b)) == b,
{
    assert(setup_bytes(setup_request(b)) =~= b);
}

} // verus!
