use vstd::prelude::*;

verus! {

/// A plain description of a device's identity and power settings.
pub struct UsbDeviceInfo<'a> {
    /// bDeviceClass
    pub device_class: u8,
    /// bDeviceSubClass
    pub device_sub_class: u8,
    /// bDeviceProtocol
    pub device_protocol: u8,
    /// bMaxPacketSize0
    pub max_packet_size_0: u8,
    /// idVendor
    pub vendor_id: u16,
    /// idProduct
    pub product_id: u16,
    /// bcdDevice
    pub device_release: u16,
    /// The manufacturer name.
    pub manufacturer: &'a str,
    /// The product name.
    pub product: &'a str,
    /// The serial number.
    pub serial_number: &'a str,
    /// Whether the device has its own power source.
    pub self_powered: bool,
    /// Whether the device supports remote wakeup.
    pub remote_wakeup: bool,
    /// bMaxPower, in units of 2 mA.
    pub max_power: u8,
}

impl<'a> UsbDeviceInfo<'a> {
    /// The description of a device with the given vendor and product IDs and default settings:
    /// class, sub-class and protocol 0, an 8-byte control endpoint, release 0x0010, empty
    /// strings, bus powered without remote wakeup, drawing at most 100 mA.
    pub fn new(vendor_id: u16, product_id: u16) -> (r: UsbDeviceInfo<'a>)
        ensures
            r.device_class == 0,
            r.device_sub_class == 0,
            r.device_protocol == 0,
            r.max_packet_size_0 == 8,
            r.vendor_id == vendor_id,
            r.product_id == product_id,
            r.device_release == 0x0010,
            r.manufacturer@ == Seq::<char>::empty(),
            r.product@ == Seq::<char>::empty(),
            r.serial_number@ == Seq::<char>::empty(),
            !r.self_powered,
            !r.remote_wakeup,
            r.max_power == 50,
    {
        let empty = "";
        proof {
            reveal_strlit("");
        }
        UsbDeviceInfo {
            device_class: 0x00,
            device_sub_class: 0x00,
            device_protocol: 0x00,
            max_packet_size_0: 8,
            vendor_id,
            product_id,
            device_release: 0x0010,
            manufacturer: empty,
            product: empty,
            serial_number: empty,
            self_powered: false,
            remote_wakeup: false,
            max_power: 50,
        }
    }
}

} // verus!
