use vstd::prelude::*;
use crate::bus::{UsbBus, UsbBusAllocator};
use crate::descriptor::lang_id::LangID;
use crate::device::{string_table, string_table_from_slice, string_table_new, Config, UsbDevice, UsbRev};

verus! {

/// A USB vendor ID and product ID pair.
pub struct UsbVidPid(pub u16, pub u16);

/// Error type for the USB device builder
#[derive(Copy, Clone, Debug, PartialEq, Eq, Structural)]
pub enum BuilderError {
    /// String descriptors were provided in more languages than are supported
    TooManyLanguages,
    /// Control endpoint can only be 8, 16, 32, or 64 byte max packet size
    InvalidPacketSize,
    /// Configuration specifies higher USB power draw than allowed
    PowerTooHigh,
    /// The provided control buffer is too small for the provided maximum packet size.
    ControlBufferTooSmall,
    /// The bus refused to allocate the control endpoints.
    ControlEndpointAllocation,
}

/// Provides basic string descriptors about the device, including the manufacturer, product name,
/// and serial number of the device in a specified language.
#[derive(Copy, Clone, Debug, PartialEq)]
pub struct StringDescriptors<'a> {
    pub(crate) id: LangID,
    pub(crate) serial: Option<&'a str>,
    pub(crate) product: Option<&'a str>,
    pub(crate) manufacturer: Option<&'a str>,
}

impl<'a> StringDescriptors<'a> {
    /// The language of these strings.
    pub closed spec fn spec_id(&self) -> LangID {
        self.id
    }

    /// The serial number string, if one was given.
    pub closed spec fn spec_serial(&self) -> Option<&'a str> {
        self.serial
    }

    /// The product name string, if one was given.
    pub closed spec fn spec_product(&self) -> Option<&'a str> {
        self.product
    }

    /// The manufacturer name string, if one was given.
    pub closed spec fn spec_manufacturer(&self) -> Option<&'a str> {
        self.manufacturer
    }

    pub(crate) fn lang(&self) -> (r: LangID)
        ensures
            r == self.spec_id(),
    {
        self.id
    }

    pub(crate) fn serial_string(&self) -> (r: Option<&'a str>)
        ensures
            r == self.spec_serial(),
    {
        self.serial
    }

    pub(crate) fn product_string(&self) -> (r: Option<&'a str>)
        ensures
            r == self.spec_product(),
    {
        self.product
    }

    pub(crate) fn manufacturer_string(&self) -> (r: Option<&'a str>)
        ensures
            r == self.spec_manufacturer(),
    {
        self.manufacturer
    }

    /// Create a new descriptor list with the provided language.
    pub fn new(lang_id: LangID) -> (r: Self)
        ensures
            r.spec_id() == lang_id,
            r.spec_serial() is None,
            r.spec_product() is None,
            r.spec_manufacturer() is None,
    {
        Self { id: lang_id, serial: None, product: None, manufacturer: None }
    }

    /// Specify the serial number for this language.
    pub fn serial_number(self, serial: &'a str) -> (r: Self)
        ensures
            r.spec_serial() == Some(serial),
            r.spec_id() == self.spec_id(),
            r.spec_product() == self.spec_product(),
            r.spec_manufacturer() == self.spec_manufacturer(),
    {
        StringDescriptors { serial: Some(serial), ..self }
    }

    /// Specify the manufacturer name for this language.
    pub fn manufacturer(self, manufacturer: &'a str) -> (r: Self)
        ensures
            r.spec_manufacturer() == Some(manufacturer),
            r.spec_id() == self.spec_id(),
            r.spec_product() == self.spec_product(),
            r.spec_serial() == self.spec_serial(),
    {
        StringDescriptors { manufacturer: Some(manufacturer), ..self }
    }

    /// Specify the product name for this language.
    pub fn product(self, product: &'a str) -> (r: Self)
        ensures
            r.spec_product() == Some(product),
            r.spec_id() == self.spec_id(),
            r.spec_manufacturer() == self.spec_manufacturer(),
            r.spec_serial() == self.spec_serial(),
    {
        StringDescriptors { product: Some(product), ..self }
    }
}

impl<'a> Default for StringDescriptors<'a> {
    fn default() -> (r: Self)
        ensures
            r.spec_id() == LangID::EN_US,
            r.spec_serial() is None,
            r.spec_product() is None,
            r.spec_manufacturer() is None,
    {
        Self::new(LangID::EN_US)
    }
}

/// Whether a maximum packet size is allowed for control endpoint 0.
pub open spec fn valid_max_packet_size_0(size: u8) -> bool {
    size == 8 || size == 16 || size == 32 || size == 64
}

/// Used to build new [`UsbDevice`]s.
pub struct UsbDeviceBuilder<'a, B: UsbBus> {
    alloc: &'a UsbBusAllocator<'a, B>,
    control_buffer: Vec<u8>,
    config: Config<'a>,
}

impl<'a, B: UsbBus> UsbDeviceBuilder<'a, B> {
    /// The configuration that the device will have.
    pub closed spec fn spec_config(&self) -> Config<'a> {
        self.config
    }

    /// The control buffer that the device will use.
    pub closed spec fn spec_buffer(&self) -> Seq<u8> {
        self.control_buffer@
    }

    /// The allocator of the bus that the device will use.
    pub closed spec fn spec_alloc(&self) -> &'a UsbBusAllocator<'a, B> {
        self.alloc
    }

    /// Whether `after` has the configuration of `before` except for the fields a setter changed,
    /// which the caller states.
    pub open spec fn same_except_config(before: Self, after: Self) -> bool {
        &&& after.spec_buffer() == before.spec_buffer()
        &&& after.spec_alloc() == before.spec_alloc()
    }

    /// Creates a builder for constructing a new [`UsbDevice`], with the control buffer that the
    /// device will use for control transfers.
    pub fn new(alloc: &'a UsbBusAllocator<'a, B>, vid_pid: UsbVidPid, control_buffer: Vec<u8>) -> (r: UsbDeviceBuilder<'a, B>)
        requires
            control_buffer@.len() + 1024 <= usize::MAX,
        ensures
            r.spec_alloc() == alloc,
            r.spec_buffer() == control_buffer@,
            r.spec_config().device_class == 0,
            r.spec_config().device_sub_class == 0,
            r.spec_config().device_protocol == 0,
            r.spec_config().max_packet_size_0 == 8,
            r.spec_config().vendor_id == vid_pid.0,
            r.spec_config().product_id == vid_pid.1,
            r.spec_config().usb_rev == UsbRev::Usb210,
            r.spec_config().device_release == 0x0010,
            string_table(r.spec_config().string_descriptors).len() == 0,
            !r.spec_config().self_powered,
            !r.spec_config().supports_remote_wakeup,
            !r.spec_config().composite_with_iads,
            r.spec_config().max_power == 50,
    {
        UsbDeviceBuilder {
            alloc,
            control_buffer,
            config: Config {
                device_class: 0x00,
                device_sub_class: 0x00,
                device_protocol: 0x00,
                max_packet_size_0: 8,
                vendor_id: vid_pid.0,
                product_id: vid_pid.1,
                usb_rev: UsbRev::Usb210,
                device_release: 0x0010,
                string_descriptors: string_table_new(),
                self_powered: false,
                supports_remote_wakeup: false,
                composite_with_iads: false,
                max_power: 50,
            },
        }
    }

    /// Creates the [`UsbDevice`] instance with the configuration in this builder. Fails with
    /// `ControlBufferTooSmall` when the control buffer is shorter than the maximum packet size of
    /// endpoint 0, and with `ControlEndpointAllocation` when the bus refuses the control endpoints.
    pub fn build(self) -> (r: core::result::Result<UsbDevice<'a, B>, BuilderError>)
        requires
            self.spec_buffer().len() + 1024 <= usize::MAX,
        ensures
            self.spec_buffer().len() < self.spec_config().max_packet_size_0 ==> r == Err::<UsbDevice<'a, B>, BuilderError>(BuilderError::ControlBufferTooSmall),
            self.spec_buffer().len() >= self.spec_config().max_packet_size_0 ==> (r matches Err(e) ==> e == BuilderError::ControlEndpointAllocation),
            r matches Ok(dev) ==> {
                &&& dev.inv()
                &&& self.spec_buffer().len() >= self.spec_config().max_packet_size_0
                &&& dev.spec_state() == crate::device::UsbDeviceState::Default
                &&& dev.spec_pipe().spec_buf() == self.spec_buffer()
                &&& dev.spec_pipe().spec_mps() == self.spec_config().max_packet_size_0
                &&& dev.spec_bus() == self.spec_alloc().spec_bus()
                &&& dev.spec_config() == self.spec_config()
                &&& dev.spec_suspended() is None
                &&& !dev.spec_remote_wakeup()
                &&& !dev.spec_self_powered()
                &&& dev.spec_pending_address() == 0
                &&& dev.spec_pipe().spec_state() == crate::control_pipe::ControlState::Idle
            },
    {
        if self.control_buffer.len() < self.config.max_packet_size_0 as usize {
            return Err(BuilderError::ControlBufferTooSmall);
        }
        UsbDevice::build(self.alloc, self.config, self.control_buffer)
    }

    /// Sets the device class code assigned by USB.org. Set to `0xff` for vendor-specific
    /// devices that do not conform to any class.
    ///
    /// Default: `0x00` (class code specified by interfaces)
    pub fn device_class(self, device_class: u8) -> (r: Self)
        ensures
            Self::same_except_config(self, r),
            r.spec_config() == (Config { device_class, ..self.spec_config() }),
    {
        UsbDeviceBuilder { config: Config { device_class, ..self.config }, ..self }
    }

    /// Sets the device sub-class code. Depends on class.
    ///
    /// Default: `0x00`
    pub fn device_sub_class(self, device_sub_class: u8) -> (r: Self)
        ensures
            Self::same_except_config(self, r),
            r.spec_config() == (Config { device_sub_class, ..self.spec_config() }),
    {
        UsbDeviceBuilder { config: Config { device_sub_class, ..self.config }, ..self }
    }

    /// Sets the device protocol code. Depends on class and sub-class.
    ///
    /// Default: `0x00`
    pub fn device_protocol(self, device_protocol: u8) -> (r: Self)
        ensures
            Self::same_except_config(self, r),
            r.spec_config() == (Config { device_protocol, ..self.spec_config() }),
    {
        UsbDeviceBuilder { config: Config { device_protocol, ..self.config }, ..self }
    }

    /// Sets the device release version in BCD.
    ///
    /// Default: `0x0010` ("0.1")
    pub fn device_release(self, device_release: u16) -> (r: Self)
        ensures
            Self::same_except_config(self, r),
            r.spec_config() == (Config { device_release, ..self.spec_config() }),
    {
        UsbDeviceBuilder { config: Config { device_release, ..self.config }, ..self }
    }

    /// Sets whether the device may have an external power source.
    ///
    /// This should be set to `true` even if the device is sometimes self-powered and may not
    /// always draw power from the USB bus.
    ///
    /// Default: `false`
    pub fn self_powered(self, self_powered: bool) -> (r: Self)
        ensures
            Self::same_except_config(self, r),
            r.spec_config() == (Config { self_powered, ..self.spec_config() }),
    {
        UsbDeviceBuilder { config: Config { self_powered, ..self.config }, ..self }
    }

    /// Sets whether the device supports remotely waking up the host is requested.
    ///
    /// Default: `false`
    pub fn supports_remote_wakeup(self, supports_remote_wakeup: bool) -> (r: Self)
        ensures
            Self::same_except_config(self, r),
            r.spec_config() == (Config { supports_remote_wakeup, ..self.spec_config() }),
    {
        UsbDeviceBuilder { config: Config { supports_remote_wakeup, ..self.config }, ..self }
    }

    /// Sets which Usb 2 revision to comply to.
    ///
    /// Default: `UsbRev::Usb210`
    pub fn usb_rev(self, usb_rev: UsbRev) -> (r: Self)
        ensures
            Self::same_except_config(self, r),
            r.spec_config() == (Config { usb_rev, ..self.spec_config() }),
    {
        UsbDeviceBuilder { config: Config { usb_rev, ..self.config }, ..self }
    }

    /// Configures the device as a composite device with interface association descriptors.
    pub fn composite_with_iads(self) -> (r: Self)
        ensures
            Self::same_except_config(self, r),
            r.spec_config() == (Config {
                device_class: 0xEF,
                device_sub_class: 0x02,
                device_protocol: 0x01,
                composite_with_iads: true,
                ..self.spec_config()
            }),
    {
        // Magic values specified in USB-IF ECN on IADs.
        UsbDeviceBuilder {
            config: Config {
                device_class: 0xEF,
                device_sub_class: 0x02,
                device_protocol: 0x01,
                composite_with_iads: true,
                ..self.config
            },
            ..self
        }
    }

    /// Specify the strings for the device.
    ///
    /// Up to 16 languages may be provided; more fail with `TooManyLanguages`.
    pub fn strings(self, descriptors: &[StringDescriptors<'a>]) -> (r: core::result::Result<Self, BuilderError>)
        ensures
            descriptors@.len() > 16 <==> r is Err,
            r is Err ==> r == Err::<Self, BuilderError>(BuilderError::TooManyLanguages),
            r matches Ok(b) ==> {
                &&& Self::same_except_config(self, b)
                &&& b.spec_config() == (Config { string_descriptors: b.spec_config().string_descriptors, ..self.spec_config() })
                &&& string_table(b.spec_config().string_descriptors) == descriptors@
            },
    {
        // The 16 language limit comes from the size of the buffer used to provide the list of
        // language descriptors to the host.
        match string_table_from_slice(descriptors) {
            Ok(table) => Ok(UsbDeviceBuilder { config: Config { string_descriptors: table, ..self.config }, ..self }),
            Err(_) => Err(BuilderError::TooManyLanguages),
        }
    }

    /// Sets the maximum packet size in bytes for the control endpoint 0.
    ///
    /// Valid values are 8, 16, 32 and 64; others fail with `InvalidPacketSize`. A size larger than
    /// the control buffer fails with `ControlBufferTooSmall`.
    ///
    /// Default: 8 bytes
    pub fn max_packet_size_0(self, max_packet_size_0: u8) -> (r: core::result::Result<Self, BuilderError>)
        ensures
            !valid_max_packet_size_0(max_packet_size_0) ==> r == Err::<Self, BuilderError>(BuilderError::InvalidPacketSize),
            valid_max_packet_size_0(max_packet_size_0) && self.spec_buffer().len() < max_packet_size_0 ==>
                r == Err::<Self, BuilderError>(BuilderError::ControlBufferTooSmall),
            valid_max_packet_size_0(max_packet_size_0) && self.spec_buffer().len() >= max_packet_size_0 ==> r is Ok,
            r matches Ok(b) ==> Self::same_except_config(self, b)
                && b.spec_config() == (Config { max_packet_size_0, ..self.spec_config() }),
    {
        if !(max_packet_size_0 == 8 || max_packet_size_0 == 16 || max_packet_size_0 == 32 || max_packet_size_0 == 64) {
            return Err(BuilderError::InvalidPacketSize);
        }
        if self.control_buffer.len() < max_packet_size_0 as usize {
            return Err(BuilderError::ControlBufferTooSmall);
        }
        Ok(UsbDeviceBuilder { config: Config { max_packet_size_0, ..self.config }, ..self })
    }

    /// Sets the maximum current drawn from the USB bus by the device in milliamps.
    ///
    /// More than 500 mA fails with `PowerTooHigh`. The descriptor reports the current in units of
    /// 2 mA, rounded down. If your device always uses an external power source and never draws
    /// power from the USB bus, this can be set to 0.
    ///
    /// Default: 100mA
    pub fn max_power(self, max_power_ma: usize) -> (r: core::result::Result<Self, BuilderError>)
        ensures
            max_power_ma > 500 <==> r is Err,
            r is Err ==> r == Err::<Self, BuilderError>(BuilderError::PowerTooHigh),
            r matches Ok(b) ==> Self::same_except_config(self, b)
                && b.spec_config() == (Config { max_power: (max_power_ma / 2) as u8, ..self.spec_config() }),
    {
        if max_power_ma > 500 {
            return Err(BuilderError::PowerTooHigh);
        }
        Ok(UsbDeviceBuilder { config: Config { max_power: (max_power_ma / 2) as u8, ..self.config }, ..self })
    }
}

} // verus!
