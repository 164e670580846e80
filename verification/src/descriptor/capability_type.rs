use vstd::prelude::*;

verus! {

/// Wireless USB capability.
pub const WIRELESS_USB: u8 = 1;
/// USB 2.0 extension capability.
pub const USB_2_0_EXTENSION: u8 = 2;
/// SuperSpeed USB device capability.
pub const SS_USB_DEVICE: u8 = 3;
/// Container ID capability.
pub const CONTAINER_ID: u8 = 4;
/// Platform capability.
pub const PLATFORM: u8 = 5;

} // verus!
