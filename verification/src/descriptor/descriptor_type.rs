use vstd::prelude::*;

verus! {

/// Device descriptor.
pub const DEVICE: u8 = 1;
/// Configuration descriptor.
pub const CONFIGURATION: u8 = 2;
/// String descriptor.
pub const STRING: u8 = 3;
/// Interface descriptor.
pub const INTERFACE: u8 = 4;
/// Endpoint descriptor.
pub const ENDPOINT: u8 = 5;
/// Interface association descriptor.
pub const IAD: u8 = 11;
/// Binary object store descriptor.
pub const BOS: u8 = 15;
/// Device capability descriptor.
pub const CAPABILITY: u8 = 16;

} // verus!
