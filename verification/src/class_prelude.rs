pub use crate::bus::{InterfaceNumber, StringIndex, UsbBus, UsbBusAllocator};
pub use crate::class::{ControlIn, ControlOut, UsbClass};
pub use crate::control;
pub use crate::descriptor::{BosWriter, DescriptorWriter};
pub use crate::endpoint::{
    EndpointAddress, EndpointIn, EndpointOut, EndpointType, IsochronousSynchronizationType,
    IsochronousUsageType,
};
pub use crate::LangID;
pub use crate::UsbError;
