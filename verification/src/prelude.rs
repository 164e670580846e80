pub use crate::device::{
    BuilderError, StringDescriptors, UsbDevice, UsbDeviceBuilder, UsbDeviceState, UsbVidPid,
};
pub use crate::LangID;
pub use crate::UsbError;
