use vstd::prelude::*;
use crate::allocator::StringHandle;

verus! {

/// USB interface descriptor settings: class, sub-class and protocol codes and the index of the
/// description string.
#[derive(Copy, Clone)]
pub struct InterfaceDescriptor {
    pub(crate) class: u8,
    pub(crate) sub_class: u8,
    pub(crate) protocol: u8,
    pub(crate) description: u8,
}

impl View for InterfaceDescriptor {
    /// The class, sub-class and protocol codes and the description string index.
    type V = (u8, u8, u8, u8);

    closed spec fn view(&self) -> (u8, u8, u8, u8) {
        (self.class, self.sub_class, self.protocol, self.description)
    }
}

impl InterfaceDescriptor {
    /// Creates a new interface descriptor with the specified class code. Non-standard classes
    /// should use the class code `0xff` (vendor-specific).
    pub fn class(class: u8) -> (r: Self)
        ensures
            r@ == (class, 0u8, 0u8, 0u8),
    {
        InterfaceDescriptor { class, sub_class: 0, protocol: 0, description: 0 }
    }

    /// Sets the sub-class code of the descriptor. The meaning depends on the class code.
    pub fn sub_class(self, sub_class: u8) -> (r: Self)
        ensures
            r@ == (self@.0, sub_class, self@.2, self@.3),
    {
        InterfaceDescriptor { sub_class, ..self }
    }

    /// Sets the protocol code of the descriptor. The meaning depends on the class and sub-class
    /// codes.
    pub fn protocol(self, protocol: u8) -> (r: Self)
        ensures
            r@ == (self@.0, self@.1, protocol, self@.3),
    {
        InterfaceDescriptor { protocol, ..self }
    }

    /// Sets the interface description string to the string of `description`, or to 0xff when
    /// that string has not been allocated.
    pub fn description(self, description: &StringHandle) -> (r: Self)
        ensures
            r@ == (self@.0, self@.1, self@.2, match description@ {
                Some(n) => n,
                None => 0xffu8,
            }),
    {
        InterfaceDescriptor { description: description.index(), ..self }
    }
}

} // verus!
