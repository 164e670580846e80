use vstd::prelude::*;

verus! {

/// The number an unallocated interface handle reports.
pub const UNALLOCATED: u8 = 0xff;

/// A handle for a USB interface that contains its number.
pub struct InterfaceHandle {
    interface: Option<u8>,
    alt_setting: u8,
}

impl View for InterfaceHandle {
    type V = Option<u8>;

    /// The number of the interface, if it has been allocated.
    closed spec fn view(&self) -> Option<u8> {
        self.interface
    }
}

impl InterfaceHandle {
    /// The alternate setting of the handle.
    pub closed spec fn spec_alt_setting(&self) -> u8 {
        self.alt_setting
    }

    /// Creates a new unallocated interface handle.
    pub fn new() -> (r: Self)
        ensures
            r@ is None,
            r.spec_alt_setting() == 0,
    {
        Self { interface: None, alt_setting: 0 }
    }

    pub(crate) fn from_number(interface: u8) -> (r: Self)
        ensures
            r@ == Some(interface),
            r.spec_alt_setting() == 0,
    {
        Self { interface: Some(interface), alt_setting: 0 }
    }

    pub(crate) fn alt_setting(&self) -> (r: u8)
        ensures
            r == self.spec_alt_setting(),
    {
        self.alt_setting
    }

    /// Gets the number of the interface, or `0xff` if it has not been allocated yet.
    pub fn number(&self) -> (r: u8)
        ensures
            r == match self@ {
                Some(n) => n,
                None => UNALLOCATED,
            },
    {
        match self.interface {
            Some(n) => n,
            None => UNALLOCATED,
        }
    }
}

impl Default for InterfaceHandle {
    fn default() -> (r: Self)
        ensures
            r@ is None,
            r.spec_alt_setting() == 0,
    {
        Self::new()
    }
}

impl From<&InterfaceHandle> for u8 {
    fn from(handle: &InterfaceHandle) -> (r: u8) {
        handle.number()
    }
}

impl vstd::std_specs::convert::FromSpecImpl<&InterfaceHandle> for u8 {
    open spec fn obeys_from_spec() -> bool {
        true
    }

    open spec fn from_spec(v: &InterfaceHandle) -> u8 {
        match v@ {
            Some(n) => n,
            None => UNALLOCATED,
        }
    }
}

/// Whether two optional numbers are both allocated and equal.
pub open spec fn both_equal(a: Option<u8>, b: Option<u8>) -> bool {
    a matches Some(x) && b == Some(x)
}

impl PartialEq for InterfaceHandle {
    /// Two handles are equal when both are allocated to the same number.
    fn eq(&self, other: &Self) -> (r: bool) {
        match (self.interface, other.interface) {
            (Some(a), Some(b)) => a == b,
            _ => false,
        }
    }
}

impl vstd::std_specs::cmp::PartialEqSpecImpl for InterfaceHandle {
    open spec fn obeys_eq_spec() -> bool {
        true
    }

    open spec fn eq_spec(&self, other: &Self) -> bool {
        both_equal(self@, other@)
    }
}

impl PartialEq<u8> for InterfaceHandle {
    /// A handle equals a number when it is allocated to that number.
    fn eq(&self, other: &u8) -> (r: bool) {
        match self.interface {
            Some(n) => n == *other,
            None => false,
        }
    }
}

impl vstd::std_specs::cmp::PartialEqSpecImpl<u8> for InterfaceHandle {
    open spec fn obeys_eq_spec() -> bool {
        true
    }

    open spec fn eq_spec(&self, other: &u8) -> bool {
        self@ == Some(*other)
    }
}

impl PartialEq<u16> for InterfaceHandle {
    /// A handle equals a number when it is allocated to that number.
    fn eq(&self, other: &u16) -> (r: bool) {
        match self.interface {
            Some(n) => n as u16 == *other,
            None => false,
        }
    }
}

impl vstd::std_specs::cmp::PartialEqSpecImpl<u16> for InterfaceHandle {
    open spec fn obeys_eq_spec() -> bool {
        true
    }

    open spec fn eq_spec(&self, other: &u16) -> bool {
        self@ matches Some(n) && n as u16 == *other
    }
}

impl From<&mut InterfaceHandle> for u8 {
    fn from(handle: &mut InterfaceHandle) -> (r: u8) {
        handle.number()
    }
}

impl vstd::std_specs::convert::FromSpecImpl<&mut InterfaceHandle> for u8 {
    open spec fn obeys_from_spec() -> bool {
        true
    }

    open spec fn from_spec(v: &mut InterfaceHandle) -> u8 {
        match v@ {
            Some(n) => n,
            None => UNALLOCATED,
        }
    }
}

impl PartialEq<InterfaceHandle> for u8 {
    /// A number equals a handle when the handle is allocated to that number.
    fn eq(&self, other: &InterfaceHandle) -> (r: bool) {
        match other.interface {
            Some(n) => n == *self,
            None => false,
        }
    }
}

impl vstd::std_specs::cmp::PartialEqSpecImpl<InterfaceHandle> for u8 {
    open spec fn obeys_eq_spec() -> bool {
        true
    }

    open spec fn eq_spec(&self, other: &InterfaceHandle) -> bool {
        other@ == Some(*self)
    }
}

impl PartialEq<InterfaceHandle> for u16 {
    /// A number equals a handle when the handle is allocated to that number.
    fn eq(&self, other: &InterfaceHandle) -> (r: bool) {
        match other.interface {
            Some(n) => n as u16 == *self,
            None => false,
        }
    }
}

impl vstd::std_specs::cmp::PartialEqSpecImpl<InterfaceHandle> for u16 {
    open spec fn obeys_eq_spec() -> bool {
        true
    }

    open spec fn eq_spec(&self, other: &InterfaceHandle) -> bool {
        other@ matches Some(n) && n as u16 == *self
    }
}

/// A handle for a USB string descriptor that contains its index.
pub struct StringHandle(pub(crate) Option<u8>);

impl View for StringHandle {
    type V = Option<u8>;

    /// The index of the string, if it has been allocated.
    closed spec fn view(&self) -> Option<u8> {
        self.0
    }
}

impl StringHandle {
    /// Creates a new unallocated string handle.
    pub fn new() -> (r: Self)
        ensures
            r@ is None,
    {
        StringHandle(None)
    }

    /// Gets the index of the string, or `0xff` if it has not been allocated yet.
    pub fn index(&self) -> (r: u8)
        ensures
            r == match self@ {
                Some(n) => n,
                None => UNALLOCATED,
            },
    {
        match self.0 {
            Some(n) => n,
            None => UNALLOCATED,
        }
    }
}

impl Default for StringHandle {
    fn default() -> (r: Self)
        ensures
            r@ is None,
    {
        Self::new()
    }
}

impl From<&StringHandle> for u8 {
    /// The index of the string, or 0 (no string) if it has not been allocated.
    fn from(handle: &StringHandle) -> (r: u8) {
        match handle.0 {
            Some(n) => n,
            None => 0,
        }
    }
}

impl vstd::std_specs::convert::FromSpecImpl<&StringHandle> for u8 {
    open spec fn obeys_from_spec() -> bool {
        true
    }

    open spec fn from_spec(v: &StringHandle) -> u8 {
        match v@ {
            Some(n) => n,
            None => 0u8,
        }
    }
}

impl PartialEq for StringHandle {
    /// Two handles are equal when both are allocated to the same index.
    fn eq(&self, other: &Self) -> (r: bool) {
        match (self.0, other.0) {
            (Some(a), Some(b)) => a == b,
            _ => false,
        }
    }
}

impl vstd::std_specs::cmp::PartialEqSpecImpl for StringHandle {
    open spec fn obeys_eq_spec() -> bool {
        true
    }

    open spec fn eq_spec(&self, other: &Self) -> bool {
        both_equal(self@, other@)
    }
}

impl PartialEq<u8> for StringHandle {
    /// A handle equals an index when it is allocated to that index.
    fn eq(&self, other: &u8) -> (r: bool) {
        match self.0 {
            Some(n) => n == *other,
            None => false,
        }
    }
}

impl vstd::std_specs::cmp::PartialEqSpecImpl<u8> for StringHandle {
    open spec fn obeys_eq_spec() -> bool {
        true
    }

    open spec fn eq_spec(&self, other: &u8) -> bool {
        self@ == Some(*other)
    }
}

impl From<&mut StringHandle> for u8 {
    /// The index of the string, or 0 (no string) if it has not been allocated.
    fn from(handle: &mut StringHandle) -> (r: u8) {
        match handle.0 {
            Some(n) => n,
            None => 0,
        }
    }
}

impl vstd::std_specs::convert::FromSpecImpl<&mut StringHandle> for u8 {
    open spec fn obeys_from_spec() -> bool {
        true
    }

    open spec fn from_spec(v: &mut StringHandle) -> u8 {
        match v@ {
            Some(n) => n,
            None => 0u8,
        }
    }
}

impl PartialEq<StringHandle> for u8 {
    /// An index equals a handle when the handle is allocated to that index.
    fn eq(&self, other: &StringHandle) -> (r: bool) {
        match other.0 {
            Some(n) => n == *self,
            None => false,
        }
    }
}

impl vstd::std_specs::cmp::PartialEqSpecImpl<StringHandle> for u8 {
    open spec fn obeys_eq_spec() -> bool {
        true
    }

    open spec fn eq_spec(&self, other: &StringHandle) -> bool {
        other@ == Some(*self)
    }
}

} // verus!
