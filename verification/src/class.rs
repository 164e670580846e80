use vstd::prelude::*;
use crate::bus::{InterfaceNumber, StringIndex, UsbBus};
use crate::control::Request;
use crate::control_pipe::{is_waiting, min_nat, ControlPipe, ControlState};
use crate::descriptor::lang_id::LangID;
use crate::descriptor::{BosWriter, DescriptorWriter};
use crate::endpoint::EndpointAddress;
use crate::{Result, UsbError};

verus! {

/// A trait for implementing USB classes.
///
/// All methods are optional callbacks that will be called by
/// [`UsbDevice::poll`](crate::device::UsbDevice::poll).
pub trait UsbClass<B: UsbBus> {
    /// Called when a GET_DESCRIPTOR request is received for a configuration descriptor. When
    /// called, the implementation should write its interface, endpoint and any extra class
    /// descriptors into `writer`. The configuration descriptor itself will be written by
    /// [UsbDevice](crate::device::UsbDevice) and shouldn't be written by classes.
    ///
    /// # Errors
    ///
    /// Generally errors returned by `DescriptorWriter`. Implementors should propagate any errors
    /// using `?`.
    ///
    /// A class writes only through the writer's methods, each of which only adds to what was
    /// written before (see [`DescriptorWriter::extends`]), so every implementation leaves the
    /// writer extending what it got.
    fn get_configuration_descriptors(&self, writer: &mut DescriptorWriter) -> (r: Result<()>)
        ensures
            DescriptorWriter::extends(*old(writer), *final(writer)),
        default_ensures
            r == Ok::<(), UsbError>(()),
            *final(writer) == *old(writer),
    {
        let _ = writer;
        Ok(())
    }

    /// Called when a GET_DESCRIPTOR request is received for a BOS descriptor.
    /// When called, the implementation should write its blobs such as capability
    /// descriptors into `writer`. The BOS descriptor itself will be written by
    /// [UsbDevice](crate::device::UsbDevice) and shouldn't be written by classes.
    ///
    /// A class writes only through [`BosWriter::capability`], which only adds to what was
    /// written before (see [`BosWriter::extends`]), so every implementation leaves the writer
    /// extending what it got.
    fn get_bos_descriptors(&self, writer: &mut BosWriter) -> (r: Result<()>)
        ensures
            BosWriter::extends(*old(writer), *final(writer)),
        default_ensures
            r == Ok::<(), UsbError>(()),
            *final(writer) == *old(writer),
    {
        let _ = writer;
        Ok(())
    }

    /// Gets a class-specific string descriptor.
    ///
    /// Note: All string descriptor requests are passed to all classes in turn, so implementations
    /// should return [`None`] if an unknown index is requested.
    fn get_string(&self, index: StringIndex, lang_id: LangID) -> (r: Option<&str>)
        default_ensures
            r is None,
    {
        let _ = (index, lang_id);
        None
    }

    /// Called after a USB reset after the bus reset sequence is complete.
    fn reset(&mut self) {
    }

    /// Called whenever the `UsbDevice` is polled.
    fn poll(&mut self) {
    }

    /// Called when a control request is received with direction HostToDevice.
    ///
    /// All requests are passed to classes in turn, which can choose to accept, ignore or report an
    /// error. Classes can even choose to override standard requests, but doing that is rarely
    /// necessary.
    ///
    /// See [`ControlOut`] for how to respond to the transfer.
    fn control_out(&mut self, xfer: ControlOut<'_, '_, '_, B>) {
        let _ = xfer;
    }

    /// Called when a control request is received with direction DeviceToHost.
    ///
    /// See [`ControlIn`] for how to respond to the transfer.
    fn control_in(&mut self, xfer: ControlIn<'_, '_, '_, B>) {
        let _ = xfer;
    }

    /// Called when endpoint with address `addr` has received a SETUP packet.
    fn endpoint_setup(&mut self, addr: EndpointAddress) {
        let _ = addr;
    }

    /// Called when endpoint with address `addr` has received data (OUT packet).
    fn endpoint_out(&mut self, addr: EndpointAddress) {
        let _ = addr;
    }

    /// Called when endpoint with address `addr` has completed transmitting data (IN packet).
    fn endpoint_in_complete(&mut self, addr: EndpointAddress) {
        let _ = addr;
    }

    /// Called when the interfaces alternate setting state is requested. Return `None` for an
    /// interface you don't know.
    fn get_alt_setting(&mut self, interface: InterfaceNumber) -> (r: Option<u8>)
        default_ensures
            r is None,
    {
        let _ = interface;
        None
    }

    /// Called when the interfaces alternate setting state is altered. Return `false` for an
    /// interface you don't know.
    fn set_alt_setting(&mut self, interface: InterfaceNumber, alternative: u8) -> (r: bool)
        default_ensures
            !r,
    {
        let _ = (interface, alternative);
        false
    }
}

/// A class borrowed mutably is a class: each callback is passed on to it.
impl<'c, B: UsbBus, T: UsbClass<B> + ?Sized> UsbClass<B> for &'c mut T {
    fn get_configuration_descriptors(&self, writer: &mut DescriptorWriter) -> (r: Result<()>) {
        (**self).get_configuration_descriptors(writer)
    }

    fn get_bos_descriptors(&self, writer: &mut BosWriter) -> (r: Result<()>) {
        (**self).get_bos_descriptors(writer)
    }

    fn get_string(&self, index: StringIndex, lang_id: LangID) -> (r: Option<&str>) {
        (**self).get_string(index, lang_id)
    }

    fn reset(&mut self) {
        (**self).reset()
    }

    fn poll(&mut self) {
        (**self).poll()
    }

    fn control_out(&mut self, xfer: ControlOut<'_, '_, '_, B>) {
        (**self).control_out(xfer)
    }

    fn control_in(&mut self, xfer: ControlIn<'_, '_, '_, B>) {
        (**self).control_in(xfer)
    }

    fn endpoint_setup(&mut self, addr: EndpointAddress) {
        (**self).endpoint_setup(addr)
    }

    fn endpoint_out(&mut self, addr: EndpointAddress) {
        (**self).endpoint_out(addr)
    }

    fn endpoint_in_complete(&mut self, addr: EndpointAddress) {
        (**self).endpoint_in_complete(addr)
    }

    fn get_alt_setting(&mut self, interface: InterfaceNumber) -> (r: Option<u8>) {
        (**self).get_alt_setting(interface)
    }

    fn set_alt_setting(&mut self, interface: InterfaceNumber, alternative: u8) -> (r: bool) {
        (**self).set_alt_setting(interface, alternative)
    }
}

/// Handle for a control IN transfer. When implementing a class, use the methods of this object to
/// response to the transfer with either data or an error (STALL condition). To ignore the request
/// and pass it on to the next class, simply don't call any method.
pub struct ControlIn<'a, 'p, 'r, B: UsbBus> {
    /// The control pipe that answers the transfer. Its operations are private to this crate: a
    /// class answers only through this handle's methods.
    pub pipe: &'p mut ControlPipe<'a, B>,
    /// The request of the transfer.
    pub req: &'r Request,
}

impl<'a, 'p, 'r, B: UsbBus> ControlIn<'a, 'p, 'r, B> {
    /// The request of the transfer.
    pub open spec fn spec_request(&self) -> Request {
        *self.req
    }

    /// The control pipe the transfer runs on.
    pub open spec fn spec_pipe(&self) -> ControlPipe<'a, B> {
        *self.pipe
    }

    pub(crate) fn new(pipe: &'p mut ControlPipe<'a, B>, req: &'r Request) -> (r: Self)
        ensures
            r.spec_request() == *req,
            r.spec_pipe() == *old(pipe),
            *final(r.pipe) == *final(pipe),
    {
        ControlIn { pipe, req }
    }

    /// Gets the request from the SETUP packet.
    pub fn request(&self) -> (r: &Request)
        ensures
            *r == self.spec_request(),
    {
        self.req
    }

    /// Accepts the transfer with the supplied buffer. Fails with `InvalidState` unless the pipe
    /// waits for the answer to an IN request, and with `BufferOverflow` when the data does not
    /// fit in the control buffer.
    pub fn accept_with(self, data: &[u8]) -> (r: Result<()>)
        ensures
            !(self.spec_pipe().spec_state() is CompleteIn) ==> r == Err::<(), UsbError>(UsbError::InvalidState),
            self.spec_pipe().spec_state() is CompleteIn && data@.len() > self.spec_pipe().spec_buf().len()
                ==> r == Err::<(), UsbError>(UsbError::BufferOverflow),
            self.spec_pipe().spec_state() is CompleteIn && data@.len() <= self.spec_pipe().spec_buf().len() ==> r is Ok,
            ControlPipe::answered(self.spec_pipe(), *final(self.pipe), r, data@),
    {
        self.pipe.accept_in_with(data)
    }

    /// Accepts the transfer with the supplied static buffer.
    /// This method is useful when you have a large static descriptor to send as one packet.
    /// Fails with `InvalidState` unless the pipe waits for the answer to an IN request.
    pub fn accept_with_static(self, data: &'static [u8]) -> (r: Result<()>)
        ensures
            self.spec_pipe().spec_state() is CompleteIn <==> r is Ok,
            r is Err ==> r == Err::<(), UsbError>(UsbError::InvalidState),
            r is Err ==> *final(self.pipe) == self.spec_pipe(),
            r is Ok ==> ControlPipe::in_transfer_started(self.spec_pipe(), *final(self.pipe),
                self.spec_pipe().spec_state()->CompleteIn_0, data@.len(), Some(data@), self.spec_pipe().spec_buf()),
    {
        self.pipe.accept_in_static(data)
    }

    /// Accepts the transfer with a callback that can write to the internal buffer of the control
    /// pipe. Can be used to avoid an extra copy. The callback gets the control buffer and returns
    /// the length of the data it wrote there; see [`ControlPipe::callback_answered`]. Fails with
    /// `InvalidState` unless the pipe waits for the answer to an IN request.
    pub fn accept<F: FnOnce(&mut [u8]) -> Result<usize>>(self, f: F) -> (r: Result<()>)
        requires
            self.spec_pipe().spec_state() is CompleteIn ==> forall|s: &mut [u8]|
                s@ == self.spec_pipe().spec_buf() ==> #[trigger] f.requires((s,)),
        ensures
            !(self.spec_pipe().spec_state() is CompleteIn) ==> r == Err::<(), UsbError>(UsbError::InvalidState)
                && *final(self.pipe) == self.spec_pipe(),
            self.spec_pipe().spec_state() is CompleteIn ==> exists|s: &mut [u8], fr: Result<usize>| {
                &&& #[trigger] f.ensures((s,), fr)
                &&& s@ == self.spec_pipe().spec_buf()
                &&& ControlPipe::callback_answered(self.spec_pipe(), *final(self.pipe), r, fr, final(s)@)
            },
    {
        self.pipe.accept_in(f)
    }

    /// Rejects the transfer by stalling the pipe. Fails with `InvalidState` unless the pipe waits
    /// for the answer to a request.
    pub fn reject(self) -> (r: Result<()>)
        ensures
            is_waiting(self.spec_pipe().spec_state()) <==> r is Ok,
            r is Err ==> r == Err::<(), UsbError>(UsbError::InvalidState),
            ControlPipe::rejected(self.spec_pipe(), *final(self.pipe), r),
    {
        self.pipe.reject()
    }
}

/// Handle for a control OUT transfer. When implementing a class, use the methods of this object to
/// response to the transfer with an ACK or an error (STALL condition). To ignore the request and
/// pass it on to the next class, simply don't call any method.
pub struct ControlOut<'a, 'p, 'r, B: UsbBus> {
    /// The control pipe that answers the transfer. Its operations are private to this crate: a
    /// class answers only through this handle's methods.
    pub pipe: &'p mut ControlPipe<'a, B>,
    /// The request of the transfer.
    pub req: &'r Request,
}

impl<'a, 'p, 'r, B: UsbBus> ControlOut<'a, 'p, 'r, B> {
    /// The request of the transfer.
    pub open spec fn spec_request(&self) -> Request {
        *self.req
    }

    /// The control pipe the transfer runs on.
    pub open spec fn spec_pipe(&self) -> ControlPipe<'a, B> {
        *self.pipe
    }

    pub(crate) fn new(pipe: &'p mut ControlPipe<'a, B>, req: &'r Request) -> (r: Self)
        ensures
            r.spec_request() == *req,
            r.spec_pipe() == *old(pipe),
            *final(r.pipe) == *final(pipe),
    {
        ControlOut { pipe, req }
    }

    /// Gets the request from the SETUP packet.
    pub fn request(&self) -> (r: &Request)
        ensures
            *r == self.spec_request(),
    {
        self.req
    }

    /// Gets the data from the data stage of the request. May be empty if there was no data stage.
    pub fn data(&self) -> (r: &[u8])
        ensures
            r@ == self.spec_pipe().spec_buf().take(
                min_nat(self.spec_pipe().spec_len(), self.spec_pipe().spec_buf().len()) as int),
    {
        self.pipe.data()
    }

    /// Accepts the transfer by succesfully responding to the status stage. Fails with
    /// `InvalidState` unless the pipe waits for the answer to an OUT request.
    pub fn accept(self) -> (r: Result<()>)
        ensures
            self.spec_pipe().spec_state() is CompleteOut <==> r is Ok,
            r is Err ==> r == Err::<(), UsbError>(UsbError::InvalidState),
            ControlPipe::accepted_out(self.spec_pipe(), *final(self.pipe), r),
    {
        self.pipe.accept_out()
    }

    /// Rejects the transfer by stalling the pipe. Fails with `InvalidState` unless the pipe waits
    /// for the answer to a request.
    pub fn reject(self) -> (r: Result<()>)
        ensures
            is_waiting(self.spec_pipe().spec_state()) <==> r is Ok,
            r is Err ==> r == Err::<(), UsbError>(UsbError::InvalidState),
            ControlPipe::rejected(self.spec_pipe(), *final(self.pipe), r),
    {
        self.pipe.reject()
    }
}

} // verus!
