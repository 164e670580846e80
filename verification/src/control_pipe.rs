use vstd::prelude::*;
use crate::bus::UsbBus;
use crate::control::{setup_request, Request};
use crate::endpoint::{EndpointIn, EndpointOut};
use crate::{Result, UsbDirection, UsbError};

verus! {

/// The stage of the control transfer in progress.
#[derive(Copy, Clone, Eq, PartialEq, Structural, Debug)]
pub enum ControlState {
    /// No transfer in progress.
    Idle,
    /// IN data stage: more data remains to be sent.
    DataIn,
    /// IN data stage: all data sent in full packets, a zero-length packet remains.
    DataInZlp,
    /// IN data stage: the last packet is being sent.
    DataInLast,
    /// IN request received, waiting for a class or the device to respond.
    CompleteIn(Request),
    /// Waiting for the host's OUT status stage.
    StatusOut,
    /// OUT request and its data received, waiting for a class or the device to respond.
    CompleteOut,
    /// OUT data stage of the request in progress.
    DataOut(Request),
    /// IN status stage in progress.
    StatusIn,
    /// The transfer failed and both control endpoints are stalled.
    Error,
}

/// The smaller of two numbers.
pub open spec fn min_nat(a: nat, b: nat) -> nat {
    if a <= b { a } else { b }
}

/// Whether a state waits for a class or the device to respond to a request.
pub open spec fn is_waiting(s: ControlState) -> bool {
    s is CompleteOut || s is CompleteIn
}

/// Buffers and parses USB control transfers.
pub struct ControlPipe<'a, B: UsbBus> {
    ep_out: EndpointOut<'a, B>,
    ep_in: EndpointIn<'a, B>,
    state: ControlState,
    buf: Vec<u8>,
    static_in_buf: Option<&'static [u8]>,
    i: usize,
    len: usize,
}

impl<'a, B: UsbBus> ControlPipe<'a, B> {
    #[verifier::type_invariant]
    closed spec fn wf(self) -> bool {
        &&& self.buf@.len() + 1024 <= usize::MAX
        &&& (self.state matches ControlState::DataOut(_) ==> self.i < self.len <= self.buf@.len())
        &&& (self.state is DataIn ==> self.i <= self.len <= self.in_source_len())
    }

    closed spec fn in_source_len(self) -> nat {
        match self.static_in_buf {
            Some(s) => s@.len(),
            None => self.buf@.len(),
        }
    }

    /// The stage of the transfer.
    pub closed spec fn spec_state(&self) -> ControlState {
        self.state
    }

    /// The control buffer.
    pub closed spec fn spec_buf(&self) -> Seq<u8> {
        self.buf@
    }

    /// The static data of an IN transfer, if it is sent from static data.
    pub closed spec fn spec_static(&self) -> Option<Seq<u8>> {
        match self.static_in_buf {
            Some(s) => Some(s@),
            None => None,
        }
    }

    /// The number of bytes transferred in the data stage so far.
    pub closed spec fn spec_i(&self) -> nat {
        self.i as nat
    }

    /// The length of the data stage.
    pub closed spec fn spec_len(&self) -> nat {
        self.len as nat
    }

    /// The maximum packet size of the IN endpoint.
    pub closed spec fn spec_mps(&self) -> nat {
        self.ep_in.spec_max_packet_size() as nat
    }

    /// The number of bytes that the next IN data packet carries.
    pub open spec fn next_chunk_len(&self) -> nat {
        min_nat((self.spec_len() - self.spec_i()) as nat, self.spec_mps())
    }

    /// Whether `after` is `before` with only its state changed to `s`.
    pub open spec fn only_state(before: Self, after: Self, s: ControlState) -> bool {
        &&& after.spec_state() == s
        &&& after.spec_buf() == before.spec_buf()
        &&& after.spec_static() == before.spec_static()
        &&& after.spec_i() == before.spec_i()
        &&& after.spec_len() == before.spec_len()
        &&& after.spec_mps() == before.spec_mps()
    }

    /// Whether `after` is `before` after one IN data packet was sent.
    pub open spec fn chunk_sent(before: Self, after: Self) -> bool {
        let count = before.next_chunk_len();
        let i2 = before.spec_i() + count;
        &&& after.spec_buf() == before.spec_buf()
        &&& after.spec_len() == before.spec_len()
        &&& after.spec_mps() == before.spec_mps()
        &&& after.spec_i() == i2
        &&& if i2 >= before.spec_len() {
            &&& after.spec_static() is None
            &&& after.spec_state() == (if count == before.spec_mps() { ControlState::DataInZlp } else { ControlState::DataInLast })
        } else {
            &&& after.spec_static() == before.spec_static()
            &&& after.spec_state() == before.spec_state()
        }
    }

    /// Whether `after` is `before` with an IN data stage of `data_len` bytes (cut to the length
    /// the request asks for) started and its first packet sent, or, if the bus did not take the
    /// packet, waiting to send it.
    pub open spec fn in_transfer_started(before: Self, after: Self, req: Request, data_len: nat, source: Option<Seq<u8>>, buf: Seq<u8>) -> bool {
        let len = min_nat(data_len, req.length as nat);
        exists|mid: Self| #[trigger] Self::in_stage_start(mid, before.spec_mps(), len, source, buf)
            && (Self::only_state(mid, after, ControlState::DataIn) || Self::chunk_sent(mid, after))
    }

    /// Whether `p` is at the start of an IN data stage of `len` bytes sent from `source` (or the
    /// control buffer `buf` when there is no static source).
    pub open spec fn in_stage_start(p: Self, mps: nat, len: nat, source: Option<Seq<u8>>, buf: Seq<u8>) -> bool {
        &&& p.spec_state() == ControlState::DataIn
        &&& p.spec_i() == 0
        &&& p.spec_len() == len
        &&& p.spec_static() == source
        &&& p.spec_buf() == buf
        &&& p.spec_mps() == mps
    }

    /// Whether `after` and `r` are what answering the IN request that `before` waits for with
    /// `data` gives: `InvalidState` and no change unless `before` waits for an IN request,
    /// `BufferOverflow` and no change when the data is longer than the control buffer, and
    /// otherwise the data stage started with a copy of the data.
    pub open spec fn answered(before: Self, after: Self, r: Result<()>, data: Seq<u8>) -> bool {
        if !(before.spec_state() is CompleteIn) {
            r == Err::<(), UsbError>(UsbError::InvalidState) && after == before
        } else if data.len() > before.spec_buf().len() {
            r == Err::<(), UsbError>(UsbError::BufferOverflow) && after == before
        } else {
            r is Ok && Self::in_transfer_started(before, after, before.spec_state()->CompleteIn_0,
                data.len(), None, data + before.spec_buf().skip(data.len() as int))
        }
    }

    /// Whether `after` and `r` are what rejecting the request that `before` waits for gives: the
    /// transfer fails, or `InvalidState` and no change when no request waits.
    pub open spec fn rejected(before: Self, after: Self, r: Result<()>) -> bool {
        if is_waiting(before.spec_state()) {
            r is Ok && Self::only_state(before, after, ControlState::Error)
        } else {
            r == Err::<(), UsbError>(UsbError::InvalidState) && after == before
        }
    }

    /// Whether `after` and `r` are what accepting the OUT request that `before` waits for gives:
    /// the status stage starts, or `InvalidState` and no change when no OUT request waits.
    pub open spec fn accepted_out(before: Self, after: Self, r: Result<()>) -> bool {
        if before.spec_state() is CompleteOut {
            r is Ok && Self::only_state(before, after, ControlState::StatusIn)
        } else {
            r == Err::<(), UsbError>(UsbError::InvalidState) && after == before
        }
    }

    /// Whether `after` and `r` are what the completion of an IN packet on the control endpoint
    /// gives from `before`: in the data stage the next packet is sent (or, when the bus does not
    /// take it, waits), then the closing zero-length packet, then the status stage starts; the
    /// completed status stage of an OUT request ends the transfer and is the only case that
    /// returns true; in any other stage the transfer fails.
    pub open spec fn in_complete_handled(before: Self, after: Self, r: bool) -> bool {
        &&& r == (before.spec_state() is StatusIn)
        &&& match before.spec_state() {
            ControlState::DataIn => Self::only_state(before, after, ControlState::DataIn)
                || Self::chunk_sent(before, after),
            ControlState::DataInZlp => Self::only_state(before, after, ControlState::DataInZlp)
                || Self::only_state(before, after, ControlState::DataInLast),
            ControlState::DataInLast => Self::only_state(before, after, ControlState::StatusOut),
            ControlState::StatusIn => Self::only_state(before, after, ControlState::Idle),
            _ => Self::only_state(before, after, ControlState::Error),
        }
    }

    /// Whether `after` and `r` are what an OUT data packet `packet` gives from `before`: in the
    /// data stage of an OUT request the packet is written into the buffer after the data so far
    /// and, once the data is complete, the request is returned to be answered (a packet that does
    /// not fit in the buffer fails the transfer); in the status stage of an IN request the
    /// transfer ends; in any other stage the transfer fails.
    pub open spec fn out_packet_handled(before: Self, after: Self, packet: Seq<u8>, r: Option<Request>) -> bool {
        &&& after.spec_mps() == before.spec_mps()
        &&& after.spec_static() == before.spec_static()
        &&& after.spec_len() == before.spec_len()
        &&& match before.spec_state() {
            ControlState::DataOut(req) => {
                let i = before.spec_i();
                if i + packet.len() > before.spec_buf().len() {
                    r is None && Self::only_state(before, after, ControlState::Error)
                } else {
                    let i2 = i + packet.len();
                    &&& after.spec_buf() == before.spec_buf().take(i as int) + packet + before.spec_buf().skip(i2 as int)
                    &&& after.spec_i() == i2
                    &&& if i2 >= before.spec_len() {
                        r == Some(req) && after.spec_state() == ControlState::CompleteOut
                    } else {
                        r is None && after.spec_state() == ControlState::DataOut(req)
                    }
                }
            },
            ControlState::StatusOut => r is None && Self::only_state(before, after, ControlState::Idle),
            _ => r is None && Self::only_state(before, after, ControlState::Error),
        }
    }

    /// Whether `after` and `r` are what a SETUP packet `packet` gives from `before`: a request
    /// with an OUT data stage waits for its data, any other request is returned to be answered;
    /// a packet that is not 8 bytes long, or an OUT request whose data would not fit in the
    /// control buffer, fails the transfer.
    pub open spec fn setup_handled(before: Self, after: Self, packet: Seq<u8>, r: Option<Request>) -> bool {
        if packet.len() != 8 {
            r is None && Self::only_state(before, after, ControlState::Error)
        } else {
            let req = setup_request(packet);
            if req.direction == UsbDirection::Out {
                if req.length == 0 {
                    &&& r == Some(req)
                    &&& after.spec_state() == ControlState::CompleteOut
                    &&& after.spec_len() == 0
                    &&& after.spec_i() == before.spec_i()
                    &&& after.spec_buf() == before.spec_buf()
                    &&& after.spec_static() == before.spec_static()
                    &&& after.spec_mps() == before.spec_mps()
                } else if req.length as nat > before.spec_buf().len() {
                    r is None && Self::only_state(before, after, ControlState::Error)
                } else {
                    &&& r is None
                    &&& after.spec_state() == ControlState::DataOut(req)
                    &&& after.spec_i() == 0
                    &&& after.spec_len() == req.length
                    &&& after.spec_buf() == before.spec_buf()
                    &&& after.spec_static() == before.spec_static()
                    &&& after.spec_mps() == before.spec_mps()
                }
            } else {
                r == Some(req) && Self::only_state(before, after, ControlState::CompleteIn(req))
            }
        }
    }

    pub(crate) fn new(buf: Vec<u8>, ep_out: EndpointOut<'a, B>, ep_in: EndpointIn<'a, B>) -> (r: ControlPipe<'a, B>)
        requires
            buf@.len() + 1024 <= usize::MAX,
        ensures
            r.spec_state() == ControlState::Idle,
            r.spec_buf() == buf@,
            r.spec_static() is None,
            r.spec_i() == 0,
            r.spec_len() == 0,
            r.spec_mps() == ep_in.spec_max_packet_size(),
    {
        ControlPipe { ep_out, ep_in, state: ControlState::Idle, buf, static_in_buf: None, i: 0, len: 0 }
    }

    /// Whether a request waits for a response from a class or the device.
    pub(crate) fn waiting_for_response(&self) -> (r: bool)
        ensures
            r == is_waiting(self.spec_state()),
    {
        match self.state {
            ControlState::CompleteOut | ControlState::CompleteIn(_) => true,
            _ => false,
        }
    }

    /// The stage of the transfer.
    pub(crate) fn state(&self) -> (r: ControlState)
        ensures
            r == self.spec_state(),
    {
        self.state
    }

    /// The data of the data stage of an OUT request (cut to the buffer).
    pub(crate) fn data(&self) -> (r: &[u8])
        ensures
            r@ == self.spec_buf().take(min_nat(self.spec_len(), self.spec_buf().len()) as int),
    {
        let n = if self.len <= self.buf.len() { self.len } else { self.buf.len() };
        vstd::slice::slice_subrange(self.buf.as_slice(), 0, n)
    }

    /// The length of the control buffer.
    pub(crate) fn buffer_len(&self) -> (r: usize)
        ensures
            r == self.spec_buf().len(),
            r + 1024 <= usize::MAX,
    {
        proof { use_type_invariant(self); }
        self.buf.len()
    }

    /// Ends any transfer in progress.
    pub(crate) fn reset(&mut self)
        ensures
            Self::only_state(*old(self), *final(self), ControlState::Idle),
    {
        proof { use_type_invariant(&*self); }
        self.state = ControlState::Idle;
    }

    /// Marks the transfer failed and stalls both control endpoints.
    fn set_error(&mut self)
        ensures
            Self::only_state(*old(self), *final(self), ControlState::Error),
    {
        proof { use_type_invariant(&*self); }
        self.state = ControlState::Error;
        self.ep_out.stall();
        self.ep_in.stall();
    }

    /// Handles a SETUP packet: a request with an OUT data stage waits for its data; any other
    /// request is returned, to be answered.
    ///
    /// A packet that is not 8 bytes long, or an OUT request whose data would not fit in the
    /// control buffer, fails the transfer.
    pub(crate) fn process_setup(&mut self, packet: &[u8]) -> (r: Option<Request>)
        ensures
            Self::setup_handled(*old(self), *final(self), packet@, r),
    {
        proof { use_type_invariant(&*self); }
        let req = match Request::parse(packet) {
            Ok(req) => req,
            Err(_) => {
                self.set_error();
                return None;
            },
        };
        // Now that the setup packet is parsed, the endpoint is no longer stalled.
        self.ep_out.unstall();
        if req.direction == UsbDirection::Out {
            if req.length > 0 {
                if req.length as usize > self.buf.len() {
                    // Data stage won't fit in buffer
                    self.set_error();
                    return None;
                }
                self.state = ControlState::Idle;
                self.i = 0;
                self.len = req.length as usize;
                self.state = ControlState::DataOut(req);
            } else {
                // No data stage
                self.state = ControlState::CompleteOut;
                self.len = 0;
                return Some(req);
            }
        } else {
            // IN transfer
            self.state = ControlState::CompleteIn(req);
            return Some(req);
        }
        None
    }

    /// Reads a SETUP packet from the OUT endpoint and handles it with [`Self::process_setup`].
    /// When there is no packet nothing changes; when the read fails the transfer fails.
    pub(crate) fn handle_setup(&mut self) -> (r: Option<Request>)
        ensures
            exists|read: Result<usize>, packet: Seq<u8>| #[trigger] Self::setup_read_handled(*old(self), *final(self), read, packet, r),
            (r is None && *final(self) == *old(self))
                || (r is None && Self::only_state(*old(self), *final(self), ControlState::Error))
                || exists|packet: Seq<u8>| #[trigger] Self::setup_handled(*old(self), *final(self), packet, r),
            final(self).spec_mps() == old(self).spec_mps(),
            final(self).spec_buf() == old(self).spec_buf(),
            r matches Some(req) ==> (req.direction == UsbDirection::Out ==> final(self).spec_state() == ControlState::CompleteOut)
                && (req.direction == UsbDirection::In ==> final(self).spec_state() == ControlState::CompleteIn(req)),
    {
        proof { use_type_invariant(&*self); }
        let mut packet: Vec<u8> = Vec::new();
        let n = self.buf.len();
        let mut k: usize = 0;
        while k < n
            invariant
                k <= n,
                packet@.len() == k,
            decreases n - k,
        {
            packet.push(0u8);
            k = k + 1;
        }
        let read = self.ep_out.read(packet.as_mut_slice());
        let r = self.setup_received(read, packet.as_slice());
        proof {
            let p = packet@;
            if let Ok(count) = read {
                if count <= p.len() {
                    assert(Self::setup_handled(*old(self), *self, p.take(count as int), r));
                }
            }
        }
        r
    }

    /// Handles what reading a SETUP packet gave, `packet` being the space the packet was read
    /// into: see [`Self::setup_read_handled`].
    pub(crate) fn setup_received(&mut self, read: Result<usize>, packet: &[u8]) -> (r: Option<Request>)
        ensures
            Self::setup_read_handled(*old(self), *final(self), read, packet@, r),
    {
        match read {
            Ok(count) => {
                if count > packet.len() {
                    self.set_error();
                    return None;
                }
                let received = vstd::slice::slice_subrange(packet, 0, count);
                self.process_setup(received)
            },
            Err(UsbError::WouldBlock) => None,
            Err(_) => {
                self.set_error();
                None
            },
        }
    }

    /// Whether `after` and `r` are what a read of endpoint 0 OUT for a SETUP packet that gave
    /// `read`, into `packet`, gives from `before`: no packet (`WouldBlock`) changes nothing; a
    /// failed read, or a length longer than the space given, fails the transfer; a packet of
    /// `count` bytes is handled as [`Self::setup_handled`] says.
    pub open spec fn setup_read_handled(before: Self, after: Self, read: Result<usize>, packet: Seq<u8>, r: Option<Request>) -> bool {
        match read {
            Ok(count) => if count <= packet.len() {
                Self::setup_handled(before, after, packet.take(count as int), r)
            } else {
                r is None && Self::only_state(before, after, ControlState::Error)
            },
            Err(UsbError::WouldBlock) => r is None && after == before,
            Err(_) => r is None && Self::only_state(before, after, ControlState::Error),
        }
    }

    /// Handles an OUT data packet. In the data stage of an OUT request the packet is appended to
    /// the data; once the data is complete the request is returned, to be answered. In the
    /// status stage of an IN request the transfer ends. A packet in any other stage, or one that
    /// does not fit in the buffer, fails the transfer.
    pub(crate) fn process_out_packet(&mut self, packet: &[u8]) -> (r: Option<Request>)
        ensures
            Self::out_packet_handled(*old(self), *final(self), packet@, r),
    {
        proof { use_type_invariant(&*self); }
        match self.state {
            ControlState::DataOut(req) => {
                let i = self.i;
                let n = packet.len();
                if n > self.buf.len() - i {
                    self.set_error();
                    return None;
                }
                let ghost b0 = self.buf@;
                let mut newbuf: Vec<u8> = Vec::new();
                let total = self.buf.len();
                let mut k: usize = 0;
                while k < total
                    invariant
                        k <= total,
                        total == b0.len(),
                        i + n <= total,
                        n == packet@.len(),
                        newbuf@.len() == k,
                        forall|t: int| 0 <= t < k && t < i ==> newbuf@[t] == b0[t],
                        forall|t: int| 0 <= t < k && i <= t < i + n ==> newbuf@[t] == packet@[t - i],
                        forall|t: int| 0 <= t < k && i + n <= t ==> newbuf@[t] == b0[t],
                        self.buf@ == b0,
                    decreases total - k,
                {
                    let v = if k < i {
                        self.buf[k]
                    } else if k < i + n {
                        packet[k - i]
                    } else {
                        self.buf[k]
                    };
                    newbuf.push(v);
                    k = k + 1;
                }
                assert(newbuf@ =~= b0.take(i as int) + packet@ + b0.skip(i + n));
                self.buf = newbuf;
                let new_i = i + n;
                if new_i >= self.len {
                    self.state = ControlState::CompleteOut;
                    self.i = new_i;
                    return Some(req);
                }
                self.i = new_i;
            },
            ControlState::StatusOut => {
                self.state = ControlState::Idle;
            },
            _ => {
                // Unexpected OUT packet
                self.set_error();
            },
        }
        None
    }

    /// Reads an OUT packet from the OUT endpoint, into the space left in the control buffer, and
    /// handles it with [`Self::process_out_packet`]. When there is no packet nothing changes; when
    /// the read fails the transfer fails.
    pub(crate) fn handle_out(&mut self) -> (r: Option<Request>)
        ensures
            exists|read: Result<usize>, packet: Seq<u8>| #[trigger] Self::out_read_handled(*old(self), *final(self), read, packet, r),
            (r is None && *final(self) == *old(self))
                || (r is None && Self::only_state(*old(self), *final(self), ControlState::Error))
                || exists|packet: Seq<u8>| #[trigger] Self::out_packet_handled(*old(self), *final(self), packet, r),
            final(self).spec_mps() == old(self).spec_mps(),
            r matches Some(req) ==> final(self).spec_state() == ControlState::CompleteOut
                && old(self).spec_state() == ControlState::DataOut(req),
    {
        proof { use_type_invariant(&*self); }
        let room = if self.i <= self.buf.len() { self.buf.len() - self.i } else { 0 };
        let mut packet: Vec<u8> = Vec::new();
        let mut k: usize = 0;
        while k < room
            invariant
                k <= room,
                packet@.len() == k,
            decreases room - k,
        {
            packet.push(0u8);
            k = k + 1;
        }
        let read = self.ep_out.read(packet.as_mut_slice());
        let r = self.out_received(read, packet.as_slice());
        proof {
            let p = packet@;
            if let Ok(count) = read {
                if count <= p.len() {
                    assert(Self::out_packet_handled(*old(self), *self, p.take(count as int), r));
                }
            }
        }
        r
    }

    /// Handles what reading an OUT packet gave, `packet` being the space the packet was read
    /// into: see [`Self::out_read_handled`].
    pub(crate) fn out_received(&mut self, read: Result<usize>, packet: &[u8]) -> (r: Option<Request>)
        ensures
            Self::out_read_handled(*old(self), *final(self), read, packet@, r),
    {
        match read {
            Ok(count) => {
                if count > packet.len() {
                    // The bus claims more bytes than the space it was given.
                    self.set_error();
                    return None;
                }
                let received = vstd::slice::slice_subrange(packet, 0, count);
                self.process_out_packet(received)
            },
            Err(UsbError::WouldBlock) => None,
            Err(_) => {
                // Failed to read or buffer overflow (overflow is only possible if the host
                // sends more data than it indicated in the SETUP request)
                self.set_error();
                None
            },
        }
    }

    /// Whether `after` and `r` are what a read of endpoint 0 OUT that gave `read`, into
    /// `packet`, gives from `before`: no packet (`WouldBlock`) changes nothing; a failed read, or
    /// a length longer than the space given, fails the transfer; a packet of `count` bytes is
    /// handled as [`Self::out_packet_handled`] says.
    pub open spec fn out_read_handled(before: Self, after: Self, read: Result<usize>, packet: Seq<u8>, r: Option<Request>) -> bool {
        match read {
            Ok(count) => if count <= packet.len() {
                Self::out_packet_handled(before, after, packet.take(count as int), r)
            } else {
                r is None && Self::only_state(before, after, ControlState::Error)
            },
            Err(UsbError::WouldBlock) => r is None && after == before,
            Err(_) => r is None && Self::only_state(before, after, ControlState::Error),
        }
    }

    /// Sends the next packet of an IN data stage. If the bus does not take the packet nothing
    /// changes; it is sent again on the next IN completion.
    fn write_in_chunk(&mut self)
        requires
            old(self).spec_state() is DataIn,
        ensures
            Self::only_state(*old(self), *final(self), old(self).spec_state()) || Self::chunk_sent(*old(self), *final(self)),
    {
        proof { use_type_invariant(&*self); }
        let mps = self.ep_in.max_packet_size() as usize;
        let rest = self.len - self.i;
        let count = if rest <= mps { rest } else { mps };
        let written = match self.static_in_buf {
            Some(data) => self.ep_in.write(vstd::slice::slice_subrange(data, self.i, self.i + count)),
            None => self.ep_in.write(vstd::slice::slice_subrange(self.buf.as_slice(), self.i, self.i + count)),
        };
        if written.is_err() {
            // There isn't much we can do if the write fails, except to wait for another poll or for
            // the host to resend the request.
            return;
        }
        let new_i = self.i + count;
        if new_i >= self.len {
            self.state = if count == mps {
                ControlState::DataInZlp
            } else {
                ControlState::DataInLast
            };
            self.static_in_buf = None;
        }
        self.i = new_i;
    }

    /// Handles the completion of an IN packet on the control endpoint: sends the next data
    /// packet, the closing zero-length packet, or moves on to the status stage; returns true
    /// when the status stage of an OUT request completed. An IN completion in any other stage
    /// fails the transfer.
    pub(crate) fn handle_in_complete(&mut self) -> (r: bool)
        ensures
            Self::in_complete_handled(*old(self), *final(self), r),
    {
        proof { use_type_invariant(&*self); }
        match self.state {
            ControlState::DataIn => {
                self.write_in_chunk();
            },
            ControlState::DataInZlp => {
                if self.ep_in.write(&[]).is_err() {
                    // There isn't much we can do if the write fails, except to wait for another
                    // poll or for the host to resend the request.
                    return false;
                }
                self.state = ControlState::DataInLast;
            },
            ControlState::DataInLast => {
                self.ep_out.unstall();
                self.state = ControlState::StatusOut;
            },
            ControlState::StatusIn => {
                self.state = ControlState::Idle;
                return true;
            },
            _ => {
                // Unexpected IN packet
                self.set_error();
            },
        }
        false
    }

    /// Accepts an OUT request that waits for a response: sends the zero-length status packet.
    pub(crate) fn accept_out(&mut self) -> (r: Result<()>)
        ensures
            Self::accepted_out(*old(self), *final(self), r),
    {
        proof { use_type_invariant(&*self); }
        match self.state {
            ControlState::CompleteOut => {},
            _ => return Err(UsbError::InvalidState),
        };
        let _ = self.ep_in.write(&[]);
        self.state = ControlState::StatusIn;
        Ok(())
    }

    /// Starts the IN data stage of `req` with `data_len` bytes of data.
    fn start_in_transfer(&mut self, req: Request, data_len: usize)
        requires
            old(self).spec_state() is CompleteIn,
            old(self).spec_static() is None ==> data_len <= old(self).spec_buf().len(),
            old(self).spec_static() matches Some(s) ==> data_len <= s.len(),
        ensures
            Self::in_transfer_started(*old(self), *final(self), req, data_len as nat, old(self).spec_static(), old(self).spec_buf()),
    {
        proof { use_type_invariant(&*self); }
        self.len = if data_len <= req.length as usize { data_len } else { req.length as usize };
        self.i = 0;
        self.state = ControlState::DataIn;
        let ghost mid = *self;
        assert(Self::in_stage_start(mid, old(self).spec_mps(), min_nat(data_len as nat, req.length as nat),
            old(self).spec_static(), old(self).spec_buf()));
        self.write_in_chunk();
        assert(Self::only_state(mid, *self, ControlState::DataIn) || Self::chunk_sent(mid, *self));
    }

    /// Answers an IN request that waits for a response with data that `f` writes into the control
    /// buffer, returning its length. `f` gets the control buffer as it is; what `callback_answered`
    /// says then follows: an error of `f` is passed on and nothing changes, and a length longer
    /// than the buffer fails the transfer.
    pub(crate) fn accept_in<F: FnOnce(&mut [u8]) -> Result<usize>>(&mut self, f: F) -> (r: Result<()>)
        requires
            old(self).spec_state() is CompleteIn ==> forall|s: &mut [u8]| s@ == old(self).spec_buf() ==> #[trigger] f.requires((s,)),
        ensures
            !(old(self).spec_state() is CompleteIn) ==> r == Err::<(), UsbError>(UsbError::InvalidState) && *final(self) == *old(self),
            old(self).spec_state() is CompleteIn ==> exists|s: &mut [u8], fr: Result<usize>| {
                &&& #[trigger] f.ensures((s,), fr)
                &&& s@ == old(self).spec_buf()
                &&& Self::callback_answered(*old(self), *final(self), r, fr, final(s)@)
            },
    {
        proof { use_type_invariant(&*self); }
        let req = match self.state {
            ControlState::CompleteIn(req) => req,
            _ => return Err(UsbError::InvalidState),
        };
        let ghost p0 = *self;
        let mut scratch = self.buf_copy();
        let s = scratch.as_mut_slice();
        let ghost gs = s;
        let fr = f(s);
        proof {
            let w = choose|s2: &mut [u8]| #[trigger] f.ensures((s2,), fr) && s2@ == gs@ && final(s2)@ == final(gs)@;
            assert(f.ensures((w,), fr) && final(w)@ == scratch@);
        }
        let len = match fr {
            Ok(len) => len,
            Err(e) => return Err(e),
        };
        if len > self.buf.len() || len > scratch.len() {
            self.set_error();
            return Err(UsbError::BufferOverflow);
        }
        let data = vstd::slice::slice_subrange(scratch.as_slice(), 0, len);
        let r = self.accept_in_with(data);
        assert(data@ == scratch@.take(len as int));
        r
    }

    /// Whether `after` and `r` are what answering the IN request that `before` waits for with a
    /// callback gives, when the callback returned `fr` and left `space` in the control buffer it
    /// was given: its error is passed on and nothing changes; a length longer than the buffer
    /// fails the transfer with `BufferOverflow`; otherwise the data stage starts with that many
    /// bytes of `space`.
    pub open spec fn callback_answered(before: Self, after: Self, r: Result<()>, fr: Result<usize>, space: Seq<u8>) -> bool {
        match fr {
            Err(e) => r == Err::<(), UsbError>(e) && after == before,
            Ok(n) => if n <= space.len() && n <= before.spec_buf().len() {
                r is Ok && Self::in_transfer_started(before, after, before.spec_state()->CompleteIn_0,
                    n as nat, None, space.take(n as int) + before.spec_buf().skip(n as int))
            } else {
                r == Err::<(), UsbError>(UsbError::BufferOverflow) && Self::only_state(before, after, ControlState::Error)
            },
        }
    }

    /// A copy of the control buffer.
    fn buf_copy(&self) -> (r: Vec<u8>)
        ensures
            r@ == self.spec_buf(),
    {
        let mut v: Vec<u8> = Vec::new();
        let mut k: usize = 0;
        while k < self.buf.len()
            invariant
                k <= self.buf@.len(),
                v@ == self.buf@.take(k as int),
            decreases self.buf@.len() - k,
        {
            v.push(self.buf[k]);
            k = k + 1;
            assert(v@ =~= self.buf@.take(k as int));
        }
        assert(v@ =~= self.buf@);
        v
    }

    /// Answers an IN request that waits for a response with a copy of `data`. Data longer than
    /// the control buffer is refused with `BufferOverflow` and nothing changes.
    pub(crate) fn accept_in_with(&mut self, data: &[u8]) -> (r: Result<()>)
        ensures
            Self::answered(*old(self), *final(self), r, data@),
    {
        proof { use_type_invariant(&*self); }
        let req = match self.state {
            ControlState::CompleteIn(req) => req,
            _ => return Err(UsbError::InvalidState),
        };
        let n = data.len();
        if n > self.buf.len() {
            return Err(UsbError::BufferOverflow);
        }
        let ghost b0 = self.buf@;
        let mut newbuf: Vec<u8> = Vec::new();
        let total = self.buf.len();
        let mut k: usize = 0;
        while k < total
            invariant
                k <= total,
                total == b0.len(),
                n <= total,
                n == data@.len(),
                newbuf@.len() == k,
                forall|t: int| 0 <= t < k && t < n ==> newbuf@[t] == data@[t],
                forall|t: int| 0 <= t < k && n <= t ==> newbuf@[t] == b0[t],
                self.buf@ == b0,
            decreases total - k,
        {
            let v = if k < n { data[k] } else { self.buf[k] };
            newbuf.push(v);
            k = k + 1;
        }
        assert(newbuf@ =~= data@ + b0.skip(n as int));
        self.buf = newbuf;
        self.static_in_buf = None;
        let ghost inter = *self;
        assert(inter.spec_mps() == old(self).spec_mps());
        assert(inter.spec_buf() == data@ + old(self).spec_buf().skip(data@.len() as int));
        self.start_in_transfer(req, n);
        assert(Self::in_transfer_started(inter, *self, req, n as nat, None, inter.spec_buf()));
        Ok(())
    }

    /// Answers an IN request that waits for a response with static data, which is sent without
    /// copying it into the control buffer.
    pub(crate) fn accept_in_static(&mut self, data: &'static [u8]) -> (r: Result<()>)
        ensures
            !(old(self).spec_state() is CompleteIn) ==> r == Err::<(), UsbError>(UsbError::InvalidState) && *final(self) == *old(self),
            old(self).spec_state() is CompleteIn ==> r is Ok
                && Self::in_transfer_started(*old(self), *final(self), old(self).spec_state()->CompleteIn_0,
                    data@.len(), Some(data@), old(self).spec_buf()),
    {
        proof { use_type_invariant(&*self); }
        let req = match self.state {
            ControlState::CompleteIn(req) => req,
            _ => return Err(UsbError::InvalidState),
        };
        self.static_in_buf = Some(data);
        let ghost inter = *self;
        assert(inter.spec_mps() == old(self).spec_mps());
        assert(inter.spec_buf() == old(self).spec_buf());
        assert(inter.spec_static() == Some(data@));
        self.start_in_transfer(req, data.len());
        Ok(())
    }

    /// Rejects a request that waits for a response: fails the transfer, stalling both control
    /// endpoints.
    pub(crate) fn reject(&mut self) -> (r: Result<()>)
        ensures
            Self::rejected(*old(self), *final(self), r),
    {
        if !self.waiting_for_response() {
            return Err(UsbError::InvalidState);
        }
        self.set_error();
        Ok(())
    }
}

/// The packets laid end to end.
pub open spec fn concat(packets: Seq<Seq<u8>>) -> Seq<u8>
    decreases packets.len(),
{
    if packets.len() == 0 {
        Seq::empty()
    } else {
        concat(packets.drop_last()) + packets.last()
    }
}

/// The number of data packets of an IN data stage of `len` bytes with packets of up to `mps`
/// bytes: one (empty) packet for no data, otherwise as many full packets as fit and one more for
/// the rest.
pub open spec fn packet_count(len: nat, mps: nat) -> nat
    recommends
        mps > 0,
{
    if len == 0 {
        1
    } else {
        ((len - 1) as nat / mps + 1) as nat
    }
}

impl<'a, B: UsbBus> ControlPipe<'a, B> {
    /// Feeding the OUT data packets of a request to the control pipe, from the start of its data
    /// stage until the request is complete, leaves the data that the host sent at the start of the
    /// control buffer, and the request is returned with the last packet.
    pub proof fn lemma_out_data_collected(run: Seq<Self>, packets: Seq<Seq<u8>>, results: Seq<Option<Request>>, req: Request)
        requires
            packets.len() >= 1,
            run.len() == packets.len() + 1,
            results.len() == packets.len(),
            run[0].spec_state() == ControlState::DataOut(req),
            run[0].spec_i() == 0,
            forall|k: int| 0 <= k < packets.len() ==> #[trigger] Self::out_packet_handled(run[k], run[k + 1], packets[k], results[k]),
            forall|k: int| 0 < k < packets.len() ==> #[trigger] run[k].spec_state() == ControlState::DataOut(req),
            run.last().spec_state() == ControlState::CompleteOut,
        ensures
            results.last() == Some(req),
            run.last().spec_i() == concat(packets).len(),
            run.last().spec_len() <= concat(packets).len(),
            run.last().spec_buf().take(run.last().spec_len() as int) == concat(packets).take(run.last().spec_len() as int),
    {
        let n = packets.len() as int;
        Self::lemma_out_prefix(run, packets, results, req, n - 1);
        let before = run[n - 1];
        let after = run[n];
        assert(Self::out_packet_handled(run[n - 1], run[n - 1 + 1], packets[n - 1], results[n - 1]));
        assert(packets.take(n - 1) =~= packets.take(n).drop_last());
        assert(packets.take(n) =~= packets);
        let i = before.spec_i();
        assert(after.spec_buf().take((i + packets[n - 1].len()) as int) =~= before.spec_buf().take(i as int) + packets[n - 1]);
        assert(after.spec_buf().take(after.spec_len() as int) =~= after.spec_buf().take(after.spec_i() as int).take(after.spec_len() as int));
    }

    /// After the first `k` packets of an OUT data stage (all of which kept it going), the
    /// control buffer starts with those packets and the length of what arrived is their total.
    proof fn lemma_out_prefix(run: Seq<Self>, packets: Seq<Seq<u8>>, results: Seq<Option<Request>>, req: Request, k: int)
        requires
            0 <= k < packets.len(),
            run.len() == packets.len() + 1,
            results.len() == packets.len(),
            run[0].spec_state() == ControlState::DataOut(req),
            run[0].spec_i() == 0,
            forall|j: int| 0 <= j < packets.len() ==> #[trigger] Self::out_packet_handled(run[j], run[j + 1], packets[j], results[j]),
            forall|j: int| 0 < j < packets.len() ==> #[trigger] run[j].spec_state() == ControlState::DataOut(req),
        ensures
            run[k].spec_state() == ControlState::DataOut(req),
            run[k].spec_i() == concat(packets.take(k)).len(),
            run[k].spec_i() <= run[k].spec_buf().len(),
            run[k].spec_buf().take(run[k].spec_i() as int) == concat(packets.take(k)),
            run[k].spec_len() == run[0].spec_len(),
            k > 0 ==> run[k].spec_i() < run[k].spec_len(),
        decreases k,
    {
        if k == 0 {
            assert(packets.take(0) =~= Seq::<Seq<u8>>::empty());
            assert(run[0].spec_buf().take(0) =~= Seq::<u8>::empty());
        } else {
            Self::lemma_out_prefix(run, packets, results, req, k - 1);
            let before = run[k - 1];
            let after = run[k];
            assert(Self::out_packet_handled(run[k - 1], run[k - 1 + 1], packets[k - 1], results[k - 1]));
            assert(run[k].spec_state() == ControlState::DataOut(req));
            assert(packets.take(k).drop_last() =~= packets.take(k - 1));
            let i = before.spec_i();
            assert(after.spec_buf().take((i + packets[k - 1].len()) as int) =~= before.spec_buf().take(i as int) + packets[k - 1]);
        }
    }

    /// An IN data stage that the bus keeps taking packets of, from its start until it is over,
    /// sends every byte of its data: as many packets as [`packet_count`] says, all full but the
    /// last, and it owes the host a closing zero-length packet exactly when there was data and
    /// the last data packet was full.
    pub proof fn lemma_in_data_sent(run: Seq<Self>)
        requires
            run.len() >= 2,
            run[0].spec_mps() > 0,
            run[0].spec_i() == 0,
            forall|k: int| 0 <= k < run.len() - 1 ==> #[trigger] Self::chunk_sent(run[k], run[k + 1]),
            forall|k: int| 0 <= k < run.len() - 1 ==> #[trigger] run[k].spec_state() == ControlState::DataIn,
            run.last().spec_state() != ControlState::DataIn,
        ensures
            run.last().spec_i() == run[0].spec_len(),
            run.len() - 1 == packet_count(run[0].spec_len(), run[0].spec_mps()),
            (run.last().spec_state() == ControlState::DataInZlp) == (run[0].spec_len() > 0
                && run[0].spec_len() % run[0].spec_mps() == 0),
            run.last().spec_state() == ControlState::DataInZlp || run.last().spec_state() == ControlState::DataInLast,
    {
        let n = run.len() - 1;
        let len = run[0].spec_len();
        let mps = run[0].spec_mps();
        Self::lemma_in_prefix(run, n - 1);
        let before = run[n - 1];
        assert(Self::chunk_sent(run[n - 1], run[n - 1 + 1]));
        assert(before.spec_state() == ControlState::DataIn);
        let count = before.next_chunk_len();
        let q = (n - 1) as nat;
        assert(before.spec_i() == q * mps);
        assert(run[n].spec_i() == before.spec_i() + count);
        // The stage ended: the last chunk was the rest of the data.
        assert(run[n].spec_i() >= len);
        assert(count == len - q * mps);
        if len == 0 {
            assert(q * mps == 0);
            assert(q == 0) by (nonlinear_arith)
                requires q * mps == 0, mps > 0;
        } else {
            assert(count > 0 || q == 0);
            if q > 0 {
                assert(count > 0);
            }
            assert(0 < count <= mps);
            vstd::arithmetic::div_mod::lemma_fundamental_div_mod_converse((len - 1) as int, mps as int, q as int, (count - 1) as int);
            if count == mps {
                assert(len == (q + 1) * mps) by (nonlinear_arith)
                    requires len == q * mps + count, count == mps;
                vstd::arithmetic::div_mod::lemma_fundamental_div_mod_converse(len as int, mps as int, (q + 1) as int, 0);
            } else {
                vstd::arithmetic::div_mod::lemma_fundamental_div_mod_converse(len as int, mps as int, q as int, count as int);
            }
        }
    }

    /// In an IN data stage that the bus keeps taking packets of, after `k` packets that all kept
    /// the stage going, `k` full packets have been sent.
    proof fn lemma_in_prefix(run: Seq<Self>, k: int)
        requires
            run.len() >= 2,
            0 <= k < run.len() - 1,
            run[0].spec_mps() > 0,
            run[0].spec_i() == 0,
            forall|j: int| 0 <= j < run.len() - 1 ==> #[trigger] Self::chunk_sent(run[j], run[j + 1]),
            forall|j: int| 0 <= j < run.len() - 1 ==> #[trigger] run[j].spec_state() == ControlState::DataIn,
        ensures
            run[k].spec_i() == k * run[0].spec_mps(),
            run[k].spec_mps() == run[0].spec_mps(),
            run[k].spec_len() == run[0].spec_len(),
            k > 0 ==> run[k].spec_i() < run[k].spec_len(),
        decreases k,
    {
        if k > 0 {
            Self::lemma_in_prefix(run, k - 1);
            let before = run[k - 1];
            assert(Self::chunk_sent(run[k - 1], run[k - 1 + 1]));
            assert(run[k].spec_state() == ControlState::DataIn);
            assert(before.spec_state() == ControlState::DataIn);
            let mps = run[0].spec_mps();
            // The stage went on, so the packet was a full one.
            assert(before.next_chunk_len() == mps);
            assert(k * mps == (k - 1) * mps + mps) by (nonlinear_arith);
        }
    }
}

} // verus!
