use vstd::prelude::*;
use vstd::string::*;
use crate::bus::{InterfaceNumber, StringIndex, UsbBus};
use crate::device::{self, string_table, string_table_as_slice, usb_rev_bcd, Config};
use crate::endpoint::{bm_attributes, Endpoint, EndpointDirection};
use crate::{Result, UsbError};

/// Standard descriptor types
pub mod descriptor_type;

/// String descriptor language IDs.
pub mod lang_id;

/// Standard capability descriptor types
pub mod capability_type;

verus! {

/// `bytes` with the descriptor of type `dtype` and body `body` written at `pos`: a length byte
/// (the body length plus 2), the type byte, then the body.
pub open spec fn put_descriptor(bytes: Seq<u8>, pos: int, dtype: u8, body: Seq<u8>) -> Seq<u8> {
    bytes.take(pos) + seq![((body.len() + 2) % 256) as u8, dtype] + body + bytes.skip(pos + 2 + body.len())
}

/// The bytes of a descriptor of type `dtype` with body `body`: a length byte (the body length
/// plus 2), the type byte, then the body.
pub open spec fn descriptor_bytes(dtype: u8, body: Seq<u8>) -> Seq<u8> {
    seq![((body.len() + 2) % 256) as u8, dtype] + body
}

/// A descriptor written at the start of a buffer that holds it is the first bytes of the buffer.
pub proof fn lemma_put_descriptor_at_start(bytes: Seq<u8>, dtype: u8, body: Seq<u8>)
    requires
        2 + body.len() <= bytes.len(),
    ensures
        put_descriptor(bytes, 0, dtype, body).take(2 + body.len() as int) == descriptor_bytes(dtype, body),
        put_descriptor(bytes, 0, dtype, body).len() == bytes.len(),
{
    assert(put_descriptor(bytes, 0, dtype, body).take(2 + body.len() as int) =~= descriptor_bytes(dtype, body));
}

/// The bytes of the descriptors of types `types` and bodies `bodies`, one after the other.
pub open spec fn descriptors_bytes(types: Seq<u8>, bodies: Seq<Seq<u8>>) -> Seq<u8>
    decreases bodies.len(),
{
    if bodies.len() == 0 || types.len() == 0 {
        Seq::empty()
    } else {
        descriptors_bytes(types.drop_last(), bodies.drop_last()) + descriptor_bytes(types.last(), bodies.last())
    }
}

/// The total size of descriptors with bodies `bodies`: each body and its two header bytes.
pub open spec fn descriptors_size(bodies: Seq<Seq<u8>>) -> nat
    decreases bodies.len(),
{
    if bodies.len() == 0 {
        0
    } else {
        descriptors_size(bodies.drop_last()) + 2 + bodies.last().len()
    }
}

/// A run of descriptor writes that each succeeded, from writer `ws[k]` to writer `ws[k + 1]`
/// with the descriptor of type `types[k]` and body `bodies[k]` (as [`DescriptorWriter::wrote`]
/// says), leaves the position moved on by the sum of the
/// descriptors' sizes, the descriptors one after the other from the first position, and the
/// bytes before it as they were.
pub proof fn lemma_descriptor_run(ws: Seq<DescriptorWriter>, types: Seq<u8>, bodies: Seq<Seq<u8>>)
    requires
        ws.len() == bodies.len() + 1,
        types.len() == bodies.len(),
        ws[0].pos() <= ws[0].bytes().len(),
        forall|k: int| 0 <= k < bodies.len() ==> #[trigger] DescriptorWriter::wrote(ws[k], ws[k + 1], types[k], bodies[k]),
    ensures
        ws.last().pos() == ws[0].pos() + descriptors_size(bodies),
        ws.last().pos() <= ws.last().bytes().len(),
        ws.last().bytes().len() == ws[0].bytes().len(),
        ws.last().bytes().subrange(ws[0].pos() as int, ws.last().pos() as int) == descriptors_bytes(types, bodies),
        ws.last().bytes().take(ws[0].pos() as int) == ws[0].bytes().take(ws[0].pos() as int),
    decreases bodies.len(),
{
    let n = bodies.len() as int;
    if n == 0 {
        assert(ws.last() == ws[0]);
        assert(ws[0].bytes().subrange(ws[0].pos() as int, ws[0].pos() as int) =~= Seq::<u8>::empty());
    } else {
        let ws1 = ws.drop_last();
        let t1 = types.drop_last();
        let b1 = bodies.drop_last();
        assert forall|k: int| 0 <= k < b1.len() implies #[trigger] DescriptorWriter::wrote(ws1[k], ws1[k + 1], t1[k], b1[k]) by {
            assert(ws1[k] == ws[k] && ws1[k + 1] == ws[k + 1] && t1[k] == types[k] && b1[k] == bodies[k]);
            assert(DescriptorWriter::wrote(ws[k], ws[k + 1], types[k], bodies[k]));
        }
        assert(ws1[0] == ws[0]);
        lemma_descriptor_run(ws1, t1, b1);
        let prev = ws[n - 1];
        let last = ws[n];
        assert(DescriptorWriter::wrote(ws[n - 1], ws[n], types[n - 1], bodies[n - 1]));
        assert(ws1.last() == prev);
        assert(last.bytes() == put_descriptor(prev.bytes(), prev.pos() as int, types[n - 1], bodies[n - 1]));
        let p0 = ws[0].pos() as int;
        let pp = prev.pos() as int;
        let body = bodies[n - 1];
        assert(last.bytes().len() == prev.bytes().len());
        assert(last.bytes().subrange(p0, pp) =~= prev.bytes().subrange(p0, pp));
        assert(last.bytes().subrange(pp, last.pos() as int) =~= descriptor_bytes(types[n - 1], body));
        assert(last.bytes().subrange(p0, last.pos() as int) =~= last.bytes().subrange(p0, pp)
            + last.bytes().subrange(pp, last.pos() as int));
        assert(last.bytes().take(p0) =~= prev.bytes().take(p0));
        assert(types.last() == types[n - 1]);
        assert(bodies.last() == body);
    }
}

/// The space that a descriptor callback gets when the descriptor starts at `pos`: the bytes of
/// the buffer after the two header bytes, at most 254 of them.
pub open spec fn descriptor_window(bytes: Seq<u8>, pos: int) -> Seq<u8> {
    let rest = bytes.len() - pos - 2;
    bytes.subrange(pos + 2, pos + 2 + (if rest < 254 { rest } else { 254 }))
}

/// Whether a descriptor body of `body_len` bytes fits at `pos` in a buffer of `len` bytes: the
/// header and body fit in the buffer and the whole descriptor is at most 255 bytes long, as its
/// one-byte length field requires.
pub open spec fn descriptor_fits(len: int, pos: int, body_len: int) -> bool {
    pos + 2 + body_len <= len && body_len <= 253
}

/// `bytes` with the byte at `mark` increased by one (modulo 256), if `mark` is inside `bytes`.
pub open spec fn bump_at(bytes: Seq<u8>, mark: int) -> Seq<u8> {
    if 0 <= mark < bytes.len() {
        bytes.update(mark, ((bytes[mark] + 1) % 256) as u8)
    } else {
        bytes
    }
}

/// `bytes` with `value` written little-endian into bytes 2 and 3, if the buffer has them.
pub open spec fn put_total_length(bytes: Seq<u8>, value: u16) -> Seq<u8> {
    if bytes.len() >= 4 {
        bytes.update(2, (value % 256) as u8).update(3, (value / 256) as u8)
    } else {
        bytes
    }
}

/// The UTF-16 code units of one character.
pub open spec fn utf16_units(c: char) -> Seq<u16> {
    let v = c as u32 as int;
    if v < 0x10000 {
        seq![v as u16]
    } else {
        seq![(0xD800 + (v - 0x10000) / 0x400) as u16, (0xDC00 + (v - 0x10000) % 0x400) as u16]
    }
}

/// The UTF-16 code units of a string.
pub open spec fn utf16_encode(s: Seq<char>) -> Seq<u16>
    decreases s.len(),
{
    if s.len() == 0 {
        Seq::empty()
    } else {
        utf16_encode(s.drop_last()) + utf16_units(s.last())
    }
}

/// Code units as little-endian bytes.
pub open spec fn units_le_bytes(u: Seq<u16>) -> Seq<u8>
    decreases u.len(),
{
    if u.len() == 0 {
        Seq::empty()
    } else {
        units_le_bytes(u.drop_last()) + seq![(u.last() % 256) as u8, (u.last() / 256) as u8]
    }
}

/// The body of a string descriptor: the string in UTF-16, little-endian.
pub open spec fn string_body(s: Seq<char>) -> Seq<u8> {
    units_le_bytes(utf16_encode(s))
}

/// The string index that a device descriptor gives a string that the first language may have.
pub open spec fn first_lang_string_index(c: Config, which: int) -> u8 {
    let langs = string_table(c.string_descriptors);
    if langs.len() == 0 {
        0u8
    } else if which == 1 {
        if langs[0].spec_manufacturer() is Some { 1u8 } else { 0u8 }
    } else if which == 2 {
        if langs[0].spec_product() is Some { 2u8 } else { 0u8 }
    } else {
        if langs[0].spec_serial() is Some { 3u8 } else { 0u8 }
    }
}

/// The body of the device descriptor of a device.
pub open spec fn device_descriptor_body(c: Config) -> Seq<u8> {
    seq![
        (usb_rev_bcd(c.usb_rev) % 256) as u8,
        (usb_rev_bcd(c.usb_rev) / 256) as u8,
        c.device_class,
        c.device_sub_class,
        c.device_protocol,
        c.max_packet_size_0,
        (c.vendor_id % 256) as u8,
        (c.vendor_id / 256) as u8,
        (c.product_id % 256) as u8,
        (c.product_id / 256) as u8,
        (c.device_release % 256) as u8,
        (c.device_release / 256) as u8,
        first_lang_string_index(c, 1),
        first_lang_string_index(c, 2),
        first_lang_string_index(c, 3),
        1u8,
    ]
}

/// The bmAttributes byte of the configuration descriptor of a device.
pub open spec fn configuration_attributes(c: Config) -> u8 {
    (0x80 + (if c.self_powered { 0x40int } else { 0int }) + (if c.supports_remote_wakeup { 0x20int } else { 0int })) as u8
}

/// The body of the configuration descriptor of a device, before its total length and number of
/// interfaces are filled in.
pub open spec fn configuration_descriptor_body(c: Config) -> Seq<u8> {
    seq![0u8, 0u8, 0u8, device::CONFIGURATION_VALUE, 0u8, configuration_attributes(c), c.max_power]
}

/// The body of an interface descriptor.
pub open spec fn interface_descriptor_body(number: u8, alt: u8, class: u8, sub: u8, proto: u8, string: u8) -> Seq<u8> {
    seq![number, alt, 0u8, class, sub, proto, string]
}

/// The first five bytes of the body of an endpoint descriptor.
pub open spec fn endpoint_descriptor_head(address: u8, attributes: u8, max_packet_size: u16, interval: u8) -> Seq<u8> {
    seq![address, attributes, (max_packet_size % 256) as u8, (max_packet_size / 256) as u8, interval]
}

/// The string index byte for an optional string.
pub open spec fn string_index_byte(s: Option<StringIndex>) -> u8 {
    match s {
        Some(i) => i@,
        None => 0u8,
    }
}

/// A writer for USB descriptors.
pub struct DescriptorWriter {
    buf: Vec<u8>,
    position: usize,
    num_interfaces_mark: Option<usize>,
    num_endpoints_mark: Option<usize>,
    write_iads: bool,
}

impl DescriptorWriter {
    #[verifier::type_invariant]
    pub(crate) closed spec fn wf(self) -> bool {
        &&& self.position <= self.buf@.len()
        &&& self.buf@.len() + 1024 <= usize::MAX
    }

    /// The whole buffer that the writer writes into.
    pub closed spec fn bytes(&self) -> Seq<u8> {
        self.buf@
    }

    /// The number of bytes written so far.
    pub closed spec fn pos(&self) -> nat {
        self.position as nat
    }

    /// Where the interface count of the configuration descriptor being written is.
    pub closed spec fn interfaces_mark(&self) -> Option<usize> {
        self.num_interfaces_mark
    }

    /// Where the endpoint count of the interface descriptor being written is.
    pub closed spec fn endpoints_mark(&self) -> Option<usize> {
        self.num_endpoints_mark
    }

    /// Whether interface association descriptors are written.
    pub closed spec fn writes_iads(&self) -> bool {
        self.write_iads
    }

    /// Whether `after` is `before` with more written after it: the buffer keeps its length, the
    /// position does not go back, the interface count stays where it is, the endpoint count is
    /// the same one, none, or one written after `before`'s position, and every byte written
    /// before `before`'s position stays as it was, but for the two counts.
    pub open spec fn extends(before: Self, after: Self) -> bool {
        &&& after.bytes().len() == before.bytes().len()
        &&& before.pos() <= after.pos()
        &&& after.interfaces_mark() == before.interfaces_mark()
        &&& after.writes_iads() == before.writes_iads()
        &&& (after.endpoints_mark() == before.endpoints_mark() || after.endpoints_mark() is None
            || (after.endpoints_mark() matches Some(m) && m >= before.pos()))
        &&& forall|j: int| 0 <= j < before.pos() && Some(j as usize) != before.interfaces_mark()
            && Some(j as usize) != before.endpoints_mark() ==> #[trigger] after.bytes()[j] == before.bytes()[j]
    }

    /// Whether `after` is `before` that wrote the descriptor of type `dtype` and body `body`, as a
    /// write that succeeds does ([`Self::write`]).
    pub open spec fn wrote(before: Self, after: Self, dtype: u8, body: Seq<u8>) -> bool {
        &&& descriptor_fits(before.bytes().len() as int, before.pos() as int, body.len() as int)
        &&& after.bytes() == put_descriptor(before.bytes(), before.pos() as int, dtype, body)
        &&& after.pos() == before.pos() + 2 + body.len()
    }

    /// Writing more after more was written is writing more.
    pub proof fn lemma_extends_trans(a: Self, b: Self, c: Self)
        requires
            Self::extends(a, b),
            Self::extends(b, c),
        ensures
            Self::extends(a, c),
    {
        assert forall|j: int| 0 <= j < a.pos() && Some(j as usize) != a.interfaces_mark()
            && Some(j as usize) != a.endpoints_mark() implies #[trigger] c.bytes()[j] == a.bytes()[j] by {
            assert(b.bytes()[j] == a.bytes()[j]);
            assert(Some(j as usize) != b.endpoints_mark());
        }
    }

    pub(crate) fn new(buf: Vec<u8>) -> (r: DescriptorWriter)
        requires
            buf@.len() + 1024 <= usize::MAX,
        ensures
            r.bytes() == buf@,
            r.pos() == 0,
            r.interfaces_mark() is None,
            r.endpoints_mark() is None,
            !r.writes_iads(),
    {
        DescriptorWriter {
            buf,
            position: 0,
            num_interfaces_mark: None,
            num_endpoints_mark: None,
            write_iads: false,
        }
    }

    /// The whole buffer, once writing is done.
    pub(crate) fn into_bytes(self) -> (r: Vec<u8>)
        ensures
            r@ == self.bytes(),
    {
        self.buf
    }

    /// Gets the current position in the buffer, i.e. the number of bytes written so far.
    pub fn position(&self) -> (r: usize)
        ensures
            r == self.pos(),
            r <= self.bytes().len(),
            self.bytes().len() + 1024 <= usize::MAX,
    {
        proof { use_type_invariant(self); }
        self.position
    }

    /// Copies `data` into the buffer at `at`.
    fn put_bytes(&mut self, at: usize, data: &[u8], data_len: usize)
        requires
            data_len == data@.len(),
            at + data@.len() <= old(self).bytes().len(),
        ensures
            final(self).bytes() == old(self).bytes().take(at as int) + data@ + old(self).bytes().skip(at + data@.len()),
            final(self).pos() == old(self).pos(),
            final(self).interfaces_mark() == old(self).interfaces_mark(),
            final(self).endpoints_mark() == old(self).endpoints_mark(),
            final(self).writes_iads() == old(self).writes_iads(),
        no_unwind
    {
        proof { use_type_invariant(&*self); }
        let ghost b0 = self.buf@;
        let mut j: usize = 0;
        while j < data_len
            invariant
                j <= data@.len(),
                data_len == data@.len(),
                at + data@.len() <= b0.len(),
                self.buf@.len() == b0.len(),
                self.position <= b0.len(),
                self.buf@.len() + 1024 <= usize::MAX,
                forall|t: int| 0 <= t < at ==> self.buf@[t] == b0[t],
                forall|t: int| at + data@.len() <= t < b0.len() ==> self.buf@[t] == b0[t],
                forall|t: int| 0 <= t < j ==> self.buf@[at + t] == data@[t],
                self.position == old(self).position,
                self.num_interfaces_mark == old(self).num_interfaces_mark,
                self.num_endpoints_mark == old(self).num_endpoints_mark,
                self.write_iads == old(self).write_iads,
            decreases data@.len() - j,
        {
            self.buf[at + j] = data[j];
            j = j + 1;
        }
        assert(self.buf@ =~= b0.take(at as int) + data@ + b0.skip(at + data@.len()));
    }

    /// Writes a header and a body at the current position, which the caller has checked to fit.
    fn put_descriptor_unchecked(&mut self, descriptor_type: u8, descriptor: &[u8], descriptor_len: usize)
        requires
            descriptor_len == descriptor@.len(),
            old(self).pos() + 2 + descriptor@.len() <= old(self).bytes().len(),
        ensures
            final(self).bytes() == put_descriptor(old(self).bytes(), old(self).pos() as int, descriptor_type, descriptor@),
            final(self).pos() == old(self).pos() + 2 + descriptor@.len(),
            final(self).interfaces_mark() == old(self).interfaces_mark(),
            final(self).endpoints_mark() == old(self).endpoints_mark(),
            final(self).writes_iads() == old(self).writes_iads(),
        no_unwind
    {
        proof { use_type_invariant(&*self); }
        let ghost b0 = self.buf@;
        let p = self.position;
        let total: usize = descriptor_len + 2;
        self.buf[p] = (total % 256) as u8;
        self.buf[p + 1] = descriptor_type;
        self.put_bytes(p + 2, descriptor, descriptor_len);
        self.position = p + total;
        assert(self.buf@ =~= put_descriptor(b0, p as int, descriptor_type, descriptor@));
    }

    /// Adds one to the count byte at `mark`, if the buffer holds it.
    fn bump(&mut self, mark: usize)
        ensures
            final(self).bytes() == bump_at(old(self).bytes(), mark as int),
            final(self).pos() == old(self).pos(),
            final(self).interfaces_mark() == old(self).interfaces_mark(),
            final(self).endpoints_mark() == old(self).endpoints_mark(),
            final(self).writes_iads() == old(self).writes_iads(),
        no_unwind
    {
        proof { use_type_invariant(&*self); }
        if mark < self.buf.len() {
            let v = self.buf[mark];
            self.buf[mark] = if v == 255 { 0 } else { v + 1 };
        }
    }

    /// Writes an arbitrary (usually class-specific) descriptor.
    ///
    /// Fails with `BufferOverflow` when the header and the descriptor do not fit in the rest of the
    /// buffer, or the descriptor is longer than 253 bytes; nothing is written then.
    pub fn write(&mut self, descriptor_type: u8, descriptor: &[u8]) -> (r: Result<()>)
        ensures
            Self::extends(*old(self), *final(self)),
            r is Ok <==> descriptor_fits(old(self).bytes().len() as int, old(self).pos() as int, descriptor@.len() as int),
            r is Ok ==> Self::wrote(*old(self), *final(self), descriptor_type, descriptor@),
            r is Ok ==> final(self).bytes() == put_descriptor(old(self).bytes(), old(self).pos() as int, descriptor_type, descriptor@),
            r is Ok ==> final(self).pos() == old(self).pos() + 2 + descriptor@.len(),
            r is Err ==> r == Err::<(), UsbError>(UsbError::BufferOverflow),
            r is Err ==> final(self).bytes() == old(self).bytes() && final(self).pos() == old(self).pos(),
            final(self).interfaces_mark() == old(self).interfaces_mark(),
            final(self).endpoints_mark() == old(self).endpoints_mark(),
            final(self).writes_iads() == old(self).writes_iads(),
    {
        proof { use_type_invariant(&*self); }
        if self.position + 2 > self.buf.len() {
            return Err(UsbError::BufferOverflow);
        }
        let room = self.buf.len() - self.position - 2;
        if descriptor.len() > room || descriptor.len() > 253 {
            return Err(UsbError::BufferOverflow);
        }
        self.put_descriptor_unchecked(descriptor_type, descriptor, descriptor.len());
        Ok(())
    }

    /// A copy of the `count` bytes of the buffer from `start`.
    fn copy_out(&self, start: usize, count: usize) -> (r: Vec<u8>)
        requires
            start + count <= self.bytes().len(),
        ensures
            r@ == self.bytes().subrange(start as int, start + count),
    {
        proof { use_type_invariant(self); }
        let mut v: Vec<u8> = Vec::new();
        let mut k: usize = 0;
        while k < count
            invariant
                k <= count,
                start + count <= self.buf@.len(),
                self.buf@.len() + 1024 <= usize::MAX,
                v@ == self.buf@.subrange(start as int, start + k),
            decreases count - k,
        {
            v.push(self.buf[start + k]);
            k = k + 1;
            assert(v@ =~= self.buf@.subrange(start as int, start + k));
        }
        v
    }

    /// Writes an arbitrary (usually class-specific) descriptor by using a callback function.
    ///
    /// The callback function gets the space available for the descriptor (the rest of the buffer
    /// after the two header bytes, at most 254 bytes, as [`descriptor_window`] says), and it should
    /// write the descriptor into it and return the number of bytes written. If the descriptor
    /// doesn't fit, the function should return `Err(UsbError::BufferOverflow)`. That and any error
    /// returned by it will be propagated up. A count larger than the space given, or than 253
    /// (the longest body that the one-byte length field allows), is refused with
    /// `BufferOverflow`. The buffer changes only when the descriptor is written.
    pub fn write_with<F: FnOnce(&mut [u8]) -> Result<usize>>(&mut self, descriptor_type: u8, f: F) -> (r: Result<()>)
        requires
            old(self).pos() + 2 <= old(self).bytes().len() ==> forall|s: &mut [u8]|
                s@ == descriptor_window(old(self).bytes(), old(self).pos() as int) ==> #[trigger] f.requires((s,)),
        ensures
            Self::extends(*old(self), *final(self)),
            old(self).pos() + 2 > old(self).bytes().len() ==> r == Err::<(), UsbError>(UsbError::BufferOverflow)
                && *final(self) == *old(self),
            old(self).pos() + 2 <= old(self).bytes().len() ==> exists|s: &mut [u8], fr: Result<usize>| {
                &&& #[trigger] f.ensures((s,), fr)
                &&& s@ == descriptor_window(old(self).bytes(), old(self).pos() as int)
                &&& Self::callback_written(*old(self), *final(self), r, descriptor_type, fr, final(s)@)
            },
    {
        proof { use_type_invariant(&*self); }
        if self.position + 2 > self.buf.len() {
            return Err(UsbError::BufferOverflow);
        }
        let rest = self.buf.len() - self.position - 2;
        let room = if rest < 254 { rest } else { 254 };
        let mut scratch = self.copy_out(self.position + 2, room);
        let ghost w0 = *self;
        let s = scratch.as_mut_slice();
        let ghost gs = s;
        let fr = f(s);
        proof {
            let w = choose|s2: &mut [u8]| #[trigger] f.ensures((s2,), fr) && s2@ == gs@ && final(s2)@ == final(gs)@;
            assert(f.ensures((w,), fr) && final(w)@ == scratch@);
        }
        let n = match fr {
            Ok(n) => n,
            Err(e) => {
                assert(Self::callback_written(w0, *self, Err(e), descriptor_type, fr, scratch@));
                return Err(e);
            },
        };
        if n > room || n > scratch.len() || n > 253 {
            assert(Self::callback_written(w0, *self, Err(UsbError::BufferOverflow), descriptor_type, fr, scratch@));
            return Err(UsbError::BufferOverflow);
        }
        let body = vstd::slice::slice_subrange(scratch.as_slice(), 0, n);
        self.put_descriptor_unchecked(descriptor_type, body, n);
        assert(Self::callback_written(w0, *self, Ok(()), descriptor_type, fr, scratch@));
        Ok(())
    }

    /// Whether `after` and `r` are what writing a descriptor of type `dtype` with a callback gives
    /// from `before`, when the callback returned `fr` and left `space` in the space it was given:
    /// its error is passed on and nothing changes; a count that does not fit the space (the
    /// [`descriptor_window`]) or the length byte is refused with `BufferOverflow` and nothing changes; otherwise the first
    /// bytes of `space`, as many as the count, are written as the descriptor's body.
    pub open spec fn callback_written(before: Self, after: Self, r: Result<()>, dtype: u8, fr: Result<usize>, space: Seq<u8>) -> bool {
        match fr {
            Err(e) => r == Err::<(), UsbError>(e) && after == before,
            Ok(n) => if n <= space.len() && n <= descriptor_window(before.bytes(), before.pos() as int).len() && n <= 253 {
                &&& r is Ok
                &&& after.bytes() == put_descriptor(before.bytes(), before.pos() as int, dtype, space.take(n as int))
                &&& after.pos() == before.pos() + 2 + n
                &&& after.interfaces_mark() == before.interfaces_mark()
                &&& after.endpoints_mark() == before.endpoints_mark()
                &&& after.writes_iads() == before.writes_iads()
            } else {
                r == Err::<(), UsbError>(UsbError::BufferOverflow) && after == before
            },
        }
    }

    pub(crate) fn device(&mut self, config: &Config) -> (r: Result<()>)
        ensures
            r is Ok <==> descriptor_fits(old(self).bytes().len() as int, old(self).pos() as int, 16),
            r is Ok ==> final(self).bytes() == put_descriptor(old(self).bytes(), old(self).pos() as int, descriptor_type::DEVICE, device_descriptor_body(*config)),
            r is Ok ==> final(self).pos() == old(self).pos() + 18,
            r is Err ==> r == Err::<(), UsbError>(UsbError::BufferOverflow),
            r is Err ==> final(self).bytes() == old(self).bytes() && final(self).pos() == old(self).pos(),
            final(self).interfaces_mark() == old(self).interfaces_mark(),
            final(self).endpoints_mark() == old(self).endpoints_mark(),
            final(self).writes_iads() == old(self).writes_iads(),
    {
        let bcd = config.usb_rev.bcd();
        let langs = string_table_as_slice(&config.string_descriptors);
        let (manufacturer, product, serial): (u8, u8, u8) = if langs.len() > 0 {
            let first = &langs[0];
            (
                if first.manufacturer_string().is_some() { 1 } else { 0 },
                if first.product_string().is_some() { 2 } else { 0 },
                if first.serial_string().is_some() { 3 } else { 0 },
            )
        } else {
            (0, 0, 0)
        };
        let body: [u8; 16] = [
            (bcd % 256) as u8,
            (bcd / 256) as u8,
            config.device_class,
            config.device_sub_class,
            config.device_protocol,
            config.max_packet_size_0,
            (config.vendor_id % 256) as u8,
            (config.vendor_id / 256) as u8,
            (config.product_id % 256) as u8,
            (config.product_id / 256) as u8,
            (config.device_release % 256) as u8,
            (config.device_release / 256) as u8,
            manufacturer,
            product,
            serial,
            1,
        ];
        assert(body@ =~= device_descriptor_body(*config));
        self.write(descriptor_type::DEVICE, body.as_slice())
    }

    pub(crate) fn configuration(&mut self, config: &Config) -> (r: Result<()>)
        ensures
            r is Ok <==> descriptor_fits(old(self).bytes().len() as int, old(self).pos() as int, 7),
            r is Ok ==> final(self).bytes() == put_descriptor(old(self).bytes(), old(self).pos() as int, descriptor_type::CONFIGURATION, configuration_descriptor_body(*config)),
            r is Ok ==> final(self).pos() == old(self).pos() + 9,
            r is Err ==> r == Err::<(), UsbError>(UsbError::BufferOverflow),
            r is Err ==> final(self).bytes() == old(self).bytes() && final(self).pos() == old(self).pos(),
            final(self).interfaces_mark() == Some((old(self).pos() + 4) as usize),
            final(self).endpoints_mark() == old(self).endpoints_mark(),
            final(self).writes_iads() == config.composite_with_iads,
    {
        proof { use_type_invariant(&*self); }
        self.num_interfaces_mark = Some(self.position + 4);
        self.write_iads = config.composite_with_iads;
        let attributes: u8 = 0x80
            + (if config.self_powered { 0x40u8 } else { 0x00u8 })
            + (if config.supports_remote_wakeup { 0x20u8 } else { 0x00u8 });
        let body: [u8; 7] = [0, 0, 0, device::CONFIGURATION_VALUE, 0, attributes, config.max_power];
        assert(body@ =~= configuration_descriptor_body(*config));
        self.write(descriptor_type::CONFIGURATION, body.as_slice())
    }

    pub(crate) fn end_class(&mut self)
        ensures
            final(self).bytes() == old(self).bytes(),
            final(self).pos() == old(self).pos(),
            final(self).interfaces_mark() == old(self).interfaces_mark(),
            final(self).endpoints_mark() is None,
            final(self).writes_iads() == old(self).writes_iads(),
    {
        proof { use_type_invariant(&*self); }
        self.num_endpoints_mark = None;
    }

    /// Writes the number of bytes written so far, little-endian, into bytes 2 and 3 (the total
    /// length field of a configuration or BOS descriptor), if the buffer has them.
    pub(crate) fn end_configuration(&mut self)
        ensures
            final(self).bytes() == put_total_length(old(self).bytes(), old(self).pos() as u16),
            final(self).pos() == old(self).pos(),
            final(self).pos() <= final(self).bytes().len(),
            final(self).interfaces_mark() == old(self).interfaces_mark(),
            final(self).endpoints_mark() == old(self).endpoints_mark(),
            final(self).writes_iads() == old(self).writes_iads(),
        no_unwind
    {
        proof { use_type_invariant(&*self); }
        let position = self.position as u16;
        if self.buf.len() >= 4 {
            self.buf[2] = (position % 256) as u8;
            self.buf[3] = (position / 256) as u8;
        }
    }

    /// Writes a interface association descriptor. Call from `UsbClass::get_configuration_descriptors`
    /// before writing the USB class or function's interface descriptors if your class has more than
    /// one interface and wants to play nicely with composite devices on Windows. If the USB device
    /// hosting the class was not configured as composite with IADs enabled, calling this function
    /// does nothing, so it is safe to call from libraries.
    pub fn iad(
        &mut self,
        first_interface: InterfaceNumber,
        interface_count: u8,
        function_class: u8,
        function_sub_class: u8,
        function_protocol: u8,
        function_string: Option<StringIndex>,
    ) -> (r: Result<()>)
        ensures
            Self::extends(*old(self), *final(self)),
            !old(self).writes_iads() ==> r is Ok && *final(self) == *old(self),
            old(self).writes_iads() ==> {
                let body = seq![first_interface@, interface_count, function_class, function_sub_class,
                    function_protocol, string_index_byte(function_string)];
                &&& (r is Ok <==> descriptor_fits(old(self).bytes().len() as int, old(self).pos() as int, 6))
                &&& (r is Ok ==> final(self).bytes() == put_descriptor(old(self).bytes(), old(self).pos() as int, descriptor_type::IAD, body))
                &&& (r is Ok ==> final(self).pos() == old(self).pos() + 8)
                &&& (r is Err ==> r == Err::<(), UsbError>(UsbError::BufferOverflow))
                &&& (r is Err ==> final(self).bytes() == old(self).bytes() && final(self).pos() == old(self).pos())
            },
            final(self).interfaces_mark() == old(self).interfaces_mark(),
            final(self).endpoints_mark() == old(self).endpoints_mark(),
            final(self).writes_iads() == old(self).writes_iads(),
    {
        if !self.write_iads {
            return Ok(());
        }
        let str_index: u8 = match function_string {
            Some(s) => s.index(),
            None => 0,
        };
        let body: [u8; 6] = [
            first_interface.number(),
            interface_count,
            function_class,
            function_sub_class,
            function_protocol,
            str_index,
        ];
        assert(body@ =~= seq![first_interface@, interface_count, function_class, function_sub_class,
            function_protocol, string_index_byte(function_string)]);
        self.write(descriptor_type::IAD, body.as_slice())
    }

    /// Writes a interface descriptor with the default alternate setting and no string.
    pub fn interface(
        &mut self,
        number: InterfaceNumber,
        interface_class: u8,
        interface_sub_class: u8,
        interface_protocol: u8,
    ) -> (r: Result<()>)
        ensures
            Self::extends(*old(self), *final(self)),
            old(self).interfaces_mark() is None ==> r == Err::<(), UsbError>(UsbError::InvalidState) && *final(self) == *old(self),
            old(self).interfaces_mark() matches Some(mark) ==> {
                let bumped = bump_at(old(self).bytes(), mark as int);
                let body = interface_descriptor_body(number@, device::DEFAULT_ALTERNATE_SETTING,
                    interface_class, interface_sub_class, interface_protocol, 0);
                &&& final(self).endpoints_mark() == Some((old(self).pos() + 4) as usize)
                &&& (r is Ok <==> descriptor_fits(old(self).bytes().len() as int, old(self).pos() as int, 7))
                &&& (r is Ok ==> final(self).bytes() == put_descriptor(bumped, old(self).pos() as int, descriptor_type::INTERFACE, body))
                &&& (r is Ok ==> final(self).pos() == old(self).pos() + 9)
                &&& (r is Err ==> r == Err::<(), UsbError>(UsbError::BufferOverflow))
                &&& (r is Err ==> final(self).bytes() == bumped && final(self).pos() == old(self).pos())
            },
            final(self).interfaces_mark() == old(self).interfaces_mark(),
            final(self).writes_iads() == old(self).writes_iads(),
    {
        self.interface_alt(
            number,
            device::DEFAULT_ALTERNATE_SETTING,
            interface_class,
            interface_sub_class,
            interface_protocol,
            None,
        )
    }

    /// Writes a interface descriptor with a specific alternate setting and
    /// interface string identifier.
    ///
    /// The default alternate setting (0) adds one to the interface count of the configuration
    /// descriptor, and fails with `InvalidState` when no configuration descriptor is being written.
    pub fn interface_alt(
        &mut self,
        number: InterfaceNumber,
        alternate_setting: u8,
        interface_class: u8,
        interface_sub_class: u8,
        interface_protocol: u8,
        interface_string: Option<StringIndex>,
    ) -> (r: Result<()>)
        ensures
            Self::extends(*old(self), *final(self)),
            alternate_setting == device::DEFAULT_ALTERNATE_SETTING && old(self).interfaces_mark() is None ==>
                r == Err::<(), UsbError>(UsbError::InvalidState) && *final(self) == *old(self),
            !(alternate_setting == device::DEFAULT_ALTERNATE_SETTING && old(self).interfaces_mark() is None) ==> {
                let bumped = if alternate_setting == device::DEFAULT_ALTERNATE_SETTING {
                    bump_at(old(self).bytes(), old(self).interfaces_mark().unwrap() as int)
                } else {
                    old(self).bytes()
                };
                let body = interface_descriptor_body(number@, alternate_setting, interface_class,
                    interface_sub_class, interface_protocol, string_index_byte(interface_string));
                &&& final(self).endpoints_mark() == Some((old(self).pos() + 4) as usize)
                &&& (r is Ok <==> descriptor_fits(old(self).bytes().len() as int, old(self).pos() as int, 7))
                &&& (r is Ok ==> final(self).bytes() == put_descriptor(bumped, old(self).pos() as int, descriptor_type::INTERFACE, body))
                &&& (r is Ok ==> final(self).pos() == old(self).pos() + 9)
                &&& (r is Err ==> r == Err::<(), UsbError>(UsbError::BufferOverflow))
                &&& (r is Err ==> final(self).bytes() == bumped && final(self).pos() == old(self).pos())
            },
            final(self).interfaces_mark() == old(self).interfaces_mark(),
            final(self).writes_iads() == old(self).writes_iads(),
    {
        proof { use_type_invariant(&*self); }
        if alternate_setting == device::DEFAULT_ALTERNATE_SETTING {
            match self.num_interfaces_mark {
                Some(mark) => self.bump(mark),
                None => return Err(UsbError::InvalidState),
            }
        }
        let str_index: u8 = match interface_string {
            Some(s) => s.index(),
            None => 0,
        };
        self.num_endpoints_mark = Some(self.position + 4);
        let body: [u8; 7] = [
            number.number(),
            alternate_setting,
            0,
            interface_class,
            interface_sub_class,
            interface_protocol,
            str_index,
        ];
        assert(body@ =~= interface_descriptor_body(number@, alternate_setting, interface_class,
            interface_sub_class, interface_protocol, string_index_byte(interface_string)));
        self.write(descriptor_type::INTERFACE, body.as_slice())
    }

    /// Writes the endpoint descriptor with the given fields and extra trailing bytes, after the
    /// endpoint count has been updated.
    fn endpoint_fields(&mut self, address: u8, attributes: u8, max_packet_size: u16, interval: u8, extra: &[u8]) -> (r: Result<()>)
        ensures
            Self::extends(*old(self), *final(self)),
            r is Ok <==> descriptor_fits(old(self).bytes().len() as int, old(self).pos() as int, 5 + extra@.len() as int),
            r is Ok ==> final(self).bytes() == put_descriptor(old(self).bytes(), old(self).pos() as int,
                descriptor_type::ENDPOINT, endpoint_descriptor_head(address, attributes, max_packet_size, interval) + extra@),
            r is Ok ==> final(self).pos() == old(self).pos() + 7 + extra@.len(),
            r is Err ==> r == Err::<(), UsbError>(UsbError::BufferOverflow),
            r is Err ==> final(self).bytes() == old(self).bytes() && final(self).pos() == old(self).pos(),
            final(self).interfaces_mark() == old(self).interfaces_mark(),
            final(self).endpoints_mark() == old(self).endpoints_mark(),
            final(self).writes_iads() == old(self).writes_iads(),
    {
        proof { use_type_invariant(&*self); }
        if extra.len() > 248 {
            return Err(UsbError::BufferOverflow);
        }
        let mut body: Vec<u8> = Vec::new();
        body.push(address);
        body.push(attributes);
        body.push((max_packet_size % 256) as u8);
        body.push((max_packet_size / 256) as u8);
        body.push(interval);
        let mut j: usize = 0;
        while j < extra.len()
            invariant
                j <= extra@.len(),
                extra@.len() <= 248,
                body@ == endpoint_descriptor_head(address, attributes, max_packet_size, interval) + extra@.take(j as int),
            decreases extra@.len() - j,
        {
            body.push(extra[j]);
            j = j + 1;
            assert(extra@.take(j as int) =~= extra@.take(j - 1) + seq![extra@[j - 1]]);
        }
        assert(extra@.take(extra@.len() as int) =~= extra@);
        self.write(descriptor_type::ENDPOINT, body.as_slice())
    }

    /// Writes an endpoint descriptor, adding one to the endpoint count of the interface
    /// descriptor being written; fails with `InvalidState` when no interface descriptor is being
    /// written.
    pub fn endpoint<'b, B: UsbBus, D: EndpointDirection>(&mut self, endpoint: &Endpoint<'b, B, D>) -> (r: Result<()>)
        ensures
            Self::extends(*old(self), *final(self)),
            old(self).endpoints_mark() is None ==> r == Err::<(), UsbError>(UsbError::InvalidState) && *final(self) == *old(self),
            old(self).endpoints_mark() matches Some(mark) ==> {
                let bumped = bump_at(old(self).bytes(), mark as int);
                let body = endpoint_descriptor_head(endpoint.spec_address()@, bm_attributes(endpoint.spec_ep_type()),
                    endpoint.spec_max_packet_size(), endpoint.spec_interval());
                &&& (r is Ok <==> descriptor_fits(old(self).bytes().len() as int, old(self).pos() as int, 5))
                &&& (r is Ok ==> final(self).bytes() == put_descriptor(bumped, old(self).pos() as int, descriptor_type::ENDPOINT, body))
                &&& (r is Ok ==> final(self).pos() == old(self).pos() + 7)
                &&& (r is Err ==> r == Err::<(), UsbError>(UsbError::BufferOverflow))
                &&& (r is Err ==> final(self).bytes() == bumped && final(self).pos() == old(self).pos())
            },
            final(self).interfaces_mark() == old(self).interfaces_mark(),
            final(self).endpoints_mark() == old(self).endpoints_mark(),
            final(self).writes_iads() == old(self).writes_iads(),
    {
        proof { use_type_invariant(&*self); }
        let ghost w0 = *self;
        match self.num_endpoints_mark {
            Some(mark) => self.bump(mark),
            None => return Err(UsbError::InvalidState),
        }
        let ghost w1 = *self;
        proof {
            let m = w0.endpoints_mark().unwrap() as int;
            assert(w1.bytes() == bump_at(w0.bytes(), m));
            assert(w1.bytes().len() == w0.bytes().len());
            assert forall|j: int| 0 <= j < w0.pos() && Some(j as usize) != w0.interfaces_mark()
                && Some(j as usize) != w0.endpoints_mark() implies #[trigger] w1.bytes()[j] == w0.bytes()[j] by {
                assert(j != m);
            }
        }
        assert(Self::extends(w0, w1));
        let r = self.endpoint_fields(
            endpoint.address().into(),
            endpoint.ep_type().to_bm_attributes(),
            endpoint.max_packet_size(),
            endpoint.interval(),
            &[],
        );
        proof {
            Self::lemma_extends_trans(w0, w1, *self);
            let empty: Seq<u8> = Seq::empty();
            assert(endpoint_descriptor_head(endpoint.spec_address()@, bm_attributes(endpoint.spec_ep_type()),
                endpoint.spec_max_packet_size(), endpoint.spec_interval()) + empty
                =~= endpoint_descriptor_head(endpoint.spec_address()@, bm_attributes(endpoint.spec_ep_type()),
                endpoint.spec_max_packet_size(), endpoint.spec_interval()));
        }
        r
    }

    /// Writes an endpoint descriptor with extra trailing data, which the callback writes into the
    /// space it gets (the space after the five bytes of the endpoint's fields, see
    /// [`descriptor_window`]) and whose length it returns. See `write_with` for more information.
    /// The endpoint count of the interface descriptor being written goes up by one first; with
    /// no interface descriptor being written it fails with `InvalidState`.
    pub fn endpoint_ex<'b, B: UsbBus, D: EndpointDirection, F: FnOnce(&mut [u8]) -> Result<usize>>(
        &mut self,
        endpoint: &Endpoint<'b, B, D>,
        f: F,
    ) -> (r: Result<()>)
        requires
            old(self).endpoints_mark() matches Some(mark) ==> forall|s: &mut [u8]|
                s@ == descriptor_window(bump_at(old(self).bytes(), mark as int), old(self).pos() as int).skip(5)
                ==> #[trigger] f.requires((s,)),
        ensures
            Self::extends(*old(self), *final(self)),
            old(self).endpoints_mark() is None ==> r == Err::<(), UsbError>(UsbError::InvalidState) && *final(self) == *old(self),
            old(self).endpoints_mark() matches Some(mark) ==> {
                let bumped = bump_at(old(self).bytes(), mark as int);
                let head = endpoint_descriptor_head(endpoint.spec_address()@, bm_attributes(endpoint.spec_ep_type()),
                    endpoint.spec_max_packet_size(), endpoint.spec_interval());
                &&& (!descriptor_fits(old(self).bytes().len() as int, old(self).pos() as int, 5) ==>
                    r == Err::<(), UsbError>(UsbError::BufferOverflow) && final(self).bytes() == bumped && final(self).pos() == old(self).pos())
                &&& (descriptor_fits(old(self).bytes().len() as int, old(self).pos() as int, 5) ==> exists|s: &mut [u8], fr: Result<usize>| {
                    &&& #[trigger] f.ensures((s,), fr)
                    &&& s@ == descriptor_window(bumped, old(self).pos() as int).skip(5)
                    &&& Self::extra_written(*old(self), bumped, *final(self), r, head, fr, final(s)@)
                })
            },
            final(self).interfaces_mark() == old(self).interfaces_mark(),
            final(self).endpoints_mark() == old(self).endpoints_mark(),
            final(self).writes_iads() == old(self).writes_iads(),
    {
        proof { use_type_invariant(&*self); }
        match self.num_endpoints_mark {
            Some(mark) => self.bump(mark),
            None => return Err(UsbError::InvalidState),
        }
        let ghost bumped = self.buf@;
        if self.position + 2 > self.buf.len() {
            return Err(UsbError::BufferOverflow);
        }
        let rest = self.buf.len() - self.position - 2;
        let window = if rest < 254 { rest } else { 254 };
        if window < 5 {
            return Err(UsbError::BufferOverflow);
        }
        let room = window - 5;
        let mut scratch = self.copy_out(self.position + 7, room);
        assert(scratch@ =~= descriptor_window(bumped, self.position as int).skip(5));
        let s = scratch.as_mut_slice();
        let ghost gs = s;
        let fr = f(s);
        proof {
            let w = choose|s2: &mut [u8]| #[trigger] f.ensures((s2,), fr) && s2@ == gs@ && final(s2)@ == final(gs)@;
            assert(f.ensures((w,), fr) && final(w)@ == scratch@);
        }
        let n = match fr {
            Ok(n) => n,
            Err(e) => return Err(e),
        };
        if n > room || n > scratch.len() {
            return Err(UsbError::BufferOverflow);
        }
        let extra = vstd::slice::slice_subrange(scratch.as_slice(), 0, n);
        self.endpoint_fields(
            endpoint.address().into(),
            endpoint.ep_type().to_bm_attributes(),
            endpoint.max_packet_size(),
            endpoint.interval(),
            extra,
        )
    }

    /// Whether `after` and `r` are what writing an endpoint descriptor with the fields `head` and
    /// extra bytes from a callback gives from `before`, whose buffer was `bumped` once the
    /// endpoint count went up, when the callback returned `fr` and left `space` in the space it
    /// was given: its error is passed on; a count that does not fit the space, or makes the
    /// descriptor longer than 255 bytes, is refused with `BufferOverflow`; in both cases nothing
    /// more changes. Otherwise the descriptor is written with the first bytes of `space`, as many
    /// as the count, after the fields.
    pub open spec fn extra_written(before: Self, bumped: Seq<u8>, after: Self, r: Result<()>, head: Seq<u8>,
        fr: Result<usize>, space: Seq<u8>) -> bool {
        let unchanged = after.bytes() == bumped && after.pos() == before.pos();
        match fr {
            Err(e) => r == Err::<(), UsbError>(e) && unchanged,
            Ok(n) => if n <= space.len() && n + 5 <= descriptor_window(bumped, before.pos() as int).len() && n + 5 <= 253 {
                &&& r is Ok
                &&& after.bytes() == put_descriptor(bumped, before.pos() as int, descriptor_type::ENDPOINT, head + space.take(n as int))
                &&& after.pos() == before.pos() + 7 + n
            } else {
                r == Err::<(), UsbError>(UsbError::BufferOverflow) && unchanged
            },
        }
    }

    /// Writes a string descriptor: the string in UTF-16, little-endian.
    ///
    /// Fails with `BufferOverflow` when the descriptor does not fit in the rest of the buffer or
    /// is longer than 255 bytes; the written bytes then stay as they were.
    pub(crate) fn string(&mut self, string: &str) -> (r: Result<()>)
        ensures
            r is Ok <==> descriptor_fits(old(self).bytes().len() as int, old(self).pos() as int, string_body(string@).len() as int),
            r is Ok ==> final(self).bytes() == put_descriptor(old(self).bytes(), old(self).pos() as int, descriptor_type::STRING, string_body(string@)),
            r is Ok ==> final(self).pos() == old(self).pos() + 2 + string_body(string@).len(),
            r is Err ==> r == Err::<(), UsbError>(UsbError::BufferOverflow),
            r is Err ==> final(self).bytes() == old(self).bytes() && final(self).pos() == old(self).pos(),
            final(self).interfaces_mark() == old(self).interfaces_mark(),
            final(self).endpoints_mark() == old(self).endpoints_mark(),
            final(self).writes_iads() == old(self).writes_iads(),
    {
        proof { use_type_invariant(&*self); }
        let start = self.position;
        if start + 2 > self.buf.len() {
            return Err(UsbError::BufferOverflow);
        }
        let rest = self.buf.len() - start - 2;
        let room = if rest < 253 { rest } else { 253 };
        let ghost s = string@;
        let mut body: Vec<u8> = Vec::new();
        let n = string.unicode_len();
        let mut i: usize = 0;
        while i < n
            invariant
                i <= n,
                n == s.len(),
                s == string@,
                room + 1024 <= usize::MAX,
                body@ == string_body(s.take(i as int)),
                body@.len() <= room,
                self.buf@ == old(self).buf@,
                self.position == start,
                start == old(self).position,
                room == (if old(self).buf@.len() - start - 2 < 253 { old(self).buf@.len() - start - 2 } else { 253 }),
                self.num_interfaces_mark == old(self).num_interfaces_mark,
                self.num_endpoints_mark == old(self).num_endpoints_mark,
                self.write_iads == old(self).write_iads,
            decreases n - i,
        {
            let c = string.get_char(i);
            let mut units = encode_char_utf16le(c);
            proof {
                lemma_string_body_step(s, i as int);
            }
            if units.len() > room - body.len() {
                proof {
                    lemma_string_body_prefix_len(s, (i + 1) as int);
                }
                return Err(UsbError::BufferOverflow);
            }
            body.append(&mut units);
            i = i + 1;
        }
        proof {
            assert(s.take(n as int) =~= s);
        }
        self.put_descriptor_unchecked(descriptor_type::STRING, body.as_slice(), body.len());
        Ok(())
    }

    /// Writes a capability descriptor (length, type, capability type, data) at the current
    /// position, which the caller has checked to fit.
    fn put_capability(&mut self, capability_type: u8, data: &[u8], blen: usize)
        requires
            blen == data@.len(),
            old(self).pos() + 3 + data@.len() <= old(self).bytes().len(),
            data@.len() <= 252,
        ensures
            final(self).bytes() == old(self).bytes().take(old(self).pos() as int)
                + seq![(data@.len() + 3) as u8, descriptor_type::CAPABILITY, capability_type] + data@
                + old(self).bytes().skip((old(self).pos() + 3 + data@.len()) as int),
            final(self).pos() == old(self).pos() + 3 + data@.len(),
            final(self).interfaces_mark() == old(self).interfaces_mark(),
            final(self).endpoints_mark() == old(self).endpoints_mark(),
            final(self).writes_iads() == old(self).writes_iads(),
        no_unwind
    {
        proof { use_type_invariant(&*self); }
        let start = self.position;
        let ghost b0 = self.buf@;
        self.buf[start] = (blen + 3) as u8;
        self.buf[start + 1] = descriptor_type::CAPABILITY;
        self.buf[start + 2] = capability_type;
        self.put_bytes(start + 3, data, blen);
        self.position = start + 3 + blen;
        assert(self.buf@ =~= b0.take(start as int) + seq![(blen + 3) as u8, descriptor_type::CAPABILITY, capability_type] + data@
            + b0.skip(start + 3 + blen));
    }
}

/// Code units appended after others give their bytes appended after the others' bytes.
pub proof fn lemma_units_le_bytes_append(a: Seq<u16>, b: Seq<u16>)
    ensures
        units_le_bytes(a + b) == units_le_bytes(a) + units_le_bytes(b),
    decreases b.len(),
{
    if b.len() == 0 {
        assert(a + b =~= a);
        assert(units_le_bytes(a) + units_le_bytes(b) =~= units_le_bytes(a));
    } else {
        assert((a + b).drop_last() =~= a + b.drop_last());
        lemma_units_le_bytes_append(a, b.drop_last());
        assert((a + b).last() == b.last());
    }
}

/// The UTF-16 code units of one character, little-endian.
fn encode_char_utf16le(c: char) -> (r: Vec<u8>)
    ensures
        r@ == units_le_bytes(utf16_units(c)),
        r@.len() == 2 || r@.len() == 4,
{
    let v = c as u32;
    let mut r: Vec<u8> = Vec::new();
    if v < 0x10000 {
        let unit = v as u16;
        r.push((unit % 256) as u8);
        r.push((unit / 256) as u8);
        proof {
            assert(utf16_units(c) =~= seq![unit]);
            lemma_units_le_bytes_one(unit);
            assert(r@ =~= units_le_bytes(utf16_units(c)));
        }
    } else {
        let u = v - 0x10000;
        let hi_unit = (0xD800 + u / 0x400) as u16;
        let lo_unit = (0xDC00 + u % 0x400) as u16;
        r.push((hi_unit % 256) as u8);
        r.push((hi_unit / 256) as u8);
        r.push((lo_unit % 256) as u8);
        r.push((lo_unit / 256) as u8);
        proof {
            assert(utf16_units(c) =~= seq![hi_unit, lo_unit]);
            lemma_units_le_bytes_two(hi_unit, lo_unit);
            assert(r@ =~= units_le_bytes(utf16_units(c)));
        }
    }
    r
}

/// The bytes of one code unit.
pub proof fn lemma_units_le_bytes_one(u: u16)
    ensures
        units_le_bytes(seq![u]) == seq![(u % 256) as u8, (u / 256) as u8],
{
    let one = seq![u];
    assert(one.drop_last() =~= Seq::<u16>::empty());
    assert(one.last() == u);
    assert(units_le_bytes(Seq::<u16>::empty()) == Seq::<u8>::empty());
    assert(units_le_bytes(seq![u]) =~= seq![(u % 256) as u8, (u / 256) as u8]);
}

/// The bytes of two code units.
pub proof fn lemma_units_le_bytes_two(u: u16, w: u16)
    ensures
        units_le_bytes(seq![u, w]) == seq![(u % 256) as u8, (u / 256) as u8, (w % 256) as u8, (w / 256) as u8],
{
    assert(seq![u, w].drop_last() =~= seq![u]);
    lemma_units_le_bytes_one(u);
    assert(units_le_bytes(seq![u, w]) =~= seq![(u % 256) as u8, (u / 256) as u8, (w % 256) as u8, (w / 256) as u8]);
}

/// Each code unit takes two bytes.
pub proof fn lemma_units_le_bytes_len(u: Seq<u16>)
    ensures
        units_le_bytes(u).len() == 2 * u.len(),
    decreases u.len(),
{
    if u.len() > 0 {
        lemma_units_le_bytes_len(u.drop_last());
    }
}

/// A string takes two or four bytes per character.
pub proof fn lemma_string_body_len(s: Seq<char>)
    ensures
        string_body(s).len() >= 2 * s.len(),
        string_body(s).len() <= 4 * s.len(),
        string_body(s).len() % 2 == 0,
    decreases s.len(),
{
    lemma_units_le_bytes_len(utf16_encode(s));
    lemma_utf16_len(s);
}

/// A string has one or two code units per character.
pub proof fn lemma_utf16_len(s: Seq<char>)
    ensures
        utf16_encode(s).len() >= s.len(),
        utf16_encode(s).len() <= 2 * s.len(),
    decreases s.len(),
{
    if s.len() > 0 {
        lemma_utf16_len(s.drop_last());
    }
}

/// The encoding of one more character of a string appends that character's code units.
pub proof fn lemma_string_body_step(s: Seq<char>, i: int)
    requires
        0 <= i < s.len(),
    ensures
        utf16_encode(s.take(i + 1)) == utf16_encode(s.take(i)) + utf16_units(s[i]),
        string_body(s.take(i + 1)) == string_body(s.take(i)) + units_le_bytes(utf16_units(s[i])),
{
    assert(s.take(i + 1).drop_last() =~= s.take(i));
    lemma_units_le_bytes_append(utf16_encode(s.take(i)), utf16_units(s[i]));
}

/// A prefix of a string is not longer, once encoded, than the whole string.
pub proof fn lemma_string_body_prefix_len(s: Seq<char>, i: int)
    requires
        0 <= i <= s.len(),
    ensures
        string_body(s.take(i)).len() <= string_body(s).len(),
    decreases s.len() - i,
{
    if i < s.len() {
        lemma_string_body_prefix_len(s, i + 1);
        lemma_string_body_step(s, i);
    } else {
        assert(s.take(i) =~= s);
    }
}

/// The bytes every BOS descriptor starts with: the 5-byte BOS header with one capability and the
/// 7-byte USB 2.0 extension capability with no attributes; the total length (bytes 2 and 3) is
/// filled in at the end and the capability count (byte 4) grows with each capability.
pub open spec fn bos_start() -> Seq<u8> {
    seq![5u8, descriptor_type::BOS, 0u8, 0u8, 1u8, 7u8, descriptor_type::CAPABILITY,
        capability_type::USB_2_0_EXTENSION, 0u8, 0u8, 0u8, 0u8]
}

/// A writer for Binary Object Store descriptor.
pub struct BosWriter {
    writer: DescriptorWriter,
    num_caps_mark: Option<usize>,
}

impl BosWriter {
    /// The descriptor writer that the BOS descriptor is written with.
    pub closed spec fn spec_writer(&self) -> DescriptorWriter {
        self.writer
    }

    /// Where the capability count of the BOS descriptor is.
    pub closed spec fn caps_mark(&self) -> Option<usize> {
        self.num_caps_mark
    }

    /// Whether `after` is `before` with more capabilities written: the buffer keeps its length,
    /// the position does not go back, the capability count stays where it is, and every byte
    /// written before `before`'s position stays as it was, but for the capability count.
    pub open spec fn extends(before: Self, after: Self) -> bool {
        let w0 = before.spec_writer();
        let w1 = after.spec_writer();
        &&& w1.bytes().len() == w0.bytes().len()
        &&& w0.pos() <= w1.pos()
        &&& after.caps_mark() == before.caps_mark()
        &&& forall|j: int| 0 <= j < w0.pos() && Some(j as usize) != before.caps_mark()
            ==> #[trigger] w1.bytes()[j] == w0.bytes()[j]
    }

    /// Writing more capabilities after more were written is writing more.
    pub proof fn lemma_extends_trans(a: Self, b: Self, c: Self)
        requires
            Self::extends(a, b),
            Self::extends(b, c),
        ensures
            Self::extends(a, c),
    {
        assert forall|j: int| 0 <= j < a.spec_writer().pos() && Some(j as usize) != a.caps_mark()
            implies #[trigger] c.spec_writer().bytes()[j] == a.spec_writer().bytes()[j] by {
            assert(b.spec_writer().bytes()[j] == a.spec_writer().bytes()[j]);
        }
    }

    pub(crate) fn new(writer: DescriptorWriter) -> (r: Self)
        ensures
            r.spec_writer() == writer,
            r.caps_mark() is None,
    {
        Self { writer, num_caps_mark: None }
    }

    /// The descriptor writer, once the BOS descriptor is written.
    pub(crate) fn into_writer(self) -> (r: DescriptorWriter)
        ensures
            r == self.spec_writer(),
    {
        self.writer
    }

    /// Writes the BOS descriptor header and the USB 2.0 extension capability that every BOS
    /// descriptor holds ([`bos_start`]); fails with `BufferOverflow` unless both fit.
    pub(crate) fn bos(&mut self) -> (r: Result<()>)
        ensures
            r is Ok <==> old(self).spec_writer().pos() + 12 <= old(self).spec_writer().bytes().len(),
            r is Err ==> r == Err::<(), UsbError>(UsbError::BufferOverflow),
            final(self).spec_writer().bytes().len() == old(self).spec_writer().bytes().len(),
            r is Ok ==> {
                let w0 = old(self).spec_writer();
                let w1 = final(self).spec_writer();
                &&& final(self).caps_mark() == Some((w0.pos() + 4) as usize)
                &&& w1.pos() == w0.pos() + 12
                &&& w1.bytes().len() == w0.bytes().len()
                &&& w1.bytes().subrange(w0.pos() as int, w0.pos() + 12 as int) == bos_start()
            },
    {
        proof { use_type_invariant(&self.writer); }
        let ghost w0 = self.writer;
        let p = self.writer.position;
        self.num_caps_mark = Some(p + 4);
        let header: [u8; 3] = [0x00, 0x00, 0x00];
        match self.writer.write(descriptor_type::BOS, header.as_slice()) {
            Ok(()) => {},
            Err(e) => return Err(e),
        }
        let ghost w1 = self.writer;
        assert(w1.bytes()[p + 4] == 0);
        let caps: [u8; 4] = [0, 0, 0, 0];
        let r = self.capability(capability_type::USB_2_0_EXTENSION, caps.as_slice());
        proof {
            if r is Ok {
                let w2 = self.writer;
                assert(w2.bytes().subrange(p as int, p + 12) =~= bos_start());
            }
        }
        r
    }

    /// Writes capability descriptor to a BOS
    ///
    /// # Arguments
    ///
    /// * `capability_type` - Type of a capability
    /// * `data` - Binary data of the descriptor
    pub fn capability(&mut self, capability_type: u8, data: &[u8]) -> (r: Result<()>)
        ensures
            Self::extends(*old(self), *final(self)),
            old(self).caps_mark() is None ==> r == Err::<(), UsbError>(UsbError::InvalidState) && final(self).spec_writer() == old(self).spec_writer(),
            old(self).caps_mark() matches Some(mark) ==> {
                let w0 = old(self).spec_writer();
                let bumped = bump_at(w0.bytes(), mark as int);
                &&& (r is Ok <==> (w0.pos() + data@.len() + 3 <= w0.bytes().len() && data@.len() + 3 <= 255))
                &&& (r is Ok ==> final(self).spec_writer().bytes() == bumped.take(w0.pos() as int)
                    + seq![(data@.len() + 3) as u8, descriptor_type::CAPABILITY, capability_type] + data@
                    + bumped.skip((w0.pos() + 3 + data@.len()) as int))
                &&& (r is Ok ==> final(self).spec_writer().pos() == w0.pos() + 3 + data@.len())
                &&& (r is Err ==> r == Err::<(), UsbError>(UsbError::BufferOverflow))
                &&& (r is Err ==> final(self).spec_writer().bytes() == bumped && final(self).spec_writer().pos() == w0.pos())
            },
            final(self).caps_mark() == old(self).caps_mark(),
            final(self).spec_writer().interfaces_mark() == old(self).spec_writer().interfaces_mark(),
            final(self).spec_writer().endpoints_mark() == old(self).spec_writer().endpoints_mark(),
            final(self).spec_writer().writes_iads() == old(self).spec_writer().writes_iads(),
    {
        proof { use_type_invariant(&self.writer); }
        match self.num_caps_mark {
            Some(mark) => self.writer.bump(mark),
            None => return Err(UsbError::InvalidState),
        }
        proof { use_type_invariant(&self.writer); }
        let start = self.writer.position;
        let blen = data.len();
        if blen > 252 || start + blen + 3 > self.writer.buf.len() {
            return Err(UsbError::BufferOverflow);
        }
        self.writer.put_capability(capability_type, data, blen);
        Ok(())
    }

    /// Fills in the total length of the BOS descriptor.
    pub(crate) fn end_bos(&mut self)
        ensures
            final(self).caps_mark() is None,
            final(self).spec_writer().bytes() == put_total_length(old(self).spec_writer().bytes(), old(self).spec_writer().pos() as u16),
            final(self).spec_writer().pos() == old(self).spec_writer().pos(),
            final(self).spec_writer().pos() <= final(self).spec_writer().bytes().len(),
    {
        self.num_caps_mark = None;
        self.writer.end_configuration();
    }
}

} // verus!
