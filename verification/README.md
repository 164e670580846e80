# usb_device

A device-side USB stack for embedded devices whose protocol logic is verified with Verus.

A USB device is a `UsbDevice`, one or more `UsbClass`es and a platform-specific `UsbBus`
driver. The device answers the standard requests of endpoint 0, offers every request to the
classes first, and dispatches the events of the other endpoints to them.

What is proved:

- `control_pipe`: the control transfer state machine. SETUP packets are parsed, OUT data stages
  are collected into the control buffer, IN data stages are sent in packets of the endpoint's
  maximum size and closed with a zero-length packet when the last one is full. Laws cover whole
  data stages (`lemma_out_data_collected`, `lemma_in_data_sent`).
- `device`: the handling of bus events (reset, suspend and resume, data) and of the standard
  requests, with the descriptors the device answers (`get_descriptor_answered`). Requests are
  offered to the classes in order until one answers (`offered_in_order`), and a class string is
  the first one a class gives (`asked_in_order`, `first_some`). Laws relate
  requests to later answers (addresses, configuration, remote wakeup) and events to states.
- `descriptor`: the byte layout of every descriptor the writers produce, including UTF-16
  string descriptors; no descriptor is longer than its length byte can say; a run of writes lays
  the descriptors end to end (`lemma_descriptor_run`); class code can only add to what was
  written, and what a callback writes is what the descriptor holds.
- `bus`: the allocator numbers interfaces and strings in order (`lemma_strings_numbered_in_order`).
- `control`, `endpoint`, `lang_id`: the encodings of SETUP packets, endpoint addresses and
  language IDs, with round-trip laws.
- `test_class`: a class for testing bus drivers, which records protocol violations instead of
  stopping.

Layout: `src/` is the library, `tests/` runs it against a simulated bus.
