# cathub

A multi-client CAT and virtual-serial hub: several programs share one transceiver, each over
the dialect it knows (Kenwood TS-590, Kenwood TS-2000, a transparent TS-590 mirror, Hamlib's
`rigctld` network protocol), without stepping on each other. The rules of the hub are verified
with Verus; the program around them does the I/O.

## Layout

- `src/` is the library. Every function states in its contract what it returns or changes, and
  the properties that hold across functions stand beside them as proof functions named `law_*`.
  - `model`, `state`, `events`, `power`, `error`: the neutral model of the radio and the shared
    state cache with its change events.
  - `backend`, `radio`: the radio side. What each backend writes and reads, framing, reply
    matching, reconnecting, and the priority scheduler.
  - `permissions`, `ptt`, `dialect`, `serial_face`, `hamlib_net`: the client side. What each
    client may do, who holds the transmitter, and how requests are answered.
  - `sharing`: what the parts promise together.
  - `config`, `hub`, `runtime_info`: configuration, its validation and rendering, and what the
    daemon starts for it.
  - `protocol`, `daemon`, `managed`: the private protocol of the virtual serial driver, the
    daemon's side of it, and the relay of a managed endpoint.
  - `provisioning`: planning, reporting and stepping through the creation and removal of
    virtual serial devices.
  - `conformance`: the conformance profiles of serial providers and the judgement of a run.
  - `ascii`, `text`, `le`, `order`, `kenwood`: text, byte and ordering helpers.
- `tests/` holds the tests.
- `app/` is the program: the command line, files, sockets, serial ports, and the Windows calls.
  Each of its loops performs the action that the library decides on and hands back the event.

## What is trusted

A few calls are specified rather than proved: `String::push`,
`str::from_utf8`, `String::from_utf8_lossy`, the `Debug` form of a list of strings, and the
TOML parser's view of a document's top-level keys. The doc comment of each says what is claimed.
