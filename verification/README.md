# mccs

Control plane and per-device bookkeeping of a collective communication service, verified with Verus.

The service owns the GPUs of a host. Applications connect to it as clients. The control engine
starts one proxy per device and one daemon per client, and connects them; transport engines run the
agents that set up and connect the transports; and each communicator is described to its device.

- `src/` is the library. Every decision is made there, under contracts that Verus proves.
  - `control`: the control engine and the proxies that it starts; `control::selftest` is a run of
    the whole service on two devices.
  - `transport`: the transport engine, its agents, an account of its requests and replies, and the
    data beside a connection's buffer.
  - `comm`: communicators and their description for the device.
  - `registry`: what all proxies share.
  - `ipc`, `daemon`, `exchange`, `proxy`: errors and messages between the parts, and what daemons and
    proxies start with.
  - `utils`: channels, work pools, walks over hash maps, numbers as text.
- `app/` carries the decisions out: sockets, threads, device memory, futures.
- `tests/` runs the library.

What is believed without proof are the calls into `crossbeam`, `dashmap`, `uuid` and the `Display`
of I/O and encoding errors. Each of them stands in a small function of its own, whose comment says
what is claimed, if anything.
