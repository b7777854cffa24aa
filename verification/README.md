# netmuxd

The verified core of a daemon that finds iOS devices on the network and hands them to a device
manager. On Windows it can run in the place of Apple's "Apple Mobile Device Service".

- `src/mdns`: what is read out of a service that mdns-sd has resolved, how it is matched with a
  pairing record and announced, and how known services are announced again every 30 seconds. What
  holds over everything that happens, such as that no event is lost or handled twice, is in
  `src/mdns/trace.rs`.
- `src/service`: how the service's ImagePath is saved, replaced and put back, how the service is
  stopped and started, and how the daemon behaves under the Service Control Manager.
- `src/service/laws.rs`, `src/service/machine.rs`: what holds of installing and uninstalling as a
  whole, such as that an ImagePath that can be read is saved before it is replaced, and that
  uninstalling brings it back.
- `src/utf16.rs`, `src/text.rs`: wide strings and text.
- `app`: the I/O around it. It makes the Win32 calls, browses, looks up pairing records through a
  trait, and writes the log.

Every procedure in `src` is a state machine: a state says what is to be done next, and a function
takes what came of it to the next state. The functions of std and mdns-sd that `src` calls are
declared in `src/text.rs`, `src/utf16.rs` and `src/mdns/resolved.rs`, with what is taken for granted
about them.
