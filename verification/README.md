# Serial Tether

One daemon owns a serial port; many clients share it over a socket. `tetherd`
keeps what the device sends in a ring buffer, gives every attached session its
own cursors into it, and arbitrates writers with a lock per device. `tether` is
the command-line client.

The library in `src/` is verified with Verus. It holds everything that decides
or computes; sockets, serial ports, pseudo-terminals, the terminal and the clock
are in `app/`, which calls the library with plain values and carries out what it
answers.

| Modules | Subject |
| --- | --- |
| `buffer`, `scan`, `expect`, `pattern` | the ring, escape and echo removal, waiting for a pattern |
| `lock`, `session`, `state` | writer locks, sessions and their cursors, the daemon's state |
| `conn`, `handlers`, `control` | dispatch, notifications and the RPC methods as state transitions |
| `serial`, `bridge` | the owner of a port as a state machine, the virtual port |
| `message`, `error`, `codec`, `encoding` | the wire protocol and its framing |
| `startup`, `banner` | device specs, settings and what the daemon announces |
| `client`, `command`, `exec`, `shell`, `render` | the client: its requests, `exec`, the interactive shell, its output |
| `text`, `ids` | strings and fresh identifiers |

Public proof functions whose names start with `law_` state what holds across
functions: that reads of the ring give back what was pushed, that framing is
undone by deframing, that a lock taken for one transaction leaves the lock as it
was, and so on.

Calls into other crates (`base64`, `bytes`, `regex`, `serde_json`, `uuid`, and a
few functions of `std`) go through small functions marked `external_body`. Their doc comments
say what is taken for granted of each.
