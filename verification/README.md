# rlldpctl

A client for the control socket of [`lldpd`](https://lldpd.github.io/): list
interfaces, read the LLDP neighbors discovered on them, follow changes, and set
a port's description.

The protocol is verified with [Verus](https://github.com/verus-lang/verus). lldpd
has no stable protocol for its clients: it sends its own C structures, copied out
of its memory. So what a message means depends on the version of lldpd (1.0.21 and
1.0.22), on the features it was built with (dot1, dot3, LLDP-MED, CDP and FDP, no
custom TLVs), and on the C ABI of the machine, which both sides have to share.

## Layout

- `src/wire/` reads and writes payloads.
  - `bytes`, `pod`, `layout`, `raw`: numbers and C structures as bytes, on a host
    of either byte order and of either pointer width.
  - `cursor`, `decode`: chunks, and the three messages made of them. Each function
    is exact: it says which bytes give which value, and which give which error.
  - `encode`: the two requests that carry data.
  - `sent`, `round_trip`: lldpd's side of the protocol, and the theorems that
    what is sent reads back.
  - `locality`: what follows a message does not matter, and a message that has been
    cut short is malformed.
- `src/transport.rs` frames messages.
- `src/client.rs` says what requests and replies are.
- `src/subscription.rs` decides what comes of each read of a subscriber, with the
  theorems that notifications come out in the order in which they were sent, and
  that two subscriptions which receive the same bytes agree.
- `src/model.rs` holds interfaces, neighbors and chassis.
- `app/` has the sockets, with and without tokio.

## What is trusted

Three functions of the standard library: `u16::to_ne_bytes` (for the host's byte
order), `String::from_utf8_lossy` and `str::from_utf8`. `std::io::Error` is carried
along as it is.
