# vaiexia-obfs

Decision logic of an obfuscated RPC transport, verified with Verus.

The transport carries RPC envelopes over a Noise-XK encrypted TCP stream or
over UDP datagrams, shaped by a traffic profile, optionally through a chain of
SOCKS5 and HTTP CONNECT proxies.

- `src/` is the library. It holds what the transport decides: state machines
  that are told what happened and answer what to do next, and the byte formats
  on the way. Every function is verified against its contract; the functions
  named `law_*` prove what holds of the library as a whole.
- `app/` runs the library on tokio. It owns sockets, timers, Noise sessions,
  traffic profiles and the JSON form of envelopes.
- `tests/` exercises the library from outside.

| Module | Holds |
|--------|-------|
| `framing` | frames on a stream, and the plain frame format |
| `handshake_io` | the order of the stream handshake on both sides |
| `client`, `server` | what an envelope leads to on either side, pending requests, subscriptions |
| `gate` | admission of peers by their static key |
| `proxy` | proxy chains, SOCKS5, HTTP CONNECT |
| `udp::initiator`, `udp::handshake` | both sides of the datagram handshake |
| `udp::server`, `udp::cookie_gate`, `udp::cookie_jar` | peers, half-open handshakes, cookie challenges |
| `udp::client` | the datagram pump and retransmitted requests |
| `udp::keys`, `udp::dataplane` | record keys and sealed records |
| `udp::exchange` | how the two sides of the datagram handshake play together |

What is taken on trust stands behind three small functions: the keyed BLAKE2s
code of the `blake2` crate, random bytes of `rand`'s `SmallRng`, and UTF-8
validation of the standard library.
