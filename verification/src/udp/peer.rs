//! Addresses of datagram peers.

use crate::table::TableKey;
use vstd::prelude::*;

verus! {

/// A socket address: the source of a datagram.
#[derive(Debug, Clone, Copy, PartialEq, Eq, Structural)]
pub enum PeerAddr {
    /// An IPv4 address and port.
    V4 { ipv4: u32, port: u16 },
    /// An IPv6 address and port, with flow label and scope.
    V6 { ipv6: u128, port: u16, flowinfo: u32, scope_id: u32 },
}

impl View for PeerAddr {
    type V = PeerAddr;

    open spec fn view(&self) -> PeerAddr {
        *self
    }
}

impl TableKey for PeerAddr {
    fn same(&self, other: &Self) -> (b: bool) {
        *self == *other
    }
}

/// Whether a datagram from `src` is one that was waited for from `expected`.
pub fn from_expected(src: PeerAddr, expected: PeerAddr) -> (b: bool)
    ensures
        b == (src == expected),
{
    src == expected
}

/// Only datagrams of the very address that was waited for count: host, port and
/// everything else of it are the same.
pub proof fn law_only_the_peer_counts(src: PeerAddr, expected: PeerAddr, b: bool)
    requires
        call_ensures(from_expected, (src, expected), b),
    ensures
        b ==> match (src, expected) {
            (PeerAddr::V4 { ipv4: a, port: p }, PeerAddr::V4 { ipv4: c, port: q }) => a == c && p == q,
            (
                PeerAddr::V6 { ipv6: a, port: p, flowinfo: f, scope_id: s },
                PeerAddr::V6 { ipv6: c, port: q, flowinfo: g, scope_id: t },
            ) => a == c && p == q && f == g && s == t,
            _ => false,
        },
        src == expected ==> b,
{
}

} // verus!
