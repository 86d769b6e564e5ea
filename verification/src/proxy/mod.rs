//! Proxies between the client and the server: their configuration, and the
//! order in which a chain of them is gone through.

use crate::error::{io_err, ErrorView, IoKind, ObfsError};
use crate::text::{self, chars_of, parse_u16};
use vstd::prelude::*;
use vstd::slice::slice_subrange;
use vstd::string::StrSliceExecFns;

pub mod http_connect;
pub mod socks5;

verus! {

/// The protocol of a proxy.
#[derive(Debug, Clone, Copy, PartialEq, Eq, Structural)]
pub enum ProxyKind {
    /// SOCKS5.
    Socks5,
    /// HTTP CONNECT.
    HttpConnect,
}

/// Credentials for a proxy.
#[derive(Debug)]
pub struct ProxyAuth {
    /// The username.
    pub user: String,
    /// The password.
    pub pass: String,
}

/// One proxy of a chain.
#[derive(Debug)]
pub struct ProxyHop {
    /// Its protocol.
    pub kind: ProxyKind,
    /// Its address, as `host:port`.
    pub addr: String,
    /// The credentials for it.
    pub auth: Option<ProxyAuth>,
}

/// A chain of proxies: the first one, and those behind it.
#[derive(Debug)]
pub struct ProxyConfig {
    /// The protocol of the first proxy.
    pub kind: ProxyKind,
    /// The address of the first proxy, as `host:port`.
    pub addr: String,
    /// The credentials for the first proxy.
    pub auth: Option<ProxyAuth>,
    /// The proxies behind it, in order.
    pub chain: Vec<ProxyHop>,
}

/// Username and password of optional credentials.
pub open spec fn auth_view(auth: Option<ProxyAuth>) -> Option<(Seq<char>, Seq<char>)> {
    match auth {
        Some(a) => Some((a.user@, a.pass@)),
        None => None,
    }
}

/// A [`ProxyHop`] with its texts as sequences.
#[verifier::ext_equal]
pub struct HopView {
    pub kind: ProxyKind,
    pub addr: Seq<char>,
    pub auth: Option<(Seq<char>, Seq<char>)>,
}

impl View for ProxyHop {
    type V = HopView;

    open spec fn view(&self) -> HopView {
        HopView { kind: self.kind, addr: self.addr@, auth: auth_view(self.auth) }
    }
}

/// All proxies of a configuration, in order.
pub open spec fn hops_of(config: ProxyConfig) -> Seq<HopView> {
    seq![HopView { kind: config.kind, addr: config.addr@, auth: auth_view(config.auth) }]
        + Seq::new(config.chain@.len(), |i: int| config.chain@[i]@)
}

/// Host and port of an address, split at its last colon.
pub open spec fn addr_parts(addr: Seq<char>) -> Result<(Seq<char>, u16), ErrorView> {
    match addr.index_of_last(':') {
        None => Err(ErrorView::Io(IoKind::Other, "invalid proxy addr"@)),
        Some(colon) => match text::u16_numeral(addr.skip(colon + 1)) {
            None => Err(ErrorView::Io(IoKind::Other, "invalid proxy port"@)),
            Some(port) => Ok((addr.take(colon), port)),
        },
    }
}

/// Splits an address into host and port.
pub fn parse_addr(addr: &str) -> (r: Result<(String, u16), ObfsError>)
    ensures
        match r {
            Ok((host, port)) => addr_parts(addr@) == Ok::<_, ErrorView>((host@, port)),
            Err(e) => addr_parts(addr@) == Err::<(Seq<char>, u16), _>(e@),
        },
{
    let chars: Vec<char> = chars_of(addr);
    proof {
        addr@.index_of_last_ensures(':');
    }
    let mut colon: usize = chars.len();
    while colon > 0
        invariant
            colon <= chars@.len(),
            chars@ == addr@,
            forall|k: int| colon <= k < chars@.len() ==> chars@[k] != ':',
            match addr@.index_of_last(':') {
                Some(index) => 0 <= index < addr@.len() && addr@[index] == ':' && (forall|j: int|
                    index < j < addr@.len() ==> addr@[j] != ':'),
                None => !addr@.contains(':'),
            },
        decreases colon,
    {
        colon -= 1;
        if chars[colon] == ':' {
            assert(addr@.contains(':'));
            assert(addr@.index_of_last(':') == Some(colon as int));
            let digits: &[char] = slice_subrange(chars.as_slice(), colon + 1, chars.len());
            assert(digits@ =~= addr@.skip(colon + 1));
            let host: &str = addr.substring_char(0, colon);
            assert(host@ =~= addr@.take(colon as int));
            return match parse_u16(digits) {
                Some(port) => Ok((host.to_owned(), port)),
                None => Err(io_err("invalid proxy port")),
            };
        }
    }
    Err(io_err("invalid proxy addr"))
}

/// An address that was put together from host and port is taken apart into
/// the same two, also when the host holds colons itself.
pub proof fn law_addr_roundtrip(host: Seq<char>, port: u16)
    ensures
        addr_parts(host + seq![':'] + text::decimal(port as nat)) == Ok::<_, ErrorView>((host, port)),
{
    let digits = text::decimal(port as nat);
    let addr = host + seq![':'] + digits;
    text::law_decimal_roundtrip(port as nat);
    text::law_u16_numeral_roundtrip(port);
    addr.index_of_last_ensures(':');
    assert(addr[host.len() as int] == ':');
    assert(addr.contains(':'));
    let colon = addr.index_of_last(':').unwrap();
    if colon > host.len() {
        assert(addr[colon] == digits[colon - host.len() - 1]);
        assert(text::is_digit(digits[colon - host.len() - 1]));
    }
    assert(colon == host.len());
    assert(addr.take(colon) =~= host);
    assert(addr.skip(colon + 1) =~= digits);
}

/// A way through a chain of proxies to a target.
pub struct Dial {
    hops: Vec<ProxyHop>,
    target_host: String,
    target_port: u16,
    position: usize,
}

/// A [`Dial`] as a value: the proxies, the target, and how many proxies have
/// been gone through.
#[verifier::ext_equal]
pub struct DialModel {
    pub hops: Seq<HopView>,
    pub target_host: Seq<char>,
    pub target_port: u16,
    pub position: nat,
}

impl View for Dial {
    type V = DialModel;

    closed spec fn view(&self) -> DialModel {
        DialModel {
            hops: Seq::new(self.hops@.len(), |i: int| self.hops@[i]@),
            target_host: self.target_host@,
            target_port: self.target_port,
            position: self.position as nat,
        }
    }
}

/// What to do next on the way.
pub enum DialStep {
    /// Have the proxy that the stream now leads to open a tunnel to this host
    /// and port.
    Tunnel { kind: ProxyKind, host: String, port: u16, auth: Option<ProxyAuth> },
    /// The stream leads to the target.
    Done,
    /// Give up.
    Fail(ObfsError),
}

/// A [`DialStep`] with its contents as sequences.
#[verifier::ext_equal]
pub enum DialView {
    Tunnel {
        kind: ProxyKind,
        host: Seq<char>,
        port: u16,
        auth: Option<(Seq<char>, Seq<char>)>,
    },
    Done,
    Fail(ErrorView),
}

impl View for DialStep {
    type V = DialView;

    open spec fn view(&self) -> DialView {
        match *self {
            DialStep::Tunnel { kind, host, port, auth } => DialView::Tunnel {
                kind,
                host: host@,
                port,
                auth: auth_view(auth),
            },
            DialStep::Done => DialView::Done,
            DialStep::Fail(e) => DialView::Fail(e@),
        }
    }
}

/// Where the proxy at position `i` has to lead: to the next proxy, or to the
/// target if it is the last.
pub open spec fn destination(m: DialModel, i: int) -> Result<(Seq<char>, u16), ErrorView> {
    if i + 1 < m.hops.len() {
        addr_parts(m.hops[i + 1].addr)
    } else {
        Ok((m.target_host, m.target_port))
    }
}

/// One step of a way.
pub open spec fn dial_step(m: DialModel) -> (DialModel, DialView) {
    if m.position >= m.hops.len() {
        (m, DialView::Done)
    } else {
        let hop = m.hops[m.position as int];
        match destination(m, m.position as int) {
            Ok((host, port)) => (
                DialModel { position: m.position + 1, ..m },
                DialView::Tunnel { kind: hop.kind, host, port, auth: hop.auth },
            ),
            Err(e) => (m, DialView::Fail(e)),
        }
    }
}

/// A copy of optional credentials.
fn copy_auth(auth: &Option<ProxyAuth>) -> (out: Option<ProxyAuth>)
    ensures
        auth_view(out) == auth_view(*auth),
{
    match auth {
        Some(a) => Some(ProxyAuth { user: a.user.clone(), pass: a.pass.clone() }),
        None => None,
    }
}

/// Plans the way through the proxies of `proxy` to a target.
pub fn dial(proxy: &ProxyConfig, target_host: &str, target_port: u16) -> (d: Dial)
    ensures
        d@ == (DialModel {
            hops: hops_of(*proxy),
            target_host: target_host@,
            target_port,
            position: 0,
        }),
{
    let mut hops: Vec<ProxyHop> = Vec::new();
    hops.push(
        ProxyHop { kind: proxy.kind, addr: proxy.addr.clone(), auth: copy_auth(&proxy.auth) },
    );
    let mut i: usize = 0;
    while i < proxy.chain.len()
        invariant
            i <= proxy.chain@.len(),
            hops@.len() == i + 1,
            forall|k: int| 0 <= k <= i ==> (#[trigger] hops@[k])@ == hops_of(*proxy)[k],
        decreases proxy.chain.len() - i,
    {
        let hop: &ProxyHop = &proxy.chain[i];
        hops.push(ProxyHop { kind: hop.kind, addr: hop.addr.clone(), auth: copy_auth(&hop.auth) });
        i += 1;
    }
    let d = Dial { hops, target_host: target_host.to_owned(), target_port, position: 0 };
    assert(d@.hops =~= hops_of(*proxy));
    d
}

impl Dial {
    /// The address to connect to first.
    pub fn first_addr(&self) -> (addr: &String)
        requires
            self@.hops.len() > 0,
        ensures
            addr@ == self@.hops[0].addr,
    {
        &self.hops[0].addr
    }

    /// The next step on the way. The address of the next proxy is looked at
    /// only once the stream leads to the one before it; a way that has failed
    /// there goes no further.
    pub fn next(&mut self) -> (step: DialStep)
        ensures
            (final(self)@, step@) == dial_step(old(self)@),
    {
        if self.position >= self.hops.len() {
            return DialStep::Done;
        }
        let kind: ProxyKind = self.hops[self.position].kind;
        let auth: Option<ProxyAuth> = copy_auth(&self.hops[self.position].auth);
        if self.position + 1 < self.hops.len() {
            match parse_addr(self.hops[self.position + 1].addr.as_str()) {
                Ok((host, port)) => {
                    self.position = self.position + 1;
                    DialStep::Tunnel { kind, host, port, auth }
                },
                Err(e) => DialStep::Fail(e),
            }
        } else {
            self.position = self.position + 1;
            DialStep::Tunnel { kind, host: self.target_host.clone(), port: self.target_port, auth }
        }
    }
}

/// Every proxy of a chain leads to the next one, with its own protocol and
/// credentials, and the last one leads to the target.
pub proof fn law_chain_leads_to_target(m: DialModel)
    requires
        m.position < m.hops.len(),
        forall|i: int| 0 < i < m.hops.len() ==> addr_parts((#[trigger] m.hops[i]).addr) is Ok,
    ensures
        ({
            let hop = m.hops[m.position as int];
            let (next, step) = dial_step(m);
            &&& next.position == m.position + 1
            &&& m.position + 1 < m.hops.len() ==> step == (DialView::Tunnel {
                kind: hop.kind,
                host: addr_parts(m.hops[m.position as int + 1].addr)->Ok_0.0,
                port: addr_parts(m.hops[m.position as int + 1].addr)->Ok_0.1,
                auth: hop.auth,
            })
            &&& m.position + 1 == m.hops.len() ==> step == (DialView::Tunnel {
                kind: hop.kind,
                host: m.target_host,
                port: m.target_port,
                auth: hop.auth,
            }) && dial_step(next).1 == DialView::Done
        }),
{
    if m.position + 1 < m.hops.len() {
        assert(addr_parts(m.hops[m.position as int + 1].addr) is Ok);
    }
}

/// A way that has failed stays failed: asking again gives the same error, and
/// never that the target is reached.
pub proof fn law_failed_way_stays_failed(m: DialModel)
    requires
        dial_step(m).1 is Fail,
    ensures
        dial_step(dial_step(m).0) == dial_step(m),
{
}

/// A single proxy leads straight to the target.
pub proof fn law_single_hop(m: DialModel)
    requires
        m.hops.len() == 1,
        m.position == 0,
    ensures
        dial_step(m).1 == (DialView::Tunnel {
            kind: m.hops[0].kind,
            host: m.target_host,
            port: m.target_port,
            auth: m.hops[0].auth,
        }),
        dial_step(dial_step(m).0).1 == DialView::Done,
{
}

/// Whether `hop` is the proxy with this protocol, address and credentials.
pub open spec fn is_hop(hop: HopView, kind: ProxyKind, addr: String, auth: Option<ProxyAuth>) -> bool {
    &&& hop.kind == kind
    &&& hop.addr == addr@
    &&& carries(hop.auth, auth)
}

/// Whether `texts` are the username and the password of `auth`; both have none,
/// or neither.
pub open spec fn carries(texts: Option<(Seq<char>, Seq<char>)>, auth: Option<ProxyAuth>) -> bool {
    match (texts, auth) {
        (Some((user, pass)), Some(a)) => user == a.user@ && pass == a.pass@,
        (None, None) => true,
        _ => false,
    }
}

/// A way goes through the proxies of its configuration, all of them and in
/// order, each with the protocol, the address and the credentials that were
/// configured for it; the configuration's own come first.
pub proof fn law_way_is_the_configured_one(
    proxy: &ProxyConfig,
    target_host: &str,
    target_port: u16,
    d: Dial,
)
    requires
        call_ensures(dial, (proxy, target_host, target_port), d),
    ensures
        d@.hops.len() == 1 + proxy.chain@.len(),
        is_hop(d@.hops[0], proxy.kind, proxy.addr, proxy.auth),
        forall|i: int|
            0 <= i < proxy.chain@.len() ==> is_hop(
                d@.hops[i + 1],
                (#[trigger] proxy.chain@[i]).kind,
                proxy.chain@[i].addr,
                proxy.chain@[i].auth,
            ),
        d@.target_host == target_host@,
        d@.target_port == target_port,
        d@.position == 0,
{
    assert forall|i: int| 0 <= i < proxy.chain@.len() implies is_hop(
        d@.hops[i + 1],
        (#[trigger] proxy.chain@[i]).kind,
        proxy.chain@[i].addr,
        proxy.chain@[i].auth,
    ) by {
        assert(d@.hops[i + 1] == proxy.chain@[i]@);
    }
}

/// The stream is first connected to the first proxy of the way.
pub proof fn law_first_connects_to_first_hop(d: &Dial, addr: &String)
    requires
        call_ensures(Dial::first_addr, (d,), addr),
        d@.hops.len() > 0,
    ensures
        addr@ == d@.hops[0].addr,
{
}

/// Whether `step` has a proxy of the protocol and the credentials of `hop` open
/// a tunnel to `host` and `port`.
pub open spec fn tunnels(step: DialStep, hop: HopView, host: Seq<char>, port: u16) -> bool {
    step matches DialStep::Tunnel { kind, host: h, port: p, auth } && kind == hop.kind && h@ == host
        && p == port && carries(hop.auth, auth)
}

/// Going on never changes which proxies a way goes through and where it leads,
/// and goes through at most one proxy at a time.
pub proof fn law_way_is_fixed(d: &mut Dial, step: DialStep)
    requires
        call_ensures(Dial::next, (d,), step),
    ensures
        final(d)@.hops == old(d)@.hops,
        final(d)@.target_host == old(d)@.target_host,
        final(d)@.target_port == old(d)@.target_port,
        step is Tunnel ==> final(d)@.position == old(d)@.position + 1,
        !(step is Tunnel) ==> final(d)@.position == old(d)@.position,
{
}

/// A proxy that has another one behind it leads there: to the host and port that
/// make up the next address, with its own protocol and credentials.
pub proof fn law_hop_leads_to_next_hop(
    d: &mut Dial,
    step: DialStep,
    host: Seq<char>,
    digits: Seq<char>,
)
    requires
        call_ensures(Dial::next, (d,), step),
        old(d)@.position + 1 < old(d)@.hops.len(),
        old(d)@.hops[old(d)@.position as int + 1].addr == host + seq![':'] + digits,
        !digits.contains(':'),
    ensures
        match text::u16_numeral(digits) {
            Some(port) => tunnels(step, old(d)@.hops[old(d)@.position as int], host, port),
            None => step matches DialStep::Fail(ObfsError::Io(IoKind::Other, m)) && m@
                == "invalid proxy port"@,
        },
{
    law_addr_splits_at_last_colon(host, digits);
}

/// Where the next address has no colon, the way ends in an error there, and asking
/// again changes nothing.
pub proof fn law_hop_without_port_fails(d: &mut Dial, step: DialStep)
    requires
        call_ensures(Dial::next, (d,), step),
        old(d)@.position + 1 < old(d)@.hops.len(),
        !old(d)@.hops[old(d)@.position as int + 1].addr.contains(':'),
    ensures
        step matches DialStep::Fail(ObfsError::Io(IoKind::Other, m)) && m@ == "invalid proxy addr"@,
        final(d)@ == old(d)@,
{
    old(d)@.hops[old(d)@.position as int + 1].addr.index_of_last_ensures(':');
}

/// The last proxy leads to the target, with its own protocol and credentials,
/// and behind it the way is done.
pub proof fn law_last_hop_leads_to_target(d: &mut Dial, step: DialStep)
    requires
        call_ensures(Dial::next, (d,), step),
    ensures
        old(d)@.position + 1 == old(d)@.hops.len() ==> tunnels(
            step,
            old(d)@.hops[old(d)@.position as int],
            old(d)@.target_host,
            old(d)@.target_port,
        ),
        step is Done <==> old(d)@.position >= old(d)@.hops.len(),
{
}

/// The first tunnel of a way is opened by the configured proxy with the
/// configured credentials, and with no chain behind it leads to the target.
pub proof fn law_first_tunnel(
    proxy: &ProxyConfig,
    target_host: &str,
    target_port: u16,
    d: &mut Dial,
    step: DialStep,
)
    requires
        call_ensures(dial, (proxy, target_host, target_port), *old(d)),
        call_ensures(Dial::next, (d,), step),
    ensures
        step matches DialStep::Tunnel { kind, host, port, auth } ==> kind == proxy.kind && match (
            auth,
            proxy.auth,
        ) {
            (Some(a), Some(b)) => a.user@ == b.user@ && a.pass@ == b.pass@,
            (None, None) => true,
            _ => false,
        },
        proxy.chain@.len() == 0 ==> (step matches DialStep::Tunnel { host, port, .. } && host@
            == target_host@ && port == target_port),
{
    law_way_is_the_configured_one(proxy, target_host, target_port, *old(d));
}

/// An address is taken apart at its last colon: what stands before it is the
/// host, what stands behind it has to be a port.
pub proof fn law_addr_splits_at_last_colon(host: Seq<char>, digits: Seq<char>)
    requires
        !digits.contains(':'),
    ensures
        addr_parts(host + seq![':'] + digits) == match text::u16_numeral(digits) {
            Some(port) => Ok((host, port)),
            None => Err(ErrorView::Io(IoKind::Other, "invalid proxy port"@)),
        },
{
    let addr = host + seq![':'] + digits;
    addr.index_of_last_ensures(':');
    assert(addr[host.len() as int] == ':');
    assert(addr.contains(':'));
    let colon = addr.index_of_last(':').unwrap();
    if colon > host.len() {
        assert(addr[colon] == digits[colon - host.len() - 1]);
        assert(digits.contains(':'));
    }
    assert(addr.take(colon) =~= host);
    assert(addr.skip(colon + 1) =~= digits);
}

/// What is read of an address is what it was put together from; without a colon
/// it is no address.
pub proof fn law_address_parsed(
    addr: &str,
    r: Result<(String, u16), ObfsError>,
    host: Seq<char>,
    digits: Seq<char>,
)
    requires
        call_ensures(parse_addr, (addr,), r),
    ensures
        !digits.contains(':') && addr@ == host + seq![':'] + digits ==> match (
            r,
            text::u16_numeral(digits),
        ) {
            (Ok((h, p)), Some(port)) => h@ == host && p == port,
            (Err(ObfsError::Io(IoKind::Other, m)), None) => m@ == "invalid proxy port"@,
            _ => false,
        },
        !addr@.contains(':') ==> (r matches Err(ObfsError::Io(IoKind::Other, m)) && m@
            == "invalid proxy addr"@),
{
    if !digits.contains(':') && addr@ == host + seq![':'] + digits {
        law_addr_splits_at_last_colon(host, digits);
    }
    addr@.index_of_last_ensures(':');
}

} // verus!
