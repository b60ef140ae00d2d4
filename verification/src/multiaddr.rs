//! Transport addresses, as lists of protocol components.

use crate::peer::{peer_id_text, valid_peer_id, PeerId};
use libp2p::multiaddr::Protocol as Component;
use vstd::prelude::*;
use vstd::string::StringExecFns;

verus! {

/// One component of a transport address.
#[derive(Debug, PartialEq, Eq)]
pub enum Protocol {
    Ip4(u32),
    Ip6(u128),
    Tcp(u16),
    Udp(u16),
    QuicV1,
    P2p(PeerId),
    P2pCircuit,
    /// Any other component, by its text.
    Other(String),
}

/// One component of a transport address, as a mathematical value.
pub enum ProtocolView {
    Ip4(u32),
    Ip6(u128),
    Tcp(u16),
    Udp(u16),
    QuicV1,
    P2p(Seq<u8>),
    P2pCircuit,
    Other(Seq<char>),
}

impl View for Protocol {
    type V = ProtocolView;

    open spec fn view(&self) -> ProtocolView {
        match self {
            Protocol::Ip4(a) => ProtocolView::Ip4(*a),
            Protocol::Ip6(a) => ProtocolView::Ip6(*a),
            Protocol::Tcp(p) => ProtocolView::Tcp(*p),
            Protocol::Udp(p) => ProtocolView::Udp(*p),
            Protocol::QuicV1 => ProtocolView::QuicV1,
            Protocol::P2p(id) => ProtocolView::P2p(id@),
            Protocol::P2pCircuit => ProtocolView::P2pCircuit,
            Protocol::Other(t) => ProtocolView::Other(t@),
        }
    }
}

/// An IP address.
#[derive(Debug, Clone, Copy, PartialEq, Eq, Structural)]
pub enum IpAddress {
    V4(u32),
    V6(u128),
}

/// The components that a list of values stands for.
pub open spec fn views(ps: Seq<Protocol>) -> Seq<ProtocolView> {
    ps.map_values(|p: Protocol| p@)
}

/// The components of the address that `libp2p::Multiaddr` parses from a text, if it accepts it.
pub uninterp spec fn multiaddr_of_text(text: Seq<char>) -> Option<Seq<ProtocolView>>;

/// The text in which `std::net::Ipv6Addr` shows an address.
pub uninterp spec fn ip6_text(a: u128) -> Seq<char>;

/// A number in decimal digits.
pub open spec fn decimal(n: nat) -> Seq<char>
    decreases n,
{
    if n < 10 {
        seq![(48 + n) as char]
    } else {
        decimal(n / 10).push((48 + n % 10) as char)
    }
}

/// An IPv4 address in dotted decimal.
pub open spec fn ip4_text(a: u32) -> Seq<char> {
    decimal((a / 0x100_0000) as nat) + seq!['.'] + decimal(((a / 0x1_0000) % 256) as nat) + seq!['.']
        + decimal(((a / 0x100) % 256) as nat) + seq!['.'] + decimal((a % 256) as nat)
}

/// The text of one component.
pub open spec fn protocol_text(p: ProtocolView) -> Seq<char> {
    match p {
        ProtocolView::Ip4(a) => "/ip4/"@ + ip4_text(a),
        ProtocolView::Ip6(a) => "/ip6/"@ + ip6_text(a),
        ProtocolView::Tcp(port) => "/tcp/"@ + decimal(port as nat),
        ProtocolView::Udp(port) => "/udp/"@ + decimal(port as nat),
        ProtocolView::QuicV1 => "/quic-v1"@,
        ProtocolView::P2p(id) => "/p2p/"@ + peer_id_text(id),
        ProtocolView::P2pCircuit => "/p2p-circuit"@,
        ProtocolView::Other(text) => text,
    }
}

/// The text of an address: the texts of its components, one after the other.
pub open spec fn multiaddr_text(ps: Seq<ProtocolView>) -> Seq<char>
    decreases ps.len(),
{
    if ps.len() == 0 {
        Seq::empty()
    } else {
        multiaddr_text(ps.drop_last()) + protocol_text(ps.last())
    }
}

/// Every component is one with a meaning of its own here.
pub open spec fn plain(ps: Seq<ProtocolView>) -> bool {
    forall|i: int|
        0 <= i < ps.len() ==> (match #[trigger] ps[i] {
            ProtocolView::Other(_) => false,
            ProtocolView::P2p(id) => valid_peer_id(id),
            _ => true,
        })
}

/// The text of the address is read back as the same address.
pub open spec fn readable(ps: Seq<ProtocolView>) -> bool {
    multiaddr_of_text(multiaddr_text(ps)) == Some(ps)
}

/// Every component of `qs` is one with a meaning of its own here or is taken over from `ps`.
pub open spec fn drawn_from(qs: Seq<ProtocolView>, ps: Seq<ProtocolView>) -> bool {
    forall|i: int|
        0 <= i < qs.len() ==> (match #[trigger] qs[i] {
            ProtocolView::Other(_) => ps.contains(qs[i]),
            ProtocolView::P2p(id) => valid_peer_id(id),
            _ => true,
        })
}

/// What holds of every address: its text, and that of every address made of its components, is read
/// back as the same address.
pub open spec fn valid_multiaddr(ps: Seq<ProtocolView>) -> bool {
    &&& drawn_from(ps, ps)
    &&& forall|qs: Seq<ProtocolView>| #[trigger] drawn_from(qs, ps) ==> readable(qs)
}

/// An address made of the components of a valid address is valid.
pub proof fn drawn_from_valid(qs: Seq<ProtocolView>, ps: Seq<ProtocolView>)
    requires
        valid_multiaddr(ps),
        drawn_from(qs, ps),
    ensures
        valid_multiaddr(qs),
        readable(qs),
{
    assert(drawn_from(qs, qs));
    assert forall|rs: Seq<ProtocolView>| #[trigger] drawn_from(rs, qs) implies readable(rs) by {
        assert forall|i: int| 0 <= i < rs.len() && rs[i] is Other implies ps.contains(
            #[trigger] rs[i],
        ) by {
            assert(qs.contains(rs[i]));
            let k = choose|k: int| 0 <= k < qs.len() && qs[k] == rs[i];
            assert(ps.contains(qs[k]));
        }
        assert(drawn_from(rs, ps));
    }
}

impl Protocol {
    /// A copy.
    pub fn duplicate(&self) -> (r: Protocol)
        ensures
            r@ == self@,
    {
        match self {
            Protocol::Ip4(a) => Protocol::Ip4(*a),
            Protocol::Ip6(a) => Protocol::Ip6(*a),
            Protocol::Tcp(p) => Protocol::Tcp(*p),
            Protocol::Udp(p) => Protocol::Udp(*p),
            Protocol::QuicV1 => Protocol::QuicV1,
            Protocol::P2p(id) => Protocol::P2p(id.clone()),
            Protocol::P2pCircuit => Protocol::P2pCircuit,
            Protocol::Other(t) => Protocol::Other(t.clone()),
        }
    }
}

/// The error of the parser of `libp2p::Multiaddr`.
#[verifier::external_type_specification]
#[verifier::external_body]
pub struct ExMultiaddrError(libp2p::multiaddr::Error);

/// The components that were read, if any.
pub open spec fn read_protocols(r: Result<Vec<Protocol>, libp2p::multiaddr::Error>) -> Option<
    Seq<ProtocolView>,
> {
    match r {
        Ok(v) => Some(views(v@)),
        Err(_) => None,
    }
}

/// Parses a text as a `libp2p::Multiaddr` and hands out its components.
///
/// Claimed: the text of an address whose components all have a meaning of their own here is read as
/// that address; and the text of an address that was read, and that of every address made of its
/// components, is read back as that address. Which other texts stand for which address is left to
/// the name.
#[verifier::external_body]
fn parse_protocols(text: &str) -> (r: Result<Vec<Protocol>, libp2p::multiaddr::Error>)
    ensures
        read_protocols(r) == multiaddr_of_text(text@),
        read_protocols(r) is Some ==> valid_multiaddr(read_protocols(r)->0),
        forall|ps: Seq<ProtocolView>|
            #![trigger multiaddr_text(ps)]
            plain(ps) && multiaddr_text(ps) == text@ ==> read_protocols(r) == Some(ps),
{
    let address = text.parse::<libp2p::Multiaddr>()?;
    Ok(address.iter().map(|c| match c {
        Component::Ip4(a) => Protocol::Ip4(a.into()),
        Component::Ip6(a) => Protocol::Ip6(a.into()),
        Component::Tcp(p) => Protocol::Tcp(p),
        Component::Udp(p) => Protocol::Udp(p),
        Component::QuicV1 => Protocol::QuicV1,
        Component::P2p(id) => Protocol::P2p(PeerId { bytes: id.to_bytes() }),
        Component::P2pCircuit => Protocol::P2pCircuit,
        other => Protocol::Other(other.to_string()),
    }).collect())
}

/// Shows a component with a meaning of its own here as a `libp2p::multiaddr::Protocol`.
///
/// Claimed: a slash, the name of the protocol and, after another slash, its value: a port in
/// decimal, an IPv4 address in dotted decimal, an identity in its own text. The text of an IPv6
/// address is left to the name.
#[verifier::external_body]
fn show_component(p: &Protocol) -> (r: String)
    requires
        !(p@ is Other),
        p@ is P2p ==> valid_peer_id(p@->P2p_0),
    ensures
        r@ == protocol_text(p@),
        p@ is Ip6 ==> r@ == "/ip6/"@ + ip6_text(p@->Ip6_0),
{
    match p {
        Protocol::Ip4(a) => Component::Ip4((*a).into()).to_string(),
        Protocol::Ip6(a) => Component::Ip6((*a).into()).to_string(),
        Protocol::Tcp(n) => Component::Tcp(*n).to_string(),
        Protocol::Udp(n) => Component::Udp(*n).to_string(),
        Protocol::QuicV1 => Component::QuicV1.to_string(),
        Protocol::P2p(id) => {
            Component::P2p(libp2p::PeerId::from_bytes(&id.bytes).expect("canonical bytes")).to_string()
        },
        Protocol::P2pCircuit => Component::P2pCircuit.to_string(),
        Protocol::Other(text) => text.clone(),
    }
}

/// A transport address.
#[derive(Debug, PartialEq, Eq)]
pub struct Multiaddr {
    protocols: Vec<Protocol>,
}

impl View for Multiaddr {
    type V = Seq<ProtocolView>;

    closed spec fn view(&self) -> Seq<ProtocolView> {
        views(self.protocols@)
    }
}

/// The view of an optional address.
pub open spec fn multiaddr_view(m: Option<Multiaddr>) -> Option<Seq<ProtocolView>> {
    match m {
        Some(a) => Some(a@),
        None => None,
    }
}

/// The address without an unspecified IPv4 address (`0.0.0.0`): each is replaced by the address of
/// the host, where that is known.
pub open spec fn resolved(ps: Seq<ProtocolView>, host: Option<IpAddress>) -> Seq<ProtocolView> {
    ps.map_values(|p: ProtocolView| resolved_component(p, host))
}

/// See `resolved`.
pub open spec fn resolved_component(p: ProtocolView, host: Option<IpAddress>) -> ProtocolView {
    if p == ProtocolView::Ip4(0) {
        match host {
            Some(IpAddress::V4(a)) => ProtocolView::Ip4(a),
            Some(IpAddress::V6(a)) => ProtocolView::Ip6(a),
            None => p,
        }
    } else {
        p
    }
}

/// The address has a TCP port.
pub open spec fn uses_tcp(ps: Seq<ProtocolView>) -> bool {
    exists|i: int| 0 <= i < ps.len() && (#[trigger] ps[i]) is Tcp
}

/// The address is one of QUIC.
pub open spec fn uses_quic(ps: Seq<ProtocolView>) -> bool {
    exists|i: int| 0 <= i < ps.len() && (#[trigger] ps[i]) is QuicV1
}

/// The address goes through a relay.
pub open spec fn uses_relay(ps: Seq<ProtocolView>) -> bool {
    exists|i: int| 0 <= i < ps.len() && (#[trigger] ps[i]) is P2pCircuit
}

/// The address names a host by its IP address.
pub open spec fn names_ip(ps: Seq<ProtocolView>) -> bool {
    exists|i: int| 0 <= i < ps.len() && ((#[trigger] ps[i]) is Ip4 || ps[i] is Ip6)
}

/// The address names a port.
pub open spec fn names_port(ps: Seq<ProtocolView>) -> bool {
    exists|i: int| 0 <= i < ps.len() && ((#[trigger] ps[i]) is Tcp || ps[i] is Udp)
}

/// The identity at the end of an address, and the address without it.
pub open spec fn peer_at_end(ps: Seq<ProtocolView>) -> Option<(Seq<u8>, Seq<ProtocolView>)> {
    if ps.len() > 0 && ps.last() is P2p {
        Some((ps.last()->P2p_0, ps.drop_last()))
    } else {
        None
    }
}

impl Multiaddr {
    #[verifier::type_invariant]
    spec fn valid(self) -> bool {
        valid_multiaddr(views(self.protocols@))
    }

    /// Reads an address from its text.
    pub fn parse(text: &str) -> (r: Option<Multiaddr>)
        ensures
            multiaddr_view(r) == multiaddr_of_text(text@),
            r matches Some(m) ==> valid_multiaddr(m@),
            forall|ps: Seq<ProtocolView>|
                #![trigger multiaddr_text(ps)]
                plain(ps) && multiaddr_text(ps) == text@ ==> multiaddr_view(r) == Some(ps),
    {
        match parse_protocols(text) {
            Ok(protocols) => Some(Multiaddr { protocols }),
            Err(_) => None,
        }
    }

    /// The text form.
    pub fn to_text(&self) -> (r: String)
        ensures
            r@ == multiaddr_text(self@),
            valid_multiaddr(self@),
            multiaddr_of_text(r@) == Some(self@),
    {
        proof {
            use_type_invariant(self);
        }
        let mut out = String::new();
        let mut i: usize = 0;
        assert(self@.subrange(0, 0) == Seq::<ProtocolView>::empty());
        while i < self.protocols.len()
            invariant
                i <= self.protocols@.len(),
                self@ == views(self.protocols@),
                valid_multiaddr(self@),
                out@ == multiaddr_text(self@.subrange(0, i as int)),
            decreases self.protocols@.len() - i,
        {
            let p = &self.protocols[i];
            proof {
                assert(self@[i as int] == p@);
                let head = self@.subrange(0, i + 1);
                assert(head.drop_last() == self@.subrange(0, i as int));
                assert(drawn_from(self@, self@));
            }
            match p {
                Protocol::Other(text) => {
                    out.append(text.as_str());
                },
                _ => {
                    let text = show_component(p);
                    out.append(text.as_str());
                },
            }
            i += 1;
        }
        proof {
            assert(self@.subrange(0, i as int) == self@);
            assert(drawn_from(self@, self@));
        }
        out
    }

    /// A copy.
    pub fn duplicate(&self) -> (r: Multiaddr)
        ensures
            r@ == self@,
    {
        self.resolve(None)
    }

    /// The address with each unspecified IPv4 address replaced by the address of the host, where
    /// that is known.
    pub fn resolve(&self, host: Option<IpAddress>) -> (r: Multiaddr)
        ensures
            r@ == resolved(self@, host),
            host is None ==> r@ == self@,
    {
        proof {
            use_type_invariant(self);
        }
        let mut out: Vec<Protocol> = Vec::new();
        let mut i: usize = 0;
        while i < self.protocols.len()
            invariant
                i <= self.protocols@.len(),
                out@.len() == i,
                forall|j: int|
                    0 <= j < i ==> (#[trigger] out@[j])@ == resolved_component(
                        self.protocols@[j]@,
                        host,
                    ),
            decreases self.protocols@.len() - i,
        {
            let p = &self.protocols[i];
            let q = match (p, host) {
                (Protocol::Ip4(0), Some(IpAddress::V4(a))) => Protocol::Ip4(a),
                (Protocol::Ip4(0), Some(IpAddress::V6(a))) => Protocol::Ip6(a),
                _ => p.duplicate(),
            };
            out.push(q);
            i += 1;
        }
        proof {
            let ps = views(self.protocols@);
            let qs = views(out@);
            assert(qs == resolved(ps, host));
            assert forall|j: int| 0 <= j < qs.len() && (qs[j] is Other || qs[j] is P2p) implies
                #[trigger] qs[j] == ps[j] by {
            }
            assert(drawn_from(ps, ps));
            assert(drawn_from(qs, ps));
            drawn_from_valid(qs, ps);
            if host is None {
                assert(qs == ps);
            }
        }
        Multiaddr { protocols: out }
    }

    /// Whether the address has a TCP port.
    pub fn has_tcp(&self) -> (r: bool)
        ensures
            r == uses_tcp(self@),
    {
        let mut i: usize = 0;
        while i < self.protocols.len()
            invariant
                i <= self.protocols@.len(),
                forall|j: int| 0 <= j < i ==> !(self@[j] is Tcp),
            decreases self.protocols@.len() - i,
        {
            assert(self@[i as int] == self.protocols@[i as int]@);
            if let Protocol::Tcp(_) = &self.protocols[i] {
                return true;
            }
            i += 1;
        }
        false
    }

    /// Whether the address is one of QUIC.
    pub fn has_quic(&self) -> (r: bool)
        ensures
            r == uses_quic(self@),
    {
        let mut i: usize = 0;
        while i < self.protocols.len()
            invariant
                i <= self.protocols@.len(),
                forall|j: int| 0 <= j < i ==> !(self@[j] is QuicV1),
            decreases self.protocols@.len() - i,
        {
            assert(self@[i as int] == self.protocols@[i as int]@);
            if let Protocol::QuicV1 = &self.protocols[i] {
                return true;
            }
            i += 1;
        }
        false
    }

    /// Whether the address goes through a relay.
    pub fn has_circuit(&self) -> (r: bool)
        ensures
            r == uses_relay(self@),
    {
        let mut i: usize = 0;
        while i < self.protocols.len()
            invariant
                i <= self.protocols@.len(),
                forall|j: int| 0 <= j < i ==> !(self@[j] is P2pCircuit),
            decreases self.protocols@.len() - i,
        {
            assert(self@[i as int] == self.protocols@[i as int]@);
            if let Protocol::P2pCircuit = &self.protocols[i] {
                return true;
            }
            i += 1;
        }
        false
    }

    /// Whether the address names a host by its IP address.
    pub fn has_ip(&self) -> (r: bool)
        ensures
            r == names_ip(self@),
    {
        let mut i: usize = 0;
        while i < self.protocols.len()
            invariant
                i <= self.protocols@.len(),
                forall|j: int| 0 <= j < i ==> !(self@[j] is Ip4 || self@[j] is Ip6),
            decreases self.protocols@.len() - i,
        {
            assert(self@[i as int] == self.protocols@[i as int]@);
            match &self.protocols[i] {
                Protocol::Ip4(_) | Protocol::Ip6(_) => {
                    return true;
                },
                _ => {},
            }
            i += 1;
        }
        false
    }

    /// Whether the address names a port.
    pub fn has_port(&self) -> (r: bool)
        ensures
            r == names_port(self@),
    {
        let mut i: usize = 0;
        while i < self.protocols.len()
            invariant
                i <= self.protocols@.len(),
                forall|j: int| 0 <= j < i ==> !(self@[j] is Tcp || self@[j] is Udp),
            decreases self.protocols@.len() - i,
        {
            assert(self@[i as int] == self.protocols@[i as int]@);
            match &self.protocols[i] {
                Protocol::Tcp(_) | Protocol::Udp(_) => {
                    return true;
                },
                _ => {},
            }
            i += 1;
        }
        false
    }

    /// Splits off the identity at the end, if there is one.
    pub fn split_peer(&self) -> (r: Option<(PeerId, Multiaddr)>)
        ensures
            (match r {
                Some(p) => Some((p.0@, p.1@)),
                None => None,
            }) == peer_at_end(self@),
    {
        proof {
            use_type_invariant(self);
        }
        let n: usize = self.protocols.len();
        if n == 0 {
            return None;
        }
        assert(self@.last() == self.protocols@[n - 1]@);
        let id = match &self.protocols[n - 1] {
            Protocol::P2p(id) => id.clone(),
            _ => {
                return None;
            },
        };
        let mut out: Vec<Protocol> = Vec::new();
        let mut i: usize = 0;
        while i < n - 1
            invariant
                i < n,
                n == self.protocols@.len(),
                out@.len() == i,
                forall|j: int| 0 <= j < i ==> (#[trigger] out@[j])@ == self.protocols@[j]@,
            decreases n - i,
        {
            out.push(self.protocols[i].duplicate());
            i += 1;
        }
        proof {
            let ps = views(self.protocols@);
            let qs = views(out@);
            assert(qs == ps.drop_last());
            assert(drawn_from(ps, ps));
            assert forall|j: int| 0 <= j < qs.len() implies #[trigger] qs[j] == ps[j] by {
            }
            assert(drawn_from(qs, ps));
            drawn_from_valid(qs, ps);
        }
        Some((id, Multiaddr { protocols: out }))
    }

    /// The address that goes through this one as a relay.
    pub fn with_circuit(&self) -> (r: Multiaddr)
        ensures
            r@ == self@.push(ProtocolView::P2pCircuit),
    {
        proof {
            use_type_invariant(self);
        }
        let mut out: Vec<Protocol> = Vec::new();
        let mut i: usize = 0;
        while i < self.protocols.len()
            invariant
                i <= self.protocols@.len(),
                out@.len() == i,
                forall|j: int| 0 <= j < i ==> (#[trigger] out@[j])@ == self.protocols@[j]@,
            decreases self.protocols@.len() - i,
        {
            out.push(self.protocols[i].duplicate());
            i += 1;
        }
        out.push(Protocol::P2pCircuit);
        proof {
            let ps = views(self.protocols@);
            let qs = views(out@);
            assert(qs == ps.push(ProtocolView::P2pCircuit));
            assert(drawn_from(ps, ps));
            assert forall|j: int| 0 <= j < ps.len() implies #[trigger] qs[j] == ps[j] by {
            }
            assert(drawn_from(qs, ps));
            drawn_from_valid(qs, ps);
        }
        Multiaddr { protocols: out }
    }
}

/// Where the host has an address, the result holds no unspecified IPv4 address, and resolving it
/// once more changes nothing.
pub proof fn law_resolved_is_specified(ps: Seq<ProtocolView>, host: IpAddress)
    requires
        host != IpAddress::V4(0),
    ensures
        forall|i: int|
            0 <= i < ps.len() ==> #[trigger] resolved(ps, Some(host))[i] != ProtocolView::Ip4(0),
        resolved(resolved(ps, Some(host)), Some(host)) == resolved(ps, Some(host)),
        resolved(ps, None) == ps,
{
    assert(resolved(resolved(ps, Some(host)), Some(host)) == resolved(ps, Some(host)));
    assert(resolved(ps, None) == ps);
}

} // verus!
