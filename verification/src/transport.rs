//! Which transports are in use, and which of the listen addresses is shown to others.

use crate::multiaddr::{
    decimal, ip4_text, multiaddr_text, resolved, uses_quic, uses_relay, uses_tcp, IpAddress,
    Multiaddr, ProtocolView,
};
use crate::search::{first_where, first_where_is, first_where_meaning, first_where_none};
use crate::text::{
    equal_texts, occurs_at, same_text, split_and_trim, split_is_never_empty, starts_with, texts,
    trimmed_pieces,
};
use vstd::prelude::*;
use vstd::utf8::{decode_utf8, valid_utf8};

verus! {

/// The transport that is preferred.
#[derive(Debug, Clone, Copy, PartialEq, Eq, Structural)]
pub enum TransportKind {
    Tcp,
    Quic,
}

/// The transports that are in use.
#[derive(Debug, Clone, Copy, PartialEq, Eq, Structural)]
pub struct TransportConfig {
    pub tcp: bool,
    pub quic: bool,
    /// Peers are reached through a relay server as well.
    pub relay: bool,
    pub priority: TransportKind,
}

/// TCP alone.
pub open spec fn tcp_only() -> TransportConfig {
    TransportConfig { tcp: true, quic: false, relay: false, priority: TransportKind::Tcp }
}

/// The transports that a protocol name lists: its parts between commas, without white space around
/// them.
pub open spec fn listed(protocol_name: Seq<char>) -> Seq<Seq<char>> {
    trimmed_pieces(protocol_name, ',')
}

/// The configuration that a protocol name stands for.
pub open spec fn config_of(protocol_name: Seq<char>) -> TransportConfig {
    let parts = listed(protocol_name);
    let tcp = parts.contains("tcp"@);
    let quic = parts.contains("quic"@);
    let relay = parts.contains("relay"@);
    if protocol_name.len() == 0 || protocol_name == "libp2p"@ {
        tcp_only()
    } else if !tcp && !quic {
        TransportConfig { relay, ..tcp_only() }
    } else {
        TransportConfig {
            tcp,
            quic,
            relay,
            priority: preferred(parts),
        }
    }
}

/// TCP or QUIC, as opposed to what else a protocol name may list.
pub open spec fn is_base_transport(part: Seq<char>) -> bool {
    part == "tcp"@ || part == "quic"@
}

/// The preferred transport: the first one that is listed.
pub open spec fn preferred(parts: Seq<Seq<char>>) -> TransportKind {
    match first_where(parts, |part: Seq<char>| is_base_transport(part)) {
        Some(i) => if parts[i] == "quic"@ {
            TransportKind::Quic
        } else {
            TransportKind::Tcp
        },
        None => TransportKind::Tcp,
    }
}

/// The first of the listed transports.
fn first_transport(parts: &Vec<Vec<char>>) -> (r: TransportKind)
    ensures
        r == preferred(texts(parts@)),
{
    let ghost all = texts(parts@);
    let ghost p = |part: Seq<char>| is_base_transport(part);
    let mut i: usize = 0;
    proof {
        reveal_strlit("tcp");
        reveal_strlit("quic");
    }
    while i < parts.len()
        invariant
            i <= parts@.len(),
            all == texts(parts@),
            p == (|part: Seq<char>| is_base_transport(part)),
            "tcp"@.len() == 3,
            "quic"@.len() == 4,
            forall|j: int| 0 <= j < i ==> !p(#[trigger] all[j]),
        decreases parts@.len() - i,
    {
        assert(all[i as int] == parts@[i as int]@);
        if same_text(&parts[i], "quic") {
            proof {
                first_where_is(all, p, i as int);
            }
            return TransportKind::Quic;
        }
        if same_text(&parts[i], "tcp") {
            proof {
                first_where_is(all, p, i as int);
            }
            return TransportKind::Tcp;
        }
        i += 1;
    }
    proof {
        first_where_none(all, p);
    }
    TransportKind::Tcp
}

/// Whether a list of texts holds a text.
fn lists(parts: &Vec<Vec<char>>, name: &str) -> (r: bool)
    ensures
        r == texts(parts@).contains(name@),
{
    let mut i: usize = 0;
    while i < parts.len()
        invariant
            i <= parts@.len(),
            forall|j: int| 0 <= j < i ==> texts(parts@)[j] != name@,
        decreases parts@.len() - i,
    {
        assert(texts(parts@)[i as int] == parts@[i as int]@);
        if same_text(&parts[i], name) {
            return true;
        }
        i += 1;
    }
    assert(!texts(parts@).contains(name@));
    false
}

/// Reads a protocol name as a transport configuration.
pub fn parse_transport_config(protocol_name: &str) -> (r: TransportConfig)
    ensures
        r == config_of(protocol_name@),
{
    if protocol_name.is_empty() || equal_texts(protocol_name, "libp2p") {
        return TransportConfig { tcp: true, quic: false, relay: false, priority: TransportKind::Tcp };
    }
    let parts = split_and_trim(protocol_name, ',');
    let tcp = lists(&parts, "tcp");
    let quic = lists(&parts, "quic");
    let relay = lists(&parts, "relay");
    if !tcp && !quic {
        return TransportConfig { tcp: true, quic: false, relay, priority: TransportKind::Tcp };
    }
    TransportConfig { tcp, quic, relay, priority: first_transport(&parts) }
}

/// The names of the transports.
pub open spec fn is_transport_name(s: Seq<char>) -> bool {
    s == "tcp"@ || s == "quic"@ || s == "relay"@
}

/// The protocol names that the plugin serves.
pub open spec fn protocol_supported(name: Seq<char>) -> bool {
    ||| name == "libp2p"@
    ||| forall|i: int| 0 <= i < listed(name).len() ==> is_transport_name(#[trigger] listed(name)[i])
}

/// Whether the plugin serves a protocol name.
pub fn check_protocol(protocol_name: &str) -> (r: bool)
    ensures
        r == protocol_supported(protocol_name@),
{
    if equal_texts(protocol_name, "libp2p") {
        return true;
    }
    let parts = split_and_trim(protocol_name, ',');
    let mut i: usize = 0;
    while i < parts.len()
        invariant
            i <= parts@.len(),
            texts(parts@) == listed(protocol_name@),
            protocol_name@ != "libp2p"@,
            forall|j: int| 0 <= j < i ==> is_transport_name(#[trigger] listed(protocol_name@)[j]),
        decreases parts@.len() - i,
    {
        assert(texts(parts@)[i as int] == parts@[i as int]@);
        if !same_text(&parts[i], "tcp") && !same_text(&parts[i], "quic") && !same_text(
            &parts[i],
            "relay",
        ) {
            assert(!is_transport_name(listed(protocol_name@)[i as int]));
            return false;
        }
        i += 1;
    }
    true
}

/// Whatever the protocol name, some transport is in use, and the preferred one is; QUIC and the relay
/// are in use only if they are listed. Of a name that the plugin serves, everything that is
/// listed is in use.
pub proof fn law_some_transport(name: Seq<char>)
    ensures
        config_of(name).tcp || config_of(name).quic,
        config_of(name).quic ==> listed(name).contains("quic"@),
        config_of(name).relay ==> listed(name).contains("relay"@),
        config_of(name).priority == TransportKind::Quic ==> config_of(name).quic,
        config_of(name).priority == TransportKind::Tcp ==> config_of(name).tcp,
        protocol_supported(name) && name != "libp2p"@ ==> {
            &&& listed(name).contains("tcp"@) ==> config_of(name).tcp
            &&& listed(name).contains("quic"@) ==> config_of(name).quic
            &&& listed(name).contains("relay"@) ==> config_of(name).relay
        },
{
    let parts = listed(name);
    let p = |part: Seq<char>| is_base_transport(part);
    split_is_never_empty(name, ',');
    if name.len() == 0 {
        reveal_strlit("tcp");
        reveal_strlit("quic");
        reveal_strlit("relay");
        assert(parts[0].len() == 0);
    }
    first_where_meaning(parts, p);
    match first_where(parts, p) {
        Some(i) => {
            assert(p(parts[i]));
            assert(parts.contains(parts[i]));
        },
        None => {
            if parts.contains("tcp"@) {
                let i = choose|i: int| 0 <= i < parts.len() && parts[i] == "tcp"@;
                assert(p(parts[i]));
            }
            if parts.contains("quic"@) {
                let i = choose|i: int| 0 <= i < parts.len() && parts[i] == "quic"@;
                assert(p(parts[i]));
            }
        },
    }
}

/// The addresses to listen on: one for each transport, on a port that the system picks. A server
/// listens on every interface, a client on the local one only.
pub open spec fn listen_points(config: TransportConfig, listen: bool) -> Seq<Seq<ProtocolView>> {
    let ip = ProtocolView::Ip4(
        if listen {
            0
        } else {
            0x7f00_0001
        },
    );
    (if config.tcp {
        seq![seq![ip, ProtocolView::Tcp(0)]]
    } else {
        Seq::empty()
    }) + (if config.quic {
        seq![seq![ip, ProtocolView::Udp(0), ProtocolView::QuicV1]]
    } else {
        Seq::empty()
    })
}

/// The views of a list of addresses.
pub open spec fn address_views(addrs: Seq<Multiaddr>) -> Seq<Seq<ProtocolView>> {
    addrs.map_values(|a: Multiaddr| a@)
}

/// The texts of the addresses to listen on.
proof fn listen_texts()
    ensures
        "/ip4/0.0.0.0/tcp/0"@ == multiaddr_text(seq![ProtocolView::Ip4(0), ProtocolView::Tcp(0)]),
        "/ip4/127.0.0.1/tcp/0"@ == multiaddr_text(
            seq![ProtocolView::Ip4(0x7f00_0001), ProtocolView::Tcp(0)],
        ),
        "/ip4/0.0.0.0/udp/0/quic-v1"@ == multiaddr_text(
            seq![ProtocolView::Ip4(0), ProtocolView::Udp(0), ProtocolView::QuicV1],
        ),
        "/ip4/127.0.0.1/udp/0/quic-v1"@ == multiaddr_text(
            seq![ProtocolView::Ip4(0x7f00_0001), ProtocolView::Udp(0), ProtocolView::QuicV1],
        ),
{
    reveal_strlit("/ip4/0.0.0.0/tcp/0");
    reveal_strlit("/ip4/127.0.0.1/tcp/0");
    reveal_strlit("/ip4/0.0.0.0/udp/0/quic-v1");
    reveal_strlit("/ip4/127.0.0.1/udp/0/quic-v1");
    reveal_strlit("/ip4/");
    reveal_strlit("/tcp/");
    reveal_strlit("/udp/");
    reveal_strlit("/quic-v1");
    local_addresses();
    reveal_with_fuel(multiaddr_text, 4);
    let any = seq![ProtocolView::Ip4(0)];
    let own = seq![ProtocolView::Ip4(0x7f00_0001)];
    assert(any.drop_last() == Seq::<ProtocolView>::empty());
    assert(own.drop_last() == Seq::<ProtocolView>::empty());
    assert(multiaddr_text(any) == "/ip4/"@ + ip4_text(0));
    assert(multiaddr_text(own) == "/ip4/"@ + ip4_text(0x7f00_0001));
    let any_tcp = seq![ProtocolView::Ip4(0), ProtocolView::Tcp(0)];
    let own_tcp = seq![ProtocolView::Ip4(0x7f00_0001), ProtocolView::Tcp(0)];
    assert(any_tcp.drop_last() == any);
    assert(own_tcp.drop_last() == own);
    assert("/ip4/0.0.0.0/tcp/0"@ == multiaddr_text(any_tcp));
    assert("/ip4/127.0.0.1/tcp/0"@ == multiaddr_text(own_tcp));
    let any_udp = seq![ProtocolView::Ip4(0), ProtocolView::Udp(0)];
    let own_udp = seq![ProtocolView::Ip4(0x7f00_0001), ProtocolView::Udp(0)];
    assert(any_udp.drop_last() == any);
    assert(own_udp.drop_last() == own);
    let any_quic = seq![ProtocolView::Ip4(0), ProtocolView::Udp(0), ProtocolView::QuicV1];
    let own_quic = seq![ProtocolView::Ip4(0x7f00_0001), ProtocolView::Udp(0), ProtocolView::QuicV1];
    assert(any_quic.drop_last() == any_udp);
    assert(own_quic.drop_last() == own_udp);
    assert("/ip4/0.0.0.0/udp/0/quic-v1"@ == multiaddr_text(any_quic));
    assert("/ip4/127.0.0.1/udp/0/quic-v1"@ == multiaddr_text(own_quic));
}

proof fn local_addresses()
    ensures
        ip4_text(0) == seq!['0', '.', '0', '.', '0', '.', '0'],
        ip4_text(0x7f00_0001) == seq!['1', '2', '7', '.', '0', '.', '0', '.', '1'],
        decimal(0) == seq!['0'],
{
    reveal_with_fuel(decimal, 4);
    assert(decimal(0) == seq!['0']);
    assert(decimal(1) == seq!['1']);
    assert(decimal(12) == seq!['1', '2']);
    assert(decimal(127) == seq!['1', '2', '7']);
    assert(ip4_text(0) == seq!['0', '.', '0', '.', '0', '.', '0']);
    assert(ip4_text(0x7f00_0001) == seq!['1', '2', '7', '.', '0', '.', '0', '.', '1']);
}

/// The addresses to listen on.
pub fn listen_addresses(config: &TransportConfig, listen: bool) -> (r: Vec<Multiaddr>)
    ensures
        address_views(r@) == listen_points(*config, listen),
{
    let mut addrs: Vec<Multiaddr> = Vec::new();
    proof {
        listen_texts();
    }
    if config.tcp {
        let text = if listen {
            "/ip4/0.0.0.0/tcp/0"
        } else {
            "/ip4/127.0.0.1/tcp/0"
        };
        addrs.push(Multiaddr::parse(text).unwrap());
    }
    if config.quic {
        let text = if listen {
            "/ip4/0.0.0.0/udp/0/quic-v1"
        } else {
            "/ip4/127.0.0.1/udp/0/quic-v1"
        };
        addrs.push(Multiaddr::parse(text).unwrap());
    }
    assert(address_views(addrs@) == listen_points(*config, listen));
    addrs
}

/// A transport that the caller asks for by a hint.
#[derive(Debug, Clone, Copy, PartialEq, Eq, Structural)]
pub enum TransportHint {
    Tcp,
    Quic,
    Relay,
}

/// The address is of the transport that the hint asks for.
pub open spec fn fits_hint(ps: Seq<ProtocolView>, hint: TransportHint) -> bool {
    match hint {
        TransportHint::Tcp => uses_tcp(ps),
        TransportHint::Quic => uses_quic(ps),
        TransportHint::Relay => uses_relay(ps),
    }
}

/// Which of the addresses fits the hint: the first one that does.
pub open spec fn hinted(addrs: Seq<Seq<ProtocolView>>, hint: TransportHint) -> Option<int> {
    first_where(addrs, |ps: Seq<ProtocolView>| fits_hint(ps, hint))
}

fn position_for_hint(addrs: &Vec<Multiaddr>, hint: TransportHint) -> (r: Option<usize>)
    ensures
        (match r {
            Some(i) => Some(i as int),
            None => None,
        }) == hinted(address_views(addrs@), hint),
        r matches Some(i) ==> i < addrs@.len(),
{
    let ghost views = address_views(addrs@);
    let ghost p = |ps: Seq<ProtocolView>| fits_hint(ps, hint);
    let mut i: usize = 0;
    while i < addrs.len()
        invariant
            i <= addrs@.len(),
            views == address_views(addrs@),
            p == (|ps: Seq<ProtocolView>| fits_hint(ps, hint)),
            forall|j: int| 0 <= j < i ==> !p(#[trigger] views[j]),
        decreases addrs@.len() - i,
    {
        let fits = match hint {
            TransportHint::Tcp => addrs[i].has_tcp(),
            TransportHint::Quic => addrs[i].has_quic(),
            TransportHint::Relay => addrs[i].has_circuit(),
        };
        assert(views[i as int] == addrs@[i as int]@);
        if fits {
            proof {
                first_where_is(views, p, i as int);
            }
            return Some(i);
        }
        i += 1;
    }
    proof {
        first_where_none(views, p);
    }
    None
}

/// The listen address of the transport that the hint asks for.
pub fn find_listen_addr_for_hint(listen_addrs: &Vec<Multiaddr>, hint: TransportHint) -> (r: Option<
    Multiaddr,
>)
    ensures
        match hinted(address_views(listen_addrs@), hint) {
            Some(i) => r matches Some(m) && 0 <= i < listen_addrs@.len() && m@ == listen_addrs@[i]@,
            None => r is None,
        },
{
    match position_for_hint(listen_addrs, hint) {
        Some(i) => Some(listen_addrs[i].duplicate()),
        None => None,
    }
}

/// Which of the addresses a peer shows as its own. With a relay it is the address through the relay,
/// if there is one; otherwise the first of the preferred transport; failing that, the first.
pub open spec fn self_choice(
    addrs: Seq<Seq<ProtocolView>>,
    priority: TransportKind,
    relay: bool,
) -> int {
    let preferred = hinted(
        addrs,
        match priority {
            TransportKind::Tcp => TransportHint::Tcp,
            TransportKind::Quic => TransportHint::Quic,
        },
    );
    if relay && hinted(addrs, TransportHint::Relay) is Some {
        hinted(addrs, TransportHint::Relay)->0
    } else if preferred is Some {
        preferred->0
    } else {
        0
    }
}

/// With a relay, a peer shows an address through it as its own whenever there is one; otherwise one
/// of the preferred transport whenever there is one.
pub proof fn law_preferred_address_is_shown(
    addrs: Seq<Seq<ProtocolView>>,
    priority: TransportKind,
    relay: bool,
    k: int,
)
    requires
        0 <= k < addrs.len(),
    ensures
        ({
            let i = self_choice(addrs, priority, relay);
            &&& 0 <= i < addrs.len()
            &&& relay && uses_relay(addrs[k]) ==> uses_relay(addrs[i])
            &&& !relay && priority == TransportKind::Tcp && uses_tcp(addrs[k]) ==> uses_tcp(addrs[i])
            &&& !relay && priority == TransportKind::Quic && uses_quic(addrs[k]) ==> uses_quic(
                addrs[i],
            )
        }),
{
    let tcp = |ps: Seq<ProtocolView>| fits_hint(ps, TransportHint::Tcp);
    let quic = |ps: Seq<ProtocolView>| fits_hint(ps, TransportHint::Quic);
    let circuit = |ps: Seq<ProtocolView>| fits_hint(ps, TransportHint::Relay);
    first_where_meaning(addrs, tcp);
    first_where_meaning(addrs, quic);
    first_where_meaning(addrs, circuit);
    assert(tcp(addrs[k]) == uses_tcp(addrs[k]));
    assert(quic(addrs[k]) == uses_quic(addrs[k]));
    assert(circuit(addrs[k]) == uses_relay(addrs[k]));
}

/// Picks the address that a peer shows as its own, with the address of the host in place of
/// `0.0.0.0`.
pub fn resolve_self_multiaddr(
    resolved_addrs: &Vec<Multiaddr>,
    priority: TransportKind,
    relay: bool,
    host: Option<IpAddress>,
) -> (r: Multiaddr)
    requires
        resolved_addrs@.len() > 0,
    ensures
        ({
            let i = self_choice(address_views(resolved_addrs@), priority, relay);
            &&& 0 <= i < resolved_addrs@.len()
            &&& r@ == resolved(resolved_addrs@[i]@, host)
        }),
{
    if relay {
        if let Some(i) = position_for_hint(resolved_addrs, TransportHint::Relay) {
            return resolved_addrs[i].resolve(host);
        }
    }
    let hint = match priority {
        TransportKind::Tcp => TransportHint::Tcp,
        TransportKind::Quic => TransportHint::Quic,
    };
    match position_for_hint(resolved_addrs, hint) {
        Some(i) => resolved_addrs[i].resolve(host),
        None => resolved_addrs[0].resolve(host),
    }
}

/// All listen addresses with the address of the host in place of `0.0.0.0`.
pub fn resolve_listen_addrs(resolved_addrs: &Vec<Multiaddr>, host: Option<IpAddress>) -> (r: Vec<
    Multiaddr,
>)
    ensures
        r@.len() == resolved_addrs@.len(),
        forall|i: int|
            0 <= i < r@.len() ==> (#[trigger] r@[i])@ == resolved(resolved_addrs@[i]@, host),
{
    let mut out: Vec<Multiaddr> = Vec::new();
    let mut i: usize = 0;
    while i < resolved_addrs.len()
        invariant
            i <= resolved_addrs@.len(),
            out@.len() == i,
            forall|j: int|
                0 <= j < i ==> (#[trigger] out@[j])@ == resolved(resolved_addrs@[j]@, host),
        decreases resolved_addrs@.len() - i,
    {
        out.push(resolved_addrs[i].resolve(host));
        i += 1;
    }
    out
}

/// The name of the transport of an address.
pub open spec fn prefix_of(ps: Seq<ProtocolView>) -> Seq<char> {
    if uses_relay(ps) {
        "relay"@
    } else if uses_quic(ps) {
        "quic"@
    } else {
        "tcp"@
    }
}

/// The name of the transport of an address.
pub fn transport_prefix_for_multiaddr(ma: &Multiaddr) -> (r: &'static str)
    ensures
        r@ == prefix_of(ma@),
{
    if ma.has_circuit() {
        "relay"
    } else if ma.has_quic() {
        "quic"
    } else {
        "tcp"
    }
}

/// The five bytes in which a hint is looked for: the start of the buffer up to a zero byte, filled
/// up with zero bytes.
pub open spec fn hint_bytes(buf: Seq<u8>) -> Seq<u8> {
    Seq::new(5, |i: int|
        if i < buf.len() && forall|j: int| 0 <= j <= i ==> buf[j] != 0 {
            buf[i]
        } else {
            0
        })
}

/// The hint at the start of a buffer, if there is one: the name of a transport, where the bytes that
/// are looked at are a text at all.
pub open spec fn hint_in(buf: Seq<u8>) -> Option<TransportHint> {
    let h = hint_bytes(buf);
    let text = decode_utf8(h);
    if !valid_utf8(h) {
        None
    } else if occurs_at(text, "quic"@, 0) {
        Some(TransportHint::Quic)
    } else if occurs_at(text, "tcp"@, 0) {
        Some(TransportHint::Tcp)
    } else if occurs_at(text, "relay"@, 0) {
        Some(TransportHint::Relay)
    } else {
        None
    }
}

/// Reads a transport hint from the start of a buffer.
pub fn read_transport_hint(buf: &[u8]) -> (r: Option<TransportHint>)
    ensures
        r == hint_in(buf@),
{
    let mut bytes: Vec<u8> = Vec::new();
    let mut live = true;
    let mut i: usize = 0;
    let ghost h = hint_bytes(buf@);
    while i < 5
        invariant
            i <= 5,
            bytes@.len() == i,
            h == hint_bytes(buf@),
            live <==> (i <= buf@.len() && forall|j: int| 0 <= j < i ==> buf@[j] != 0),
            forall|j: int| 0 <= j < i ==> bytes@[j] == h[j],
        decreases 5 - i,
    {
        if live && i < buf.len() && buf[i] != 0 {
            bytes.push(buf[i]);
        } else {
            live = false;
            bytes.push(0);
        }
        i += 1;
    }
    assert(bytes@ == h);
    match utf8_text(bytes.as_slice()) {
        None => None,
        Some(text) => if starts_with(text.as_str(), "quic") {
            Some(TransportHint::Quic)
        } else if starts_with(text.as_str(), "tcp") {
            Some(TransportHint::Tcp)
        } else if starts_with(text.as_str(), "relay") {
            Some(TransportHint::Relay)
        } else {
            None
        },
    }
}

/// What a byte string reads as, if it is UTF-8.
pub open spec fn utf8_reading(v: Seq<u8>) -> Option<Seq<char>> {
    if valid_utf8(v) {
        Some(decode_utf8(v))
    } else {
        None
    }
}

/// The view of an optional text.
pub open spec fn text_view(t: Option<String>) -> Option<Seq<char>> {
    match t {
        Some(s) => Some(s@),
        None => None,
    }
}

/// Calls `std::str::from_utf8`.
///
/// Claimed: it accepts exactly the valid UTF-8 byte strings, and the text holds the characters that
/// they encode.
#[verifier::external_body]
pub(crate) fn utf8_text(v: &[u8]) -> (r: Option<String>)
    ensures
        text_view(r) == utf8_reading(v@),
{
    std::str::from_utf8(v).ok().map(|s| s.to_string())
}

} // verus!
