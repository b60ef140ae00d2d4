//! What names and bytes stand for as addresses, and how addresses are shown and stored.

use crate::addr::{
    addr_bytes, addr_bytes_parts, addr_fields, addr_of_bytes, addr_string, addr_text, answers_with,
    known_addr, known_names, last_slash_word, looked_up, name_is_stripped, same_peer,
    short_form_is_taken_apart, shown, transport_text, without_name, without_scheme,
    AddrView, TextReply,
};
use crate::be::{be, be_len};
use crate::command::CommandView;
use crate::fields::{fitting, flat, stored};
use crate::multiaddr::{
    decimal, ip4_text, ip6_text, multiaddr_of_text, multiaddr_text, protocol_text, ProtocolView,
};
use crate::peer::{peer_id_of_bytes, peer_id_of_text, peer_id_text, valid_peer_id};
use crate::status::NaReturn;
use crate::text::{last_occurrence, occurs_at};
use crate::text_laws::law_last_occurrence;
use crate::transport::{hint_in, hinted};
use crate::transport_laws::{law_hinted_address, law_name_of_transport};
use crate::wire_laws::{number2, number_at};
use vstd::prelude::*;
use vstd::utf8::{decode_utf8, encode_utf8, valid_utf8};

verus! {

// ---------------------------------------------------------------------------
//  Names
// ---------------------------------------------------------------------------

/// What may stand before the transport address in a name: a known word with a colon.
pub open spec fn is_lead(lead: Seq<char>) -> bool {
    ||| lead == "tcp:"@
    ||| lead == "quic:"@
    ||| lead == "relay:"@
    ||| lead == "libp2p:"@
    ||| lead == "libp2p+libp2p:"@
}

/// The lookup gives the identity that this text stands for, at the transport address that the other
/// text stands for, if both stand for one; an empty text stands for no transport address.
pub open spec fn finds(found: Option<AddrView>, transport: Seq<char>, peer: Seq<char>) -> bool {
    &&& found is Some <==> peer_id_of_text(peer) is Some && (transport.len() == 0
        || multiaddr_of_text(transport) is Some)
    &&& found matches Some(a) ==> {
        &&& Some(a.peer) == peer_id_of_text(peer)
        &&& transport.len() == 0 ==> a.multiaddr is None
        &&& transport.len() > 0 ==> a.multiaddr == multiaddr_of_text(transport)
        &&& !a.is_self
    }
}

/// A name made of a known word, a colon, a transport address and an identity after `/p2p/` is looked up
/// as that identity at that transport address.
pub proof fn law_lookup_of_full_name(lead: Seq<char>, transport: Seq<char>, peer: Seq<char>)
    requires
        is_lead(lead),
        !peer.contains('/'),
    ensures
        finds(looked_up(lead + transport + "/p2p/"@ + peer), transport, peer),
{
    known_names();
    let rest = transport + "/p2p/"@ + peer;
    let prefix = lead.drop_last();
    assert(lead == prefix + ":"@);
    assert(lead + transport + "/p2p/"@ + peer == prefix + ":"@ + rest);
    assert("tcp:"@.drop_last() == "tcp"@);
    assert("quic:"@.drop_last() == "quic"@);
    assert("relay:"@.drop_last() == "relay"@);
    assert("libp2p:"@.drop_last() == "libp2p"@);
    assert("libp2p+libp2p:"@.drop_last() == "libp2p+libp2p"@);
    name_is_stripped(prefix, rest);
    last_slash_word(transport, peer);
    assert(rest.subrange(0, transport.len() as int) == transport);
    assert(rest.subrange((transport.len() + 5) as int, rest.len() as int) == peer);
}

/// The same without a word before the transport address, of every name that starts with no such word.
pub proof fn law_lookup_of_bare_name(transport: Seq<char>, peer: Seq<char>)
    requires
        forall|lead: Seq<char>, rest: Seq<char>|
            is_lead(lead) ==> transport + "/p2p/"@ + peer != #[trigger] (lead + rest),
        !peer.contains('/'),
    ensures
        finds(looked_up(transport + "/p2p/"@ + peer), transport, peer),
{
    let name = transport + "/p2p/"@ + peer;
    let lead = lead_of(name);
    if lead.len() == 0 {
        assert(without_name(name) == name) by {
            assert(lead + without_name(name) == without_name(name));
        }
    }
    last_slash_word(transport, peer);
    assert(name.subrange(0, transport.len() as int) == transport);
    assert(name.subrange((transport.len() + 5) as int, name.len() as int) == peer);
}

/// So it is of every name that starts with a slash.
pub proof fn law_lookup_of_slash_name(transport: Seq<char>, peer: Seq<char>)
    requires
        transport.len() > 0 ==> transport[0] == '/',
        !peer.contains('/'),
    ensures
        finds(looked_up(transport + "/p2p/"@ + peer), transport, peer),
{
    known_names();
    reveal_strlit("/p2p/");
    let name = transport + "/p2p/"@ + peer;
    assert(name[0] == '/');
    assert forall|lead: Seq<char>, rest: Seq<char>| is_lead(lead) implies name != #[trigger] (lead
        + rest) by {
        assert((lead + rest)[0] == lead[0]);
    }
    law_lookup_of_bare_name(transport, peer);
}

/// An IP address, a colon, a port, a slash and an identity are looked up as that identity behind that
/// TCP port of that host. An IP address with a colon in it is one of version six.
pub proof fn law_lookup_of_socket_name(
    scheme: Seq<char>,
    ip: Seq<char>,
    port: Seq<char>,
    peer: Seq<char>,
)
    requires
        scheme.len() == 0 || scheme == "libp2p://"@ || scheme == "libp2p+libp2p://"@,
        !ip.contains('/'),
        !port.contains('/'),
        !port.contains(':'),
        !peer.contains('/'),
    ensures
        ip.contains(':') ==> finds(
            looked_up(scheme + (ip + ":"@ + port + "/"@ + peer)),
            "/ip6/"@ + ip + "/tcp/"@ + port,
            peer,
        ),
        !ip.contains(':') ==> finds(
            looked_up(scheme + (ip + ":"@ + port + "/"@ + peer)),
            "/ip4/"@ + ip + "/tcp/"@ + port,
            peer,
        ),
{
    short_form_is_taken_apart(scheme, ip, port, peer);
}

/// The parts of a name.
pub struct NameParts {
    /// What stands before the rest.
    pub lead: Seq<char>,
    /// Whether the name has the short form.
    pub short: bool,
    /// The transport address, in the long form.
    pub transport: Seq<char>,
    /// The IP address and the port, in the short form.
    pub ip: Seq<char>,
    pub port: Seq<char>,
    /// The identity.
    pub peer: Seq<char>,
}

proof fn lead_of(name: Seq<char>) -> (lead: Seq<char>)
    ensures
        name == lead + without_name(name),
        lead.len() == 0 || is_lead(lead),
{
    let lead = if occurs_at(name, "tcp:"@, 0) {
        "tcp:"@
    } else if occurs_at(name, "quic:"@, 0) {
        "quic:"@
    } else if occurs_at(name, "relay:"@, 0) {
        "relay:"@
    } else if occurs_at(name, "libp2p:"@, 0) {
        "libp2p:"@
    } else if occurs_at(name, "libp2p+libp2p:"@, 0) {
        "libp2p+libp2p:"@
    } else {
        Seq::empty()
    };
    assert(name == name.subrange(0, lead.len() as int) + name.subrange(
        lead.len() as int,
        name.len() as int,
    ));
    assert(name.subrange(0, name.len() as int) == name);
    assert(name.subrange(0, lead.len() as int) == lead);
    lead
}

proof fn scheme_of(name: Seq<char>) -> (scheme: Seq<char>)
    ensures
        name == scheme + without_scheme(name),
        scheme.len() == 0 || scheme == "libp2p://"@ || scheme == "libp2p+libp2p://"@,
{
    let scheme = if occurs_at(name, "libp2p://"@, 0) {
        "libp2p://"@
    } else if occurs_at(name, "libp2p+libp2p://"@, 0) {
        "libp2p+libp2p://"@
    } else {
        Seq::empty()
    };
    assert(name == name.subrange(0, scheme.len() as int) + name.subrange(
        scheme.len() as int,
        name.len() as int,
    ));
    assert(name.subrange(0, name.len() as int) == name);
    assert(name.subrange(0, scheme.len() as int) == scheme);
    scheme
}

/// Whenever a lookup succeeds the name has one of the two forms, its identity is the one that is found,
/// and its transport address, or the TCP one of its IP address and port, is the one that is found.
/// Nothing that is looked up is this end's own address.
pub proof fn law_lookup_finds_what_is_named(name: Seq<char>) -> (r: NameParts)
    ensures
        looked_up(name) matches Some(a) ==> {
            &&& peer_id_of_text(r.peer) == Some(a.peer)
            &&& !a.is_self
            &&& !r.short ==> {
                &&& name == r.lead + r.transport + "/p2p/"@ + r.peer
                &&& r.lead.len() == 0 || is_lead(r.lead)
                &&& r.transport.len() == 0 ==> a.multiaddr is None
                &&& r.transport.len() > 0 ==> a.multiaddr is Some && a.multiaddr == multiaddr_of_text(
                    r.transport,
                )
            }
            &&& r.short ==> {
                &&& name == r.lead + r.ip + ":"@ + r.port + "/"@ + r.peer
                &&& r.lead.len() == 0 || r.lead == "libp2p://"@ || r.lead == "libp2p+libp2p://"@
                &&& !r.ip.contains('/') && !r.port.contains('/')
                &&& a.multiaddr is Some
                &&& r.ip.contains(':') ==> a.multiaddr == multiaddr_of_text(
                    "/ip6/"@ + r.ip + "/tcp/"@ + r.port,
                )
                &&& !r.ip.contains(':') ==> a.multiaddr == multiaddr_of_text(
                    "/ip4/"@ + r.ip + "/tcp/"@ + r.port,
                )
            }
        },
{
    let input = without_name(name);
    let lead = lead_of(name);
    reveal_strlit("/p2p/");
    reveal_strlit("/");
    reveal_strlit(":");
    reveal_strlit("/ip4/");
    reveal_strlit("/ip6/");
    law_last_occurrence(input, "/p2p/"@);
    match last_occurrence(input, "/p2p/"@) {
        Some(p) => {
            let transport = input.subrange(0, p);
            let peer = input.subrange(p + 5, input.len() as int);
            assert(input.take(p) == transport);
            assert(input.skip(p + 5) == peer);
            assert(name == lead + transport + "/p2p/"@ + peer);
            NameParts {
                lead,
                short: false,
                transport,
                ip: Seq::empty(),
                port: Seq::empty(),
                peer,
            }
        },
        None => {
            let body = without_scheme(name);
            let scheme = scheme_of(name);
            law_last_occurrence(body, "/"@);
            let i = match last_occurrence(body, "/"@) {
                Some(i) => i,
                None => 0,
            };
            let socket = body.subrange(0, i);
            let peer = body.subrange(i + 1, body.len() as int);
            law_last_occurrence(socket, ":"@);
            let j = match last_occurrence(socket, ":"@) {
                Some(j) => j,
                None => 0,
            };
            let ip = socket.subrange(0, j);
            let port = socket.subrange(j + 1, socket.len() as int);
            if looked_up(name) is Some {
                assert(body.take(i) == socket);
                assert(body.skip(i + 1) == peer);
                assert(socket.take(j) == ip);
                assert(socket.skip(j + 1) == port);
                assert(socket == ip + ":"@ + port);
                assert(body == socket + "/"@ + peer);
                assert(name == scheme + ip + ":"@ + port + "/"@ + peer);
                assert(!socket.contains('/'));
                if ip.contains('/') {
                    let k = choose|k: int| 0 <= k < ip.len() && ip[k] == '/';
                    assert(socket[k] == '/');
                }
                if port.contains('/') {
                    let k = choose|k: int| 0 <= k < port.len() && port[k] == '/';
                    assert(socket[j + 1 + k] == '/');
                }
            }
            NameParts { lead: scheme, short: true, transport: Seq::empty(), ip, port, peer }
        },
    }
}

/// Beside an address the network side is told of its transport address, whichever it is, and of the
/// identity that goes with it. Without one it is told nothing.
pub proof fn law_known_addr(a: AddrView)
    ensures
        a.multiaddr matches Some(ps) ==> known_addr(a) == Some(
            CommandView::AddKnownAddr { peer: a.peer, multiaddr: ps },
        ),
        a.multiaddr is None ==> known_addr(a) is None,
{
}

// ---------------------------------------------------------------------------
//  Texts
// ---------------------------------------------------------------------------

/// The text of an address made of two parts is the text of the one before that of the other. Each
/// component has its name and its value; a transport address that is not there has the empty text.
pub proof fn law_address_text(ps: Seq<ProtocolView>, p: ProtocolView)
    ensures
        transport_text(None).len() == 0,
        transport_text(Some(ps)) == multiaddr_text(ps),
        multiaddr_text(ps.push(p)) == multiaddr_text(ps) + protocol_text(p),
        multiaddr_text(Seq::empty()).len() == 0,
        protocol_text(ProtocolView::QuicV1) == "/quic-v1"@,
        protocol_text(ProtocolView::P2pCircuit) == "/p2p-circuit"@,
        p matches ProtocolView::Ip4(a) ==> protocol_text(p) == "/ip4/"@ + ip4_text(a),
        p matches ProtocolView::Ip6(a) ==> protocol_text(p) == "/ip6/"@ + ip6_text(a),
        p matches ProtocolView::Tcp(port) ==> protocol_text(p) == "/tcp/"@ + decimal(port as nat),
        p matches ProtocolView::Udp(port) ==> protocol_text(p) == "/udp/"@ + decimal(port as nat),
        p matches ProtocolView::P2p(id) ==> protocol_text(p) == "/p2p/"@ + peer_id_text(id),
        p matches ProtocolView::Other(text) ==> protocol_text(p) == text,
{
    assert(ps.push(p).drop_last() == ps);
}

/// The text of an IPv4 address are its four bytes in decimal with dots between them.
pub proof fn law_dotted_decimal(a: u8, b: u8, c: u8, d: u8)
    ensures
        ip4_text((a * 0x100_0000 + b * 0x1_0000 + c * 0x100 + d) as u32) == decimal(a as nat) + seq!['.']
            + decimal(b as nat) + seq!['.'] + decimal(c as nat) + seq!['.'] + decimal(d as nat),
{
    let x = (a * 0x100_0000 + b * 0x1_0000 + c * 0x100 + d) as u32;
    assert(x / 0x100_0000 == a);
    assert((x / 0x1_0000) % 256 == b);
    assert((x / 0x100) % 256 == c);
    assert(x % 256 == d);
}

/// An address is shown as the plugin's word, a colon, its transport address as far as there is one, and
/// its identity. Only the own address can be shown otherwise: where the buffer asks for a transport and
/// there is a listen address of that transport, the first such address is shown under the name of its
/// transport.
pub proof fn law_shown_address(
    a: AddrView,
    listen_addrs: Option<Seq<Seq<ProtocolView>>>,
    buf: Option<Seq<u8>>,
)
    ensures
        ({
            let asked = a.is_self && buf is Some && listen_addrs is Some && hint_in(buf->0) is Some
                && hinted(listen_addrs->0, hint_in(buf->0)->0) is Some;
            let tail = "/p2p/"@ + peer_id_text(a.peer);
            &&& !asked && a.multiaddr is None ==> shown(a, listen_addrs, buf) == "libp2p:"@ + tail
            &&& !asked && a.multiaddr is Some ==> shown(a, listen_addrs, buf) == "libp2p:"@
                + multiaddr_text(a.multiaddr->0) + tail
            &&& asked ==> {
                let i = hinted(listen_addrs->0, hint_in(buf->0)->0)->0;
                let ps = (listen_addrs->0)[i];
                &&& 0 <= i < (listen_addrs->0).len()
                &&& ps.contains(ProtocolView::P2pCircuit) ==> shown(a, listen_addrs, buf) == "relay:"@
                    + multiaddr_text(ps) + tail
                &&& !ps.contains(ProtocolView::P2pCircuit) && ps.contains(ProtocolView::QuicV1)
                    ==> shown(a, listen_addrs, buf) == "quic:"@ + multiaddr_text(ps) + tail
                &&& !ps.contains(ProtocolView::P2pCircuit) && !ps.contains(ProtocolView::QuicV1)
                    ==> shown(a, listen_addrs, buf) == "tcp:"@ + multiaddr_text(ps) + tail
            }
        }),
        a.multiaddr is None ==> addr_string(a) == "libp2p:"@ + ("/p2p/"@ + peer_id_text(a.peer)),
        a.multiaddr matches Some(ps) ==> addr_string(a) == "libp2p:"@ + multiaddr_text(ps) + ("/p2p/"@
            + peer_id_text(a.peer)),
{
    known_names();
    let tail = "/p2p/"@ + peer_id_text(a.peer);
    let own = transport_text(a.multiaddr);
    assert(addr_string(a) == "libp2p:"@ + own + tail);
    if a.multiaddr is None {
        assert("libp2p:"@ + own + tail == "libp2p:"@ + tail);
    }
    if a.is_self && buf is Some && listen_addrs is Some && hint_in(buf->0) is Some && hinted(
        listen_addrs->0,
        hint_in(buf->0)->0,
    ) is Some {
        let addrs = listen_addrs->0;
        let hint = hint_in(buf->0)->0;
        law_hinted_address(addrs, hint);
        let ps = addrs[hinted(addrs, hint)->0];
        law_name_of_transport(ps);
        let text = multiaddr_text(ps);
        assert(addr_text("relay"@, text, a.peer) == "relay:"@ + text + tail);
        assert(addr_text("quic"@, text, a.peer) == "quic:"@ + text + tail);
        assert(addr_text("tcp"@, text, a.peer) == "tcp:"@ + text + tail);
    }
}

/// What is shown of an address is looked up as the same peer: at its own transport address, or at the
/// listen address that the buffer asked for.
pub proof fn law_lookup_of_shown(
    a: AddrView,
    listen_addrs: Option<Seq<Seq<ProtocolView>>>,
    buf: Option<Seq<u8>>,
)
    requires
        valid_peer_id(a.peer),
        a.multiaddr matches Some(ps) ==> multiaddr_text(ps).len() > 0 && multiaddr_of_text(
            multiaddr_text(ps),
        ) == Some(ps),
        listen_addrs matches Some(addrs) ==> forall|i: int|
            0 <= i < addrs.len() ==> multiaddr_text(#[trigger] addrs[i]).len() > 0
                && multiaddr_of_text(multiaddr_text(addrs[i])) == Some(addrs[i]),
    ensures
        looked_up(shown(a, listen_addrs, buf)) matches Some(b) && {
            &&& b.peer == a.peer
            &&& !b.is_self
            &&& b.multiaddr == a.multiaddr || (a.is_self && listen_addrs is Some && b.multiaddr is Some
                && (listen_addrs->0).contains(b.multiaddr->0))
            &&& !a.is_self || buf is None || listen_addrs is None ==> b.multiaddr == a.multiaddr
        },
{
    law_shown_address(a, listen_addrs, buf);
    let id = peer_id_text(a.peer);
    let s = shown(a, listen_addrs, buf);
    let asked = a.is_self && buf is Some && listen_addrs is Some && hint_in(buf->0) is Some && hinted(
        listen_addrs->0,
        hint_in(buf->0)->0,
    ) is Some;
    if asked {
        let addrs = listen_addrs->0;
        let i = hinted(addrs, hint_in(buf->0)->0)->0;
        let ps = addrs[i];
        let text = multiaddr_text(ps);
        assert(addrs.contains(ps));
        assert("relay:"@ + text + ("/p2p/"@ + id) == "relay:"@ + text + "/p2p/"@ + id);
        assert("quic:"@ + text + ("/p2p/"@ + id) == "quic:"@ + text + "/p2p/"@ + id);
        assert("tcp:"@ + text + ("/p2p/"@ + id) == "tcp:"@ + text + "/p2p/"@ + id);
        law_lookup_of_full_name("relay:"@, text, id);
        law_lookup_of_full_name("quic:"@, text, id);
        law_lookup_of_full_name("tcp:"@, text, id);
    } else {
        let text = transport_text(a.multiaddr);
        if a.multiaddr is None {
            assert("libp2p:"@ + ("/p2p/"@ + id) == "libp2p:"@ + text + "/p2p/"@ + id);
        } else {
            assert("libp2p:"@ + text + ("/p2p/"@ + id) == "libp2p:"@ + text + "/p2p/"@ + id);
        }
        law_lookup_of_full_name("libp2p:"@, text, id);
    }
}

/// The size that is told is that of the text in bytes and one more. A buffer of that size or more is
/// given the bytes of the text and a zero byte; a smaller one is given nothing, and that is an overflow.
/// Without a buffer only the size is told.
pub proof fn law_text_reply(r: TextReply, text: Seq<char>, buf: Option<Seq<u8>>)
    requires
        answers_with(r, text, buf),
    ensures
        r.size is Some,
        (r.size->0) == encode_utf8(text).len() + 1,
        buf is None ==> r.ret == NaReturn::Success && r.bytes@.len() == 0,
        buf is Some && (buf->0).len() <= encode_utf8(text).len() ==> r.ret == NaReturn::Overflow
            && r.bytes@.len() == 0,
        buf is Some && (buf->0).len() > encode_utf8(text).len() ==> {
            &&& r.ret == NaReturn::Success
            &&& r.bytes@.len() == encode_utf8(text).len() + 1
            &&& r.bytes@.last() == 0
            &&& forall|i: int|
                0 <= i < encode_utf8(text).len() ==> r.bytes@[i] == #[trigger] encode_utf8(text)[i]
        },
{
}

// ---------------------------------------------------------------------------
//  Comparison
// ---------------------------------------------------------------------------

/// Two addresses name the same peer exactly if their identities agree in every byte, or if neither is
/// given.
pub proof fn law_same_identity(x: AddrView, y: AddrView)
    ensures
        same_peer(Some(x), Some(y)) <==> {
            &&& x.peer.len() == y.peer.len()
            &&& forall|i: int| 0 <= i < x.peer.len() ==> #[trigger] x.peer[i] == y.peer[i]
        },
        same_peer(None, None),
        !same_peer(Some(x), None),
        !same_peer(None, Some(x)),
{
    if x.peer.len() == y.peer.len() && (forall|i: int|
        0 <= i < x.peer.len() ==> #[trigger] x.peer[i] == y.peer[i]) {
        assert(x.peer == y.peer);
    }
}

// ---------------------------------------------------------------------------
//  Bytes
// ---------------------------------------------------------------------------

/// A serialized address holds the length of the identity, the identity byte by byte, the length of the
/// text of the transport address, and that text in UTF-8. Where there is no transport address its
/// length is zero and nothing follows. (A length is counted in two bytes.)
pub proof fn law_serialized_address_layout(a: AddrView)
    ensures
        ({
            let b = addr_bytes(a);
            let n = a.peer.len() as int;
            let text = if a.multiaddr is Some {
                encode_utf8(multiaddr_text(a.multiaddr->0))
            } else {
                Seq::empty()
            };
            &&& b.len() == 4 + n + text.len()
            &&& number2(b, 0) == n % 0x1_0000
            &&& forall|i: int| 0 <= i < n ==> b[2 + i] == #[trigger] a.peer[i]
            &&& number2(b, 2 + n) == text.len() % 0x1_0000
            &&& forall|i: int| 0 <= i < text.len() ==> b[4 + n + i] == #[trigger] text[i]
        }),
{
    broadcast use be_len;

    addr_bytes_parts(a);
    let b = addr_bytes(a);
    let n = a.peer.len() as int;
    let text = encode_utf8(transport_text(a.multiaddr));
    if a.multiaddr is None {
        reveal_with_fuel(encode_utf8, 1);
        assert(text == Seq::<u8>::empty());
    }
    assert(b.subrange(0, 2) == be(a.peer.len(), 2));
    assert(b.subrange(2 + n, 4 + n) == be(text.len(), 2));
    number_at(b, 0, a.peer.len());
    number_at(b, 2 + n, text.len());
}

/// In a buffer that is too small for a serialized address its first fields stand, as many as fit
/// whole: none, the length of the identity, the identity too, or all but the text.
pub proof fn law_cut_address(a: AddrView, room: nat)
    ensures
        ({
            let all = addr_bytes(a);
            let part = stored(addr_fields(a), room);
            let n = a.peer.len() as int;
            &&& part.len() <= room
            &&& room < 2 ==> part == all.take(0)
            &&& 2 <= room < 2 + n ==> part == all.take(2)
            &&& 2 + n <= room < 4 + n ==> part == all.take(2 + n)
            &&& 4 + n <= room < all.len() ==> part == all.take(4 + n)
            &&& all.len() <= room ==> part == all
        }),
{
    broadcast use be_len;

    addr_bytes_parts(a);
    let f = addr_fields(a);
    let n = a.peer.len() as int;
    let f3 = f.drop_last();
    let f2 = f3.drop_last();
    let f1 = f2.drop_last();
    reveal_with_fuel(flat, 5);
    reveal_with_fuel(fitting, 5);
    assert(f1.drop_last() == Seq::<Seq<u8>>::empty());
    assert(flat(f1).len() == 2 && flat(f2).len() == 2 + n && flat(f3).len() == 4 + n);
    let all = flat(f);
    assert(f.subrange(0, 0) == Seq::<Seq<u8>>::empty());
    assert(f.subrange(0, 1) == f1);
    assert(f.subrange(0, 2) == f2);
    assert(f.subrange(0, 3) == f3);
    assert(f.subrange(0, 4) == f);
    assert(all.take(0) == Seq::<u8>::empty());
    assert(all.take(2) == flat(f1));
    assert(all.take(2 + n) == flat(f2));
    assert(all.take(4 + n) == flat(f3));
}

/// Bytes are read as an address exactly where the identity and the text that they tell the lengths of
/// are there, and stand for an identity and a transport address. A text of no length stands for no
/// transport address.
pub proof fn law_address_read_from_bytes(data: Seq<u8>)
    ensures
        addr_of_bytes(data) is Some <==> {
            let n = number2(data, 0) as int;
            let m = number2(data, 2 + n) as int;
            let text = data.subrange(4 + n, 4 + n + m);
            &&& data.len() >= 4 + n
            &&& peer_id_of_bytes(data.subrange(2, 2 + n)) is Some
            &&& m > 0 ==> {
                &&& data.len() >= 4 + n + m
                &&& valid_utf8(text)
                &&& multiaddr_of_text(decode_utf8(text)) is Some
            }
        },
        addr_of_bytes(data) matches Some(a) ==> {
            let n = number2(data, 0) as int;
            let m = number2(data, 2 + n) as int;
            &&& Some(a.peer) == peer_id_of_bytes(data.subrange(2, 2 + n))
            &&& m == 0 ==> a.multiaddr is None
            &&& m > 0 ==> a.multiaddr == multiaddr_of_text(
                decode_utf8(data.subrange(4 + n, 4 + n + m)),
            )
            &&& !a.is_self
        },
{
    if data.len() >= 2 {
        number_at(data, 0, 0);
        let n = number2(data, 0) as int;
        number_at(data, 2 + n, 0);
    }
}

} // verus!
