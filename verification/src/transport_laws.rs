//! Which transports a name asks for, and which addresses stand for them.

use crate::multiaddr::{
    names_ip, names_port, peer_at_end, resolved, uses_quic, uses_relay, uses_tcp, IpAddress,
    ProtocolView,
};
use crate::search::first_where_meaning;
use crate::text::{occurs_at, split_on, trim};
use crate::transport::{
    config_of, fits_hint, hint_bytes, hint_in, hinted, is_base_transport, listed, listen_points,
    prefix_of, preferred, protocol_supported, self_choice, TransportConfig, TransportHint,
    TransportKind,
};
use vstd::prelude::*;
use vstd::utf8::{
    char_u32_cast, codepoint_width_1, decode_utf8, decode_utf8_encode_utf8, encode_scalar, encode_utf8,
    encode_utf8_first_scalar, encode_utf8_valid_utf8, is_ascii_chars,
    is_ascii_chars_encode_utf8, leading_byte_width_1, valid_utf8,
};

verus! {

// ---------------------------------------------------------------------------
//  Addresses
// ---------------------------------------------------------------------------

/// An address uses TCP if it holds a TCP port, QUIC if it holds that component, and a relay if it holds
/// a circuit; it names a host if it holds an IP address of either kind, and a port if it holds one of
/// TCP or UDP. Which number it is does not matter.
pub proof fn law_address_components(ps: Seq<ProtocolView>)
    ensures
        uses_tcp(ps) <==> exists|port: u16| #[trigger] ps.contains(ProtocolView::Tcp(port)),
        uses_quic(ps) <==> ps.contains(ProtocolView::QuicV1),
        uses_relay(ps) <==> ps.contains(ProtocolView::P2pCircuit),
        names_ip(ps) <==> {
            ||| exists|a: u32| #[trigger] ps.contains(ProtocolView::Ip4(a))
            ||| exists|a: u128| #[trigger] ps.contains(ProtocolView::Ip6(a))
        },
        names_port(ps) <==> {
            ||| exists|port: u16| #[trigger] ps.contains(ProtocolView::Tcp(port))
            ||| exists|port: u16| #[trigger] ps.contains(ProtocolView::Udp(port))
        },
{
    if uses_tcp(ps) {
        let i = choose|i: int| 0 <= i < ps.len() && (#[trigger] ps[i]) is Tcp;
        assert(ps.contains(ProtocolView::Tcp(ps[i]->Tcp_0)));
    }
    if uses_quic(ps) {
        let i = choose|i: int| 0 <= i < ps.len() && (#[trigger] ps[i]) is QuicV1;
        assert(ps[i] == ProtocolView::QuicV1);
    }
    if uses_relay(ps) {
        let i = choose|i: int| 0 <= i < ps.len() && (#[trigger] ps[i]) is P2pCircuit;
        assert(ps[i] == ProtocolView::P2pCircuit);
    }
    if names_ip(ps) {
        let i = choose|i: int| 0 <= i < ps.len() && ((#[trigger] ps[i]) is Ip4 || ps[i] is Ip6);
        if ps[i] is Ip4 {
            assert(ps.contains(ProtocolView::Ip4(ps[i]->Ip4_0)));
        } else {
            assert(ps.contains(ProtocolView::Ip6(ps[i]->Ip6_0)));
        }
    }
    if names_port(ps) {
        let i = choose|i: int| 0 <= i < ps.len() && ((#[trigger] ps[i]) is Tcp || ps[i] is Udp);
        if ps[i] is Tcp {
            assert(ps.contains(ProtocolView::Tcp(ps[i]->Tcp_0)));
        } else {
            assert(ps.contains(ProtocolView::Udp(ps[i]->Udp_0)));
        }
    }
    assert forall|p: ProtocolView| #[trigger] ps.contains(p) implies exists|i: int|
        0 <= i < ps.len() && #[trigger] ps[i] == p by {
    }
}

/// An identity at the end of an address is taken off; the rest of the address stays. Without one at the
/// end there is none.
pub proof fn law_identity_at_the_end(ps: Seq<ProtocolView>, id: Seq<u8>)
    ensures
        peer_at_end(ps.push(ProtocolView::P2p(id))) == Some((id, ps)),
        peer_at_end(ps) matches Some((peer, rest)) ==> ps == rest.push(ProtocolView::P2p(peer)),
        peer_at_end(ps) is None ==> forall|rest: Seq<ProtocolView>, peer: Seq<u8>|
            ps != #[trigger] rest.push(ProtocolView::P2p(peer)),
{
    assert(ps.push(ProtocolView::P2p(id)).drop_last() == ps);
    if peer_at_end(ps) is Some {
        assert(ps == ps.drop_last().push(ps.last()));
    }
}

/// Resolving changes nothing of an address but its unspecified IPv4 addresses, and puts the address of
/// the host in the place of each.
pub proof fn law_resolved_by_component(ps: Seq<ProtocolView>, host: Option<IpAddress>, i: int)
    requires
        0 <= i < ps.len(),
    ensures
        resolved(ps, host).len() == ps.len(),
        ps[i] != ProtocolView::Ip4(0) ==> resolved(ps, host)[i] == ps[i],
        ps[i] == ProtocolView::Ip4(0) ==> {
            &&& host is None ==> resolved(ps, host)[i] == ProtocolView::Ip4(0)
            &&& host matches Some(IpAddress::V4(a)) ==> resolved(ps, host)[i] == ProtocolView::Ip4(a)
            &&& host matches Some(IpAddress::V6(a)) ==> resolved(ps, host)[i] == ProtocolView::Ip6(a)
        },
{
}

// ---------------------------------------------------------------------------
//  Names
// ---------------------------------------------------------------------------

/// The transports that a name lists are its pieces between commas, trimmed.
pub proof fn law_listed(name: Seq<char>)
    ensures
        listed(name).len() == split_on(name, ',').len(),
        forall|i: int|
            0 <= i < listed(name).len() ==> #[trigger] listed(name)[i] == trim(split_on(name, ',')[i]),
{
}

/// QUIC and the relay are in use exactly if they are listed, TCP if it is listed or QUIC is not. QUIC
/// is preferred exactly if it stands in the list with no TCP before it. The empty name and the
/// plugin's own stand for TCP alone.
pub proof fn law_transports_in_use(name: Seq<char>)
    ensures
        name.len() == 0 || name == "libp2p"@ ==> config_of(name) == (TransportConfig {
            tcp: true,
            quic: false,
            relay: false,
            priority: TransportKind::Tcp,
        }),
        name.len() > 0 && name != "libp2p"@ ==> {
            let parts = listed(name);
            &&& config_of(name).quic <==> parts.contains("quic"@)
            &&& config_of(name).relay <==> parts.contains("relay"@)
            &&& config_of(name).tcp <==> parts.contains("tcp"@) || !parts.contains("quic"@)
            &&& config_of(name).priority == TransportKind::Quic <==> exists|i: int|
                {
                    &&& 0 <= i < parts.len()
                    &&& #[trigger] parts[i] == "quic"@
                    &&& forall|j: int| 0 <= j < i ==> #[trigger] parts[j] != "tcp"@
                }
        },
{
    reveal_strlit("tcp");
    reveal_strlit("quic");
    let parts = listed(name);
    let p = |part: Seq<char>| is_base_transport(part);
    first_where_meaning(parts, p);
    assert forall|j: int| 0 <= j < parts.len() implies p(#[trigger] parts[j]) == (parts[j] == "tcp"@
        || parts[j] == "quic"@) by {
    }
    assert("tcp"@.len() == 3 && "quic"@.len() == 4);
    let first = crate::search::first_where(parts, p);
    assert(preferred(parts) == TransportKind::Quic ==> first is Some && parts[first->0] == "quic"@);
    if first is Some {
        let i = first->0;
        assert(p(parts[i]));
        assert(parts.contains(parts[i]));
        assert forall|j: int| 0 <= j < i implies #[trigger] parts[j] != "tcp"@ && parts[j]
            != "quic"@ by {
            assert(!p(parts[j]));
        }
    } else {
        assert(!parts.contains("tcp"@) && !parts.contains("quic"@));
    }
}

/// The plugin serves its own name, and every list of nothing but the three transports.
pub proof fn law_served_names(name: Seq<char>)
    ensures
        protocol_supported(name) <==> name == "libp2p"@ || (forall|i: int|
            0 <= i < listed(name).len() ==> {
                ||| #[trigger] listed(name)[i] == "tcp"@
                ||| listed(name)[i] == "quic"@
                ||| listed(name)[i] == "relay"@
            }),
{
}

// ---------------------------------------------------------------------------
//  Listening
// ---------------------------------------------------------------------------

/// There is one address to listen on for each transport in use, TCP first; all are on a port that the
/// system picks. A server's have the unspecified IP address, a client's that of the local host.
pub proof fn law_listen_addresses(config: TransportConfig, listen: bool)
    ensures
        ({
            let points = listen_points(config, listen);
            let ip: u32 = if listen {
                0
            } else {
                2130706433
            };
            &&& config.tcp && config.quic ==> points.len() == 2
            &&& config.tcp != config.quic ==> points.len() == 1
            &&& !config.tcp && !config.quic ==> points.len() == 0
            &&& config.tcp ==> points.first() == seq![ProtocolView::Ip4(ip), ProtocolView::Tcp(0)]
            &&& config.quic ==> points.last() == seq![
                ProtocolView::Ip4(ip),
                ProtocolView::Udp(0),
                ProtocolView::QuicV1,
            ]
        }),
{
}

/// The address fits the hint.
pub open spec fn holds_hinted(ps: Seq<ProtocolView>, hint: TransportHint) -> bool {
    match hint {
        TransportHint::Tcp => exists|port: u16| #[trigger] ps.contains(ProtocolView::Tcp(port)),
        TransportHint::Quic => ps.contains(ProtocolView::QuicV1),
        TransportHint::Relay => ps.contains(ProtocolView::P2pCircuit),
    }
}

/// A hint picks the first address that holds the component it asks for, and none if there is no such
/// address.
pub proof fn law_hinted_address(addrs: Seq<Seq<ProtocolView>>, hint: TransportHint)
    ensures
        hinted(addrs, hint) matches Some(i) ==> {
            &&& 0 <= i < addrs.len()
            &&& holds_hinted(addrs[i], hint)
            &&& forall|j: int| 0 <= j < i ==> !holds_hinted(#[trigger] addrs[j], hint)
        },
        hinted(addrs, hint) is None ==> forall|j: int|
            0 <= j < addrs.len() ==> !holds_hinted(#[trigger] addrs[j], hint),
{
    let p = |ps: Seq<ProtocolView>| fits_hint(ps, hint);
    first_where_meaning(addrs, p);
    assert forall|j: int| 0 <= j < addrs.len() implies p(#[trigger] addrs[j]) == holds_hinted(
        addrs[j],
        hint,
    ) by {
        law_address_components(addrs[j]);
    }
}

/// With a relay the own address is the first one through a relay. If there is none, or without a relay,
/// it is the first one of the preferred transport, and failing that the first of all.
pub proof fn law_own_address(addrs: Seq<Seq<ProtocolView>>, priority: TransportKind, relay: bool)
    ensures
        ({
            let i = self_choice(addrs, priority, relay);
            let wanted = match priority {
                TransportKind::Tcp => TransportHint::Tcp,
                TransportKind::Quic => TransportHint::Quic,
            };
            let through_relay = relay && exists|k: int|
                0 <= k < addrs.len() && holds_hinted(#[trigger] addrs[k], TransportHint::Relay);
            let preferred = exists|k: int|
                0 <= k < addrs.len() && holds_hinted(#[trigger] addrs[k], wanted);
            &&& addrs.len() > 0 ==> 0 <= i < addrs.len()
            &&& through_relay ==> {
                &&& holds_hinted(addrs[i], TransportHint::Relay)
                &&& forall|j: int|
                    0 <= j < i ==> !holds_hinted(#[trigger] addrs[j], TransportHint::Relay)
            }
            &&& !through_relay && preferred ==> {
                &&& holds_hinted(addrs[i], wanted)
                &&& forall|j: int| 0 <= j < i ==> !holds_hinted(#[trigger] addrs[j], wanted)
            }
            &&& !through_relay && !preferred ==> i == 0
        }),
{
    law_hinted_address(addrs, TransportHint::Relay);
    law_hinted_address(addrs, TransportHint::Tcp);
    law_hinted_address(addrs, TransportHint::Quic);
}

/// An address through a relay is named so whatever else it holds, one of QUIC is named so if it goes
/// through no relay, and all others are named after TCP.
pub proof fn law_name_of_transport(ps: Seq<ProtocolView>)
    ensures
        ps.contains(ProtocolView::P2pCircuit) ==> prefix_of(ps) == "relay"@,
        !ps.contains(ProtocolView::P2pCircuit) && ps.contains(ProtocolView::QuicV1) ==> prefix_of(ps)
            == "quic"@,
        !ps.contains(ProtocolView::P2pCircuit) && !ps.contains(ProtocolView::QuicV1) ==> prefix_of(ps)
            == "tcp"@,
{
    law_address_components(ps);
}

// ---------------------------------------------------------------------------
//  Hints
// ---------------------------------------------------------------------------

/// The first character of a text and the first byte of its UTF-8 form, where one of them is ASCII, are
/// the same, and the rest of the form is that of the rest.
proof fn first_of_both(t: Seq<char>)
    requires
        t.len() > 0,
        (t[0] as u32) < 0x80 || encode_utf8(t)[0] < 0x80,
    ensures
        t[0] as u32 == encode_utf8(t)[0] as u32,
        encode_utf8(t).len() > 0,
        encode_utf8(t.drop_first()) == encode_utf8(t).drop_first(),
{
    let c = t[0] as u32;
    encode_utf8_first_scalar(t);
    let h = encode_utf8(t);
    assert(h == encode_scalar(c) + encode_utf8(t.drop_first()));
    if c < 0x80 {
        assert(leading_byte_width_1(c) as u32 == c) by {
            assert((c & 0x7f) as u8 as u32 == c) by (bit_vector)
                requires
                    c < 0x80,
            ;
        }
        assert(h[0] as u32 == c);
    } else {
        let b = h[0];
        assert(codepoint_width_1(b) == b as u32) by {
            assert((b & 0x7f) as u32 == b as u32) by (bit_vector)
                requires
                    b < 0x80,
            ;
        }
        assert(c == b as u32);
    }
    assert(encode_scalar(c).len() == 1);
    assert(h.drop_first() == encode_utf8(t.drop_first()));
}

/// A text starts with an ASCII word exactly if its UTF-8 form starts with the bytes of the word.
proof fn same_start(t: Seq<char>, word: Seq<char>)
    requires
        is_ascii_chars(word),
    ensures
        occurs_at(t, word, 0) <==> {
            &&& word.len() <= encode_utf8(t).len()
            &&& forall|k: int|
                0 <= k < word.len() ==> encode_utf8(t)[k] as u32 == (#[trigger] word[k]) as u32
        },
    decreases word.len(),
{
    let h = encode_utf8(t);
    if word.len() == 0 {
        assert(t.subrange(0, 0) == word);
    } else if t.len() == 0 {
        assert(h.len() == 0);
    } else {
        let w = word.drop_first();
        let u = t.drop_first();
        assert(is_ascii_chars(w)) by {
            assert forall|i: int| 0 <= i < w.len() implies '\0' <= #[trigger] w[i] <= '\u{7f}' by {
                assert(w[i] == word[i + 1]);
            }
        }
        same_start(u, w);
        let both = {
            &&& word.len() <= h.len()
            &&& forall|k: int| 0 <= k < word.len() ==> h[k] as u32 == (#[trigger] word[k]) as u32
        };
        assert('\0' <= word[0] <= '\u{7f}');
        if occurs_at(t, word, 0) {
            let s = t.subrange(0, word.len() as int);
            assert(s[0] == word[0]);
            first_of_both(t);
            assert(u.subrange(0, w.len() as int) == w) by {
                assert(s.drop_first() == w);
                assert(u.subrange(0, w.len() as int) == s.drop_first());
            }
            assert forall|k: int| 0 <= k < word.len() implies h[k] as u32 == (
            #[trigger] word[k]) as u32 by {
                if k > 0 {
                    assert(h.drop_first()[k - 1] == h[k]);
                    assert(w[k - 1] == word[k]);
                }
            }
            assert(both);
        }
        if both {
            assert(h[0] as u32 == word[0] as u32);
            first_of_both(t);
            assert forall|k: int| 0 <= k < w.len() implies h.drop_first()[k] as u32 == (
            #[trigger] w[k]) as u32 by {
                assert(w[k] == word[k + 1]);
            }
            assert(occurs_at(u, w, 0));
            char_u32_cast(t[0], t[0] as u32);
            char_u32_cast(word[0], word[0] as u32);
            assert(t[0] == word[0]);
            assert(t.subrange(0, word.len() as int) == word) by {
                assert forall|k: int| 0 <= k < word.len() implies t[k] == word[k] by {
                    if k > 0 {
                        assert(u.subrange(0, w.len() as int)[k - 1] == w[k - 1]);
                    }
                }
            }
        }
    }
}

/// The bytes that are looked at are the first five of the buffer; from its end, or from the first zero
/// byte on, they count as zero.
pub proof fn law_hint_bytes(buf: Seq<u8>, i: int)
    requires
        0 <= i < 5,
    ensures
        hint_bytes(buf).len() == 5,
        i < buf.len() && (forall|j: int| 0 <= j <= i ==> buf[j] != 0) ==> hint_bytes(buf)[i] == buf[i],
        i >= buf.len() || (exists|j: int| 0 <= j <= i && buf[j] == 0) ==> hint_bytes(buf)[i] == 0,
{
}

/// The buffer starts with these bytes.
pub open spec fn starts(buf: Seq<u8>, bytes: Seq<u8>) -> bool {
    bytes.len() <= buf.len() && forall|k: int| 0 <= k < bytes.len() ==> buf[k] == #[trigger] bytes[k]
}

/// A buffer hints at a transport exactly if it starts with its name in ASCII and the five bytes that
/// are looked at are UTF-8, as they are whenever all of them are ASCII.
pub proof fn law_hint(buf: Seq<u8>)
    ensures
        hint_in(buf) == Some(TransportHint::Quic) <==> valid_utf8(hint_bytes(buf)) && starts(
            buf,
            seq![0x71, 0x75, 0x69, 0x63],
        ),
        hint_in(buf) == Some(TransportHint::Tcp) <==> valid_utf8(hint_bytes(buf)) && starts(
            buf,
            seq![0x74, 0x63, 0x70],
        ),
        hint_in(buf) == Some(TransportHint::Relay) <==> valid_utf8(hint_bytes(buf)) && starts(
            buf,
            seq![0x72, 0x65, 0x6c, 0x61, 0x79],
        ),
        (forall|i: int| 0 <= i < 5 && i < buf.len() ==> #[trigger] buf[i] < 0x80) ==> valid_utf8(
            hint_bytes(buf),
        ),
{
    let h = hint_bytes(buf);
    if forall|i: int| 0 <= i < 5 && i < buf.len() ==> #[trigger] buf[i] < 0x80 {
        let t = Seq::new(5, |i: int| h[i] as char);
        assert forall|i: int| 0 <= i < 5 implies #[trigger] h[i] < 0x80 by {
            if i < buf.len() {
                assert(buf[i] < 0x80);
            }
        }
        assert(is_ascii_chars(t));
        is_ascii_chars_encode_utf8(t);
        assert(encode_utf8(t) =~= h);
        encode_utf8_valid_utf8(t);
    }
    if valid_utf8(h) {
        let t = decode_utf8(h);
        decode_utf8_encode_utf8(h);
        reveal_strlit("tcp");
        reveal_strlit("quic");
        reveal_strlit("relay");
        same_start(t, "tcp"@);
        same_start(t, "quic"@);
        same_start(t, "relay"@);
        names_in_bytes(buf, "tcp"@, seq![0x74, 0x63, 0x70]);
        names_in_bytes(buf, "quic"@, seq![0x71, 0x75, 0x69, 0x63]);
        names_in_bytes(buf, "relay"@, seq![0x72, 0x65, 0x6c, 0x61, 0x79]);
        assert("tcp"@[0] == 't');
        assert("quic"@[0] == 'q');
        assert("relay"@[0] == 'r');
        if occurs_at(t, "quic"@, 0) {
            assert(h[0] == 0x71);
        }
        if occurs_at(t, "tcp"@, 0) {
            assert(h[0] == 0x74);
        }
    }
}

proof fn names_in_bytes(buf: Seq<u8>, word: Seq<char>, bytes: Seq<u8>)
    requires
        word.len() == bytes.len() <= 5,
        forall|k: int| 0 <= k < bytes.len() ==> (#[trigger] word[k]) as u32 == bytes[k] as u32,
        forall|k: int| 0 <= k < bytes.len() ==> #[trigger] bytes[k] != 0,
    ensures
        starts(buf, bytes) <==> (forall|k: int|
            0 <= k < word.len() ==> hint_bytes(buf)[k] as u32 == (#[trigger] word[k]) as u32),
{
    let h = hint_bytes(buf);
    if starts(buf, bytes) {
        assert forall|k: int| 0 <= k < word.len() implies h[k] as u32 == (#[trigger] word[k]) as u32 by {
            assert(buf[k] == bytes[k]);
            assert forall|j: int| 0 <= j <= k implies buf[j] != 0 by {
                assert(buf[j] == bytes[j]);
            }
        }
    }
    if forall|k: int| 0 <= k < word.len() ==> h[k] as u32 == (#[trigger] word[k]) as u32 {
        assert forall|k: int| 0 <= k < bytes.len() implies k < buf.len() && buf[k]
            == #[trigger] bytes[k] by {
            assert(h[k] as u32 == word[k] as u32);
            assert(h[k] == bytes[k]);
        }
        if bytes.len() > 0 {
            assert(bytes[bytes.len() - 1] != 0);
        }
    }
}

} // verus!
