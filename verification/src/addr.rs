//! Addresses of peers: an identity and, where it is known, a way to reach it.

use crate::be::{be, be_len, from_be, from_be_of_be, get_be, pow256_values, put_be};
use crate::command::{command_view, Command, CommandView};
use crate::fields::{all_fit, byte_views, flat, stored, write_fields};
use crate::multiaddr::{
    multiaddr_of_text, multiaddr_text, multiaddr_view, valid_multiaddr, Multiaddr, ProtocolView,
};
use crate::peer::{peer_id_of_bytes, peer_id_of_text, peer_id_text, valid_peer_id, PeerId};
use crate::protocol::append_bytes;
use crate::status::NaReturn;
use crate::text::{
    char_count, is_last_occurrence, last_occurrence, last_occurrence_is, occurs_at, piece, rfind,
    strip_prefix, without_prefix,
};
use crate::transport::{
    address_views, find_listen_addr_for_hint, hint_in, hinted, prefix_of, read_transport_hint,
    transport_prefix_for_multiaddr, utf8_reading, utf8_text,
};
use vstd::prelude::*;
use vstd::slice::slice_subrange;
use vstd::string::StringExecFns;
use vstd::utf8::{encode_utf8, encode_utf8_decode_utf8, encode_utf8_valid_utf8};

verus! {

/// The address of a peer.
#[derive(Debug, PartialEq, Eq)]
pub struct NaLibp2pAddr {
    pub peer_id: PeerId,
    /// The transport address, without the identity at its end. A peer known only by a connection
    /// that it opened has none.
    pub multiaddr: Option<Multiaddr>,
    pub is_self: bool,
}

/// The address of a peer, as a mathematical value.
pub struct AddrView {
    pub peer: Seq<u8>,
    pub multiaddr: Option<Seq<ProtocolView>>,
    pub is_self: bool,
}

impl View for NaLibp2pAddr {
    type V = AddrView;

    open spec fn view(&self) -> AddrView {
        AddrView {
            peer: self.peer_id@,
            multiaddr: multiaddr_view(self.multiaddr),
            is_self: self.is_self,
        }
    }
}

/// The view of an optional address.
pub open spec fn addr_view(a: Option<NaLibp2pAddr>) -> Option<AddrView> {
    match a {
        Some(x) => Some(x@),
        None => None,
    }
}

/// The view of an optional reference to an address.
pub open spec fn addr_ref_view(a: Option<&NaLibp2pAddr>) -> Option<AddrView> {
    match a {
        Some(x) => Some(x@),
        None => None,
    }
}

/// What holds of the parts of every address.
pub open spec fn valid_addr(a: AddrView) -> bool {
    &&& valid_peer_id(a.peer)
    &&& a.multiaddr matches Some(ps) ==> valid_multiaddr(ps)
}

// ---------------------------------------------------------------------------
//  Texts
// ---------------------------------------------------------------------------

/// The text of a transport address, which is empty where there is none.
pub open spec fn transport_text(multiaddr: Option<Seq<ProtocolView>>) -> Seq<char> {
    match multiaddr {
        Some(ps) => multiaddr_text(ps),
        None => Seq::empty(),
    }
}

/// A name, a colon, a transport address, and the identity of the peer.
pub open spec fn addr_text(prefix: Seq<char>, transport: Seq<char>, peer: Seq<u8>) -> Seq<char> {
    prefix + ":"@ + transport + "/p2p/"@ + peer_id_text(peer)
}

/// The names that may stand before the colon.
pub open spec fn is_name_prefix(prefix: Seq<char>) -> bool {
    ||| prefix == "tcp"@
    ||| prefix == "quic"@
    ||| prefix == "relay"@
    ||| prefix == "libp2p"@
    ||| prefix == "libp2p+libp2p"@
}

/// A name without the part up to the colon, where that part is known.
pub open spec fn without_name(name: Seq<char>) -> Seq<char> {
    match strip_prefix(name, "tcp:"@) {
        Some(s) => s,
        None => match strip_prefix(name, "quic:"@) {
            Some(s) => s,
            None => match strip_prefix(name, "relay:"@) {
                Some(s) => s,
                None => match strip_prefix(name, "libp2p:"@) {
                    Some(s) => s,
                    None => match strip_prefix(name, "libp2p+libp2p:"@) {
                        Some(s) => s,
                        None => name,
                    },
                },
            },
        },
    }
}

/// A name in the short form without what may stand before the IP address.
pub open spec fn without_scheme(name: Seq<char>) -> Seq<char> {
    match strip_prefix(name, "libp2p://"@) {
        Some(s) => s,
        None => match strip_prefix(name, "libp2p+libp2p://"@) {
            Some(s) => s,
            None => name,
        },
    }
}

/// The address with this transport address and this identity, both given as texts.
pub open spec fn addr_of_parts(transport: Seq<char>, peer: Seq<char>) -> Option<AddrView> {
    match peer_id_of_text(peer) {
        None => None,
        Some(id) => if transport.len() == 0 {
            Some(AddrView { peer: id, multiaddr: None, is_self: false })
        } else {
            match multiaddr_of_text(transport) {
                None => None,
                Some(ps) => Some(AddrView { peer: id, multiaddr: Some(ps), is_self: false }),
            }
        },
    }
}

/// The TCP transport address of an IP address and a port.
pub open spec fn socket_text(ip: Seq<char>, port: Seq<char>) -> Seq<char> {
    (if ip.contains(':') {
        "/ip6/"@
    } else {
        "/ip4/"@
    }) + ip + "/tcp/"@ + port
}

/// What the short form `IP:PORT/PEERID` stands for.
pub open spec fn addr_of_short_form(body: Seq<char>) -> Option<AddrView> {
    match last_occurrence(body, "/"@) {
        None => None,
        Some(i) => {
            let socket = body.subrange(0, i);
            let peer = body.subrange(i + 1, body.len() as int);
            match last_occurrence(socket, ":"@) {
                None => None,
                Some(j) => if socket.contains('/') {
                    None
                } else {
                    addr_of_parts(
                        socket_text(socket.subrange(0, j), socket.subrange(j + 1, socket.len() as int)),
                        peer,
                    )
                },
            }
        },
    }
}

/// The address that a name stands for, if any. A name holds a transport address and, after the last
/// `/p2p/`, an identity; or it has the short form.
pub open spec fn looked_up(name: Seq<char>) -> Option<AddrView> {
    let input = without_name(name);
    match last_occurrence(input, "/p2p/"@) {
        Some(p) => addr_of_parts(input.subrange(0, p), input.subrange(p + 5, input.len() as int)),
        None => addr_of_short_form(without_scheme(name)),
    }
}

/// What the network side is told of an address: where the peer is reached, if that is known.
pub open spec fn known_addr(a: AddrView) -> Option<CommandView> {
    match a.multiaddr {
        Some(multiaddr) => Some(CommandView::AddKnownAddr { peer: a.peer, multiaddr }),
        None => None,
    }
}

fn strip_name<'a>(name: &'a str) -> (r: &'a str)
    ensures
        r@ == without_name(name@),
{
    if let Some(s) = without_prefix(name, "tcp:") {
        return s;
    }
    if let Some(s) = without_prefix(name, "quic:") {
        return s;
    }
    if let Some(s) = without_prefix(name, "relay:") {
        return s;
    }
    if let Some(s) = without_prefix(name, "libp2p:") {
        return s;
    }
    if let Some(s) = without_prefix(name, "libp2p+libp2p:") {
        return s;
    }
    name
}

fn strip_scheme<'a>(name: &'a str) -> (r: &'a str)
    ensures
        r@ == without_scheme(name@),
{
    if let Some(s) = without_prefix(name, "libp2p://") {
        return s;
    }
    if let Some(s) = without_prefix(name, "libp2p+libp2p://") {
        return s;
    }
    name
}

fn addr_from_parts(transport: &str, peer: &str) -> (r: Option<NaLibp2pAddr>)
    ensures
        addr_view(r) == addr_of_parts(transport@, peer@),
{
    let peer_id = match PeerId::from_text(peer) {
        Some(p) => p,
        None => {
            return None;
        },
    };
    if transport.is_empty() {
        return Some(NaLibp2pAddr { peer_id, multiaddr: None, is_self: false });
    }
    match Multiaddr::parse(transport) {
        Some(m) => Some(NaLibp2pAddr { peer_id, multiaddr: Some(m), is_self: false }),
        None => None,
    }
}

/// One character stands in a text exactly where the text contains it.
proof fn last_of_one(s: Seq<char>, pat: Seq<char>, c: char)
    requires
        pat == seq![c],
    ensures
        last_occurrence(s, pat) is Some <==> s.contains(c),
        last_occurrence(s, pat) matches Some(i) ==> 0 <= i < s.len() && s[i] == c,
    decreases s.len(),
{
    assert forall|i: int| #[trigger] occurs_at(s, pat, i) implies s[i] == c by {
        assert(s.subrange(i, i + 1)[0] == c);
    }
    if s.contains(c) {
        last_of_one_exists(s, pat, c, s.len() as int);
        let i = choose|i: int| is_last_occurrence(s, pat, i);
        assert(is_last_occurrence(s, pat, i));
        last_occurrence_is(s, pat, i);
    }
}

proof fn last_of_one_exists(s: Seq<char>, pat: Seq<char>, c: char, n: int)
    requires
        pat == seq![c],
        0 <= n <= s.len(),
        exists|i: int| 0 <= i < n && s[i] == c,
        forall|j: int| n <= j < s.len() ==> s[j] != c,
    ensures
        exists|i: int| is_last_occurrence(s, pat, i),
    decreases n,
{
    if s[n - 1] == c {
        assert(s.subrange(n - 1, n) == pat);
        assert(occurs_at(s, pat, n - 1));
        assert forall|j: int| n - 1 < j implies !occurs_at(s, pat, j) by {
            if occurs_at(s, pat, j) {
                assert(s.subrange(j, j + 1)[0] == c);
            }
        }
        assert(is_last_occurrence(s, pat, n - 1));
    } else {
        last_of_one_exists(s, pat, c, n - 1);
    }
}

fn addr_from_short_form(body: &str) -> (r: Option<NaLibp2pAddr>)
    ensures
        addr_view(r) == addr_of_short_form(body@),
{
    proof {
        reveal_strlit("/");
        reveal_strlit(":");
        assert("/"@ == seq!['/']);
        assert(":"@ == seq![':']);
    }
    let i = match rfind(body, "/") {
        Some(i) => i,
        None => {
            return None;
        },
    };
    let n: usize = char_count(body);
    let socket = piece(body, 0, i);
    let peer = piece(body, i + 1, n);
    let j = match rfind(socket, ":") {
        Some(j) => j,
        None => {
            return None;
        },
    };
    proof {
        last_of_one(socket@, "/"@, '/');
    }
    if rfind(socket, "/").is_some() {
        return None;
    }
    let ip = piece(socket, 0, j);
    let port = piece(socket, j + 1, char_count(socket));
    proof {
        last_of_one(ip@, ":"@, ':');
    }
    let mut transport = String::from_str(
        if rfind(ip, ":").is_some() {
            "/ip6/"
        } else {
            "/ip4/"
        },
    );
    transport.append(ip);
    transport.append("/tcp/");
    transport.append(port);
    addr_from_parts(transport.as_str(), peer)
}

/// Looks up a name. Beside the address comes what the network side is to be told of it.
pub fn addr_lookup(name: &str) -> (r: Result<(NaLibp2pAddr, Option<Command>), NaReturn>)
    ensures
        match looked_up(name@) {
            Some(a) => r matches Ok((addr, command)) && addr@ == a && command_view(command)
                == known_addr(a),
            None => r == Err::<(NaLibp2pAddr, Option<Command>), NaReturn>(NaReturn::ProtocolError),
        },
{
    let input = strip_name(name);
    let n: usize = char_count(input);
    proof {
        reveal_strlit("/p2p/");
    }
    let found = match rfind(input, "/p2p/") {
        Some(p) => addr_from_parts(piece(input, 0, p), piece(input, p + 5, n)),
        None => addr_from_short_form(strip_scheme(name)),
    };
    match found {
        None => Err(NaReturn::ProtocolError),
        Some(addr) => {
            let command = match &addr.multiaddr {
                Some(m) => Some(
                    Command::AddKnownAddr {
                        peer_id: addr.peer_id.clone(),
                        multiaddr: m.duplicate(),
                    },
                ),
                None => None,
            };
            Ok((addr, command))
        },
    }
}

/// The characters of the known words.
pub proof fn known_names()
    ensures
        "tcp"@ == seq!['t', 'c', 'p'],
        "quic"@ == seq!['q', 'u', 'i', 'c'],
        "relay"@ == seq!['r', 'e', 'l', 'a', 'y'],
        "libp2p"@ == seq!['l', 'i', 'b', 'p', '2', 'p'],
        "libp2p+libp2p"@ == seq!['l', 'i', 'b', 'p', '2', 'p', '+', 'l', 'i', 'b', 'p', '2', 'p'],
        "tcp:"@ == "tcp"@ + ":"@,
        "quic:"@ == "quic"@ + ":"@,
        "relay:"@ == "relay"@ + ":"@,
        "libp2p:"@ == "libp2p"@ + ":"@,
        "libp2p+libp2p:"@ == "libp2p+libp2p"@ + ":"@,
        ":"@ == seq![':'],
{
    reveal_strlit("tcp");
    reveal_strlit("quic");
    reveal_strlit("relay");
    reveal_strlit("libp2p");
    reveal_strlit("libp2p+libp2p");
    reveal_strlit("tcp:");
    reveal_strlit("quic:");
    reveal_strlit("relay:");
    reveal_strlit("libp2p:");
    reveal_strlit("libp2p+libp2p:");
    reveal_strlit(":");
    assert("tcp"@ == seq!['t', 'c', 'p']);
    assert("quic"@ == seq!['q', 'u', 'i', 'c']);
    assert("relay"@ == seq!['r', 'e', 'l', 'a', 'y']);
    assert("libp2p"@ == seq!['l', 'i', 'b', 'p', '2', 'p']);
    assert("libp2p+libp2p"@ == seq!['l', 'i', 'b', 'p', '2', 'p', '+', 'l', 'i', 'b', 'p', '2', 'p']);
    assert(":"@ == seq![':']);
    assert("tcp:"@ == "tcp"@ + ":"@);
    assert("quic:"@ == "quic"@ + ":"@);
    assert("relay:"@ == "relay"@ + ":"@);
    assert("libp2p:"@ == "libp2p"@ + ":"@);
    assert("libp2p+libp2p:"@ == "libp2p+libp2p"@ + ":"@);
}

proof fn not_at_start(s: Seq<char>, pat: Seq<char>, k: int)
    requires
        0 <= k < pat.len(),
        k < s.len(),
        s[k] != pat[k],
    ensures
        !occurs_at(s, pat, 0),
{
    if occurs_at(s, pat, 0) {
        assert(s.subrange(0, pat.len() as int)[k] == pat[k]);
    }
}

/// A known word and the colon after it are taken off.
pub proof fn name_is_stripped(prefix: Seq<char>, rest: Seq<char>)
    requires
        is_name_prefix(prefix),
    ensures
        without_name(prefix + ":"@ + rest) == rest,
{
    known_names();
    let name = prefix + ":"@ + rest;
    let full = prefix + ":"@;
    assert(name.subrange(0, full.len() as int) == full);
    assert(name.subrange(full.len() as int, name.len() as int) == rest);
    assert(strip_prefix(name, full) == Some(rest));
    if prefix == "tcp"@ {
    } else if prefix == "quic"@ {
        not_at_start(name, "tcp:"@, 0);
    } else if prefix == "relay"@ {
        not_at_start(name, "tcp:"@, 0);
        not_at_start(name, "quic:"@, 0);
    } else {
        not_at_start(name, "tcp:"@, 0);
        not_at_start(name, "quic:"@, 0);
        not_at_start(name, "relay:"@, 0);
        if prefix != "libp2p"@ {
            not_at_start(name, "libp2p:"@, 6);
        }
    }
}

/// Before an identity without a slash the last `/p2p/` is the one right before it.
pub proof fn last_slash_word(transport: Seq<char>, peer: Seq<char>)
    requires
        !peer.contains('/'),
    ensures
        last_occurrence(transport + "/p2p/"@ + peer, "/p2p/"@) == Some(transport.len() as int),
        "/p2p/"@.len() == 5,
{
    reveal_strlit("/p2p/");
    let pat = "/p2p/"@;
    let s = transport + pat + peer;
    let n = transport.len() as int;
    assert(s.subrange(n, n + 5) == pat);
    assert(occurs_at(s, pat, n));
    assert forall|j: int| n < j implies !occurs_at(s, pat, j) by {
        if occurs_at(s, pat, j) {
            assert(s.subrange(j, j + 5)[4] == pat[4]);
            assert(s[j + 4] == '/');
            assert(peer[j + 4 - n - 5] == '/');
        }
    }
    assert(is_last_occurrence(s, pat, n));
    last_occurrence_is(s, pat, n);
}

/// A name made of a transport address and an identity is looked up as just these, whatever known
/// word stands before the colon.
pub proof fn law_lookup_of_text(prefix: Seq<char>, transport: Seq<char>, peer: Seq<u8>)
    requires
        is_name_prefix(prefix),
        valid_peer_id(peer),
    ensures
        looked_up(addr_text(prefix, transport, peer)) == (if transport.len() == 0 {
            Some(AddrView { peer, multiaddr: None, is_self: false })
        } else {
            match multiaddr_of_text(transport) {
                Some(ps) => Some(AddrView { peer, multiaddr: Some(ps), is_self: false }),
                None => None,
            }
        }),
{
    let text = peer_id_text(peer);
    let rest = transport + "/p2p/"@ + text;
    assert(addr_text(prefix, transport, peer) == prefix + ":"@ + rest);
    name_is_stripped(prefix, rest);
    last_slash_word(transport, text);
    assert(rest.subrange(0, transport.len() as int) == transport);
    assert(rest.subrange((transport.len() + 5) as int, rest.len() as int) == text);
}

/// The text of an address is looked up as the same peer at the same transport address; only that it
/// is the own address is not told by the text. An address that says nothing of the transport, by an
/// empty text, comes back without one.
pub proof fn law_lookup_gives_back_text(a: AddrView)
    requires
        valid_addr(a),
        a.multiaddr matches Some(ps) ==> multiaddr_text(ps).len() > 0,
    ensures
        looked_up(addr_string(a)) == Some(AddrView { is_self: false, ..a }),
{
    law_lookup_of_text("libp2p"@, transport_text(a.multiaddr), a.peer);
    if a.multiaddr is Some {
        let ps = a.multiaddr->0;
        assert(crate::multiaddr::drawn_from(ps, ps));
        assert(crate::multiaddr::readable(ps));
    }
}

/// What may stand before the IP address in the short form.
pub open spec fn is_scheme(scheme: Seq<char>) -> bool {
    ||| scheme == "libp2p://"@
    ||| scheme == "libp2p+libp2p://"@
    ||| scheme.len() == 0
}

/// The short form of an address: an IP address, a port and an identity.
pub open spec fn short_form(ip: Seq<char>, port: Seq<char>, peer: Seq<u8>) -> Seq<char> {
    ip + ":"@ + port + "/"@ + peer_id_text(peer)
}

proof fn suffix_without_pattern(s: Seq<char>, k: int, pat: Seq<char>)
    requires
        0 <= k <= s.len(),
        forall|i: int| !occurs_at(s, pat, i),
    ensures
        last_occurrence(s.subrange(k, s.len() as int), pat) is None,
{
    let t = s.subrange(k, s.len() as int);
    assert forall|i: int| !occurs_at(t, pat, i) by {
        if occurs_at(t, pat, i) {
            assert(s.subrange(i + k, i + k + pat.len()) == t.subrange(i, i + pat.len()));
            assert(occurs_at(s, pat, i + k));
        }
    }
}

proof fn name_is_a_suffix(name: Seq<char>) -> (k: int)
    ensures
        0 <= k <= name.len(),
        without_name(name) == name.subrange(k, name.len() as int),
{
    assert(name.subrange(0, name.len() as int) == name);
    if occurs_at(name, "tcp:"@, 0) {
        "tcp:"@.len() as int
    } else if occurs_at(name, "quic:"@, 0) {
        "quic:"@.len() as int
    } else if occurs_at(name, "relay:"@, 0) {
        "relay:"@.len() as int
    } else if occurs_at(name, "libp2p:"@, 0) {
        "libp2p:"@.len() as int
    } else if occurs_at(name, "libp2p+libp2p:"@, 0) {
        "libp2p+libp2p:"@.len() as int
    } else {
        0
    }
}

proof fn no_word_in_short_form(scheme: Seq<char>, ip: Seq<char>, port: Seq<char>, text: Seq<char>)
    requires
        is_scheme(scheme),
        !ip.contains('/'),
        !port.contains('/'),
        !text.contains('/'),
    ensures
        forall|i: int| !occurs_at(scheme + (ip + ":"@ + port + "/"@ + text), "/p2p/"@, i),
{
    reveal_strlit("/p2p/");
    reveal_strlit(":");
    reveal_strlit("/");
    reveal_strlit("libp2p://");
    reveal_strlit("libp2p+libp2p://");
    let pat = "/p2p/"@;
    let body = ip + ":"@ + port + "/"@ + text;
    let name = scheme + body;
    let s = scheme.len() as int;
    let b = s + ip.len() + 1 + port.len();
    assert forall|i: int| s <= i < name.len() && #[trigger] name[i] == '/' implies i == b by {
        if i < s + ip.len() {
            assert(ip[i - s] == '/');
        } else if i > s + ip.len() && i < b {
            assert(port[i - s - ip.len() - 1] == '/');
        } else if i > b {
            assert(text[i - b - 1] == '/');
        }
    }
    assert forall|i: int| !occurs_at(name, pat, i) by {
        if occurs_at(name, pat, i) {
            let t = name.subrange(i, i + 5);
            assert(t[0] == pat[0] && t[1] == pat[1] && t[2] == pat[2] && t[3] == pat[3] && t[4]
                == pat[4]);
            assert(name[i] == '/' && name[i + 1] == 'p' && name[i + 2] == '2' && name[i + 3] == 'p'
                && name[i + 4] == '/');
            assert(i < s);
            assert(i == s - 1);
            assert(i + 4 == b);
            assert(name[s + ip.len()] == ':');
        }
    }
}

proof fn scheme_is_stripped(scheme: Seq<char>, body: Seq<char>, b: int)
    requires
        is_scheme(scheme),
        0 <= b < body.len(),
        forall|i: int| 0 <= i < body.len() && i != b ==> body[i] != '/',
    ensures
        without_scheme(scheme + body) == body,
{
    reveal_strlit("libp2p://");
    reveal_strlit("libp2p+libp2p://");
    let name = scheme + body;
    assert(name.subrange(scheme.len() as int, name.len() as int) == body);
    assert(name.subrange(0, scheme.len() as int) == scheme);
    if scheme == "libp2p://"@ {
    } else if scheme == "libp2p+libp2p://"@ {
        not_at_start(name, "libp2p://"@, 6);
    } else {
        assert(name == body);
        if occurs_at(body, "libp2p://"@, 0) {
            let t = body.subrange(0, 9);
            assert(t[7] == '/' && t[8] == '/');
            assert(body[7] == '/' && body[8] == '/');
        }
        if occurs_at(body, "libp2p+libp2p://"@, 0) {
            let t = body.subrange(0, 16);
            assert(t[14] == '/' && t[15] == '/');
            assert(body[14] == '/' && body[15] == '/');
        }
    }
}

/// The short form is taken apart into its socket and its identity, with either scheme before it or
/// none.
pub proof fn short_form_is_taken_apart(
    scheme: Seq<char>,
    ip: Seq<char>,
    port: Seq<char>,
    text: Seq<char>,
)
    requires
        is_scheme(scheme),
        !ip.contains('/'),
        !port.contains('/'),
        !port.contains(':'),
        !text.contains('/'),
    ensures
        looked_up(scheme + (ip + ":"@ + port + "/"@ + text)) == addr_of_parts(
            socket_text(ip, port),
            text,
        ),
        socket_text(ip, port).len() > 0,
{
    reveal_strlit(":");
    reveal_strlit("/");
    reveal_strlit("/ip4/");
    reveal_strlit("/ip6/");
    let body = ip + ":"@ + port + "/"@ + text;
    let name = scheme + body;
    let socket = ip + ":"@ + port;
    let j = ip.len() as int;
    let b = socket.len() as int;
    no_word_in_short_form(scheme, ip, port, text);
    let k = name_is_a_suffix(name);
    suffix_without_pattern(name, k, "/p2p/"@);
    assert forall|i: int| 0 <= i < body.len() && i != b implies body[i] != '/' by {
        if i < j {
            assert(body[i] == ip[i]);
        } else if j < i < b {
            assert(body[i] == port[i - j - 1]);
        } else if i > b {
            assert(body[i] == text[i - b - 1]);
        }
    }
    scheme_is_stripped(scheme, body, b);
    assert(body.subrange(b, b + 1) == "/"@);
    assert(occurs_at(body, "/"@, b));
    assert forall|i: int| b < i implies !occurs_at(body, "/"@, i) by {
        if occurs_at(body, "/"@, i) {
            assert(body.subrange(i, i + 1)[0] == '/');
        }
    }
    last_occurrence_is(body, "/"@, b);
    assert(body.subrange(0, b) == socket);
    assert(body.subrange(b + 1, body.len() as int) == text);
    assert(socket.subrange(j, j + 1) == ":"@);
    assert(occurs_at(socket, ":"@, j));
    assert forall|i: int| j < i implies !occurs_at(socket, ":"@, i) by {
        if occurs_at(socket, ":"@, i) {
            assert(socket.subrange(i, i + 1)[0] == ':');
            assert(port[i - j - 1] == ':');
        }
    }
    last_occurrence_is(socket, ":"@, j);
    assert(socket.subrange(0, j) == ip);
    assert(socket.subrange(j + 1, socket.len() as int) == port);
    assert(!socket.contains('/')) by {
        if socket.contains('/') {
            let i = choose|i: int| 0 <= i < socket.len() && socket[i] == '/';
            assert(body[i] == '/');
        }
    }
}

/// The short form is looked up as the peer behind that port of that host, with either scheme before
/// it or none.
pub proof fn law_lookup_of_short_form(scheme: Seq<char>, ip: Seq<char>, port: Seq<char>, peer: Seq<u8>)
    requires
        is_scheme(scheme),
        !ip.contains('/'),
        !port.contains('/'),
        !port.contains(':'),
        valid_peer_id(peer),
    ensures
        looked_up(scheme + short_form(ip, port, peer)) == (match multiaddr_of_text(
            socket_text(ip, port),
        ) {
            Some(ps) => Some(AddrView { peer, multiaddr: Some(ps), is_self: false }),
            None => None,
        }),
{
    short_form_is_taken_apart(scheme, ip, port, peer_id_text(peer));
}

/// The text of an address.
pub open spec fn addr_string(a: AddrView) -> Seq<char> {
    addr_text("libp2p"@, transport_text(a.multiaddr), a.peer)
}

fn text_of(prefix: &str, transport: &str, peer: &PeerId) -> (r: String)
    ensures
        r@ == addr_text(prefix@, transport@, peer@),
{
    let mut out = String::from_str(prefix);
    out.append(":");
    out.append(transport);
    out.append("/p2p/");
    let id = peer.to_text();
    out.append(id.as_str());
    out
}

fn text_of_transport(multiaddr: &Option<Multiaddr>) -> (r: String)
    ensures
        r@ == transport_text(multiaddr_view(*multiaddr)),
{
    match multiaddr {
        Some(m) => m.to_text(),
        None => {
            let s = String::new();
            assert(s@ == Seq::<char>::empty());
            s
        },
    }
}

impl NaLibp2pAddr {
    /// The text of the address.
    pub fn to_addr_string(&self) -> (r: String)
        ensures
            r@ == addr_string(self@),
    {
        let transport = text_of_transport(&self.multiaddr);
        text_of("libp2p", transport.as_str(), &self.peer_id)
    }

    /// A copy.
    pub fn dup(&self) -> (r: NaLibp2pAddr)
        ensures
            r@ == self@,
    {
        let multiaddr = match &self.multiaddr {
            Some(m) => Some(m.duplicate()),
            None => None,
        };
        NaLibp2pAddr { peer_id: self.peer_id.clone(), multiaddr, is_self: self.is_self }
    }
}

/// Copies an address, if there is one.
pub fn addr_dup(addr: Option<&NaLibp2pAddr>) -> (r: Result<NaLibp2pAddr, NaReturn>)
    ensures
        match addr {
            Some(a) => r matches Ok(d) && d@ == a@,
            None => r == Err::<NaLibp2pAddr, NaReturn>(NaReturn::InvalidArg),
        },
{
    match addr {
        Some(a) => Ok(a.dup()),
        None => Err(NaReturn::InvalidArg),
    }
}

/// Whether two addresses, given or not, name the same peer: only the identities count.
pub open spec fn same_peer(a: Option<AddrView>, b: Option<AddrView>) -> bool {
    match (a, b) {
        (None, None) => true,
        (Some(x), Some(y)) => x.peer == y.peer,
        _ => false,
    }
}

/// Whether two addresses name the same peer.
pub fn addr_cmp(addr1: Option<&NaLibp2pAddr>, addr2: Option<&NaLibp2pAddr>) -> (r: bool)
    ensures
        r == same_peer(addr_ref_view(addr1), addr_ref_view(addr2)),
{
    match (addr1, addr2) {
        (None, None) => true,
        (Some(a), Some(b)) => a.peer_id.same(&b.peer_id),
        _ => false,
    }
}

/// Whether an address names the peer with the given own address.
pub fn addr_is_self(self_addr: &NaLibp2pAddr, addr: Option<&NaLibp2pAddr>) -> (r: bool)
    ensures
        r == (addr is Some && (addr->0)@.peer == self_addr@.peer),
{
    match addr {
        None => false,
        Some(a) => a.peer_id.same(&self_addr.peer_id),
    }
}

/// Naming the same peer is an equivalence, and it does not depend on the transport addresses.
pub proof fn law_same_peer(
    a: Option<AddrView>,
    b: Option<AddrView>,
    c: Option<AddrView>,
    x: AddrView,
    other: Option<Seq<ProtocolView>>,
    own: bool,
)
    ensures
        same_peer(a, a),
        same_peer(a, b) == same_peer(b, a),
        same_peer(a, b) && same_peer(b, c) ==> same_peer(a, c),
        same_peer(Some(x), Some(AddrView { peer: x.peer, multiaddr: other, is_self: own })),
{
}

/// What an address is shown as. The own address is shown with another transport address than its
/// own where the buffer that takes the text asks for a transport that there is.
pub open spec fn shown(
    a: AddrView,
    listen_addrs: Option<Seq<Seq<ProtocolView>>>,
    buf: Option<Seq<u8>>,
) -> Seq<char> {
    if a.is_self && buf is Some && listen_addrs is Some && hint_in(buf->0) is Some && hinted(
        listen_addrs->0,
        hint_in(buf->0)->0,
    ) is Some {
        let addrs = listen_addrs->0;
        let ps = addrs[hinted(addrs, hint_in(buf->0)->0)->0];
        addr_text(prefix_of(ps), multiaddr_text(ps), a.peer)
    } else {
        addr_string(a)
    }
}

/// The answer to a question for the text of an address.
#[derive(Debug, PartialEq, Eq)]
pub struct TextReply {
    pub ret: NaReturn,
    /// How large the buffer has to be, where that is told.
    pub size: Option<usize>,
    /// What is stored in the buffer.
    pub bytes: Vec<u8>,
}

/// The answer to a question for a text, to be stored in `buf` with a zero byte behind it.
pub open spec fn answers_with(r: TextReply, text: Seq<char>, buf: Option<Seq<u8>>) -> bool {
    let stored = encode_utf8(text).push(0);
    &&& r.size == Some(stored.len() as usize)
    &&& stored.len() <= usize::MAX
    &&& match buf {
        None => r.ret == NaReturn::Success && r.bytes@.len() == 0,
        Some(b) => if b.len() < stored.len() {
            r.ret == NaReturn::Overflow && r.bytes@.len() == 0
        } else {
            r.ret == NaReturn::Success && r.bytes@ == stored
        },
    }
}

/// The text of an address, for a buffer of which the present contents are given. Without a buffer
/// only the size is told.
pub fn addr_to_string(
    addr: Option<&NaLibp2pAddr>,
    listen_addrs: Option<&Vec<Multiaddr>>,
    buf: Option<&[u8]>,
    has_size: bool,
) -> (r: TextReply)
    ensures
        addr is None || !has_size ==> r.ret == NaReturn::InvalidArg && r.size is None
            && r.bytes@.len() == 0,
        addr is Some && has_size ==> answers_with(
            r,
            shown(
                (addr->0)@,
                match listen_addrs {
                    Some(l) => Some(address_views(l@)),
                    None => None,
                },
                match buf {
                    Some(b) => Some(b@),
                    None => None,
                },
            ),
            match buf {
                Some(b) => Some(b@),
                None => None,
            },
        ),
{
    let a = match addr {
        Some(a) => a,
        None => {
            return TextReply { ret: NaReturn::InvalidArg, size: None, bytes: Vec::new() };
        },
    };
    if !has_size {
        return TextReply { ret: NaReturn::InvalidArg, size: None, bytes: Vec::new() };
    }
    let text = show(a, listen_addrs, buf);
    let mut bytes: Vec<u8> = Vec::new();
    append_bytes(&mut bytes, text.as_str().as_bytes());
    bytes.push(0);
    let needed: usize = bytes.len();
    match buf {
        None => TextReply { ret: NaReturn::Success, size: Some(needed), bytes: Vec::new() },
        Some(b) => if b.len() < needed {
            TextReply { ret: NaReturn::Overflow, size: Some(needed), bytes: Vec::new() }
        } else {
            TextReply { ret: NaReturn::Success, size: Some(needed), bytes }
        },
    }
}

fn show(a: &NaLibp2pAddr, listen_addrs: Option<&Vec<Multiaddr>>, buf: Option<&[u8]>) -> (r: String)
    ensures
        r@ == shown(
            a@,
            match listen_addrs {
                Some(l) => Some(address_views(l@)),
                None => None,
            },
            match buf {
                Some(b) => Some(b@),
                None => None,
            },
        ),
{
    if a.is_self {
        if let (Some(addrs), Some(b)) = (listen_addrs, buf) {
            if let Some(hint) = read_transport_hint(b) {
                if let Some(m) = find_listen_addr_for_hint(addrs, hint) {
                    let transport = m.to_text();
                    return text_of(
                        transport_prefix_for_multiaddr(&m),
                        transport.as_str(),
                        &a.peer_id,
                    );
                }
            }
        }
    }
    a.to_addr_string()
}

// ---------------------------------------------------------------------------
//  Bytes
// ---------------------------------------------------------------------------

/// The fields of a serialized address: the identity and the text of the transport address, each
/// after its length in two bytes.
pub open spec fn addr_fields(a: AddrView) -> Seq<Seq<u8>> {
    let text = encode_utf8(transport_text(a.multiaddr));
    seq![be(a.peer.len(), 2), a.peer, be(text.len(), 2), text]
}

/// A serialized address.
pub open spec fn addr_bytes(a: AddrView) -> Seq<u8> {
    flat(addr_fields(a))
}

/// The bytes of a serialized address, field by field.
pub proof fn addr_bytes_parts(a: AddrView)
    ensures
        addr_bytes(a) == be(a.peer.len(), 2) + a.peer + be(
            encode_utf8(transport_text(a.multiaddr)).len(),
            2,
        ) + encode_utf8(transport_text(a.multiaddr)),
        addr_bytes(a).len() == 4 + a.peer.len() + encode_utf8(transport_text(a.multiaddr)).len(),
{
    broadcast use be_len;

    let f = addr_fields(a);
    assert(f.drop_last() == seq![f[0], f[1], f[2]]);
    assert(f.drop_last().drop_last() == seq![f[0], f[1]]);
    assert(f.drop_last().drop_last().drop_last() == seq![f[0]]);
    assert(f.drop_last().drop_last().drop_last().drop_last() == Seq::<Seq<u8>>::empty());
    reveal_with_fuel(flat, 5);
    assert(addr_bytes(a) == Seq::<u8>::empty() + f[0] + f[1] + f[2] + f[3]);
    assert(addr_bytes(a) == f[0] + f[1] + f[2] + f[3]);
}

fn field_vectors(addr: &NaLibp2pAddr) -> (r: Vec<Vec<u8>>)
    ensures
        byte_views(r@) == addr_fields(addr@),
{
    let peer = addr.peer_id.to_bytes();
    let text = text_of_transport(&addr.multiaddr);
    let mut transport: Vec<u8> = Vec::new();
    append_bytes(&mut transport, text.as_str().as_bytes());
    assert(transport@ == encode_utf8(transport_text(addr@.multiaddr)));
    let mut peer_len: Vec<u8> = Vec::new();
    put_be(&mut peer_len, peer.len() as u64, 2);
    assert(peer_len@ == be(peer@.len(), 2));
    let mut transport_len: Vec<u8> = Vec::new();
    put_be(&mut transport_len, transport.len() as u64, 2);
    assert(transport_len@ == be(transport@.len(), 2));
    let mut fields: Vec<Vec<u8>> = Vec::new();
    fields.push(peer_len);
    fields.push(peer);
    fields.push(transport_len);
    fields.push(transport);
    assert(byte_views(fields@) == addr_fields(addr@));
    fields
}

/// How many bytes a serialized address takes; none where there is no address.
pub fn addr_get_serialize_size(addr: Option<&NaLibp2pAddr>) -> (r: usize)
    ensures
        r == (match addr {
            Some(a) => addr_bytes(a@).len(),
            None => 0,
        }),
{
    match addr {
        None => 0,
        Some(a) => {
            let fields = field_vectors(a);
            let mut out: Vec<u8> = Vec::new();
            let mut i: usize = 0;
            let ghost fs = byte_views(fields@);
            assert(fs.subrange(0, 0) == Seq::<Seq<u8>>::empty());
            while i < fields.len()
                invariant
                    i <= fields@.len(),
                    fs == byte_views(fields@),
                    out@ == flat(fs.subrange(0, i as int)),
                decreases fields@.len() - i,
            {
                append_bytes(&mut out, fields[i].as_slice());
                i += 1;
                assert(fs.subrange(0, i as int).drop_last() == fs.subrange(0, i - 1));
            }
            assert(fs.subrange(0, i as int) == fs);
            out.len()
        },
    }
}

/// Serializes an address for a buffer of the given size, if there is one. Where the buffer is too
/// small, the fields that fit are stored all the same.
pub fn addr_serialize(addr: Option<&NaLibp2pAddr>, buf_size: Option<usize>) -> (r: (
    NaReturn,
    Vec<u8>,
))
    ensures
        addr is None || buf_size is None ==> r.0 == NaReturn::InvalidArg && r.1@.len() == 0,
        addr is Some && buf_size is Some ==> {
            let a = (addr->0)@;
            let room = buf_size->0;
            &&& r.0 == if addr_bytes(a).len() <= room {
                NaReturn::Success
            } else {
                NaReturn::Overflow
            }
            &&& r.1@ == stored(addr_fields(a), room as nat)
            &&& r.1@.len() <= room
            &&& addr_bytes(a).len() <= room ==> r.1@ == addr_bytes(a)
        },
{
    match (addr, buf_size) {
        (Some(a), Some(room)) => {
            let fields = field_vectors(a);
            let (bytes, all) = write_fields(&fields, room);
            proof {
                all_fit(addr_fields(a@), room as nat);
            }
            if all {
                (NaReturn::Success, bytes)
            } else {
                (NaReturn::Overflow, bytes)
            }
        },
        _ => (NaReturn::InvalidArg, Vec::new()),
    }
}

/// What bytes stand for as a serialized address.
pub open spec fn addr_of_bytes(data: Seq<u8>) -> Option<AddrView> {
    let n = from_be(data.subrange(0, 2)) as int;
    if data.len() < 2 || data.len() < 4 + n || peer_id_of_bytes(data.subrange(2, 2 + n)) is None {
        None
    } else {
        let peer = peer_id_of_bytes(data.subrange(2, 2 + n))->0;
        let m = from_be(data.subrange(2 + n, 4 + n)) as int;
        if m == 0 {
            Some(AddrView { peer, multiaddr: None, is_self: false })
        } else if data.len() < 4 + n + m {
            None
        } else {
            match utf8_reading(data.subrange(4 + n, 4 + n + m)) {
                None => None,
                Some(text) => match multiaddr_of_text(text) {
                    None => None,
                    Some(ps) => Some(AddrView { peer, multiaddr: Some(ps), is_self: false }),
                },
            }
        }
    }
}

/// The value that an outcome of `addr_deserialize` stands for.
pub open spec fn outcome_view(r: Result<NaLibp2pAddr, NaReturn>) -> Result<AddrView, NaReturn> {
    match r {
        Ok(a) => Ok(a@),
        Err(e) => Err(e),
    }
}

/// Reads a serialized address. `has_target` says whether there is a place for the result.
pub fn addr_deserialize(buf: Option<&[u8]>, has_target: bool) -> (r: Result<NaLibp2pAddr, NaReturn>)
    ensures
        outcome_view(r) == (if buf is None || !has_target || (buf->0)@.len() < 4 {
            Err::<AddrView, NaReturn>(NaReturn::InvalidArg)
        } else {
            match addr_of_bytes((buf->0)@) {
                Some(a) => Ok(a),
                None => Err(NaReturn::ProtocolError),
            }
        }),
{
    let data = match buf {
        Some(b) => b,
        None => {
            return Err(NaReturn::InvalidArg);
        },
    };
    let size: usize = data.len();
    if !has_target || size < 4 {
        return Err(NaReturn::InvalidArg);
    }
    proof {
        pow256_values();
    }
    let n: usize = get_be(data, 0, 2) as usize;
    if n > size - 2 {
        return Err(NaReturn::ProtocolError);
    }
    let peer_id = match PeerId::from_bytes(slice_subrange(data, 2, 2 + n)) {
        Some(p) => p,
        None => {
            return Err(NaReturn::ProtocolError);
        },
    };
    if 2 > size - 2 - n {
        return Err(NaReturn::ProtocolError);
    }
    let m: usize = get_be(data, 2 + n, 2) as usize;
    if m == 0 {
        return Ok(NaLibp2pAddr { peer_id, multiaddr: None, is_self: false });
    }
    if m > size - 4 - n {
        return Err(NaReturn::ProtocolError);
    }
    let text = match utf8_text(slice_subrange(data, 4 + n, 4 + n + m)) {
        Some(t) => t,
        None => {
            return Err(NaReturn::ProtocolError);
        },
    };
    match Multiaddr::parse(text.as_str()) {
        Some(ma) => Ok(NaLibp2pAddr { peer_id, multiaddr: Some(ma), is_self: false }),
        None => Err(NaReturn::ProtocolError),
    }
}

/// A serialized address is read back as the same peer at the same transport address, whatever
/// follows it in the buffer, as long as the text of the transport address can be counted in two
/// bytes. An address that says nothing of the transport, by an empty text, comes back without one.
pub proof fn law_deserialize_gives_back_serialize(a: AddrView, rest: Seq<u8>)
    requires
        valid_addr(a),
        encode_utf8(transport_text(a.multiaddr)).len() < 0x1_0000,
        a.multiaddr matches Some(ps) ==> encode_utf8(multiaddr_text(ps)).len() > 0,
    ensures
        addr_of_bytes(addr_bytes(a) + rest) == Some(AddrView { is_self: false, ..a }),
        addr_bytes(a).len() >= 4,
{
    broadcast use be_len;

    pow256_values();
    addr_bytes_parts(a);
    let text = encode_utf8(transport_text(a.multiaddr));
    let data = addr_bytes(a) + rest;
    let n = a.peer.len() as int;
    let m = text.len() as int;
    assert(data.subrange(0, 2) == be(a.peer.len(), 2));
    from_be_of_be(a.peer.len(), 2);
    assert(data.subrange(2, 2 + n) == a.peer);
    assert(data.subrange(2 + n, 4 + n) == be(text.len(), 2));
    from_be_of_be(text.len(), 2);
    assert(data.subrange(4 + n, 4 + n + m) == text);
    if a.multiaddr is Some {
        let ps = a.multiaddr->0;
        encode_utf8_valid_utf8(multiaddr_text(ps));
        encode_utf8_decode_utf8(multiaddr_text(ps));
        assert(crate::multiaddr::drawn_from(ps, ps));
        assert(crate::multiaddr::readable(ps));
    } else {
        reveal_with_fuel(encode_utf8, 1);
        assert(text == Seq::<u8>::empty());
    }
}

/// The size that is told for an address is the least that suffices to serialize it.
pub proof fn law_told_size_suffices(a: AddrView, room: nat)
    ensures
        addr_bytes(a).len() <= room ==> stored(addr_fields(a), room) == addr_bytes(a),
        addr_bytes(a).len() > room ==> stored(addr_fields(a), room).len() < addr_bytes(a).len(),
{
    all_fit(addr_fields(a), room);
}

} // verus!
