use na_libp2p::addr::{
    addr_cmp, addr_deserialize, addr_dup, addr_get_serialize_size, addr_is_self, addr_lookup,
    addr_serialize, addr_to_string, NaLibp2pAddr,
};
use na_libp2p::command::Command;
use na_libp2p::multiaddr::{IpAddress, Multiaddr};
use na_libp2p::peer::PeerId;
use na_libp2p::status::NaReturn;

fn peer(fill: u8) -> PeerId {
    let mut bytes = vec![0x12, 0x20];
    bytes.extend(vec![fill; 32]);
    PeerId::from_bytes(&bytes).expect("a multihash")
}

fn ma(text: &str) -> Multiaddr {
    Multiaddr::parse(text).expect("a multiaddr")
}

fn addr(fill: u8, transport: Option<&str>) -> NaLibp2pAddr {
    NaLibp2pAddr { peer_id: peer(fill), multiaddr: transport.map(ma), is_self: false }
}

#[test]
fn multiaddrs_keep_their_text() {
    for text in [
        "/ip4/10.0.0.1/tcp/5555",
        "/ip6/::1/tcp/5555",
        "/ip4/10.0.0.1/udp/9090/quic-v1",
        "/dns4/example.org/tcp/443/wss",
        "",
    ] {
        assert_eq!(ma(text).to_text(), text);
        let outside: libp2p::Multiaddr = text.parse().expect("a multiaddr");
        assert_eq!(ma(text).to_text(), outside.to_string());
    }
    let relayed = format!("/ip4/10.0.0.1/tcp/4001/p2p/{}/p2p-circuit", peer(9).to_text());
    assert_eq!(ma(&relayed).to_text(), relayed);
    assert_eq!(Multiaddr::parse("ip4/1.2.3.4"), None);
    assert_eq!(Multiaddr::parse("/ip4/1.2.3"), None);
    assert_eq!(Multiaddr::parse("/nonsense/1"), None);
    assert_eq!(Multiaddr::parse("/tcp/65536"), None);
    // The text is put into its usual form.
    assert_eq!(ma("/ip6/0:0:0:0:0:0:0:1").to_text(), "/ip6/::1");
}

#[test]
fn what_multiaddrs_hold() {
    let tcp = ma("/ip4/10.0.0.1/tcp/1");
    let quic = ma("/ip6/::1/udp/1/quic-v1");
    let bare = ma("/dns/example.org");
    assert!(tcp.has_tcp() && !tcp.has_quic() && !tcp.has_circuit() && tcp.has_ip() && tcp.has_port());
    assert!(!quic.has_tcp() && quic.has_quic() && quic.has_ip() && quic.has_port());
    assert!(!bare.has_ip() && !bare.has_port());
    assert!(tcp.with_circuit().has_circuit());
    assert_eq!(tcp.with_circuit().to_text(), "/ip4/10.0.0.1/tcp/1/p2p-circuit");
    let full = ma(&format!("/ip4/10.0.0.1/tcp/1/p2p/{}", peer(4).to_text()));
    assert_eq!(full.split_peer(), Some((peer(4), tcp)));
    assert_eq!(quic.split_peer(), None);
    assert_eq!(ma("").split_peer(), None);
}

#[test]
fn unspecified_hosts_are_resolved() {
    let any = ma("/ip4/0.0.0.0/tcp/80");
    assert_eq!(any.resolve(Some(IpAddress::V4(0x0a000001))).to_text(), "/ip4/10.0.0.1/tcp/80");
    assert_eq!(any.resolve(Some(IpAddress::V6(1))).to_text(), "/ip6/::1/tcp/80");
    assert_eq!(any.resolve(None).to_text(), "/ip4/0.0.0.0/tcp/80");
    let other = ma("/ip4/1.2.3.4/tcp/80");
    assert_eq!(other.resolve(Some(IpAddress::V4(7))), other);
    let once = any.resolve(Some(IpAddress::V4(0x7f000001)));
    assert_eq!(once.resolve(Some(IpAddress::V4(0x7f000001))), once);
}

#[test]
fn lookup_of_full_names() {
    let id = peer(1).to_text();
    for prefix in ["tcp:", "quic:", "relay:", "libp2p:", "libp2p+libp2p:", ""] {
        let name = format!("{}/ip4/10.0.0.1/tcp/5555/p2p/{}", prefix, id);
        let (a, command) = addr_lookup(&name).expect("an address");
        assert_eq!(a, addr(1, Some("/ip4/10.0.0.1/tcp/5555")));
        assert_eq!(
            command,
            Some(Command::AddKnownAddr {
                peer_id: peer(1),
                multiaddr: ma("/ip4/10.0.0.1/tcp/5555"),
            })
        );
    }
}

#[test]
fn lookup_without_transport() {
    let (a, command) = addr_lookup(&format!("libp2p:/p2p/{}", peer(1).to_text())).expect("an address");
    assert_eq!(a, addr(1, None));
    assert_eq!(command, None);
}

#[test]
fn lookup_of_a_relayed_name() {
    let relay = peer(8).to_text();
    let target = peer(1).to_text();
    let transport = format!("/ip4/10.0.0.1/tcp/4001/p2p/{}/p2p-circuit/p2p/{}", relay, target);
    let (a, _) = addr_lookup(&format!("relay:{}/p2p/{}", transport, target)).expect("an address");
    assert_eq!(a, addr(1, Some(&transport)));
}

#[test]
fn lookup_of_short_names() {
    let id = peer(1).to_text();
    for scheme in ["libp2p://", "libp2p+libp2p://", ""] {
        let (a, command) =
            addr_lookup(&format!("{}192.168.1.20:43211/{}", scheme, id)).expect("an address");
        assert_eq!(a, addr(1, Some("/ip4/192.168.1.20/tcp/43211")));
        assert!(command.is_some());
    }
    let (a, _) = addr_lookup(&format!("libp2p://::1:80/{}", id)).expect("an address");
    assert_eq!(a, addr(1, Some("/ip6/::1/tcp/80")));
}

#[test]
fn names_that_stand_for_nothing() {
    let id = peer(1).to_text();
    for name in [
        String::new(),
        "tcp:/ip4/10.0.0.1/tcp/5555".to_string(),
        "tcp:/ip4/10.0.0.1/tcp/5555/p2p/".to_string(),
        "tcp:/ip4/10.0.0.1/tcp/5555/p2p/nobody".to_string(),
        format!("tcp:/ip4/10.0.0/tcp/5555/p2p/{}", id),
        format!("udp:/ip4/10.0.0.1/tcp/5555/p2p/{}", id),
        format!("10.0.0.1/{}", id),
        format!("10.0.0.1:port/{}", id),
        format!("a/10.0.0.1:80/{}", id),
        format!("tcp://10.0.0.1:80/{}", id),
        "libp2p://10.0.0.1:80".to_string(),
    ] {
        assert_eq!(addr_lookup(&name), Err(NaReturn::ProtocolError));
    }
}

#[test]
fn texts_of_addresses_are_looked_up_again() {
    for transport in [Some("/ip4/10.0.0.1/udp/9/quic-v1"), Some("/ip6/::1/tcp/5555"), None] {
        let a = addr(3, transport);
        let (b, _) = addr_lookup(&a.to_addr_string()).expect("the same address");
        assert_eq!(a, b);
    }
    assert_eq!(
        addr(3, Some("/ip4/10.0.0.1/tcp/5")).to_addr_string(),
        format!("libp2p:/ip4/10.0.0.1/tcp/5/p2p/{}", peer(3).to_text())
    );
}

#[test]
fn copies_and_comparison() {
    let a = addr(1, Some("/ip4/10.0.0.1/tcp/5"));
    let b = addr(1, None);
    let c = addr(2, Some("/ip4/10.0.0.1/tcp/5"));
    assert_eq!(addr_dup(Some(&a)), Ok(a.dup()));
    assert_eq!(a.dup(), a);
    assert_eq!(addr_dup(None), Err(NaReturn::InvalidArg));
    assert!(addr_cmp(Some(&a), Some(&b)));
    assert!(!addr_cmp(Some(&a), Some(&c)));
    assert!(addr_cmp(None, None));
    assert!(!addr_cmp(Some(&a), None));
    assert!(addr_is_self(&a, Some(&b)));
    assert!(!addr_is_self(&a, Some(&c)));
    assert!(!addr_is_self(&a, None));
}

#[test]
fn texts_in_buffers() {
    let a = addr(1, Some("/ip4/10.0.0.1/tcp/5"));
    let text = a.to_addr_string();
    let needed = text.len() + 1;
    let told = addr_to_string(Some(&a), None, None, true);
    assert_eq!((told.ret, told.size, told.bytes.len()), (NaReturn::Success, Some(needed), 0));
    let small = vec![0; needed - 1];
    let refused = addr_to_string(Some(&a), None, Some(&small), true);
    assert_eq!((refused.ret, refused.size, refused.bytes.len()), (NaReturn::Overflow, Some(needed), 0));
    let large = vec![0; needed];
    let stored = addr_to_string(Some(&a), None, Some(&large), true);
    let mut expected = text.into_bytes();
    expected.push(0);
    assert_eq!((stored.ret, stored.size, stored.bytes), (NaReturn::Success, Some(needed), expected));
    for (addr, has_size) in [(None, true), (Some(&a), false)] {
        let r = addr_to_string(addr, None, Some(&large), has_size);
        assert_eq!((r.ret, r.size, r.bytes.len()), (NaReturn::InvalidArg, None, 0));
    }
}

#[test]
fn the_own_text_follows_the_hint() {
    let circuit = format!("/ip4/10.0.0.9/tcp/4001/p2p/{}/p2p-circuit", peer(9).to_text());
    let listen = vec![ma("/ip4/10.0.0.1/tcp/5"), ma("/ip4/10.0.0.1/udp/6/quic-v1"), ma(&circuit)];
    let own = NaLibp2pAddr {
        peer_id: peer(1),
        multiaddr: Some(ma("/ip4/10.0.0.1/tcp/5")),
        is_self: true,
    };
    let id = peer(1).to_text();
    let show = |a: &NaLibp2pAddr, hint: &[u8]| {
        let mut buf = vec![0; 512];
        buf[..hint.len()].copy_from_slice(hint);
        let mut r = addr_to_string(Some(a), Some(&listen), Some(&buf), true).bytes;
        assert_eq!(r.pop(), Some(0));
        String::from_utf8(r).expect("a text")
    };
    assert_eq!(show(&own, b"quic:"), format!("quic:/ip4/10.0.0.1/udp/6/quic-v1/p2p/{}", id));
    assert_eq!(show(&own, b"tcp"), format!("tcp:/ip4/10.0.0.1/tcp/5/p2p/{}", id));
    assert_eq!(show(&own, b"relay:"), format!("relay:{}/p2p/{}", circuit, id));
    assert_eq!(show(&own, b""), own.to_addr_string());
    assert_eq!(show(&own, b"udp"), own.to_addr_string());
    let other = addr(2, Some("/ip4/10.0.0.2/tcp/7"));
    assert_eq!(show(&other, b"quic"), other.to_addr_string());
    // Without an address of the transport the usual text is shown.
    let few = vec![ma("/ip4/10.0.0.1/tcp/5")];
    let mut buf = vec![0; 512];
    buf[..4].copy_from_slice(b"quic");
    let r = addr_to_string(Some(&own), Some(&few), Some(&buf), true);
    assert_eq!(r.size, Some(own.to_addr_string().len() + 1));
}

#[test]
fn serialized_addresses() {
    let a = addr(1, Some("/ip4/10.0.0.1/tcp/5555"));
    let size = addr_get_serialize_size(Some(&a));
    assert_eq!(size, 2 + 34 + 2 + 22);
    assert_eq!(addr_get_serialize_size(None), 0);
    let (ret, bytes) = addr_serialize(Some(&a), Some(size));
    assert_eq!(ret, NaReturn::Success);
    let mut expected = vec![0, 34, 0x12, 0x20];
    expected.extend(vec![1; 32]);
    expected.extend([0, 22]);
    expected.extend(b"/ip4/10.0.0.1/tcp/5555");
    assert_eq!(bytes, expected);
    assert_eq!(addr_deserialize(Some(&bytes), true), Ok(a.dup()));
    // Whatever follows does not matter.
    let mut more = bytes;
    more.extend([1, 2, 3]);
    assert_eq!(addr_deserialize(Some(&more), true), Ok(a));
    let b = addr(2, None);
    let (_, bytes) = addr_serialize(Some(&b), Some(100));
    assert_eq!(bytes.len(), addr_get_serialize_size(Some(&b)));
    assert_eq!(addr_deserialize(Some(&bytes), true), Ok(b));
}

#[test]
fn serialized_addresses_that_do_not_fit() {
    let a = addr(1, Some("/ip4/10.0.0.1/tcp/5555"));
    let all = addr_serialize(Some(&a), Some(1000)).1;
    for (room, stored) in [(0, 0), (1, 0), (2, 2), (35, 2), (36, 36), (37, 36), (38, 38), (59, 38)] {
        let (ret, bytes) = addr_serialize(Some(&a), Some(room));
        assert_eq!(ret, NaReturn::Overflow);
        assert_eq!(bytes, all[..stored].to_vec());
    }
    assert_eq!(addr_serialize(Some(&a), Some(60)), (NaReturn::Success, all));
    assert_eq!(addr_serialize(None, Some(60)), (NaReturn::InvalidArg, vec![]));
    assert_eq!(addr_serialize(Some(&a), None), (NaReturn::InvalidArg, vec![]));
}

#[test]
fn bytes_that_are_no_address() {
    let a = addr(1, Some("/ip4/10.0.0.1/tcp/5555"));
    let good = addr_serialize(Some(&a), Some(60)).1;
    assert_eq!(addr_deserialize(None, true), Err(NaReturn::InvalidArg));
    assert_eq!(addr_deserialize(Some(&good), false), Err(NaReturn::InvalidArg));
    assert_eq!(addr_deserialize(Some(&good[..3]), true), Err(NaReturn::InvalidArg));
    for n in 4..good.len() {
        assert_eq!(addr_deserialize(Some(&good[..n]), true), Err(NaReturn::ProtocolError));
    }
    // An identity that is none.
    assert_eq!(addr_deserialize(Some(&[0, 1, 5, 0, 0]), true), Err(NaReturn::ProtocolError));
    // A transport that is no text, and one that is no address.
    let mut no_text = good[..36].to_vec();
    no_text.extend([0, 1, 0xff]);
    assert_eq!(addr_deserialize(Some(&no_text), true), Err(NaReturn::ProtocolError));
    let mut no_address = good[..36].to_vec();
    no_address.extend([0, 1, b'x']);
    assert_eq!(addr_deserialize(Some(&no_address), true), Err(NaReturn::ProtocolError));
}
