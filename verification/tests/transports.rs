use na_libp2p::multiaddr::{IpAddress, Multiaddr};
use na_libp2p::transport::{
    check_protocol, find_listen_addr_for_hint, listen_addresses, parse_transport_config,
    read_transport_hint, resolve_listen_addrs, resolve_self_multiaddr,
    transport_prefix_for_multiaddr, TransportConfig, TransportHint, TransportKind,
};

fn ma(text: &str) -> Multiaddr {
    Multiaddr::parse(text).expect("a multiaddr")
}

fn config(tcp: bool, quic: bool, relay: bool, priority: TransportKind) -> TransportConfig {
    TransportConfig { tcp, quic, relay, priority }
}

#[test]
fn protocol_names() {
    let tcp_only = config(true, false, false, TransportKind::Tcp);
    assert_eq!(parse_transport_config(""), tcp_only);
    assert_eq!(parse_transport_config("libp2p"), tcp_only);
    assert_eq!(parse_transport_config("tcp"), tcp_only);
    assert_eq!(parse_transport_config("udp"), tcp_only);
    assert_eq!(parse_transport_config(" , ,"), tcp_only);
    assert_eq!(parse_transport_config("quic"), config(false, true, false, TransportKind::Quic));
    assert_eq!(parse_transport_config("tcp,quic"), config(true, true, false, TransportKind::Tcp));
    assert_eq!(parse_transport_config("quic,tcp"), config(true, true, false, TransportKind::Quic));
    assert_eq!(parse_transport_config("\tquic , tcp "), config(true, true, false, TransportKind::Quic));
    assert_eq!(parse_transport_config("tcp,relay"), config(true, false, true, TransportKind::Tcp));
    assert_eq!(parse_transport_config("relay"), config(true, false, true, TransportKind::Tcp));
    // The first transport that is listed is preferred, whatever stands before it.
    assert_eq!(parse_transport_config("foo,quic"), config(false, true, false, TransportKind::Quic));
    assert_eq!(parse_transport_config("relay,quic"), config(false, true, true, TransportKind::Quic));
    assert_eq!(parse_transport_config("relay,quic,tcp"), config(true, true, true, TransportKind::Quic));
    assert_eq!(parse_transport_config("foo,tcp,quic"), config(true, true, false, TransportKind::Tcp));
    assert_eq!(parse_transport_config("TCP"), tcp_only);
}

#[test]
fn protocols_that_are_served() {
    for name in ["libp2p", "tcp", "quic", "relay", "tcp,quic", "quic, tcp", "tcp,relay", "tcp,tcp"] {
        assert!(check_protocol(name));
    }
    for name in ["", "udp", "tcp,", "tcp;quic", "libp2p,tcp", "TCP"] {
        assert!(!check_protocol(name));
    }
}

#[test]
fn where_to_listen() {
    let show = |c: &TransportConfig, listen: bool| -> Vec<String> {
        listen_addresses(c, listen).iter().map(|m| m.to_text()).collect()
    };
    let both = config(true, true, false, TransportKind::Tcp);
    assert_eq!(show(&both, true), vec!["/ip4/0.0.0.0/tcp/0", "/ip4/0.0.0.0/udp/0/quic-v1"]);
    assert_eq!(show(&both, false), vec!["/ip4/127.0.0.1/tcp/0", "/ip4/127.0.0.1/udp/0/quic-v1"]);
    let quic = config(false, true, false, TransportKind::Quic);
    assert_eq!(show(&quic, true), vec!["/ip4/0.0.0.0/udp/0/quic-v1"]);
    let tcp = config(true, false, true, TransportKind::Tcp);
    assert_eq!(show(&tcp, false), vec!["/ip4/127.0.0.1/tcp/0"]);
}

#[test]
fn the_own_address() {
    let addrs = vec![
        ma("/ip4/0.0.0.0/udp/6/quic-v1"),
        ma("/ip4/0.0.0.0/tcp/5"),
        ma("/ip4/9.9.9.9/tcp/1/p2p-circuit"),
    ];
    let host = Some(IpAddress::V4(0x0a000001));
    let own = |priority, relay| resolve_self_multiaddr(&addrs, priority, relay, host).to_text();
    assert_eq!(own(TransportKind::Tcp, false), "/ip4/10.0.0.1/tcp/5");
    assert_eq!(own(TransportKind::Quic, false), "/ip4/10.0.0.1/udp/6/quic-v1");
    assert_eq!(own(TransportKind::Tcp, true), "/ip4/9.9.9.9/tcp/1/p2p-circuit");
    // Without an address of the preferred transport it is the first one.
    let few = vec![ma("/ip4/1.1.1.1/tcp/5"), ma("/ip4/2.2.2.2/tcp/5")];
    assert_eq!(
        resolve_self_multiaddr(&few, TransportKind::Quic, true, None).to_text(),
        "/ip4/1.1.1.1/tcp/5"
    );
    let all: Vec<String> = resolve_listen_addrs(&addrs, host).iter().map(|m| m.to_text()).collect();
    assert_eq!(
        all,
        vec!["/ip4/10.0.0.1/udp/6/quic-v1", "/ip4/10.0.0.1/tcp/5", "/ip4/9.9.9.9/tcp/1/p2p-circuit"]
    );
}

#[test]
fn hints_in_buffers() {
    assert_eq!(read_transport_hint(b"tcp"), Some(TransportHint::Tcp));
    assert_eq!(read_transport_hint(b"tcp:/ip4"), Some(TransportHint::Tcp));
    assert_eq!(read_transport_hint(b"quic\0rest"), Some(TransportHint::Quic));
    assert_eq!(read_transport_hint(b"relay:"), Some(TransportHint::Relay));
    assert_eq!(read_transport_hint(b"relax"), None);
    assert_eq!(read_transport_hint(b"tc\0p"), None);
    assert_eq!(read_transport_hint(b""), None);
    assert_eq!(read_transport_hint(b"\0tcp"), None);
    assert_eq!(read_transport_hint(b"TCP"), None);
    // The five bytes are no text, though they start with a name.
    assert_eq!(read_transport_hint(b"tcp\xff\xff"), None);
    assert_eq!(read_transport_hint(b"tcp\0\xff"), Some(TransportHint::Tcp));
    assert_eq!(read_transport_hint("tcp\u{e9}".as_bytes()), Some(TransportHint::Tcp));
}

#[test]
fn addresses_for_hints() {
    let addrs = vec![ma("/ip4/1.1.1.1/udp/6/quic-v1"), ma("/ip4/2.2.2.2/tcp/5"), ma("/ip4/3.3.3.3/tcp/5")];
    assert_eq!(find_listen_addr_for_hint(&addrs, TransportHint::Tcp), Some(ma("/ip4/2.2.2.2/tcp/5")));
    assert_eq!(
        find_listen_addr_for_hint(&addrs, TransportHint::Quic),
        Some(ma("/ip4/1.1.1.1/udp/6/quic-v1"))
    );
    assert_eq!(find_listen_addr_for_hint(&addrs, TransportHint::Relay), None);
    assert_eq!(find_listen_addr_for_hint(&vec![], TransportHint::Tcp), None);
}

#[test]
fn names_of_transports() {
    assert_eq!(transport_prefix_for_multiaddr(&ma("/ip4/1.1.1.1/tcp/5")), "tcp");
    assert_eq!(transport_prefix_for_multiaddr(&ma("/ip4/1.1.1.1/udp/5/quic-v1")), "quic");
    assert_eq!(transport_prefix_for_multiaddr(&ma("/ip4/1.1.1.1/udp/5/quic-v1/p2p-circuit")), "relay");
    assert_eq!(transport_prefix_for_multiaddr(&ma("")), "tcp");
}
