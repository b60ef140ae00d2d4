use na_libp2p::multiaddr::{IpAddress, Multiaddr};
use na_libp2p::peer::PeerId;
use na_libp2p::plugin::{get_protocol_info, initialize, plan_start};
use na_libp2p::status::NaReturn;
use na_libp2p::transport::{parse_transport_config, TransportKind};

fn peer(fill: u8) -> PeerId {
    let mut bytes = vec![0x12, 0x20];
    bytes.extend(vec![fill; 32]);
    PeerId::from_bytes(&bytes).expect("a multihash")
}

fn ma(text: &str) -> Multiaddr {
    Multiaddr::parse(text).expect("a multiaddr")
}

#[test]
fn what_the_plugin_says_of_protocols() {
    let named = get_protocol_info(Some(b"quic,tcp"));
    assert_eq!(named.class_name, b"libp2p".to_vec());
    assert_eq!(named.protocol_name, b"quic,tcp".to_vec());
    assert_eq!(named.device_name, b"tcp0".to_vec());
    assert_eq!(get_protocol_info(None).protocol_name, b"tcp".to_vec());
    assert_eq!(get_protocol_info(Some(b"\xff")).protocol_name, vec![0xff]);
}

#[test]
fn plans_for_the_start() {
    let plan = plan_start(None, true);
    assert_eq!(plan.config, parse_transport_config("tcp"));
    assert_eq!(plan.listen_addrs, vec![ma("/ip4/0.0.0.0/tcp/0")]);
    let plan = plan_start(Some("quic,tcp"), false);
    assert_eq!(plan.config.priority, TransportKind::Quic);
    assert_eq!(
        plan.listen_addrs,
        vec![ma("/ip4/127.0.0.1/tcp/0"), ma("/ip4/127.0.0.1/udp/0/quic-v1")]
    );
}

#[test]
fn the_plugin_knows_its_addresses() {
    let config = parse_transport_config("quic,tcp");
    let addrs = vec![ma("/ip4/0.0.0.0/tcp/5"), ma("/ip4/0.0.0.0/udp/6/quic-v1")];
    let class = initialize(config, Some((peer(1), addrs)), Some(IpAddress::V4(0x0a000001)))
        .expect("it came up");
    assert_eq!(class.self_addr.peer_id, peer(1));
    assert_eq!(class.self_addr.multiaddr, Some(ma("/ip4/10.0.0.1/udp/6/quic-v1")));
    assert!(class.self_addr.is_self);
    assert_eq!(class.transport_config, config);
    assert_eq!(
        class.listen_addrs,
        vec![ma("/ip4/10.0.0.1/tcp/5"), ma("/ip4/10.0.0.1/udp/6/quic-v1")]
    );
}

#[test]
fn a_network_side_that_does_not_come_up() {
    let config = parse_transport_config("tcp");
    assert_eq!(initialize(config, None, None), Err(NaReturn::ProtocolError));
}
