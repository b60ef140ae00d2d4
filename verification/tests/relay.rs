use na_libp2p::multiaddr::Multiaddr;
use na_libp2p::relay_server::{
    generate_ed25519, listen_address, on_new_listen_addr, parse_args, secret_from_seed, usage,
    ArgsOutcome, DEFAULT_PROGRAM,
};
use na_libp2p::startup::plan_relay;

fn args(list: &[&str]) -> ArgsOutcome {
    let mut all = vec!["relay".to_string()];
    all.extend(list.iter().map(|s| s.to_string()));
    parse_args(&all)
}

#[test]
fn arguments_of_the_server() {
    assert_eq!(
        args(&["--port", "4001", "--secret-key-seed", "7", "--addr-file", "addr.txt"]),
        ArgsOutcome::Run { port: 4001, seed: 7, addr_file: "addr.txt".to_string() }
    );
    assert_eq!(
        args(&["--addr-file", "--port", "--secret-key-seed", "+255"]),
        ArgsOutcome::Run { port: 0, seed: 255, addr_file: "--port".to_string() }
    );
    assert_eq!(
        args(&["--port", "1", "--secret-key-seed", "1", "--addr-file", "a", "--port", "65535"]),
        ArgsOutcome::Run { port: 65535, seed: 1, addr_file: "a".to_string() }
    );
    assert_eq!(
        args(&["--port", "00080", "--secret-key-seed", "0", "--addr-file", ""]),
        ArgsOutcome::Run { port: 80, seed: 0, addr_file: String::new() }
    );
}

#[test]
fn arguments_that_show_the_usage() {
    assert_eq!(args(&["-h"]), ArgsOutcome::Help);
    assert_eq!(args(&["--port", "1", "--help", "--nonsense"]), ArgsOutcome::Help);
}

#[test]
fn arguments_that_are_refused() {
    assert_eq!(args(&["--nonsense"]), ArgsOutcome::Unknown { argument: "--nonsense".to_string() });
    assert_eq!(args(&["--nonsense", "-h"]), ArgsOutcome::Unknown { argument: "--nonsense".to_string() });
    assert_eq!(args(&[]), ArgsOutcome::Incomplete);
    assert_eq!(parse_args(&vec![]), ArgsOutcome::Incomplete);
    assert_eq!(args(&["--secret-key-seed", "1"]), ArgsOutcome::Incomplete);
    assert_eq!(args(&["--addr-file", "a"]), ArgsOutcome::Incomplete);
    for option in ["--port", "--secret-key-seed", "--addr-file"] {
        assert_eq!(args(&[option]), ArgsOutcome::MissingValue { option: option.to_string() });
    }
    for value in ["", "+", "-1", "65536", "1x", "x", "99999999999999999999", " 1", "++1"] {
        assert_eq!(args(&["--port", value]), ArgsOutcome::InvalidPort);
        assert!(value.parse::<u16>().is_err());
    }
    for value in ["256", "-0", "1.0", "9999999999"] {
        assert_eq!(args(&["--secret-key-seed", value]), ArgsOutcome::InvalidSeed);
        assert!(value.parse::<u8>().is_err());
    }
}

#[test]
fn usage_of_the_server() {
    let lines = usage(DEFAULT_PROGRAM);
    assert_eq!(lines.len(), 9);
    assert_eq!(lines[0], "Usage: mercury-na-relay-server [OPTIONS]");
    assert_eq!(lines[1], "");
    assert_eq!(lines[4], "Options:");
    assert_eq!(lines[8], "  -h, --help                 Print this help message and exit");
}

#[test]
fn identity_from_a_seed() {
    let mut secret = vec![5];
    secret.extend(vec![0; 31]);
    assert_eq!(secret_from_seed(5), secret);
    let outside = libp2p::identity::Keypair::ed25519_from_bytes(secret).expect("a key");
    assert_eq!(generate_ed25519(5).to_bytes(), outside.public().to_peer_id().to_bytes());
    assert_eq!(generate_ed25519(5), generate_ed25519(5));
    assert_ne!(generate_ed25519(5), generate_ed25519(6));
    assert_eq!(
        generate_ed25519(0).to_text(),
        "12D3KooWDpJ7As7BWAwRMfu1VU2WCqNjvq387JEYKDBj4kx6nXTN"
    );
}

#[test]
fn the_listen_address_of_the_server() {
    assert_eq!(listen_address(0).to_text(), "/ip4/0.0.0.0/tcp/0");
    assert_eq!(listen_address(4001).to_text(), "/ip4/0.0.0.0/tcp/4001");
    assert_eq!(listen_address(65535).to_text(), "/ip4/0.0.0.0/tcp/65535");
}

#[test]
fn the_address_is_written_once() {
    let id = generate_ed25519(3);
    let mut written = false;
    let first = on_new_listen_addr(&mut written, &listen_address(81), &id);
    assert!(first.write && written);
    assert_eq!(first.external.to_text(), "/ip4/127.0.0.1/tcp/81");
    assert_eq!(first.full_addr, format!("/ip4/127.0.0.1/tcp/81/p2p/{}", id.to_text()));
    let other = Multiaddr::parse("/ip4/10.0.0.5/tcp/81").expect("an address");
    let second = on_new_listen_addr(&mut written, &other, &id);
    assert!(!second.write && written);
    assert_eq!(second.external, other);
    // What was written is what a peer needs.
    let relay = plan_relay(true, Some(&first.full_addr)).expect("a relay").expect("a relay");
    assert_eq!(relay.peer_id, id);
    assert_eq!(relay.transport, first.external);
}
