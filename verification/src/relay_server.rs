//! The relay server: its arguments, its identity, and what it says of its addresses.

use crate::multiaddr::{
    decimal, drawn_from, ip4_text, multiaddr_of_text, multiaddr_text, plain, readable, resolved,
    valid_multiaddr, IpAddress, Multiaddr, ProtocolView,
};
use crate::peer::{peer_id_text, valid_peer_id, PeerId};
use crate::startup::{relay_of, RelayView};
use crate::text::{chars_of, equal_texts};
use vstd::prelude::*;
use vstd::string::StringExecFns;

verus! {

// ---------------------------------------------------------------------------
//  Numbers
// ---------------------------------------------------------------------------

/// A decimal digit.
pub open spec fn is_digit(c: char) -> bool {
    '0' <= c <= '9'
}

/// All characters are digits.
pub open spec fn all_digits(s: Seq<char>) -> bool {
    forall|i: int| 0 <= i < s.len() ==> is_digit(#[trigger] s[i])
}

/// The number whose decimal digits are `s`.
pub open spec fn digits_value(s: Seq<char>) -> nat
    decreases s.len(),
{
    if s.len() == 0 {
        0
    } else {
        digits_value(s.drop_last()) * 10 + (s.last() as nat - '0' as nat) as nat
    }
}

/// A text without the plus sign that a number may start with.
pub open spec fn without_plus(s: Seq<char>) -> Seq<char> {
    if s.len() > 0 && s[0] == '+' {
        s.drop_first()
    } else {
        s
    }
}

/// The number that a text stands for, if it stands for one up to `max`: digits, at least one, after
/// an optional plus sign.
pub open spec fn number_of(s: Seq<char>, max: nat) -> Option<nat> {
    let t = without_plus(s);
    if t.len() == 0 || !all_digits(t) || digits_value(t) > max {
        None
    } else {
        Some(digits_value(t))
    }
}

proof fn more_digits_are_more(s: Seq<char>, k: int)
    requires
        0 <= k <= s.len(),
        all_digits(s),
    ensures
        digits_value(s.subrange(0, k)) <= digits_value(s),
    decreases s.len() - k,
{
    if k < s.len() {
        let next = s.subrange(0, k + 1);
        assert(next.drop_last() == s.subrange(0, k));
        more_digits_are_more(s, k + 1);
    } else {
        assert(s.subrange(0, k) == s);
    }
}

/// Reads a number up to `max`.
fn parse_number(text: &str, max: u32) -> (r: Option<u32>)
    requires
        max <= 0xffff,
    ensures
        (match r {
            Some(n) => Some(n as nat),
            None => None,
        }) == number_of(text@, max as nat),
{
    let cs = chars_of(text);
    let n: usize = cs.len();
    let from: usize = if n > 0 && cs[0] == '+' {
        1
    } else {
        0
    };
    let ghost t = without_plus(text@);
    assert(t == cs@.subrange(from as int, n as int));
    if from == n {
        return None;
    }
    let mut value: u32 = 0;
    let mut i: usize = from;
    assert(t.subrange(0, 0) == Seq::<char>::empty());
    while i < n
        invariant
            from <= i <= n,
            n == cs@.len(),
            max <= 0xffff,
            t == cs@.subrange(from as int, n as int),
            t == without_plus(text@),
            t.len() > 0,
            value <= max,
            value == digits_value(t.subrange(0, i - from)),
            forall|j: int| 0 <= j < i - from ==> is_digit(#[trigger] t[j]),
        decreases n - i,
    {
        let c = cs[i];
        let ghost k = i - from;
        assert(t[k] == c);
        if c < '0' || c > '9' {
            assert(!is_digit(t[k]));
            return None;
        }
        let ghost next = t.subrange(0, k + 1);
        assert(next.drop_last() == t.subrange(0, k));
        let digit: u32 = c as u32 - '0' as u32;
        value = value * 10 + digit;
        assert(value == digits_value(next));
        if value > max {
            proof {
                if all_digits(t) {
                    more_digits_are_more(t, k + 1);
                }
            }
            return None;
        }
        i += 1;
    }
    assert(t.subrange(0, i - from) == t);
    Some(value)
}

// ---------------------------------------------------------------------------
//  Arguments
// ---------------------------------------------------------------------------

/// What the arguments ask for.
#[derive(Debug, PartialEq, Eq)]
pub enum ArgsOutcome {
    /// The usage is to be shown.
    Help,
    /// The server is to run.
    Run { port: u16, seed: u8, addr_file: String },
    /// There is an argument that means nothing.
    Unknown { argument: String },
    /// Something required is not there.
    Incomplete,
    /// The last argument wants a value.
    MissingValue { option: String },
    /// The port is no number up to 65535.
    InvalidPort,
    /// The seed is no number up to 255.
    InvalidSeed,
}

/// See `ArgsOutcome`.
pub enum ArgsView {
    Help,
    Run { port: u16, seed: u8, addr_file: Seq<char> },
    Unknown { argument: Seq<char> },
    Incomplete,
    MissingValue { option: Seq<char> },
    InvalidPort,
    InvalidSeed,
}

impl View for ArgsOutcome {
    type V = ArgsView;

    open spec fn view(&self) -> ArgsView {
        match self {
            ArgsOutcome::Help => ArgsView::Help,
            ArgsOutcome::Run { port, seed, addr_file } => ArgsView::Run {
                port: *port,
                seed: *seed,
                addr_file: addr_file@,
            },
            ArgsOutcome::Unknown { argument } => ArgsView::Unknown { argument: argument@ },
            ArgsOutcome::Incomplete => ArgsView::Incomplete,
            ArgsOutcome::MissingValue { option } => ArgsView::MissingValue { option: option@ },
            ArgsOutcome::InvalidPort => ArgsView::InvalidPort,
            ArgsOutcome::InvalidSeed => ArgsView::InvalidSeed,
        }
    }
}

/// What the arguments so far have set.
pub struct Settings {
    pub port: u16,
    pub seed: Option<u8>,
    pub addr_file: Option<Seq<char>>,
}

/// Before any argument: the system picks the port, and nothing else is set.
pub open spec fn no_settings() -> Settings {
    Settings { port: 0, seed: None, addr_file: None }
}

/// What the arguments from `i` on ask for, after those before have set something. A later setting
/// replaces an earlier one.
pub open spec fn asked_from(args: Seq<Seq<char>>, i: int, s: Settings) -> ArgsView
    decreases args.len() - i,
{
    if i >= args.len() {
        match (s.seed, s.addr_file) {
            (Some(seed), Some(addr_file)) => ArgsView::Run { port: s.port, seed, addr_file },
            _ => ArgsView::Incomplete,
        }
    } else if args[i] == "-h"@ || args[i] == "--help"@ {
        ArgsView::Help
    } else if args[i] == "--port"@ {
        if i + 1 >= args.len() {
            ArgsView::MissingValue { option: args[i] }
        } else {
            match number_of(args[i + 1], 0xffff) {
                Some(n) => asked_from(args, i + 2, Settings { port: n as u16, ..s }),
                None => ArgsView::InvalidPort,
            }
        }
    } else if args[i] == "--secret-key-seed"@ {
        if i + 1 >= args.len() {
            ArgsView::MissingValue { option: args[i] }
        } else {
            match number_of(args[i + 1], 0xff) {
                Some(n) => asked_from(args, i + 2, Settings { seed: Some(n as u8), ..s }),
                None => ArgsView::InvalidSeed,
            }
        }
    } else if args[i] == "--addr-file"@ {
        if i + 1 >= args.len() {
            ArgsView::MissingValue { option: args[i] }
        } else {
            asked_from(args, i + 2, Settings { addr_file: Some(args[i + 1]), ..s })
        }
    } else {
        ArgsView::Unknown { argument: args[i] }
    }
}

/// The arguments as texts.
pub open spec fn arg_views(args: Seq<String>) -> Seq<Seq<char>> {
    args.map_values(|a: String| a@)
}

/// Reads the arguments, the first of which is the name of the program.
pub fn parse_args(args: &Vec<String>) -> (r: ArgsOutcome)
    ensures
        r@ == asked_from(arg_views(args@), 1, no_settings()),
{
    let ghost all = arg_views(args@);
    let n: usize = args.len();
    let mut port: u16 = 0;
    let mut seed: Option<u8> = None;
    let mut addr_file: Option<String> = None;
    let mut i: usize = 1;
    while i < n
        invariant
            n == args@.len(),
            all == arg_views(args@),
            1 <= i,
            asked_from(all, 1, no_settings()) == asked_from(
                all,
                i as int,
                Settings {
                    port,
                    seed,
                    addr_file: match addr_file {
                        Some(f) => Some(f@),
                        None => None,
                    },
                },
            ),
        decreases n + 2 - i,
    {
        let arg = &args[i];
        assert(all[i as int] == arg@);
        if equal_texts(arg.as_str(), "-h") || equal_texts(arg.as_str(), "--help") {
            return ArgsOutcome::Help;
        }
        let is_port = equal_texts(arg.as_str(), "--port");
        let is_seed = equal_texts(arg.as_str(), "--secret-key-seed");
        let is_file = equal_texts(arg.as_str(), "--addr-file");
        if !is_port && !is_seed && !is_file {
            return ArgsOutcome::Unknown { argument: arg.clone() };
        }
        if i == n - 1 {
            return ArgsOutcome::MissingValue { option: arg.clone() };
        }
        let value = &args[i + 1];
        assert(all[i + 1] == value@);
        if is_port {
            match parse_number(value.as_str(), 0xffff) {
                Some(p) => {
                    port = p as u16;
                },
                None => {
                    return ArgsOutcome::InvalidPort;
                },
            }
        } else if is_seed {
            match parse_number(value.as_str(), 0xff) {
                Some(s) => {
                    seed = Some(s as u8);
                },
                None => {
                    return ArgsOutcome::InvalidSeed;
                },
            }
        } else {
            addr_file = Some(value.clone());
        }
        if i == n - 2 {
            i = n;
        } else {
            i += 2;
        }
    }
    match (seed, addr_file) {
        (Some(seed), Some(addr_file)) => ArgsOutcome::Run { port, seed, addr_file },
        _ => ArgsOutcome::Incomplete,
    }
}

/// The server runs only with a seed and a file for its address.
pub proof fn law_required_arguments(args: Seq<Seq<char>>, i: int, s: Settings)
    requires
        0 <= i,
        asked_from(args, i, s) is Run,
    ensures
        s.seed is None ==> exists|k: int|
            i <= k < args.len() && #[trigger] args[k] == "--secret-key-seed"@,
        s.addr_file is None ==> exists|k: int|
            i <= k < args.len() && #[trigger] args[k] == "--addr-file"@,
    decreases args.len() - i,
{
    if i < args.len() {
        if args[i] == "--port"@ {
            let n = number_of(args[i + 1], 0xffff)->0;
            law_required_arguments(args, i + 2, Settings { port: n as u16, ..s });
        } else if args[i] == "--secret-key-seed"@ {
            let n = number_of(args[i + 1], 0xff)->0;
            law_required_arguments(args, i + 2, Settings { seed: Some(n as u8), ..s });
        } else {
            law_required_arguments(args, i + 2, Settings { addr_file: Some(args[i + 1]), ..s });
        }
    }
}

/// The name of the program where the system gives none.
pub const DEFAULT_PROGRAM: &'static str = "mercury-na-relay-server";

/// The lines that tell how the program is used.
pub open spec fn usage_lines(program: Seq<char>) -> Seq<Seq<char>> {
    seq![
        "Usage: "@ + program + " [OPTIONS]"@,
        ""@,
        "A libp2p relay server for Mercury NA plugin tests."@,
        ""@,
        "Options:"@,
        "  --port <PORT>              TCP port to listen on (default: 0, OS-assigned)"@,
        "  --secret-key-seed <SEED>   Seed byte (0-255) for deterministic Ed25519 keypair (required)"@,
        "  --addr-file <PATH>         File to write the full listening multiaddr to (required)"@,
        "  -h, --help                 Print this help message and exit"@,
    ]
}

/// The lines that tell how the program is used.
pub fn usage(program: &str) -> (r: Vec<String>)
    ensures
        arg_views(r@) == usage_lines(program@),
{
    let mut first = String::from_str("Usage: ");
    first.append(program);
    first.append(" [OPTIONS]");
    let mut lines: Vec<String> = Vec::new();
    lines.push(first);
    lines.push(String::from_str(""));
    lines.push(String::from_str("A libp2p relay server for Mercury NA plugin tests."));
    lines.push(String::from_str(""));
    lines.push(String::from_str("Options:"));
    lines.push(
        String::from_str(
            "  --port <PORT>              TCP port to listen on (default: 0, OS-assigned)",
        ),
    );
    lines.push(
        String::from_str(
            "  --secret-key-seed <SEED>   Seed byte (0-255) for deterministic Ed25519 keypair (required)",
        ),
    );
    lines.push(
        String::from_str(
            "  --addr-file <PATH>         File to write the full listening multiaddr to (required)",
        ),
    );
    lines.push(
        String::from_str("  -h, --help                 Print this help message and exit"),
    );
    assert(arg_views(lines@) == usage_lines(program@));
    lines
}

// ---------------------------------------------------------------------------
//  Identity
// ---------------------------------------------------------------------------

/// The secret key that a seed stands for: the seed, and zero bytes up to thirty-two.
pub open spec fn secret_of(seed: u8) -> Seq<u8> {
    Seq::new(
        32,
        |i: int|
            if i == 0 {
                seed
            } else {
                0
            },
    )
}

/// The canonical bytes of the identity of the Ed25519 key pair with this secret key.
pub uninterp spec fn ed25519_peer_id(secret: Seq<u8>) -> Option<Seq<u8>>;

/// The error of `libp2p::identity::Keypair::ed25519_from_bytes`.
#[verifier::external_type_specification]
#[verifier::external_body]
pub struct ExDecodingError(libp2p::identity::DecodingError);

/// The identity that was made, if any.
pub open spec fn made_identity(r: Result<Vec<u8>, libp2p::identity::DecodingError>) -> Option<
    Seq<u8>,
> {
    match r {
        Ok(v) => Some(v@),
        Err(_) => None,
    }
}

/// Calls `libp2p::identity::Keypair::ed25519_from_bytes` and hands out the canonical bytes of the
/// identity of the key pair.
///
/// Claimed: thirty-two bytes are accepted, and nothing else; the identity is one that is read back
/// from its bytes and its text. Which identity belongs to which secret is left to the name.
#[verifier::external_body]
fn identity_of_secret(secret: Vec<u8>) -> (r: Result<Vec<u8>, libp2p::identity::DecodingError>)
    ensures
        made_identity(r) == ed25519_peer_id(secret@),
        made_identity(r) is Some <==> secret@.len() == 32,
        made_identity(r) is Some ==> valid_peer_id(made_identity(r)->0),
{
    libp2p::identity::Keypair::ed25519_from_bytes(secret).map(|k| k.public().to_peer_id().to_bytes())
}

/// The secret key that a seed stands for.
pub fn secret_from_seed(seed: u8) -> (r: Vec<u8>)
    ensures
        r@ == secret_of(seed),
{
    let mut v: Vec<u8> = Vec::new();
    v.push(seed);
    while v.len() < 32
        invariant
            1 <= v@.len() <= 32,
            forall|i: int| 0 <= i < v@.len() ==> v@[i] == secret_of(seed)[i],
        decreases 32 - v@.len(),
    {
        v.push(0);
    }
    assert(v@ == secret_of(seed));
    v
}

/// The identity of the server with a seed. The same seed always gives the same identity.
pub fn generate_ed25519(seed: u8) -> (r: PeerId)
    ensures
        Some(r@) == ed25519_peer_id(secret_of(seed)),
        valid_peer_id(r@),
{
    let bytes = identity_of_secret(secret_from_seed(seed)).unwrap();
    PeerId::from_bytes(bytes.as_slice()).unwrap()
}

// ---------------------------------------------------------------------------
//  Addresses
// ---------------------------------------------------------------------------

/// The address on which the server listens: the port on every interface.
pub open spec fn listen_point(port: u16) -> Seq<ProtocolView> {
    seq![ProtocolView::Ip4(0), ProtocolView::Tcp(port)]
}

fn digit(n: u32) -> (r: &'static str)
    requires
        n < 10,
    ensures
        r@ == seq![(48 + n) as char],
{
    proof {
        reveal_strlit("0");
        reveal_strlit("1");
        reveal_strlit("2");
        reveal_strlit("3");
        reveal_strlit("4");
        reveal_strlit("5");
        reveal_strlit("6");
        reveal_strlit("7");
        reveal_strlit("8");
        reveal_strlit("9");
    }
    let d = match n {
        0 => "0",
        1 => "1",
        2 => "2",
        3 => "3",
        4 => "4",
        5 => "5",
        6 => "6",
        7 => "7",
        8 => "8",
        _ => "9",
    };
    assert(d@ == seq![(48 + n) as char]);
    d
}

/// Appends a number in decimal digits.
fn append_decimal(out: &mut String, n: u32)
    ensures
        final(out)@ == old(out)@ + decimal(n as nat),
    decreases n,
{
    let ghost before = out@;
    if n >= 10 {
        append_decimal(out, n / 10);
        out.append(digit(n % 10));
        assert(out@ == before + decimal(n as nat));
    } else {
        out.append(digit(n));
    }
}

/// The address on which the server listens.
pub fn listen_address(port: u16) -> (r: Multiaddr)
    ensures
        r@ == listen_point(port),
{
    let mut text = String::from_str("/ip4/0.0.0.0/tcp/");
    append_decimal(&mut text, port as u32);
    proof {
        reveal_strlit("/ip4/0.0.0.0/tcp/");
        reveal_strlit("/ip4/");
        reveal_strlit("/tcp/");
        reveal_with_fuel(multiaddr_text, 3);
        reveal_with_fuel(decimal, 1);
        let ps = listen_point(port);
        assert(ps.drop_last() == seq![ProtocolView::Ip4(0)]);
        assert(ps.drop_last().drop_last() == Seq::<ProtocolView>::empty());
        assert(decimal(0) == seq!['0']);
        assert(ip4_text(0) == seq!['0', '.', '0', '.', '0', '.', '0']);
        assert(multiaddr_text(ps) == text@);
        assert(plain(ps));
    }
    Multiaddr::parse(text.as_str()).unwrap()
}

/// What follows when the server has come to listen on an address.
#[derive(Debug, PartialEq, Eq)]
pub struct NewAddress {
    /// The address that peers are told of.
    pub external: Multiaddr,
    /// The full address, with the identity of the server.
    pub full_addr: String,
    /// Whether the full address is written to the file.
    pub write: bool,
}

/// The address of the local host.
pub open spec fn local_host() -> IpAddress {
    IpAddress::V4(0x7f00_0001)
}

/// The full address of the server.
pub open spec fn full_text(ps: Seq<ProtocolView>, peer: Seq<u8>) -> Seq<char> {
    multiaddr_text(ps) + "/p2p/"@ + peer_id_text(peer)
}

/// The server comes to listen on an address. An unspecified IP address stands for the local host.
/// The first address, and no other, goes to the file: `written` says whether one is there.
pub fn on_new_listen_addr(written: &mut bool, address: &Multiaddr, peer_id: &PeerId) -> (r: NewAddress)
    ensures
        *final(written),
        r.write == !*old(written),
        r.external@ == resolved(address@, Some(local_host())),
        r.full_addr@ == full_text(resolved(address@, Some(local_host())), peer_id@),
{
    let external = address.resolve(Some(IpAddress::V4(0x7f00_0001)));
    let mut full_addr = external.to_text();
    full_addr.append("/p2p/");
    let id = peer_id.to_text();
    full_addr.append(id.as_str());
    let write = !*written;
    *written = true;
    NewAddress { external, full_addr, write }
}

/// The full address that the server writes down is what a peer needs to use it as its relay: from it
/// the peer reads the identity of the server, where to dial it, and where to listen.
pub proof fn law_full_address_names_the_relay(ps: Seq<ProtocolView>, peer: Seq<u8>)
    requires
        valid_multiaddr(ps),
        valid_peer_id(peer),
    ensures
        ({
            let full = ps.push(ProtocolView::P2p(peer));
            &&& multiaddr_of_text(full_text(ps, peer)) == Some(full)
            &&& relay_of(full) == Some(
                RelayView { peer, transport: ps, circuit: full.push(ProtocolView::P2pCircuit) },
            )
        }),
{
    let full = ps.push(ProtocolView::P2p(peer));
    assert(full.drop_last() == ps);
    assert(multiaddr_text(full) == full_text(ps, peer));
    assert(drawn_from(ps, ps));
    assert forall|i: int| 0 <= i < ps.len() implies #[trigger] full[i] == ps[i] by {
    }
    assert(drawn_from(full, ps));
    assert(readable(full));
}

} // verus!
