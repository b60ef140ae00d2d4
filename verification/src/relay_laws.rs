//! What the relay server makes of its arguments, and what it says of itself.

use crate::multiaddr::{decimal, multiaddr_text, resolved, IpAddress, ProtocolView};
use crate::peer::peer_id_text;
use crate::relay_server::{
    all_digits, asked_from, digits_value, full_text, is_digit, listen_point, local_host, no_settings,
    number_of, secret_of, usage_lines, without_plus, ArgsView, Settings, DEFAULT_PROGRAM,
};
use crate::transport_laws::law_resolved_by_component;
use vstd::prelude::*;

verus! {

// ---------------------------------------------------------------------------
//  Numbers
// ---------------------------------------------------------------------------

/// One digit stands for its own value. A digit behind a number makes it ten times as large and adds its
/// value, as long as that is not too large. A plus sign before digits changes nothing.
pub proof fn law_numbers_by_digit(s: Seq<char>, d: nat, max: nat)
    requires
        d < 10,
        9 <= max,
    ensures
        ({
            let c = (48 + d) as char;
            &&& number_of(seq![c], max) == Some(d)
            &&& number_of(s, max) matches Some(n) ==> {
                &&& 10 * n + d <= max ==> number_of(s.push(c), max) == Some((10 * n + d) as nat)
                &&& 10 * n + d > max ==> number_of(s.push(c), max) is None
                &&& s[0] != '+' ==> number_of(seq!['+'] + s, max) == Some(n)
            }
        }),
{
    let c = (48 + d) as char;
    assert(is_digit(c));
    let one = seq![c];
    assert(without_plus(one) == one);
    reveal_with_fuel(digits_value, 2);
    assert(one.drop_last() == Seq::<char>::empty());
    assert(all_digits(one));
    if number_of(s, max) is Some {
        let t = without_plus(s);
        let u = s.push(c);
        assert(s[0] == u[0]);
        assert(without_plus(u) == t.push(c));
        assert(t.push(c).drop_last() == t);
        assert(t.push(c).last() == c);
        assert forall|i: int| 0 <= i < t.push(c).len() implies is_digit(#[trigger] t.push(c)[i]) by {
            if i < t.len() {
                assert(t.push(c)[i] == t[i]);
            }
        }
        if s[0] != '+' {
            let p = seq!['+'] + s;
            assert(p[0] == '+');
            assert(p.drop_first() == s);
        }
    }
}

/// Nothing else is a number: not the empty text, a sign alone, or a text with anything but digits
/// behind an optional plus sign; nor is one that is too large.
pub proof fn law_no_other_numbers(s: Seq<char>, max: nat)
    ensures
        s.len() == 0 ==> number_of(s, max) is None,
        s == seq!['+'] ==> number_of(s, max) is None,
        (exists|i: int| 0 <= i < s.len() && !('0' <= #[trigger] s[i] <= '9') && !(i == 0 && s[i] == '+'))
            ==> number_of(s, max) is None,
        number_of(s, max) matches Some(n) ==> n <= max,
{
    if exists|i: int| 0 <= i < s.len() && !('0' <= #[trigger] s[i] <= '9') && !(i == 0 && s[i] == '+') {
        let i = choose|i: int|
            0 <= i < s.len() && !('0' <= #[trigger] s[i] <= '9') && !(i == 0 && s[i] == '+');
        let t = without_plus(s);
        if s[0] == '+' {
            assert(t[i - 1] == s[i]);
            assert(!is_digit(t[i - 1]));
        } else {
            assert(!is_digit(t[i]));
        }
    }
    if s == seq!['+'] {
        assert(without_plus(s).len() == 0);
    }
}

proof fn decimal_digits(n: nat)
    ensures
        decimal(n).len() > 0,
        all_digits(decimal(n)),
        digits_value(decimal(n)) == n,
        n > 0 ==> decimal(n)[0] != '0',
    decreases n,
{
    reveal_with_fuel(digits_value, 2);
    if n < 10 {
        let c = (48 + n) as char;
        assert(decimal(n).drop_last() == Seq::<char>::empty());
        assert(is_digit(c));
    } else {
        let c = (48 + n % 10) as char;
        decimal_digits(n / 10);
        let t = decimal(n / 10);
        assert(is_digit(c));
        assert(t.push(c).drop_last() == t);
        assert forall|i: int| 0 <= i < t.push(c).len() implies is_digit(#[trigger] t.push(c)[i]) by {
            if i < t.len() {
                assert(t.push(c)[i] == t[i]);
            }
        }
        assert(digits_value(t.push(c)) == 10 * (n / 10) + n % 10);
    }
}

/// A number in decimal digits is read back as that number, if it is not too large. No zero leads, but
/// for zero itself.
pub proof fn law_decimal_is_read_back(n: nat, max: nat)
    ensures
        n <= max ==> number_of(decimal(n), max) == Some(n),
        n > max ==> number_of(decimal(n), max) is None,
        n > 0 ==> decimal(n)[0] != '0',
        n == 0 ==> decimal(n).len() == 1,
{
    decimal_digits(n);
    assert(is_digit(decimal(n)[0]));
    assert(decimal(n)[0] != '+');
}

// ---------------------------------------------------------------------------
//  Arguments
// ---------------------------------------------------------------------------

/// One option with its value.
pub enum Choice {
    Port { text: Seq<char>, port: u16 },
    Seed { text: Seq<char>, seed: u8 },
    File { path: Seq<char> },
}

/// The value is one that the option takes.
pub open spec fn is_good(c: Choice) -> bool {
    match c {
        Choice::Port { text, port } => number_of(text, 65535) == Some(port as nat),
        Choice::Seed { text, seed } => number_of(text, 255) == Some(seed as nat),
        Choice::File { .. } => true,
    }
}

/// The two arguments of an option.
pub open spec fn words_of(c: Choice) -> Seq<Seq<char>> {
    match c {
        Choice::Port { text, .. } => seq!["--port"@, text],
        Choice::Seed { text, .. } => seq!["--secret-key-seed"@, text],
        Choice::File { path } => seq!["--addr-file"@, path],
    }
}

/// The name of the program, and the arguments of the options in their order.
pub open spec fn words(program: Seq<char>, choices: Seq<Choice>) -> Seq<Seq<char>>
    decreases choices.len(),
{
    if choices.len() == 0 {
        seq![program]
    } else {
        words(program, choices.drop_last()) + words_of(choices.last())
    }
}

/// The port of the last option that names one; zero, if none does.
pub open spec fn last_port(choices: Seq<Choice>) -> u16
    decreases choices.len(),
{
    if choices.len() == 0 {
        0
    } else {
        match choices.last() {
            Choice::Port { port, .. } => port,
            _ => last_port(choices.drop_last()),
        }
    }
}

/// The seed of the last option that names one.
pub open spec fn last_seed(choices: Seq<Choice>) -> Option<u8>
    decreases choices.len(),
{
    if choices.len() == 0 {
        None
    } else {
        match choices.last() {
            Choice::Seed { seed, .. } => Some(seed),
            _ => last_seed(choices.drop_last()),
        }
    }
}

/// The file of the last option that names one.
pub open spec fn last_file(choices: Seq<Choice>) -> Option<Seq<char>>
    decreases choices.len(),
{
    if choices.len() == 0 {
        None
    } else {
        match choices.last() {
            Choice::File { path } => Some(path),
            _ => last_file(choices.drop_last()),
        }
    }
}

/// Every option has a value that it takes.
pub open spec fn all_good(choices: Seq<Choice>) -> bool {
    forall|i: int| 0 <= i < choices.len() ==> is_good(#[trigger] choices[i])
}

proof fn option_names()
    ensures
        "--port"@ != "--secret-key-seed"@,
        "--port"@ != "--addr-file"@,
        "--secret-key-seed"@ != "--addr-file"@,
        "-h"@ != "--port"@ && "--help"@ != "--port"@,
        "-h"@ != "--secret-key-seed"@ && "--help"@ != "--secret-key-seed"@,
        "-h"@ != "--addr-file"@ && "--help"@ != "--addr-file"@,
{
    reveal_strlit("--port");
    reveal_strlit("--secret-key-seed");
    reveal_strlit("--addr-file");
    reveal_strlit("-h");
    reveal_strlit("--help");
    assert("--port"@.len() == 6);
    assert("--help"@.len() == 6);
    assert("--port"@[2] == 'p');
    assert("--help"@[2] == 'h');
    assert("--secret-key-seed"@.len() == 17);
    assert("--addr-file"@.len() == 11);
    assert("-h"@.len() == 2);
}

/// Good options leave the rest of the arguments to be read with what they have set.
proof fn options_are_taken(program: Seq<char>, choices: Seq<Choice>, rest: Seq<Seq<char>>)
    requires
        all_good(choices),
    ensures
        words(program, choices).len() == 1 + 2 * choices.len(),
        asked_from(words(program, choices) + rest, 1, no_settings()) == asked_from(
            words(program, choices) + rest,
            (1 + 2 * choices.len()) as int,
            Settings {
                port: last_port(choices),
                seed: last_seed(choices),
                addr_file: last_file(choices),
            },
        ),
    decreases choices.len(),
{
    if choices.len() > 0 {
        option_names();
        let before = choices.drop_last();
        let c = choices.last();
        assert forall|i: int| 0 <= i < before.len() implies is_good(#[trigger] before[i]) by {
            assert(before[i] == choices[i]);
        }
        assert(is_good(choices[choices.len() - 1]));
        options_are_taken(program, before, words_of(c) + rest);
        let args = words(program, choices) + rest;
        assert(args == words(program, before) + (words_of(c) + rest));
        let i = (1 + 2 * before.len()) as int;
        assert(args[i] == words_of(c)[0]);
        assert(args[i + 1] == words_of(c)[1]);
    }
}

/// The server runs with the last port, seed and file that the options name, in whatever order they
/// stand, and with a port of the system's choice if they name none. Without a seed or a file it does
/// not run.
pub proof fn law_options_are_taken(program: Seq<char>, choices: Seq<Choice>)
    requires
        all_good(choices),
    ensures
        ({
            let asked = asked_from(words(program, choices), 1, no_settings());
            &&& last_seed(choices) is Some && last_file(choices) is Some ==> asked == (ArgsView::Run {
                port: last_port(choices),
                seed: last_seed(choices)->0,
                addr_file: last_file(choices)->0,
            })
            &&& last_seed(choices) is None || last_file(choices) is None ==> asked
                == ArgsView::Incomplete
        }),
{
    let none = Seq::<Seq<char>>::empty();
    options_are_taken(program, choices, none);
    assert(words(program, choices) + none == words(program, choices));
}

/// The first argument that is not part of a good option decides: either word for help asks for the
/// usage, whatever follows; an option at the end misses its value; a port or a seed that is no number, or
/// too large a one, is refused; and everything else is unknown.
pub proof fn law_other_arguments(program: Seq<char>, choices: Seq<Choice>, rest: Seq<Seq<char>>)
    requires
        all_good(choices),
        rest.len() > 0,
    ensures
        ({
            let asked = asked_from(words(program, choices) + rest, 1, no_settings());
            let word = rest[0];
            let is_option = word == "--port"@ || word == "--secret-key-seed"@ || word == "--addr-file"@;
            &&& word == "-h"@ || word == "--help"@ ==> asked == ArgsView::Help
            &&& is_option && rest.len() == 1 ==> asked == (ArgsView::MissingValue { option: word })
            &&& word == "--port"@ && rest.len() > 1 && number_of(rest[1], 65535) is None ==> asked
                == ArgsView::InvalidPort
            &&& word == "--secret-key-seed"@ && rest.len() > 1 && number_of(rest[1], 255) is None
                ==> asked == ArgsView::InvalidSeed
            &&& word != "-h"@ && word != "--help"@ && !is_option ==> asked == (ArgsView::Unknown {
                argument: word,
            })
        }),
{
    option_names();
    options_are_taken(program, choices, rest);
    let args = words(program, choices) + rest;
    let i = (1 + 2 * choices.len()) as int;
    assert(args[i] == rest[0]);
    if rest.len() > 1 {
        assert(args[i + 1] == rest[1]);
    }
}

/// The usage names the program and the options, line by line.
pub proof fn law_usage(program: Seq<char>)
    ensures
        usage_lines(program).len() == 9,
        usage_lines(program)[0] == "Usage: "@ + program + " [OPTIONS]"@,
        usage_lines(program)[1].len() == 0,
        usage_lines(program)[2] == "A libp2p relay server for Mercury NA plugin tests."@,
        usage_lines(program)[3].len() == 0,
        usage_lines(program)[4] == "Options:"@,
        usage_lines(program)[5]
            == "  --port <PORT>              TCP port to listen on (default: 0, OS-assigned)"@,
        usage_lines(program)[6]
            == "  --secret-key-seed <SEED>   Seed byte (0-255) for deterministic Ed25519 keypair (required)"@,
        usage_lines(program)[7]
            == "  --addr-file <PATH>         File to write the full listening multiaddr to (required)"@,
        usage_lines(program)[8] == "  -h, --help                 Print this help message and exit"@,
{
    reveal_strlit("");
}

/// The name that the usage gives the program where the system gives none.
pub proof fn law_default_program()
    ensures
        DEFAULT_PROGRAM@ == "mercury-na-relay-server"@,
{
}

// ---------------------------------------------------------------------------
//  Identity and addresses
// ---------------------------------------------------------------------------

/// A secret key has thirty-two bytes: the seed, and zero everywhere else. So no two seeds have the same.
pub proof fn law_secret(seed: u8, other: u8)
    ensures
        secret_of(seed).len() == 32,
        secret_of(seed)[0] == seed,
        forall|i: int| 0 < i < 32 ==> #[trigger] secret_of(seed)[i] == 0,
        secret_of(seed) == secret_of(other) ==> seed == other,
{
}

/// The server listens on the given TCP port of every interface.
pub proof fn law_listen_point(port: u16)
    ensures
        listen_point(port).len() == 2,
        listen_point(port)[0] == ProtocolView::Ip4(0),
        listen_point(port)[1] == ProtocolView::Tcp(port),
{
}

/// What the server says of an address on which it listens is that address with the local host in the
/// place of every unspecified IPv4 address, and its identity behind it.
pub proof fn law_address_that_is_told(ps: Seq<ProtocolView>, peer: Seq<u8>, i: int)
    requires
        0 <= i < ps.len(),
    ensures
        ({
            let told = resolved(ps, Some(local_host()));
            &&& told.len() == ps.len()
            &&& ps[i] == ProtocolView::Ip4(0) ==> told[i] == ProtocolView::Ip4(2130706433)
            &&& ps[i] != ProtocolView::Ip4(0) ==> told[i] == ps[i]
            &&& full_text(told, peer) == multiaddr_text(told) + "/p2p/"@ + peer_id_text(peer)
        }),
{
    law_resolved_by_component(ps, Some(local_host()), i);
    assert(local_host() == IpAddress::V4(0x7f00_0001));
}

} // verus!
