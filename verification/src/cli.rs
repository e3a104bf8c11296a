//! The command line: `send <ip:port> <file>...` or `receive <port>`.
use crate::errors::{AddrParseError, ParseError};
use vstd::prelude::*;
use vstd::string::*;

verus! {

/// A socket address as `std::net::SocketAddr` holds it.
#[derive(Debug, Clone, Copy, PartialEq, Eq)]
pub enum SocketAddress {
    V4 { octets: [u8; 4], port: u16 },
    V6 { segments: [u16; 8], port: u16, flowinfo: u32, scope_id: u32 },
}

/// What the command line asks for.
#[derive(Debug)]
pub enum CliArgs {
    Send { target_peer: SocketAddress, files: Vec<String> },
    Receive { listener_port: u16 },
}

/// The meaning of a `CliArgs`, with each file name as its characters.
pub enum CliArgsView {
    Send { target_peer: SocketAddress, files: Seq<Seq<char>> },
    Receive { listener_port: u16 },
}

/// The meaning of a `ParseError`.
pub enum ParseErrorView {
    PortParseError(std::num::ParseIntError),
    InvalidFile(Seq<char>),
    Arg(Seq<char>),
    InvalidIpAddress(AddrParseError),
}

impl View for CliArgs {
    type V = CliArgsView;

    open spec fn view(&self) -> CliArgsView {
        match self {
            CliArgs::Send { target_peer, files } => CliArgsView::Send {
                target_peer: *target_peer,
                files: files.deep_view(),
            },
            CliArgs::Receive { listener_port } => CliArgsView::Receive {
                listener_port: *listener_port,
            },
        }
    }
}

impl View for ParseError {
    type V = ParseErrorView;

    open spec fn view(&self) -> ParseErrorView {
        match self {
            ParseError::PortParseError(e) => ParseErrorView::PortParseError(*e),
            ParseError::InvalidFile(m) => ParseErrorView::InvalidFile(m@),
            ParseError::Arg(m) => ParseErrorView::Arg(m@),
            ParseError::InvalidIpAddress(e) => ParseErrorView::InvalidIpAddress(*e),
        }
    }
}

/// The meaning of what `parse_args` returns.
pub open spec fn parsed_view(r: Result<CliArgs, ParseError>) -> Result<CliArgsView, ParseErrorView> {
    match r {
        Ok(a) => Ok(a@),
        Err(e) => Err(e@),
    }
}

/// Characters with the Unicode `White_Space` property, which `str::trim` removes.
pub open spec fn is_white_space(c: char) -> bool {
    let u = c as u32;
    ||| (0x09 <= u && u <= 0x0d)
    ||| u == 0x20
    ||| u == 0x85
    ||| u == 0xa0
    ||| u == 0x1680
    ||| (0x2000 <= u && u <= 0x200a)
    ||| u == 0x2028
    ||| u == 0x2029
    ||| u == 0x202f
    ||| u == 0x205f
    ||| u == 0x3000
}

pub open spec fn trim_start(s: Seq<char>) -> Seq<char>
    decreases s.len(),
{
    if s.len() > 0 && is_white_space(s[0]) {
        trim_start(s.drop_first())
    } else {
        s
    }
}

pub open spec fn trim_end(s: Seq<char>) -> Seq<char>
    decreases s.len(),
{
    if s.len() > 0 && is_white_space(s.last()) {
        trim_end(s.drop_last())
    } else {
        s
    }
}

/// `s` without white space at either end.
pub open spec fn trim_white_space(s: Seq<char>) -> Seq<char> {
    trim_end(trim_start(s))
}

pub open spec fn is_ascii_digit(c: char) -> bool {
    '0' <= c && c <= '9'
}

/// The number that a string of decimal digits writes.
pub open spec fn decimal_value(s: Seq<char>) -> int
    decreases s.len(),
{
    if s.len() == 0 {
        0
    } else {
        decimal_value(s.drop_last()) * 10 + (s.last() as int - '0' as int)
    }
}

/// The digits of an unsigned number's text: the text without one leading `+`.
pub open spec fn unsigned_digits(s: Seq<char>) -> Seq<char> {
    if s.len() > 0 && s[0] == '+' {
        s.drop_first()
    } else {
        s
    }
}

/// How `u16::from_str` reads a text: an optional `+` and then one or more ASCII
/// digits whose value fits in 16 bits; anything else is refused.
pub open spec fn parse_u16_text(s: Seq<char>) -> Option<u16> {
    let d = unsigned_digits(s);
    if d.len() > 0 && (forall|i: int| 0 <= i < d.len() ==> #[trigger] is_ascii_digit(d[i]))
        && decimal_value(d) <= 0xffff {
        Some(decimal_value(d) as u16)
    } else {
        None
    }
}

/// The command line asks for a `send`, so its second word is read as a socket address.
pub open spec fn reads_address(args: Seq<Seq<char>>) -> bool {
    args.len() >= 2 && args[0] == "send"@
}

/// What the command line `args` means, where `target` is what reading `args[1]` as a
/// socket address gave (it matters only when `reads_address(args)`).
pub open spec fn parse_outcome(args: Seq<Seq<char>>, target: Result<SocketAddress, AddrParseError>) -> Result<
    CliArgsView,
    ParseErrorView,
> {
    if args.len() == 0 {
        Err(ParseErrorView::Arg("No Command was provided"@))
    } else if args[0] == "send"@ {
        if args.len() < 2 {
            Err(ParseErrorView::Arg("Target ip address was not provided"@))
        } else {
            match target {
                Err(e) => Err(ParseErrorView::InvalidIpAddress(e)),
                Ok(t) => if args.len() == 2 {
                    Err(ParseErrorView::Arg("Please provide a file(s) to transfer"@))
                } else {
                    Ok(
                        CliArgsView::Send {
                            target_peer: t,
                            files: args.skip(2).map_values(|f: Seq<char>| trim_white_space(f)),
                        },
                    )
                },
            }
        }
    } else if args[0] == "receive"@ {
        if args.len() < 2 {
            Err(ParseErrorView::Arg("No Port Number was provided"@))
        } else {
            match parse_u16_text(args[1]) {
                Some(p) => Ok(CliArgsView::Receive { listener_port: p }),
                None => Err(ParseErrorView::PortParseError(u16_from_str_error(args[1]))),
            }
        }
    } else {
        Err(ParseErrorView::Arg("Please provide a valid command [send][receive]"@))
    }
}

/// The error value that `u16::from_str` returns on `text` when it refuses it (its
/// `kind()` tells an empty text, a bad digit and an overflow apart).
pub uninterp spec fn u16_from_str_error(text: Seq<char>) -> std::num::ParseIntError;

/// Law: a command line is read as a send exactly when its first word is `send`, and
/// then every word after the address is one file, in order, trimmed of white space;
/// it is read as a receive only when its first word is `receive` and its second is a
/// `u16`, which is the port.
pub proof fn lemma_parse_outcome_keeps_every_file(
    args: Seq<Seq<char>>,
    target: Result<SocketAddress, AddrParseError>,
)
    ensures
        parse_outcome(args, target) matches Ok(CliArgsView::Send { target_peer, files }) ==> (
        args.len() >= 3 && args[0] == "send"@ && target == Ok::<SocketAddress, AddrParseError>(
            target_peer,
        ) && files.len() == args.len() - 2 && forall|j: int|
            0 <= j < files.len() ==> #[trigger] files[j] == trim_white_space(args[j + 2])),
        parse_outcome(args, target) matches Ok(CliArgsView::Receive { listener_port }) ==> (
        args.len() >= 2 && args[0] == "receive"@ && parse_u16_text(args[1]) == Some(
            listener_port,
        )),
{
    reveal_strlit("send");
    reveal_strlit("receive");
}

/// `str::trim`: the text without leading and trailing white space.
#[verifier::external_body]
fn trim_str(s: &str) -> (r: String)
    ensures
        r@ == trim_white_space(s@),
{
    s.trim().to_string()
}

/// `u16::from_str`: accepts exactly the texts `parse_u16_text` reads, and on the others
/// returns an error value that depends on the text alone.
#[verifier::external_body]
fn parse_port(s: &str) -> (r: Result<u16, std::num::ParseIntError>)
    ensures
        match r {
            Ok(p) => parse_u16_text(s@) == Some(p),
            Err(e) => parse_u16_text(s@) is None && e == u16_from_str_error(s@),
        },
{
    s.parse::<u16>()
}

/// Reads the command line `args` (the command first, without the program's name).
/// `send <address> <file>...` reads its address with `parse_socket_addr` and keeps the
/// file names without surrounding white space; `receive <port>` reads a `u16` port.
pub fn parse_args<F: Fn(&str) -> Result<SocketAddress, AddrParseError>>(
    args: Vec<String>,
    parse_socket_addr: F,
) -> (r: Result<CliArgs, ParseError>)
    requires
        forall|s: &str| #[trigger] parse_socket_addr.requires((s,)),
    ensures
        !reads_address(args.deep_view()) ==> parsed_view(r) == parse_outcome(
            args.deep_view(),
            Err(AddrParseError),
        ),
        reads_address(args.deep_view()) ==> exists|
            s: &str,
            t: Result<SocketAddress, AddrParseError>,
        |
            s@ == args.deep_view()[1] && #[trigger] parse_socket_addr.ensures((s,), t)
                && parsed_view(r) == parse_outcome(args.deep_view(), t),
        r matches Ok(CliArgs::Send { target_peer, files }) ==> (args@.len() >= 3 && args@[0]@
            == "send"@ && files@.len() == args@.len() - 2 && (forall|j: int|
            0 <= j < files@.len() ==> #[trigger] files@[j]@ == trim_white_space(args@[j + 2]@))
            && exists|s: &str|
            s@ == args@[1]@ && #[trigger] parse_socket_addr.ensures(
                (s,),
                Ok::<SocketAddress, AddrParseError>(target_peer),
            )),
        r matches Ok(CliArgs::Receive { listener_port }) ==> (args@.len() >= 2 && args@[0]@
            == "receive"@ && parse_u16_text(args@[1]@) == Some(listener_port)),
{
    let ghost a = args.deep_view();
    proof {
        reveal_strlit("send");
        reveal_strlit("receive");
    }
    if args.len() == 0 {
        return Err(ParseError::Arg(String::from_str("No Command was provided")));
    }
    let send = String::from_str("send");
    let receive = String::from_str("receive");
    assert(args@[0]@ == a[0]);
    if args[0] == send {
        if args.len() < 2 {
            return Err(ParseError::Arg(String::from_str("Target ip address was not provided")));
        }
        let target = parse_socket_addr(args[1].as_str());
        assert(args@[1]@ == a[1]);
        match target {
            Err(e) => Err(ParseError::InvalidIpAddress(e)),
            Ok(t) => {
                let mut files: Vec<String> = Vec::new();
                let mut i: usize = 2;
                while i < args.len()
                    invariant
                        2 <= i <= args.len(),
                        a == args.deep_view(),
                        files@.len() == i - 2,
                        forall|j: int|
                            0 <= j < files@.len() ==> #[trigger] files@[j]@ == trim_white_space(
                                a[j + 2],
                            ),
                    decreases args.len() - i,
                {
                    let f = trim_str(args[i].as_str());
                    files.push(f);
                    i = i + 1;
                }
                if files.len() == 0 {
                    return Err(ParseError::Arg(String::from_str("Please provide a file(s) to transfer")));
                }
                assert(files.deep_view() =~= a.skip(2).map_values(
                    |f: Seq<char>| trim_white_space(f),
                ));
                Ok(CliArgs::Send { target_peer: t, files })
            },
        }
    } else if args[0] == receive {
        if args.len() < 2 {
            return Err(ParseError::Arg(String::from_str("No Port Number was provided")));
        }
        assert(args@[1]@ == a[1]);
        match parse_port(args[1].as_str()) {
            Ok(p) => Ok(CliArgs::Receive { listener_port: p }),
            Err(e) => Err(ParseError::PortParseError(e)),
        }
    } else {
        Err(ParseError::Arg(String::from_str("Please provide a valid command [send][receive]")))
    }
}

} // verus!
