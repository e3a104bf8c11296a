use cli_tool::cli::{parse_args, CliArgs, SocketAddress};
use cli_tool::errors::{AddrParseError, ParseError};

/// Stands for the standard library's address reader on the texts these tests use: it
/// reads two addresses and refuses every other text, "4311" among them.
fn loopback(s: &str) -> Result<SocketAddress, AddrParseError> {
    if s == "127.0.0.1:8000" {
        Ok(SocketAddress::V4 { octets: [127, 0, 0, 1], port: 8000 })
    } else if s == "192.168.1.5:4311" {
        Ok(SocketAddress::V4 { octets: [192, 168, 1, 5], port: 4311 })
    } else {
        Err(AddrParseError)
    }
}

fn words(ws: &[&str]) -> Vec<String> {
    ws.iter().map(|w| w.to_string()).collect()
}

fn arg_message(r: Result<CliArgs, ParseError>) -> String {
    match r {
        Err(ParseError::Arg(m)) => m,
        other => panic!("expected an argument error, got {:?}", other),
    }
}

#[test]
fn test_valid_send_command() {
    let mock_inputs = vec![
        "send".to_string(),
        "4311".to_string(),
        "data.txt".to_string(),
        "hello.py".to_string(),
        "welcome.py".to_string(),
    ];

    let result = parse_args(mock_inputs, loopback);

    // "4311" is not a socket address, so the send command is refused.
    assert!(matches!(result, Err(ParseError::InvalidIpAddress(AddrParseError))));

    if let Ok(CliArgs::Send { ref target_peer, ref files }) = result {
        assert_eq!(*target_peer, SocketAddress::V4 { octets: [192, 168, 1, 5], port: 4311 });
        assert_eq!(files[0], "data.txt");
        println!("{:?}", result)
    }
}

#[test]
fn real_addresses_are_read() {
    match parse_args(words(&["send", "192.168.1.5:4311", "data.txt"]), loopback) {
        Ok(CliArgs::Send { target_peer, files }) => {
            assert_eq!(target_peer, SocketAddress::V4 { octets: [192, 168, 1, 5], port: 4311 });
            assert_eq!(files[0], "data.txt");
        }
        other => panic!("{:?}", other),
    }
}

#[test]
fn test_valid_get_command() {
    let mock_inputs = vec!["receive".to_string(), "4311".to_string()];

    let result = parse_args(mock_inputs, loopback);

    match result {
        Ok(_) => {}
        Err(e) => panic!("{:?}", e),
    }
}

#[test]
fn parse_files() {}

#[test]
fn receive_reads_the_port() {
    match parse_args(words(&["receive", "4311"]), loopback) {
        Ok(CliArgs::Receive { listener_port }) => assert_eq!(listener_port, 4311),
        other => panic!("{:?}", other),
    }
    match parse_args(words(&["receive", "+0065535"]), loopback) {
        Ok(CliArgs::Receive { listener_port }) => assert_eq!(listener_port, 65535),
        other => panic!("{:?}", other),
    }
}

#[test]
fn receive_refuses_a_bad_port() {
    for bad in ["65536", "-1", "", "+", "80a", " 80", "++8"] {
        match parse_args(words(&["receive", bad]), loopback) {
            Err(ParseError::PortParseError(_)) => {}
            other => panic!("{}: {:?}", bad, other),
        }
    }
}

#[test]
fn missing_words_are_reported() {
    assert_eq!(arg_message(parse_args(words(&[]), loopback)), "No Command was provided");
    assert_eq!(
        arg_message(parse_args(words(&["receive"]), loopback)),
        "No Port Number was provided"
    );
    assert_eq!(
        arg_message(parse_args(words(&["send"]), loopback)),
        "Target ip address was not provided"
    );
    assert_eq!(
        arg_message(parse_args(words(&["send", "127.0.0.1:8000"]), loopback)),
        "Please provide a file(s) to transfer"
    );
    assert_eq!(
        arg_message(parse_args(words(&["fetch", "x"]), loopback)),
        "Please provide a valid command [send][receive]"
    );
}

#[test]
fn send_reads_address_and_trimmed_files() {
    match parse_args(words(&["send", "127.0.0.1:8000", "  data.txt\n", "hello.py", "\u{3000}w.py\t"]), loopback) {
        Ok(CliArgs::Send { target_peer, files }) => {
            assert_eq!(target_peer, SocketAddress::V4 { octets: [127, 0, 0, 1], port: 8000 });
            assert_eq!(files, vec!["data.txt".to_string(), "hello.py".to_string(), "w.py".to_string()]);
        }
        other => panic!("{:?}", other),
    }
}

#[test]
fn a_bad_address_is_reported_before_missing_files() {
    match parse_args(words(&["send", "4311"]), loopback) {
        Err(ParseError::InvalidIpAddress(AddrParseError)) => {}
        other => panic!("{:?}", other),
    }
}
