use cli_tool::cli::SocketAddress;
use cli_tool::crypto::derive_encryption_key;
use cli_tool::errors::NetworkError;
use cli_tool::frame::{read_size_header, size_header};
use cli_tool::receiver::{ReceiverHandshaking, ReceiverInitial, ReceiverStreaming};
use cli_tool::sender::{SenderHandshaking, SenderInitial, SenderStreaming};
use cli_tool::{FileData, Files, WarpApp};
use std::collections::VecDeque;
use std::io::{Error, ErrorKind};

fn peer() -> SocketAddress {
    SocketAddress::V4 { octets: [192, 168, 1, 5], port: 4311 }
}

fn file(name: &str, size: u64) -> Files {
    Files(
        name.to_string(),
        FileData { name: name.to_string(), file_size: size, file_type: "txt".to_string() },
    )
}

fn broken() -> Error {
    Error::new(ErrorKind::ConnectionRefused, "refused")
}

fn streaming(nonce: [u8; 24]) -> WarpApp<SenderStreaming> {
    let mut queue = VecDeque::new();
    queue.push_back(file("a.txt", 1));
    queue.push_back(file("b.txt", 2));
    WarpApp {
        role: SenderStreaming { nonce, file_queue: queue, key: [3u8; 32], active_file: None },
        config: None,
    }
}

#[test]
fn size_header_is_little_endian() {
    let h = size_header(0x0102_0304_0506_0708);
    assert_eq!(h[..8], [8, 7, 6, 5, 4, 3, 2, 1]);
    assert_eq!(h[8..], [0u8; 56]);
    assert_eq!(size_header(0), [0; 64]);
    for n in [0u64, 1, 255, 256, 65_537, u64::MAX] {
        assert_eq!(read_size_header(&size_header(n)), n);
    }
    let mut all = [0xffu8; 64];
    assert_eq!(read_size_header(&all), u64::MAX);
    all[0] = 0xfe;
    assert_eq!(read_size_header(&all), u64::MAX - 1);
}

#[test]
fn nonce_counts_up_with_carry() {
    let mut app = streaming([0; 24]);
    app.increment_nonce();
    let mut expected = [0u8; 24];
    expected[0] = 1;
    assert_eq!(app.role.nonce, expected);

    let mut start = [0u8; 24];
    start[0] = 255;
    start[1] = 255;
    start[2] = 7;
    let mut app = streaming(start);
    app.increment_nonce();
    let mut expected = [0u8; 24];
    expected[2] = 8;
    assert_eq!(app.role.nonce, expected);
    assert_eq!(app.role.file_queue.len(), 2);
}

#[test]
fn nonce_wraps_around() {
    let mut app = streaming([255; 24]);
    app.increment_nonce();
    assert_eq!(app.role.nonce, [0; 24]);
}

#[test]
fn sender_connect_keeps_files() {
    let mut files = VecDeque::new();
    files.push_back(file("a.txt", 1));
    let app = WarpApp { role: SenderInitial { target_peer: peer(), files }, config: None };
    let next = app.connect(Ok(())).ok().unwrap();
    assert_eq!(next.role.salt, [0; 16]);
    assert_eq!(next.role.files.len(), 1);

    let app = WarpApp { role: SenderInitial { target_peer: peer(), files: VecDeque::new() }, config: None };
    match app.connect(Err(broken())) {
        Err(NetworkError::ReceiverError(e)) => assert_eq!(e.kind(), ErrorKind::ConnectionRefused),
        Ok(_) => panic!("connected"),
    }
}

#[test]
fn sender_handshake_uses_the_drawn_password_and_nonce() {
    let mut files = VecDeque::new();
    files.push_back(file("a.txt", 1));
    let app = WarpApp { role: SenderHandshaking { files, salt: [0; 16] }, config: None };
    let next = app.handshake_with(Ok([5u8; 16]), "abc1234".to_string(), [9u8; 24]).ok().unwrap();
    assert_eq!(next.role.key, derive_encryption_key("abc1234".to_string(), &[5u8; 16]));
    assert_eq!(next.role.nonce, [9u8; 24]);
    assert_eq!(next.role.file_queue.len(), 1);
    assert!(next.role.active_file.is_none());
}

#[test]
fn receiver_keeps_the_drawn_salt() {
    let app = WarpApp {
        role: ReceiverInitial { target_peer: peer(), password: "pw".to_string() },
        config: None,
    };
    let hs = app.connect_with(Ok(peer()), [4u8; 16]).ok().unwrap();
    assert_eq!(hs.role.salt, [4u8; 16]);
    assert_eq!(hs.role.target_peer, peer());
}

#[test]
fn sender_handshake_keys_and_keeps_queue() {
    let mut files = VecDeque::new();
    files.push_back(file("a.txt", 1));
    let app = WarpApp { role: SenderHandshaking { files, salt: [0; 16] }, config: None };
    let next = app.handshake(Ok([5u8; 16])).ok().unwrap();
    assert_eq!(next.role.file_queue.len(), 1);
    assert!(next.role.active_file.is_none());
    assert_ne!(next.role.key, [0u8; 32]);

    let app = WarpApp { role: SenderHandshaking { files: VecDeque::new(), salt: [0; 16] }, config: None };
    assert!(app.handshake(Err(broken())).is_err());
}

#[test]
fn header_frame_announces_metadata_length() {
    let mut app = streaming([0; 24]);
    let f = app.next_file().unwrap();
    assert_eq!(f.0, "a.txt");
    assert_eq!(app.role.file_queue.len(), 1);
    let frame = app.send_header(f, Ok(()), &[1, 2, 3]).ok().unwrap();
    let mut expected = vec![0u8; 64];
    expected[0] = 3;
    expected.extend_from_slice(&[1, 2, 3]);
    assert_eq!(frame, expected);
    let active = app.role.active_file.as_ref().unwrap();
    assert_eq!(active.meta.name, "a.txt");
    assert_eq!(active.bytes_tranferred, 0);

    let g = app.next_file().unwrap();
    let frame = app.send_header(g, Ok(()), &[]).ok().unwrap();
    assert_eq!(frame, vec![0; 64]);
    assert_eq!(app.role.active_file.as_ref().unwrap().meta.name, "a.txt");
    assert!(app.next_file().is_none());
}

#[test]
fn failed_open_changes_nothing() {
    let mut app = streaming([0; 24]);
    let f = app.next_file().unwrap();
    assert!(app.send_header(f, Err(broken()), &[1]).is_err());
    assert!(app.role.active_file.is_none());
}

#[test]
fn receiver_reads_salt_key_and_header() {
    let app = WarpApp {
        role: ReceiverInitial { target_peer: peer(), password: "secret7".to_string() },
        config: None,
    };
    let other = SocketAddress::V6 { segments: [0, 0, 0, 0, 0, 0, 0, 1], port: 9, flowinfo: 0, scope_id: 0 };
    let hs = app.connect(Ok(other)).ok().unwrap();
    assert_eq!(hs.role.target_peer, other);
    assert_eq!(hs.role.password, "secret7");
    let salt = hs.role.salt;

    let mut st = hs.handshake(Ok(())).ok().unwrap();
    assert_eq!(st.role.key, derive_encryption_key("secret7".to_string(), &salt));
    assert_eq!(st.role.nonce, [0; 24]);
    assert_eq!(st.role.target_peer, other);

    let frame_head = size_header(1234);
    assert_eq!(st.receiver_header(Ok(frame_head)).ok().unwrap(), 1234);
    assert!(st.receiver_header(Err(broken())).is_err());
}

#[test]
fn receiver_salts_differ() {
    let make = || WarpApp {
        role: ReceiverInitial { target_peer: peer(), password: "pw".to_string() },
        config: None,
    };
    let a = make().connect(Ok(peer())).ok().unwrap().role.salt;
    let b = make().connect(Ok(peer())).ok().unwrap().role.salt;
    assert_ne!(a, b);
}

#[test]
fn receiver_failures_are_network_errors() {
    let app = WarpApp {
        role: ReceiverInitial { target_peer: peer(), password: "pw".to_string() },
        config: None,
    };
    assert!(app.connect(Err(broken())).is_err());
    let hs = WarpApp {
        role: ReceiverHandshaking { target_peer: peer(), salt: [1; 16], password: "pw".to_string() },
        config: None,
    };
    let r: Result<WarpApp<ReceiverStreaming>, NetworkError> = hs.handshake(Err(broken()));
    assert!(r.is_err());
}
