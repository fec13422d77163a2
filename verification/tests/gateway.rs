use webgate::config::{CfgError, Config, Json};
use webgate::http::{load_from_config, resp, ws_handshake, HttpSession, Resources};
use webgate::reactor::{apply_event, refresh_pollfds, Interest, ProtocolEvent, Session};
use webgate::tcp_server::TcpServer;
use webgate::websockets::{ChildFds, WsCommand, WsOutcome, WsSession};

fn session(cmd: &str, args: &[&str]) -> WsSession {
    let pair = (
        String::from(cmd),
        args.iter().map(|a| String::from(*a)).collect::<Vec<String>>(),
    );
    WsSession::new(7, &pair)
}

/// A client-side frame: FIN/opcode byte, masked payload.
fn masked_frame(fin: bool, opcode: u8, payload: &[u8], key: [u8; 4]) -> Vec<u8> {
    let mut f = Vec::new();
    f.push((opcode & 0xf) | if fin { 0x80 } else { 0 });
    assert!(payload.len() <= 125);
    f.push(0x80 | payload.len() as u8);
    f.extend_from_slice(&key);
    for (i, b) in payload.iter().enumerate() {
        f.push(b ^ key[i % 4]);
    }
    f
}

fn unmasked_frame(fin: bool, opcode: u8, payload: &[u8]) -> Vec<u8> {
    let mut f = Vec::new();
    f.push((opcode & 0xf) | if fin { 0x80 } else { 0 });
    if payload.len() <= 125 {
        f.push(payload.len() as u8);
    } else if payload.len() <= 0xffff {
        f.push(126);
        f.extend_from_slice(&(payload.len() as u16).to_be_bytes());
    } else {
        f.push(127);
        f.extend_from_slice(&(payload.len() as u64).to_be_bytes());
    }
    f.extend_from_slice(payload);
    f
}

fn round_trip(len: usize) {
    let payload: Vec<u8> = (0..len).map(|i| (i % 251) as u8).collect();
    let frame = unmasked_frame(true, 1, &payload);
    let mut s = session("/bin/true", &[]);
    s.ingest(&frame);
    match s.parse_ws_frame() {
        Some((fin, opcode, got)) => {
            assert!(fin);
            assert_eq!(opcode, 1);
            assert_eq!(got, payload);
        }
        None => panic!("frame of length {} did not parse", len),
    }
    assert!(s.parse_ws_frame().is_none());
}

#[test]
fn frame_round_trip_small() {
    round_trip(0);
    round_trip(1);
    round_trip(125);
}

#[test]
fn frame_round_trip_extended16() {
    round_trip(126);
    round_trip(127);
    round_trip(0xffff);
}

#[test]
fn frame_round_trip_extended64() {
    round_trip(0x10000);
}

#[test]
fn frame_length_encodings_distinct() {
    // each boundary size picks a distinct header size
    assert_eq!(unmasked_frame(true, 1, &vec![0u8; 125])[1], 125);
    assert_eq!(unmasked_frame(true, 1, &vec![0u8; 126])[1], 126);
    assert_eq!(unmasked_frame(true, 1, &vec![0u8; 127])[1], 126);
    assert_eq!(unmasked_frame(true, 1, &vec![0u8; 0xffff])[1], 126);
    assert_eq!(unmasked_frame(true, 1, &vec![0u8; 0x10000])[1], 127);
}

#[test]
fn masked_payload_unmasks() {
    let key = [1u8, 2, 3, 4];
    let payload = b"abcdefg";
    let frame = masked_frame(true, 2, payload, key);
    let mut s = session("/bin/true", &[]);
    s.ingest(&frame);
    let (fin, opcode, got) = s.parse_ws_frame().expect("parse");
    assert!(fin);
    assert_eq!(opcode, 2);
    assert_eq!(got, payload);
    // the wire bytes really were masked
    assert_eq!(frame[6], b'a' ^ 1);
    assert_eq!(frame[7], b'b' ^ 2);
}

#[test]
fn partial_frame_waits() {
    let frame = unmasked_frame(true, 1, b"hello");
    let mut s = session("/bin/true", &[]);
    s.ingest(&frame[..3]);
    assert!(matches!(s.next_message(), WsOutcome::Pending));
    s.ingest(&frame[3..]);
    match s.next_message() {
        WsOutcome::Message(m) => assert_eq!(m, b"hello"),
        _ => panic!("expected a message"),
    }
}

#[test]
fn consumed_prefix_leaves_next_frame() {
    let mut bytes = unmasked_frame(true, 1, b"one");
    bytes.extend_from_slice(&unmasked_frame(true, 1, b"two"));
    let mut s = session("/bin/true", &[]);
    s.ingest(&bytes);
    match s.next_message() {
        WsOutcome::Message(m) => assert_eq!(m, b"one"),
        _ => panic!("expected first message"),
    }
    match s.next_message() {
        WsOutcome::Message(m) => assert_eq!(m, b"two"),
        _ => panic!("expected second message"),
    }
    assert!(matches!(s.next_message(), WsOutcome::Pending));
}

#[test]
fn ping_gets_pong() {
    let key = [9u8, 8, 7, 6];
    let mut s = session("/bin/true", &[]);
    s.ingest(&masked_frame(true, 9, b"ping", key));
    match s.next_message() {
        WsOutcome::Pong(f) => assert_eq!(f, vec![0x8a, 4, b'p', b'i', b'n', b'g']),
        _ => panic!("expected a pong"),
    }
}

#[test]
fn close_frame_removes() {
    let mut s = session("/bin/true", &[]);
    s.ingest(&masked_frame(true, 8, b"", [0, 0, 0, 0]));
    assert!(matches!(s.next_message(), WsOutcome::Closed));
}

#[test]
fn fragmented_message_reassembles() {
    let mut s = session("/bin/true", &[]);
    s.ingest(&masked_frame(false, 1, b"ab", [1, 1, 1, 1]));
    assert!(matches!(s.next_message(), WsOutcome::Ignored));
    s.ingest(&masked_frame(true, 0, b"c", [2, 2, 2, 2]));
    match s.next_message() {
        WsOutcome::Message(m) => {
            assert_eq!(m, b"abc");
            // byte 'a' is then read as a control opcode: unknown, bad message
            assert!(matches!(s.process_ws_message(&m), WsCommand::BadMessage));
        }
        _ => panic!("expected the combined message"),
    }
}

#[test]
fn control_protocol_dispatch() {
    let mut s = session("/bin/echo", &["hello"]);
    assert!(matches!(s.process_ws_message(&vec![0]), WsCommand::Spawn));
    // out of precondition: no child yet
    assert!(matches!(s.process_ws_message(&vec![1]), WsCommand::BadMessage));
    assert!(matches!(s.process_ws_message(&vec![2, 65]), WsCommand::BadMessage));
    assert!(matches!(s.process_ws_message(&vec![]), WsCommand::BadMessage));

    let fail = s.ws_spawned(None).expect("a PROCESS_FAIL frame");
    assert_eq!(fail, vec![0x81, 1, 0]);
    assert!(s.ws_spawned(Some(ChildFds { stdout_fd: 11, stderr_fd: 12 })).is_none());

    // with a child: ready is now bad, kill and push work
    assert!(matches!(s.process_ws_message(&vec![0]), WsCommand::BadMessage));
    assert!(matches!(s.process_ws_message(&vec![1]), WsCommand::Kill));
    match s.process_ws_message(&vec![2, b'h', b'i']) {
        WsCommand::Push(d) => assert_eq!(d, b"hi"),
        _ => panic!("expected a push"),
    }
    assert!(matches!(s.process_ws_message(&vec![9]), WsCommand::BadMessage));
}

#[test]
fn ready_message_asks_for_spawn() {
    // after the upgrade, a masked single-byte message carrying CLIENT_READY
    // asks the reactor to spawn the configured command
    let mut s = session("/bin/echo", &["hello"]);
    s.ingest(&masked_frame(true, 2, &[0], [5, 6, 7, 8]));
    match s.next_message() {
        WsOutcome::Message(m) => {
            assert_eq!(m, vec![0]);
            assert!(matches!(s.process_ws_message(&m), WsCommand::Spawn));
        }
        _ => panic!("expected the ready message"),
    }
    assert!(s.ws_spawned(Some(ChildFds { stdout_fd: 20, stderr_fd: 21 })).is_none());
    let f = s.child_output_frame(2, &b"hello\n".to_vec());
    assert_eq!(f, vec![0x81, 7, 2, b'h', b'e', b'l', b'l', b'o', b'\n']);
    let exit = s.process_exit(Some(0));
    assert_eq!(exit, vec![0x81, 2, 1, b'0']);
}

#[test]
fn child_output_and_exit() {
    let mut s = session("/bin/echo", &["hello"]);
    s.ws_spawned(Some(ChildFds { stdout_fd: 11, stderr_fd: 12 }));
    let f = s.child_output_frame(2, &b"hello\n".to_vec());
    assert_eq!(f, vec![0x81, 7, 2, b'h', b'e', b'l', b'l', b'o', b'\n']);
    assert_eq!(s.pollfds(), vec![(7, Interest::Read), (11, Interest::Read), (12, Interest::Read)]);
    let exit = s.process_exit(Some(0));
    assert_eq!(exit, vec![0x81, 2, 1, b'0']);
    assert!(s.dead);
    // a dead session only advertises its client stream
    assert_eq!(s.pollfds(), vec![(7, Interest::Read)]);
    let exit_unknown = {
        let mut t = session("/bin/true", &[]);
        t.process_exit(None)
    };
    assert_eq!(exit_unknown, vec![0x81, 1, 1]);
    let exit_negative = {
        let mut t = session("/bin/true", &[]);
        t.process_exit(Some(-3))
    };
    assert_eq!(exit_negative, vec![0x81, 3, 1, b'-', b'3']);
}

#[test]
fn handshake_matches_reference_vector() {
    let key = b"dGhlIHNhbXBsZSBub25jZQ==".to_vec();
    let got = ws_handshake(&key, "webgate");
    let expected = "HTTP/1.1 101 Switching Protocols\r\nConnection: Upgrade\r\nUpgrade: websocket\r\nServer: webgate\r\nSec-WebSocket-Accept: s3pPLMBiTxaQ9kYGzzhZRbK+xOo=\r\n\r\n";
    assert_eq!(got, expected.as_bytes());
}

#[test]
fn response_bytes_exact() {
    let body = b"hi".to_vec();
    let r = resp("200 OK", &body, "text/html", "banner");
    let expected =
        "HTTP/1.1 200 OK\r\nContent-Length: 2\r\nContent-Type: text/html\r\nServer: banner\r\n\r\nhi";
    assert_eq!(r, expected.as_bytes());
}

fn test_config() -> Config {
    Config {
        files: vec![(
            String::from("/"),
            (String::from("index.html"), String::from("text/html")),
        )],
        address: String::from("0.0.0.0:8080"),
        directories: vec![],
        not_found: String::from("404.html"),
        server: String::from("webgate"),
        commands: vec![(
            String::from("/run"),
            (String::from("/bin/echo"), vec![String::from("hello")]),
        )],
    }
}

fn test_resources(config: &Config) -> Resources {
    load_from_config(config, &vec![b"hi".to_vec()], &b"gone".to_vec())
}

#[test]
fn static_fetch() {
    let config = test_config();
    let resources = test_resources(&config);
    let mut s = HttpSession::new(5);
    let (bytes, event) = s.incoming(b"GET / HTTP/1.1\r\nHost: x\r\n\r\n", &resources, &config);
    let expected =
        "HTTP/1.1 200 OK\r\nContent-Length: 2\r\nContent-Type: text/html\r\nServer: webgate\r\n\r\nhi";
    assert_eq!(bytes, expected.as_bytes());
    assert!(matches!(event, ProtocolEvent::Remove));
}

#[test]
fn unknown_path_is_404() {
    let config = test_config();
    let resources = test_resources(&config);
    let mut s = HttpSession::new(5);
    let (bytes, event) = s.incoming(b"GET /nope HTTP/1.1\r\nHost: x\r\n\r\n", &resources, &config);
    let expected =
        "HTTP/1.1 404 NOT FOUND\r\nContent-Length: 4\r\nContent-Type: text/html\r\nServer: webgate\r\n\r\ngone";
    assert_eq!(bytes, expected.as_bytes());
    assert!(matches!(event, ProtocolEvent::Remove));
}

#[test]
fn incomplete_header_continues() {
    let config = test_config();
    let resources = test_resources(&config);
    let mut s = HttpSession::new(5);
    let (bytes, event) = s.incoming(b"GET / HTTP/1.1\r\n", &resources, &config);
    assert!(bytes.is_empty());
    assert!(matches!(event, ProtocolEvent::Continue));
    // the rest of the header completes the request
    let (bytes, event) = s.incoming(b"Host: x\r\n\r\n", &resources, &config);
    assert!(!bytes.is_empty());
    assert!(matches!(event, ProtocolEvent::Remove));
}

#[test]
fn websocket_upgrade() {
    let config = test_config();
    let resources = test_resources(&config);
    let mut s = HttpSession::new(5);
    let request = "GET /run HTTP/1.1\r\nHost: x\r\nUpgrade: websocket\r\nSec-WebSocket-Key: dGhlIHNhbXBsZSBub25jZQ==\r\n\r\n";
    let (bytes, event) = s.incoming(request.as_bytes(), &resources, &config);
    let expected = "HTTP/1.1 101 Switching Protocols\r\nConnection: Upgrade\r\nUpgrade: websocket\r\nServer: webgate\r\nSec-WebSocket-Accept: s3pPLMBiTxaQ9kYGzzhZRbK+xOo=\r\n\r\n";
    assert_eq!(bytes, expected.as_bytes());
    match event {
        ProtocolEvent::ReplaceWith(boxed) => match *boxed {
            Session::Ws(w) => {
                assert_eq!(w.stream_fd, 5);
                assert_eq!(w.cmd, "/bin/echo");
                assert_eq!(w.args, vec![String::from("hello")]);
                assert!(w.process.is_none());
                assert!(!w.dead);
            }
            _ => panic!("expected a WebSocket session"),
        },
        _ => panic!("expected a replacement"),
    }
}

#[test]
fn preloaded_resource_wins_over_upgrade() {
    // a request for a preloaded path is served statically even when it
    // carries a WebSocket key
    let mut config = test_config();
    config.commands.push((
        String::from("/"),
        (String::from("/bin/echo"), vec![]),
    ));
    let resources = test_resources(&config);
    let mut s = HttpSession::new(5);
    let request = "GET / HTTP/1.1\r\nSec-WebSocket-Key: dGhlIHNhbXBsZSBub25jZQ==\r\n\r\n";
    let (bytes, event) = s.incoming(request.as_bytes(), &resources, &config);
    assert!(bytes.starts_with(b"HTTP/1.1 200 OK\r\n"));
    assert!(matches!(event, ProtocolEvent::Remove));
}

#[test]
fn invalid_utf8_header_is_malformed() {
    let config = test_config();
    let resources = test_resources(&config);
    let mut s = HttpSession::new(5);
    let mut request = b"GET / HTTP/1.1\r\nH".to_vec();
    request.push(0xff);
    request.extend_from_slice(b": y\r\n\r\n");
    let (bytes, event) = s.incoming(&request, &resources, &config);
    assert!(bytes.is_empty());
    assert!(matches!(event, ProtocolEvent::Continue));
}

#[test]
fn upgrade_to_unknown_command_is_404() {
    let config = test_config();
    let resources = test_resources(&config);
    let mut s = HttpSession::new(5);
    let request = "GET /other HTTP/1.1\r\nSec-WebSocket-Key: abc\r\n\r\n";
    let (bytes, event) = s.incoming(request.as_bytes(), &resources, &config);
    assert!(bytes.starts_with(b"HTTP/1.1 404 NOT FOUND\r\n"));
    assert!(matches!(event, ProtocolEvent::Remove));
}

fn obj(entries: Vec<(&str, Json)>) -> Json {
    Json::Obj(entries.into_iter().map(|(k, v)| (String::from(k), v)).collect())
}

fn jstr(s: &str) -> Json {
    Json::Str(String::from(s))
}

fn full_config_json() -> Vec<(&'static str, Json)> {
    vec![
        ("files", obj(vec![("/", Json::Arr(vec![jstr("index.html"), jstr("text/html")]))])),
        ("directories", obj(vec![])),
        ("commands", obj(vec![("/run", Json::Arr(vec![jstr("/bin/echo"), jstr("hello")]))])),
        ("address", jstr("0.0.0.0:8080")),
        ("not_found", jstr("404.html")),
        ("server", jstr("webgate")),
    ]
}

#[test]
fn config_import_ok() {
    let cfg = Config::import(&obj(full_config_json())).expect("valid config");
    assert_eq!(cfg.address, "0.0.0.0:8080");
    assert_eq!(cfg.not_found, "404.html");
    assert_eq!(cfg.server, "webgate");
    assert_eq!(
        cfg.files,
        vec![(String::from("/"), (String::from("index.html"), String::from("text/html")))]
    );
    assert!(cfg.directories.is_empty());
    assert_eq!(
        cfg.commands,
        vec![(String::from("/run"), (String::from("/bin/echo"), vec![String::from("hello")]))]
    );
}

#[test]
fn config_import_takes_last_two_of_longer_file_entries() {
    let mut entries = full_config_json();
    entries[0] = (
        "files",
        obj(vec![("/", Json::Arr(vec![jstr("ignored"), jstr("index.html"), jstr("text/html")]))]),
    );
    let cfg = Config::import(&obj(entries)).expect("valid config");
    assert_eq!(
        cfg.files,
        vec![(String::from("/"), (String::from("index.html"), String::from("text/html")))]
    );
}

#[test]
fn config_import_errors() {
    assert!(matches!(Config::import(&jstr("nope")), Err(CfgError::NotObject)));

    let mut missing_files = full_config_json();
    missing_files.remove(0);
    assert!(matches!(Config::import(&obj(missing_files)), Err(CfgError::MissingFiles)));

    let mut not_array = full_config_json();
    not_array[0] = ("files", obj(vec![("/", jstr("index.html"))]));
    assert!(matches!(Config::import(&obj(not_array)), Err(CfgError::EntryNotArray)));

    let mut not_string = full_config_json();
    not_string[0] = ("files", obj(vec![("/", Json::Arr(vec![Json::Other, jstr("x")]))]));
    assert!(matches!(Config::import(&obj(not_string)), Err(CfgError::EntryNotString)));

    let mut short = full_config_json();
    short[0] = ("files", obj(vec![("/", Json::Arr(vec![jstr("only")]))]));
    assert!(matches!(Config::import(&obj(short)), Err(CfgError::FilesFormat)));

    let mut short_dir = full_config_json();
    short_dir[1] = ("directories", obj(vec![("/", Json::Arr(vec![]))]));
    assert!(matches!(Config::import(&obj(short_dir)), Err(CfgError::DirectoriesFormat)));

    let mut empty_cmd = full_config_json();
    empty_cmd[2] = ("commands", obj(vec![("/run", Json::Arr(vec![]))]));
    assert!(matches!(Config::import(&obj(empty_cmd)), Err(CfgError::CommandFormat)));

    let mut missing_cmds = full_config_json();
    missing_cmds.remove(2);
    assert!(matches!(Config::import(&obj(missing_cmds)), Err(CfgError::MissingCommands)));

    let mut missing_dirs = full_config_json();
    missing_dirs.remove(1);
    assert!(matches!(Config::import(&obj(missing_dirs)), Err(CfgError::MissingDirectories)));

    let mut bad_address = full_config_json();
    bad_address[3] = ("address", Json::Other);
    assert!(matches!(Config::import(&obj(bad_address)), Err(CfgError::AddressNotString)));

    let mut no_not_found = full_config_json();
    no_not_found.remove(4);
    assert!(matches!(Config::import(&obj(no_not_found)), Err(CfgError::NotFoundNotString)));

    let mut bad_server = full_config_json();
    bad_server[5] = ("server", Json::Arr(vec![]));
    assert!(matches!(Config::import(&obj(bad_server)), Err(CfgError::ServerNotString)));
}

#[test]
fn interest_set_is_concatenation() {
    let mut ws = session("/bin/true", &[]);
    ws.ws_spawned(Some(ChildFds { stdout_fd: 11, stderr_fd: 12 }));
    let clients = vec![
        Session::Listener(TcpServer::new(3)),
        Session::Http(HttpSession::new(5)),
        Session::Ws(ws),
    ];
    for c in &clients {
        assert!(c.pollfds().len() >= 1);
    }
    let set = refresh_pollfds(&clients);
    assert_eq!(
        set,
        vec![
            ((0, 0), (3, Interest::Read)),
            ((1, 0), (5, Interest::Read)),
            ((2, 0), (7, Interest::Read)),
            ((2, 1), (11, Interest::Read)),
            ((2, 2), (12, Interest::Read)),
        ]
    );
}

#[test]
fn apply_event_mutations() {
    let mut clients = vec![
        Session::Listener(TcpServer::new(3)),
        Session::Http(HttpSession::new(5)),
        Session::Http(HttpSession::new(6)),
    ];
    // a remove swaps the last session into the slot
    let (refresh, log) = apply_event(&mut clients, 1, ProtocolEvent::Remove);
    assert!(refresh);
    assert!(log.is_none());
    assert_eq!(clients.len(), 2);
    assert!(matches!(&clients[1], Session::Http(h) if h.stream_fd == 6));

    let (refresh, _) = apply_event(
        &mut clients,
        1,
        ProtocolEvent::ReplaceWith(Box::new(Session::Http(HttpSession::new(9)))),
    );
    assert!(refresh);
    assert!(matches!(&clients[1], Session::Http(h) if h.stream_fd == 9));

    let (refresh, _) = apply_event(
        &mut clients,
        0,
        ProtocolEvent::AddSibling(Box::new(Session::Http(HttpSession::new(10)))),
    );
    assert!(refresh);
    assert_eq!(clients.len(), 3);

    let (refresh, log) = apply_event(&mut clients, 0, ProtocolEvent::Continue);
    assert!(!refresh);
    assert!(log.is_none());
    let (refresh, log) = apply_event(&mut clients, 0, ProtocolEvent::Error(String::from("oops")));
    assert!(!refresh);
    assert_eq!(log.as_deref(), Some("oops"));
    let (refresh, _) = apply_event(&mut clients, 0, ProtocolEvent::Refresh);
    assert!(refresh);
    assert_eq!(clients.len(), 3);
}

#[test]
fn listener_accepts_into_http_session() {
    let mut t = TcpServer::new(3);
    assert_eq!(t.pollfds(), vec![(3, Interest::Read)]);
    match t.incoming(Some(8)) {
        ProtocolEvent::AddSibling(s) => match *s {
            Session::Http(h) => assert_eq!(h.stream_fd, 8),
            _ => panic!("expected an HTTP session"),
        },
        _ => panic!("expected a sibling"),
    }
    assert!(matches!(t.incoming(None), ProtocolEvent::Error(_)));
}
