use hydra::hydrad::commands::{agent_frame_action, AgentFrame, AgentFrameAction};
use hydra::hydrad::procedures::{join_path, rpc_reply, setup_plan, RpcValue};
use hydra::hydrad::proxy::{body_read_error, content_length, http_target, response_headers, websocket_target, BodyProgress, BodyReader, MAX_BODY_SIZE};
use hydra::hydrad::pty::{PtyError, PtyInput, PtySink};
use hydra::hydrad::state::State;
use hydra::shared::error::ErrorResponse;
use hydra::shared::headers::{is_websocket_upgrade, parse_client_headers};
use hydra::shared::protocol::{ContainerProxyRequest, ExecuteOptions, File, ProxyError};

fn request(method: &str, headers: Vec<(&str, &str)>) -> ContainerProxyRequest {
    ContainerProxyRequest {
        method: method.into(),
        uri: "/api?x=1".into(),
        port: 3000,
        headers: headers.into_iter().map(|(k, v)| (k.to_string(), v.to_string())).collect(),
        body: vec![],
    }
}

#[test]
fn pty_and_websocket_registry() {
    let mut state: State<&str, &str> = State::new(0);
    assert_eq!(state.register_pty("a"), 0);
    assert_eq!(state.register_pty("b"), 1);
    assert_eq!(state.get_pty(1), Some(&"b"));
    assert_eq!(state.send_pty_command(0).ok(), Some(&"a"));
    state.remove_pty(0);
    assert_eq!(state.send_pty_command(0).err().unwrap(), "No pty found for id: 0");
    assert_eq!(state.send_pty_command(7).err().unwrap(), "No pty found for id: 7");
    state.add_websocket(4, "ws");
    assert_eq!(state.send_ws_message(4).ok(), Some(&"ws"));
    state.remove_websocket(4);
    assert_eq!(state.send_ws_message(4).err().unwrap(), "No websocket found for id: 4");
    let mut wrap: State<u8, u8> = State::new(u32::MAX);
    assert_eq!(wrap.register_pty(1), u32::MAX);
    assert_eq!(wrap.register_pty(2), 0);
}

#[test]
fn forwarding_targets() {
    assert_eq!(http_target(&request("GET", vec![("accept", "*/*")])).ok().unwrap(), "http://localhost:3000/api?x=1");
    match http_target(&request("GE T", vec![])) {
        Err(ProxyError::RequestError(m)) => assert_eq!(m, "Invalid method: GE T"),
        _ => panic!("bad method refused"),
    }
    match http_target(&request("POST", vec![("bad name", "v")])) {
        Err(ProxyError::RequestError(m)) => assert_eq!(m, "Error parsing header name"),
        _ => panic!("bad header name refused"),
    }
    match http_target(&request("POST", vec![("ok", "a\u{0}b")])) {
        Err(ProxyError::RequestError(m)) => assert_eq!(m, "Error parsing header value"),
        _ => panic!("bad header value refused"),
    }
    assert_eq!(websocket_target(&request("GET", vec![])).ok().unwrap(), "ws://localhost:3000/api?x=1");
    assert_eq!(websocket_target(&request("GET", vec![("bad name", "v")])).err().unwrap(), "Error parsing header name");
}

#[test]
fn answer_headers_and_length() {
    let h = response_headers(&vec![("content-type".to_string(), b"text/html".to_vec())]).ok().unwrap();
    assert_eq!(h, vec![("content-type".to_string(), "text/html".to_string())]);
    match response_headers(&vec![("x".to_string(), vec![0xc3, 0xa9])]) {
        Err(ProxyError::RequestError(m)) => assert_eq!(m, "Invalid headers"),
        _ => panic!("non-text header refused"),
    }
    assert_eq!(content_length(Some(b"42")), Some(42));
    assert_eq!(content_length(Some(b"x")), None);
    assert_eq!(content_length(None), None);
}

#[test]
fn body_reading() {
    let mut r = BodyReader::new(Some(5));
    assert!(matches!(r.read_chunk(b"abc"), Ok(BodyProgress::More)));
    assert!(matches!(r.read_chunk(b"defg"), Ok(BodyProgress::Complete)));
    assert_eq!(r.into_body(), b"abcde".to_vec());

    let mut r = BodyReader::new(None);
    assert!(matches!(r.read_chunk(b"abc"), Ok(BodyProgress::More)));
    assert_eq!(r.into_body(), b"abc".to_vec());

    let mut r = BodyReader::new(None);
    let big = vec![0u8; MAX_BODY_SIZE];
    assert!(matches!(r.read_chunk(&big), Err(ProxyError::BodyTooLarge)));

    assert!(matches!(body_read_error("x".into()), ProxyError::BodyReadError(m) if m == "x"));
}

#[test]
fn setup_files_go_to_the_playground() {
    assert_eq!(join_path("/playground/", "main.py"), "/playground/main.py");
    assert_eq!(join_path("/playground/", "src/a.py"), "/playground/src/a.py");
    assert_eq!(join_path("/playground/", "/etc/x"), "/etc/x");
    let options = ExecuteOptions {
        persistent: false,
        files: vec![File { path: "main.py".into(), content: "print(1)".into() }],
    };
    assert_eq!(setup_plan(&options), vec![("/playground/main.py".to_string(), "print(1)".to_string())]);
}

#[test]
fn rpc_replies() {
    assert!(matches!(rpc_reply(Ok(Ok(RpcValue::PtyId(3)))), Ok(RpcValue::PtyId(3))));
    assert!(matches!(rpc_reply(Ok(Err("own".into()))), Err(m) if m == "own"));
    assert!(matches!(rpc_reply(Err("boom".into())), Err(m) if m == "An internal error occurred"));
}

#[test]
fn pty_input_is_written() {
    let terminal = std::cell::RefCell::new(Vec::<u8>::new());
    let mut sink = PtySink::new(|data: &[u8]| -> std::io::Result<()> {
        terminal.borrow_mut().extend_from_slice(data);
        Ok(())
    });
    assert!(sink.input(PtyInput::Text("ls -l\n".into())).is_ok());
    assert!(sink.input(PtyInput::Text("é".into())).is_ok());
    assert_eq!(terminal.borrow().as_slice(), "ls -l\né".as_bytes());
    assert_eq!(PtySink::<fn(&[u8]) -> std::io::Result<()>>::bytes_of(&PtyInput::Text("hi".into())), b"hi");
}

#[test]
fn header_rules() {
    assert!(is_websocket_upgrade(Some(b"websocket")));
    assert!(!is_websocket_upgrade(Some(b"WebSocket")));
    assert!(!is_websocket_upgrade(None));
    let ok = parse_client_headers(&vec![("a".to_string(), b"1".to_vec())]).ok().unwrap();
    assert_eq!(ok, vec![("a".to_string(), "1".to_string())]);
    let e: ErrorResponse = parse_client_headers(&vec![("a".to_string(), vec![0x7f])]).err().unwrap();
    assert_eq!((e.status_code, e.message.as_str()), (400, "Invalid header value"));
    let e = ErrorResponse::unauthorized("no".into());
    assert_eq!(e.status_code, 401);
    assert_eq!(ErrorResponse::not_found("n".into()).status_code, 404);
    assert_eq!(ErrorResponse::error("n".into()).status_code, 500);
    assert_eq!(ErrorResponse::bad_gateway("n".into()).status_code, 502);
    assert_eq!(ErrorResponse::new(418, "t".into()).status_code, 418);
}

#[test]
fn server_error_maps_to_internal() {
    let f = ProxyError::server_error::<std::io::Error>("writing");
    assert!(matches!(f(std::io::Error::new(std::io::ErrorKind::Other, "x")), ProxyError::InternalError));
}

#[test]
fn pty_write_errors_are_kept() {
    let mut sink = PtySink::new(|_: &[u8]| -> std::io::Result<()> {
        Err(std::io::Error::new(std::io::ErrorKind::BrokenPipe, "closed"))
    });
    match sink.input(PtyInput::Text("ls\n".into())) {
        Err(PtyError::Write(e)) => assert_eq!(e.kind(), std::io::ErrorKind::BrokenPipe),
        Ok(()) => panic!("the write should fail"),
    }
}

#[test]
fn pty_ids_stay_distinct_across_wrap() {
    let mut state: State<u8, u8> = State::new(u32::MAX - 2);
    let ids: Vec<u32> = (0..6).map(|_| state.register_pty(0)).collect();
    assert_eq!(ids, vec![u32::MAX - 2, u32::MAX - 1, u32::MAX, 0, 1, 2]);
}

#[test]
fn method_and_header_name_tables() {
    for ok in ["M-SEARCH", "get", "PROPFIND", "x!*+-.^_`|~9"] {
        assert!(http_target(&request(ok, vec![])).is_ok(), "{ok:?} is a method");
    }
    for bad in ["", "GET\"", "G#T", "GÉT"] {
        assert!(http_target(&request(bad, vec![])).is_err(), "{bad:?} is no method");
    }
    for ok in ["X-Custom", "a\"b#c$d%e&f'g", "x".repeat(100).as_str()] {
        assert!(http_target(&request("GET", vec![(ok, "v")])).is_ok(), "{ok:?} is a header name");
    }
    let long = "x".repeat(65_536);
    for bad in ["", "a,b", "a:b", "é", long.as_str()] {
        match http_target(&request("GET", vec![(bad, "v")])) {
            Err(ProxyError::RequestError(m)) => assert_eq!(m, "Error parsing header name"),
            _ => panic!("{bad:?} is no header name"),
        }
    }
}

#[test]
fn repeated_header_names_keep_the_last_value() {
    let raw = vec![
        ("set-cookie".to_string(), b"a=1".to_vec()),
        ("accept".to_string(), b"*/*".to_vec()),
        ("set-cookie".to_string(), b"b=2".to_vec()),
    ];
    let h = parse_client_headers(&raw).ok().unwrap();
    assert_eq!(h, vec![("set-cookie".to_string(), "b=2".to_string()), ("accept".to_string(), "*/*".to_string())]);
    let h = response_headers(&raw).ok().unwrap();
    assert_eq!(h.len(), 2);
    assert!(h.contains(&("set-cookie".to_string(), "b=2".to_string())));
}

#[test]
fn agent_reads_binary_frames_only() {
    assert!(matches!(agent_frame_action(AgentFrame::Binary(vec![1, 2])), AgentFrameAction::Decode(b) if b == vec![1, 2]));
    assert!(matches!(agent_frame_action(AgentFrame::Other), AgentFrameAction::Stop));
    assert!(matches!(agent_frame_action(AgentFrame::Error), AgentFrameAction::Stop));
    assert!(matches!(agent_frame_action(AgentFrame::Ended), AgentFrameAction::Stop));
}
