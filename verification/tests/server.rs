use hydra::server::config::{api_key_or_default, https_host, https_redirect_target, serves_plain_http, Config, ConfigCell, ConfigSource, Environment, Ports};
use hydra::server::container::{display_id, plan_container, should_remove_container, ContainerRouter, ContainerStatus, Delivery};
use hydra::server::execute::{check_api_key, HeadlessAction, HeadlessEvent, HeadlessOutput, HeadlessRun};
use hydra::server::pool::{ContainerPool, ContainerRegistry};
use hydra::server::proxy_interface::{build_proxy_request, check_proxy_response, proxy_target, session_channel, ParsedHost};
use hydra::server::rpc::{RpcError, RpcRecords};
use hydra::server::session::{client_frame_action, handle_container_message, machine_ip, rpc_for_client_message,
    session_display_id, session_key, ClientFrame, ClientFrameAction, ClientMessage, ServerMessage};
use hydra::server::shutdown::{shutdown_due, update_last_activity, ActivityTracker, TIME};
use hydra::shared::protocol::{ContainerProxyResponse, ContainerRpcRequest, ContainerSent, ExecuteOptions, ProxyError, WebSocketMessage};

const HOST: &str = "550e8400-e29b-41d4-a716-446655440000--8080.hydra.dev";
const SAMPLE: u128 = 0x550e8400_e29b_41d4_a716_446655440000;

#[test]
fn host_names_session_and_port() {
    let h = ParsedHost::parse(HOST.to_string()).ok().unwrap();
    assert_eq!((h.session_id, h.port), (SAMPLE, 8080));
    let h = ParsedHost::parse("550e8400-e29b-41d4-a716-446655440000--+80--x".to_string()).ok().unwrap();
    assert_eq!(h.port, 80);
    for bad in [
        "550e8400-e29b-41d4-a716-446655440000.hydra.dev",
        "550e8400-e29b-41d4-a716-446655440000--70000.hydra.dev",
        "nope--8080.hydra.dev",
        "550e8400-e29b-41d4-a716-446655440000--.hydra.dev",
    ] {
        let e = ParsedHost::parse(bad.to_string()).err().unwrap();
        assert_eq!(e.status_code, 400);
        assert_eq!(e.message, "Invalid host header.");
    }
}

#[test]
fn proxy_target_checks_uri_header() {
    let (h, uri) = proxy_target(HOST.to_string(), Some(b"/api?x=1".to_vec())).ok().unwrap();
    assert_eq!((h.session_id, h.port, uri.as_str()), (SAMPLE, 8080, "/api?x=1"));
    let e = proxy_target(HOST.to_string(), None).err().unwrap();
    assert_eq!((e.status_code, e.message.as_str()), (400, "X-Hydra-URI header not found"));
    let e = proxy_target(HOST.to_string(), Some(vec![0x2f, 0xff])).err().unwrap();
    assert_eq!((e.status_code, e.message.as_str()), (400, "X-Hydra-URI is an invalid string"));
}

#[test]
fn proxy_request_and_response_checks() {
    let headers = vec![("host".to_string(), b"a".to_vec()), ("x".to_string(), b"1\t2".to_vec())];
    let req = build_proxy_request("GET".into(), "/".into(), 8080, &headers, b"body".to_vec()).ok().unwrap();
    assert_eq!(req.port, 8080);
    assert_eq!(req.headers, vec![("host".to_string(), "a".to_string()), ("x".to_string(), "1\t2".to_string())]);
    let bad = vec![("x".to_string(), vec![0x01])];
    let e = build_proxy_request("GET".into(), "/".into(), 1, &bad, vec![]).err().unwrap();
    assert_eq!((e.status_code, e.message.as_str()), (400, "Invalid header value"));

    let ok = ContainerProxyResponse { status_code: 201, headers: vec![("content-type".into(), "text/plain".into())], body: vec![] };
    assert_eq!(check_proxy_response(&ok).ok(), Some(201));
    let bad_status = ContainerProxyResponse { status_code: 42, headers: vec![], body: vec![] };
    let e = check_proxy_response(&bad_status).err().unwrap();
    assert_eq!((e.status_code, e.message.as_str()), (502, "container sent invalid status code"));
    let bad_name = ContainerProxyResponse { status_code: 200, headers: vec![("bad name".into(), "v".into())], body: vec![] };
    let e = check_proxy_response(&bad_name).err().unwrap();
    assert_eq!((e.status_code, e.message.as_str()), (502, "container sent invalid header name"));
    let bad_value = ContainerProxyResponse { status_code: 200, headers: vec![("ok".into(), "a\nb".into())], body: vec![] };
    let e = check_proxy_response(&bad_value).err().unwrap();
    assert_eq!((e.status_code, e.message.as_str()), (502, "container sent invalid header value"));
}

#[test]
fn rpc_answers_reach_their_waiter_once() {
    let mut records: RpcRecords<&str> = RpcRecords::new();
    records.await_response(1, "first");
    records.await_response(2, "second");
    assert_eq!(records.handle_incoming(2), Some("second"));
    assert_eq!(records.handle_incoming(2), None);
    assert_eq!(records.handle_incoming(3), None);
    assert_eq!(records.handle_incoming(1), Some("first"));
    assert_eq!(RpcError::Timeout.message(), "rpc timed out");
    assert_eq!(RpcError::Stopped.message(), "container stopped during rpc");
    assert_eq!(RpcError::RecvErr.message(), "failed to receive response");
}

#[test]
fn pool_serves_latest_request_first() {
    let mut pool: ContainerPool<&str, u32> = ContainerPool::new(2);
    assert!(pool.should_replace());
    pool.add_initial("d1".to_string(), "c1");
    pool.add_initial("d2".to_string(), "c2");
    assert!(!pool.should_replace());
    assert!(pool.dispatch().is_none());
    pool.take_one(1);
    pool.take_one(2);
    assert_eq!(pool.dispatch(), Some((2, "c2")));
    assert!(pool.should_replace());
    pool.creation_started();
    assert!(!pool.should_replace());
    assert_eq!(pool.dispatch(), Some((1, "c1")));
    assert!(pool.dispatch().is_none());
    pool.creation_finished("d3".to_string(), "c3");
    pool.take_one(3);
    assert_eq!(pool.dispatch(), Some((3, "c3")));
}

#[test]
fn configuration() {
    let c = Config::default_config();
    assert!(!c.use_https);
    assert_eq!(c.docker.cpu_set, "0");
    assert_eq!(c.docker.cpu_shares, 50_000);
    assert_eq!(c.docker.memory, 192_000_000);
    assert_eq!(c.docker.disk_read_rate, 10_000_000);
    assert_eq!(c.docker.disk_write_rate, 10_000_000);
    assert_eq!(c.docker.disk_max_size, 50_000_000);
    assert!(matches!(Config::source(true, true), ConfigSource::TestConfig));
    assert!(matches!(Config::source(false, true), ConfigSource::SystemConfig));
    assert!(matches!(Config::source(false, false), ConfigSource::Defaults));

    let mut cell = ConfigCell::new();
    let mut loads = 0;
    {
        let first = Config::global(&mut cell, || {
            loads += 1;
            let mut c = Config::default_config();
            c.use_https = true;
            c
        });
        assert!(first.use_https);
    }
    let second = Config::global(&mut cell, || Config::default_config());
    assert!(second.use_https);
    assert_eq!(loads, 1);
}

#[test]
fn environments() {
    assert!(matches!(Environment::from_var(None), Some(Environment::Development)));
    assert!(matches!(Environment::from_var(Some("production")), Some(Environment::Production)));
    assert!(matches!(Environment::from_var(Some("development")), Some(Environment::Development)));
    assert!(Environment::from_var(Some("staging")).is_none());
    assert!(matches!(Environment::get(Some("production")), Environment::Production));
    assert_eq!(Environment::Development.pool_size(), 2);
    assert_eq!(Environment::Production.pool_size(), 8);
    assert_eq!(Environment::Production.run_dir(), "/run/hydra");
    assert_eq!(Environment::Development.run_dir(), "/tmp/hydra");
    assert_eq!(api_key_or_default(None), "hydra");
    assert_eq!(api_key_or_default(Some("k".into())), "k");
    let c = Config::default_config();
    assert!(serves_plain_http(&Environment::Production, &c));
    assert!(serves_plain_http(&Environment::Development, &c));
    let mut https = Config::default_config();
    https.use_https = true;
    assert!(!serves_plain_http(&Environment::Production, &https));
    let ports = Ports { http: 80, https: 443 };
    assert_eq!(https_host("example.com:80", &ports), "example.com:443");
    assert_eq!(https_host("example.com", &ports), "example.com");
}

#[test]
fn session_decisions() {
    match rpc_for_client_message(ClientMessage::Run) {
        Some(ContainerRpcRequest::PtyCreate { command, arguments }) => {
            assert_eq!(command, "python3");
            assert_eq!(arguments, vec!["main.py".to_string()]);
        }
        _ => panic!("Run starts main.py"),
    }
    match rpc_for_client_message(ClientMessage::PtyInput { id: 3, input: "ls\n".into() }) {
        Some(ContainerRpcRequest::PtyInput { pty_id, input }) => assert_eq!((pty_id, input.as_str()), (3, "ls\n")),
        _ => panic!("input goes to its pty"),
    }
    assert!(matches!(rpc_for_client_message(ClientMessage::Crash), Some(ContainerRpcRequest::Crash)));
    assert!(rpc_for_client_message(ClientMessage::CreatePty { rows: 1, cols: 1 }).is_none());

    match handle_container_message(ContainerSent::PtyOutput { pty_id: 1, output: "hi".into() }) {
        Some(ServerMessage::PtyOutput { output }) => assert_eq!(output, "hi"),
        _ => panic!("output is passed on"),
    }
    assert!(matches!(handle_container_message(ContainerSent::PtyExit { pty_id: 4 }), Some(ServerMessage::PtyExit { id: 4 })));
    assert!(handle_container_message(ContainerSent::Ping { timestamp: 1 }).is_none());

    assert_eq!(session_key(SAMPLE), "session:550e8400-e29b-41d4-a716-446655440000");
    assert_eq!(session_display_id(SAMPLE, "abcdef0123"), "tck-550e8, dok-abcde");
    assert_eq!(session_display_id(SAMPLE, "ab\u{e9}cdef"), "tck-550e8, dok-ab\u{e9}c");
    assert_eq!(machine_ip(None), "localhost");
    assert_eq!(machine_ip(Some("fdaa::1".into())), "fdaa::1");
    assert!(matches!(client_frame_action(ClientFrame::Text("x".into())), ClientFrameAction::Handle(t) if t == "x"));
    assert!(matches!(client_frame_action(ClientFrame::Other), ClientFrameAction::Skip));
    assert!(matches!(client_frame_action(ClientFrame::Close), ClientFrameAction::Stop));
    assert!(matches!(client_frame_action(ClientFrame::Error), ClientFrameAction::Stop));
    assert!(matches!(client_frame_action(ClientFrame::Ended), ClientFrameAction::Stop));
}

#[test]
fn inactivity_shutdown() {
    let mut t = ActivityTracker::new();
    update_last_activity(&mut t, 1000);
    assert_eq!(t.last_request_time, 1000);
    assert!(!shutdown_due(&t, 1000 + TIME));
    assert!(shutdown_due(&t, 1000 + TIME + 1));
}

#[test]
fn container_creation_plan() {
    let c = Config::default_config();
    let plan = plan_container(&Environment::Production, SAMPLE, &c.docker);
    assert_eq!(plan.socket_dir, "/run/hydra/sockets/550e8400-e29b-41d4-a716-446655440000");
    assert_eq!(plan.socket_path, "/run/hydra/sockets/550e8400-e29b-41d4-a716-446655440000/conn.sock");
    assert_eq!(plan.name, "hydrad--tck-550e8400-e29b-41d4-a716-446655440000");
    assert_eq!(plan.bind, "/run/hydra/sockets/550e8400-e29b-41d4-a716-446655440000:/run/hydra");
    assert_eq!(plan.image, "hydrad");
    assert_eq!(plan.env, "RUST_LOG=hydrad=info");
    assert!(plan.auto_remove);
    assert_eq!(plan.cpu_quota, 50_000);
    assert_eq!(plan.cpuset_cpus, "0");
    assert_eq!(plan.memory, 192_000_000);
    let dev = plan_container(&Environment::Development, 0, &c.docker);
    assert_eq!(dev.socket_dir, "/tmp/hydra/sockets/00000000-0000-0000-0000-000000000000");
    assert_eq!(display_id("4f2a9c0d11"), "dok-4f2a9");
    assert_eq!(display_id("\u{e9}123xyz"), "dok-\u{e9}123");
    assert!(should_remove_container(Some(ContainerStatus::Running)));
    assert!(should_remove_container(Some(ContainerStatus::Exited)));
    assert!(!should_remove_container(Some(ContainerStatus::Removing)));
    assert!(!should_remove_container(None));
}

fn no_open(_: u32) -> (u8, ()) {
    panic!("no connection is opened here")
}

#[test]
fn container_messages_are_routed() {
    let mut router: ContainerRouter<&str, &str, &str, u8> = ContainerRouter::new();
    router.await_rpc(10, "rpc waiter");
    router.await_proxy(11, "proxy waiter");
    match router.handle_message(ContainerSent::RpcResponse { req_id: 10, result: "{\"Ok\":1}".into() }, no_open) {
        Delivery::RpcAnswer { waiter, result } => {
            assert_eq!(waiter, Some("rpc waiter"));
            assert_eq!(result, Some(Ok(Some(1))));
        }
        _ => panic!("rpc answers go to rpc waiters"),
    }
    match router.handle_message(ContainerSent::RpcResponse { req_id: 10, result: String::new() }, no_open) {
        Delivery::RpcAnswer { waiter, .. } => assert_eq!(waiter, None),
        _ => panic!("rpc answers go to rpc waiters"),
    }
    match router.handle_message(ContainerSent::ProxyResponse { req_id: 11, response: Err(ProxyError::BodyTooLarge) }, no_open) {
        Delivery::ProxyAnswer { waiter, response } => {
            assert_eq!(waiter, Some("proxy waiter"));
            assert!(matches!(response, Err(ProxyError::BodyTooLarge)));
        }
        _ => panic!("proxy answers go to proxy waiters"),
    }
    router.add_websocket(5, 55);
    assert_eq!(router.websocket(5), Ok(&55));
    router.remove_websocket(5);
    assert_eq!(router.websocket(5), Err("no websocket connection with id 5".to_string()));
    assert!(matches!(router.handle_message(ContainerSent::PtyExit { pty_id: 1 }, no_open), Delivery::ToSession(ContainerSent::PtyExit { pty_id: 1 })));
}

#[test]
fn headless_runs() {
    assert!(check_api_key("hydra", "hydra").is_ok());
    assert_eq!(check_api_key("x", "hydra"), Err("Invalid API key"));
    let mut out = HeadlessOutput::new(2);
    assert!(!out.on_message(&ContainerSent::PtyOutput { pty_id: 2, output: "hello ".into() }));
    assert!(!out.on_message(&ContainerSent::PtyOutput { pty_id: 9, output: "noise".into() }));
    assert!(!out.on_message(&ContainerSent::PtyExit { pty_id: 9 }));
    assert!(!out.on_message(&ContainerSent::PtyOutput { pty_id: 2, output: "world".into() }));
    assert!(out.on_message(&ContainerSent::PtyExit { pty_id: 2 }));
    assert_eq!(out.output, "hello world");
}

#[test]
fn headless_run_steps() {
    let options = ExecuteOptions { persistent: false, files: vec![] };
    let (run, action) = HeadlessRun::start(options, "42\n".to_string());
    assert!(matches!(action, HeadlessAction::Send(ContainerRpcRequest::SetupFromOptions { .. })));

    let (run, action) = run.step(HeadlessEvent::SetupAnswered { ok: true });
    match action {
        HeadlessAction::Send(ContainerRpcRequest::PtyCreate { command, arguments }) => {
            assert_eq!(command, "python3");
            assert_eq!(arguments, vec!["main.py".to_string()]);
        }
        _ => panic!("expected the pty request"),
    }

    let (run, action) = run.step(HeadlessEvent::PtyAnswered { id: Some(7) });
    match action {
        HeadlessAction::PauseThenSend(ContainerRpcRequest::PtyInput { pty_id, input }) => {
            assert_eq!(pty_id, 7);
            assert_eq!(input, "42\n");
        }
        _ => panic!("expected the input request"),
    }

    let (run, action) = run.step(HeadlessEvent::InputAnswered { ok: true });
    assert!(matches!(action, HeadlessAction::Listen));
    let (run, action) = run.step(HeadlessEvent::Message(ContainerSent::PtyOutput { pty_id: 7, output: "4".into() }));
    assert!(matches!(action, HeadlessAction::Listen));
    let (run, action) = run.step(HeadlessEvent::Message(ContainerSent::PtyOutput { pty_id: 8, output: "x".into() }));
    assert!(matches!(action, HeadlessAction::Listen));
    let (run, action) = run.step(HeadlessEvent::Message(ContainerSent::PtyOutput { pty_id: 7, output: "2".into() }));
    assert!(matches!(action, HeadlessAction::Listen));
    let (run, action) = run.step(HeadlessEvent::Message(ContainerSent::PtyExit { pty_id: 7 }));
    match action {
        HeadlessAction::Respond(output) => assert_eq!(output, "42"),
        _ => panic!("expected the output"),
    }
    assert!(matches!(run, HeadlessRun::Over));
}

#[test]
fn headless_run_failures() {
    let fresh = || HeadlessRun::start(ExecuteOptions { persistent: false, files: vec![] }, String::new()).0;

    let (run, action) = fresh().step(HeadlessEvent::SetupAnswered { ok: false });
    assert!(matches!(run, HeadlessRun::Over));
    assert!(matches!(action, HeadlessAction::Fail("Failed to setup container.")));

    let (run, _) = fresh().step(HeadlessEvent::SetupAnswered { ok: true });
    let (_, action) = run.step(HeadlessEvent::PtyAnswered { id: None });
    assert!(matches!(action, HeadlessAction::Fail("Failed to create pty.")));

    let (run, _) = fresh().step(HeadlessEvent::SetupAnswered { ok: true });
    let (run, _) = run.step(HeadlessEvent::PtyAnswered { id: Some((1u64 << 32) + 3) });
    assert!(matches!(run, HeadlessRun::Feeding { pty_id: 3 }));
    let (_, action) = run.step(HeadlessEvent::InputAnswered { ok: false });
    assert!(matches!(action, HeadlessAction::Fail("Failed to input")));

    let (run, action) = fresh().step(HeadlessEvent::InputAnswered { ok: true });
    assert!(matches!(run, HeadlessRun::SettingUp { .. }));
    assert!(matches!(action, HeadlessAction::Listen));
}

#[test]
fn deletions_start_at_most_one_replacement() {
    let mut pool: ContainerPool<&str, u32> = ContainerPool::new(2);
    pool.add_initial("d1".to_string(), "c1");
    pool.add_initial("d2".to_string(), "c2");
    assert!(!pool.on_deletion());
    assert_eq!(pool.creating(), 0);
    pool.take_one(1);
    assert_eq!(pool.dispatch(), Some((1, "c2")));
    assert!(pool.on_deletion());
    assert_eq!(pool.creating(), 1);
    assert!(!pool.on_deletion());
    assert_eq!(pool.creating(), 1);
}

#[test]
fn a_container_is_ready_once() {
    let mut pool: ContainerPool<&str, u32> = ContainerPool::new(3);
    pool.add_initial("d1".to_string(), "c1");
    pool.add_initial("d2".to_string(), "c2");
    pool.add_initial("d1".to_string(), "c1-again");
    assert!(pool.should_replace());
    pool.take_one(1);
    pool.take_one(2);
    pool.take_one(3);
    assert_eq!(pool.dispatch(), Some((3, "c2")));
    assert_eq!(pool.dispatch(), Some((2, "c1-again")));
    assert_eq!(pool.dispatch(), None);
}

#[test]
fn opened_connections_are_registered() {
    let mut router: ContainerRouter<&str, &str, &str, u32> = ContainerRouter::new();
    router.await_websocket(12, "ws waiter");
    let open = |id: u32| (id * 10, format!("client side of {id}"));
    match router.handle_message(ContainerSent::WebSocketConnectionResponse { req_id: 12, response: Ok(4) }, open) {
        Delivery::WebSocketOpened { waiter, response } => {
            assert_eq!(waiter, Some("ws waiter"));
            assert_eq!(response.ok(), Some("client side of 4".to_string()));
        }
        _ => panic!("opened connections go to their waiter"),
    }
    assert_eq!(router.websocket(4), Ok(&40));
    assert!(matches!(
        router.handle_message(ContainerSent::WebSocketMessage { ws_id: 4, message: WebSocketMessage::Text("hi".into()) }, open),
        Delivery::WebSocketFrame { ws_id: 4, .. }
    ));
    match router.handle_message(ContainerSent::WebSocketConnectionResponse { req_id: 13, response: Err(ProxyError::InternalError) }, open) {
        Delivery::WebSocketOpened { waiter, response } => {
            assert_eq!(waiter, None);
            assert!(matches!(response, Err(ProxyError::InternalError)));
        }
        _ => panic!("failed openings go to their waiter"),
    }
    assert_eq!(router.websocket(5), Err("no websocket connection with id 5".to_string()));
}

#[test]
fn rpc_answers_are_parsed() {
    let mut router: ContainerRouter<&str, &str, &str, u8> = ContainerRouter::new();
    let mut answer = |text: &str| match router.handle_message(ContainerSent::RpcResponse { req_id: 1, result: text.into() }, no_open) {
        Delivery::RpcAnswer { result, .. } => result,
        _ => panic!("rpc answers stay rpc answers"),
    };
    assert_eq!(answer("{\"Ok\":7}"), Some(Ok(Some(7))));
    assert_eq!(answer("{\"Ok\":{}}"), Some(Ok(None)));
    assert_eq!(answer("{\"Ok\":null}"), Some(Ok(None)));
    assert_eq!(answer("{\"Ok\":-1}"), Some(Ok(None)));
    assert_eq!(answer("{\"Err\":\"boom\"}"), Some(Err("boom".to_string())));
    assert_eq!(answer("not json"), None);
    assert_eq!(answer("{\"Maybe\":1}"), None);
}

#[test]
fn headless_answers_become_events() {
    let run = HeadlessRun::start(ExecuteOptions { persistent: false, files: vec![] }, String::new()).0;
    assert!(matches!(run.answer_event(Some(Ok(None))), HeadlessEvent::SetupAnswered { ok: true }));
    assert!(matches!(run.answer_event(Some(Err("x".into()))), HeadlessEvent::SetupAnswered { ok: false }));
    assert!(matches!(run.answer_event(None), HeadlessEvent::SetupAnswered { ok: false }));
    let (run, _) = run.step(HeadlessEvent::SetupAnswered { ok: true });
    assert!(matches!(run.answer_event(Some(Ok(Some(3)))), HeadlessEvent::PtyAnswered { id: Some(3) }));
    assert!(matches!(run.answer_event(Some(Ok(None))), HeadlessEvent::PtyAnswered { id: None }));
    assert!(matches!(run.answer_event(Some(Err("x".into()))), HeadlessEvent::PtyAnswered { id: None }));
    let (run, _) = run.step(HeadlessEvent::PtyAnswered { id: Some(3) });
    assert!(matches!(run.answer_event(Some(Ok(None))), HeadlessEvent::InputAnswered { ok: true }));
    assert!(matches!(run.answer_event(None), HeadlessEvent::InputAnswered { ok: false }));
}

#[test]
fn session_channels_are_looked_up() {
    let mut channels = std::collections::HashMap::new();
    channels.insert(SAMPLE, "channel");
    assert_eq!(session_channel(&channels, SAMPLE).ok(), Some(&"channel"));
    let e = session_channel(&channels, 1).err().unwrap();
    assert_eq!((e.status_code, e.message.as_str()), (404, "Container not found"));
}

#[test]
fn plain_http_is_redirected() {
    let ports = Ports { http: 80, https: 443 };
    assert_eq!(
        https_redirect_target("example.com:80", Some("/a?b=1".to_string()), &ports),
        Some("https://example.com:443/a?b=1".to_string())
    );
    assert_eq!(https_redirect_target("example.com", None, &ports), Some("https://example.com/".to_string()));
    assert_eq!(https_redirect_target("bad host", None, &ports), None);
}

#[test]
fn registry_records_and_forgets_containers() {
    let mut registry: ContainerRegistry<&str> = ContainerRegistry::new();
    registry.record("d1".to_string(), "/run/a");
    registry.record("d2".to_string(), "/run/b");
    registry.record("d1".to_string(), "/run/c");
    assert_eq!(registry.entries(), &vec![("d1".to_string(), "/run/c"), ("d2".to_string(), "/run/b")]);
    registry.forget(&"tck-display".to_string());
    assert_eq!(registry.entries().len(), 2);
    registry.forget(&"d1".to_string());
    assert_eq!(registry.entries(), &vec![("d2".to_string(), "/run/b")]);
}
