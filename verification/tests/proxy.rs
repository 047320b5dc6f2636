use hydra::proxy::handler::{forwarded_response_headers, upgrade_response_headers};
use hydra::proxy::discovery::{resolve_server_authority, ServerIpResolver};
use hydra::proxy::error_page::{create_html, ErrorPage};
use hydra::proxy::handler::{forward_url, sign, unresolved_session, websocket_accept, ParsedHost};

fn expected_html(code: u16, reason: &str, message: &str) -> String {
    format!(
        r#"
<!DOCTYPE html>
<html>
    <head>
        <title>{status_code_name}</title>
        <style>
            body {{
                font-family: sans-serif;
                display: flex;
                justify-content: center;
                align-items: center;
                height: 100vh;
                margin: 0;
            }}
            div {{
                width: 100vw;
                max-width: 600px;
                text-align: center;
            }}
            h1 {{
                font-size: 2.5em;
            }}
        </style>
    </head>
    <body>
        <div>
            <h1>{status_code} {status_code_name}</h1>
            <hr />
            <p>{message}</p>
        </div>
    </body>
</html>
"#,
        status_code = code,
        status_code_name = reason,
    )
}

#[test]
fn error_page_html_matches_template() {
    assert_eq!(create_html(404, "Session not found."), expected_html(404, "Not Found", "Session not found."));
    assert_eq!(create_html(502, "down"), expected_html(502, "Bad Gateway", "down"));
    assert_eq!(create_html(599, "odd"), expected_html(599, "", "odd"));
}

#[test]
fn error_page_for_reported_status() {
    for (status, expected) in [(502, 502), (400, 400), (401, 401), (404, 404), (418, 500), (500, 500)] {
        let page = ErrorPage::for_reported_status(status, "m".to_string());
        assert_eq!(page.status_code, expected);
        assert_eq!(page.message, "m");
    }
    assert_eq!(ErrorPage::bad_request("x".into()).status_code, 400);
    assert_eq!(ErrorPage::bad_gateway("x".into()).status_code, 502);
    assert_eq!(ErrorPage::error("x".into()).status_code, 500);
}

#[test]
fn websocket_accept_key_from_rfc6455() {
    assert_eq!(sign(b"dGhlIHNhbXBsZSBub25jZQ=="), "s3pPLMBiTxaQ9kYGzzhZRbK+xOo=");
    let ok = websocket_accept("GET", Some(b"dGhlIHNhbXBsZSBub25jZQ==".to_vec()));
    assert_eq!(ok.ok().unwrap(), "s3pPLMBiTxaQ9kYGzzhZRbK+xOo=");
}

#[test]
fn websocket_accept_refusals() {
    let e = websocket_accept("POST", Some(b"k".to_vec())).err().unwrap();
    assert_eq!(e.status_code, 400);
    assert_eq!(e.message, "WebSocket upgrade must be GET request.");
    let e = websocket_accept("GET", None).err().unwrap();
    assert_eq!(e.status_code, 400);
    assert_eq!(e.message, "Missing Sec-WebSocket-Key header.");
}

#[test]
fn proxy_host_names_the_session() {
    let h = ParsedHost::parse("550e8400-e29b-41d4-a716-446655440000--3000.hydra.dev".to_string()).ok().unwrap();
    assert_eq!(h.session_id, 0x550e8400_e29b_41d4_a716_446655440000);
    let h = ParsedHost::parse("550e8400-e29b-41d4-a716-446655440000.hydra.dev".to_string()).ok().unwrap();
    assert_eq!(h.session_id, 0x550e8400_e29b_41d4_a716_446655440000);
    let e = ParsedHost::parse("www.hydra.dev".to_string()).err().unwrap();
    assert_eq!(e.status_code, 400);
    assert_eq!(e.message, "Invalid host header.");
}

#[test]
fn forwarding_addresses() {
    assert_eq!(forward_url("10.0.0.1", false), "http://10.0.0.1:3100/proxy");
    assert_eq!(forward_url("fdaa::3", false), "http://[fdaa::3]:3100/proxy");
    assert_eq!(forward_url("10.0.0.1", true), "ws://10.0.0.1:3100/proxy-websocket");
    assert_eq!(forward_url("fdaa::3", true), "ws://[fdaa::3]:3100/proxy-websocket");
    assert_eq!(resolve_server_authority(Some("localhost".into())), Some("localhost:3100".to_string()));
    assert_eq!(resolve_server_authority(Some("::1".into())), Some("[::1]:3100".to_string()));
    assert_eq!(resolve_server_authority(None), None);
}

#[test]
fn resolver_remembers_addresses() {
    let mut r = ServerIpResolver::new();
    assert_eq!(r.cached(7), None);
    assert_eq!(r.remember(7, Some("10.1.2.3".into())), Some("10.1.2.3".to_string()));
    assert_eq!(r.cached(7), Some("10.1.2.3".to_string()));
    assert_eq!(r.remember(8, None), None);
    assert_eq!(r.cached(8), None);
    r.remember(7, Some("10.9.9.9".into()));
    assert_eq!(r.cached(7), Some("10.9.9.9".to_string()));
}

#[test]
fn unresolved_sessions() {
    let e = unresolved_session(true);
    assert_eq!((e.status_code, e.message.as_str()), (500, "Something went wrong."));
    let e = unresolved_session(false);
    assert_eq!((e.status_code, e.message.as_str()), (404, "Session not found."));
}

#[test]
fn full_resolver_forgets_one_session() {
    let mut r = ServerIpResolver::new();
    for id in 0..10_000u128 {
        r.remember(id, Some(format!("10.0.0.{}", id % 250)));
    }
    r.remember(50_000, Some("10.1.1.1".into()));
    assert_eq!(r.cached(50_000), Some("10.1.1.1".to_string()));
    let forgotten = (0..10_000u128).filter(|id| r.cached(*id).is_none()).count();
    assert_eq!(forgotten, 1);
    assert_eq!(r.cached(0), None);
}

#[test]
fn a_looked_up_session_is_kept_longest() {
    let mut r = ServerIpResolver::new();
    for id in 0..10_000u128 {
        r.remember(id, Some("10.0.0.1".into()));
    }
    assert_eq!(r.cached(0), Some("10.0.0.1".to_string()));
    r.remember(60_000, Some("10.2.2.2".into()));
    assert_eq!(r.cached(0), Some("10.0.0.1".to_string()));
    assert_eq!(r.cached(1), None);
    assert_eq!(r.cached(2), Some("10.0.0.1".to_string()));
}

#[test]
fn forwarded_answers_are_marked() {
    let entries = vec![
        ("content-type".to_string(), b"text/html".to_vec()),
        ("x-forwarded-by".to_string(), b"someone".to_vec()),
        ("set-cookie".to_string(), vec![0xff, 0x01]),
    ];
    assert_eq!(
        forwarded_response_headers(&entries),
        vec![
            ("content-type".to_string(), b"text/html".to_vec()),
            ("set-cookie".to_string(), vec![0xff, 0x01]),
            ("x-forwarded-by".to_string(), b"hydra-proxy".to_vec()),
        ]
    );
    let h = upgrade_response_headers("abc=".to_string());
    assert_eq!(h[0], ("connection".to_string(), "upgrade".to_string()));
    assert_eq!(h[1], ("upgrade".to_string(), "websocket".to_string()));
    assert_eq!(h[2], ("sec-websocket-accept".to_string(), "abc=".to_string()));
    assert_eq!(h[3], ("x-forwarded-by".to_string(), "hydra-proxy".to_string()));
}
