//! Tokens, requests and who is let in.

use std::time::{Duration, SystemTime};

use hk_api::auth::{
    check_file, check_parent, from_file_text, octal, to_hex, token_path, FileErrorKind, Token,
};
use hk_api::body::CtlResponse;
use hk_api::bridge::REPLUMB_HANDSHAKE_WAIT;
use hk_api::control::Choices;
use hk_api::double::Real;
use hk_api::http::{
    attach_step, content_type, floor, handshake, handshake_left, inventory, let_in, let_in_at,
    max_live_span_hz, offered_step, output_head, output_refusal, page, page_refusal, respond_error,
    static_found, static_missing, static_step, still_replumbing, switch_protocols, target, upgrade,
    use_get, version_required, widest_rate, with_history, Admission, ApiError, AttachOutcome, Conns,
    HistorySource, Page, StaticStep, Store, Target, Upgrade, WsEvent, WsStep,
};
use hk_api::json::{Json, Num};
use hk_api::owner::{owner, Owner};
use hk_api::request::{
    caller_from, parse_query, parse_request, percent_decode, read_step, Arrived, Incoming, Peer,
    ReadStep, Request, MAX_BODY, MAX_HEAD,
};
use hk_api::response::{
    accepts_gzip, crc32, gzip, is_sealed, maybe_gzip, read_body, reason, respond_json_encoded,
    respond_tile, strip_read_diagnostics, GZIP_MIN_BYTES,
};
use hk_api::routes::{from_others, look_up, routes, tail, Tail};

const TOKEN: &str = "0123456789abcdef";

#[test]
fn generated_tokens_are_long_and_distinct() {
    let (mut one, mut two) = ([0u8; 32], [0u8; 32]);
    for i in 0..32u8 {
        one[i as usize] = 7 * i;
        two[i as usize] = 255 - i;
    }
    let a = Token::from_random(&one);
    let b = Token::from_random(&two);
    assert_eq!(a.expose().len(), 64);
    assert_ne!(a.expose(), b.expose());
    assert!(a.verify(a.expose()));
    assert!(!a.verify(b.expose()));
    let digests = ["5feceb66ffc86f38d952", "6b86b273ff34fce19d6b"];
    assert_ne!(a.id(digests[0]), b.id(digests[1]));
    assert!(a.id(digests[0]).starts_with("tok-") && a.id(digests[0]).len() == 16);
    assert!(!a.id(digests[0]).contains(&a.expose()[..12]), "the id is not a prefix");
}

#[test]
fn random_bytes_are_written_in_hexadecimal() {
    let mut raw = [0u8; 32];
    raw[0] = 0xab;
    raw[31] = 0x0f;
    let t = Token::from_random(&raw);
    assert!(t.expose().starts_with("ab00"));
    assert!(t.expose().ends_with("000f"));
    assert_eq!(to_hex(&[0x00, 0x10, 0xff]), "0010ff");
}

#[test]
fn verify_rejects_prefixes_extensions_and_empty() {
    let t = Token::from_config("0123456789abcdef").unwrap();
    assert!(t.verify("0123456789abcdef"));
    assert!(!t.verify("0123456789abcde"));
    assert!(!t.verify("0123456789abcdef0"));
    assert!(!t.verify(""));
    assert!(!t.verify("0123456789abcdeF"));
    assert!(Token::from_config("short").is_err());
    assert!(Token::from_config("has a space in it!").is_err());
    assert_eq!(t.redacted(), "Token(<redacted>)");
}

#[test]
fn expired_tokens_never_verify() {
    let t = Token::from_config("0123456789abcdef").unwrap();
    let past = t.copy().with_expiry(SystemTime::now() - Duration::from_secs(1));
    assert!(past.is_expired());
    assert!(!past.verify("0123456789abcdef"));
    let future = t.with_expiry(SystemTime::now() + Duration::from_secs(3600));
    assert!(future.verify("0123456789abcdef"));
}

#[test]
fn a_token_expires_at_its_very_instant() {
    let end = SystemTime::UNIX_EPOCH + Duration::from_secs(1_000);
    let t = Token::from_config(TOKEN).unwrap().with_expiry(end);
    let (before, after) = (end - Duration::from_nanos(1), end + Duration::from_nanos(1));
    assert!(!t.expired_at(before) && t.verify_at(TOKEN, before));
    assert!(t.expired_at(end) && !t.verify_at(TOKEN, end));
    assert!(t.expired_at(after) && !t.verify_at(TOKEN, after));
    assert!(!t.verify_at("0123456789abcdeF", before));
    let mut req = with_headers(&[("Host", "a"), ("Authorization", "Bearer 0123456789abcdef")]);
    assert!(req.authorized_at(&t, before) && req.authorized_by_header_at(&t, before));
    assert!(!req.authorized_at(&t, end) && !req.authorized_by_header_at(&t, end));
    assert!(matches!(let_in_at(&req, &t, true, before), Admission::Pass));
    let late = let_in_at(&req, &t, true, end);
    assert!(matches!(late, Admission::Refuse { status: 401, .. }));
    req.query.push(("token".to_owned(), TOKEN.to_owned()));
    req.headers.pop();
    req.headers.push(("Authorization".to_owned(), "Bearer wrong".to_owned()));
    assert!(!req.authorized_at(&t, before), "the header decides before the query");
    req.headers.pop();
    assert!(req.authorized_at(&t, before) && !req.authorized_by_header_at(&t, before));
}

#[test]
fn a_token_without_expiry_never_expires() {
    let t = Token::from_config(TOKEN).unwrap();
    assert_eq!(t.expires_at(), None);
    assert!(!t.is_expired());
    assert!(t.accepts(TOKEN, false));
    assert!(!t.accepts(TOKEN, true));
    let at = SystemTime::UNIX_EPOCH + Duration::from_secs(5);
    assert_eq!(t.with_expiry(at).expires_at(), Some(at));
}

#[test]
fn token_lengths_are_bounded_on_both_sides() {
    assert!(Token::from_config(&"x".repeat(15)).is_err());
    assert!(Token::from_config(&"x".repeat(16)).is_ok());
    assert!(Token::from_config(&"x".repeat(256)).is_ok());
    assert_eq!(
        Token::from_config(&"x".repeat(257)).err().unwrap(),
        "token must be 16..=256 printable ASCII characters without spaces"
    );
    assert!(Token::from_config("0123456789abcdé!").is_err());
}

#[test]
fn token_files_are_the_owners_alone() {
    assert!(check_file("/t", true, 1000, 0o100600, 1000).is_ok());
    let link = check_file("/t", false, 1000, 0o100600, 1000).err().unwrap();
    assert!(matches!(link.kind, FileErrorKind::InvalidInput));
    let foreign = check_file("/t", true, 0, 0o100600, 1000).err().unwrap();
    assert!(matches!(foreign.kind, FileErrorKind::PermissionDenied));
    let open = check_file("/t", true, 1000, 0o100644, 1000).err().unwrap();
    assert!(matches!(open.kind, FileErrorKind::PermissionDenied));
    assert!(open.message.contains("644"), "{}", open.message);
    assert!(check_parent("/d", 0o40700).is_ok());
    assert!(check_parent("/d", 0o40777).is_err());
    assert_eq!(octal(0o644), "644");
    assert_eq!(octal(0), "0");
}

#[test]
fn a_token_file_holds_one_token() {
    let t = from_file_text("/t", "0123456789abcdef\n").ok().unwrap();
    assert!(t.verify(TOKEN));
    let bad = from_file_text("/t", "short\n").err().unwrap();
    assert!(matches!(bad.kind, FileErrorKind::InvalidData));
}

#[test]
fn the_token_path_is_the_explicit_one_then_the_configured_then_home() {
    assert_eq!(token_path(Some("/x/t"), Some("/c"), Some("/h")).unwrap(), "/x/t");
    assert_eq!(token_path(None, Some("/c"), Some("/h")).unwrap(), "/c/hackriff/api-token");
    assert_eq!(token_path(None, None, Some("/h")).unwrap(), "/h/.config/hackriff/api-token");
    assert_eq!(token_path(None, Some(""), Some("/h")).unwrap(), "/h/.config/hackriff/api-token");
    assert_eq!(token_path(None, None, None), None);
}

#[test]
fn query_and_path_decoding() {
    assert_eq!(
        parse_query("a=1&b=x%2By&c=a+b&token=").unwrap(),
        vec![
            ("a".into(), "1".into()),
            ("b".into(), "x+y".into()),
            ("c".into(), "a b".into()),
            ("token".into(), "".into())
        ]
    );
    assert!(parse_query("a=%zz").is_none());
    assert_eq!(percent_decode("/ws/spectrum%2Flive").unwrap(), "/ws/spectrum/live");
}

#[test]
fn decoding_refuses_what_is_no_text() {
    assert_eq!(percent_decode("%ff"), None);
    assert_eq!(percent_decode("%e2%82%ac").unwrap(), "€");
    assert_eq!(percent_decode("%4"), None);
    assert_eq!(parse_query("").unwrap(), vec![]);
    assert_eq!(parse_query("a").unwrap(), vec![("a".to_owned(), String::new())]);
}

#[test]
fn only_known_methods_are_parsed() {
    for m in ["PATCH", "HEAD", "TRACE", "CONNECT", "TX", "get"] {
        assert_eq!(
            parse_request(format!("{m} /api/streams HTTP/1.1\r\n\r\n").as_bytes()).err(),
            Some(405),
            "{m}"
        );
    }
    for m in ["GET", "POST", "PUT", "DELETE", "OPTIONS"] {
        let r = parse_request(format!("{m} /api/streams HTTP/1.1\r\nHost: a\r\n\r\n").as_bytes())
            .ok()
            .unwrap();
        assert_eq!(r.method, m);
    }
    assert!(parse_request(b"GET /api/streams?token=x HTTP/1.1\r\nHost: a\r\n\r\n").is_ok());
}

#[test]
fn a_head_that_is_none_is_refused() {
    assert_eq!(parse_request(b"nonsense\r\n\r\n").err(), Some(400));
    assert_eq!(parse_request(b"GET /a%zz HTTP/1.1\r\n\r\n").err(), Some(400));
}

#[test]
fn requests_are_read_until_their_body_is_there() {
    assert!(matches!(read_step(&b"GET / HTTP/1.1\r\n".to_vec()), ReadStep::More));
    let half = b"POST /a HTTP/1.1\r\nContent-Length: 4\r\n\r\nab".to_vec();
    assert!(matches!(read_step(&half), ReadStep::More));
    let whole = b"POST /a?x=1 HTTP/1.1\r\nContent-Length: 4\r\n\r\nabcd".to_vec();
    match read_step(&whole) {
        ReadStep::Done(r) => {
            assert_eq!(r.body, b"abcd");
            assert_eq!(r.path, "/a");
            assert_eq!(r.param("x"), Some("1"));
            assert_eq!(r.header("content-length"), Some("4"));
        }
        _ => panic!("the request is whole"),
    }
    let long = format!("POST /a HTTP/1.1\r\nContent-Length: {}\r\n\r\n", MAX_BODY + 1);
    assert!(matches!(read_step(&long.into_bytes()), ReadStep::Refuse(413)));
    assert!(matches!(read_step(&vec![b'a'; MAX_HEAD + 1]), ReadStep::Refuse(_)));
}

#[test]
fn a_request_arrives_in_pieces_of_any_size() {
    let whole: &[u8] = b"POST /a HTTP/1.1\r\nContent-Length: 4\r\n\r\nabcd";
    for size in [1, 7, whole.len()] {
        let mut incoming = Incoming::new();
        let mut done = None;
        for (i, piece) in whole.chunks(size).enumerate() {
            let last = (i + 1) * size >= whole.len();
            match incoming.take(Arrived::Read(piece)) {
                ReadStep::Done(r) if last => done = Some(r),
                ReadStep::More if !last => {}
                _ => panic!("pieces of {size} bytes make no difference"),
            }
        }
        let r = done.unwrap();
        assert_eq!((r.path.as_str(), r.body.as_slice()), ("/a", &b"abcd"[..]));
    }
}

#[test]
fn an_input_that_ends_or_fails_early_is_refused() {
    let mut ended = Incoming::new();
    assert!(matches!(ended.take(Arrived::Read(b"GET / HT")), ReadStep::More));
    assert!(matches!(ended.take(Arrived::Read(b"")), ReadStep::Refuse(400)));
    let mut slow = Incoming::new();
    assert!(matches!(slow.take(Arrived::Read(b"GET / HT")), ReadStep::More));
    assert!(matches!(slow.take(Arrived::Failed), ReadStep::Refuse(408)));
    assert!(matches!(Incoming::new().take(Arrived::Failed), ReadStep::Refuse(408)));
    assert!(matches!(Incoming::new().take(Arrived::Read(b"")), ReadStep::Refuse(400)));
}

fn with_headers(headers: &[(&str, &str)]) -> Request {
    Request {
        method: "POST".into(),
        path: "/api/control/center".into(),
        query: Vec::new(),
        headers: headers.iter().map(|(k, v)| ((*k).to_owned(), (*v).to_owned())).collect(),
        body: Vec::new(),
    }
}

#[test]
fn origin_must_match_the_addressed_host() {
    assert!(!with_headers(&[("Host", "127.0.0.1:8787")]).cross_origin(true), "no Origin");
    assert!(!with_headers(&[
        ("Host", "127.0.0.1:8787"),
        ("Origin", "http://127.0.0.1:8787")
    ])
    .cross_origin(false));
    assert!(
        !with_headers(&[
            ("Host", "abc.trycloudflare.com"),
            ("Origin", "https://abc.trycloudflare.com")
        ])
        .cross_origin(true),
        "through the tunnel"
    );
    let proxied = with_headers(&[
        ("Host", "localhost:8787"),
        ("X-Forwarded-Host", "abc.example.org"),
        ("Origin", "https://abc.example.org"),
    ]);
    assert!(!proxied.cross_origin(true), "a loopback proxy that rewrites Host but forwards it");
    assert!(
        proxied.cross_origin(false),
        "X-Forwarded-Host from a non-loopback peer is ignored"
    );
    assert!(with_headers(&[("Host", "127.0.0.1:8787"), ("Origin", "https://evil.example")])
        .cross_origin(true));
    assert!(with_headers(&[("Host", "127.0.0.1:8787"), ("Origin", "null")]).cross_origin(true));
}

fn peer(address: &str, ip: &str, loopback: bool) -> Option<Peer> {
    Some(Peer { address: address.to_owned(), ip: ip.to_owned(), loopback })
}

#[test]
fn forwarding_headers_are_trusted_only_from_loopback_peers() {
    let token = Token::from_config("0123456789abcdef").unwrap();
    let req = with_headers(&[
        ("Host", "127.0.0.1:8787"),
        ("X-Forwarded-For", "203.0.113.9"),
        ("CF-Connecting-IP", "198.51.100.7"),
    ]);
    let id = |r: &Request| {
        if r.authorized(&token) {
            Some(token.id("5feceb66ffc86f38d952"))
        } else {
            None
        }
    };
    let local = caller_from(peer("127.0.0.1:50000", "127.0.0.1", true), &req, id(&req));
    assert_eq!(local.forwarded_for.as_deref(), Some("198.51.100.7"));
    assert_eq!(local.client_key(), "198.51.100.7");
    let v6 = caller_from(peer("[::1]:50000", "::1", true), &req, id(&req));
    assert_eq!(v6.forwarded_for.as_deref(), Some("198.51.100.7"));
    let remote = caller_from(peer("192.0.2.44:50000", "192.0.2.44", false), &req, id(&req));
    assert_eq!(remote.forwarded_for, None, "a remote peer cannot claim a client");
    assert_eq!(remote.client_key(), "192.0.2.44");
    assert_eq!(remote.token_id, None);
}

#[test]
fn a_change_needs_the_token_in_its_header() {
    let token = Token::from_config(TOKEN).unwrap();
    let mut req = with_headers(&[("Host", "a"), ("Authorization", "Bearer 0123456789abcdef")]);
    assert_eq!(req.bearer(), Some(TOKEN));
    assert!(req.authorized_by_header(&token));
    assert!(req.mutating());
    assert!(matches!(let_in(&req, &token, true), Admission::Pass));
    req.headers.pop();
    req.query.push(("token".to_owned(), TOKEN.to_owned()));
    assert!(req.authorized(&token));
    assert!(!req.authorized_by_header(&token));
    match let_in(&req, &token, true) {
        Admission::Refuse { status, audit, .. } => {
            assert_eq!(status, 401);
            assert!(audit.is_some(), "a refused change is recorded");
        }
        Admission::Pass => panic!("a token in the query changed something"),
    }
    req.method = "GET".to_owned();
    assert!(matches!(let_in(&req, &token, true), Admission::Pass));
    req.query.clear();
    assert!(matches!(let_in(&req, &token, true), Admission::Refuse { status: 401, .. }));
}

#[test]
fn paths_lead_to_their_pages() {
    assert!(matches!(target("GET", "/ws/spectrum"), Target::Stream("spectrum")));
    assert!(matches!(page("GET", "/api/events"), Page::Events));
    assert!(matches!(page("POST", "/api/events"), Page::UseGet));
    assert!(matches!(page("POST", "/api/tiles/batch"), Page::UseGet));
    assert!(matches!(page("GET", "/api/nothing"), Page::NoEndpoint));
    assert!(matches!(page("GET", "/index.html"), Page::Static));
    assert_eq!(use_get().status, 405);
    assert_eq!(respond_error(418, "no").status, 418);
}

#[test]
fn pages_that_nothing_serves_are_refused() {
    let refused = |p: Page, served: bool| page_refusal(p, served).map(|a| (a.status, said(&a.body)));
    let no_endpoint = Some((404, "no such endpoint".to_owned()));
    assert_eq!(refused(Page::NoEndpoint, true), no_endpoint);
    assert_eq!(refused(Page::Coverage, false), no_endpoint);
    assert_eq!(refused(Page::Coverage, true), None);
    assert_eq!(refused(Page::Status, false), Some((404, "no pipeline status".to_owned())));
    assert_eq!(refused(Page::Status, true), None);
    assert_eq!(refused(Page::Static, false), None);
    assert_eq!(page_refusal(Page::UseGet, true).unwrap().status, 405);
}

fn said(v: &Json) -> String {
    v.get("error").and_then(|e| e.string()).unwrap_or_default().to_owned()
}

#[test]
fn only_what_the_table_names_is_asked_of_the_others() {
    assert_eq!(look_up("GET", "/api/streams"), (true, true));
    assert_eq!(look_up("POST", "/api/streams"), (true, false));
    assert_eq!(look_up("GET", "/api/nothing"), (false, false));
    let (method, pattern) =
        routes().into_iter().find(|(_, p)| p.starts_with("/api/") && p.contains('{')).unwrap();
    let filled: Vec<&str> =
        pattern.split('/').map(|s| if s.starts_with('{') { "17" } else { s }).collect();
    assert_eq!(look_up(method, &filled.join("/")), (true, true), "{pattern}");
    let emptied: Vec<&str> =
        pattern.split('/').map(|s| if s.starts_with('{') { "" } else { s }).collect();
    assert!(!look_up(method, &emptied.join("/")).1, "{pattern}");

    assert_eq!(tail("GET", "/api/iqbuffer"), Tail::Others);
    assert_eq!(tail("GET", "/api/events"), Tail::Page(Page::Events));
    assert_eq!(tail("GET", "/api/nothing"), Tail::Page(Page::NoEndpoint));
    assert_eq!(tail("GET", "/app.js"), Tail::Page(Page::Static));

    let answer = |status: u16| {
        Some(CtlResponse { status, body: Json::text("theirs"), allow: None })
    };
    let served = from_others("GET", "/api/iqbuffer", answer(200));
    assert_eq!((served.status, served.body), (200, Json::text("theirs")));
    let unlisted = from_others("DELETE", "/api/iqbuffer", answer(200));
    assert_eq!((unlisted.status, said(&unlisted.body)), (404, "no such endpoint".to_owned()));
    assert_eq!(from_others("DELETE", "/api/iqbuffer", answer(405)).status, 405);
    assert_eq!(from_others("GET", "/api/iqbuffer", None).status, 404);
}

#[test]
fn what_answers_is_in_the_table() {
    let table = routes();
    let listed = |path: &str| table.iter().any(|(m, p)| *m == "GET" && *p == path);
    for path in [
        "/api/streams",
        "/api/history",
        "/api/report",
        "/api/floor",
        "/api/inventory",
        "/api/events",
        "/api/analysis/strongest",
        "/api/navigation",
        "/api/timeline",
        "/api/coverage",
        "/api/tiles",
        "/api/tiles/batch",
        "/api/tiles/events",
        "/api/status",
        "/api/taxonomy",
    ] {
        assert!(!matches!(page("GET", path), Page::NoEndpoint | Page::Static), "{path}");
        assert!(matches!(page("PUT", path), Page::UseGet), "{path}");
        assert!(listed(path), "{path}");
    }
    for path in ["/ws/{stream_id}", "/ws/open/{name}", "/ws/tiles/rows", "/ws/tiles/changes"] {
        assert!(listed(path), "{path}");
    }
}

#[test]
fn paths_belong_to_one_part() {
    let id = "0199d3a0-0000-7000-8000-00000000000a";
    let cases = [
        ("/api/control/center".to_owned(), Some(Owner::Control)),
        ("/api/control/nothing".to_owned(), Some(Owner::Control)),
        ("/api/bookmarks".to_owned(), Some(Owner::Control)),
        (format!("/api/annotations/{id}"), Some(Owner::Annotations)),
        (format!("/api/collections/{id}/markers"), Some(Owner::Collections)),
        ("/api/markers".to_owned(), Some(Owner::Collections)),
        (format!("/api/inventory/{id}/decode"), Some(Owner::Decode)),
        (format!("/api/inventory/{id}/classification"), Some(Owner::Classification)),
        ("/api/clusters".to_owned(), Some(Owner::Clusters)),
        ("/api/analyze/a1/trace".to_owned(), Some(Owner::Analyze)),
        ("/api/datasets".to_owned(), Some(Owner::Datasets)),
        ("/api/captures/c1/parse".to_owned(), Some(Owner::Inspector)),
        ("/api/captures/c1/frames".to_owned(), Some(Owner::Captures)),
        ("/api/candidates".to_owned(), Some(Owner::Attention)),
        (format!("/api/anomalies/{id}/reopen"), Some(Owner::Anomalies)),
        ("/api/frontend/events".to_owned(), Some(Owner::FrontEnd)),
        ("/api/inventory".to_owned(), None),
        ("/api/analysis/strongest".to_owned(), None),
        (format!("/api/inventory/{id}"), None),
        ("/index.html".to_owned(), None),
    ];
    for (path, part) in cases {
        assert_eq!(owner(&path), part, "{path}");
    }
}

#[test]
fn stores_that_are_not_there_say_so() {
    assert!(matches!(with_history(Store::Ready, Store::Absent), Ok(HistorySource::History)));
    assert!(matches!(with_history(Store::Absent, Store::Ready), Ok(HistorySource::Floor)));
    let e = with_history(Store::Absent, Store::Absent).err().unwrap();
    assert_eq!((e.status, e.message.as_str()), (404, "no spectrum history on this server"));
    assert_eq!(with_history(Store::Poisoned, Store::Ready).err().unwrap().status, 500);
    assert_eq!(floor(Store::Absent).err().unwrap().status, 404);
    assert_eq!(inventory(Store::Poisoned).err().unwrap().status, 500);
    assert!(floor(Store::Ready).is_ok());
}

#[test]
fn upgrades_answer_with_the_key_of_the_request() {
    // The key and its answer of RFC 6455, section 1.3.
    let head = switch_protocols("dGhlIHNhbXBsZSBub25jZQ==");
    assert!(head.starts_with("HTTP/1.1 101"), "{head}");
    assert!(head.contains("s3pPLMBiTxaQ9kYGzzhZRbK+xOo="), "{head}");
    let mut req = with_headers(&[
        ("Upgrade", "websocket"),
        ("Connection", "Upgrade"),
        ("Sec-WebSocket-Version", "13"),
        ("Sec-WebSocket-Key", "dGhlIHNhbXBsZSBub25jZQ=="),
    ]);
    assert!(matches!(upgrade(&req), Upgrade::Key("dGhlIHNhbXBsZSBub25jZQ==")));
    req.headers[2].1 = "12".to_owned();
    assert!(matches!(upgrade(&req), Upgrade::Version));
    assert_eq!(version_required().status, 426);
    req.headers.clear();
    assert!(matches!(upgrade(&req), Upgrade::Error(_, _)));
}

#[test]
fn attachments_end_in_what_became_of_them() {
    assert!(matches!(attach_step(AttachOutcome::Attached), WsStep::Watch));
    assert!(matches!(attach_step(AttachOutcome::BetweenWindows), WsStep::Wait));
    match attach_step(AttachOutcome::Finished) {
        WsStep::Answer(a) => assert_eq!(a.status, 410),
        _ => panic!("a finished stream is gone"),
    }
    match attach_step(AttachOutcome::TooManyConsumers(4)) {
        WsStep::Answer(a) => assert_eq!(a.status, 503),
        _ => panic!("a full stream is refused"),
    }
    assert_eq!(still_replumbing().status, 503);
}

#[test]
fn a_handshake_waits_between_windows_and_no_longer() {
    let refused = |e: WsEvent| match handshake(e) {
        WsStep::Answer(a) => (a.status, said(&a.body)),
        _ => panic!("it is refused"),
    };
    assert_eq!(refused(WsEvent::Looked(false)), (404, "no such stream".to_owned()));
    assert!(matches!(handshake(WsEvent::Looked(true)), WsStep::Attach));
    assert!(matches!(handshake(WsEvent::Tried(AttachOutcome::BetweenWindows)), WsStep::Wait));
    assert!(matches!(handshake(WsEvent::Waited(true)), WsStep::Attach));
    match handshake(WsEvent::Waited(false)) {
        WsStep::Answer(a) => {
            assert_eq!((a.status, a.extra.as_str()), (503, "Retry-After: 1\r\n"));
            assert_eq!(a.body.get("code").and_then(|c| c.string()), Some("replumbing"));
        }
        _ => panic!("the wait is over"),
    }
    assert_eq!(REPLUMB_HANDSHAKE_WAIT, 2_000_000_000);
    assert_eq!(handshake_left(0), REPLUMB_HANDSHAKE_WAIT);
    assert_eq!(handshake_left(1_500_000_000), 500_000_000);
    assert_eq!(handshake_left(REPLUMB_HANDSHAKE_WAIT + 1), 0);
    assert!(offered_step(true).is_none());
    assert_eq!(offered_step(false).unwrap().status, 404);
}

#[test]
fn outputs_that_cannot_be_sent_say_why() {
    let refused = |recorder: bool, opened: Result<bool, ApiError>| {
        output_refusal(recorder, opened).map(|a| (a.status, said(&a.body)))
    };
    let none = "no output recorder on this server".to_owned();
    assert_eq!(refused(false, Ok(true)), Some((503, none)));
    let error = ApiError::new(404, "no such output");
    assert_eq!(refused(true, Err(error)), Some((404, "no such output".to_owned())));
    assert_eq!(refused(true, Ok(false)), Some((404, "no such file".to_owned())));
    assert_eq!(refused(true, Ok(true)), None);
}

#[test]
fn static_files_stay_below_their_directory() {
    assert!(matches!(static_step("/../etc/passwd", true), StaticStep::Missing));
    assert!(matches!(static_step("/app.js", false), StaticStep::Missing));
    match static_step("/assets/app.js", true) {
        StaticStep::Read(p) => assert_eq!(p, "assets/app.js"),
        StaticStep::Missing => panic!("a plain path is read"),
    }
    assert_eq!(content_type("a/app.js"), "text/javascript; charset=utf-8");
    assert_eq!(static_found("x.html", b"hi".to_vec()).body, b"hi");
    assert_eq!(static_missing("/").ok().unwrap().status, 200);
    assert_eq!(static_missing("/x").err().unwrap().status, 404);
    let head = output_head("/o/take.wav", "take.wav", 12);
    assert!(head.contains("audio/wav") && head.contains("Content-Length: 12"), "{head}");
}

#[test]
fn connections_are_counted_and_retired() {
    let mut c = Conns::new();
    let a = c.accept(2).unwrap();
    let b = c.accept(2).unwrap();
    assert_ne!(a, b);
    assert_eq!(c.next_number(), 2);
    assert_eq!(c.accept(2), None, "there is room for two");
    assert!(!c.retire(a));
    assert!(c.retire(b), "the last one is gone");
}

#[test]
fn the_widest_span_is_the_live_one() {
    let r = |x: f64| Real { bits: x.to_bits() };
    assert_eq!(max_live_span_hz(&vec![r(2e6), r(8e6)], Some(r(1e6))), Some(r(8e6)));
    assert_eq!(max_live_span_hz(&vec![], None), None);
    assert_eq!(max_live_span_hz(&vec![], Some(r(1e6))), Some(r(1e6)));
    assert_eq!(max_live_span_hz(&vec![], Some(r(0.0))), None);
    assert_eq!(widest_rate(&Choices::Continuous(r(2e6), r(20e6))), Some(r(20e6)));
    assert_eq!(widest_rate(&Choices::Discrete(vec![r(4e6), r(16e6), r(8e6)])), Some(r(16e6)));
    assert_eq!(widest_rate(&Choices::Discrete(vec![])), None);
}

#[test]
fn large_answers_are_compressed_for_those_who_ask() {
    let body = vec![b'a'; GZIP_MIN_BYTES];
    let coded = gzip(&body).unwrap();
    assert!(coded.len() < body.len());
    assert_eq!(&coded[..2], &[0x1f, 0x8b]);
    let (head, out) = maybe_gzip(true, "", body.clone());
    assert!(head.contains("Content-Encoding: gzip"));
    assert_eq!(out, coded);
    let (head, out) = maybe_gzip(false, "", body.clone());
    assert!(!head.contains("Content-Encoding"));
    assert_eq!(out, body);
    let (_, small) = maybe_gzip(true, "", b"{}".to_vec());
    assert_eq!(small, b"{}");
    let r = respond_json_encoded(200, body.clone(), "", true);
    assert_eq!(r.body, coded);
    assert_eq!(read_body(true, r.body), Some(body.clone()));
    assert_eq!(read_body(false, body.clone()), Some(body.clone()));
    assert_eq!(read_body(true, b"no packed body".to_vec()), None);
    assert!(accepts_gzip(&with_headers(&[("Accept-Encoding", "br, gzip")])));
    assert!(!accepts_gzip(&with_headers(&[("Accept-Encoding", "br")])));
    assert!(!accepts_gzip(&with_headers(&[])));
}

#[test]
fn a_weight_of_zero_refuses_an_encoding() {
    let takes = |v: &str| accepts_gzip(&with_headers(&[("Accept-Encoding", v)]));
    for refused in ["gzip;q=0", "gzip;q=0.0", "gzip;q=0.000", "gzip; q=0"] {
        assert!(!takes(refused), "{refused}");
    }
    for taken in ["gzip;q=1", "gzip;q=0.001", "gzip;q=0.5", "gzip"] {
        assert!(takes(taken), "{taken}");
    }
}

#[test]
fn check_sums_and_reasons_are_the_known_ones() {
    assert_eq!(crc32(b"123456789"), 0xcbf4_3926);
    assert_eq!(crc32(b""), 0);
    assert_eq!(reason(404), "Not Found");
    assert_eq!(reason(200), "OK");
}

#[test]
fn sealed_tiles_revalidate_and_open_ones_do_not() {
    let fresh = respond_tile(true, false, None, b"tile".to_vec(), b"tile");
    assert_eq!(fresh.status, 200);
    let tag = fresh
        .extra
        .lines()
        .find_map(|l| l.strip_prefix("ETag: "))
        .unwrap()
        .trim()
        .to_owned();
    let again = respond_tile(true, false, Some(&tag), b"tile".to_vec(), b"tile");
    assert_eq!(again.status, 304);
    assert!(again.body.is_empty());
    let open = respond_tile(false, false, Some(&tag), b"tile".to_vec(), b"tile");
    assert_eq!(open.status, 200);
}

#[test]
fn read_diagnostics_are_not_part_of_a_tile() {
    let v = Json::Object(vec![
        ("tiles".to_owned(), Json::Number(Num::U(1))),
        ("read_ms".to_owned(), Json::Number(Num::U(7))),
    ]);
    match strip_read_diagnostics(&v) {
        Json::Object(m) => assert!(m.iter().any(|(k, _)| k == "tiles")),
        _ => panic!("it stays an object"),
    }
    assert!(!is_sealed(&Json::Null));
}
