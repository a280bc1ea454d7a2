use panicbase::ips::JsonValue as J;
use panicbase::icloud::{cookie_header_of, session_from_validate, validate_endpoint, bridge_chunk, is_authenticated, login_watch_cookies, login_watch_url, CookiePair, LoginStep, LoginWatch, PendingResp};

fn pairs(v: &[(&str, &str)]) -> Vec<(String, String)> {
    v.iter().map(|(a, b)| (a.to_string(), b.to_string())).collect()
}

#[test]
fn chunks_assemble_in_index_order() {
    let mut p = PendingResp::new();
    let second = bridge_chunk(&pairs(&[("marker", "m1"), ("status", "200"), ("seq", "1"), ("total", "2"), ("body", "world")])).unwrap();
    let first = bridge_chunk(&pairs(&[("marker", "m1"), ("status", "200"), ("seq", "0"), ("total", "2"), ("body", "hello ")])).unwrap();
    p.record(second);
    assert!(!p.is_complete());
    p.record(first);
    assert!(p.is_complete());
    assert_eq!(p.status, 200);
    assert_eq!(p.assemble(), "hello world");
}

#[test]
fn chunk_query_defaults() {
    assert!(bridge_chunk(&pairs(&[("status", "200")])).is_none());
    assert!(bridge_chunk(&pairs(&[("marker", "")])).is_none());
    let c = bridge_chunk(&pairs(&[("marker", "a"), ("marker", "b"), ("status", "x"), ("total", "0"), ("seq", "-1")])).unwrap();
    assert_eq!(c.marker, "b");
    assert_eq!(c.status, 0);
    assert_eq!(c.total, 1);
    assert_eq!(c.seq, 0);
    assert_eq!(c.body, "");
    let big = bridge_chunk(&pairs(&[("marker", "a"), ("status", "70000")])).unwrap();
    assert_eq!(big.status, 0);
}

#[test]
fn login_watch_steps() {
    let mut w = LoginWatch { signaled: false, auth_cycles: 0 };
    assert!(login_watch_url(&mut w, false, false, "") == (LoginStep::Cancelled, false));
    assert!(login_watch_url(&mut w, false, true, "") == (LoginStep::Stop, false));
    assert!(login_watch_url(&mut w, true, false, "https://idmsa.apple.com/x") == (LoginStep::Wait, false));
    assert!(login_watch_url(&mut w, true, false, "https://www.icloud.com/photos/") == (LoginStep::ReadCookies, true));
    assert!(w.signaled);
    assert!(login_watch_url(&mut w, true, false, "https://www.icloud.com/photos/") == (LoginStep::ReadCookies, false));
    let signed = vec![CookiePair { name: "x-apple-webauth-token".to_string(), value: "v".to_string() }];
    let anon = vec![CookiePair { name: "X-APPLE-WEBAUTH-TOKEN".to_string(), value: String::new() }];
    assert!(is_authenticated(&signed));
    assert!(!is_authenticated(&anon));
    assert!(!login_watch_cookies(&mut w, &signed));
    assert!(login_watch_cookies(&mut w, &signed));
    assert!(!login_watch_cookies(&mut w, &anon));
    assert_eq!(w.auth_cycles, 0);
}

fn json(text: &str) -> J {
    fn conv(v: serde_json::Value) -> J {
        match v {
            serde_json::Value::Null => J::Null,
            serde_json::Value::Bool(b) => J::Bool(b),
            serde_json::Value::Number(n) => J::Number(n.to_string()),
            serde_json::Value::String(t) => J::Text(t),
            serde_json::Value::Array(a) => J::Array(a.into_iter().map(conv).collect()),
            serde_json::Value::Object(m) => J::Object(m.into_iter().map(|(k, x)| (k, conv(x))).collect()),
        }
    }
    conv(serde_json::from_str(text).expect("json"))
}

#[test]
fn validate_answer_makes_a_session() {
    assert_eq!(
        validate_endpoint("C1"),
        "https://setup.icloud.com/setup/ws/1/validate?clientBuildNumber=2421Project53&clientMasteringNumber=2421B25&clientId=C1"
    );
    let cookies = vec![
        CookiePair { name: "a".to_string(), value: "1".to_string() },
        CookiePair { name: "b".to_string(), value: "2".to_string() },
    ];
    assert_eq!(cookie_header_of(&cookies), "a=1; b=2");
    let doc = json(r#"{"dsInfo":{"dsid":"42","appleId":"x@y"},"webservices":{"ckdatabasews":{"url":"https://ck"},"photos":{"status":"down"}}}"#);
    let s = session_from_validate(&doc, "a=1".to_string(), "C1".to_string()).expect("session");
    assert_eq!(s.dsid, "42");
    assert_eq!(s.apple_id.as_deref(), Some("x@y"));
    assert_eq!(s.full_name, None);
    assert_eq!(s.webservices, vec![("ckdatabasews".to_string(), "https://ck".to_string())]);
    assert_eq!(s.client_id, "C1");
    let err = session_from_validate(&json(r#"{"dsInfo":{}}"#), String::new(), String::new());
    assert!(err.is_err());
}
