use where_is_teemo::config_proxy::patch_config;
use where_is_teemo::config_proxy::process_upstream_body;
use where_is_teemo::config_proxy::should_forward_header;
use where_is_teemo::config_proxy::upstream_url;

fn parse(body: &str) -> serde_json::Value {
    serde_json::from_str(body).expect("patched body must stay JSON")
}

// Chat endpoint patch: host and every affinity point at the local proxy,
// the port is the proxy's, bad certificates are allowed, and the real host
// is discovered.
#[test]
fn patch_rewrites_chat_endpoint() {
    let body = r#"{"chat.host":"na2.chat.x","chat.port":5223,"chat.affinities":{"na":"na2.chat.x"}}"#;
    let (patched, discovered) = patch_config(body, 5223).expect("chat config must be patched");
    assert_eq!(discovered.as_deref(), Some("na2.chat.x"));
    let v = parse(&patched);
    assert_eq!(v["chat.host"], serde_json::Value::String("127.0.0.1".to_string()));
    assert_eq!(v["chat.port"], serde_json::Value::Number(serde_json::Number::from(5223u16)));
    assert_eq!(v["chat.affinities"]["na"], serde_json::Value::String("127.0.0.1".to_string()));
    assert_eq!(v["chat.allow_bad_cert.enabled"], serde_json::Value::Bool(true));
}

// Every affinity value is redirected, and unrelated keys survive untouched.
#[test]
fn patch_keeps_unrelated_keys() {
    let body = r#"{"chat.host":"eu.chat","chat.affinities":{"a":"h1","b":"h2","c":"h3"},"other.key":"stays","n":7}"#;
    let (patched, discovered) = patch_config(body, 5223).expect("chat config must be patched");
    assert_eq!(discovered.as_deref(), Some("eu.chat"));
    let v = parse(&patched);
    for k in ["a", "b", "c"] {
        assert_eq!(v["chat.affinities"][k], serde_json::Value::String("127.0.0.1".to_string()));
    }
    assert_eq!(v["other.key"], serde_json::Value::String("stays".to_string()));
    assert_eq!(v["n"], serde_json::Value::Number(serde_json::Number::from(7)));
}

// A chat.port-only config is still patched, with nothing discovered.
#[test]
fn patch_port_only_discovers_nothing() {
    let body = r#"{"chat.port":443}"#;
    let (patched, discovered) = patch_config(body, 5223).expect("chat config must be patched");
    assert_eq!(discovered, None);
    let v = parse(&patched);
    assert_eq!(v["chat.port"], serde_json::Value::Number(serde_json::Number::from(5223u16)));
    assert_eq!(v["chat.allow_bad_cert.enabled"], serde_json::Value::Bool(true));
}

// JSON without chat keys is not patched.
#[test]
fn json_without_chat_keys_unpatched() {
    assert_eq!(patch_config(r#"{"some.key":"value"}"#, 5223), None);
}

// Non-JSON bodies are not patched.
#[test]
fn non_json_unpatched() {
    assert_eq!(patch_config("not json at all", 5223), None);
    assert_eq!(patch_config("[1,2,3]", 5223), None);
}

// The full body decision: a JSON content type with chat keys patches, any
// other body passes through byte for byte with no discovery.
#[test]
fn upstream_body_decision() {
    let chat = r#"{"chat.host":"x.chat"}"#.to_string();
    let (b, d) = process_upstream_body(chat, "application/json; charset=utf-8", 5223);
    assert_eq!(d.as_deref(), Some("x.chat"));
    assert_eq!(parse(&b)["chat.host"], serde_json::Value::String("127.0.0.1".to_string()));

    let html = "<html></html>".to_string();
    let (b, d) = process_upstream_body(html.clone(), "text/html", 5223);
    assert_eq!(b, html);
    assert_eq!(d, None);

    let plain = r#"{"chat.host":"x.chat"}"#.to_string();
    let (b, d) = process_upstream_body(plain.clone(), "application/octet-stream", 5223);
    assert_eq!(b, plain);
    assert_eq!(d, None);
}

#[test]
fn upstream_url_appends_path_and_query() {
    assert_eq!(
        upstream_url("/api/v1/config/player?os=windows"),
        "https://clientconfig.rpg.riotgames.com/api/v1/config/player?os=windows"
    );
}

#[test]
fn header_whitelist() {
    assert!(should_forward_header("user-agent"));
    assert!(should_forward_header("x-riot-entitlements-jwt"));
    assert!(should_forward_header("authorization"));
    assert!(!should_forward_header("cookie"));
    assert!(!should_forward_header("host"));
}
