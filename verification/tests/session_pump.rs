use where_is_teemo::state::StealthMode;
use where_is_teemo::xmpp_proxy::Session;

// A stanza split across reads is forwarded once, whole, when it completes.
#[test]
fn split_stanza_forwarded_once() {
    let mut s = Session::new();
    let out = s.push_text("<presence><show>", &StealthMode::Online);
    assert!(out.is_empty());
    let out = s.push_text("chat</show></presence>", &StealthMode::Online);
    assert_eq!(out, vec!["<presence><show>chat</show></presence>".to_string()]);
    let out = s.push_text("", &StealthMode::Online);
    assert!(out.is_empty());
}

// Several complete stanzas in one read come out in arrival order.
#[test]
fn multiple_stanzas_in_order() {
    let mut s = Session::new();
    let out = s.push_text(
        r#"<auth xmlns="x">dG9rZW4=</auth><iq id="1"/><presence/>"#,
        &StealthMode::Online,
    );
    assert_eq!(
        out,
        vec![
            r#"<auth xmlns="x">dG9rZW4=</auth>"#.to_string(),
            r#"<iq id="1"/>"#.to_string(),
            "<presence/>".to_string(),
        ]
    );
}

// Offline mode rewrites presence stanzas as they pass, others untouched.
#[test]
fn offline_rewrites_in_stream() {
    let mut s = Session::new();
    let out = s.push_text(
        r#"<presence id="1"><show>chat</show></presence><iq id="2"/>"#,
        &StealthMode::Offline,
    );
    assert_eq!(
        out,
        vec![
            r#"<presence id="1" type="unavailable"/>"#.to_string(),
            r#"<iq id="2"/>"#.to_string(),
        ]
    );
}

// Mode-toggle injections: going offline sends the minimal unavailable
// presence; going online re-sends the last cached available presence.
#[test]
fn mode_toggle_injections() {
    let mut s = Session::new();
    // Nothing cached yet: online injection falls back to a bare presence.
    assert_eq!(s.on_mode_change(&StealthMode::Online), "<presence/>");
    let _ = s.push_text(r#"<presence id="1"><show>chat</show></presence>"#, &StealthMode::Online);
    assert_eq!(
        s.on_mode_change(&StealthMode::Offline),
        r#"<presence type="unavailable"/>"#
    );
    assert_eq!(
        s.on_mode_change(&StealthMode::Online),
        r#"<presence id="1"><show>chat</show></presence>"#
    );
}

// The cache keeps the raw presence even when the stream is being filtered,
// and skips presences already marked unavailable.
#[test]
fn cache_skips_unavailable() {
    let mut s = Session::new();
    let _ = s.push_text(r#"<presence id="7"/>"#, &StealthMode::Offline);
    let _ = s.push_text(r#"<presence type="unavailable"/>"#, &StealthMode::Offline);
    assert_eq!(s.on_mode_change(&StealthMode::Online), r#"<presence id="7"/>"#);
}

// At disconnect the unframed remainder is handed back for flushing.
#[test]
fn remainder_flushed() {
    let mut s = Session::new();
    let out = s.push_text("<presence><sho", &StealthMode::Online);
    assert!(out.is_empty());
    assert_eq!(s.take_remainder(), "<presence><sho");
    assert_eq!(s.take_remainder(), "");
}
