use where_is_teemo::presence::filter_outgoing;
use where_is_teemo::state::StealthMode;

#[test]
fn test_filter_online_passthrough() {
    let stanza = r#"<presence><show>chat</show></presence>"#;
    assert_eq!(filter_outgoing(stanza, &StealthMode::Online), stanza);
}

#[test]
fn test_filter_offline_full_presence() {
    let stanza = r#"<presence from="user@server" to="friend@server"><show>chat</show><status>Playing</status></presence>"#;
    let result = filter_outgoing(stanza, &StealthMode::Offline);
    assert!(result.contains(r#"type="unavailable""#));
    assert!(result.contains(r#"from="user@server""#));
    assert!(!result.contains("<show>"));
}

#[test]
fn test_filter_offline_self_closing() {
    let stanza = r#"<presence from="user@server"/>"#;
    let result = filter_outgoing(stanza, &StealthMode::Offline);
    assert!(result.contains(r#"type="unavailable""#));
    assert!(result.contains(r#"from="user@server""#));
}

#[test]
fn test_filter_non_presence_passthrough() {
    let stanza = r#"<message to="friend@server"><body>hello</body></message>"#;
    assert_eq!(filter_outgoing(stanza, &StealthMode::Offline), stanza);
}

#[test]
fn test_replace_existing_type() {
    let stanza = r#"<presence type="available" from="user@server"><show>chat</show></presence>"#;
    let result = filter_outgoing(stanza, &StealthMode::Offline);
    assert!(result.contains(r#"type="unavailable""#));
    assert!(!result.contains(r#"type="available""#));
}

// Full presence rewrite: body elements dropped, attributes kept, exactly one
// unavailable type attribute.
#[test]
fn full_presence_rewrite_exact() {
    let stanza = r#"<presence from="u@s" id="7"><show>chat</show><status>p</status></presence>"#;
    let result = filter_outgoing(stanza, &StealthMode::Offline);
    assert_eq!(result, r#"<presence from="u@s" id="7" type="unavailable"/>"#);
}

// Self-closing presence with an existing type attribute: the old value is
// gone, the new one present, other attributes kept.
#[test]
fn self_closing_existing_type_exact() {
    let stanza = r#"<presence type="available" from="u@s"/>"#;
    let result = filter_outgoing(stanza, &StealthMode::Offline);
    assert!(result.contains(r#"type="unavailable""#));
    assert!(result.contains(r#"from="u@s""#));
    assert!(!result.contains(r#"type="available""#));
    assert_eq!(result.matches("type=").count(), 1);
}

// A single-quoted type attribute is removed too.
#[test]
fn self_closing_single_quoted_type() {
    let stanza = r#"<presence type='available' from='u@s'/>"#;
    let result = filter_outgoing(stanza, &StealthMode::Offline);
    assert!(result.contains(r#"type="unavailable""#));
    assert!(result.contains("from='u@s'"));
    assert!(!result.contains("type='available'"));
}

// Online mode passes presence stanzas through whatever they carry.
#[test]
fn online_mode_never_rewrites() {
    for stanza in [
        r#"<presence type="available"/>"#,
        r#"<presence from="a@b"><show>dnd</show></presence>"#,
        r#"<iq id="1"/>"#,
        "plain text",
    ] {
        assert_eq!(filter_outgoing(stanza, &StealthMode::Online), stanza);
    }
}

// Offline filtering is idempotent on a self-closing presence.
#[test]
fn offline_idempotent_self_closing() {
    let stanza = r#"<presence from="u@s" id="7"/>"#;
    let once = filter_outgoing(stanza, &StealthMode::Offline);
    let twice = filter_outgoing(once.as_str(), &StealthMode::Offline);
    assert_eq!(once, twice);
}

// For a full element the first rewrite moves the type attribute; the result
// of a second application is a fixed point.
#[test]
fn offline_stable_full_element() {
    let stanza = r#"<presence from="u@s"><show>chat</show></presence>"#;
    let once = filter_outgoing(stanza, &StealthMode::Offline);
    let twice = filter_outgoing(once.as_str(), &StealthMode::Offline);
    let thrice = filter_outgoing(twice.as_str(), &StealthMode::Offline);
    assert_eq!(twice, thrice);
}

// A presence without matching close and without self-close passes through.
#[test]
fn offline_unterminated_presence_passthrough() {
    let stanza = r#"<presence from="u@s">"#;
    assert_eq!(filter_outgoing(stanza, &StealthMode::Offline), stanza);
}

// Leading whitespace is trimmed before the rewrite.
#[test]
fn offline_trims_whitespace() {
    let stanza = "  <presence/>  ";
    let result = filter_outgoing(stanza, &StealthMode::Offline);
    assert_eq!(result, r#"<presence type="unavailable"/>"#);
}
