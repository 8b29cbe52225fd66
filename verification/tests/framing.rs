use where_is_teemo::stanza::find_stanza_end;

#[test]
fn test_find_stanza_end_complete() {
    let buf = r#"<presence><show>chat</show></presence>"#;
    assert_eq!(find_stanza_end(buf), Some(buf.len()));
}

#[test]
fn test_find_stanza_end_incomplete() {
    let buf = r#"<presence><show>chat</show>"#;
    assert_eq!(find_stanza_end(buf), None);
}

#[test]
fn test_find_stanza_end_self_closing() {
    let buf = r#"<presence from="user@server"/>"#;
    assert_eq!(find_stanza_end(buf), Some(buf.len()));
}

#[test]
fn test_find_stanza_end_stream_open() {
    let buf = r#"<stream:stream xmlns="jabber:client" to="server">"#;
    assert_eq!(find_stanza_end(buf), Some(buf.len()));
}

#[test]
fn test_find_stanza_end_auth() {
    let buf = r#"<auth xmlns="urn:ietf:params:xml:ns:xmpp-sasl" mechanism="X-Riot-RSO">dG9rZW4=</auth>"#;
    assert_eq!(find_stanza_end(buf), Some(buf.len()));
}

#[test]
fn test_find_stanza_end_xml_declaration() {
    let buf = r#"<?xml version='1.0'?>"#;
    assert_eq!(find_stanza_end(buf), Some(buf.len()));
}

#[test]
fn test_find_stanza_end_close_stream() {
    let buf = "</stream:stream>";
    assert_eq!(find_stanza_end(buf), Some(buf.len()));
}

#[test]
fn test_find_stanza_end_stream_features() {
    let buf = r#"<stream:features><mechanisms xmlns="urn:ietf:params:xml:ns:xmpp-sasl"><mechanism>X-Riot-RSO</mechanism></mechanisms></stream:features>"#;
    assert_eq!(find_stanza_end(buf), Some(buf.len()));
}

#[test]
fn test_find_stanza_end_response() {
    let buf = r#"<response xmlns="urn:ietf:params:xml:ns:xmpp-sasl">dG9rZW4=</response>"#;
    assert_eq!(find_stanza_end(buf), Some(buf.len()));
}

#[test]
fn test_find_stanza_end_child_self_closing_not_confused() {
    // A presence stanza with a self-closing child element (<pty/>) should
    // NOT be split at <pty/> — it must wait for </presence>.
    let buf = r#"<presence id='5'><show>chat</show><games><keystone><pty/></keystone></games></presence>"#;
    assert_eq!(find_stanza_end(buf), Some(buf.len()));
}

// A complete stanza is consumed whole: the framer returns exactly its length.
#[test]
fn whole_stanza_whole_length() {
    for buf in [
        r#"<iq id="1" type="get"><ping/></iq>"#,
        "<a/>",
        "<a></a>",
        r#"<m k="v1" j='v2'>text<inner x="y"/></m>"#,
    ] {
        assert_eq!(find_stanza_end(buf), Some(buf.len()));
    }
}

// No strict prefix of a stanza frames early: fed byte by byte, the framer
// answers None until the final byte arrives.
#[test]
fn prefixes_never_frame_early() {
    let buf = r#"<presence id='5'><show>chat</show><games><keystone><pty/></keystone></games></presence>"#;
    for i in 0..buf.len() {
        assert_eq!(find_stanza_end(&buf[..i]), None, "prefix of length {i}");
    }
    assert_eq!(find_stanza_end(buf), Some(buf.len()));
}

// Leading whitespace is consumed together with the construct after it.
#[test]
fn leading_whitespace_consumed() {
    let buf = " \n<a/>";
    assert_eq!(find_stanza_end(buf), Some(buf.len()));
}

// Leading non-markup text is forwarded up to the next tag start.
#[test]
fn leading_text_forwarded() {
    assert_eq!(find_stanza_end("hello<a/>"), Some(5));
    assert_eq!(find_stanza_end("hello"), Some(5));
}

// An empty or all-whitespace buffer holds nothing to frame.
#[test]
fn empty_buffer_frames_nothing() {
    assert_eq!(find_stanza_end(""), None);
    assert_eq!(find_stanza_end("   "), None);
}

// A quoted '>' inside an attribute does not end the self-closing scan.
#[test]
fn quoted_gt_does_not_close() {
    let buf = r#"<a b="x>y"/>"#;
    assert_eq!(find_stanza_end(buf), Some(buf.len()));
}

// A mismatched close tag keeps the framer waiting.
#[test]
fn mismatched_close_waits() {
    assert_eq!(find_stanza_end("<a>text</b>"), None);
}
