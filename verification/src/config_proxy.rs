//! The config proxy's patching logic: given the upstream client-config body,
//! redirect the chat endpoint to the local listener, collect the real chat
//! host for discovery, and leave everything else untouched. The HTTP
//! listener and the upstream fetch around this logic live outside the
//! library; JSON reading and writing go through serde_json behind trusted
//! declarations, and every decision over the parsed object is verified.

use vstd::prelude::*;

use crate::text::contains_seq;
use crate::text::contains_sub;

verus! {

#[verifier::external_type_specification]
#[verifier::external_body]
pub struct ExValue(serde_json::Value);

#[verifier::external_type_specification]
#[verifier::external_body]
#[verifier::reject_recursive_types(K)]
#[verifier::reject_recursive_types(V)]
pub struct ExJsonMap<K, V>(serde_json::Map<K, V>);

/// What a JSON object holds: its keys and their values.
pub uninterp spec fn obj_spec(m: serde_json::Map<String, serde_json::Value>) -> Map<
    Seq<char>,
    serde_json::Value,
>;

/// The top-level JSON object that `serde_json::from_str` reads from a text,
/// when the text is JSON and its top level is an object.
pub uninterp spec fn obj_of_text(s: Seq<char>) -> Option<Map<Seq<char>, serde_json::Value>>;

/// The character content of a JSON value, when the value is a string.
pub uninterp spec fn str_spec(v: serde_json::Value) -> Option<Seq<char>>;

/// The integer content of a JSON value, when the value is a whole number.
pub uninterp spec fn num_spec(v: serde_json::Value) -> Option<int>;

/// The boolean content of a JSON value, when the value is a boolean.
pub uninterp spec fn bool_spec(v: serde_json::Value) -> Option<bool>;

/// The object content of a JSON value, when the value is an object.
pub uninterp spec fn objval_spec(v: serde_json::Value) -> Option<
    Map<Seq<char>, serde_json::Value>,
>;

/// The text that `serde_json::to_string` writes for a JSON object.
pub uninterp spec fn json_text(m: serde_json::Map<String, serde_json::Value>) -> Seq<char>;

/// Relies on serde_json::from_str and Value: the body parses as JSON with an
/// object at top level, or not.
#[verifier::external_body]
pub(crate) fn parse_object(body: &str) -> (r: Option<serde_json::Map<String, serde_json::Value>>)
    ensures
        match r {
            Some(m) => obj_of_text(body@) == Some(obj_spec(m)),
            None => obj_of_text(body@) is None,
        },
{
    match serde_json::from_str::<serde_json::Value>(body) {
        Ok(serde_json::Value::Object(m)) => Some(m),
        _ => None,
    }
}

/// Relies on serde_json::Map::contains_key.
#[verifier::external_body]
fn map_contains(m: &serde_json::Map<String, serde_json::Value>, k: &str) -> (r: bool)
    ensures
        r == obj_spec(*m).dom().contains(k@),
{
    m.contains_key(k)
}

/// Relies on serde_json::Map::get: the value under a key, when present.
#[verifier::external_body]
pub(crate) fn map_get<'a>(m: &'a serde_json::Map<String, serde_json::Value>, k: &str) -> (r: Option<
    &'a serde_json::Value,
>)
    ensures
        match r {
            Some(v) => obj_spec(*m).dom().contains(k@) && *v == obj_spec(*m)[k@],
            None => !obj_spec(*m).dom().contains(k@),
        },
{
    m.get(k)
}

/// Relies on serde_json::Map::insert: the object maps the key to the value
/// afterwards.
#[verifier::external_body]
fn map_insert(m: &mut serde_json::Map<String, serde_json::Value>, k: &str, v: serde_json::Value)
    ensures
        obj_spec(*final(m)) == obj_spec(*old(m)).insert(k@, v),
{
    m.insert(k.to_string(), v);
}

/// Relies on serde_json::Map::new: the fresh object is empty.
#[verifier::external_body]
fn map_new() -> (r: serde_json::Map<String, serde_json::Value>)
    ensures
        obj_spec(r) =~= Map::empty(),
{
    serde_json::Map::new()
}

/// Relies on serde_json::Map::keys: every key once, and nothing else.
#[verifier::external_body]
fn map_keys(m: &serde_json::Map<String, serde_json::Value>) -> (r: Vec<String>)
    ensures
        forall|i: int| 0 <= i < r@.len() ==> obj_spec(*m).dom().contains(#[trigger] r@[i]@),
        forall|k: Seq<char>|
            obj_spec(*m).dom().contains(k) ==> exists|i: int| 0 <= i < r@.len() && #[trigger] r@[i]@ == k,
        forall|i: int, j: int| 0 <= i < j < r@.len() ==> r@[i]@ != r@[j]@,
{
    let mut keys = Vec::new();
    for k in m.keys() {
        keys.push(k.clone());
    }
    keys
}

/// Relies on serde_json::Value::as_str: the string content, when the value
/// is a string.
#[verifier::external_body]
pub(crate) fn value_as_str(v: &serde_json::Value) -> (r: Option<String>)
    ensures
        match r {
            Some(s) => str_spec(*v) == Some(s@),
            None => str_spec(*v) is None,
        },
{
    match v.as_str() {
        Some(s) => Some(s.to_string()),
        None => None,
    }
}

/// Relies on serde_json::Value::String: the built value holds the text.
#[verifier::external_body]
fn value_from_str(s: &str) -> (r: serde_json::Value)
    ensures
        str_spec(r) == Some(s@),
{
    serde_json::Value::String(s.to_string())
}

/// Relies on serde_json::Value::Number and Number::from: the built value
/// holds the number.
#[verifier::external_body]
fn value_from_u16(n: u16) -> (r: serde_json::Value)
    ensures
        num_spec(r) == Some(n as int),
{
    serde_json::Value::Number(serde_json::Number::from(n))
}

/// Relies on serde_json::Value::Bool: the built value holds the boolean.
#[verifier::external_body]
fn value_from_bool(b: bool) -> (r: serde_json::Value)
    ensures
        bool_spec(r) == Some(b),
{
    serde_json::Value::Bool(b)
}

/// Relies on serde_json::Value::Object matching and Map::clone: the object
/// content of a value, when the value is an object.
#[verifier::external_body]
fn value_to_object(v: &serde_json::Value) -> (r: Option<
    serde_json::Map<String, serde_json::Value>,
>)
    ensures
        match r {
            Some(m) => objval_spec(*v) == Some(obj_spec(m)),
            None => objval_spec(*v) is None,
        },
{
    match v {
        serde_json::Value::Object(m) => Some(m.clone()),
        _ => None,
    }
}

/// Relies on serde_json::Value::Object: the built value holds the object.
#[verifier::external_body]
fn object_to_value(m: serde_json::Map<String, serde_json::Value>) -> (r: serde_json::Value)
    ensures
        objval_spec(r) == Some(obj_spec(m)),
{
    serde_json::Value::Object(m)
}

/// Relies on serde_json::to_string on an object; an empty text on a
/// serialization error, which object values do not produce.
#[verifier::external_body]
fn serialize_object(m: &serde_json::Map<String, serde_json::Value>) -> (r: String)
    ensures
        r@ == json_text(*m),
{
    match serde_json::to_string(m) {
        Ok(s) => s,
        Err(_) => String::new(),
    }
}

/// The upstream configuration service every request is forwarded to.
pub fn upstream_base() -> (r: &'static str)
    ensures
        r@ == "https://clientconfig.rpg.riotgames.com"@,
{
    "https://clientconfig.rpg.riotgames.com"
}

/// The upstream URL for an incoming request: the fixed base with the
/// request's path and query appended.
pub fn upstream_url(path_and_query: &str) -> (r: String)
    ensures
        r@ == "https://clientconfig.rpg.riotgames.com"@ + path_and_query@,
{
    let mut r = String::from_str(upstream_base());
    r.append(path_and_query);
    r
}

/// Whether a request header is forwarded upstream: only the client's agent
/// and the two authorization headers pass.
pub fn should_forward_header(name: &str) -> (r: bool)
    ensures
        r == (name@ == "user-agent"@ || name@ == "x-riot-entitlements-jwt"@ || name@
            == "authorization"@),
{
    crate::text::str_eq(name, "user-agent") || crate::text::str_eq(name, "x-riot-entitlements-jwt")
        || crate::text::str_eq(name, "authorization")
}

/// The replacement host written into every redirected field.
pub open spec fn local_ip() -> Seq<char> {
    "127.0.0.1"@
}

/// Whether the object carries any chat endpoint configuration.
pub open spec fn has_chat_key(om: Map<Seq<char>, serde_json::Value>) -> bool {
    om.dom().contains("chat.host"@) || om.dom().contains("chat.port"@) || om.dom().contains(
        "chat.affinities"@,
    )
}

/// The real chat host the object reveals: the string under `chat.host`.
pub open spec fn host_of(om: Map<Seq<char>, serde_json::Value>) -> Option<Seq<char>> {
    if om.dom().contains("chat.host"@) {
        str_spec(om["chat.host"@])
    } else {
        None
    }
}

/// How the patched object relates to the original: `chat.host` redirected,
/// `chat.port` replaced by the proxy port, every affinity host redirected,
/// bad certificates allowed, and every other key left untouched.
pub open spec fn patched_rel(
    om: Map<Seq<char>, serde_json::Value>,
    nm: Map<Seq<char>, serde_json::Value>,
    chat_port: u16,
) -> bool {
    &&& nm.dom() == om.dom().insert("chat.allow_bad_cert.enabled"@)
    &&& om.dom().contains("chat.host"@) ==> str_spec(nm["chat.host"@]) == Some(local_ip())
    &&& om.dom().contains("chat.port"@) ==> num_spec(nm["chat.port"@]) == Some(chat_port as int)
    &&& om.dom().contains("chat.affinities"@) ==> (match objval_spec(om["chat.affinities"@]) {
        Some(am) => match objval_spec(nm["chat.affinities"@]) {
            Some(am2) => am2.dom() == am.dom() && forall|k: Seq<char>|
                am2.dom().contains(k) ==> #[trigger] str_spec(am2[k]) == Some(local_ip()),
            None => false,
        },
        None => nm["chat.affinities"@] == om["chat.affinities"@],
    })
    &&& bool_spec(nm["chat.allow_bad_cert.enabled"@]) == Some(true)
    &&& forall|k: Seq<char>|
        om.dom().contains(k) && k != "chat.host"@ && k != "chat.port"@ && k != "chat.affinities"@
            && k != "chat.allow_bad_cert.enabled"@ ==> #[trigger] nm[k] == om[k]
}

/// Whether the discovered host matches what the object reveals.
pub open spec fn discovered_ok(
    om: Map<Seq<char>, serde_json::Value>,
    discovered: Option<String>,
) -> bool {
    match host_of(om) {
        Some(h) => match discovered {
            Some(s) => s@ == h,
            None => false,
        },
        None => discovered is None,
    }
}

/// The four chat keys the patch touches are pairwise distinct.
proof fn lemma_chat_keys_distinct()
    ensures
        "chat.host"@ != "chat.port"@,
        "chat.host"@ != "chat.affinities"@,
        "chat.host"@ != "chat.allow_bad_cert.enabled"@,
        "chat.port"@ != "chat.affinities"@,
        "chat.port"@ != "chat.allow_bad_cert.enabled"@,
        "chat.affinities"@ != "chat.allow_bad_cert.enabled"@,
{
    reveal_strlit("chat.host");
    reveal_strlit("chat.port");
    reveal_strlit("chat.affinities");
    reveal_strlit("chat.allow_bad_cert.enabled");
    assert("chat.host"@.len() == 9);
    assert("chat.port"@.len() == 9);
    assert("chat.affinities"@.len() == 15);
    assert("chat.allow_bad_cert.enabled"@.len() == 27);
    assert("chat.host"@[5] == 'h');
    assert("chat.port"@[5] == 'p');
}

/// Patch a parsed config object in place: redirect `chat.host`, replace
/// `chat.port` with the proxy's port, point every affinity at the local
/// host, allow bad certificates, and return the real chat host read from
/// `chat.host` before the overwrite.
pub fn patch_object(m: &mut serde_json::Map<String, serde_json::Value>, chat_port: u16) -> (r:
    Option<String>)
    ensures
        patched_rel(obj_spec(*old(m)), obj_spec(*final(m)), chat_port),
        discovered_ok(obj_spec(*old(m)), r),
{
    proof {
        lemma_chat_keys_distinct();
    }
    let ghost om = obj_spec(*m);
    let mut discovered: Option<String> = None;
    match map_get(m, "chat.host") {
        Some(v) => {
            discovered = value_as_str(v);
        },
        None => {},
    }
    if map_contains(m, "chat.host") {
        let hv = value_from_str("127.0.0.1");
        map_insert(m, "chat.host", hv);
    }
    proof {
        assert(discovered_ok(om, discovered));
    }
    if map_contains(m, "chat.port") {
        let pv = value_from_u16(chat_port);
        map_insert(m, "chat.port", pv);
    }
    let ghost m_after_port = obj_spec(*m);
    let mut aff_found: Option<serde_json::Map<String, serde_json::Value>> = None;
    match map_get(m, "chat.affinities") {
        Some(v) => {
            aff_found = value_to_object(v);
        },
        None => {},
    }
    match aff_found {
        Some(am) => {
            let ghost am_spec = obj_spec(am);
            let keys = map_keys(&am);
            let mut am2 = map_new();
            let mut i: usize = 0;
            while i < keys.len()
                invariant
                    0 <= i <= keys@.len(),
                    forall|j: int|
                        0 <= j < keys@.len() ==> am_spec.dom().contains(#[trigger] keys@[j]@),
                    forall|k: Seq<char>|
                        am_spec.dom().contains(k) ==> exists|j: int|
                            0 <= j < keys@.len() && #[trigger] keys@[j]@ == k,
                    forall|k: Seq<char>|
                        obj_spec(am2).dom().contains(k) <==> exists|j: int|
                            0 <= j < i && #[trigger] keys@[j]@ == k,
                    forall|k: Seq<char>|
                        obj_spec(am2).dom().contains(k) ==> #[trigger] str_spec(obj_spec(am2)[k])
                            == Some(local_ip()),
                decreases keys@.len() - i,
            {
                let lv = value_from_str("127.0.0.1");
                map_insert(&mut am2, keys[i].as_str(), lv);
                i = i + 1;
            }
            proof {
                lemma_chat_keys_distinct();
                assert(obj_spec(am2).dom() =~= am_spec.dom());
            }
            let av = object_to_value(am2);
            map_insert(m, "chat.affinities", av);
        },
        None => {},
    }
    let bv = value_from_bool(true);
    map_insert(m, "chat.allow_bad_cert.enabled", bv);
    proof {
        lemma_chat_keys_distinct();
        assert(obj_spec(*m).dom() =~= om.dom().insert("chat.allow_bad_cert.enabled"@));
    }
    discovered
}

/// Patch a config body when it is JSON whose top-level object carries chat
/// configuration; `None` otherwise, and the caller passes the body through.
/// The second result is the real chat host discovered in the body.
pub fn patch_config(body: &str, chat_port: u16) -> (r: Option<(String, Option<String>)>)
    ensures
        match obj_of_text(body@) {
            None => r is None,
            Some(om) => {
                if has_chat_key(om) {
                    match r {
                        Some(pr) => discovered_ok(om, pr.1) && exists|
                            m2: serde_json::Map<String, serde_json::Value>,
                        |
                            pr.0@ == json_text(m2) && #[trigger] patched_rel(
                                om,
                                obj_spec(m2),
                                chat_port,
                            ),
                        None => false,
                    }
                } else {
                    r is None
                }
            },
        },
{
    match parse_object(body) {
        None => None,
        Some(mut m) => {
            let has_chat = map_contains(&m, "chat.host") || map_contains(&m, "chat.port")
                || map_contains(&m, "chat.affinities");
            if !has_chat {
                return None;
            }
            let discovered = patch_object(&mut m, chat_port);
            let out = serialize_object(&m);
            proof {
                assert(patched_rel(obj_of_text(body@).unwrap(), obj_spec(m), chat_port));
            }
            Some((out, discovered))
        },
    }
}

/// The body and discovered host the config proxy answers with: a JSON body
/// whose object carries chat keys is patched, anything else passes through
/// byte for byte with nothing discovered.
pub fn process_upstream_body(body: String, content_type: &str, chat_port: u16) -> (r: (
    String,
    Option<String>,
))
    ensures
        !contains_seq(content_type@, "json"@) ==> r.0@ == body@ && r.1 is None,
        contains_seq(content_type@, "json"@) ==> match obj_of_text(body@) {
            None => r.0@ == body@ && r.1 is None,
            Some(om) => {
                if has_chat_key(om) {
                    discovered_ok(om, r.1) && exists|
                        m2: serde_json::Map<String, serde_json::Value>,
                    | r.0@ == json_text(m2) && #[trigger] patched_rel(om, obj_spec(m2), chat_port)
                } else {
                    r.0@ == body@ && r.1 is None
                }
            },
        },
{
    if !contains_sub(content_type, "json") {
        return (body, None);
    }
    match patch_config(body.as_str(), chat_port) {
        Some(pr) => (pr.0, pr.1),
        None => (body, None),
    }
}

} // verus!
