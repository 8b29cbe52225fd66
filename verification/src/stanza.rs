//! Streaming stanza framer: finds the end of the first complete top-level XML
//! construct in a growing text buffer, without parsing beyond tag names and
//! quoted attribute values.
//!
//! Recognized constructs: a `<?...?>` processing instruction, a lone closing
//! tag, leading non-markup text, a self-closing element (with quote-aware
//! detection so a self-closing child never truncates its parent), the
//! never-closed stream root, and an open element with its matching close tag.

use vstd::prelude::*;

use crate::text::contains_seq;
use crate::text::find_sub;
use crate::text::first_match;
use crate::text::has_prefix;
use crate::text::is_ws_char;
use crate::text::lemma_first_match;
use crate::text::lemma_ws_prefix_len;
use crate::text::lemma_ws_prefix_len_is;
use crate::text::match_at;
use crate::text::str_eq;
use crate::text::ws_count;
use crate::text::ws_prefix_len;

verus! {

/// Characters that end an element name inside its opening tag.
pub open spec fn is_name_end_char(c: char) -> bool {
    is_ws_char(c) || c == '>' || c == '/'
}

/// Length of the longest prefix of `s` free of name-ending characters.
pub open spec fn name_prefix_len(s: Seq<char>) -> int
    decreases s.len(),
{
    if s.len() == 0 || is_name_end_char(s[0]) {
        0
    } else {
        1 + name_prefix_len(s.drop_first())
    }
}

pub proof fn lemma_name_prefix_len(s: Seq<char>)
    ensures
        0 <= name_prefix_len(s) <= s.len(),
        forall|k: int| 0 <= k < name_prefix_len(s) ==> !is_name_end_char(s[k]),
        name_prefix_len(s) < s.len() ==> is_name_end_char(s[name_prefix_len(s)]),
    decreases s.len(),
{
    if s.len() == 0 || is_name_end_char(s[0]) {
    } else {
        lemma_name_prefix_len(s.drop_first());
        assert forall|k: int| 0 <= k < name_prefix_len(s) implies !is_name_end_char(s[k]) by {
            if k > 0 {
                assert(s.drop_first()[k - 1] == s[k]);
            }
        }
        if name_prefix_len(s) < s.len() {
            assert(s.drop_first()[name_prefix_len(s) - 1] == s[name_prefix_len(s)]);
        }
    }
}

pub proof fn lemma_name_prefix_len_is(s: Seq<char>, e: int)
    requires
        0 <= e <= s.len(),
        forall|k: int| 0 <= k < e ==> !is_name_end_char(s[k]),
        e < s.len() ==> is_name_end_char(s[e]),
    ensures
        name_prefix_len(s) == e,
{
    lemma_name_prefix_len(s);
    if name_prefix_len(s) < e {
        assert(!is_name_end_char(s[name_prefix_len(s)]));
    }
    if e < name_prefix_len(s) {
        assert(!is_name_end_char(s[e]));
    }
}

/// The element name of an opening tag `t` (which starts with `<`), if its
/// end can already be seen in the buffer.
pub open spec fn tag_name_spec(t: Seq<char>) -> Option<Seq<char>> {
    let rest = t.drop_first();
    let e = name_prefix_len(rest);
    if e == rest.len() || e == 0 {
        None
    } else {
        Some(rest.subrange(0, e))
    }
}

/// Quote-aware scan for the `/>` that closes the root element itself.
/// Returns the index just past `/>`, or `None` when a bare `>` closes the
/// opening tag first (the element has body content) or the buffer ends.
pub open spec fn self_close_scan(s: Seq<char>, i: int, in_q: bool, qc: char) -> Option<int>
    decreases s.len() - i,
        when 0 <= i <= s.len()
{
    if i < 0 || i >= s.len() {
        None
    } else {
        let c = s[i];
        if in_q {
            if c == qc {
                self_close_scan(s, i + 1, false, qc)
            } else {
                self_close_scan(s, i + 1, true, qc)
            }
        } else if c == '"' || c == '\'' {
            self_close_scan(s, i + 1, true, c)
        } else if c == '/' && i + 1 < s.len() && s[i + 1] == '>' {
            Some(i + 2)
        } else if c == '>' {
            None
        } else {
            self_close_scan(s, i + 1, false, qc)
        }
    }
}

pub proof fn lemma_self_close_scan_bounds(s: Seq<char>, i: int, in_q: bool, qc: char)
    requires
        0 <= i <= s.len(),
    ensures
        match self_close_scan(s, i, in_q, qc) {
            Some(p) => i + 2 <= p <= s.len(),
            None => true,
        },
    decreases s.len() - i,
{
    if i < s.len() {
        let c = s[i];
        if in_q {
            lemma_self_close_scan_bounds(s, i + 1, false, qc);
            lemma_self_close_scan_bounds(s, i + 1, true, qc);
        } else if c == '"' || c == '\'' {
            lemma_self_close_scan_bounds(s, i + 1, true, c);
        } else {
            lemma_self_close_scan_bounds(s, i + 1, false, qc);
        }
    }
}

/// The stream root's name, which the framer never waits for a close tag on.
pub open spec fn stream_root_name() -> Seq<char> {
    seq!['s', 't', 'r', 'e', 'a', 'm', ':', 's', 't', 'r', 'e', 'a', 'm']
}

/// The closing tag `</name>` for an element name.
pub open spec fn close_tag_of(name: Seq<char>) -> Seq<char> {
    seq!['<', '/'] + name + seq!['>']
}

/// End index of the first complete top-level construct of `s`, or `None`
/// when the buffer ends mid-construct.
pub open spec fn stanza_end_spec(s: Seq<char>) -> Option<int> {
    let w = ws_prefix_len(s);
    let t = s.subrange(w, s.len() as int);
    if t.len() == 0 {
        None
    } else if match_at(t, seq!['<', '?'], 0) {
        match first_match(t, seq!['?', '>']) {
            Some(p) => Some(w + p + 2),
            None => None,
        }
    } else if match_at(t, seq!['<', '/'], 0) {
        match first_match(t, seq!['>']) {
            Some(p) => Some(w + p + 1),
            None => None,
        }
    } else if t[0] != '<' {
        match first_match(t, seq!['<']) {
            Some(p) => Some(w + p),
            None => Some(w + t.len()),
        }
    } else {
        match self_close_scan(t, 0, false, ' ') {
            Some(p) => Some(w + p),
            None => match tag_name_spec(t) {
                None => None,
                Some(name) => if name == stream_root_name() {
                    match first_match(t, seq!['>']) {
                        Some(p) => Some(w + p + 1),
                        None => None,
                    }
                } else {
                    match first_match(t, close_tag_of(name)) {
                        Some(p) => Some(w + p + name.len() + 3),
                        None => None,
                    }
                },
            },
        }
    }
}

/// A complete construct always ends at a positive index within the buffer.
pub proof fn lemma_stanza_end_bounds(s: Seq<char>)
    ensures
        match stanza_end_spec(s) {
            Some(n) => 0 < n <= s.len(),
            None => true,
        },
{
    lemma_ws_prefix_len(s);
    let w = ws_prefix_len(s);
    let t = s.subrange(w, s.len() as int);
    if t.len() == 0 {
    } else if match_at(t, seq!['<', '?'], 0) {
        lemma_first_match(t, seq!['?', '>']);
    } else if match_at(t, seq!['<', '/'], 0) {
        lemma_first_match(t, seq!['>']);
    } else if t[0] != '<' {
        lemma_first_match(t, seq!['<']);
        match first_match(t, seq!['<']) {
            Some(p) => {
                if p == 0 {
                    assert(t.subrange(0, 1)[0] == t[0]);
                }
            },
            None => {},
        }
    } else {
        lemma_self_close_scan_bounds(t, 0, false, ' ');
        match tag_name_spec(t) {
            None => {},
            Some(name) => {
                lemma_name_prefix_len(t.drop_first());
                if name == stream_root_name() {
                    lemma_first_match(t, seq!['>']);
                } else {
                    lemma_first_match(t, close_tag_of(name));
                }
            },
        }
    }
}

/// A `<?...?>` processing instruction whose first `?>` ends the buffer.
pub open spec fn complete_pi(t: Seq<char>) -> bool {
    match_at(t, seq!['<', '?'], 0) && first_match(t, seq!['?', '>']) == Some(t.len() - 2)
}

/// A lone closing tag whose first `>` ends the buffer.
pub open spec fn complete_close_tag(t: Seq<char>) -> bool {
    match_at(t, seq!['<', '/'], 0) && first_match(t, seq!['>']) == Some(t.len() - 1)
}

/// A self-closing element whose root-level `/>` ends the buffer.
pub open spec fn complete_self_closing(t: Seq<char>) -> bool {
    &&& t.len() > 0
    &&& t[0] == '<'
    &&& !match_at(t, seq!['<', '?'], 0)
    &&& !match_at(t, seq!['<', '/'], 0)
    &&& self_close_scan(t, 0, false, ' ') == Some(t.len() as int)
}

/// A stream root opening whose first `>` ends the buffer.
pub open spec fn complete_stream_open(t: Seq<char>) -> bool {
    &&& t.len() > 0
    &&& t[0] == '<'
    &&& !match_at(t, seq!['<', '?'], 0)
    &&& !match_at(t, seq!['<', '/'], 0)
    &&& self_close_scan(t, 0, false, ' ') is None
    &&& tag_name_spec(t) == Some(stream_root_name())
    &&& first_match(t, seq!['>']) == Some(t.len() - 1)
}

/// An open element whose first matching close tag ends the buffer.
pub open spec fn complete_element(t: Seq<char>) -> bool {
    &&& t.len() > 0
    &&& t[0] == '<'
    &&& !match_at(t, seq!['<', '?'], 0)
    &&& !match_at(t, seq!['<', '/'], 0)
    &&& self_close_scan(t, 0, false, ' ') is None
    &&& match tag_name_spec(t) {
        Some(name) => name != stream_root_name() && first_match(t, close_tag_of(name)) == Some(
            t.len() - name.len() - 3,
        ),
        None => false,
    }
}

/// A buffer that begins with `<` and ends exactly where its construct's
/// terminator — matching close tag, `/>`, `?>` or the opening `>` — first
/// appears.
pub open spec fn complete_construct(t: Seq<char>) -> bool {
    &&& t.len() > 0
    &&& t[0] == '<'
    &&& (complete_pi(t) || complete_close_tag(t) || complete_self_closing(t)
        || complete_stream_open(t) || complete_element(t))
}

/// On a whole construct the framer answers the construct's full length:
/// feeding it one complete stanza consumes exactly that stanza.
pub proof fn lemma_framer_complete(s: Seq<char>)
    requires
        complete_construct(s),
    ensures
        stanza_end_spec(s) == Some(s.len() as int),
{
    lemma_ws_prefix_len_is(s, 0);
    let t = s.subrange(0, s.len() as int);
    assert(t =~= s);
    if complete_pi(s) {
    } else if complete_close_tag(s) {
        if match_at(s, seq!['<', '?'], 0) {
            crate::text::lemma_match_char(s, seq!['<', '?'], 0, 1);
            crate::text::lemma_match_char(s, seq!['<', '/'], 0, 1);
        }
    } else if complete_self_closing(s) {
    } else if complete_stream_open(s) {
    } else {
        assert(complete_element(s));
        let name = tag_name_spec(s).unwrap();
        lemma_first_match(s, close_tag_of(name));
    }
}

/// The self-close scan of a prefix follows the scan of the whole buffer:
/// it finds the same `/>` when the prefix reaches it, and nothing otherwise.
proof fn lemma_scan_take(s: Seq<char>, i: int, in_q: bool, qc: char, k: int)
    requires
        0 <= i <= k <= s.len(),
    ensures
        match self_close_scan(s, i, in_q, qc) {
            Some(p) => self_close_scan(s.take(k), i, in_q, qc) == if p <= k {
                Some(p)
            } else {
                None::<int>
            },
            None => self_close_scan(s.take(k), i, in_q, qc) is None,
        },
    decreases s.len() - i,
{
    if i >= k {
        if i < s.len() {
            lemma_self_close_scan_bounds(s, i, in_q, qc);
        }
    } else {
        assert(s.take(k)[i] == s[i]);
        let c = s[i];
        if in_q {
            if c == qc {
                lemma_scan_take(s, i + 1, false, qc, k);
            } else {
                lemma_scan_take(s, i + 1, true, qc, k);
            }
        } else if c == '"' || c == '\'' {
            lemma_scan_take(s, i + 1, true, c, k);
        } else if c == '/' && i + 1 < s.len() && s[i + 1] == '>' {
            if i + 1 < k {
                assert(s.take(k)[i + 1] == s[i + 1]);
            } else {
                lemma_scan_take(s, i + 1, in_q, qc, k);
                assert(self_close_scan(s.take(k), i, in_q, qc) is None);
            }
        } else if c == '>' {
        } else {
            lemma_scan_take(s, i + 1, false, qc, k);
            if c == '/' {
                if i + 1 < k {
                    assert(s.take(k)[i + 1] == s[i + 1]);
                }
            }
        }
    }
}

/// The tag name seen in a prefix: none while the buffer still ends inside
/// the name, the whole buffer's name afterwards.
proof fn lemma_tag_name_take(s: Seq<char>, i: int)
    requires
        2 <= i <= s.len(),
        s.len() >= 1,
    ensures
        ({
            let e = name_prefix_len(s.drop_first());
            if i - 1 <= e {
                tag_name_spec(s.take(i)) is None
            } else {
                tag_name_spec(s.take(i)) == tag_name_spec(s)
            }
        }),
{
    let r = s.drop_first();
    let ra = s.take(i).drop_first();
    assert(ra =~= r.take(i - 1));
    let e = name_prefix_len(r);
    lemma_name_prefix_len(r);
    if i - 1 <= e {
        assert forall|k: int| 0 <= k < i - 1 implies !is_name_end_char(ra[k]) by {
            assert(ra[k] == r[k]);
        }
        lemma_name_prefix_len_is(ra, i - 1);
    } else {
        assert forall|k: int| 0 <= k < e implies !is_name_end_char(ra[k]) by {
            assert(ra[k] == r[k]);
        }
        assert(ra[e] == r[e]);
        lemma_name_prefix_len_is(ra, e);
        if 0 < e {
            assert(ra.subrange(0, e) =~= r.subrange(0, e));
        }
    }
}

/// Feeding the framer any strict prefix of a complete construct returns
/// `None`: the framer waits for the rest rather than emitting a partial
/// stanza. For a self-closing construct this holds when the construct's
/// only `>` is its final character (a `>` inside a quoted attribute value
/// could otherwise complete a fake close tag in the prefix).
pub proof fn lemma_framer_prefix(s: Seq<char>, i: int)
    requires
        complete_construct(s),
        complete_self_closing(s) ==> forall|k: int| 0 <= k < s.len() - 1 ==> s[k] != '>',
        0 <= i < s.len(),
    ensures
        stanza_end_spec(s.take(i)) is None,
{
    let a = s.take(i);
    if i == 0 {
        assert(ws_prefix_len(a) == 0);
        assert(a.subrange(0, 0).len() == 0);
        return ;
    }
    assert(a[0] == s[0]);
    lemma_ws_prefix_len_is(a, 0);
    let t = a.subrange(0, a.len() as int);
    assert(t =~= a);
    if i == 1 {
        assert(!match_at(a, seq!['<', '?'], 0));
        assert(!match_at(a, seq!['<', '/'], 0));
        assert(self_close_scan(a, 1, false, ' ') is None);
        assert(self_close_scan(a, 0, false, ' ') is None);
        assert(a.drop_first().len() == 0);
        assert(name_prefix_len(a.drop_first()) == 0);
        assert(tag_name_spec(a) is None);
        return ;
    }
    assert(a[1] == s[1]);
    if complete_pi(s) {
        crate::text::lemma_match_char(s, seq!['<', '?'], 0, 1);
        crate::text::lemma_match_at_intro(a, seq!['<', '?'], 0);
        crate::text::lemma_first_match_take_none(s, seq!['?', '>'], s.len() - 2, i);
    } else if complete_close_tag(s) {
        crate::text::lemma_match_char(s, seq!['<', '/'], 0, 1);
        if match_at(a, seq!['<', '?'], 0) {
            crate::text::lemma_match_char(a, seq!['<', '?'], 0, 1);
        }
        crate::text::lemma_match_at_intro(a, seq!['<', '/'], 0);
        crate::text::lemma_first_match_take_none(s, seq!['>'], s.len() - 1, i);
    } else {
        if match_at(a, seq!['<', '?'], 0) {
            crate::text::lemma_match_take(s, seq!['<', '?'], i, 0);
        }
        if match_at(a, seq!['<', '/'], 0) {
            crate::text::lemma_match_take(s, seq!['<', '/'], i, 0);
        }
        assert(!match_at(a, seq!['<', '?'], 0));
        assert(!match_at(a, seq!['<', '/'], 0));
        lemma_scan_take(s, 0, false, ' ', i);
        assert(self_close_scan(a, 0, false, ' ') is None);
        lemma_tag_name_take(s, i);
        let e = name_prefix_len(s.drop_first());
        if complete_self_closing(s) {
            if i - 1 > e {
                match tag_name_spec(s) {
                    Some(name) => {
                        if name == stream_root_name() {
                            assert forall|j: int| !match_at(a, seq!['>'], j) by {
                                if match_at(a, seq!['>'], j) {
                                    crate::text::lemma_match_char(a, seq!['>'], j, 0);
                                    assert(a[j] == s[j]);
                                }
                            }
                            crate::text::lemma_first_match_none(a, seq!['>']);
                        } else {
                            let ct = close_tag_of(name);
                            assert forall|j: int| !match_at(a, ct, j) by {
                                if match_at(a, ct, j) {
                                    crate::text::lemma_match_char(a, ct, j, ct.len() - 1);
                                    assert(ct[ct.len() - 1] == '>');
                                    assert(a[j + ct.len() - 1] == s[j + ct.len() - 1]);
                                }
                            }
                            crate::text::lemma_first_match_none(a, ct);
                        }
                    },
                    None => {
                        lemma_name_prefix_len(s.drop_first());
                        let ra = a.drop_first();
                        assert(ra =~= s.drop_first().take(i - 1));
                        if e == 0 && ra.len() > 0 {
                            assert(ra[0] == s.drop_first()[0]);
                            lemma_name_prefix_len_is(ra, 0);
                        } else {
                            assert(e == s.drop_first().len());
                            assert(false);
                        }
                    },
                }
            }
        } else if complete_stream_open(s) {
            if i - 1 > e {
                assert(tag_name_spec(a) == Some(stream_root_name()));
                crate::text::lemma_first_match_take_none(s, seq!['>'], s.len() - 1, i);
            }
        } else {
            assert(complete_element(s));
            let name = tag_name_spec(s).unwrap();
            if i - 1 > e {
                assert(tag_name_spec(a) == Some(name));
                let ct = close_tag_of(name);
                crate::text::lemma_first_match_take_none(s, ct, s.len() - ct.len(), i);
            }
        }
    }
}

/// Splitting a complete construct anywhere: the framer returns `None` on
/// the left part — it never cuts a stanza short — and once the right part
/// arrives and the buffer holds the whole construct, it returns its full
/// length. The self-closing proviso of `lemma_framer_prefix` applies.
pub proof fn lemma_framer_split(s: Seq<char>, i: int)
    requires
        complete_construct(s),
        complete_self_closing(s) ==> forall|k: int| 0 <= k < s.len() - 1 ==> s[k] != '>',
        0 <= i <= s.len(),
    ensures
        i < s.len() ==> stanza_end_spec(s.take(i)) is None,
        stanza_end_spec(s) == Some(s.len() as int),
{
    if i < s.len() {
        lemma_framer_prefix(s, i);
    }
    lemma_framer_complete(s);
}

/// Find the end of the first complete stanza in `buffer`, as a character
/// index just past the construct, or `None` when the construct is not yet
/// complete. Pure: the same buffer always gives the same answer.
pub fn find_stanza_end(buffer: &str) -> (r: Option<usize>)
    ensures
        match r {
            Some(n) => stanza_end_spec(buffer@) == Some(n as int) && 0 < n <= buffer@.len(),
            None => stanza_end_spec(buffer@) is None,
        },
{
    proof {
        lemma_stanza_end_bounds(buffer@);
        lemma_ws_prefix_len(buffer@);
    }
    let n: usize = buffer.unicode_len();
    let w: usize = ws_count(buffer);
    if w == n {
        proof {
            assert(buffer@.subrange(w as int, n as int).len() == 0);
        }
        return None;
    }
    let t: &str = buffer.substring_char(w, n);
    let tn: usize = n - w;
    proof {
        reveal_strlit("<?");
        reveal_strlit("?>");
        reveal_strlit("</");
        reveal_strlit(">");
        reveal_strlit("<");
        assert("<?"@ =~= seq!['<', '?']);
        assert("?>"@ =~= seq!['?', '>']);
        assert("</"@ =~= seq!['<', '/']);
        assert(">"@ =~= seq!['>']);
        assert("<"@ =~= seq!['<']);
    }
    if has_prefix(t, "<?") {
        return match find_sub(t, "?>") {
            Some(p) => Some(w + p + 2),
            None => None,
        };
    }
    if has_prefix(t, "</") {
        return match find_sub(t, ">") {
            Some(p) => Some(w + p + 1),
            None => None,
        };
    }
    if t.get_char(0) != '<' {
        return match find_sub(t, "<") {
            Some(p) => Some(w + p),
            None => Some(w + tn),
        };
    }
    match scan_self_close(t) {
        Some(p) => {
            return Some(w + p);
        },
        None => {},
    }
    let name_end: usize = tag_name_end(t);
    if name_end == tn || name_end == 1 {
        proof {
            assert(t@.drop_first().len() == tn - 1);
            assert(name_prefix_len(t@.drop_first()) == name_end - 1);
        }
        return None;
    }
    let name: &str = t.substring_char(1, name_end);
    proof {
        assert(name@ =~= t@.drop_first().subrange(0, name_end - 1));
        assert(tag_name_spec(t@) == Some(name@));
    }
    if str_eq(name, "stream:stream") {
        proof {
            reveal_strlit("stream:stream");
            assert("stream:stream"@ =~= stream_root_name());
        }
        return match find_sub(t, ">") {
            Some(p) => Some(w + p + 1),
            None => None,
        };
    }
    proof {
        reveal_strlit("stream:stream");
        assert("stream:stream"@ =~= stream_root_name());
    }
    let mut close: String = String::from_str("</");
    close.append(name);
    close.append(">");
    proof {
        assert(close@ =~= close_tag_of(name@));
    }
    match find_sub(t, close.as_str()) {
        Some(p) => {
            proof {
                lemma_first_match(t@, close_tag_of(name@));
            }
            Some(w + p + (name_end - 1) + 3)
        },
        None => None,
    }
}

/// Quote-aware search for a root-level `/>`; exec twin of `self_close_scan`.
fn scan_self_close(t: &str) -> (r: Option<usize>)
    ensures
        match r {
            Some(p) => self_close_scan(t@, 0, false, ' ') == Some(p as int) && 0 < p <= t@.len(),
            None => self_close_scan(t@, 0, false, ' ') is None,
        },
{
    let tn: usize = t.unicode_len();
    let mut i: usize = 0;
    let mut in_q: bool = false;
    let mut qc: char = ' ';
    while i < tn
        invariant
            0 <= i <= tn,
            tn == t@.len(),
            self_close_scan(t@, 0, false, ' ') == self_close_scan(t@, i as int, in_q, qc),
        decreases tn - i,
    {
        let c = t.get_char(i);
        if in_q {
            if c == qc {
                in_q = false;
            }
        } else if c == '"' || c == '\'' {
            in_q = true;
            qc = c;
        } else if c == '/' && i + 1 < tn && t.get_char(i + 1) == '>' {
            return Some(i + 2);
        } else if c == '>' {
            return None;
        }
        i = i + 1;
    }
    None
}

/// Index in `t` of the first character that ends the element name after `<`,
/// scanning from index 1; `t.len()` when no such character is present.
fn tag_name_end(t: &str) -> (r: usize)
    requires
        t@.len() >= 1,
    ensures
        1 <= r <= t@.len(),
        r - 1 == name_prefix_len(t@.drop_first()),
{
    let tn: usize = t.unicode_len();
    let mut i: usize = 1;
    while i < tn
        invariant
            1 <= i <= tn,
            tn == t@.len(),
            forall|k: int| 0 <= k < i - 1 ==> !is_name_end_char(t@.drop_first()[k]),
        decreases tn - i,
    {
        let c = t.get_char(i);
        if c == ' ' || c == '\t' || c == '\n' || c == '\r' || c == '>' || c == '/' {
            proof {
                assert(t@.drop_first()[i - 1] == t@[i as int]);
                lemma_name_prefix_len_is(t@.drop_first(), i - 1);
            }
            return i;
        }
        proof {
            assert(t@.drop_first()[i - 1] == t@[i as int]);
        }
        i = i + 1;
    }
    proof {
        lemma_name_prefix_len_is(t@.drop_first(), tn - 1);
    }
    tn
}

} // verus!
