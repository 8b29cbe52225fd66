//! Outbound presence rewriting. In `Offline` mode a presence stanza is
//! replaced by the minimal unavailable broadcast: the opening tag keeps its
//! attributes except `type`, gains `type="unavailable"`, and any body content
//! is discarded so rich-presence details cannot leak. Everything else passes
//! through verbatim.

use vstd::prelude::*;

use crate::state::StealthMode;
use crate::text::contains_seq;
use crate::text::contains_sub;
use crate::text::find_sub;
use crate::text::first_match;
use crate::text::has_prefix;
use crate::text::has_suffix;
use crate::text::is_ws_char;
use crate::text::lemma_first_match;
use crate::text::lemma_ws_prefix_len;
use crate::text::lemma_ws_prefix_len_is;
use crate::text::match_at;
use crate::text::ws_count;
use crate::text::ws_prefix_len;

verus! {

/// Length of the longest all-whitespace suffix of `s`.
pub open spec fn ws_suffix_len(s: Seq<char>) -> int
    decreases s.len(),
{
    if s.len() == 0 || !is_ws_char(s.last()) {
        0
    } else {
        1 + ws_suffix_len(s.drop_last())
    }
}

pub proof fn lemma_ws_suffix_len(s: Seq<char>)
    ensures
        0 <= ws_suffix_len(s) <= s.len(),
        forall|k: int| s.len() - ws_suffix_len(s) <= k < s.len() ==> is_ws_char(s[k]),
        ws_suffix_len(s) < s.len() ==> !is_ws_char(s[s.len() - ws_suffix_len(s) - 1]),
    decreases s.len(),
{
    if s.len() == 0 || !is_ws_char(s.last()) {
    } else {
        lemma_ws_suffix_len(s.drop_last());
        assert forall|k: int| s.len() - ws_suffix_len(s) <= k < s.len() implies is_ws_char(
            s[k],
        ) by {
            if k < s.len() - 1 {
                assert(s.drop_last()[k] == s[k]);
            }
        }
        if ws_suffix_len(s) < s.len() {
            assert(s.drop_last()[s.len() - ws_suffix_len(s) - 1] == s[s.len() - ws_suffix_len(s)
                - 1]);
        }
    }
}

pub proof fn lemma_ws_suffix_len_is(s: Seq<char>, w: int)
    requires
        0 <= w <= s.len(),
        forall|k: int| s.len() - w <= k < s.len() ==> is_ws_char(s[k]),
        w < s.len() ==> !is_ws_char(s[s.len() - w - 1]),
    ensures
        ws_suffix_len(s) == w,
{
    lemma_ws_suffix_len(s);
    if ws_suffix_len(s) < w {
        assert(is_ws_char(s[s.len() - ws_suffix_len(s) - 1]));
    }
    if w < ws_suffix_len(s) {
        assert(is_ws_char(s[s.len() - w - 1]));
    }
}

/// `s` with leading and trailing whitespace removed.
pub open spec fn trim_spec(s: Seq<char>) -> Seq<char> {
    if ws_prefix_len(s) == s.len() {
        Seq::<char>::empty()
    } else {
        s.subrange(ws_prefix_len(s), s.len() - ws_suffix_len(s))
    }
}

/// On a not-all-whitespace string the two trims never overlap.
pub proof fn lemma_trim_bounds(s: Seq<char>)
    requires
        ws_prefix_len(s) < s.len(),
    ensures
        ws_prefix_len(s) + ws_suffix_len(s) < s.len(),
        trim_spec(s).len() > 0,
        trim_spec(s)[0] == s[ws_prefix_len(s)],
        !is_ws_char(trim_spec(s)[0]),
        !is_ws_char(trim_spec(s).last()),
{
    lemma_ws_prefix_len(s);
    lemma_ws_suffix_len(s);
    let w = ws_prefix_len(s);
    if w >= s.len() - ws_suffix_len(s) {
        assert(is_ws_char(s[w]));
    }
    assert(trim_spec(s).last() == s[s.len() - ws_suffix_len(s) - 1]);
}

/// `s` with leading and trailing whitespace removed, as a borrowed slice.
pub fn trim_str(s: &str) -> (r: &str)
    ensures
        r@ == trim_spec(s@),
{
    proof {
        lemma_ws_prefix_len(s@);
    }
    let n: usize = s.unicode_len();
    let w: usize = ws_count(s);
    if w == n {
        proof {
            reveal_strlit("");
            assert(""@ =~= Seq::<char>::empty());
        }
        return "";
    }
    proof {
        lemma_trim_bounds(s@);
    }
    let mut e: usize = n;
    while e > w
        invariant
            w <= e <= n,
            n == s@.len(),
            w == ws_prefix_len(s@),
            w < n,
            forall|k: int| e <= k < n ==> is_ws_char(s@[k]),
        decreases e,
    {
        let c = s.get_char(e - 1);
        if !(c == ' ' || c == '\t' || c == '\n' || c == '\r') {
            proof {
                lemma_ws_suffix_len_is(s@, n - e);
            }
            return s.substring_char(w, e);
        }
        e = e - 1;
    }
    proof {
        lemma_ws_prefix_len(s@);
        assert(is_ws_char(s@[w as int]));
        assert(false);
    }
    s
}

/// The opening characters of a presence stanza.
pub open spec fn presence_open() -> Seq<char> {
    seq!['<', 'p', 'r', 'e', 's', 'e', 'n', 'c', 'e']
}

/// The attribute text ` type="unavailable"` that the rewrite inserts.
pub open spec fn type_unavailable_attr() -> Seq<char> {
    seq![' ', 't', 'y', 'p', 'e', '=', '"', 'u', 'n', 'a', 'v', 'a', 'i', 'l', 'a', 'b', 'l', 'e', '"']
}

/// The pattern ` type="` that starts a double-quoted type attribute.
pub open spec fn type_pat_dq() -> Seq<char> {
    seq![' ', 't', 'y', 'p', 'e', '=', '"']
}

/// The pattern ` type='` that starts a single-quoted type attribute.
pub open spec fn type_pat_sq() -> Seq<char> {
    seq![' ', 't', 'y', 'p', 'e', '=', '\'']
}

/// The closing tag `</presence>`.
pub open spec fn close_presence() -> Seq<char> {
    seq!['<', '/', 'p', 'r', 'e', 's', 'e', 'n', 'c', 'e', '>']
}

/// Remove the first `qc`-quoted `type` attribute that starts with `pat`;
/// `None` when the pattern or its closing quote is absent.
pub open spec fn remove_with(tag: Seq<char>, pat: Seq<char>, qc: char) -> Option<Seq<char>> {
    match first_match(tag, pat) {
        Some(st) => {
            let vs = st + pat.len();
            match first_match(tag.subrange(vs as int, tag.len() as int), seq![qc]) {
                Some(e) => Some(tag.subrange(0, st) + tag.subrange(vs + e + 1, tag.len() as int)),
                None => None,
            }
        },
        None => None,
    }
}

/// Remove a `type="…"` or `type='…'` attribute from a tag, double-quoted
/// form first, leaving every other attribute in place.
pub open spec fn remove_type_attr(tag: Seq<char>) -> Seq<char> {
    match remove_with(tag, type_pat_dq(), '"') {
        Some(r) => r,
        None => match remove_with(tag, type_pat_sq(), '\'') {
            Some(r) => r,
            None => tag,
        },
    }
}

/// Length of the longest all-`/` suffix of `s`.
pub open spec fn slash_suffix_len(s: Seq<char>) -> int
    decreases s.len(),
{
    if s.len() == 0 || s.last() != '/' {
        0
    } else {
        1 + slash_suffix_len(s.drop_last())
    }
}

pub proof fn lemma_slash_suffix_len(s: Seq<char>)
    ensures
        0 <= slash_suffix_len(s) <= s.len(),
        forall|k: int| s.len() - slash_suffix_len(s) <= k < s.len() ==> s[k] == '/',
        slash_suffix_len(s) < s.len() ==> s[s.len() - slash_suffix_len(s) - 1] != '/',
    decreases s.len(),
{
    if s.len() == 0 || s.last() != '/' {
    } else {
        lemma_slash_suffix_len(s.drop_last());
        assert forall|k: int| s.len() - slash_suffix_len(s) <= k < s.len() implies s[k] == '/' by {
            if k < s.len() - 1 {
                assert(s.drop_last()[k] == s[k]);
            }
        }
        if slash_suffix_len(s) < s.len() {
            assert(s.drop_last()[s.len() - slash_suffix_len(s) - 1] == s[s.len()
                - slash_suffix_len(s) - 1]);
        }
    }
}

pub proof fn lemma_slash_suffix_len_is(s: Seq<char>, w: int)
    requires
        0 <= w <= s.len(),
        forall|k: int| s.len() - w <= k < s.len() ==> s[k] == '/',
        w < s.len() ==> s[s.len() - w - 1] != '/',
    ensures
        slash_suffix_len(s) == w,
{
    lemma_slash_suffix_len(s);
    if slash_suffix_len(s) < w {
        assert(s[s.len() - slash_suffix_len(s) - 1] == '/');
    }
    if w < slash_suffix_len(s) {
        assert(s[s.len() - w - 1] == '/');
    }
}

/// `s` with every trailing `/` removed.
pub open spec fn trim_end_slashes(s: Seq<char>) -> Seq<char> {
    s.take(s.len() - slash_suffix_len(s))
}

/// The opening tag of `t`: everything before its first `>`, or all of `t`.
pub open spec fn opening_of(t: Seq<char>) -> Seq<char> {
    match first_match(t, seq!['>']) {
        Some(p) => t.take(p),
        None => t,
    }
}

/// Result of rewriting a self-closing presence: `type` replaced by
/// `type="unavailable"` right after the tag name.
pub open spec fn offline_self_closing(t: Seq<char>) -> Seq<char> {
    presence_open() + type_unavailable_attr() + remove_type_attr(t).skip(9)
}

/// Result of rewriting a full presence element: its opening tag without
/// `type`, closed as `type="unavailable"/>`; the body is dropped.
pub open spec fn offline_full(t: Seq<char>) -> Seq<char> {
    trim_end_slashes(remove_type_attr(opening_of(t))) + type_unavailable_attr() + seq!['/', '>']
}

/// What the filter forwards for stanza `s` under `mode`.
pub open spec fn filter_spec(s: Seq<char>, mode: StealthMode) -> Seq<char> {
    if mode == StealthMode::Online {
        s
    } else {
        let t = trim_spec(s);
        if !match_at(t, presence_open(), 0) {
            s
        } else if t.len() >= 2 && match_at(t, seq!['/', '>'], t.len() - 2) {
            offline_self_closing(t)
        } else if contains_seq(t, close_presence()) {
            offline_full(t)
        } else {
            s
        }
    }
}

/// Remove the first `type="…"` or `type='…'` attribute from a tag string.
fn remove_type_attribute(tag: &str) -> (r: String)
    ensures
        r@ == remove_type_attr(tag@),
{
    proof {
        reveal_strlit(" type=\"");
        reveal_strlit(" type='");
        reveal_strlit("\"");
        reveal_strlit("'");
        assert(" type=\""@ =~= type_pat_dq());
        assert(" type='"@ =~= type_pat_sq());
        assert("\""@ =~= seq!['"']);
        assert("'"@ =~= seq!['\'']);
    }
    let n: usize = tag.unicode_len();
    match find_sub(tag, " type=\"") {
        Some(st) => {
            proof {
                lemma_first_match(tag@, type_pat_dq());
            }
            let vs: usize = st + 7;
            let remainder: &str = tag.substring_char(vs, n);
            match find_sub(remainder, "\"") {
                Some(e) => {
                    proof {
                        lemma_first_match(remainder@, seq!['"']);
                    }
                    let mut r: String = String::from_str(tag.substring_char(0, st));
                    r.append(tag.substring_char(vs + e + 1, n));
                    return r;
                },
                None => {},
            }
        },
        None => {},
    }
    match find_sub(tag, " type='") {
        Some(st) => {
            proof {
                lemma_first_match(tag@, type_pat_sq());
            }
            let vs: usize = st + 7;
            let remainder: &str = tag.substring_char(vs, n);
            match find_sub(remainder, "'") {
                Some(e) => {
                    proof {
                        lemma_first_match(remainder@, seq!['\'']);
                    }
                    let mut r: String = String::from_str(tag.substring_char(0, st));
                    r.append(tag.substring_char(vs + e + 1, n));
                    return r;
                },
                None => {},
            }
        },
        None => {},
    }
    String::from_str(tag)
}

/// Rewrite a trimmed self-closing presence `t` to carry `type="unavailable"`.
fn make_unavailable_self_closing(t: &str) -> (r: String)
    requires
        match_at(t@, presence_open(), 0),
    ensures
        r@ == offline_self_closing(t@),
{
    let without = remove_type_attribute(t);
    proof {
        lemma_remove_type_attr_keeps_prefix(t@);
        reveal_strlit("<presence type=\"unavailable\"");
        assert("<presence type=\"unavailable\""@ =~= presence_open() + type_unavailable_attr());
    }
    let wn: usize = without.as_str().unicode_len();
    let mut r: String = String::from_str("<presence type=\"unavailable\"");
    r.append(without.as_str().substring_char(9, wn));
    proof {
        assert(r@ =~= offline_self_closing(t@));
    }
    r
}

/// Rewrite a trimmed full presence element `t`: keep its opening tag minus
/// `type`, close it as `type="unavailable"/>`.
fn make_unavailable(t: &str) -> (r: String)
    requires
        match_at(t@, presence_open(), 0),
    ensures
        r@ == offline_full(t@),
{
    proof {
        reveal_strlit(">");
        assert(">"@ =~= seq!['>']);
    }
    let n: usize = t.unicode_len();
    let tag_end: usize = match find_sub(t, ">") {
        Some(p) => {
            proof {
                lemma_first_match(t@, seq!['>']);
            }
            p
        },
        None => n,
    };
    let opening: &str = t.substring_char(0, tag_end);
    proof {
        assert(opening@ =~= opening_of(t@));
    }
    let without = remove_type_attribute(opening);
    let e: usize = slash_trim_len(without.as_str());
    proof {
        lemma_slash_suffix_len(without@);
        reveal_strlit(" type=\"unavailable\"/>");
        assert(" type=\"unavailable\"/>"@ =~= type_unavailable_attr() + seq!['/', '>']);
    }
    let mut r: String = String::from_str(without.as_str().substring_char(0, e));
    r.append(" type=\"unavailable\"/>");
    proof {
        assert(r@ =~= offline_full(t@));
    }
    r
}

/// Length of `s` once every trailing `/` is removed.
fn slash_trim_len(s: &str) -> (e: usize)
    ensures
        e == s@.len() - slash_suffix_len(s@),
{
    let n: usize = s.unicode_len();
    let mut e: usize = n;
    while e > 0
        invariant
            0 <= e <= n,
            n == s@.len(),
            forall|k: int| e <= k < n ==> s@[k] == '/',
        decreases e,
    {
        let c = s.get_char(e - 1);
        if c != '/' {
            proof {
                lemma_slash_suffix_len_is(s@, n - e);
            }
            return e;
        }
        e = e - 1;
    }
    proof {
        lemma_slash_suffix_len_is(s@, n as int);
    }
    0
}

/// No character of `<presence` is a space, so a ` type=` pattern can only
/// occur at index nine or later.
proof fn lemma_presence_open_no_space(tag: Seq<char>, st: int)
    requires
        match_at(tag, presence_open(), 0),
        0 <= st,
        tag[st] == ' ',
    ensures
        st >= 9,
{
    if st < 9 {
        crate::text::lemma_match_char(tag, presence_open(), 0, st);
        assert(presence_open()[st] != ' ') by {
            assert(presence_open()[0] == '<');
            assert(presence_open()[1] == 'p');
            assert(presence_open()[2] == 'r');
            assert(presence_open()[3] == 'e');
            assert(presence_open()[4] == 's');
            assert(presence_open()[5] == 'e');
            assert(presence_open()[6] == 'n');
            assert(presence_open()[7] == 'c');
            assert(presence_open()[8] == 'e');
        }
    }
}

/// Removing the type attribute never touches the first nine characters of a
/// tag that starts with `<presence`.
pub proof fn lemma_remove_type_attr_keeps_prefix(tag: Seq<char>)
    requires
        match_at(tag, presence_open(), 0),
    ensures
        remove_type_attr(tag).len() >= 9,
        remove_type_attr(tag).subrange(0, 9) == tag.subrange(0, 9),
{
    lemma_first_match(tag, type_pat_dq());
    lemma_first_match(tag, type_pat_sq());
    match first_match(tag, type_pat_dq()) {
        Some(st) => {
            crate::text::lemma_match_char(tag, type_pat_dq(), st, 0);
            if st < 9 {
                lemma_presence_open_no_space(tag, st);
            }
            assert(st >= 9);
            match first_match(
                tag.subrange(st + 7, tag.len() as int),
                seq!['"'],
            ) {
                Some(e) => {
                    let r = tag.subrange(0, st) + tag.subrange(st + 7 + e + 1, tag.len() as int);
                    assert(r.subrange(0, 9) =~= tag.subrange(0, 9));
                },
                None => {
                    lemma_remove_sq_keeps_prefix(tag);
                },
            }
        },
        None => {
            lemma_remove_sq_keeps_prefix(tag);
        },
    }
}

proof fn lemma_remove_sq_keeps_prefix(tag: Seq<char>)
    requires
        match_at(tag, presence_open(), 0),
        remove_with(tag, type_pat_dq(), '"') is None,
    ensures
        remove_type_attr(tag).len() >= 9,
        remove_type_attr(tag).subrange(0, 9) == tag.subrange(0, 9),
{
    lemma_first_match(tag, type_pat_sq());
    match first_match(tag, type_pat_sq()) {
        Some(st) => {
            crate::text::lemma_match_char(tag, type_pat_sq(), st, 0);
            if st < 9 {
                lemma_presence_open_no_space(tag, st);
            }
            assert(st >= 9);
            match first_match(
                tag.subrange(st + 7, tag.len() as int),
                seq!['\''],
            ) {
                Some(e) => {
                    let r = tag.subrange(0, st) + tag.subrange(st + 7 + e + 1, tag.len() as int);
                    assert(r.subrange(0, 9) =~= tag.subrange(0, 9));
                },
                None => {
                    assert(remove_type_attr(tag) == tag);
                },
            }
        },
        None => {
            assert(remove_type_attr(tag) == tag);
        },
    }
}

/// Filter one outgoing stanza: in `Online` mode, and for anything that is not
/// a presence stanza, the stanza passes through unchanged; in `Offline` mode
/// a presence stanza is rewritten to a bodyless `type="unavailable"` form.
pub fn filter_outgoing(stanza: &str, mode: &StealthMode) -> (r: String)
    ensures
        r@ == filter_spec(stanza@, *mode),
{
    if *mode == StealthMode::Online {
        return String::from_str(stanza);
    }
    let t: &str = trim_str(stanza);
    proof {
        reveal_strlit("<presence");
        reveal_strlit("/>");
        reveal_strlit("</presence>");
        assert("<presence"@ =~= presence_open());
        assert("/>"@ =~= seq!['/', '>']);
        assert("</presence>"@ =~= close_presence());
    }
    if !has_prefix(t, "<presence") {
        return String::from_str(stanza);
    }
    if has_suffix(t, "/>") {
        return make_unavailable_self_closing(t);
    }
    if contains_sub(t, "</presence>") {
        return make_unavailable(t);
    }
    String::from_str(stanza)
}

/// In `Online` mode every stanza passes through unchanged.
pub proof fn lemma_filter_online(s: Seq<char>)
    ensures
        filter_spec(s, StealthMode::Online) == s,
{
}

/// A stanza that is not a presence stanza passes through unchanged in every
/// mode.
pub proof fn lemma_filter_non_presence(s: Seq<char>, mode: StealthMode)
    requires
        !match_at(trim_spec(s), presence_open(), 0),
    ensures
        filter_spec(s, mode) == s,
{
}

} // verus!
