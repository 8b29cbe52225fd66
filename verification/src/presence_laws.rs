//! Laws of the presence filter, stated over a model of well-formed presence
//! stanzas: a list of attributes, each a name, a quote character and a value.
//! On such stanzas the offline rewrite provably yields exactly one
//! `type="unavailable"` attribute, keeps every other attribute, and is a
//! fixed point of itself.

use vstd::prelude::*;

use crate::presence::close_presence;
use crate::presence::filter_spec;
use crate::presence::offline_full;
use crate::presence::offline_self_closing;
use crate::presence::opening_of;
use crate::presence::presence_open;
use crate::presence::remove_type_attr;
use crate::presence::remove_with;
use crate::presence::slash_suffix_len;
use crate::presence::trim_spec;
use crate::presence::type_pat_dq;
use crate::presence::type_pat_sq;
use crate::presence::type_unavailable_attr;
use crate::state::StealthMode;
use crate::text::contains_seq;
use crate::text::first_match;
use crate::text::is_ws_char;
use crate::text::lemma_first_match;
use crate::text::lemma_first_match_is;
use crate::text::lemma_first_match_none;
use crate::text::lemma_match_at_intro;
use crate::text::lemma_match_char;
use crate::text::lemma_match_concat_cases;
use crate::text::lemma_match_concat_left;
use crate::text::lemma_match_concat_right;
use crate::text::match_at;
use crate::text::no_match;

verus! {

/// One attribute of an opening tag: rendered as ` name=qvalueq`.
pub struct Attr {
    pub name: Seq<char>,
    pub quote: char,
    pub value: Seq<char>,
}

/// A well-formed attribute: a nonempty name free of structural characters,
/// one of the two XML quote characters, and a value free of whitespace,
/// quotes and angle brackets.
pub open spec fn wf_attr(a: Attr) -> bool {
    &&& a.name.len() > 0
    &&& (a.quote == '"' || a.quote == '\'')
    &&& forall|k: int|
        0 <= k < a.name.len() ==> !is_ws_char(a.name[k]) && a.name[k] != '"' && a.name[k] != '\''
            && a.name[k] != '<' && a.name[k] != '>' && a.name[k] != '=' && a.name[k] != '/'
    &&& forall|k: int|
        0 <= k < a.value.len() ==> !is_ws_char(a.value[k]) && a.value[k] != '"' && a.value[k]
            != '\'' && a.value[k] != '<' && a.value[k] != '>'
}

/// The attribute named `type`.
pub open spec fn is_type_attr(a: Attr) -> bool {
    a.name == seq!['t', 'y', 'p', 'e']
}

/// A list of well-formed attributes with at most one `type` attribute.
pub open spec fn wf_attrs(attrs: Seq<Attr>) -> bool {
    &&& forall|i: int| 0 <= i < attrs.len() ==> wf_attr(#[trigger] attrs[i])
    &&& forall|i: int, j: int|
        0 <= i < attrs.len() && 0 <= j < attrs.len() && is_type_attr(#[trigger] attrs[i])
            && is_type_attr(#[trigger] attrs[j]) ==> i == j
}

/// Rendering of one attribute, leading space included.
pub open spec fn render_attr(a: Attr) -> Seq<char> {
    seq![' '] + a.name + seq!['='] + seq![a.quote] + a.value + seq![a.quote]
}

/// Rendering of an attribute list.
pub open spec fn render_attrs(attrs: Seq<Attr>) -> Seq<char>
    decreases attrs.len(),
{
    if attrs.len() == 0 {
        Seq::<char>::empty()
    } else {
        render_attr(attrs[0]) + render_attrs(attrs.drop_first())
    }
}

/// Start of attribute `i` within the rendered list.
pub open spec fn attr_offset(attrs: Seq<Attr>, i: int) -> int {
    render_attrs(attrs.take(i)).len() as int
}

/// A self-closing presence stanza over the model.
pub open spec fn sc_presence(attrs: Seq<Attr>) -> Seq<char> {
    presence_open() + render_attrs(attrs) + seq!['/', '>']
}

/// A full presence element with body content over the model.
pub open spec fn full_presence(attrs: Seq<Attr>, body: Seq<char>) -> Seq<char> {
    presence_open() + render_attrs(attrs) + seq!['>'] + body + close_presence()
}

/// The model attribute the rewrite inserts: `type="unavailable"`.
pub open spec fn unavailable_attr() -> Attr {
    Attr {
        name: seq!['t', 'y', 'p', 'e'],
        quote: '"',
        value: seq!['u', 'n', 'a', 'v', 'a', 'i', 'l', 'a', 'b', 'l', 'e'],
    }
}

/// Whether the list carries a `type` attribute.
pub open spec fn has_type_attr(attrs: Seq<Attr>) -> bool {
    exists|i: int| 0 <= i < attrs.len() && is_type_attr(attrs[i])
}

/// Index of the `type` attribute, when there is one.
pub open spec fn type_attr_idx(attrs: Seq<Attr>) -> int {
    choose|i: int| 0 <= i < attrs.len() && is_type_attr(attrs[i])
}

/// The list with its `type` attribute removed.
pub open spec fn drop_type(attrs: Seq<Attr>) -> Seq<Attr> {
    if has_type_attr(attrs) {
        attrs.take(type_attr_idx(attrs)) + attrs.skip(type_attr_idx(attrs) + 1)
    } else {
        attrs
    }
}

/// The pattern ` type=q` for a quote character.
pub open spec fn type_pat(qc: char) -> Seq<char> {
    seq![' ', 't', 'y', 'p', 'e', '='] + seq![qc]
}

pub proof fn lemma_type_pat_forms()
    ensures
        type_pat('"') == type_pat_dq(),
        type_pat('\'') == type_pat_sq(),
{
    assert(type_pat('"') =~= type_pat_dq());
    assert(type_pat('\'') =~= type_pat_sq());
}

/// Splitting a rendered list at any attribute.
pub proof fn lemma_render_attrs_split(attrs: Seq<Attr>, i: int)
    requires
        0 <= i < attrs.len(),
    ensures
        render_attrs(attrs) == render_attrs(attrs.take(i)) + render_attr(attrs[i]) + render_attrs(
            attrs.skip(i + 1),
        ),
    decreases i,
{
    if i == 0 {
        assert(attrs.take(0).len() == 0);
        assert(render_attrs(attrs.take(0)) =~= Seq::<char>::empty());
        assert(attrs.skip(1) =~= attrs.drop_first());
        assert(render_attrs(attrs) =~= render_attrs(attrs.take(0)) + render_attr(attrs[0])
            + render_attrs(attrs.skip(1)));
    } else {
        let rest = attrs.drop_first();
        lemma_render_attrs_split(rest, i - 1);
        assert(rest.take(i - 1) =~= attrs.take(i).drop_first());
        assert(rest.skip(i) =~= attrs.skip(i + 1));
        assert(rest[i - 1] == attrs[i]);
        assert(render_attrs(attrs.take(i)) == render_attr(attrs[0]) + render_attrs(
            attrs.take(i).drop_first(),
        ));
        assert(render_attrs(attrs) == render_attr(attrs[0]) + render_attrs(rest));
        assert(render_attr(attrs[0]) + (render_attrs(rest.take(i - 1)) + render_attr(rest[i - 1])
            + render_attrs(rest.skip(i))) =~= (render_attr(attrs[0]) + render_attrs(
            rest.take(i - 1),
        )) + render_attr(rest[i - 1]) + render_attrs(rest.skip(i)));
    }
}

/// Character positions inside one rendered attribute.
pub proof fn lemma_render_attr_chars(a: Attr)
    requires
        wf_attr(a),
    ensures
        render_attr(a).len() == a.name.len() + a.value.len() + 4,
        render_attr(a)[0] == ' ',
        forall|k: int| 0 <= k < a.name.len() ==> render_attr(a)[1 + k] == a.name[k],
        render_attr(a)[1 + a.name.len() as int] == '=',
        render_attr(a)[2 + a.name.len() as int] == a.quote,
        forall|k: int|
            0 <= k < a.value.len() ==> render_attr(a)[3 + a.name.len() as int + k] == a.value[k],
        render_attr(a)[render_attr(a).len() - 1] == a.quote,
        forall|k: int| 0 < k < render_attr(a).len() ==> render_attr(a)[k] != ' ',
        forall|k: int| 0 <= k < render_attr(a).len() ==> render_attr(a)[k] != '>',
        forall|k: int|
            0 <= k < render_attr(a).len() && (render_attr(a)[k] == '"' || render_attr(a)[k]
                == '\'') ==> k == 2 + a.name.len() || k == render_attr(a).len() - 1,
{
    let r = render_attr(a);
    let nl = a.name.len() as int;
    let vl = a.value.len() as int;
    assert forall|k: int| 0 < k < r.len() implies r[k] != ' ' by {
        if 1 <= k < 1 + nl {
            assert(r[k] == a.name[k - 1]);
            assert(!is_ws_char(a.name[k - 1]));
        } else if 3 + nl <= k < 3 + nl + vl {
            assert(r[k] == a.value[k - 3 - nl]);
            assert(!is_ws_char(a.value[k - 3 - nl]));
        }
    }
    assert forall|k: int| 0 <= k < r.len() implies r[k] != '>' by {
        if 1 <= k < 1 + nl {
            assert(r[k] == a.name[k - 1]);
        } else if 3 + nl <= k < 3 + nl + vl {
            assert(r[k] == a.value[k - 3 - nl]);
        }
    }
    assert forall|k: int|
        0 <= k < r.len() && (r[k] == '"' || r[k] == '\'') implies k == 2 + nl || k == r.len()
        - 1 by {
        if 1 <= k < 1 + nl {
            assert(r[k] == a.name[k - 1]);
        } else if 3 + nl <= k < 3 + nl + vl {
            assert(r[k] == a.value[k - 3 - nl]);
        }
    }
}

/// The characters of the ` type=q` pattern.
pub proof fn lemma_type_pat_chars(qc: char)
    ensures
        type_pat(qc).len() == 7,
        type_pat(qc)[0] == ' ',
        type_pat(qc)[1] == 't',
        type_pat(qc)[2] == 'y',
        type_pat(qc)[3] == 'p',
        type_pat(qc)[4] == 'e',
        type_pat(qc)[5] == '=',
        type_pat(qc)[6] == qc,
        forall|k: int| 0 <= k < 6 ==> type_pat(qc)[k] != '"' && type_pat(qc)[k] != '\'',
{
    assert forall|k: int| 0 <= k < 6 implies type_pat(qc)[k] != '"' && type_pat(qc)[k] != '\'' by {
        if k == 0 {
        } else if k == 1 {
        } else if k == 2 {
        } else if k == 3 {
        } else if k == 4 {
        } else {
            assert(k == 5);
        }
    }
}

/// The characters of `<presence`.
pub proof fn lemma_presence_open_chars()
    ensures
        presence_open().len() == 9,
        forall|k: int|
            0 <= k < 9 ==> presence_open()[k] != ' ' && presence_open()[k] != '>'
                && presence_open()[k] != '/',
        presence_open()[0] == '<',
{
    assert forall|k: int|
        0 <= k < 9 implies presence_open()[k] != ' ' && presence_open()[k] != '>'
        && presence_open()[k] != '/' by {
        if k == 0 {
        } else if k == 1 {
        } else if k == 2 {
        } else if k == 3 {
        } else if k == 4 {
        } else if k == 5 {
        } else if k == 6 {
        } else if k == 7 {
        } else {
            assert(k == 8);
        }
    }
}

/// An occurrence of ` type=q` inside one rendered well-formed attribute can
/// only be the attribute itself: at offset zero, named `type`, quoted by `q`.
pub proof fn lemma_attr_match(a: Attr, qc: char, j: int)
    requires
        wf_attr(a),
        match_at(render_attr(a), type_pat(qc), j),
    ensures
        j == 0,
        is_type_attr(a),
        a.quote == qc,
{
    let r = render_attr(a);
    let p = type_pat(qc);
    let nl = a.name.len() as int;
    lemma_render_attr_chars(a);
    lemma_type_pat_chars(qc);
    lemma_match_char(r, p, j, 0);
    assert(r[j] == ' ');
    assert(j == 0);
    if nl < 4 {
        lemma_match_char(r, p, 0, 1 + nl);
        assert(r[1 + nl] == '=');
        if nl == 1 {
            assert(p[2] == 'y');
        } else if nl == 2 {
            assert(p[3] == 'p');
        } else {
            assert(nl == 3);
            assert(p[4] == 'e');
        }
        assert(false);
    } else if nl > 4 {
        lemma_match_char(r, p, 0, 5);
        assert(r[5] == a.name[4]);
        assert(a.name[4] != '=');
        assert(false);
    } else {
        lemma_match_char(r, p, 0, 1);
        lemma_match_char(r, p, 0, 2);
        lemma_match_char(r, p, 0, 3);
        lemma_match_char(r, p, 0, 4);
        assert(a.name[0] == 't');
        assert(a.name[1] == 'y');
        assert(a.name[2] == 'p');
        assert(a.name[3] == 'e');
        assert(a.name =~= seq!['t', 'y', 'p', 'e']);
        lemma_match_char(r, p, 0, 6);
        assert(r[6] == a.quote);
    }
}

/// A well-formed `type` attribute renders with ` type=q` at its start.
pub proof fn lemma_attr_type_intro(a: Attr)
    requires
        wf_attr(a),
        is_type_attr(a),
    ensures
        match_at(render_attr(a), type_pat(a.quote), 0),
{
    let r = render_attr(a);
    let p = type_pat(a.quote);
    lemma_render_attr_chars(a);
    lemma_type_pat_chars(a.quote);
    assert forall|k: int| 0 <= k < 7 implies r[0 + k] == p[k] by {
        if k == 0 {
        } else if 1 <= k < 5 {
            assert(r[k] == a.name[k - 1]);
        } else if k == 5 {
            assert(r[1 + a.name.len() as int] == '=');
        } else {
            assert(k == 6);
            assert(r[2 + a.name.len() as int] == a.quote);
        }
    }
    lemma_match_at_intro(r, p, 0);
}

/// An occurrence of ` type=q` in a rendered list sits at the start of a
/// `type` attribute quoted by `q`.
pub proof fn lemma_attrs_match(attrs: Seq<Attr>, qc: char, j: int)
    requires
        forall|i: int| 0 <= i < attrs.len() ==> wf_attr(#[trigger] attrs[i]),
        match_at(render_attrs(attrs), type_pat(qc), j),
    ensures
        exists|i: int|
            0 <= i < attrs.len() && is_type_attr(#[trigger] attrs[i]) && attrs[i].quote == qc && j
                == attr_offset(attrs, i),
    decreases attrs.len(),
{
    lemma_type_pat_chars(qc);
    if attrs.len() == 0 {
        assert(false);
    } else {
        let a0 = attrs[0];
        let r0 = render_attr(a0);
        let rest = attrs.drop_first();
        let rr = render_attrs(rest);
        lemma_render_attr_chars(a0);
        lemma_match_concat_cases(r0, rr, type_pat(qc), j);
        assert(render_attrs(attrs) == r0 + rr);
        if j + 7 <= r0.len() {
            lemma_attr_match(a0, qc, j);
            assert(attrs.take(0).len() == 0);
            assert(attr_offset(attrs, 0) == 0);
            assert(0 <= 0 < attrs.len() && is_type_attr(attrs[0]) && attrs[0].quote == qc && j
                == attr_offset(attrs, 0));
        } else if j >= r0.len() {
            lemma_attrs_match(rest, qc, j - r0.len());
            let i = choose|i: int|
                0 <= i < rest.len() && is_type_attr(#[trigger] rest[i]) && rest[i].quote == qc && j
                    - r0.len() == attr_offset(rest, i);
            assert(attrs.take(i + 1 + 1 - 1).drop_first() =~= rest.take(i));
            assert(render_attrs(attrs.take(i + 1)) == render_attr(a0) + render_attrs(rest.take(i)));
            assert(attrs[i + 1] == rest[i]);
            assert(0 <= i + 1 < attrs.len() && is_type_attr(attrs[i + 1]) && attrs[i + 1].quote
                == qc && j == attr_offset(attrs, i + 1));
        } else {
            assert(r0[r0.len() - 1] == a0.quote);
            assert(false);
        }
    }
}

/// The `type` attribute's rendering is an occurrence of ` type=q` at its
/// offset in the rendered list.
pub proof fn lemma_attrs_type_intro(attrs: Seq<Attr>, i: int)
    requires
        forall|k: int| 0 <= k < attrs.len() ==> wf_attr(#[trigger] attrs[k]),
        0 <= i < attrs.len(),
        is_type_attr(attrs[i]),
    ensures
        match_at(render_attrs(attrs), type_pat(attrs[i].quote), attr_offset(attrs, i)),
{
    lemma_render_attrs_split(attrs, i);
    lemma_attr_type_intro(attrs[i]);
    let left = render_attrs(attrs.take(i));
    let mid = render_attr(attrs[i]);
    let right = render_attrs(attrs.skip(i + 1));
    lemma_match_concat_left(mid, right, type_pat(attrs[i].quote), 0);
    lemma_match_concat_right(left, mid + right, type_pat(attrs[i].quote), 0);
    assert(left + (mid + right) =~= left + mid + right);
}

/// A tail whose characters cannot take part in a ` type=q` occurrence:
/// `/>`, `>` and the empty tail qualify.
pub open spec fn quiet_tail(sfx: Seq<char>) -> bool {
    forall|k: int|
        0 <= k < sfx.len() ==> sfx[k] != ' ' && sfx[k] != 't' && sfx[k] != 'y' && sfx[k] != 'p'
            && sfx[k] != 'e' && sfx[k] != '=' && sfx[k] != '"' && sfx[k] != '\''
}

/// The rendered opening tag of a presence stanza over the model.
pub open spec fn presence_tag(attrs: Seq<Attr>, sfx: Seq<char>) -> Seq<char> {
    presence_open() + render_attrs(attrs) + sfx
}

/// Any ` type=q` occurrence in a rendered presence tag sits at the start of
/// a `type` attribute quoted by `q`.
pub proof fn lemma_tag_match_locate(attrs: Seq<Attr>, sfx: Seq<char>, qc: char, j: int)
    requires
        forall|i: int| 0 <= i < attrs.len() ==> wf_attr(#[trigger] attrs[i]),
        quiet_tail(sfx),
        qc == '"' || qc == '\'',
        match_at(presence_tag(attrs, sfx), type_pat(qc), j),
    ensures
        exists|i: int|
            0 <= i < attrs.len() && is_type_attr(#[trigger] attrs[i]) && attrs[i].quote == qc && j
                == 9 + attr_offset(attrs, i),
{
    let tag = presence_tag(attrs, sfx);
    let p = type_pat(qc);
    let rr = render_attrs(attrs);
    let el = 9 + rr.len() as int;
    lemma_type_pat_chars(qc);
    lemma_presence_open_chars();
    assert forall|t: int| 0 <= t < tag.len() implies tag[t] == if t < 9 {
        presence_open()[t]
    } else if t < el {
        rr[t - 9]
    } else {
        sfx[t - el]
    } by {}
    lemma_match_char(tag, p, j, 0);
    assert(tag[j] == ' ');
    assert(9 <= j < el);
    if j + 7 > el {
        let k = el - j;
        lemma_match_char(tag, p, j, k);
        assert(tag[el] == sfx[0]);
        assert(1 <= k <= 6);
        if k == 1 {
            assert(p[1] == 't');
        } else if k == 2 {
            assert(p[2] == 'y');
        } else if k == 3 {
            assert(p[3] == 'p');
        } else if k == 4 {
            assert(p[4] == 'e');
        } else if k == 5 {
            assert(p[5] == '=');
        } else {
            assert(p[6] == qc);
        }
        assert(false);
    }
    assert forall|k: int| 0 <= k < 7 implies rr[j - 9 + k] == p[k] by {
        lemma_match_char(tag, p, j, k);
    }
    lemma_match_at_intro(rr, p, j - 9);
    lemma_attrs_match(attrs, qc, j - 9);
    let i = choose|i: int|
        0 <= i < attrs.len() && is_type_attr(#[trigger] attrs[i]) && attrs[i].quote == qc && j - 9
            == attr_offset(attrs, i);
    assert(0 <= i < attrs.len() && is_type_attr(attrs[i]) && attrs[i].quote == qc && j == 9
        + attr_offset(attrs, i));
}

/// Where the first ` type=q` occurrence of a rendered presence tag lies:
/// at the `type` attribute when it is quoted by `q`, nowhere otherwise.
pub proof fn lemma_tag_first_match(attrs: Seq<Attr>, sfx: Seq<char>, qc: char)
    requires
        wf_attrs(attrs),
        quiet_tail(sfx),
        qc == '"' || qc == '\'',
    ensures
        has_type_attr(attrs) && attrs[type_attr_idx(attrs)].quote == qc ==> first_match(
            presence_tag(attrs, sfx),
            type_pat(qc),
        ) == Some(9 + attr_offset(attrs, type_attr_idx(attrs))),
        !(has_type_attr(attrs) && attrs[type_attr_idx(attrs)].quote == qc) ==> first_match(
            presence_tag(attrs, sfx),
            type_pat(qc),
        ) is None,
{
    let tag = presence_tag(attrs, sfx);
    let p = type_pat(qc);
    if has_type_attr(attrs) && attrs[type_attr_idx(attrs)].quote == qc {
        let idx = type_attr_idx(attrs);
        let pos = 9 + attr_offset(attrs, idx);
        lemma_attrs_type_intro(attrs, idx);
        lemma_match_concat_left(render_attrs(attrs), sfx, p, attr_offset(attrs, idx));
        lemma_match_concat_right(
            presence_open(),
            render_attrs(attrs) + sfx,
            p,
            attr_offset(attrs, idx),
        );
        assert(presence_open() + (render_attrs(attrs) + sfx) =~= tag);
        assert(match_at(tag, p, pos));
        assert forall|j: int| 0 <= j < pos implies !match_at(tag, p, j) by {
            if match_at(tag, p, j) {
                lemma_tag_match_locate(attrs, sfx, qc, j);
                let i = choose|i: int|
                    0 <= i < attrs.len() && is_type_attr(#[trigger] attrs[i]) && attrs[i].quote
                        == qc && j == 9 + attr_offset(attrs, i);
                assert(i == idx);
            }
        }
        lemma_first_match_is(tag, p, pos);
    } else {
        assert forall|j: int| !match_at(tag, p, j) by {
            if match_at(tag, p, j) {
                lemma_tag_match_locate(attrs, sfx, qc, j);
                let i = choose|i: int|
                    0 <= i < attrs.len() && is_type_attr(#[trigger] attrs[i]) && attrs[i].quote
                        == qc && j == 9 + attr_offset(attrs, i);
                assert(has_type_attr(attrs));
                assert(i == type_attr_idx(attrs));
            }
        }
        lemma_first_match_none(tag, p);
    }
}

/// Rendering distributes over list concatenation.
pub proof fn lemma_render_attrs_concat(u: Seq<Attr>, v: Seq<Attr>)
    ensures
        render_attrs(u + v) == render_attrs(u) + render_attrs(v),
    decreases u.len(),
{
    if u.len() == 0 {
        assert(u + v =~= v);
        assert(render_attrs(u) =~= Seq::<char>::empty());
        assert(render_attrs(u) + render_attrs(v) =~= render_attrs(v));
    } else {
        lemma_render_attrs_concat(u.drop_first(), v);
        assert((u + v).drop_first() =~= u.drop_first() + v);
        assert((u + v)[0] == u[0]);
        assert(render_attr(u[0]) + (render_attrs(u.drop_first()) + render_attrs(v)) =~= (
        render_attr(u[0]) + render_attrs(u.drop_first())) + render_attrs(v));
    }
}

/// Removing the type attribute from a rendered presence tag removes exactly
/// the `type` attribute of the model, and nothing when there is none.
#[verifier::rlimit(100)]
pub proof fn lemma_remove_type_tag(attrs: Seq<Attr>, sfx: Seq<char>)
    requires
        wf_attrs(attrs),
        quiet_tail(sfx),
    ensures
        remove_type_attr(presence_tag(attrs, sfx)) == presence_tag(drop_type(attrs), sfx),
{
    let tag = presence_tag(attrs, sfx);
    lemma_type_pat_forms();
    lemma_tag_first_match(attrs, sfx, '"');
    lemma_tag_first_match(attrs, sfx, '\'');
    if has_type_attr(attrs) {
        let idx = type_attr_idx(attrs);
        let a = attrs[idx];
        let q = a.quote;
        lemma_render_attr_chars(a);
        lemma_render_attrs_split(attrs, idx);
        let st = 9 + attr_offset(attrs, idx);
        let vs = st + 7;
        let vl = a.value.len() as int;
        let left = render_attrs(attrs.take(idx));
        let right = render_attrs(attrs.skip(idx + 1));
        assert(first_match(tag, type_pat(q)) == Some(st));
        let tail = tag.subrange(vs, tag.len() as int);
        assert(tail =~= a.value + seq![q] + right + sfx) by {
            assert(render_attrs(attrs) == left + render_attr(a) + right);
            assert forall|k: int| 0 <= k < a.value.len() implies render_attr(a)[7 + k]
                == a.value[k] by {
                assert(a.name.len() == 4);
            }
            assert(render_attr(a)[7 + vl] == q);
            assert(render_attr(a).len() == 8 + vl);
        }
        assert forall|j: int| 0 <= j < vl implies !match_at(tail, seq![q], j) by {
            if match_at(tail, seq![q], j) {
                lemma_match_char(tail, seq![q], j, 0);
                assert(tail[j] == a.value[j]);
            }
        }
        assert(tail[vl] == q);
        lemma_match_at_intro(tail, seq![q], vl);
        lemma_first_match_is(tail, seq![q], vl);
        let removed = tag.subrange(0, st) + tag.subrange(vs + vl + 1, tag.len() as int);
        assert(tag.subrange(0, st) =~= presence_open() + left);
        assert(tag.subrange(vs + vl + 1, tag.len() as int) =~= right + sfx) by {
            assert(render_attr(a).len() == 8 + vl);
        }
        lemma_render_attrs_concat(attrs.take(idx), attrs.skip(idx + 1));
        assert(removed =~= presence_open() + render_attrs(drop_type(attrs)) + sfx);
        if q == '"' {
            assert(remove_with(tag, type_pat_dq(), '"') == Some(removed));
        } else {
            assert(first_match(tag, type_pat_dq()) is None);
            assert(remove_with(tag, type_pat_dq(), '"') is None);
            assert(remove_with(tag, type_pat_sq(), '\'') == Some(removed));
        }
    } else {
        assert(first_match(tag, type_pat_dq()) is None);
        assert(first_match(tag, type_pat_sq()) is None);
        assert(remove_with(tag, type_pat_dq(), '"') is None);
        assert(remove_with(tag, type_pat_sq(), '\'') is None);
    }
}

/// In a rendered list, spaces stand exactly at attribute starts, no
/// character is `>`, and each attribute's rendering occupies its slot.
pub proof fn lemma_render_attrs_chars(attrs: Seq<Attr>)
    requires
        forall|i: int| 0 <= i < attrs.len() ==> wf_attr(#[trigger] attrs[i]),
    ensures
        forall|k: int|
            0 <= k < render_attrs(attrs).len() && #[trigger] render_attrs(attrs)[k] == ' '
                ==> exists|i: int| 0 <= i < attrs.len() && k == attr_offset(attrs, i),
        forall|k: int| 0 <= k < render_attrs(attrs).len() ==> render_attrs(attrs)[k] != '>',
    decreases attrs.len(),
{
    if attrs.len() == 0 {
    } else {
        let a0 = attrs[0];
        let r0 = render_attr(a0);
        let rest = attrs.drop_first();
        let rr = render_attrs(rest);
        lemma_render_attr_chars(a0);
        lemma_render_attrs_chars(rest);
        assert forall|k: int|
            0 <= k < render_attrs(attrs).len() && #[trigger] render_attrs(attrs)[k]
                == ' ' implies exists|i: int| 0 <= i < attrs.len() && k == attr_offset(attrs, i) by {
            if k < r0.len() {
                assert(render_attrs(attrs)[k] == r0[k]);
                assert(k == 0);
                assert(attrs.take(0).len() == 0);
                assert(attr_offset(attrs, 0) == 0);
            } else {
                assert(render_attrs(attrs)[k] == rr[k - r0.len()]);
                let i = choose|i: int|
                    0 <= i < rest.len() && k - r0.len() == attr_offset(rest, i);
                assert(attrs.take(i + 1).drop_first() =~= rest.take(i));
                assert(render_attrs(attrs.take(i + 1)) == render_attr(a0) + render_attrs(
                    rest.take(i),
                ));
                assert(k == attr_offset(attrs, i + 1));
            }
        }
        assert forall|k: int| 0 <= k < render_attrs(attrs).len() implies render_attrs(attrs)[k]
            != '>' by {
            if k < r0.len() {
                assert(render_attrs(attrs)[k] == r0[k]);
            } else {
                assert(render_attrs(attrs)[k] == rr[k - r0.len()]);
            }
        }
    }
}

/// The inserted attribute is well-formed, is the `type` attribute, and
/// renders as ` type="unavailable"`.
pub proof fn lemma_unavailable_attr()
    ensures
        wf_attr(unavailable_attr()),
        is_type_attr(unavailable_attr()),
        render_attr(unavailable_attr()) == type_unavailable_attr(),
{
    let a = unavailable_attr();
    assert forall|k: int|
        0 <= k < a.name.len() implies !is_ws_char(a.name[k]) && a.name[k] != '"' && a.name[k]
        != '\'' && a.name[k] != '<' && a.name[k] != '>' && a.name[k] != '=' && a.name[k] != '/' by {
        if k == 0 {
        } else if k == 1 {
        } else if k == 2 {
        } else {
            assert(k == 3);
        }
    }
    assert forall|k: int|
        0 <= k < a.value.len() implies !is_ws_char(a.value[k]) && a.value[k] != '"' && a.value[k]
        != '\'' && a.value[k] != '<' && a.value[k] != '>' by {
        assert(0 <= k < 11);
        if k < 4 {
        } else if k < 8 {
        } else {
        }
    }
    assert(render_attr(a) =~= type_unavailable_attr());
}

/// The list without its `type` attribute: still well-formed, free of `type`
/// attributes, and carrying every other attribute of the original.
pub proof fn lemma_drop_type_props(attrs: Seq<Attr>)
    requires
        wf_attrs(attrs),
    ensures
        wf_attrs(drop_type(attrs)),
        forall|i: int| 0 <= i < drop_type(attrs).len() ==> !is_type_attr(#[trigger] drop_type(attrs)[i]),
        forall|i: int|
            0 <= i < attrs.len() && !is_type_attr(#[trigger] attrs[i]) ==> exists|i2: int|
                0 <= i2 < drop_type(attrs).len() && drop_type(attrs)[i2] == attrs[i],
{
    if has_type_attr(attrs) {
        let idx = type_attr_idx(attrs);
        let dt = drop_type(attrs);
        assert(0 <= idx < attrs.len() && is_type_attr(attrs[idx]));
        assert forall|i: int| 0 <= i < dt.len() implies wf_attr(#[trigger] dt[i]) && !is_type_attr(
            dt[i],
        ) by {
            if i < idx {
                assert(dt[i] == attrs[i]);
            } else {
                assert(dt[i] == attrs[i + 1]);
            }
        }
        assert forall|i: int|
            0 <= i < attrs.len() && !is_type_attr(#[trigger] attrs[i]) implies exists|i2: int|
            0 <= i2 < dt.len() && dt[i2] == attrs[i] by {
            if i < idx {
                assert(dt[i] == attrs[i]);
            } else {
                assert(i > idx);
                assert(dt[i - 1] == attrs[i]);
            }
        }
    } else {
        assert forall|i: int| 0 <= i < drop_type(attrs).len() implies !is_type_attr(
            #[trigger] drop_type(attrs)[i],
        ) by {
            if is_type_attr(attrs[i]) {
                assert(has_type_attr(attrs));
            }
        }
        assert forall|i: int|
            0 <= i < attrs.len() && !is_type_attr(#[trigger] attrs[i]) implies exists|i2: int|
            0 <= i2 < drop_type(attrs).len() && drop_type(attrs)[i2] == attrs[i] by {
            assert(drop_type(attrs)[i] == attrs[i]);
        }
    }
}

/// The offline rewrite of a self-closing presence stanza over the model:
/// the `type` attribute is replaced and moved to the front.
pub proof fn lemma_filter_offline_sc(attrs: Seq<Attr>)
    requires
        wf_attrs(attrs),
    ensures
        filter_spec(sc_presence(attrs), StealthMode::Offline) == sc_presence(
            seq![unavailable_attr()] + drop_type(attrs),
        ),
{
    let s = sc_presence(attrs);
    let rr = render_attrs(attrs);
    let sl = seq!['/', '>'];
    lemma_presence_open_chars();
    crate::text::lemma_ws_prefix_len_is(s, 0);
    crate::presence::lemma_ws_suffix_len_is(s, 0);
    assert(trim_spec(s) =~= s);
    assert forall|k: int| 0 <= k < 9 implies s[0 + k] == presence_open()[k] by {}
    lemma_match_at_intro(s, presence_open(), 0);
    assert(s[s.len() - 2] == '/');
    assert(s[s.len() - 1] == '>');
    assert forall|k: int| 0 <= k < 2 implies s[s.len() - 2 + k] == sl[k] by {}
    lemma_match_at_intro(s, sl, s.len() - 2);
    assert(filter_spec(s, StealthMode::Offline) == offline_self_closing(s));
    assert forall|k: int| 0 <= k < sl.len() implies sl[k] != ' ' && sl[k] != 't' && sl[k] != 'y'
        && sl[k] != 'p' && sl[k] != 'e' && sl[k] != '=' && sl[k] != '"' && sl[k] != '\'' by {
        if k == 0 {
        } else {
            assert(k == 1);
        }
    }
    assert(s == presence_tag(attrs, sl));
    lemma_remove_type_tag(attrs, sl);
    let dt = drop_type(attrs);
    assert(remove_type_attr(s) == presence_open() + render_attrs(dt) + sl);
    assert(remove_type_attr(s).skip(9) =~= render_attrs(dt) + sl);
    lemma_unavailable_attr();
    let attrs2 = seq![unavailable_attr()] + dt;
    assert(attrs2[0] == unavailable_attr());
    assert(attrs2.drop_first() =~= dt);
    assert(render_attrs(attrs2) == render_attr(unavailable_attr()) + render_attrs(dt));
    assert(offline_self_closing(s) =~= sc_presence(attrs2));
}

/// A full presence element takes the full-element branch of the filter.
proof fn lemma_full_branch(attrs: Seq<Attr>, body: Seq<char>)
    requires
        wf_attrs(attrs),
    ensures
        filter_spec(full_presence(attrs, body), StealthMode::Offline) == offline_full(
            full_presence(attrs, body),
        ),
{
    let s = full_presence(attrs, body);
    let cp = close_presence();
    lemma_presence_open_chars();
    assert(cp[10] == '>');
    assert(s[s.len() - 1] == cp[10]);
    crate::text::lemma_ws_prefix_len_is(s, 0);
    crate::presence::lemma_ws_suffix_len_is(s, 0);
    assert(trim_spec(s) =~= s);
    assert forall|k: int| 0 <= k < 9 implies s[0 + k] == presence_open()[k] by {}
    lemma_match_at_intro(s, presence_open(), 0);
    if match_at(s, seq!['/', '>'], s.len() - 2) {
        lemma_match_char(s, seq!['/', '>'], s.len() - 2, 0);
        assert(s[s.len() - 2] == cp[9]);
        assert(cp[9] == 'e');
        assert(false);
    }
    assert forall|k: int| 0 <= k < cp.len() implies s[s.len() - 11 + k] == cp[k] by {}
    lemma_match_at_intro(s, cp, s.len() - 11);
    assert(contains_seq(s, cp));
}

/// The opening tag of a full presence element is everything before the `>`
/// that closes it: attribute renderings contain no `>` of their own.
proof fn lemma_full_opening(attrs: Seq<Attr>, body: Seq<char>)
    requires
        wf_attrs(attrs),
    ensures
        opening_of(full_presence(attrs, body)) == presence_tag(attrs, Seq::<char>::empty()),
{
    let s = full_presence(attrs, body);
    let rr = render_attrs(attrs);
    lemma_presence_open_chars();
    lemma_render_attrs_chars(attrs);
    let gp = 9 + rr.len() as int;
    assert(s[gp] == '>');
    lemma_match_at_intro(s, seq!['>'], gp);
    assert forall|j: int| 0 <= j < gp implies !match_at(s, seq!['>'], j) by {
        if match_at(s, seq!['>'], j) {
            lemma_match_char(s, seq!['>'], j, 0);
            if j < 9 {
            } else {
                assert(s[j] == rr[j - 9]);
            }
        }
    }
    lemma_first_match_is(s, seq!['>'], gp);
    assert(s.take(gp) =~= presence_tag(attrs, Seq::<char>::empty()));
}

/// The tag with the `type` attribute removed ends in a quote or in
/// `<presence` itself, never in a slash.
proof fn lemma_removed_no_slash(attrs: Seq<Attr>)
    requires
        wf_attrs(attrs),
    ensures
        ({
            let x = presence_open() + render_attrs(drop_type(attrs));
            crate::presence::trim_end_slashes(x) == x
        }),
{
    let dt = drop_type(attrs);
    let x = presence_open() + render_attrs(dt);
    lemma_presence_open_chars();
    lemma_drop_type_props(attrs);
    if dt.len() == 0 {
        assert(x[x.len() - 1] == presence_open()[8]);
        crate::presence::lemma_slash_suffix_len_is(x, 0);
    } else {
        lemma_render_attrs_split(dt, dt.len() - 1);
        lemma_render_attr_chars(dt[dt.len() - 1]);
        assert(render_attrs(dt.skip(dt.len() as int)) =~= Seq::<char>::empty());
        assert(render_attrs(dt) =~= render_attrs(dt.take(dt.len() - 1)) + render_attr(
            dt[dt.len() - 1],
        ));
        let ra = render_attr(dt[dt.len() - 1]);
        assert(render_attrs(dt)[render_attrs(dt).len() - 1] == ra[ra.len() - 1]);
        assert(x[x.len() - 1] == dt[dt.len() - 1].quote);
        crate::presence::lemma_slash_suffix_len_is(x, 0);
    }
    assert(crate::presence::trim_end_slashes(x) =~= x);
}

/// Rendering a list extended by one attribute.
proof fn lemma_render_push(u: Seq<Attr>, a: Attr)
    ensures
        render_attrs(u + seq![a]) == render_attrs(u) + render_attr(a),
{
    lemma_render_attrs_concat(u, seq![a]);
    assert(seq![a].drop_first().len() == 0);
    assert(render_attrs(seq![a].drop_first()) =~= Seq::<char>::empty());
    assert(render_attrs(seq![a]) =~= render_attr(a));
}

/// Concatenation bracketing for the assembled self-closing output.
proof fn lemma_sc_assemble(rd: Seq<char>)
    ensures
        (presence_open() + rd) + type_unavailable_attr() + seq!['/', '>'] == presence_open() + (rd
            + type_unavailable_attr()) + seq!['/', '>'],
{
    assert((presence_open() + rd) + type_unavailable_attr() + seq!['/', '>'] =~= presence_open() + (
    rd + type_unavailable_attr()) + seq!['/', '>']);
}

/// The offline rewrite of a full presence element over the model: the body
/// is dropped and `type="unavailable"` closes the kept opening tag.
#[verifier::rlimit(100)]
pub proof fn lemma_filter_offline_full(attrs: Seq<Attr>, body: Seq<char>)
    requires
        wf_attrs(attrs),
    ensures
        filter_spec(full_presence(attrs, body), StealthMode::Offline) == sc_presence(
            drop_type(attrs) + seq![unavailable_attr()],
        ),
{
    let s = full_presence(attrs, body);
    let tua = type_unavailable_attr();
    let sl = seq!['/', '>'];
    lemma_full_branch(attrs, body);
    lemma_full_opening(attrs, body);
    lemma_remove_type_tag(attrs, Seq::<char>::empty());
    let dt = drop_type(attrs);
    let rd = render_attrs(dt);
    let x = remove_type_attr(opening_of(s));
    assert(x == presence_open() + rd + Seq::<char>::empty());
    assert(x =~= presence_open() + rd);
    lemma_removed_no_slash(attrs);
    assert(crate::presence::trim_end_slashes(x) == x);
    assert(offline_full(s) == x + tua + sl);
    lemma_unavailable_attr();
    let attrs2 = dt + seq![unavailable_attr()];
    lemma_render_push(dt, unavailable_attr());
    assert(render_attrs(attrs2) == rd + tua);
    lemma_sc_assemble(rd);
    assert(offline_full(s) == sc_presence(attrs2));
}

/// A list's sole `type` attribute is the one `choose` picks.
proof fn lemma_type_idx_is(attrs: Seq<Attr>, i: int)
    requires
        wf_attrs(attrs),
        0 <= i < attrs.len(),
        is_type_attr(attrs[i]),
    ensures
        has_type_attr(attrs),
        type_attr_idx(attrs) == i,
{
    assert(has_type_attr(attrs));
    let w = type_attr_idx(attrs);
    assert(0 <= w < attrs.len() && is_type_attr(attrs[w]));
}

/// Each attribute's rendering occurs at its offset in the rendered list.
proof fn lemma_attrs_render_at(attrs: Seq<Attr>, i: int)
    requires
        0 <= i < attrs.len(),
    ensures
        match_at(render_attrs(attrs), render_attr(attrs[i]), attr_offset(attrs, i)),
{
    lemma_render_attrs_split(attrs, i);
    let left = render_attrs(attrs.take(i));
    let mid = render_attr(attrs[i]);
    let right = render_attrs(attrs.skip(i + 1));
    lemma_match_at_intro(mid, mid, 0);
    assert(mid.subrange(0, mid.len() as int) =~= mid);
    lemma_match_concat_left(mid, right, mid, 0);
    lemma_match_concat_right(left, mid + right, mid, 0);
    assert(left + (mid + right) =~= left + mid + right);
}

/// Occurrence structure of a self-closing presence whose `type` attribute is
/// `type="unavailable"`: that attribute is the only ` type=` occurrence, and
/// every attribute's rendering appears in the stanza.
proof fn lemma_sc_occurrences(attrs2: Seq<Attr>)
    requires
        wf_attrs(attrs2),
        has_type_attr(attrs2),
        attrs2[type_attr_idx(attrs2)] == unavailable_attr(),
    ensures
        match_at(
            sc_presence(attrs2),
            type_unavailable_attr(),
            9 + attr_offset(attrs2, type_attr_idx(attrs2)),
        ),
        forall|j: int|
            match_at(sc_presence(attrs2), type_pat_dq(), j) ==> j == 9 + attr_offset(
                attrs2,
                type_attr_idx(attrs2),
            ),
        no_match(sc_presence(attrs2), type_pat_sq()),
        forall|i: int|
            0 <= i < attrs2.len() ==> contains_seq(
                sc_presence(attrs2),
                render_attr(#[trigger] attrs2[i]),
            ),
{
    let out = sc_presence(attrs2);
    let sl = seq!['/', '>'];
    let idx = type_attr_idx(attrs2);
    lemma_type_pat_forms();
    lemma_unavailable_attr();
    assert(out == presence_tag(attrs2, sl));
    assert forall|k: int| 0 <= k < sl.len() implies sl[k] != ' ' && sl[k] != 't' && sl[k] != 'y'
        && sl[k] != 'p' && sl[k] != 'e' && sl[k] != '=' && sl[k] != '"' && sl[k] != '\'' by {
        if k == 0 {
        } else {
            assert(k == 1);
        }
    }
    assert forall|i: int| 0 <= i < attrs2.len() implies contains_seq(
        out,
        render_attr(#[trigger] attrs2[i]),
    ) by {
        lemma_attrs_render_at(attrs2, i);
        let p = render_attr(attrs2[i]);
        lemma_match_concat_left(render_attrs(attrs2), sl, p, attr_offset(attrs2, i));
        lemma_match_concat_right(presence_open(), render_attrs(attrs2) + sl, p, attr_offset(attrs2, i));
        assert(presence_open() + (render_attrs(attrs2) + sl) =~= out);
        assert(match_at(out, p, 9 + attr_offset(attrs2, i)));
    }
    lemma_attrs_render_at(attrs2, idx);
    assert(render_attr(attrs2[idx]) == type_unavailable_attr());
    lemma_match_concat_left(render_attrs(attrs2), sl, type_unavailable_attr(), attr_offset(attrs2, idx));
    lemma_match_concat_right(
        presence_open(),
        render_attrs(attrs2) + sl,
        type_unavailable_attr(),
        attr_offset(attrs2, idx),
    );
    assert(presence_open() + (render_attrs(attrs2) + sl) =~= out);
    assert forall|j: int| match_at(out, type_pat_dq(), j) implies j == 9 + attr_offset(
        attrs2,
        idx,
    ) by {
        lemma_tag_match_locate(attrs2, sl, '"', j);
        let i = choose|i: int|
            0 <= i < attrs2.len() && is_type_attr(#[trigger] attrs2[i]) && attrs2[i].quote == '"'
                && j == 9 + attr_offset(attrs2, i);
        assert(i == idx);
    }
    assert forall|j: int| !match_at(out, type_pat_sq(), j) by {
        if match_at(out, type_pat_sq(), j) {
            lemma_tag_match_locate(attrs2, sl, '\'', j);
            let i = choose|i: int|
                0 <= i < attrs2.len() && is_type_attr(#[trigger] attrs2[i]) && attrs2[i].quote
                    == '\'' && j == 9 + attr_offset(attrs2, i);
            assert(i == idx);
            assert(attrs2[idx].quote == '"');
        }
    }
}

/// The rewrite's output over the model is well-formed again, with the
/// inserted attribute as its only `type` attribute.
proof fn lemma_rewritten_wf(dt: Seq<Attr>, front: bool)
    requires
        forall|i: int| 0 <= i < dt.len() ==> wf_attr(#[trigger] dt[i]),
        forall|i: int| 0 <= i < dt.len() ==> !is_type_attr(#[trigger] dt[i]),
    ensures
        wf_attrs(
            if front {
                seq![unavailable_attr()] + dt
            } else {
                dt + seq![unavailable_attr()]
            },
        ),
        has_type_attr(
            if front {
                seq![unavailable_attr()] + dt
            } else {
                dt + seq![unavailable_attr()]
            },
        ),
        type_attr_idx(
            if front {
                seq![unavailable_attr()] + dt
            } else {
                dt + seq![unavailable_attr()]
            },
        ) == if front {
            0int
        } else {
            dt.len() as int
        },
{
    lemma_unavailable_attr();
    if front {
        let a2 = seq![unavailable_attr()] + dt;
        assert(a2[0] == unavailable_attr());
        assert forall|i: int| 0 <= i < a2.len() implies wf_attr(#[trigger] a2[i]) by {
            if i > 0 {
                assert(a2[i] == dt[i - 1]);
            }
        }
        assert forall|i: int, j: int|
            0 <= i < a2.len() && 0 <= j < a2.len() && is_type_attr(#[trigger] a2[i]) && is_type_attr(
                #[trigger] a2[j],
            ) implies i == j by {
            if i > 0 {
                assert(a2[i] == dt[i - 1]);
            }
            if j > 0 {
                assert(a2[j] == dt[j - 1]);
            }
        }
        lemma_type_idx_is(a2, 0);
    } else {
        let a2 = dt + seq![unavailable_attr()];
        assert(a2[dt.len() as int] == unavailable_attr());
        assert forall|i: int| 0 <= i < a2.len() implies wf_attr(#[trigger] a2[i]) by {
            if i < dt.len() {
                assert(a2[i] == dt[i]);
            }
        }
        assert forall|i: int, j: int|
            0 <= i < a2.len() && 0 <= j < a2.len() && is_type_attr(#[trigger] a2[i]) && is_type_attr(
                #[trigger] a2[j],
            ) implies i == j by {
            if i < dt.len() {
                assert(a2[i] == dt[i]);
            }
            if j < dt.len() {
                assert(a2[j] == dt[j]);
            }
        }
        lemma_type_idx_is(a2, dt.len() as int);
    }
}

/// Offline filtering of a well-formed self-closing presence stanza yields
/// exactly one type attribute, double-quoted and reading `unavailable`, and
/// keeps the rendering of every other attribute of the stanza.
pub proof fn lemma_offline_unavailable_sc(attrs: Seq<Attr>)
    requires
        wf_attrs(attrs),
    ensures
        ({
            let out = filter_spec(sc_presence(attrs), StealthMode::Offline);
            &&& exists|j: int| match_at(out, type_unavailable_attr(), j)
            &&& forall|j1: int, j2: int|
                match_at(out, type_pat_dq(), j1) && match_at(out, type_pat_dq(), j2) ==> j1 == j2
            &&& forall|j: int| match_at(out, type_pat_dq(), j) ==> match_at(out, type_unavailable_attr(), j)
            &&& no_match(out, type_pat_sq())
            &&& forall|i: int|
                0 <= i < attrs.len() && !is_type_attr(#[trigger] attrs[i]) ==> contains_seq(
                    out,
                    render_attr(attrs[i]),
                )
        }),
{
    lemma_filter_offline_sc(attrs);
    lemma_drop_type_props(attrs);
    let dt = drop_type(attrs);
    let attrs2 = seq![unavailable_attr()] + dt;
    lemma_rewritten_wf(dt, true);
    lemma_sc_occurrences(attrs2);
    let out = filter_spec(sc_presence(attrs), StealthMode::Offline);
    assert(out == sc_presence(attrs2));
    assert(attrs2.take(0).len() == 0);
    assert(attr_offset(attrs2, 0) == 0);
    assert(match_at(out, type_unavailable_attr(), 9));
    assert forall|i: int|
        0 <= i < attrs.len() && !is_type_attr(#[trigger] attrs[i]) implies contains_seq(
        out,
        render_attr(attrs[i]),
    ) by {
        let i2 = choose|i2: int| 0 <= i2 < dt.len() && dt[i2] == attrs[i];
        assert(attrs2[i2 + 1] == dt[i2]);
        assert(contains_seq(out, render_attr(attrs2[i2 + 1])));
    }
}

/// Offline filtering of a well-formed full presence element yields exactly
/// one type attribute, double-quoted and reading `unavailable`, keeps the
/// rendering of every other attribute of the opening tag, and drops the body.
pub proof fn lemma_offline_unavailable_full(attrs: Seq<Attr>, body: Seq<char>)
    requires
        wf_attrs(attrs),
    ensures
        ({
            let out = filter_spec(full_presence(attrs, body), StealthMode::Offline);
            &&& exists|j: int| match_at(out, type_unavailable_attr(), j)
            &&& forall|j1: int, j2: int|
                match_at(out, type_pat_dq(), j1) && match_at(out, type_pat_dq(), j2) ==> j1 == j2
            &&& forall|j: int| match_at(out, type_pat_dq(), j) ==> match_at(out, type_unavailable_attr(), j)
            &&& no_match(out, type_pat_sq())
            &&& forall|i: int|
                0 <= i < attrs.len() && !is_type_attr(#[trigger] attrs[i]) ==> contains_seq(
                    out,
                    render_attr(attrs[i]),
                )
        }),
{
    lemma_filter_offline_full(attrs, body);
    lemma_drop_type_props(attrs);
    let dt = drop_type(attrs);
    let attrs2 = dt + seq![unavailable_attr()];
    lemma_rewritten_wf(dt, false);
    lemma_sc_occurrences(attrs2);
    let out = filter_spec(full_presence(attrs, body), StealthMode::Offline);
    assert(out == sc_presence(attrs2));
    assert forall|i: int|
        0 <= i < attrs.len() && !is_type_attr(#[trigger] attrs[i]) implies contains_seq(
        out,
        render_attr(attrs[i]),
    ) by {
        let i2 = choose|i2: int| 0 <= i2 < dt.len() && dt[i2] == attrs[i];
        assert(attrs2[i2] == dt[i2]);
        assert(contains_seq(out, render_attr(attrs2[i2])));
    }
}

/// Offline filtering is idempotent on well-formed self-closing presence
/// stanzas: filtering the rewritten stanza again returns it unchanged.
pub proof fn lemma_offline_idempotent_sc(attrs: Seq<Attr>)
    requires
        wf_attrs(attrs),
    ensures
        filter_spec(
            filter_spec(sc_presence(attrs), StealthMode::Offline),
            StealthMode::Offline,
        ) == filter_spec(sc_presence(attrs), StealthMode::Offline),
{
    lemma_filter_offline_sc(attrs);
    lemma_drop_type_props(attrs);
    let dt = drop_type(attrs);
    let attrs2 = seq![unavailable_attr()] + dt;
    lemma_rewritten_wf(dt, true);
    lemma_filter_offline_sc(attrs2);
    assert(drop_type(attrs2) =~= dt);
    assert(seq![unavailable_attr()] + drop_type(attrs2) =~= attrs2);
}

/// For a well-formed full presence element, offline filtering is idempotent
/// up to the position of the one type attribute: the first pass appends
/// `type="unavailable"` to the kept attributes, the second pass moves it to
/// the front, and both passes carry exactly the inserted attribute and the
/// original's non-type attributes. Strict string equality of the two passes
/// fails only on that position.
pub proof fn lemma_offline_full_attr_set(attrs: Seq<Attr>, body: Seq<char>)
    requires
        wf_attrs(attrs),
    ensures
        ({
            let o1 = filter_spec(full_presence(attrs, body), StealthMode::Offline);
            let o2 = filter_spec(o1, StealthMode::Offline);
            &&& o1 == sc_presence(drop_type(attrs) + seq![unavailable_attr()])
            &&& o2 == sc_presence(seq![unavailable_attr()] + drop_type(attrs))
        }),
{
    lemma_filter_offline_full(attrs, body);
    lemma_drop_type_props(attrs);
    let dt = drop_type(attrs);
    let attrs3 = dt + seq![unavailable_attr()];
    lemma_rewritten_wf(dt, false);
    lemma_filter_offline_sc(attrs3);
    assert(drop_type(attrs3) =~= dt);
    assert(seq![unavailable_attr()] + drop_type(attrs3) =~= seq![unavailable_attr()] + dt);
}

/// For a well-formed full presence element the first offline rewrite moves
/// the type attribute to the end of the tag; from the second application on
/// the output is a fixed point of the filter.
pub proof fn lemma_offline_stable_full(attrs: Seq<Attr>, body: Seq<char>)
    requires
        wf_attrs(attrs),
    ensures
        ({
            let o2 = filter_spec(
                filter_spec(full_presence(attrs, body), StealthMode::Offline),
                StealthMode::Offline,
            );
            filter_spec(o2, StealthMode::Offline) == o2
        }),
{
    lemma_filter_offline_full(attrs, body);
    lemma_drop_type_props(attrs);
    let dt = drop_type(attrs);
    let attrs3 = dt + seq![unavailable_attr()];
    lemma_rewritten_wf(dt, false);
    lemma_filter_offline_sc(attrs3);
    assert(drop_type(attrs3) =~= dt);
    let attrs4 = seq![unavailable_attr()] + dt;
    assert(seq![unavailable_attr()] + drop_type(attrs3) =~= attrs4);
    lemma_rewritten_wf(dt, true);
    lemma_filter_offline_sc(attrs4);
    assert(drop_type(attrs4) =~= dt);
    assert(seq![unavailable_attr()] + drop_type(attrs4) =~= attrs4);
}

} // verus!
