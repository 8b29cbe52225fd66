//! Character-sequence scanning primitives shared by the stanza framer and the
//! presence filter: leading-whitespace measurement, substring occurrence as a
//! specification, and a verified first-occurrence search.

use vstd::prelude::*;

verus! {

/// Whitespace as it appears between stanzas on the wire.
pub open spec fn is_ws_char(c: char) -> bool {
    c == ' ' || c == '\t' || c == '\n' || c == '\r'
}

/// Length of the longest all-whitespace prefix of `s`.
pub open spec fn ws_prefix_len(s: Seq<char>) -> int
    decreases s.len(),
{
    if s.len() == 0 || !is_ws_char(s[0]) {
        0
    } else {
        1 + ws_prefix_len(s.drop_first())
    }
}

pub proof fn lemma_ws_prefix_len(s: Seq<char>)
    ensures
        0 <= ws_prefix_len(s) <= s.len(),
        forall|k: int| 0 <= k < ws_prefix_len(s) ==> is_ws_char(s[k]),
        ws_prefix_len(s) < s.len() ==> !is_ws_char(s[ws_prefix_len(s)]),
    decreases s.len(),
{
    if s.len() == 0 || !is_ws_char(s[0]) {
    } else {
        lemma_ws_prefix_len(s.drop_first());
        assert forall|k: int| 0 <= k < ws_prefix_len(s) implies is_ws_char(s[k]) by {
            if k > 0 {
                assert(s.drop_first()[k - 1] == s[k]);
            }
        }
        if ws_prefix_len(s) < s.len() {
            assert(s.drop_first()[ws_prefix_len(s) - 1] == s[ws_prefix_len(s)]);
        }
    }
}

/// The characterization above pins `ws_prefix_len` down uniquely.
pub proof fn lemma_ws_prefix_len_is(s: Seq<char>, w: int)
    requires
        0 <= w <= s.len(),
        forall|k: int| 0 <= k < w ==> is_ws_char(s[k]),
        w < s.len() ==> !is_ws_char(s[w]),
    ensures
        ws_prefix_len(s) == w,
{
    lemma_ws_prefix_len(s);
    if ws_prefix_len(s) < w {
        assert(is_ws_char(s[ws_prefix_len(s)]));
    }
    if w < ws_prefix_len(s) {
        assert(is_ws_char(s[w]));
    }
}

/// `p` occurs in `s` starting at index `i`.
pub open spec fn match_at(s: Seq<char>, p: Seq<char>, i: int) -> bool {
    0 <= i && i + p.len() <= s.len() && s.subrange(i, i + p.len() as int) == p
}

/// `p` occurs somewhere in `s`.
pub open spec fn contains_seq(s: Seq<char>, p: Seq<char>) -> bool {
    exists|i: int| match_at(s, p, i)
}

/// `p` occurs nowhere in `s`.
pub open spec fn no_match(s: Seq<char>, p: Seq<char>) -> bool {
    forall|i: int| !match_at(s, p, i)
}

/// Index of the first occurrence of `p` in `s`, if any.
pub open spec fn first_match(s: Seq<char>, p: Seq<char>) -> Option<int>
    decreases s.len(),
{
    if match_at(s, p, 0) {
        Some(0int)
    } else if s.len() == 0 {
        None
    } else {
        match first_match(s.drop_first(), p) {
            Some(i) => Some(i + 1),
            None => None,
        }
    }
}

/// Each character inside an occurrence is the pattern's character.
pub proof fn lemma_match_char(s: Seq<char>, p: Seq<char>, i: int, k: int)
    requires
        match_at(s, p, i),
        0 <= k < p.len(),
    ensures
        s[i + k] == p[k],
{
    assert(s.subrange(i, i + p.len() as int)[k] == p[k]);
}

/// Character-by-character agreement gives an occurrence.
pub proof fn lemma_match_at_intro(s: Seq<char>, p: Seq<char>, i: int)
    requires
        0 <= i,
        i + p.len() <= s.len(),
        forall|k: int| 0 <= k < p.len() ==> s[i + k] == p[k],
    ensures
        match_at(s, p, i),
{
    assert(s.subrange(i, i + p.len() as int) =~= p);
}

/// Occurrences shift by one when the first character is dropped.
pub proof fn lemma_match_at_shift(s: Seq<char>, p: Seq<char>, j: int)
    requires
        s.len() > 0,
        0 <= j,
    ensures
        match_at(s.drop_first(), p, j) == match_at(s, p, j + 1),
{
    if j + 1 + p.len() <= s.len() {
        assert(s.drop_first().subrange(j, j + p.len() as int) =~= s.subrange(
            j + 1,
            j + 1 + p.len() as int,
        ));
    }
}

/// `first_match` returns the least occurrence index, or `None` when there is none.
pub proof fn lemma_first_match(s: Seq<char>, p: Seq<char>)
    ensures
        match first_match(s, p) {
            Some(i) => match_at(s, p, i) && (forall|j: int| 0 <= j < i ==> !match_at(s, p, j)),
            None => no_match(s, p),
        },
    decreases s.len(),
{
    if match_at(s, p, 0) {
    } else if s.len() == 0 {
        assert forall|j: int| !match_at(s, p, j) by {
            if match_at(s, p, j) {
                assert(j == 0);
            }
        }
    } else {
        lemma_first_match(s.drop_first(), p);
        match first_match(s.drop_first(), p) {
            Some(i) => {
                lemma_match_at_shift(s, p, i);
                assert forall|j: int| 0 <= j < i + 1 implies !match_at(s, p, j) by {
                    if j > 0 {
                        lemma_match_at_shift(s, p, j - 1);
                    }
                }
            },
            None => {
                assert forall|j: int| !match_at(s, p, j) by {
                    if match_at(s, p, j) && j > 0 {
                        lemma_match_at_shift(s, p, j - 1);
                    }
                }
            },
        }
    }
}

/// A least occurrence determines the result of `first_match`.
pub proof fn lemma_first_match_is(s: Seq<char>, p: Seq<char>, i: int)
    requires
        match_at(s, p, i),
        forall|j: int| 0 <= j < i ==> !match_at(s, p, j),
    ensures
        first_match(s, p) == Some(i),
{
    lemma_first_match(s, p);
    match first_match(s, p) {
        Some(n) => {
            if n < i {
                assert(!match_at(s, p, n));
            }
            if i < n {
                assert(!match_at(s, p, i));
            }
        },
        None => {
            assert(!match_at(s, p, i));
        },
    }
}

/// `no_match` determines that `first_match` finds nothing.
pub proof fn lemma_first_match_none(s: Seq<char>, p: Seq<char>)
    requires
        no_match(s, p),
    ensures
        first_match(s, p) is None,
{
    lemma_first_match(s, p);
    match first_match(s, p) {
        Some(n) => {
            assert(!match_at(s, p, n));
        },
        None => {},
    }
}

/// An occurrence in the left part of a concatenation is one in the whole.
pub proof fn lemma_match_concat_left(a: Seq<char>, b: Seq<char>, p: Seq<char>, i: int)
    requires
        match_at(a, p, i),
    ensures
        match_at(a + b, p, i),
{
    assert forall|k: int| 0 <= k < p.len() implies (a + b)[i + k] == p[k] by {
        lemma_match_char(a, p, i, k);
    }
    lemma_match_at_intro(a + b, p, i);
}

/// An occurrence in the right part of a concatenation is one in the whole.
pub proof fn lemma_match_concat_right(a: Seq<char>, b: Seq<char>, p: Seq<char>, i: int)
    requires
        match_at(b, p, i),
    ensures
        match_at(a + b, p, i + a.len()),
{
    assert forall|k: int| 0 <= k < p.len() implies (a + b)[i + a.len() + k] == p[k] by {
        lemma_match_char(b, p, i, k);
    }
    lemma_match_at_intro(a + b, p, i + a.len());
}

/// An occurrence in a concatenation lies in one part, or straddles the seam;
/// a straddling occurrence fixes the characters on both sides of the seam.
pub proof fn lemma_match_concat_cases(a: Seq<char>, b: Seq<char>, p: Seq<char>, i: int)
    requires
        match_at(a + b, p, i),
        p.len() > 0,
    ensures
        i + p.len() <= a.len() ==> match_at(a, p, i),
        i >= a.len() ==> match_at(b, p, i - a.len()),
        i < a.len() < i + p.len() ==> {
            &&& a.len() > 0
            &&& a[a.len() - 1] == p[a.len() - 1 - i]
            &&& b[0] == p[a.len() - i]
            &&& a[i] == p[0]
            &&& i > a.len() - p.len()
        },
{
    if i + p.len() <= a.len() {
        assert forall|k: int| 0 <= k < p.len() implies a[i + k] == p[k] by {
            lemma_match_char(a + b, p, i, k);
            assert((a + b)[i + k] == a[i + k]);
        }
        lemma_match_at_intro(a, p, i);
    } else if i >= a.len() {
        assert forall|k: int| 0 <= k < p.len() implies b[i - a.len() + k] == p[k] by {
            lemma_match_char(a + b, p, i, k);
            assert((a + b)[i + k] == b[i + k - a.len()]);
        }
        lemma_match_at_intro(b, p, i - a.len());
    } else {
        lemma_match_char(a + b, p, i, a.len() - 1 - i);
        lemma_match_char(a + b, p, i, a.len() - i);
        lemma_match_char(a + b, p, i, 0);
    }
}

/// An occurrence within a prefix of `s` is an occurrence in `s`.
pub proof fn lemma_match_take(s: Seq<char>, p: Seq<char>, i: int, j: int)
    requires
        0 <= i <= s.len(),
        match_at(s.take(i), p, j),
    ensures
        match_at(s, p, j),
{
    assert forall|k: int| 0 <= k < p.len() implies s[j + k] == p[k] by {
        lemma_match_char(s.take(i), p, j, k);
        assert(s.take(i)[j + k] == s[j + k]);
    }
    lemma_match_at_intro(s, p, j);
}

/// A prefix cut before the end of the first occurrence contains none.
pub proof fn lemma_first_match_take_none(s: Seq<char>, p: Seq<char>, q: int, i: int)
    requires
        p.len() > 0,
        first_match(s, p) == Some(q),
        0 <= i < q + p.len(),
        i <= s.len(),
    ensures
        first_match(s.take(i), p) is None,
{
    lemma_first_match(s, p);
    assert forall|j: int| !match_at(s.take(i), p, j) by {
        if match_at(s.take(i), p, j) {
            lemma_match_take(s, p, i, j);
            assert(j + p.len() <= i);
            assert(j < q);
        }
    }
    lemma_first_match_none(s.take(i), p);
}

/// Exact character-wise equality of two strings.
pub fn str_eq(a: &str, b: &str) -> (r: bool)
    ensures
        r == (a@ == b@),
{
    let an: usize = a.unicode_len();
    let bn: usize = b.unicode_len();
    if an != bn {
        return false;
    }
    let mut i: usize = 0;
    while i < an
        invariant
            0 <= i <= an,
            an == a@.len(),
            an == b@.len(),
            forall|k: int| 0 <= k < i ==> a@[k] == b@[k],
        decreases an - i,
    {
        if a.get_char(i) != b.get_char(i) {
            return false;
        }
        i = i + 1;
    }
    proof {
        assert(a@ =~= b@);
    }
    true
}

/// First occurrence of `p` in `s`, by character index.
pub fn find_sub(s: &str, p: &str) -> (r: Option<usize>)
    ensures
        match r {
            Some(i) => first_match(s@, p@) == Some(i as int),
            None => first_match(s@, p@) is None,
        },
{
    let n: usize = s.unicode_len();
    let m: usize = p.unicode_len();
    if m > n {
        proof {
            assert forall|j: int| !match_at(s@, p@, j) by {}
            lemma_first_match_none(s@, p@);
        }
        return None;
    }
    if m == 0 {
        proof {
            lemma_match_at_intro(s@, p@, 0);
            lemma_first_match_is(s@, p@, 0);
        }
        return Some(0);
    }
    let mut i: usize = 0;
    while i <= n - m
        invariant
            0 <= i <= n - m + 1,
            0 < m <= n,
            n == s@.len(),
            m == p@.len(),
            forall|j: int| 0 <= j < i ==> !match_at(s@, p@, j),
        decreases n - i,
    {
        let mut j: usize = 0;
        let mut hit: bool = true;
        while j < m
            invariant
                0 <= j <= m,
                i + m <= n,
                n == s@.len(),
                m == p@.len(),
                hit ==> forall|k: int| 0 <= k < j ==> s@[i + k] == p@[k],
                !hit ==> !match_at(s@, p@, i as int),
            decreases m - j,
        {
            if s.get_char(i + j) != p.get_char(j) {
                proof {
                    if match_at(s@, p@, i as int) {
                        lemma_match_char(s@, p@, i as int, j as int);
                    }
                }
                hit = false;
                j = m;
            } else {
                j = j + 1;
            }
        }
        if hit {
            proof {
                lemma_match_at_intro(s@, p@, i as int);
                lemma_first_match_is(s@, p@, i as int);
            }
            return Some(i);
        }
        i = i + 1;
    }
    proof {
        assert forall|j: int| !match_at(s@, p@, j) by {
            if match_at(s@, p@, j) {
                assert(j + m <= n);
                assert(j < i);
            }
        }
        lemma_first_match_none(s@, p@);
    }
    None
}

/// Whether `p` occurs in `s`.
pub fn contains_sub(s: &str, p: &str) -> (r: bool)
    ensures
        r == contains_seq(s@, p@),
{
    let found = find_sub(s, p);
    proof {
        lemma_first_match(s@, p@);
    }
    match found {
        Some(_) => true,
        None => false,
    }
}

/// Whether `p` is a prefix of `s`.
pub fn has_prefix(s: &str, p: &str) -> (r: bool)
    ensures
        r == match_at(s@, p@, 0),
{
    let n: usize = s.unicode_len();
    let m: usize = p.unicode_len();
    if m > n {
        return false;
    }
    let mut j: usize = 0;
    while j < m
        invariant
            0 <= j <= m,
            m <= n,
            n == s@.len(),
            m == p@.len(),
            forall|k: int| 0 <= k < j ==> s@[k] == p@[k],
        decreases m - j,
    {
        if s.get_char(j) != p.get_char(j) {
            proof {
                if match_at(s@, p@, 0) {
                    lemma_match_char(s@, p@, 0, j as int);
                }
            }
            return false;
        }
        j = j + 1;
    }
    proof {
        lemma_match_at_intro(s@, p@, 0);
    }
    true
}

/// Whether `p` is a suffix of `s`.
pub fn has_suffix(s: &str, p: &str) -> (r: bool)
    ensures
        r == match_at(s@, p@, s@.len() - p@.len()),
{
    let n: usize = s.unicode_len();
    let m: usize = p.unicode_len();
    if m > n {
        return false;
    }
    let mut j: usize = 0;
    while j < m
        invariant
            0 <= j <= m,
            m <= n,
            n == s@.len(),
            m == p@.len(),
            forall|k: int| 0 <= k < j ==> s@[n - m + k] == p@[k],
        decreases m - j,
    {
        if s.get_char(n - m + j) != p.get_char(j) {
            proof {
                if match_at(s@, p@, n - m) {
                    lemma_match_char(s@, p@, n - m, j as int);
                }
            }
            return false;
        }
        j = j + 1;
    }
    proof {
        lemma_match_at_intro(s@, p@, n - m);
    }
    true
}

/// Relies on String::push: appends exactly the one character.
#[verifier::external_body]
pub fn push_char(s: &mut String, c: char)
    ensures
        final(s)@ == old(s)@ + seq![c],
{
    s.push(c);
}

/// The decimal digit character for a value below ten.
pub open spec fn digit_char(d: int) -> char {
    ((d + 48) as u8) as char
}

/// The decimal rendering of a natural number.
pub open spec fn dec_spec(n: int) -> Seq<char>
    decreases n,
{
    if n < 10 {
        seq![digit_char(n)]
    } else {
        dec_spec(n / 10) + seq![digit_char(n % 10)]
    }
}

/// Render a number in decimal.
pub fn u16_to_string(n: u16) -> (r: String)
    ensures
        r@ == dec_spec(n as int),
{
    let mut digits: Vec<char> = Vec::new();
    let mut rest: u16 = n;
    let mut done: bool = false;
    while !done
        invariant
            !done ==> dec_spec(n as int) == dec_spec(rest as int) + digits@.reverse(),
            done ==> dec_spec(n as int) == digits@.reverse(),
            done ==> digits@.len() > 0,
        decreases rest, if done {
            0int
        } else {
            1int
        },
    {
        let d: u16 = rest % 10;
        let c: char = (d as u8 + 48) as char;
        proof {
            assert(c == digit_char(d as int));
        }
        digits.push(c);
        if rest < 10 {
            done = true;
            proof {
                assert(dec_spec(rest as int) == seq![digit_char(rest as int)]);
                assert(dec_spec(rest as int) + digits@.drop_last().reverse() =~= digits@.reverse());
            }
        } else {
            let next: u16 = rest / 10;
            proof {
                assert(dec_spec(rest as int) == dec_spec(rest as int / 10) + seq![
                    digit_char(rest as int % 10),
                ]);
                assert((dec_spec(next as int) + seq![digit_char(d as int)])
                    + digits@.drop_last().reverse() =~= dec_spec(next as int) + digits@.reverse());
            }
            rest = next;
        }
    }
    let mut r = String::new();
    let mut i: usize = digits.len();
    while i > 0
        invariant
            0 <= i <= digits@.len(),
            dec_spec(n as int) == digits@.reverse(),
            r@ == digits@.reverse().take(digits@.len() - i),
        decreases i,
    {
        push_char(&mut r, digits[i - 1]);
        proof {
            assert(digits@.reverse()[digits@.len() - i] == digits@[i - 1]);
            assert(digits@.reverse().take(digits@.len() - (i - 1)) =~= digits@.reverse().take(
                digits@.len() - i,
            ) + seq![digits@[i - 1]]);
        }
        i = i - 1;
    }
    proof {
        assert(digits@.reverse().take(digits@.len() as int) =~= digits@.reverse());
    }
    r
}

/// Count of leading whitespace characters.
pub fn ws_count(s: &str) -> (r: usize)
    ensures
        r == ws_prefix_len(s@),
{
    let n: usize = s.unicode_len();
    let mut i: usize = 0;
    while i < n
        invariant
            0 <= i <= n,
            n == s@.len(),
            forall|k: int| 0 <= k < i ==> is_ws_char(s@[k]),
        decreases n - i,
    {
        let c = s.get_char(i);
        if !(c == ' ' || c == '\t' || c == '\n' || c == '\r') {
            proof {
                lemma_ws_prefix_len_is(s@, i as int);
            }
            return i;
        }
        i = i + 1;
    }
    proof {
        lemma_ws_prefix_len_is(s@, n as int);
    }
    n
}

} // verus!
