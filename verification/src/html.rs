//! Recognition of start tags in an HTML byte stream.
//!
//! The rewriter needs no general parser: the host documents are well formed
//! and only four shallow element shapes matter. This module gives the
//! grammar of one start tag — `<name attr attr=value attr="value" ...>` —
//! with tag and attribute names folded to ASCII lowercase, and values taken
//! verbatim from the quotes (or unquoted up to a space or `>`).

use vstd::prelude::*;
use vstd::slice::slice_subrange;
use crate::text::{bytes_eq, find_byte, find_byte_at, lower_byte, lower_byte_exec, push_bytes, to_lower};

verus! {

/// Whether `b` is an ASCII whitespace byte.
pub open spec fn is_space(b: u8) -> bool {
    b == 32 || b == 9 || b == 10 || b == 13
}

/// Whether `b` is an ASCII letter.
pub open spec fn is_alpha(b: u8) -> bool {
    (('a' as u8) <= b && b <= ('z' as u8)) || (('A' as u8) <= b && b <= ('Z' as u8))
}

/// Whether `b` ends an attribute name.
pub open spec fn is_name_stop(b: u8) -> bool {
    is_space(b) || b == ('=' as u8) || b == ('>' as u8) || b == ('/' as u8)
}

/// Whether `b` ends an unquoted attribute value.
pub open spec fn is_uval_stop(b: u8) -> bool {
    is_space(b) || b == ('>' as u8)
}

/// The end of the run of whitespace starting at `i`.
pub open spec fn space_end(s: Seq<u8>, i: int) -> int
    decreases s.len() - i,
{
    if i < 0 || i >= s.len() || !is_space(s[i]) {
        i
    } else {
        space_end(s, i + 1)
    }
}

/// The end of the run of letters starting at `i`.
pub open spec fn alpha_end(s: Seq<u8>, i: int) -> int
    decreases s.len() - i,
{
    if i < 0 || i >= s.len() || !is_alpha(s[i]) {
        i
    } else {
        alpha_end(s, i + 1)
    }
}

/// The end of the attribute name starting at `i`.
pub open spec fn aname_end(s: Seq<u8>, i: int) -> int
    decreases s.len() - i,
{
    if i < 0 || i >= s.len() || is_name_stop(s[i]) {
        i
    } else {
        aname_end(s, i + 1)
    }
}

/// The end of the unquoted attribute value starting at `i`.
pub open spec fn uval_end(s: Seq<u8>, i: int) -> int
    decreases s.len() - i,
{
    if i < 0 || i >= s.len() || is_uval_stop(s[i]) {
        i
    } else {
        uval_end(s, i + 1)
    }
}

/// The run ends stay between `i` and the length.
pub proof fn lemma_run_bounds(s: Seq<u8>, i: int)
    requires
        0 <= i <= s.len(),
    ensures
        i <= space_end(s, i) <= s.len(),
        i <= alpha_end(s, i) <= s.len(),
        i <= aname_end(s, i) <= s.len(),
        i <= uval_end(s, i) <= s.len(),
    decreases s.len() - i,
{
    if i < s.len() {
        lemma_run_bounds(s, i + 1);
    }
}

/// One attribute, name folded to lowercase, value verbatim.
pub ghost struct AttrV {
    pub name: Seq<u8>,
    pub value: Seq<u8>,
}

/// One parsed start tag, name folded to lowercase.
pub ghost struct TagV {
    pub name: Seq<u8>,
    pub attrs: Seq<AttrV>,
}

/// Parse one attribute at `i`: a nonempty name, then optionally `=` and a
/// value, quoted with `"` or `'` (ending at the matching quote; `None` when
/// it never closes) or unquoted up to a space or `>`.
pub open spec fn parse_attr(s: Seq<u8>, i: int) -> Option<(AttrV, int)> {
    let ne = aname_end(s, i);
    if ne == i {
        None
    } else {
        let name = to_lower(s.subrange(i, ne));
        if ne < s.len() && s[ne] == ('=' as u8) {
            if ne + 1 < s.len() && (s[ne + 1] == ('"' as u8) || s[ne + 1] == (39u8)) {
                match find_byte_at(s, s[ne + 1], ne + 2) {
                    Some(c) => Some((AttrV { name, value: s.subrange(ne + 2, c) }, c + 1)),
                    None => None,
                }
            } else {
                let ve = uval_end(s, ne + 1);
                Some((AttrV { name, value: s.subrange(ne + 1, ve) }, ve))
            }
        } else {
            Some((AttrV { name, value: Seq::empty() }, ne))
        }
    }
}

/// Where `find_byte_at` finds, it finds within bounds.
pub proof fn lemma_find_byte_at_bounds(s: Seq<u8>, b: u8, from: int)
    ensures
        match find_byte_at(s, b, from) {
            Some(j) => from <= j < s.len(),
            None => true,
        },
    decreases s.len() - from,
{
    if 0 <= from && from < s.len() && s[from] != b {
        lemma_find_byte_at_bounds(s, b, from + 1);
    }
}

/// A parsed attribute moves the position forward and stays in bounds.
pub proof fn lemma_parse_attr_bounds(s: Seq<u8>, i: int)
    ensures
        match parse_attr(s, i) {
            Some((_a, k)) => i < k <= s.len() && 0 <= i,
            None => true,
        },
{
    let ne = aname_end(s, i);
    if ne != i {
        assert(0 <= i <= s.len()) by {
            if i < 0 || i > s.len() {
                assert(aname_end(s, i) == i);
            }
        }
        lemma_run_bounds(s, i);
        if ne < s.len() && s[ne] == ('=' as u8) {
            if ne + 1 < s.len() && (s[ne + 1] == ('"' as u8) || s[ne + 1] == (39u8)) {
                lemma_find_byte_at_bounds(s, s[ne + 1], ne + 2);
            } else {
                lemma_run_bounds(s, ne + 1);
            }
        }
    }
}

/// Parse the attribute list and closing of a start tag, from just after
/// the tag name: whitespace-separated attributes until `>` or `/>`.
/// The result holds the attributes and the position just past the `>`.
pub open spec fn parse_attrs(s: Seq<u8>, i: int) -> Option<(Seq<AttrV>, int)>
    decreases s.len() - i,
    when true
    via parse_attrs_decreases
{
    let j = space_end(s, i);
    if j >= s.len() {
        None
    } else if s[j] == ('>' as u8) {
        Some((Seq::empty(), j + 1))
    } else if s[j] == ('/' as u8) {
        if j + 1 < s.len() && s[j + 1] == ('>' as u8) {
            Some((Seq::empty(), j + 2))
        } else {
            None
        }
    } else {
        match parse_attr(s, j) {
            None => None,
            Some((a, k)) => match parse_attrs(s, k) {
                None => None,
                Some((rest, end)) => Some((seq![a] + rest, end)),
            },
        }
    }
}

#[via_fn]
proof fn parse_attrs_decreases(s: Seq<u8>, i: int) {
    let j = space_end(s, i);
    assert(j >= i) by {
        if i < 0 || i > s.len() {
            assert(space_end(s, i) == i);
        } else {
            lemma_run_bounds(s, i);
        }
    }
    if j < s.len() && s[j] != ('>' as u8) && s[j] != ('/' as u8) {
        lemma_parse_attr_bounds(s, j);
    }
}

/// A parsed attribute list moves the position forward and stays in bounds.
pub proof fn lemma_parse_attrs_bounds(s: Seq<u8>, i: int)
    ensures
        match parse_attrs(s, i) {
            Some((_attrs, end)) => i < end <= s.len(),
            None => true,
        },
    decreases s.len() - i,
{
    let j = space_end(s, i);
    assert(j >= i) by {
        if i < 0 || i > s.len() {
            assert(space_end(s, i) == i);
        } else {
            lemma_run_bounds(s, i);
        }
    }
    if j < s.len() {
        assert(j <= s.len()) by {
            if i < 0 || i > s.len() {
                assert(space_end(s, i) == i);
            } else {
                lemma_run_bounds(s, i);
            }
        }
        if s[j] == ('>' as u8) {
        } else if s[j] == ('/' as u8) {
        } else {
            match parse_attr(s, j) {
                None => {},
                Some((a, k)) => {
                    lemma_parse_attr_bounds(s, j);
                    lemma_parse_attrs_bounds(s, k);
                },
            }
        }
    }
}

/// Parse a start tag at `i` (which must hold `<` followed by a letter):
/// the lowercased name and the attribute list. The position in the result
/// is just past the closing `>`.
pub open spec fn parse_tag(s: Seq<u8>, i: int) -> Option<(TagV, int)> {
    if !(0 <= i && i + 1 < s.len()) || s[i] != ('<' as u8) || !is_alpha(s[i + 1]) {
        None
    } else {
        let ne = alpha_end(s, i + 1);
        let name = to_lower(s.subrange(i + 1, ne));
        match parse_attrs(s, ne) {
            None => None,
            Some((attrs, end)) => Some((TagV { name, attrs }, end)),
        }
    }
}

/// A parsed tag ends after its opening byte and within the input.
pub proof fn lemma_parse_tag_bounds(s: Seq<u8>, i: int)
    ensures
        match parse_tag(s, i) {
            Some((_t, end)) => i + 1 < end <= s.len() && 0 <= i,
            None => true,
        },
{
    if 0 <= i && i + 1 < s.len() && s[i] == ('<' as u8) && is_alpha(s[i + 1]) {
        lemma_run_bounds(s, i + 1);
        let ne = alpha_end(s, i + 1);
        lemma_parse_attrs_bounds(s, ne);
    }
}

/// The value of the first attribute called `name` (already lowercase).
pub open spec fn attr_first(attrs: Seq<AttrV>, name: Seq<u8>) -> Option<Seq<u8>>
    decreases attrs.len(),
{
    if attrs.len() == 0 {
        None
    } else if attrs[0].name == name {
        Some(attrs[0].value)
    } else {
        attr_first(attrs.drop_first(), name)
    }
}

/// One attribute as parsed.
pub struct Attr {
    pub name: Vec<u8>,
    pub value: Vec<u8>,
}

impl View for Attr {
    type V = AttrV;

    open spec fn view(&self) -> AttrV {
        AttrV { name: self.name@, value: self.value@ }
    }
}

/// The attribute sequence that a parsed vector denotes.
pub open spec fn attrs_seq(v: Seq<Attr>) -> Seq<AttrV> {
    Seq::new(v.len(), |i: int| v[i]@)
}

/// One parsed start tag.
pub struct Tag {
    pub name: Vec<u8>,
    pub attrs: Vec<Attr>,
}

impl View for Tag {
    type V = TagV;

    open spec fn view(&self) -> TagV {
        TagV { name: self.name@, attrs: attrs_seq(self.attrs@) }
    }
}

/// Copy `s[a..b]`.
pub fn copy_range(s: &[u8], a: usize, b: usize) -> (r: Vec<u8>)
    requires
        a <= b <= s@.len(),
    ensures
        r@ == s@.subrange(a as int, b as int),
{
    let mut out: Vec<u8> = Vec::new();
    push_bytes(&mut out, slice_subrange(s, a, b));
    assert(out@ =~= s@.subrange(a as int, b as int));
    out
}

/// Copy `s[a..b]` folded to ASCII lowercase.
fn copy_lower_range(s: &[u8], a: usize, b: usize) -> (r: Vec<u8>)
    requires
        a <= b <= s@.len(),
    ensures
        r@ == to_lower(s@.subrange(a as int, b as int)),
{
    let mut out: Vec<u8> = Vec::new();
    let mut i: usize = a;
    while i < b
        invariant
            a <= i <= b <= s@.len(),
            out@.len() == i - a,
            forall|j: int| 0 <= j < out@.len() ==> out@[j] == lower_byte(s@[a + j]),
        decreases b - i,
    {
        out.push(lower_byte_exec(s[i]));
        i += 1;
    }
    assert(out@ =~= to_lower(s@.subrange(a as int, b as int)));
    out
}

/// The end of the run of whitespace starting at `i`.
pub fn space_end_exec(s: &[u8], i: usize) -> (r: usize)
    requires
        i <= s@.len(),
    ensures
        r == space_end(s@, i as int),
        i <= r <= s@.len(),
{
    let mut j: usize = i;
    while j < s.len() && (s[j] == 32 || s[j] == 9 || s[j] == 10 || s[j] == 13)
        invariant
            i <= j <= s@.len(),
            space_end(s@, i as int) == space_end(s@, j as int),
        decreases s@.len() - j,
    {
        assert(space_end(s@, j as int) == space_end(s@, j + 1));
        j += 1;
    }
    j
}

/// The end of the run of letters starting at `i`.
fn alpha_end_exec(s: &[u8], i: usize) -> (r: usize)
    requires
        i <= s@.len(),
    ensures
        r == alpha_end(s@, i as int),
        i <= r <= s@.len(),
{
    let mut j: usize = i;
    while j < s.len() && ((('a' as u8) <= s[j] && s[j] <= ('z' as u8)) || (('A' as u8) <= s[j]
        && s[j] <= ('Z' as u8)))
        invariant
            i <= j <= s@.len(),
            alpha_end(s@, i as int) == alpha_end(s@, j as int),
        decreases s@.len() - j,
    {
        assert(alpha_end(s@, j as int) == alpha_end(s@, j + 1));
        j += 1;
    }
    j
}

/// Whether `b` ends an attribute name.
fn is_name_stop_exec(b: u8) -> (r: bool)
    ensures
        r == is_name_stop(b),
{
    b == 32 || b == 9 || b == 10 || b == 13 || b == ('=' as u8) || b == ('>' as u8) || b == (
    '/' as u8)
}

/// The end of the attribute name starting at `i`.
fn aname_end_exec(s: &[u8], i: usize) -> (r: usize)
    requires
        i <= s@.len(),
    ensures
        r == aname_end(s@, i as int),
        i <= r <= s@.len(),
{
    let mut j: usize = i;
    loop
        invariant
            i <= j <= s@.len(),
            aname_end(s@, i as int) == aname_end(s@, j as int),
        decreases s@.len() - j,
    {
        if j >= s.len() || is_name_stop_exec(s[j]) {
            return j;
        }
        assert(aname_end(s@, j as int) == aname_end(s@, j + 1));
        j += 1;
    }
}

/// The end of the unquoted attribute value starting at `i`.
fn uval_end_exec(s: &[u8], i: usize) -> (r: usize)
    requires
        i <= s@.len(),
    ensures
        r == uval_end(s@, i as int),
        i <= r <= s@.len(),
{
    let mut j: usize = i;
    loop
        invariant
            i <= j <= s@.len(),
            uval_end(s@, i as int) == uval_end(s@, j as int),
        decreases s@.len() - j,
    {
        if j >= s.len() || s[j] == 32 || s[j] == 9 || s[j] == 10 || s[j] == 13 || s[j] == (
        '>' as u8) {
            return j;
        }
        assert(uval_end(s@, j as int) == uval_end(s@, j + 1));
        j += 1;
    }
}

/// Parse one attribute at `i`.
fn parse_attr_exec(s: &[u8], i: usize) -> (r: Option<(Attr, usize)>)
    requires
        i <= s@.len(),
    ensures
        match r {
            Some((a, k)) => {
                &&& parse_attr(s@, i as int) == Some((a@, k as int))
                &&& i < k <= s@.len()
            },
            None => parse_attr(s@, i as int) is None,
        },
{
    proof {
        lemma_parse_attr_bounds(s@, i as int);
    }
    let ne = aname_end_exec(s, i);
    if ne == i {
        return None;
    }
    let name = copy_lower_range(s, i, ne);
    if ne < s.len() && s[ne] == ('=' as u8) {
        if ne + 1 < s.len() && (s[ne + 1] == ('"' as u8) || s[ne + 1] == 39u8) {
            match find_byte(s, s[ne + 1], ne + 2) {
                Some(c) => {
                    let value = copy_range(s, ne + 2, c);
                    Some((Attr { name, value }, c + 1))
                },
                None => None,
            }
        } else {
            let ve = uval_end_exec(s, ne + 1);
            let value = copy_range(s, ne + 1, ve);
            Some((Attr { name, value }, ve))
        }
    } else {
        Some((Attr { name, value: Vec::new() }, ne))
    }
}

/// Parse the attribute list and closing of a start tag from `i`.
fn parse_attrs_exec(s: &[u8], i: usize) -> (r: Option<(Vec<Attr>, usize)>)
    requires
        i <= s@.len(),
    ensures
        match r {
            Some((attrs, end)) => {
                &&& parse_attrs(s@, i as int) == Some((attrs_seq(attrs@), end as int))
                &&& i < end <= s@.len()
            },
            None => parse_attrs(s@, i as int) is None,
        },
{
    let ghost i0 = i as int;
    let mut acc: Vec<Attr> = Vec::new();
    let mut cur: usize = i;
    loop
        invariant
            i0 == i as int,
            i <= cur <= s@.len(),
            parse_attrs(s@, i0) == match parse_attrs(s@, cur as int) {
                Some((rest, end)) => Some((attrs_seq(acc@) + rest, end)),
                None => None::<(Seq<AttrV>, int)>,
            },
        decreases s@.len() - cur,
    {
        let j = space_end_exec(s, cur);
        if j >= s.len() {
            assert(parse_attrs(s@, cur as int) is None);
            return None;
        }
        if s[j] == ('>' as u8) {
            assert(parse_attrs(s@, cur as int) == Some((Seq::<AttrV>::empty(), j + 1)));
            assert(attrs_seq(acc@) + Seq::<AttrV>::empty() =~= attrs_seq(acc@));
            proof {
                lemma_parse_attrs_bounds(s@, i0);
            }
            return Some((acc, j + 1));
        }
        if s[j] == ('/' as u8) {
            if j + 1 < s.len() && s[j + 1] == ('>' as u8) {
                assert(parse_attrs(s@, cur as int) == Some((Seq::<AttrV>::empty(), j + 2)));
                assert(attrs_seq(acc@) + Seq::<AttrV>::empty() =~= attrs_seq(acc@));
                proof {
                    lemma_parse_attrs_bounds(s@, i0);
                }
                return Some((acc, j + 2));
            }
            assert(parse_attrs(s@, cur as int) is None);
            return None;
        }
        let parsed = parse_attr_exec(s, j);
        match parsed {
            None => {
                assert(parse_attrs(s@, cur as int) is None);
                return None;
            },
            Some((a, k)) => {
                let ghost acc_before = attrs_seq(acc@);
                acc.push(a);
                proof {
                    assert(attrs_seq(acc@) =~= acc_before.push(a@));
                    assert(parse_attrs(s@, cur as int) == match parse_attrs(s@, k as int) {
                        Some((rest, end)) => Some((seq![a@] + rest, end)),
                        None => None::<(Seq<AttrV>, int)>,
                    });
                    if parse_attrs(s@, k as int) is Some {
                        let (rest, end) = parse_attrs(s@, k as int)->Some_0;
                        assert(acc_before + (seq![a@] + rest) =~= (acc_before.push(a@)) + rest);
                    }
                }
                cur = k;
            },
        }
    }
}

/// Parse a start tag at `i`; `None` when `i` does not open a well-formed
/// start tag, in which case the byte is ordinary text.
pub fn parse_tag_exec(s: &[u8], i: usize) -> (r: Option<(Tag, usize)>)
    requires
        i < s@.len(),
    ensures
        match r {
            Some((t, end)) => {
                &&& parse_tag(s@, i as int) == Some((t@, end as int))
                &&& i + 1 < end <= s@.len()
            },
            None => parse_tag(s@, i as int) is None,
        },
{
    if s[i] != ('<' as u8) {
        return None;
    }
    if i + 1 >= s.len() {
        return None;
    }
    let b = s[i + 1];
    if !((('a' as u8) <= b && b <= ('z' as u8)) || (('A' as u8) <= b && b <= ('Z' as u8))) {
        return None;
    }
    let ne = alpha_end_exec(s, i + 1);
    let name = copy_lower_range(s, i + 1, ne);
    match parse_attrs_exec(s, ne) {
        None => None,
        Some((attrs, end)) => Some((Tag { name, attrs }, end)),
    }
}

/// The value of the first attribute called `name` (lowercase), if any.
pub fn attr_first_exec<'a>(attrs: &'a Vec<Attr>, name: &[u8]) -> (r: Option<&'a Vec<u8>>)
    ensures
        match r {
            Some(v) => attr_first(attrs_seq(attrs@), name@) == Some(v@),
            None => attr_first(attrs_seq(attrs@), name@) is None,
        },
{
    let mut i: usize = 0;
    assert(attrs_seq(attrs@).subrange(0, attrs@.len() as int) =~= attrs_seq(attrs@));
    loop
        invariant
            i <= attrs@.len(),
            attr_first(attrs_seq(attrs@), name@) == attr_first(
                attrs_seq(attrs@).subrange(i as int, attrs@.len() as int),
                name@,
            ),
        decreases attrs@.len() - i,
    {
        let ghost tail = attrs_seq(attrs@).subrange(i as int, attrs@.len() as int);
        if i >= attrs.len() {
            assert(tail.len() == 0);
            return None;
        }
        assert(tail[0] == attrs@[i as int]@);
        if bytes_eq(attrs[i].name.as_slice(), name) {
            return Some(&attrs[i].value);
        }
        assert(tail.drop_first() =~= attrs_seq(attrs@).subrange(i + 1, attrs@.len() as int));
        i += 1;
    }
}

} // verus!
