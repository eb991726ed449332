//! The per-element transforms of the rewriter: the replacement markup of
//! each recognized element shape, as byte text.

use vstd::prelude::*;
use crate::html::{Attr, AttrV};
use crate::text::{bytes_eq, lemma_concat_assoc, push_bytes};

verus! {

broadcast use lemma_concat_assoc;

/// `link`
pub open spec fn lit_link() -> Seq<u8> {
    seq![('l' as u8), ('i' as u8), ('n' as u8), ('k' as u8)]
}

/// `link`
pub fn link_vec() -> (r: Vec<u8>)
    ensures
        r@ == lit_link(),
{
    let v: Vec<u8> = vec![('l' as u8), ('i' as u8), ('n' as u8), ('k' as u8)];
    assert(v@ =~= lit_link());
    v
}

/// `img`
pub open spec fn lit_img() -> Seq<u8> {
    seq![('i' as u8), ('m' as u8), ('g' as u8)]
}

/// `img`
pub fn img_vec() -> (r: Vec<u8>)
    ensures
        r@ == lit_img(),
{
    let v: Vec<u8> = vec![('i' as u8), ('m' as u8), ('g' as u8)];
    assert(v@ =~= lit_img());
    v
}

/// `i`
pub open spec fn lit_i_tag() -> Seq<u8> {
    seq![('i' as u8)]
}

/// `i`
pub fn i_tag_vec() -> (r: Vec<u8>)
    ensures
        r@ == lit_i_tag(),
{
    let v: Vec<u8> = vec![('i' as u8)];
    assert(v@ =~= lit_i_tag());
    v
}

/// `script`
pub open spec fn lit_script() -> Seq<u8> {
    seq![('s' as u8), ('c' as u8), ('r' as u8), ('i' as u8), ('p' as u8), ('t' as u8)]
}

/// `script`
pub fn script_vec() -> (r: Vec<u8>)
    ensures
        r@ == lit_script(),
{
    let v: Vec<u8> = vec![('s' as u8), ('c' as u8), ('r' as u8), ('i' as u8), ('p' as u8), ('t' as u8)];
    assert(v@ =~= lit_script());
    v
}

/// `style`
pub open spec fn lit_style() -> Seq<u8> {
    seq![('s' as u8), ('t' as u8), ('y' as u8), ('l' as u8), ('e' as u8)]
}

/// `style`
pub fn style_vec() -> (r: Vec<u8>)
    ensures
        r@ == lit_style(),
{
    let v: Vec<u8> = vec![('s' as u8), ('t' as u8), ('y' as u8), ('l' as u8), ('e' as u8)];
    assert(v@ =~= lit_style());
    v
}

/// `rel`
pub open spec fn lit_rel() -> Seq<u8> {
    seq![('r' as u8), ('e' as u8), ('l' as u8)]
}

/// `rel`
pub fn rel_vec() -> (r: Vec<u8>)
    ensures
        r@ == lit_rel(),
{
    let v: Vec<u8> = vec![('r' as u8), ('e' as u8), ('l' as u8)];
    assert(v@ =~= lit_rel());
    v
}

/// `href`
pub open spec fn lit_href() -> Seq<u8> {
    seq![('h' as u8), ('r' as u8), ('e' as u8), ('f' as u8)]
}

/// `href`
pub fn href_vec() -> (r: Vec<u8>)
    ensures
        r@ == lit_href(),
{
    let v: Vec<u8> = vec![('h' as u8), ('r' as u8), ('e' as u8), ('f' as u8)];
    assert(v@ =~= lit_href());
    v
}

/// `src`
pub open spec fn lit_src() -> Seq<u8> {
    seq![('s' as u8), ('r' as u8), ('c' as u8)]
}

/// `src`
pub fn src_vec() -> (r: Vec<u8>)
    ensures
        r@ == lit_src(),
{
    let v: Vec<u8> = vec![('s' as u8), ('r' as u8), ('c' as u8)];
    assert(v@ =~= lit_src());
    v
}

/// `class`
pub open spec fn lit_class() -> Seq<u8> {
    seq![('c' as u8), ('l' as u8), ('a' as u8), ('s' as u8), ('s' as u8)]
}

/// `class`
pub fn class_vec() -> (r: Vec<u8>)
    ensures
        r@ == lit_class(),
{
    let v: Vec<u8> = vec![('c' as u8), ('l' as u8), ('a' as u8), ('s' as u8), ('s' as u8)];
    assert(v@ =~= lit_class());
    v
}

/// `stylesheet`
pub open spec fn lit_stylesheet() -> Seq<u8> {
    seq![('s' as u8), ('t' as u8), ('y' as u8), ('l' as u8), ('e' as u8), ('s' as u8), ('h' as u8), ('e' as u8), ('e' as u8), ('t' as u8)]
}

/// `stylesheet`
pub fn stylesheet_vec() -> (r: Vec<u8>)
    ensures
        r@ == lit_stylesheet(),
{
    let v: Vec<u8> = vec![('s' as u8), ('t' as u8), ('y' as u8), ('l' as u8), ('e' as u8), ('s' as u8), ('h' as u8), ('e' as u8), ('e' as u8), ('t' as u8)];
    assert(v@ =~= lit_stylesheet());
    v
}

/// `srcset`
pub open spec fn lit_srcset() -> Seq<u8> {
    seq![('s' as u8), ('r' as u8), ('c' as u8), ('s' as u8), ('e' as u8), ('t' as u8)]
}

/// `srcset`
pub fn srcset_vec() -> (r: Vec<u8>)
    ensures
        r@ == lit_srcset(),
{
    let v: Vec<u8> = vec![('s' as u8), ('r' as u8), ('c' as u8), ('s' as u8), ('e' as u8), ('t' as u8)];
    assert(v@ =~= lit_srcset());
    v
}

/// `data-thumbhash`
pub open spec fn lit_data_thumbhash() -> Seq<u8> {
    seq![('d' as u8), ('a' as u8), ('t' as u8), ('a' as u8), ('-' as u8), ('t' as u8), ('h' as u8), ('u' as u8), ('m' as u8), ('b' as u8), ('h' as u8), ('a' as u8), ('s' as u8), ('h' as u8)]
}

/// `data-thumbhash`
pub fn data_thumbhash_vec() -> (r: Vec<u8>)
    ensures
        r@ == lit_data_thumbhash(),
{
    let v: Vec<u8> = vec![('d' as u8), ('a' as u8), ('t' as u8), ('a' as u8), ('-' as u8), ('t' as u8), ('h' as u8), ('u' as u8), ('m' as u8), ('b' as u8), ('h' as u8), ('a' as u8), ('s' as u8), ('h' as u8)];
    assert(v@ =~= lit_data_thumbhash());
    v
}

/// `<style>`
pub open spec fn lit_style_open() -> Seq<u8> {
    seq![('<' as u8), ('s' as u8), ('t' as u8), ('y' as u8), ('l' as u8), ('e' as u8), ('>' as u8)]
}

/// `<style>`
pub fn style_open_vec() -> (r: Vec<u8>)
    ensures
        r@ == lit_style_open(),
{
    let v: Vec<u8> = vec![('<' as u8), ('s' as u8), ('t' as u8), ('y' as u8), ('l' as u8), ('e' as u8), ('>' as u8)];
    assert(v@ =~= lit_style_open());
    v
}

/// `</style>`
pub open spec fn lit_style_close() -> Seq<u8> {
    seq![('<' as u8), ('/' as u8), ('s' as u8), ('t' as u8), ('y' as u8), ('l' as u8), ('e' as u8), ('>' as u8)]
}

/// `</style>`
pub fn style_close_vec() -> (r: Vec<u8>)
    ensures
        r@ == lit_style_close(),
{
    let v: Vec<u8> = vec![('<' as u8), ('/' as u8), ('s' as u8), ('t' as u8), ('y' as u8), ('l' as u8), ('e' as u8), ('>' as u8)];
    assert(v@ =~= lit_style_close());
    v
}

/// `<script type='module'>`
pub open spec fn lit_script_open() -> Seq<u8> {
    seq![('<' as u8), ('s' as u8), ('c' as u8), ('r' as u8), ('i' as u8), ('p' as u8), ('t' as u8), (' ' as u8), ('t' as u8), ('y' as u8), ('p' as u8), ('e' as u8), ('=' as u8), (39u8), ('m' as u8), ('o' as u8), ('d' as u8), ('u' as u8), ('l' as u8), ('e' as u8), (39u8), ('>' as u8)]
}

/// `<script type='module'>`
pub fn script_open_vec() -> (r: Vec<u8>)
    ensures
        r@ == lit_script_open(),
{
    let v: Vec<u8> = vec![('<' as u8), ('s' as u8), ('c' as u8), ('r' as u8), ('i' as u8), ('p' as u8), ('t' as u8), (' ' as u8), ('t' as u8), ('y' as u8), ('p' as u8), ('e' as u8), ('=' as u8), (39u8), ('m' as u8), ('o' as u8), ('d' as u8), ('u' as u8), ('l' as u8), ('e' as u8), (39u8), ('>' as u8)];
    assert(v@ =~= lit_script_open());
    v
}

/// `</script>`
pub open spec fn lit_script_close() -> Seq<u8> {
    seq![('<' as u8), ('/' as u8), ('s' as u8), ('c' as u8), ('r' as u8), ('i' as u8), ('p' as u8), ('t' as u8), ('>' as u8)]
}

/// `</script>`
pub fn script_close_vec() -> (r: Vec<u8>)
    ensures
        r@ == lit_script_close(),
{
    let v: Vec<u8> = vec![('<' as u8), ('/' as u8), ('s' as u8), ('c' as u8), ('r' as u8), ('i' as u8), ('p' as u8), ('t' as u8), ('>' as u8)];
    assert(v@ =~= lit_script_close());
    v
}

/// `</i>`
pub open spec fn lit_i_close() -> Seq<u8> {
    seq![('<' as u8), ('/' as u8), ('i' as u8), ('>' as u8)]
}

/// `</i>`
pub fn i_close_vec() -> (r: Vec<u8>)
    ensures
        r@ == lit_i_close(),
{
    let v: Vec<u8> = vec![('<' as u8), ('/' as u8), ('i' as u8), ('>' as u8)];
    assert(v@ =~= lit_i_close());
    v
}

/// `&quot;`
pub open spec fn lit_quot() -> Seq<u8> {
    seq![('&' as u8), ('q' as u8), ('u' as u8), ('o' as u8), ('t' as u8), (';' as u8)]
}

/// `&quot;`
pub fn quot_vec() -> (r: Vec<u8>)
    ensures
        r@ == lit_quot(),
{
    let v: Vec<u8> = vec![('&' as u8), ('q' as u8), ('u' as u8), ('o' as u8), ('t' as u8), (';' as u8)];
    assert(v@ =~= lit_quot());
    v
}

/// `<img`
pub open spec fn lit_img_open() -> Seq<u8> {
    seq![('<' as u8), ('i' as u8), ('m' as u8), ('g' as u8)]
}

/// `<img`
pub fn img_open_vec() -> (r: Vec<u8>)
    ensures
        r@ == lit_img_open(),
{
    let v: Vec<u8> = vec![('<' as u8), ('i' as u8), ('m' as u8), ('g' as u8)];
    assert(v@ =~= lit_img_open());
    v
}

/// The inline stylesheet that replaces a matched `link` element.
pub open spec fn style_block(css: Seq<u8>) -> Seq<u8> {
    lit_style_open() + css + lit_style_close()
}

/// Append the inline stylesheet markup for `css` to `out`.
pub fn push_style_block(out: &mut Vec<u8>, css: &[u8])
    ensures
        final(out)@ == old(out)@ + style_block(css@),
{
    let open = style_open_vec();
    push_bytes(out, open.as_slice());
    push_bytes(out, css);
    let close = style_close_vec();
    push_bytes(out, close.as_slice());
}

/// The inline module script that replaces a matched `script` element.
pub open spec fn script_block(code: Seq<u8>) -> Seq<u8> {
    lit_script_open() + code + lit_script_close()
}

/// Append the inline module script markup for `code` to `out`.
pub fn push_script_block(out: &mut Vec<u8>, code: &[u8])
    ensures
        final(out)@ == old(out)@ + script_block(code@),
{
    let open = script_open_vec();
    push_bytes(out, open.as_slice());
    push_bytes(out, code);
    let close = script_close_vec();
    push_bytes(out, close.as_slice());
}

/// One byte of attribute-value text: `"` becomes `&quot;`, all else stays.
pub open spec fn esc_byte(b: u8) -> Seq<u8> {
    if b == 34u8 {
        lit_quot()
    } else {
        seq![b]
    }
}

/// Attribute-value text with every `"` escaped, so the value can stand in
/// double quotes.
pub open spec fn escape_quotes(v: Seq<u8>) -> Seq<u8>
    decreases v.len(),
{
    if v.len() == 0 {
        Seq::empty()
    } else {
        esc_byte(v[0]) + escape_quotes(v.drop_first())
    }
}

/// Escaping one more byte appends its text.
pub proof fn lemma_escape_snoc(v: Seq<u8>, b: u8)
    ensures
        escape_quotes(v.push(b)) == escape_quotes(v) + esc_byte(b),
    decreases v.len(),
{
    if v.len() == 0 {
        let p = v.push(b);
        assert(p.len() == 1 && p[0] == b);
        assert(p.drop_first() =~= Seq::<u8>::empty());
        assert(escape_quotes(p) == esc_byte(b) + escape_quotes(p.drop_first()));
        assert(esc_byte(b) + Seq::<u8>::empty() =~= esc_byte(b));
        assert(escape_quotes(v) + esc_byte(b) =~= esc_byte(b));
    } else {
        assert(v.push(b).drop_first() =~= v.drop_first().push(b));
        lemma_escape_snoc(v.drop_first(), b);
    }
}

/// Append `v` with every `"` escaped to `out`.
pub fn push_escaped(out: &mut Vec<u8>, v: &[u8])
    ensures
        final(out)@ == old(out)@ + escape_quotes(v@),
{
    let mut i: usize = 0;
    assert(v@.subrange(0, 0) =~= Seq::<u8>::empty());
    while i < v.len()
        invariant
            i <= v@.len(),
            out@ == old(out)@ + escape_quotes(v@.subrange(0, i as int)),
        decreases v@.len() - i,
    {
        let b = v[i];
        if b == 34u8 {
            let q = quot_vec();
            push_bytes(out, q.as_slice());
        } else {
            out.push(b);
        }
        proof {
            assert(v@.subrange(0, i + 1) =~= v@.subrange(0, i as int).push(v@[i as int]));
            lemma_escape_snoc(v@.subrange(0, i as int), v@[i as int]);
        }
        i += 1;
    }
    assert(v@.subrange(0, v@.len() as int) =~= v@);
}

/// The text of one attribute in a rebuilt `img` tag: a space, the name,
/// `="` and the escaped value and `"`. The `srcset` and `data-thumbhash`
/// attributes are dropped here — the rebuilt tag sets its own.
pub open spec fn attr_text(a: AttrV) -> Seq<u8> {
    if a.name == lit_srcset() || a.name == lit_data_thumbhash() {
        Seq::empty()
    } else {
        seq![(' ' as u8)] + a.name + seq![('=' as u8), (34u8)] + escape_quotes(a.value) + seq![
            (34u8),
        ]
    }
}

/// The texts of all attributes, in order.
pub open spec fn attrs_text(attrs: Seq<AttrV>) -> Seq<u8>
    decreases attrs.len(),
{
    if attrs.len() == 0 {
        Seq::empty()
    } else {
        attr_text(attrs[0]) + attrs_text(attrs.drop_first())
    }
}

/// Rendering one more attribute appends its text.
pub proof fn lemma_attrs_text_snoc(attrs: Seq<AttrV>, a: AttrV)
    ensures
        attrs_text(attrs.push(a)) == attrs_text(attrs) + attr_text(a),
    decreases attrs.len(),
{
    if attrs.len() == 0 {
        let p = attrs.push(a);
        assert(p.len() == 1 && p[0] == a);
        assert(p.drop_first() =~= Seq::<AttrV>::empty());
        assert(attrs_text(p) == attr_text(a) + attrs_text(p.drop_first()));
        assert(attr_text(a) + Seq::<u8>::empty() =~= attr_text(a));
        assert(attrs_text(attrs) + attr_text(a) =~= attr_text(a));
    } else {
        assert(attrs.push(a).drop_first() =~= attrs.drop_first().push(a));
        lemma_attrs_text_snoc(attrs.drop_first(), a);
    }
}

/// Append the text of one attribute to `out`.
fn push_attr_text(out: &mut Vec<u8>, a: &Attr)
    ensures
        final(out)@ == old(out)@ + attr_text(a@),
{
    let srcset = srcset_vec();
    let thumb = data_thumbhash_vec();
    if bytes_eq(a.name.as_slice(), srcset.as_slice()) || bytes_eq(
        a.name.as_slice(),
        thumb.as_slice(),
    ) {
        assert(out@ =~= old(out)@ + attr_text(a@));
        return ;
    }
    out.push(' ' as u8);
    push_bytes(out, a.name.as_slice());
    out.push('=' as u8);
    out.push(34u8);
    push_escaped(out, a.value.as_slice());
    out.push(34u8);
    assert(out@ =~= old(out)@ + attr_text(a@));
}

/// The text that sets one attribute in a rebuilt tag: a space, the name,
/// `="`, the value verbatim, `"`.
pub open spec fn set_attr_text(name: Seq<u8>, value: Seq<u8>) -> Seq<u8> {
    seq![(' ' as u8)] + name + seq![('=' as u8), (34u8)] + value + seq![(34u8)]
}

/// Append the text that sets one attribute to `out`.
fn push_set_attr(out: &mut Vec<u8>, name: &[u8], value: &[u8])
    ensures
        final(out)@ == old(out)@ + set_attr_text(name@, value@),
{
    out.push(' ' as u8);
    push_bytes(out, name);
    out.push('=' as u8);
    out.push(34u8);
    push_bytes(out, value);
    out.push(34u8);
    assert(out@ =~= old(out)@ + set_attr_text(name@, value@));
}

/// The rebuilt `img` start tag: every original attribute but `srcset` and
/// `data-thumbhash`, then the built `srcset` and the placeholder in a
/// `data-thumbhash` attribute.
#[verifier::opaque]
pub open spec fn img_tag_text(attrs: Seq<AttrV>, srcset: Seq<u8>, placeholder: Seq<u8>) -> Seq<
    u8,
> {
    lit_img_open() + attrs_text(attrs) + set_attr_text(lit_srcset(), srcset) + set_attr_text(
        lit_data_thumbhash(),
        placeholder,
    ) + seq![('>' as u8)]
}

/// Append the rebuilt `img` start tag to `out`.
pub fn push_img_tag(out: &mut Vec<u8>, attrs: &Vec<Attr>, srcset: &[u8], placeholder: &[u8])
    ensures
        final(out)@ == old(out)@ + img_tag_text(
            crate::html::attrs_seq(attrs@),
            srcset@,
            placeholder@,
        ),
{
    let open = img_open_vec();
    push_bytes(out, open.as_slice());
    let ghost all = crate::html::attrs_seq(attrs@);
    let mut i: usize = 0;
    assert(all.subrange(0, 0) =~= Seq::<AttrV>::empty());
    while i < attrs.len()
        invariant
            i <= attrs@.len(),
            all == crate::html::attrs_seq(attrs@),
            out@ == old(out)@ + lit_img_open() + attrs_text(all.subrange(0, i as int)),
        decreases attrs@.len() - i,
    {
        push_attr_text(out, &attrs[i]);
        proof {
            assert(all.subrange(0, i + 1) =~= all.subrange(0, i as int).push(all[i as int]));
            lemma_attrs_text_snoc(all.subrange(0, i as int), all[i as int]);
        }
        i += 1;
    }
    assert(all.subrange(0, all.len() as int) =~= all);
    let sname = srcset_vec();
    push_set_attr(out, sname.as_slice(), srcset);
    let tname = data_thumbhash_vec();
    push_set_attr(out, tname.as_slice(), placeholder);
    out.push('>' as u8);
    proof {
        reveal(img_tag_text);
        assert(out@ =~= old(out)@ + img_tag_text(all, srcset@, placeholder@));
    }
}

} // verus!
