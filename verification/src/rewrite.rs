//! The streaming rewriter: one forward pass over an HTML byte stream,
//! recognizing four element shapes and replacing each in place, emitting
//! every other byte unchanged.
//!
//! | element | transform |
//! |---|---|
//! | `link[rel=stylesheet][href^=/]` | inline `<style>` block with the stylesheet's text |
//! | `script[src^=/]` | inline `<script type='module'>` block with the bundled module body |
//! | `img[src^=/]` | the same tag with `srcset` and `data-thumbhash` set from the registry |
//! | `i[class]` | the icon file's markup, verbatim |
//!
//! The pass consults two read-only inputs: the asset registry (placeholder
//! and natural width per image) and the asset store (file texts and file
//! sizes by logical path). A path the store does not answer stops the pass
//! with the missing path, so a driver can read it and run again; a
//! registry miss is the distinct "unregistered asset" error, a logic bug.
//!
//! `script` and `style` elements are raw text: everything up to their end
//! tag passes through (or is replaced) unparsed. A matched `script` or `i`
//! element without its end tag is an error. Other element content is
//! scanned as ordinary text; comments are not treated specially.

use vstd::prelude::*;
use vstd::slice::slice_subrange;
use crate::handlers::{
    img_tag_text, lit_class, lit_href, lit_i_close, lit_i_tag, lit_img, lit_link, lit_rel,
    lit_script, lit_script_close, lit_src, lit_style, lit_style_close, lit_stylesheet,
    push_img_tag, push_script_block, push_style_block, class_vec, href_vec, i_close_vec,
    i_tag_vec, img_vec, link_vec, rel_vec, script_close_vec, script_vec, src_vec,
    style_close_vec, style_vec, stylesheet_vec,
};
use crate::html::{
    attr_first, attr_first_exec, attrs_seq, copy_range, parse_tag, parse_tag_exec, Attr, AttrV,
    lemma_parse_tag_bounds, Tag, TagV,
};
use crate::paths::{
    extension_of, has_extension, icon_path, icon_path_spec, variant_path, variant_path_spec,
    IconError,
};
use crate::registry::{AssetRegistry, AssetStore};
use crate::srcset::{build_srcset, srcset_parts, srcset_spec};
use crate::text::{
    bytes_eq, find_at, find_from, lemma_concat_assoc, lemma_find_at_bounds, push_bytes,
};

verus! {

broadcast use lemma_concat_assoc;

/// Why a rewrite stopped, abstractly.
pub ghost enum IssueV {
    /// The store holds no text for this path; the driver reads it and
    /// runs again (a file that cannot be read is fatal to the build).
    MissingText { path: Seq<u8> },
    /// The store holds no file size for this path; as `MissingText`.
    MissingSize { path: Seq<u8> },
    /// An `img` names a source that registry population never saw: the
    /// page model and the rewrite input are out of step. A logic bug.
    UnregisteredAsset { src: Seq<u8> },
    /// A matched `script` or `i` element never closes.
    UnclosedElement { name: Seq<u8> },
    /// An icon class list names no known family or no icon.
    Icon { error: IconError, class: Seq<u8> },
    /// An `img` source path has no extension to derive variant paths from.
    NoExtension { src: Seq<u8> },
}

/// Why a rewrite stopped.
#[derive(Debug)]
pub enum RewriteError {
    MissingText { path: Vec<u8> },
    MissingSize { path: Vec<u8> },
    UnregisteredAsset { src: Vec<u8> },
    UnclosedElement { name: Vec<u8> },
    Icon { error: IconError, class: Vec<u8> },
    NoExtension { src: Vec<u8> },
}

impl View for RewriteError {
    type V = IssueV;

    open spec fn view(&self) -> IssueV {
        match self {
            RewriteError::MissingText { path } => IssueV::MissingText { path: path@ },
            RewriteError::MissingSize { path } => IssueV::MissingSize { path: path@ },
            RewriteError::UnregisteredAsset { src } => IssueV::UnregisteredAsset { src: src@ },
            RewriteError::UnclosedElement { name } => IssueV::UnclosedElement { name: name@ },
            RewriteError::Icon { error, class } => IssueV::Icon { error: *error, class: class@ },
            RewriteError::NoExtension { src } => IssueV::NoExtension { src: src@ },
        }
    }
}

/// Whether an attribute value points under the site root.
pub open spec fn is_local(v: Option<Seq<u8>>) -> bool {
    match v {
        Some(p) => p.len() > 0 && p[0] == ('/' as u8),
        None => false,
    }
}

/// The sizes of the variant files of `src` at `ratios[k..]`, read from the
/// store; the first missing variant path stops the pass.
pub open spec fn variant_sizes_from(
    src: Seq<u8>,
    ratios: Seq<u32>,
    k: int,
    sizes: Map<Seq<u8>, u64>,
) -> Result<Seq<u64>, IssueV>
    recommends
        extension_of(src) is Some,
    decreases ratios.len() - k,
{
    if k < 0 || k >= ratios.len() {
        Ok(Seq::empty())
    } else {
        let p = variant_path_spec(src, ratios[k])->Some_0;
        if !sizes.contains_key(p) {
            Err(IssueV::MissingSize { path: p })
        } else {
            match variant_sizes_from(src, ratios, k + 1, sizes) {
                Ok(rest) => Ok(seq![sizes[p]] + rest),
                Err(e) => Err(e),
            }
        }
    }
}

/// The replacement of one matched `img` element with source path `src`:
/// the tag rebuilt with the built `srcset` and the registry's placeholder.
pub open spec fn img_replacement(
    src: Seq<u8>,
    attrs: Seq<AttrV>,
    reg: Map<Seq<u8>, (Seq<u8>, u32)>,
    sizes: Map<Seq<u8>, u64>,
    ratios: Seq<u32>,
) -> Result<Seq<u8>, IssueV> {
    if !reg.contains_key(src) {
        Err(IssueV::UnregisteredAsset { src })
    } else if extension_of(src) is None {
        Err(IssueV::NoExtension { src })
    } else if !sizes.contains_key(src) {
        Err(IssueV::MissingSize { path: src })
    } else {
        match variant_sizes_from(src, ratios, 0, sizes) {
            Err(e) => Err(e),
            Ok(vs) => Ok(
                img_tag_text(
                    attrs,
                    srcset_spec(src, ratios, vs, sizes[src], reg[src].1),
                    reg[src].0,
                ),
            ),
        }
    }
}

/// What `variant_sizes_from` reads when it succeeds: one size per ratio,
/// each the store's size of the derived variant path of that ratio.
pub proof fn lemma_variant_sizes_values(
    src: Seq<u8>,
    ratios: Seq<u32>,
    k: int,
    sizes: Map<Seq<u8>, u64>,
)
    requires
        0 <= k <= ratios.len(),
    ensures
        variant_sizes_from(src, ratios, k, sizes) matches Ok(vs) ==> {
            &&& vs.len() == ratios.len() - k
            &&& forall|j: int|
                k <= j < ratios.len() ==> {
                    &&& sizes.contains_key(variant_path_spec(src, #[trigger] ratios[j])->Some_0)
                    &&& vs[j - k] == sizes[variant_path_spec(src, ratios[j])->Some_0]
                }
        },
    decreases ratios.len() - k,
{
    if k < ratios.len() {
        lemma_variant_sizes_values(src, ratios, k + 1, sizes);
        let p = variant_path_spec(src, ratios[k])->Some_0;
        if sizes.contains_key(p) {
            match variant_sizes_from(src, ratios, k + 1, sizes) {
                Err(_) => {},
                Ok(rest) => {
                    let vs = seq![sizes[p]] + rest;
                    assert(variant_sizes_from(src, ratios, k, sizes) == Ok::<Seq<u64>, IssueV>(
                        vs,
                    ));
                    assert forall|j: int| k <= j < ratios.len() implies {
                        &&& sizes.contains_key(
                            variant_path_spec(src, #[trigger] ratios[j])->Some_0,
                        )
                        &&& vs[j - k] == sizes[variant_path_spec(src, ratios[j])->Some_0]
                    } by {
                        if j > k {
                            assert(vs[j - k] == rest[j - (k + 1)]);
                        }
                    }
                },
            }
        }
    }
}

/// The choice law of a replaced `img` element, at the position the pass
/// embeds it in the document: the replacement is the tag rebuilt around
/// exactly `srcset_spec` of the stored sizes, and at each ratio the
/// candidate names the derived variant path when the variant's file is
/// strictly smaller than the source's, and the source path otherwise.
pub proof fn lemma_img_replacement_selects_by_size(
    src: Seq<u8>,
    attrs: Seq<AttrV>,
    reg: Map<Seq<u8>, (Seq<u8>, u32)>,
    sizes: Map<Seq<u8>, u64>,
    ratios: Seq<u32>,
    k: int,
)
    requires
        img_replacement(src, attrs, reg, sizes, ratios) is Ok,
        0 <= k < ratios.len(),
    ensures
        ({
            let vs = variant_sizes_from(src, ratios, 0, sizes)->Ok_0;
            let parts = srcset_parts(src, ratios, vs, sizes[src], reg[src].1);
            let vp = variant_path_spec(src, ratios[k])->Some_0;
            &&& img_replacement(src, attrs, reg, sizes, ratios)->Ok_0 == img_tag_text(
                attrs,
                srcset_spec(src, ratios, vs, sizes[src], reg[src].1),
                reg[src].0,
            )
            &&& vs[k] == sizes[vp]
            &&& parts[k] == (if sizes[vp] < sizes[src] {
                vp
            } else {
                src
            }) + seq![(' ' as u8)] + crate::text::dec_of(ratios[k] as nat) + seq![('x' as u8)]
        }),
{
    lemma_variant_sizes_values(src, ratios, 0, sizes);
}

/// The trailing-candidate law of a replaced `img` element: the last
/// `srcset` candidate always names the source path at the true scale of
/// the registry's natural width over the render size.
pub proof fn lemma_img_replacement_trailing_true_scale(
    src: Seq<u8>,
    attrs: Seq<AttrV>,
    reg: Map<Seq<u8>, (Seq<u8>, u32)>,
    sizes: Map<Seq<u8>, u64>,
    ratios: Seq<u32>,
)
    requires
        img_replacement(src, attrs, reg, sizes, ratios) is Ok,
    ensures
        ({
            let vs = variant_sizes_from(src, ratios, 0, sizes)->Ok_0;
            let parts = srcset_parts(src, ratios, vs, sizes[src], reg[src].1);
            parts.last() == src + seq![(' ' as u8)] + crate::srcset::scale_text(
                reg[src].1,
                crate::srcset::RENDER_SIZE,
            ) + seq![('x' as u8)]
        }),
{
}

/// What one parsed `script` element becomes: a matched one (local `src`)
/// is replaced, end tag and all, with the inline bundled module; an
/// unmatched one passes through to its end tag unparsed.
pub open spec fn step_script(
    s: Seq<u8>,
    i: int,
    tag: TagV,
    end: int,
    texts: Map<Seq<u8>, Seq<u8>>,
) -> Result<(Seq<u8>, int), IssueV> {
    let msrc = attr_first(tag.attrs, lit_src());
    let close = find_at(s, lit_script_close(), end);
    if is_local(msrc) {
        let src = msrc->Some_0;
        match close {
            None => Err(IssueV::UnclosedElement { name: lit_script() }),
            Some(p) => if texts.contains_key(src) {
                Ok((crate::handlers::script_block(texts[src]), p + lit_script_close().len()))
            } else {
                Err(IssueV::MissingText { path: src })
            },
        }
    } else {
        match close {
            None => Ok((s.subrange(i, end), end)),
            Some(p) => Ok((s.subrange(i, p + lit_script_close().len()), p + lit_script_close().len())),
        }
    }
}

/// What one parsed `link` element becomes: a stylesheet link with a local
/// `href` is replaced with an inline `<style>` block holding the file's
/// text; any other `link` passes through.
pub open spec fn step_link(
    s: Seq<u8>,
    i: int,
    tag: TagV,
    end: int,
    texts: Map<Seq<u8>, Seq<u8>>,
) -> Result<(Seq<u8>, int), IssueV> {
    let mhref = attr_first(tag.attrs, lit_href());
    if attr_first(tag.attrs, lit_rel()) == Some(lit_stylesheet()) && is_local(mhref) {
        let href = mhref->Some_0;
        if texts.contains_key(href) {
            Ok((crate::handlers::style_block(texts[href]), end))
        } else {
            Err(IssueV::MissingText { path: href })
        }
    } else {
        Ok((s.subrange(i, end), end))
    }
}

/// What one parsed `i` element becomes: with a `class` attribute it is
/// replaced, end tag and all, with the named icon file's markup verbatim;
/// an unknown icon family stops the pass; without `class` it passes
/// through.
pub open spec fn step_icon(
    s: Seq<u8>,
    i: int,
    tag: TagV,
    end: int,
    texts: Map<Seq<u8>, Seq<u8>>,
) -> Result<(Seq<u8>, int), IssueV> {
    match attr_first(tag.attrs, lit_class()) {
        None => Ok((s.subrange(i, end), end)),
        Some(class) => match icon_path_spec(class) {
            Err(e) => Err(IssueV::Icon { error: e, class }),
            Ok(path) => match find_at(s, lit_i_close(), end) {
                None => Err(IssueV::UnclosedElement { name: lit_i_tag() }),
                Some(p) => if texts.contains_key(path) {
                    Ok((texts[path], p + lit_i_close().len()))
                } else {
                    Err(IssueV::MissingText { path })
                },
            },
        },
    }
}

/// What one parsed `img` element becomes: with a local `src` it is
/// replaced by `img_replacement`; otherwise it passes through.
pub open spec fn step_img(
    s: Seq<u8>,
    i: int,
    tag: TagV,
    end: int,
    reg: Map<Seq<u8>, (Seq<u8>, u32)>,
    sizes: Map<Seq<u8>, u64>,
    ratios: Seq<u32>,
) -> Result<(Seq<u8>, int), IssueV> {
    let msrc = attr_first(tag.attrs, lit_src());
    if is_local(msrc) {
        match img_replacement(msrc->Some_0, tag.attrs, reg, sizes, ratios) {
            Ok(t) => Ok((t, end)),
            Err(e) => Err(e),
        }
    } else {
        Ok((s.subrange(i, end), end))
    }
}

/// One step of the pass at position `i`: what is emitted and where the
/// pass continues. A byte that opens no start tag passes through; a start
/// tag dispatches on its name; `style` content passes through unparsed to
/// its end tag; every unrecognized tag passes through verbatim.
pub open spec fn step_spec(
    s: Seq<u8>,
    i: int,
    reg: Map<Seq<u8>, (Seq<u8>, u32)>,
    texts: Map<Seq<u8>, Seq<u8>>,
    sizes: Map<Seq<u8>, u64>,
    ratios: Seq<u32>,
) -> Result<(Seq<u8>, int), IssueV>
    recommends
        0 <= i < s.len(),
{
    match parse_tag(s, i) {
        None => Ok((seq![s[i]], i + 1)),
        Some((tag, end)) => {
            if tag.name == lit_script() {
                step_script(s, i, tag, end, texts)
            } else if tag.name == lit_style() {
                match find_at(s, lit_style_close(), end) {
                    None => Ok((s.subrange(i, end), end)),
                    Some(p) => Ok(
                        (s.subrange(i, p + lit_style_close().len()), p + lit_style_close().len()),
                    ),
                }
            } else if tag.name == lit_link() {
                step_link(s, i, tag, end, texts)
            } else if tag.name == lit_img() {
                step_img(s, i, tag, end, reg, sizes, ratios)
            } else if tag.name == lit_i_tag() {
                step_icon(s, i, tag, end, texts)
            } else {
                Ok((s.subrange(i, end), end))
            }
        },
    }
}

/// A step moves forward and stays within the input.
pub proof fn lemma_step_bounds(
    s: Seq<u8>,
    i: int,
    reg: Map<Seq<u8>, (Seq<u8>, u32)>,
    texts: Map<Seq<u8>, Seq<u8>>,
    sizes: Map<Seq<u8>, u64>,
    ratios: Seq<u32>,
)
    requires
        0 <= i < s.len(),
    ensures
        match step_spec(s, i, reg, texts, sizes, ratios) {
            Ok((_o, j)) => i < j <= s.len(),
            Err(_e) => true,
        },
{
    lemma_parse_tag_bounds(s, i);
    match parse_tag(s, i) {
        None => {},
        Some((tag, end)) => {
            lemma_find_at_bounds(s, lit_script_close(), end);
            lemma_find_at_bounds(s, lit_style_close(), end);
            lemma_find_at_bounds(s, lit_i_close(), end);
        },
    }
}

/// The rewritten text of `s` from position `i` on: each step's output in
/// order, or the first error.
pub open spec fn rewrite_from(
    s: Seq<u8>,
    i: int,
    reg: Map<Seq<u8>, (Seq<u8>, u32)>,
    texts: Map<Seq<u8>, Seq<u8>>,
    sizes: Map<Seq<u8>, u64>,
    ratios: Seq<u32>,
) -> Result<Seq<u8>, IssueV>
    decreases s.len() - i,
    when true
    via rewrite_from_decreases
{
    if i < 0 || i >= s.len() {
        Ok(Seq::empty())
    } else {
        match step_spec(s, i, reg, texts, sizes, ratios) {
            Err(e) => Err(e),
            Ok((o, j)) => match rewrite_from(s, j, reg, texts, sizes, ratios) {
                Err(e) => Err(e),
                Ok(rest) => Ok(o + rest),
            },
        }
    }
}

#[via_fn]
proof fn rewrite_from_decreases(
    s: Seq<u8>,
    i: int,
    reg: Map<Seq<u8>, (Seq<u8>, u32)>,
    texts: Map<Seq<u8>, Seq<u8>>,
    sizes: Map<Seq<u8>, u64>,
    ratios: Seq<u32>,
) {
    if 0 <= i && i < s.len() {
        lemma_step_bounds(s, i, reg, texts, sizes, ratios);
    }
}

/// The rewritten text of the whole document `s`, or the first error.
pub open spec fn rewrite_spec(
    s: Seq<u8>,
    reg: Map<Seq<u8>, (Seq<u8>, u32)>,
    texts: Map<Seq<u8>, Seq<u8>>,
    sizes: Map<Seq<u8>, u64>,
    ratios: Seq<u32>,
) -> Result<Seq<u8>, IssueV> {
    rewrite_from(s, 0, reg, texts, sizes, ratios)
}

/// Where the pass continues after one parsed element, as a function of the
/// document alone: past the end tag of a raw-text or icon element, else
/// past the start tag. On every step the pass takes without error, this is
/// the position the pass continues at.
pub open spec fn element_next(s: Seq<u8>, tag: TagV, end: int) -> int {
    if tag.name == lit_script() {
        match find_at(s, lit_script_close(), end) {
            Some(p) => p + lit_script_close().len(),
            None => end,
        }
    } else if tag.name == lit_style() {
        match find_at(s, lit_style_close(), end) {
            Some(p) => p + lit_style_close().len(),
            None => end,
        }
    } else if tag.name == lit_i_tag() && attr_first(tag.attrs, lit_class()) is Some {
        match find_at(s, lit_i_close(), end) {
            Some(p) => p + lit_i_close().len(),
            None => end,
        }
    } else {
        end
    }
}

/// `element_next` moves forward and stays within the input.
pub proof fn lemma_element_next_bounds(s: Seq<u8>, tag: TagV, end: int)
    requires
        0 <= end <= s.len(),
    ensures
        end <= element_next(s, tag, end) <= s.len(),
{
    lemma_find_at_bounds(s, lit_script_close(), end);
    lemma_find_at_bounds(s, lit_style_close(), end);
    lemma_find_at_bounds(s, lit_i_close(), end);
}

/// The source paths of all the `img` elements that the pass would rewrite
/// from position `i` on: every local `src` of an `img` start tag.
pub open spec fn img_srcs_from(s: Seq<u8>, i: int) -> Set<Seq<u8>>
    decreases s.len() - i,
    when true
    via img_srcs_from_decreases
{
    if i < 0 || i >= s.len() {
        Set::empty()
    } else {
        match parse_tag(s, i) {
            None => img_srcs_from(s, i + 1),
            Some((tag, end)) => {
                let rest = img_srcs_from(s, element_next(s, tag, end));
                if tag.name == lit_img() && is_local(attr_first(tag.attrs, lit_src())) {
                    rest.insert(attr_first(tag.attrs, lit_src())->Some_0)
                } else {
                    rest
                }
            },
        }
    }
}

#[via_fn]
proof fn img_srcs_from_decreases(s: Seq<u8>, i: int) {
    if 0 <= i && i < s.len() {
        lemma_parse_tag_bounds(s, i);
        match parse_tag(s, i) {
            None => {},
            Some((tag, end)) => {
                lemma_element_next_bounds(s, tag, end);
            },
        }
    }
}

/// The five recognized tag names are pairwise distinct (their lengths
/// differ).
proof fn lemma_tag_lits_distinct()
    ensures
        lit_script() != lit_style(),
        lit_script() != lit_link(),
        lit_script() != lit_img(),
        lit_script() != lit_i_tag(),
        lit_style() != lit_link(),
        lit_style() != lit_img(),
        lit_style() != lit_i_tag(),
        lit_link() != lit_img(),
        lit_link() != lit_i_tag(),
        lit_img() != lit_i_tag(),
{
    assert(lit_script().len() == 6);
    assert(lit_style().len() == 5);
    assert(lit_link().len() == 4);
    assert(lit_img().len() == 3);
    assert(lit_i_tag().len() == 1);
}

/// Whether a step outcome is the "unregistered asset" error.
pub open spec fn step_is_reg_miss(r: Result<(Seq<u8>, int), IssueV>) -> bool {
    match r {
        Err(IssueV::UnregisteredAsset { .. }) => true,
        _ => false,
    }
}

/// Whether a rewrite outcome is the "unregistered asset" error.
pub open spec fn is_reg_miss(r: Result<Seq<u8>, IssueV>) -> bool {
    match r {
        Err(IssueV::UnregisteredAsset { .. }) => true,
        _ => false,
    }
}

/// Reading variant sizes reports a missing size, never a registry miss.
proof fn lemma_variant_sizes_no_reg_miss(
    src: Seq<u8>,
    ratios: Seq<u32>,
    k: int,
    sizes: Map<Seq<u8>, u64>,
)
    ensures
        !(variant_sizes_from(src, ratios, k, sizes) matches Err(
            IssueV::UnregisteredAsset { .. },
        )),
    decreases ratios.len() - k,
{
    if !(k < 0 || k >= ratios.len()) {
        lemma_variant_sizes_no_reg_miss(src, ratios, k + 1, sizes);
    }
}

/// A registry that holds every image the document references is never
/// observed to miss a key: once population covers every referenced source
/// path — the ordering barrier between the population phase and the
/// rewrite phase — no rewrite of the document can report an unregistered
/// asset, whatever the store holds.
pub proof fn lemma_full_registry_never_misses(
    s: Seq<u8>,
    i: int,
    reg: Map<Seq<u8>, (Seq<u8>, u32)>,
    texts: Map<Seq<u8>, Seq<u8>>,
    sizes: Map<Seq<u8>, u64>,
    ratios: Seq<u32>,
)
    requires
        forall|src: Seq<u8>| img_srcs_from(s, i).contains(src) ==> reg.contains_key(src),
    ensures
        !is_reg_miss(rewrite_from(s, i, reg, texts, sizes, ratios)),
    decreases s.len() - i,
{
    if i < 0 || i >= s.len() {
    } else {
        lemma_parse_tag_bounds(s, i);
        match parse_tag(s, i) {
            None => {
                lemma_full_registry_never_misses(s, i + 1, reg, texts, sizes, ratios);
                assert(step_spec(s, i, reg, texts, sizes, ratios) == Ok::<(Seq<u8>, int), IssueV>(
                    (seq![s[i]], i + 1),
                ));
            },
            Some((tag, end)) => {
                lemma_tag_lits_distinct();
                lemma_element_next_bounds(s, tag, end);
                let nxt = element_next(s, tag, end);
                assert(forall|src: Seq<u8>|
                    img_srcs_from(s, nxt).contains(src) ==> img_srcs_from(s, i).contains(src));
                lemma_full_registry_never_misses(s, nxt, reg, texts, sizes, ratios);
                let step = step_spec(s, i, reg, texts, sizes, ratios);
                if tag.name == lit_img() {
                    let msrc = attr_first(tag.attrs, lit_src());
                    if is_local(msrc) {
                        assert(img_srcs_from(s, i).contains(msrc->Some_0));
                        assert(reg.contains_key(msrc->Some_0));
                        lemma_variant_sizes_no_reg_miss(msrc->Some_0, ratios, 0, sizes);
                        assert(!step_is_reg_miss(step));
                    } else {
                        assert(step == Ok::<(Seq<u8>, int), IssueV>((s.subrange(i, end), end)));
                    }
                } else {
                    assert(!step_is_reg_miss(step));
                }
                match step {
                    Err(_e) => {},
                    Ok((_o, j)) => {
                        assert(j == nxt) by {
                            if tag.name == lit_script() {
                                assert(step == step_script(s, i, tag, end, texts));
                                if is_local(attr_first(tag.attrs, lit_src())) {
                                    assert(find_at(s, lit_script_close(), end) is Some);
                                }
                            } else if tag.name == lit_link() {
                                assert(step == step_link(s, i, tag, end, texts));
                            } else if tag.name == lit_img() {
                                assert(step == step_img(s, i, tag, end, reg, sizes, ratios));
                            } else if tag.name == lit_i_tag() {
                                assert(step == step_icon(s, i, tag, end, texts));
                                match attr_first(tag.attrs, lit_class()) {
                                    None => {},
                                    Some(class) => {
                                        match icon_path_spec(class) {
                                            Err(_) => {
                                                assert(false);
                                            },
                                            Ok(_) => {
                                                assert(find_at(s, lit_i_close(), end) is Some);
                                            },
                                        }
                                    },
                                }
                            }
                        }
                    },
                }
            },
        }
    }
}

/// An owned copy of `v`.
fn to_owned_bytes(v: &[u8]) -> (r: Vec<u8>)
    ensures
        r@ == v@,
{
    let r = copy_range(v, 0, v.len());
    assert(v@.subrange(0, v@.len() as int) =~= v@);
    r
}

/// Run one parsed `link` element.
fn exec_step_link(
    s: &[u8],
    i: usize,
    tag: &Tag,
    end: usize,
    store: &AssetStore,
    out: &mut Vec<u8>,
) -> (r: Result<usize, RewriteError>)
    requires
        i < end <= s@.len(),
        store.wf(),
    ensures
        match r {
            Ok(j) => {
                &&& step_link(s@, i as int, tag@, end as int, store.texts@) is Ok
                &&& step_link(s@, i as int, tag@, end as int, store.texts@)->Ok_0.1 == j as int
                &&& final(out)@ == old(out)@ + step_link(
                    s@,
                    i as int,
                    tag@,
                    end as int,
                    store.texts@,
                )->Ok_0.0
                &&& i < j <= s@.len()
            },
            Err(e) => step_link(s@, i as int, tag@, end as int, store.texts@) == Err::<
                (Seq<u8>, int),
                IssueV,
            >(e@),
        },
{
    let rel = rel_vec();
    let stylesheet = stylesheet_vec();
    let href = href_vec();
    let rel_match = match attr_first_exec(&tag.attrs, rel.as_slice()) {
        Some(v) => bytes_eq(v.as_slice(), stylesheet.as_slice()),
        None => false,
    };
    let mhref = attr_first_exec(&tag.attrs, href.as_slice());
    match mhref {
        Some(h) => {
            if rel_match && h.len() > 0 && h[0] == ('/' as u8) {
                match store.texts.get(h.as_slice()) {
                    Some(css) => {
                        push_style_block(out, css.as_slice());
                        Ok(end)
                    },
                    None => Err(RewriteError::MissingText { path: to_owned_bytes(h.as_slice()) }),
                }
            } else {
                push_bytes(out, slice_subrange(s, i, end));
                Ok(end)
            }
        },
        None => {
            push_bytes(out, slice_subrange(s, i, end));
            Ok(end)
        },
    }
}

/// Run one parsed `script` element.
fn exec_step_script(
    s: &[u8],
    i: usize,
    tag: &Tag,
    end: usize,
    store: &AssetStore,
    out: &mut Vec<u8>,
) -> (r: Result<usize, RewriteError>)
    requires
        i < end <= s@.len(),
        store.wf(),
    ensures
        match r {
            Ok(j) => {
                &&& step_script(s@, i as int, tag@, end as int, store.texts@) is Ok
                &&& step_script(s@, i as int, tag@, end as int, store.texts@)->Ok_0.1 == j as int
                &&& final(out)@ == old(out)@ + step_script(
                    s@,
                    i as int,
                    tag@,
                    end as int,
                    store.texts@,
                )->Ok_0.0
                &&& i < j <= s@.len()
            },
            Err(e) => step_script(s@, i as int, tag@, end as int, store.texts@) == Err::<
                (Seq<u8>, int),
                IssueV,
            >(e@),
        },
{
    let n = s.len();
    assert(s@.len() == n);
    let close_pat = script_close_vec();
    let close = find_from(s, close_pat.as_slice(), end);
    let src_l = src_vec();
    let msrc = attr_first_exec(&tag.attrs, src_l.as_slice());
    let local = match msrc {
        Some(v) => v.len() > 0 && v[0] == ('/' as u8),
        None => false,
    };
    if local {
        let v = match msrc {
            Some(v) => v,
            None => {
                assert(false);
                return Err(RewriteError::UnclosedElement { name: Vec::new() });
            },
        };
        match close {
            None => Err(RewriteError::UnclosedElement { name: script_vec() }),
            Some(p) => match store.texts.get(v.as_slice()) {
                Some(code) => {
                    push_script_block(out, code.as_slice());
                    Ok(p + close_pat.len())
                },
                None => Err(RewriteError::MissingText { path: to_owned_bytes(v.as_slice()) }),
            },
        }
    } else {
        match close {
            None => {
                push_bytes(out, slice_subrange(s, i, end));
                Ok(end)
            },
            Some(p) => {
                push_bytes(out, slice_subrange(s, i, p + close_pat.len()));
                Ok(p + close_pat.len())
            },
        }
    }
}

/// Run one parsed `i` element.
fn exec_step_icon(
    s: &[u8],
    i: usize,
    tag: &Tag,
    end: usize,
    store: &AssetStore,
    out: &mut Vec<u8>,
) -> (r: Result<usize, RewriteError>)
    requires
        i < end <= s@.len(),
        store.wf(),
    ensures
        match r {
            Ok(j) => {
                &&& step_icon(s@, i as int, tag@, end as int, store.texts@) is Ok
                &&& step_icon(s@, i as int, tag@, end as int, store.texts@)->Ok_0.1 == j as int
                &&& final(out)@ == old(out)@ + step_icon(
                    s@,
                    i as int,
                    tag@,
                    end as int,
                    store.texts@,
                )->Ok_0.0
                &&& i < j <= s@.len()
            },
            Err(e) => step_icon(s@, i as int, tag@, end as int, store.texts@) == Err::<
                (Seq<u8>, int),
                IssueV,
            >(e@),
        },
{
    let n = s.len();
    assert(s@.len() == n);
    let class_l = class_vec();
    match attr_first_exec(&tag.attrs, class_l.as_slice()) {
        None => {
            push_bytes(out, slice_subrange(s, i, end));
            Ok(end)
        },
        Some(class) => {
            match icon_path(class.as_slice()) {
                Err(e) => Err(
                    RewriteError::Icon { error: e, class: to_owned_bytes(class.as_slice()) },
                ),
                Ok(path) => {
                    let close_pat = i_close_vec();
                    match find_from(s, close_pat.as_slice(), end) {
                        None => Err(RewriteError::UnclosedElement { name: i_tag_vec() }),
                        Some(p) => match store.texts.get(path.as_slice()) {
                            Some(svg) => {
                                push_bytes(out, svg.as_slice());
                                Ok(p + close_pat.len())
                            },
                            None => Err(RewriteError::MissingText { path }),
                        },
                    }
                },
            }
        },
    }
}

/// Read the sizes of the variant files of `v` at each ratio from the store.
fn collect_variant_sizes(v: &Vec<u8>, ratios: &[u32], store: &AssetStore) -> (r: Result<
    Vec<u64>,
    RewriteError,
>)
    requires
        store.wf(),
        extension_of(v@) is Some,
    ensures
        match r {
            Ok(vs) => {
                &&& variant_sizes_from(v@, ratios@, 0, store.sizes@) == Ok::<Seq<u64>, IssueV>(vs@)
                &&& vs@.len() == ratios@.len()
            },
            Err(e) => variant_sizes_from(v@, ratios@, 0, store.sizes@) == Err::<Seq<u64>, IssueV>(
                e@,
            ),
        },
{
    let ghost sizes = store.sizes@;
    let mut vsizes: Vec<u64> = Vec::new();
    let mut k: usize = 0;
    proof {
        if variant_sizes_from(v@, ratios@, 0, sizes) is Ok {
            assert(Seq::<u64>::empty() + variant_sizes_from(v@, ratios@, 0, sizes)->Ok_0
                =~= variant_sizes_from(v@, ratios@, 0, sizes)->Ok_0);
        }
    }
    while k < ratios.len()
        invariant
            k <= ratios@.len(),
            vsizes@.len() == k,
            store.wf(),
            sizes == store.sizes@,
            extension_of(v@) is Some,
            variant_sizes_from(v@, ratios@, 0, sizes) == match variant_sizes_from(
                v@,
                ratios@,
                k as int,
                sizes,
            ) {
                Ok(rest) => Ok::<Seq<u64>, IssueV>(vsizes@ + rest),
                Err(e) => Err::<Seq<u64>, IssueV>(e),
            },
        decreases ratios@.len() - k,
    {
        let vp = match variant_path(v.as_slice(), ratios[k]) {
            Some(p) => p,
            None => {
                // unreachable: the source path has an extension
                assert(false);
                return Err(RewriteError::NoExtension { src: Vec::new() });
            },
        };
        let ghost before = vsizes@;
        match store.sizes.get(vp.as_slice()) {
            None => {
                assert(variant_sizes_from(v@, ratios@, k as int, sizes) == Err::<
                    Seq<u64>,
                    IssueV,
                >(IssueV::MissingSize { path: vp@ }));
                return Err(RewriteError::MissingSize { path: vp });
            },
            Some(sz) => {
                vsizes.push(*sz);
                proof {
                    let rest_r = variant_sizes_from(v@, ratios@, k + 1, sizes);
                    assert(variant_sizes_from(v@, ratios@, k as int, sizes) == match rest_r {
                        Ok(rest) => Ok::<Seq<u64>, IssueV>(seq![sizes[vp@]] + rest),
                        Err(e) => Err::<Seq<u64>, IssueV>(e),
                    });
                    if rest_r is Ok {
                        assert(before + (seq![sizes[vp@]] + rest_r->Ok_0) =~= vsizes@
                            + rest_r->Ok_0);
                    }
                }
            },
        }
        k += 1;
    }
    assert(variant_sizes_from(v@, ratios@, k as int, sizes) == Ok::<Seq<u64>, IssueV>(
        Seq::empty(),
    ));
    assert(vsizes@ + Seq::<u64>::empty() =~= vsizes@);
    Ok(vsizes)
}

/// Replace one matched `img` element with local source path `v`.
#[verifier::rlimit(100)]
fn exec_img_matched(
    v: &Vec<u8>,
    attrs: &Vec<Attr>,
    registry: &AssetRegistry,
    store: &AssetStore,
    ratios: &[u32],
    out: &mut Vec<u8>,
) -> (r: Result<(), RewriteError>)
    requires
        registry.wf(),
        store.wf(),
    ensures
        match r {
            Ok(()) => {
                &&& img_replacement(v@, attrs_seq(attrs@), registry@, store.sizes@, ratios@)
                    is Ok
                &&& final(out)@ == old(out)@ + img_replacement(
                    v@,
                    attrs_seq(attrs@),
                    registry@,
                    store.sizes@,
                    ratios@,
                )->Ok_0
            },
            Err(e) => img_replacement(v@, attrs_seq(attrs@), registry@, store.sizes@, ratios@)
                == Err::<Seq<u8>, IssueV>(e@),
        },
{
    let src = v.as_slice();
    let entry = match registry.get(src) {
        Some(entry) => entry,
        None => {
            return Err(RewriteError::UnregisteredAsset { src: to_owned_bytes(src) });
        },
    };
    if !has_extension(src) {
        return Err(RewriteError::NoExtension { src: to_owned_bytes(src) });
    }
    let osize: u64 = match store.sizes.get(src) {
        Some(sz) => *sz,
        None => {
            return Err(RewriteError::MissingSize { path: to_owned_bytes(src) });
        },
    };
    let vsizes = match collect_variant_sizes(v, ratios, store) {
        Ok(vs) => vs,
        Err(e) => {
            return Err(e);
        },
    };
    let srcset = build_srcset(src, ratios, vsizes.as_slice(), osize, entry.width);
    push_img_tag(out, attrs, srcset.as_slice(), entry.placeholder.as_slice());
    proof {
        assert(entry.placeholder@ == registry@[v@].0 && entry.width == registry@[v@].1);
        assert(img_replacement(v@, attrs_seq(attrs@), registry@, store.sizes@, ratios@) == Ok::<
            Seq<u8>,
            IssueV,
        >(
            img_tag_text(
                attrs_seq(attrs@),
                srcset_spec(v@, ratios@, vsizes@, store.sizes@[v@], registry@[v@].1),
                registry@[v@].0,
            ),
        ));
    }
    Ok(())
}

/// Run one parsed `img` element.
fn exec_step_img(
    s: &[u8],
    i: usize,
    tag: &Tag,
    end: usize,
    registry: &AssetRegistry,
    store: &AssetStore,
    ratios: &[u32],
    out: &mut Vec<u8>,
) -> (r: Result<usize, RewriteError>)
    requires
        i < end <= s@.len(),
        registry.wf(),
        store.wf(),
    ensures
        match r {
            Ok(j) => {
                &&& step_img(s@, i as int, tag@, end as int, registry@, store.sizes@, ratios@)
                    is Ok
                &&& step_img(
                    s@,
                    i as int,
                    tag@,
                    end as int,
                    registry@,
                    store.sizes@,
                    ratios@,
                )->Ok_0.1 == j as int
                &&& final(out)@ == old(out)@ + step_img(
                    s@,
                    i as int,
                    tag@,
                    end as int,
                    registry@,
                    store.sizes@,
                    ratios@,
                )->Ok_0.0
                &&& i < j <= s@.len()
            },
            Err(e) => step_img(s@, i as int, tag@, end as int, registry@, store.sizes@, ratios@)
                == Err::<(Seq<u8>, int), IssueV>(e@),
        },
{
    let src_l = src_vec();
    let msrc = attr_first_exec(&tag.attrs, src_l.as_slice());
    let local = match msrc {
        Some(v) => v.len() > 0 && v[0] == ('/' as u8),
        None => false,
    };
    if !local {
        push_bytes(out, slice_subrange(s, i, end));
        return Ok(end);
    }
    let v = match msrc {
        Some(v) => v,
        None => {
            assert(false);
            return Err(RewriteError::UnclosedElement { name: Vec::new() });
        },
    };
    match exec_img_matched(v, &tag.attrs, registry, store, ratios, out) {
        Ok(()) => Ok(end),
        Err(e) => Err(e),
    }
}

/// Run one step of the pass at position `i`, appending what it emits.
#[verifier::rlimit(100)]
fn rewrite_step(
    s: &[u8],
    i: usize,
    registry: &AssetRegistry,
    store: &AssetStore,
    ratios: &[u32],
    out: &mut Vec<u8>,
) -> (r: Result<usize, RewriteError>)
    requires
        i < s@.len(),
        registry.wf(),
        store.wf(),
    ensures
        match r {
            Ok(j) => {
                &&& step_spec(s@, i as int, registry@, store.texts@, store.sizes@, ratios@) is Ok
                &&& step_spec(
                    s@,
                    i as int,
                    registry@,
                    store.texts@,
                    store.sizes@,
                    ratios@,
                )->Ok_0.1 == j as int
                &&& final(out)@ == old(out)@ + step_spec(
                    s@,
                    i as int,
                    registry@,
                    store.texts@,
                    store.sizes@,
                    ratios@,
                )->Ok_0.0
                &&& i < j <= s@.len()
            },
            Err(e) => step_spec(s@, i as int, registry@, store.texts@, store.sizes@, ratios@)
                == Err::<(Seq<u8>, int), IssueV>(e@),
        },
{
    let n = s.len();
    assert(s@.len() == n);
    let parsed = parse_tag_exec(s, i);
    match parsed {
        None => {
            out.push(s[i]);
            assert(out@ =~= old(out)@ + seq![s@[i as int]]);
            Ok(i + 1)
        },
        Some((tag, end)) => {
            let script_l = script_vec();
            let style_l = style_vec();
            let link_l = link_vec();
            let img_l = img_vec();
            let i_l = i_tag_vec();
            if bytes_eq(tag.name.as_slice(), script_l.as_slice()) {
                exec_step_script(s, i, &tag, end, store, out)
            } else if bytes_eq(tag.name.as_slice(), style_l.as_slice()) {
                let close_pat = style_close_vec();
                match find_from(s, close_pat.as_slice(), end) {
                    None => {
                        push_bytes(out, slice_subrange(s, i, end));
                        Ok(end)
                    },
                    Some(p) => {
                        push_bytes(out, slice_subrange(s, i, p + close_pat.len()));
                        Ok(p + close_pat.len())
                    },
                }
            } else if bytes_eq(tag.name.as_slice(), link_l.as_slice()) {
                exec_step_link(s, i, &tag, end, store, out)
            } else if bytes_eq(tag.name.as_slice(), img_l.as_slice()) {
                exec_step_img(s, i, &tag, end, registry, store, ratios, out)
            } else if bytes_eq(tag.name.as_slice(), i_l.as_slice()) {
                exec_step_icon(s, i, &tag, end, store, out)
            } else {
                push_bytes(out, slice_subrange(s, i, end));
                Ok(end)
            }
        },
    }
}

/// Rewrite the document `html` in one forward pass, replacing the four
/// recognized element shapes and emitting every other byte unchanged. The
/// result is exactly `rewrite_spec` of the inputs: the pass is a function
/// of the document, the registry and the store — every error case included.
pub fn optimize_assets(
    html: &[u8],
    registry: &AssetRegistry,
    store: &AssetStore,
    ratios: &[u32],
) -> (r: Result<Vec<u8>, RewriteError>)
    requires
        registry.wf(),
        store.wf(),
    ensures
        match r {
            Ok(out) => rewrite_spec(html@, registry@, store.texts@, store.sizes@, ratios@) == Ok::<
                Seq<u8>,
                IssueV,
            >(out@),
            Err(e) => rewrite_spec(html@, registry@, store.texts@, store.sizes@, ratios@) == Err::<
                Seq<u8>,
                IssueV,
            >(e@),
        },
{
    let ghost reg = registry@;
    let ghost texts = store.texts@;
    let ghost sizes = store.sizes@;
    let mut out: Vec<u8> = Vec::new();
    let mut i: usize = 0;
    proof {
        let r0 = rewrite_from(html@, 0, reg, texts, sizes, ratios@);
        if r0 is Ok {
            assert(Seq::<u8>::empty() + r0->Ok_0 =~= r0->Ok_0);
        }
    }
    loop
        invariant
            i <= html@.len(),
            registry.wf(),
            store.wf(),
            reg == registry@,
            texts == store.texts@,
            sizes == store.sizes@,
            rewrite_from(html@, 0, reg, texts, sizes, ratios@) == match rewrite_from(
                html@,
                i as int,
                reg,
                texts,
                sizes,
                ratios@,
            ) {
                Ok(rest) => Ok::<Seq<u8>, IssueV>(out@ + rest),
                Err(e) => Err::<Seq<u8>, IssueV>(e),
            },
        decreases html@.len() - i,
    {
        if i >= html.len() {
            assert(rewrite_from(html@, i as int, reg, texts, sizes, ratios@) == Ok::<
                Seq<u8>,
                IssueV,
            >(Seq::empty()));
            assert(out@ + Seq::<u8>::empty() =~= out@);
            return Ok(out);
        }
        let ghost out_before = out@;
        match rewrite_step(html, i, registry, store, ratios, &mut out) {
            Err(e) => {
                return Err(e);
            },
            Ok(j) => {
                proof {
                    let step = step_spec(html@, i as int, reg, texts, sizes, ratios@);
                    let delta = step->Ok_0.0;
                    let rj = rewrite_from(html@, j as int, reg, texts, sizes, ratios@);
                    assert(rewrite_from(html@, i as int, reg, texts, sizes, ratios@) == match rj {
                        Ok(rest) => Ok::<Seq<u8>, IssueV>(delta + rest),
                        Err(e) => Err::<Seq<u8>, IssueV>(e),
                    });
                    if rj is Ok {
                        assert(out_before + (delta + rj->Ok_0) =~= (out_before + delta)
                            + rj->Ok_0);
                    }
                }
                i = j;
            },
        }
    }
}

} // verus!
