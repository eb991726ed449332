//! Logical asset paths: the deterministic variant naming rule, file-name
//! helpers and the icon-glyph path mapping.
//!
//! A logical path is a site-root-relative URL (`/images/plants.webp`) held as
//! bytes; it is the stable identity of an asset across the registry, the
//! rewriter and the file system.

use vstd::prelude::*;
use vstd::slice::slice_subrange;
use crate::text::{
    bytes_eq, dec_of, find_byte, find_byte_at, push_bytes, push_dec, rfind_before, rfind_byte,
    trim_end_all, trim_start_all, trimmed_end, trimmed_start, lemma_concat_assoc,
};

verus! {

broadcast use lemma_concat_assoc;

/// Index at which the file name (the part after the last `/`) of `s` begins.
pub open spec fn file_name_start(s: Seq<u8>) -> int {
    match rfind_before(s, '/' as u8, s.len() as int) {
        Some(j) => j + 1,
        None => 0,
    }
}

/// The extension of the file name of `s`: what follows the last `.` of the
/// file name, provided that dot is neither its first byte nor absent.
pub open spec fn extension_of(s: Seq<u8>) -> Option<Seq<u8>> {
    let fs = file_name_start(s);
    let file = s.subrange(fs, s.len() as int);
    match rfind_before(file, '.' as u8, file.len() as int) {
        Some(j) => if j > 0 {
            Some(file.subrange(j + 1, file.len() as int))
        } else {
            None
        },
        None => None,
    }
}

/// The file name of a variant: the stem (the file name with every trailing
/// copy of the extension and then every trailing dot removed), `_`, the
/// ratio in decimal, `x.`, and the extension.
pub open spec fn variant_file_name(file: Seq<u8>, ext: Seq<u8>, ratio: u32) -> Seq<u8> {
    trim_end_all(trim_end_all(file, ext), seq![('.' as u8)]) + seq![('_' as u8)] + dec_of(
        ratio as nat,
    ) + seq![('x' as u8), ('.' as u8)] + ext
}

/// The derived path of the variant of source image `src` at pixel ratio
/// `ratio`: a pure function of `(src, ratio)`, so the path is re-derivable
/// at any time without a side table. `None` when `src` has no extension.
pub open spec fn variant_path_spec(src: Seq<u8>, ratio: u32) -> Option<Seq<u8>> {
    match extension_of(src) {
        Some(ext) => {
            let fs = file_name_start(src);
            Some(
                src.subrange(0, fs) + variant_file_name(
                    src.subrange(fs, src.len() as int),
                    ext,
                    ratio,
                ),
            )
        },
        None => None,
    }
}

/// Start index of the file name of `s`.
fn file_name_start_exec(s: &[u8]) -> (r: usize)
    ensures
        r as int == file_name_start(s@),
        r <= s@.len(),
{
    let n = s.len();
    match rfind_byte(s, '/' as u8) {
        Some(j) => {
            assert(j < n);
            j + 1
        },
        None => 0,
    }
}

/// The derived path of the variant of `src` at pixel ratio `ratio`;
/// `None` when `src` has no extension.
pub fn variant_path(src: &[u8], ratio: u32) -> (r: Option<Vec<u8>>)
    ensures
        match r {
            Some(v) => variant_path_spec(src@, ratio) == Some(v@),
            None => variant_path_spec(src@, ratio) is None,
        },
{
    let fs = file_name_start_exec(src);
    let file = slice_subrange(src, fs, src.len());
    let dot_pos = match rfind_byte(file, '.' as u8) {
        Some(j) => j,
        None => {
            return None;
        },
    };
    if dot_pos == 0 {
        return None;
    }
    let ext = slice_subrange(file, dot_pos + 1, file.len());
    let ghost ext_seq = ext@;
    let e1 = trimmed_end(file, file.len(), ext);
    let dot: Vec<u8> = vec![('.' as u8)];
    assert(dot@ =~= seq![('.' as u8)]);
    let ghost trimmed1 = trim_end_all(file@, ext@);
    let stem_end = trimmed_end(file, e1, dot.as_slice());
    proof {
        assert(file@.subrange(0, file@.len() as int) =~= file@);
        assert(file@.subrange(0, e1 as int) == trimmed1);
        assert(file@.subrange(0, stem_end as int) == trim_end_all(trimmed1, seq![('.' as u8)]));
    }
    let mut out: Vec<u8> = Vec::new();
    let prefix = slice_subrange(src, 0, fs);
    push_bytes(&mut out, prefix);
    let stem = slice_subrange(file, 0, stem_end);
    push_bytes(&mut out, stem);
    out.push('_' as u8);
    push_dec(&mut out, ratio);
    out.push('x' as u8);
    out.push('.' as u8);
    push_bytes(&mut out, ext);
    proof {
        assert(stem@ == trim_end_all(trimmed1, seq![('.' as u8)])) by {
            assert(stem@ =~= file@.subrange(0, stem_end as int));
        }
        assert(out@ =~= src@.subrange(0, fs as int) + variant_file_name(file@, ext_seq, ratio));
    }
    Some(out)
}

/// Whether `src` has an extension, so that variant paths can be derived.
pub fn has_extension(src: &[u8]) -> (r: bool)
    ensures
        r <==> extension_of(src@) is Some,
{
    let fs = file_name_start_exec(src);
    let file = slice_subrange(src, fs, src.len());
    match rfind_byte(file, '.' as u8) {
        Some(j) => j > 0,
        None => false,
    }
}

/// The file name of `path` with the suffix `ext` removed; `None` when the
/// file name does not end in `ext`.
pub open spec fn filename_drop_ext_spec(path: Seq<u8>, ext: Seq<u8>) -> Option<Seq<u8>> {
    let file = path.subrange(file_name_start(path), path.len() as int);
    if file.len() >= ext.len() && file.subrange(file.len() - ext.len(), file.len() as int) == ext {
        Some(file.subrange(0, file.len() - ext.len()))
    } else {
        None
    }
}

/// The file name of `path` (what follows the last `/`) without its suffix
/// `ext`; `None` when the file name does not end in `ext`.
pub fn filename_drop_ext(path: &[u8], ext: &[u8]) -> (r: Option<Vec<u8>>)
    ensures
        match r {
            Some(v) => filename_drop_ext_spec(path@, ext@) == Some(v@),
            None => filename_drop_ext_spec(path@, ext@) is None,
        },
{
    let fs = file_name_start_exec(path);
    let file = slice_subrange(path, fs, path.len());
    if file.len() < ext.len() {
        return None;
    }
    let tail = slice_subrange(file, file.len() - ext.len(), file.len());
    if !bytes_eq(tail, ext) {
        return None;
    }
    let mut out: Vec<u8> = Vec::new();
    push_bytes(&mut out, slice_subrange(file, 0, file.len() - ext.len()));
    assert(out@ =~= file@.subrange(0, file@.len() - ext@.len()));
    Some(out)
}

/// Why a class list could not be mapped to an icon file.
#[derive(PartialEq, Eq, Structural, Clone, Copy, Debug)]
pub enum IconError {
    /// The first class token names no known icon family.
    UnsupportedFamily,
    /// The class list has no second token.
    MissingName,
}

pub open spec fn lit_fas() -> Seq<u8> {
    seq![('f' as u8), ('a' as u8), ('s' as u8)]
}

pub open spec fn lit_fab() -> Seq<u8> {
    seq![('f' as u8), ('a' as u8), ('b' as u8)]
}

pub open spec fn lit_solid() -> Seq<u8> {
    seq![('s' as u8), ('o' as u8), ('l' as u8), ('i' as u8), ('d' as u8)]
}

pub open spec fn lit_brands() -> Seq<u8> {
    seq![('b' as u8), ('r' as u8), ('a' as u8), ('n' as u8), ('d' as u8), ('s' as u8)]
}

pub open spec fn lit_fa_dash() -> Seq<u8> {
    seq![('f' as u8), ('a' as u8), ('-' as u8)]
}

pub open spec fn lit_svgs() -> Seq<u8> {
    seq![('s' as u8), ('v' as u8), ('g' as u8), ('s' as u8), ('/' as u8)]
}

pub open spec fn lit_dot_svg() -> Seq<u8> {
    seq![('.' as u8), ('s' as u8), ('v' as u8), ('g' as u8)]
}

/// The first two space-separated tokens of `class`: `class` up to the first
/// space, and from there to the next space or the end. `None` when there is
/// no first space.
pub open spec fn class_tokens(class: Seq<u8>) -> Option<(Seq<u8>, Seq<u8>)> {
    match find_byte_at(class, ' ' as u8, 0) {
        Some(p1) => {
            let rest_end = match find_byte_at(class, ' ' as u8, p1 + 1) {
                Some(p2) => p2,
                None => class.len() as int,
            };
            Some((class.subrange(0, p1), class.subrange(p1 + 1, rest_end)))
        },
        None => None,
    }
}

/// The directory name of the icon family that a first class token selects.
pub open spec fn family_dir(tok: Seq<u8>) -> Option<Seq<u8>> {
    if tok == lit_fas() {
        Some(lit_solid())
    } else if tok == lit_fab() {
        Some(lit_brands())
    } else {
        None
    }
}

/// The icon file that a class list selects: `svgs/` + family directory + `/`
/// + the second token with every leading `fa-` removed + `.svg`.
/// An unknown family or a missing second token is an error, never a guess.
pub open spec fn icon_path_spec(class: Seq<u8>) -> Result<Seq<u8>, IconError> {
    match class_tokens(class) {
        None => Err(IconError::MissingName),
        Some((tok1, tok2)) => match family_dir(tok1) {
            None => Err(IconError::UnsupportedFamily),
            Some(dir) => Ok(
                lit_svgs() + dir + seq![('/' as u8)] + trim_start_all(tok2, lit_fa_dash())
                    + lit_dot_svg(),
            ),
        },
    }
}

/// Map a class list such as `fab fa-github` to the path of its icon file,
/// `svgs/brands/github.svg`.
#[verifier::rlimit(60)]
pub fn icon_path(class: &[u8]) -> (r: Result<Vec<u8>, IconError>)
    ensures
        match r {
            Ok(v) => icon_path_spec(class@) == Ok::<Seq<u8>, IconError>(v@),
            Err(e) => icon_path_spec(class@) == Err::<Seq<u8>, IconError>(e),
        },
{
    let n = class.len();
    let p1 = match find_byte(class, ' ' as u8, 0) {
        Some(p1) => p1,
        None => {
            return Err(IconError::MissingName);
        },
    };
    assert(p1 < n);
    let rest_end = match find_byte(class, ' ' as u8, p1 + 1) {
        Some(p2) => p2,
        None => class.len(),
    };
    let tok1 = slice_subrange(class, 0, p1);
    let fas: Vec<u8> = vec![('f' as u8), ('a' as u8), ('s' as u8)];
    let fab: Vec<u8> = vec![('f' as u8), ('a' as u8), ('b' as u8)];
    assert(fas@ =~= lit_fas());
    assert(fab@ =~= lit_fab());
    let dir: Vec<u8> = if bytes_eq(tok1, fas.as_slice()) {
        let d: Vec<u8> = vec![('s' as u8), ('o' as u8), ('l' as u8), ('i' as u8), ('d' as u8)];
        assert(d@ =~= lit_solid());
        d
    } else if bytes_eq(tok1, fab.as_slice()) {
        let d: Vec<u8> = vec![
            ('b' as u8),
            ('r' as u8),
            ('a' as u8),
            ('n' as u8),
            ('d' as u8),
            ('s' as u8),
        ];
        assert(d@ =~= lit_brands());
        d
    } else {
        return Err(IconError::UnsupportedFamily);
    };
    let fa_dash: Vec<u8> = vec![('f' as u8), ('a' as u8), ('-' as u8)];
    assert(fa_dash@ =~= lit_fa_dash());
    let ghost tok2 = class@.subrange(p1 + 1, rest_end as int);
    let name_start = trimmed_start(
        slice_subrange(class, 0, rest_end),
        p1 + 1,
        fa_dash.as_slice(),
    );
    proof {
        let head = class@.subrange(0, rest_end as int);
        assert(head.subrange(p1 + 1, head.len() as int) =~= tok2);
        assert(head.subrange(name_start as int, head.len() as int) == trim_start_all(
            tok2,
            lit_fa_dash(),
        ));
    }
    let mut out: Vec<u8> = Vec::new();
    let svgs: Vec<u8> = vec![('s' as u8), ('v' as u8), ('g' as u8), ('s' as u8), ('/' as u8)];
    assert(svgs@ =~= lit_svgs());
    push_bytes(&mut out, svgs.as_slice());
    push_bytes(&mut out, dir.as_slice());
    out.push('/' as u8);
    let name = slice_subrange(class, name_start, rest_end);
    push_bytes(&mut out, name);
    let dot_svg: Vec<u8> = vec![('.' as u8), ('s' as u8), ('v' as u8), ('g' as u8)];
    assert(dot_svg@ =~= lit_dot_svg());
    push_bytes(&mut out, dot_svg.as_slice());
    proof {
        let head = class@.subrange(0, rest_end as int);
        assert(name@ =~= head.subrange(name_start as int, head.len() as int));
        assert(out@ =~= lit_svgs() + dir@ + seq![('/' as u8)] + trim_start_all(
            tok2,
            lit_fa_dash(),
        ) + lit_dot_svg());
    }
    Ok(out)
}

} // verus!
