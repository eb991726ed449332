//! Building the `srcset` attribute of an optimized `img` element.
//!
//! For each configured pixel ratio the candidate names the generated variant
//! only when the variant's file is strictly smaller than the source file;
//! otherwise it names the source itself. One trailing candidate always
//! advertises the source at its true scale, the ratio of the natural width
//! to the logical render size.

use vstd::prelude::*;
use vstd::slice::slice_subrange;
use crate::paths::{extension_of, variant_path, variant_path_spec};
use crate::text::{
    dec_of, lemma_concat_assoc, pad_digits, push_bytes, push_dec, push_pad, trim_end_all,
    trimmed_end,
};

verus! {

broadcast use lemma_concat_assoc;

/// The fixed logical render size, in CSS pixels, at which images appear.
pub const RENDER_SIZE: u32 = 244;

/// The decimal text of the rational `width / size`, truncated to five
/// fractional digits, with trailing zeros and a trailing point removed:
/// `2` for 488/244, `8.19672` for 2000/244.
pub open spec fn scale_text(width: u32, size: u32) -> Seq<u8>
    recommends
        size > 0,
{
    let ip = (width as nat) / (size as nat);
    let fr = ((width as nat) % (size as nat)) * 100000 / (size as nat);
    if fr == 0 {
        dec_of(ip)
    } else {
        dec_of(ip) + seq![('.' as u8)] + trim_end_all(pad_digits(fr, 5), seq![('0' as u8)])
    }
}

/// Append the true-scale text of `width / size` to `out`.
pub fn push_scale(out: &mut Vec<u8>, width: u32, size: u32)
    requires
        size > 0,
    ensures
        final(out)@ == old(out)@ + scale_text(width, size),
{
    let ip: u32 = width / size;
    let fr: u64 = ((width % size) as u64) * 100000u64 / (size as u64);
    assert(ip as nat == (width as nat) / (size as nat));
    assert(fr as nat == ((width as nat) % (size as nat)) * 100000 / (size as nat));
    push_dec(out, ip);
    if fr != 0 {
        out.push('.' as u8);
        let mut frac: Vec<u8> = Vec::new();
        push_pad(&mut frac, fr, 5);
        let zero: Vec<u8> = vec![('0' as u8)];
        assert(zero@ =~= seq![('0' as u8)]);
        let e = trimmed_end(frac.as_slice(), frac.len(), zero.as_slice());
        proof {
            assert(frac@.subrange(0, frac@.len() as int) =~= frac@);
        }
        push_bytes(out, slice_subrange(frac.as_slice(), 0, e));
        proof {
            assert(frac@.subrange(0, e as int) == trim_end_all(pad_digits(fr as nat, 5), zero@));
            assert(out@ =~= old(out)@ + scale_text(width, size));
        }
    }
}

/// One leading `srcset` candidate: the variant's path when its file is
/// strictly smaller than the source's, else the source path, then a space
/// and the ratio descriptor `{ratio}x`.
pub open spec fn candidate_spec(src: Seq<u8>, ratio: u32, vsize: u64, osize: u64) -> Seq<u8>
    recommends
        variant_path_spec(src, ratio) is Some,
{
    let url = if vsize < osize {
        variant_path_spec(src, ratio)->Some_0
    } else {
        src
    };
    url + seq![(' ' as u8)] + dec_of(ratio as nat) + seq![('x' as u8)]
}

/// The trailing candidate: the source path at its true scale.
pub open spec fn trailing_candidate_spec(src: Seq<u8>, width: u32) -> Seq<u8> {
    src + seq![(' ' as u8)] + scale_text(width, RENDER_SIZE) + seq![('x' as u8)]
}

/// Every part of a `srcset`: one candidate per configured ratio, in order,
/// and the trailing true-scale candidate.
pub open spec fn srcset_parts(
    src: Seq<u8>,
    ratios: Seq<u32>,
    vsizes: Seq<u64>,
    osize: u64,
    width: u32,
) -> Seq<Seq<u8>> {
    Seq::new(ratios.len(), |i: int| candidate_spec(src, ratios[i], vsizes[i], osize)).push(
        trailing_candidate_spec(src, width),
    )
}

/// `parts` joined with `sep` between neighbours.
pub open spec fn join_sep(parts: Seq<Seq<u8>>, sep: Seq<u8>) -> Seq<u8>
    decreases parts.len(),
{
    if parts.len() == 0 {
        Seq::empty()
    } else if parts.len() == 1 {
        parts[0]
    } else {
        parts[0] + sep + join_sep(parts.drop_first(), sep)
    }
}

/// Joining one more part appends a separator and that part.
pub proof fn lemma_join_snoc(parts: Seq<Seq<u8>>, sep: Seq<u8>, p: Seq<u8>)
    ensures
        join_sep(parts.push(p), sep) == if parts.len() == 0 {
            p
        } else {
            join_sep(parts, sep) + sep + p
        },
    decreases parts.len(),
{
    if parts.len() == 0 {
        assert(parts.push(p).len() == 1);
        assert(join_sep(parts.push(p), sep) == parts.push(p)[0]);
    } else {
        assert(parts.push(p).drop_first() =~= parts.drop_first().push(p));
        lemma_join_snoc(parts.drop_first(), sep, p);
        if parts.len() == 1 {
            assert(join_sep(parts.push(p), sep) == parts[0] + sep + p);
            assert(join_sep(parts, sep) == parts[0]);
        }
    }
}

/// The full `srcset` text: the parts joined with `", "`.
#[verifier::opaque]
pub open spec fn srcset_spec(
    src: Seq<u8>,
    ratios: Seq<u32>,
    vsizes: Seq<u64>,
    osize: u64,
    width: u32,
) -> Seq<u8> {
    join_sep(srcset_parts(src, ratios, vsizes, osize, width), seq![(',' as u8), (' ' as u8)])
}

/// Append one leading candidate to `out`.
fn push_candidate(out: &mut Vec<u8>, src: &[u8], ratio: u32, vsize: u64, osize: u64)
    requires
        extension_of(src@) is Some,
    ensures
        final(out)@ == old(out)@ + candidate_spec(src@, ratio, vsize, osize),
{
    if vsize < osize {
        let vp = variant_path(src, ratio);
        match vp {
            Some(v) => push_bytes(out, v.as_slice()),
            None => {
                // unreachable: `src` has an extension, so the variant path
                // exists; keep the output total regardless
                assert(false);
            },
        }
    } else {
        push_bytes(out, src);
    }
    out.push(' ' as u8);
    push_dec(out, ratio);
    out.push('x' as u8);
    assert(out@ =~= old(out)@ + candidate_spec(src@, ratio, vsize, osize));
}

/// Append the trailing true-scale candidate to `out`.
fn push_trailing(out: &mut Vec<u8>, src: &[u8], width: u32)
    ensures
        final(out)@ == old(out)@ + trailing_candidate_spec(src@, width),
{
    push_bytes(out, src);
    out.push(' ' as u8);
    push_scale(out, width, RENDER_SIZE);
    out.push('x' as u8);
    assert(out@ =~= old(out)@ + trailing_candidate_spec(src@, width));
}

/// Build the `srcset` text for source image `src` of natural width `width`
/// and on-disk size `osize`, for the configured pixel ratios, whose variant
/// files have the sizes `vsizes`.
#[verifier::rlimit(100)]
pub fn build_srcset(
    src: &[u8],
    ratios: &[u32],
    vsizes: &[u64],
    osize: u64,
    width: u32,
) -> (r: Vec<u8>)
    requires
        ratios@.len() == vsizes@.len(),
        extension_of(src@) is Some,
    ensures
        r@ == srcset_spec(src@, ratios@, vsizes@, osize, width),
{
    let ghost all_parts = srcset_parts(src@, ratios@, vsizes@, osize, width);
    let ghost sep = seq![(',' as u8), (' ' as u8)];
    let mut out: Vec<u8> = Vec::new();
    let mut i: usize = 0;
    while i < ratios.len()
        invariant
            i <= ratios@.len(),
            ratios@.len() == vsizes@.len(),
            extension_of(src@) is Some,
            all_parts == srcset_parts(src@, ratios@, vsizes@, osize, width),
            sep == seq![(',' as u8), (' ' as u8)],
            out@ == join_sep(
                Seq::new(i as nat, |k: int| candidate_spec(src@, ratios@[k], vsizes@[k], osize)),
                sep,
            ),
        decreases ratios@.len() - i,
    {
        let ghost done = Seq::new(
            i as nat,
            |k: int| candidate_spec(src@, ratios@[k], vsizes@[k], osize),
        );
        if i > 0 {
            out.push(',' as u8);
            out.push(' ' as u8);
        }
        push_candidate(&mut out, src, ratios[i], vsizes[i], osize);
        proof {
            let done2 = Seq::new(
                (i + 1) as nat,
                |k: int| candidate_spec(src@, ratios@[k], vsizes@[k], osize),
            );
            assert(done2 =~= done.push(candidate_spec(src@, ratios@[i as int], vsizes@[i as int], osize)));
            lemma_join_snoc(done, sep, candidate_spec(src@, ratios@[i as int], vsizes@[i as int], osize));
            assert(out@ =~= join_sep(done2, sep));
        }
        i += 1;
    }
    if i > 0 {
        out.push(',' as u8);
        out.push(' ' as u8);
    }
    push_trailing(&mut out, src, width);
    proof {
        reveal(srcset_spec);
        let done = Seq::new(
            ratios@.len(),
            |k: int| candidate_spec(src@, ratios@[k], vsizes@[k], osize),
        );
        lemma_join_snoc(done, sep, trailing_candidate_spec(src@, width));
        assert(all_parts =~= done.push(trailing_candidate_spec(src@, width)));
        assert(out@ =~= join_sep(all_parts, sep));
    }
    out
}

/// A variant that achieved no strict size reduction is never advertised:
/// at every ratio whose variant file is not strictly smaller than the
/// source file, the candidate names the source path itself.
pub proof fn lemma_larger_variant_keeps_source(
    src: Seq<u8>,
    ratios: Seq<u32>,
    vsizes: Seq<u64>,
    osize: u64,
    width: u32,
    k: int,
)
    requires
        ratios.len() == vsizes.len(),
        0 <= k < ratios.len(),
        vsizes[k] >= osize,
    ensures
        srcset_parts(src, ratios, vsizes, osize, width)[k] == src + seq![(' ' as u8)] + dec_of(
            ratios[k] as nat,
        ) + seq![('x' as u8)],
{
}

/// A variant that did achieve a strict size reduction is the one
/// advertised: at every ratio whose variant file is strictly smaller than
/// the source file, the candidate names the derived variant path.
pub proof fn lemma_smaller_variant_uses_variant_path(
    src: Seq<u8>,
    ratios: Seq<u32>,
    vsizes: Seq<u64>,
    osize: u64,
    width: u32,
    k: int,
)
    requires
        ratios.len() == vsizes.len(),
        0 <= k < ratios.len(),
        vsizes[k] < osize,
    ensures
        srcset_parts(src, ratios, vsizes, osize, width)[k] == variant_path_spec(
            src,
            ratios[k],
        )->Some_0 + seq![(' ' as u8)] + dec_of(ratios[k] as nat) + seq![('x' as u8)],
{
}

/// The trailing candidate of every `srcset` names the source path at the
/// true scale `width / RENDER_SIZE`, computed from the natural width of the
/// original image.
pub proof fn lemma_trailing_candidate_true_scale(
    src: Seq<u8>,
    ratios: Seq<u32>,
    vsizes: Seq<u64>,
    osize: u64,
    width: u32,
)
    ensures
        srcset_parts(src, ratios, vsizes, osize, width).last() == src + seq![(' ' as u8)]
            + scale_text(width, RENDER_SIZE) + seq![('x' as u8)],
{
}

} // verus!
