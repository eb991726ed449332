//! Byte-string helpers shared by the path, srcset and rewrite modules.
//!
//! All document and path text in this library is handled as ASCII-oriented
//! byte sequences (`Vec<u8>` / `&[u8]`), matching the byte stream that the
//! rewriter consumes.

use vstd::prelude::*;
use vstd::slice::slice_subrange;

verus! {

/// Concatenation of sequences is associative.
pub broadcast proof fn lemma_concat_assoc<T>(a: Seq<T>, b: Seq<T>, c: Seq<T>)
    ensures
        #[trigger] ((a + b) + c) == a + (b + c),
{
    assert((a + b) + c =~= a + (b + c));
}

/// ASCII lowercase of one byte.
pub open spec fn lower_byte(b: u8) -> u8 {
    if ('A' as u8) <= b && b <= ('Z' as u8) {
        (b + 32) as u8
    } else {
        b
    }
}

/// ASCII lowercase of a byte sequence.
pub open spec fn to_lower(s: Seq<u8>) -> Seq<u8> {
    Seq::new(s.len(), |i: int| lower_byte(s[i]))
}

/// ASCII lowercase of one byte.
pub fn lower_byte_exec(b: u8) -> (r: u8)
    ensures
        r == lower_byte(b),
{
    if ('A' as u8) <= b && b <= ('Z' as u8) {
        b + 32
    } else {
        b
    }
}

/// Whether two byte strings hold the same bytes.
pub fn bytes_eq(a: &[u8], b: &[u8]) -> (r: bool)
    ensures
        r <==> a@ == b@,
{
    if a.len() != b.len() {
        assert(a@.len() != b@.len());
        return false;
    }
    let mut i: usize = 0;
    while i < a.len()
        invariant
            i <= a.len(),
            a.len() == b.len(),
            forall|j: int| 0 <= j < i ==> a@[j] == b@[j],
        decreases a.len() - i,
    {
        if a[i] != b[i] {
            return false;
        }
        i += 1;
    }
    assert(a@ =~= b@);
    true
}

/// Append `s` to `out`.
pub fn push_bytes(out: &mut Vec<u8>, s: &[u8])
    ensures
        final(out)@ == old(out)@ + s@,
{
    let mut i: usize = 0;
    while i < s.len()
        invariant
            i <= s.len(),
            out@ == old(out)@ + s@.subrange(0, i as int),
        decreases s.len() - i,
    {
        out.push(s[i]);
        assert(old(out)@ + s@.subrange(0, i as int) + seq![s@[i as int]] =~= old(out)@ + s@.subrange(
            0,
            i as int + 1,
        ));
        i += 1;
    }
    assert(s@.subrange(0, s@.len() as int) =~= s@);
}

/// The ASCII digit for `n < 10`.
pub open spec fn digit_byte(n: u8) -> u8 {
    (('0' as u8) + n) as u8
}

/// Decimal notation of `n`, most significant digit first, no leading zeros
/// (except for `n == 0`, which is the single byte `'0'`).
pub open spec fn dec_of(n: nat) -> Seq<u8>
    decreases n,
{
    if n < 10 {
        seq![digit_byte(n as u8)]
    } else {
        dec_of(n / 10) + seq![digit_byte((n % 10) as u8)]
    }
}

/// Append the decimal notation of `n` to `out`.
pub fn push_dec(out: &mut Vec<u8>, n: u32)
    ensures
        final(out)@ == old(out)@ + dec_of(n as nat),
    decreases n,
{
    if n < 10 {
        out.push(('0' as u8) + (n as u8));
        assert(old(out)@.push(digit_byte(n as u8)) =~= old(out)@ + dec_of(n as nat));
    } else {
        push_dec(out, n / 10);
        out.push(('0' as u8) + ((n % 10) as u8));
        assert((old(out)@ + dec_of((n / 10) as nat)).push(digit_byte((n % 10) as u8)) =~= old(out)@
            + dec_of(n as nat));
    }
}

/// The decimal notation of `n` padded with leading zeros to `k` digits
/// (only the `k` lowest digits of `n` appear).
pub open spec fn pad_digits(n: nat, k: nat) -> Seq<u8>
    decreases k,
{
    if k == 0 {
        Seq::empty()
    } else {
        pad_digits(n / 10, (k - 1) as nat) + seq![digit_byte((n % 10) as u8)]
    }
}

/// Append the `k` lowest decimal digits of `n`, zero padded, to `out`.
pub fn push_pad(out: &mut Vec<u8>, n: u64, k: u32)
    ensures
        final(out)@ == old(out)@ + pad_digits(n as nat, k as nat),
    decreases k,
{
    if k == 0 {
        assert(old(out)@ + pad_digits(n as nat, 0) =~= old(out)@);
    } else {
        push_pad(out, n / 10, k - 1);
        out.push(('0' as u8) + ((n % 10) as u8));
        assert((old(out)@ + pad_digits((n / 10) as nat, (k - 1) as nat)).push(
            digit_byte((n % 10) as u8),
        ) =~= old(out)@ + pad_digits(n as nat, k as nat));
    }
}

/// The first position `>= from` at which byte `b` occurs in `s`, if any.
pub open spec fn find_byte_at(s: Seq<u8>, b: u8, from: int) -> Option<int>
    decreases s.len() - from,
{
    if from < 0 || from >= s.len() {
        None
    } else if s[from] == b {
        Some(from)
    } else {
        find_byte_at(s, b, from + 1)
    }
}

/// First occurrence of byte `b` in `s` at or after `from`.
pub fn find_byte(s: &[u8], b: u8, from: usize) -> (r: Option<usize>)
    ensures
        match r {
            Some(i) => {
                &&& find_byte_at(s@, b, from as int) == Some(i as int)
                &&& from <= i < s@.len()
            },
            None => find_byte_at(s@, b, from as int) is None,
        },
{
    let mut i: usize = from;
    while i < s.len()
        invariant
            from <= i,
            find_byte_at(s@, b, from as int) == find_byte_at(s@, b, i as int),
        decreases s@.len() - i,
    {
        if s[i] == b {
            return Some(i);
        }
        assert(find_byte_at(s@, b, i as int) == find_byte_at(s@, b, i + 1));
        i += 1;
    }
    None
}

/// The last position `< before` at which byte `b` occurs in `s`, if any.
pub open spec fn rfind_before(s: Seq<u8>, b: u8, before: int) -> Option<int>
    decreases before,
{
    if before <= 0 || before > s.len() {
        None
    } else if s[before - 1] == b {
        Some(before - 1)
    } else {
        rfind_before(s, b, before - 1)
    }
}

/// Last occurrence of byte `b` in `s`, if any.
pub fn rfind_byte(s: &[u8], b: u8) -> (r: Option<usize>)
    ensures
        match r {
            Some(i) => {
                &&& rfind_before(s@, b, s@.len() as int) == Some(i as int)
                &&& i < s@.len()
            },
            None => rfind_before(s@, b, s@.len() as int) is None,
        },
{
    let mut i: usize = s.len();
    while i > 0
        invariant
            i <= s.len(),
            rfind_before(s@, b, s@.len() as int) == rfind_before(s@, b, i as int),
        decreases i,
    {
        if s[i - 1] == b {
            return Some(i - 1);
        }
        assert(rfind_before(s@, b, i as int) == rfind_before(s@, b, i - 1));
        i -= 1;
    }
    None
}

/// `s` with every copy of `pat` removed from the end, one after the other.
/// An empty `pat` removes nothing.
pub open spec fn trim_end_all(s: Seq<u8>, pat: Seq<u8>) -> Seq<u8>
    decreases s.len(),
{
    if pat.len() == 0 {
        s
    } else if s.len() >= pat.len() && s.subrange(s.len() - pat.len(), s.len() as int) == pat {
        trim_end_all(s.subrange(0, s.len() - pat.len()), pat)
    } else {
        s
    }
}

/// `s` with every copy of `pat` removed from the start, one after the other.
/// An empty `pat` removes nothing.
pub open spec fn trim_start_all(s: Seq<u8>, pat: Seq<u8>) -> Seq<u8>
    decreases s.len(),
{
    if pat.len() == 0 {
        s
    } else if s.len() >= pat.len() && s.subrange(0, pat.len() as int) == pat {
        trim_start_all(s.subrange(pat.len() as int, s.len() as int), pat)
    } else {
        s
    }
}

/// The end position of `s[0..e]` once every trailing copy of `pat` is removed.
pub fn trimmed_end(s: &[u8], e: usize, pat: &[u8]) -> (r: usize)
    requires
        e <= s@.len(),
    ensures
        r <= e,
        s@.subrange(0, r as int) == trim_end_all(s@.subrange(0, e as int), pat@),
{
    let mut e2: usize = e;
    loop
        invariant
            e2 <= e <= s@.len(),
            trim_end_all(s@.subrange(0, e as int), pat@) == trim_end_all(
                s@.subrange(0, e2 as int),
                pat@,
            ),
        decreases e2,
    {
        let ghost cur = s@.subrange(0, e2 as int);
        if pat.len() == 0 || pat.len() > e2 {
            assert(trim_end_all(cur, pat@) == cur);
            return e2;
        }
        let tail = slice_subrange(s, e2 - pat.len(), e2);
        assert(cur.subrange(e2 - pat@.len(), e2 as int) =~= tail@);
        if bytes_eq(tail, pat) {
            assert(cur.subrange(0, e2 - pat@.len()) =~= s@.subrange(0, e2 - pat@.len()));
            assert(trim_end_all(cur, pat@) == trim_end_all(
                s@.subrange(0, e2 - pat@.len()),
                pat@,
            ));
            e2 = e2 - pat.len();
        } else {
            assert(trim_end_all(cur, pat@) == cur);
            return e2;
        }
    }
}

/// The start position of `s[b..]` once every leading copy of `pat` is removed.
pub fn trimmed_start(s: &[u8], b: usize, pat: &[u8]) -> (r: usize)
    requires
        b <= s@.len(),
    ensures
        b <= r <= s@.len(),
        s@.subrange(r as int, s@.len() as int) == trim_start_all(
            s@.subrange(b as int, s@.len() as int),
            pat@,
        ),
{
    let mut b2: usize = b;
    loop
        invariant
            b <= b2 <= s@.len(),
            trim_start_all(s@.subrange(b as int, s@.len() as int), pat@) == trim_start_all(
                s@.subrange(b2 as int, s@.len() as int),
                pat@,
            ),
        decreases s@.len() - b2,
    {
        let ghost cur = s@.subrange(b2 as int, s@.len() as int);
        if pat.len() == 0 || pat.len() > s.len() - b2 {
            assert(trim_start_all(cur, pat@) == cur);
            return b2;
        }
        let head = slice_subrange(s, b2, b2 + pat.len());
        assert(cur.subrange(0, pat@.len() as int) =~= head@);
        if bytes_eq(head, pat) {
            assert(cur.subrange(pat@.len() as int, cur.len() as int) =~= s@.subrange(
                b2 + pat@.len(),
                s@.len() as int,
            ));
            assert(trim_start_all(cur, pat@) == trim_start_all(
                s@.subrange(b2 + pat@.len(), s@.len() as int),
                pat@,
            ));
            b2 = b2 + pat.len();
        } else {
            assert(trim_start_all(cur, pat@) == cur);
            return b2;
        }
    }
}

/// Whether `pat` occurs in `s` starting at position `i`.
pub open spec fn matches_at(s: Seq<u8>, pat: Seq<u8>, i: int) -> bool {
    &&& 0 <= i
    &&& i + pat.len() <= s.len()
    &&& s.subrange(i, i + pat.len() as int) == pat
}

/// The first position `>= from` at which `pat` occurs in `s`, if any.
pub open spec fn find_at(s: Seq<u8>, pat: Seq<u8>, from: int) -> Option<int>
    decreases s.len() - from,
{
    if from < 0 || from + pat.len() > s.len() {
        None
    } else if matches_at(s, pat, from) {
        Some(from)
    } else if pat.len() == 0 {
        None
    } else {
        find_at(s, pat, from + 1)
    }
}

/// Where `find_at` finds, it finds within bounds.
pub proof fn lemma_find_at_bounds(s: Seq<u8>, pat: Seq<u8>, from: int)
    ensures
        match find_at(s, pat, from) {
            Some(p) => from <= p && p + pat.len() <= s.len(),
            None => true,
        },
    decreases s.len() - from,
{
    if !(from < 0 || from + pat.len() > s.len()) && !matches_at(s, pat, from) && pat.len() != 0 {
        lemma_find_at_bounds(s, pat, from + 1);
    }
}

/// First occurrence of `pat` in `s` at or after `from`.
pub fn find_from(s: &[u8], pat: &[u8], from: usize) -> (r: Option<usize>)
    ensures
        match r {
            Some(i) => {
                &&& find_at(s@, pat@, from as int) == Some(i as int)
                &&& from <= i
                &&& i + pat@.len() <= s@.len()
            },
            None => find_at(s@, pat@, from as int) is None,
        },
{
    let mut i: usize = from;
    loop
        invariant
            from <= i,
            find_at(s@, pat@, from as int) == find_at(s@, pat@, i as int),
        decreases s@.len() + 1 - i,
    {
        if i > s.len() || pat.len() > s.len() - i {
            return None;
        }
        let mut k: usize = 0;
        let mut hit = true;
        while hit && k < pat.len()
            invariant
                k <= pat.len(),
                i + pat.len() <= s.len(),
                hit ==> (forall|j: int| 0 <= j < k ==> s@[i + j] == pat@[j]),
                !hit ==> !matches_at(s@, pat@, i as int),
            decreases pat.len() - k,
        {
            if s[i + k] != pat[k] {
                hit = false;
                proof {
                    let sub = s@.subrange(i as int, i + pat@.len() as int);
                    if matches_at(s@, pat@, i as int) {
                        assert(sub[k as int] == s@[i + k as int]);
                    }
                }
            }
            k += 1;
        }
        if hit {
            assert(s@.subrange(i as int, i + pat@.len() as int) =~= pat@) by {
                let sub = s@.subrange(i as int, i + pat@.len() as int);
                assert(forall|j: int| 0 <= j < pat@.len() ==> #[trigger] sub[j] == s@[i + j]);
            }
            assert(matches_at(s@, pat@, i as int));
            return Some(i);
        }
        proof {
            if pat@.len() == 0 {
                assert(s@.subrange(i as int, i as int) =~= pat@);
                assert(matches_at(s@, pat@, i as int));
            }
        }
        assert(pat@.len() > 0);
        assert(find_at(s@, pat@, i as int) == find_at(s@, pat@, i + 1));
        i += 1;
    }
}

} // verus!
