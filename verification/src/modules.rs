//! Decisions of the module-graph loader.
//!
//! The bundler resolves ES-module specifiers by scheme and fetches remote
//! ones over HTTP. The loader's decisions — which action a scheme calls
//! for, and what a response status means — are plain functions of plain
//! values; the I/O around them stays with the caller that runs the loader.

use vstd::prelude::*;

verus! {

/// What the loader does for one specifier, by its URL scheme.
#[derive(PartialEq, Eq, Structural, Clone, Copy, Debug)]
pub enum LoadAction {
    /// `data:` — decode the module text out of the URL itself.
    DecodeDataUrl,
    /// `file:` — canonicalize the path and read the file as UTF-8 text.
    ReadLocalFile,
    /// `http:` or `https:` — fetch the URL.
    FetchRemote,
    /// Any other scheme aborts the build.
    Unsupported,
}

/// What a fetched response's status code means to the resolver.
#[derive(PartialEq, Eq, Structural, Clone, Copy, Debug)]
pub enum FetchOutcome {
    /// 404: the module is absent — a normal outcome, not an error.
    Absent,
    /// Any other status outside 200–299 aborts the build.
    Fatal,
    /// A success: use the response body as the module's text.
    UseBody,
}

pub open spec fn lit_data() -> Seq<u8> {
    seq![('d' as u8), ('a' as u8), ('t' as u8), ('a' as u8)]
}

pub open spec fn lit_file() -> Seq<u8> {
    seq![('f' as u8), ('i' as u8), ('l' as u8), ('e' as u8)]
}

pub open spec fn lit_http() -> Seq<u8> {
    seq![('h' as u8), ('t' as u8), ('t' as u8), ('p' as u8)]
}

pub open spec fn lit_https() -> Seq<u8> {
    seq![('h' as u8), ('t' as u8), ('t' as u8), ('p' as u8), ('s' as u8)]
}

/// The action that a specifier's scheme calls for.
pub open spec fn load_action_spec(scheme: Seq<u8>) -> LoadAction {
    if scheme == lit_data() {
        LoadAction::DecodeDataUrl
    } else if scheme == lit_file() {
        LoadAction::ReadLocalFile
    } else if scheme == lit_http() || scheme == lit_https() {
        LoadAction::FetchRemote
    } else {
        LoadAction::Unsupported
    }
}

/// Decide how to load a specifier from its URL scheme.
pub fn load_action(scheme: &[u8]) -> (r: LoadAction)
    ensures
        r == load_action_spec(scheme@),
{
    let data: Vec<u8> = vec![('d' as u8), ('a' as u8), ('t' as u8), ('a' as u8)];
    assert(data@ =~= lit_data());
    let file: Vec<u8> = vec![('f' as u8), ('i' as u8), ('l' as u8), ('e' as u8)];
    assert(file@ =~= lit_file());
    let http: Vec<u8> = vec![('h' as u8), ('t' as u8), ('t' as u8), ('p' as u8)];
    assert(http@ =~= lit_http());
    let https: Vec<u8> = vec![('h' as u8), ('t' as u8), ('t' as u8), ('p' as u8), ('s' as u8)];
    assert(https@ =~= lit_https());
    if crate::text::bytes_eq(scheme, data.as_slice()) {
        LoadAction::DecodeDataUrl
    } else if crate::text::bytes_eq(scheme, file.as_slice()) {
        LoadAction::ReadLocalFile
    } else if crate::text::bytes_eq(scheme, http.as_slice()) || crate::text::bytes_eq(
        scheme,
        https.as_slice(),
    ) {
        LoadAction::FetchRemote
    } else {
        LoadAction::Unsupported
    }
}

/// What a response status means: 404 is a soft "absent", a success
/// (200–299) hands the body to the resolver, and every other status is
/// fatal — only 404 maps a non-success to a normal outcome.
pub open spec fn fetch_outcome_spec(status: u16) -> FetchOutcome {
    if status == 404 {
        FetchOutcome::Absent
    } else if 200 <= status < 300 {
        FetchOutcome::UseBody
    } else {
        FetchOutcome::Fatal
    }
}

/// Classify a fetched response's status code.
pub fn fetch_outcome(status: u16) -> (r: FetchOutcome)
    ensures
        r == fetch_outcome_spec(status),
{
    if status == 404 {
        FetchOutcome::Absent
    } else if 200 <= status && status < 300 {
        FetchOutcome::UseBody
    } else {
        FetchOutcome::Fatal
    }
}

/// Response header values joined with `,`, the form the resolver takes
/// headers in.
pub open spec fn joined_header_values(vals: Seq<Seq<u8>>) -> Seq<u8> {
    crate::srcset::join_sep(vals, seq![(',' as u8)])
}

/// Join a header's values with `,`.
pub fn join_header_values(vals: &Vec<Vec<u8>>) -> (r: Vec<u8>)
    ensures
        r@ == joined_header_values(vals@.map_values(|v: Vec<u8>| v@)),
{
    let ghost goal = vals@.map_values(|v: Vec<u8>| v@);
    let mut out: Vec<u8> = Vec::new();
    let mut i: usize = 0;
    while i < vals.len()
        invariant
            i <= vals@.len(),
            goal == vals@.map_values(|v: Vec<u8>| v@),
            out@ == crate::srcset::join_sep(goal.subrange(0, i as int), seq![(',' as u8)]),
        decreases vals@.len() - i,
    {
        if i > 0 {
            out.push(',' as u8);
        }
        crate::text::push_bytes(&mut out, vals[i].as_slice());
        proof {
            let done = goal.subrange(0, i as int);
            let done2 = goal.subrange(0, i as int + 1);
            assert(done2 =~= done.push(goal[i as int]));
            crate::srcset::lemma_join_snoc(done, seq![(',' as u8)], goal[i as int]);
            assert(out@ =~= crate::srcset::join_sep(done2, seq![(',' as u8)]));
        }
        i += 1;
    }
    assert(goal.subrange(0, goal.len() as int) =~= goal);
    out
}

} // verus!
