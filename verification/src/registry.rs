//! The build-scoped asset registry and the store of asset reads.
//!
//! The registry maps each referenced image's logical path to its computed
//! placeholder text and natural width. It is populated once per build,
//! before the rewrite pass, and only read afterwards; holding it by value
//! while workers run and by shared reference during the rewrite makes that
//! ordering a property of the types, not of timing.

use vstd::prelude::*;
use crate::kv::ByteMap;

verus! {

/// What the registry knows of one source image: the base64 placeholder
/// text and the natural (pre-resize) pixel width.
pub struct AssetEntry {
    pub placeholder: Vec<u8>,
    pub width: u32,
}

impl View for AssetEntry {
    type V = (Seq<u8>, u32);

    open spec fn view(&self) -> (Seq<u8>, u32) {
        (self.placeholder@, self.width)
    }
}

/// The registry: logical image path to `(placeholder, natural width)`.
pub type AssetRegistry = ByteMap<AssetEntry>;

/// The asset reads that a rewrite consumes: file bodies by logical path
/// (stylesheets, icon files, bundled script text) and file sizes by
/// logical path (source images and their variants).
pub struct AssetStore {
    pub texts: ByteMap<Vec<u8>>,
    pub sizes: ByteMap<u64>,
}

impl AssetStore {
    pub open spec fn wf(&self) -> bool {
        self.texts.wf() && self.sizes.wf()
    }

    /// A store with no reads yet.
    pub fn new() -> (r: AssetStore)
        ensures
            r.wf(),
            r.texts@ == Map::<Seq<u8>, Seq<u8>>::empty(),
            r.sizes@ == Map::<Seq<u8>, u64>::empty(),
    {
        AssetStore { texts: ByteMap::new(), sizes: ByteMap::new() }
    }
}

} // verus!
