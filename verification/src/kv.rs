//! A small write-once map keyed by byte strings, the shape shared by the
//! asset registry and the store of read asset files.
//!
//! Entries are held in insertion order; keys are unique. The abstract value
//! is a `Map` from key bytes to the view of the stored value.

use vstd::prelude::*;

verus! {

/// The map that a key column and a value column denote; on a duplicate key
/// the later entry wins (the columns here never hold one).
pub open spec fn map_of<V: View>(keys: Seq<Vec<u8>>, vals: Seq<V>) -> Map<Seq<u8>, V::V>
    recommends
        keys.len() == vals.len(),
    decreases keys.len(),
{
    if keys.len() == 0 || vals.len() == 0 {
        Map::empty()
    } else {
        map_of(keys.drop_last(), vals.drop_last()).insert(keys.last()@, vals.last()@)
    }
}

/// What `map_of` holds: a key is present exactly when some row names it,
/// and a row without a later row of the same key gives its key's value.
pub proof fn lemma_map_of<V: View>(keys: Seq<Vec<u8>>, vals: Seq<V>)
    requires
        keys.len() == vals.len(),
    ensures
        forall|k: Seq<u8>|
            map_of(keys, vals).contains_key(k) <==> exists|j: int|
                0 <= j < keys.len() && (#[trigger] keys[j])@ == k,
        forall|j: int|
            0 <= j < keys.len() && (forall|j2: int|
                j < j2 < keys.len() ==> (#[trigger] keys[j2])@ != keys[j]@) ==> map_of(keys, vals)[(
            #[trigger] keys[j])@] == vals[j]@,
    decreases keys.len(),
{
    if keys.len() > 0 {
        let kp = keys.drop_last();
        let vp = vals.drop_last();
        lemma_map_of(kp, vp);
        let m0 = map_of(kp, vp);
        let m = map_of(keys, vals);
        let kl = keys.last()@;
        assert forall|k: Seq<u8>| map_of(keys, vals).contains_key(k) implies exists|j: int|
            0 <= j < keys.len() && (#[trigger] keys[j])@ == k by {
            if k == kl {
                assert(keys[keys.len() - 1]@ == k);
            } else {
                assert(m0.contains_key(k));
                let j = choose|j: int| 0 <= j < kp.len() && (#[trigger] kp[j])@ == k;
                assert(keys[j]@ == k);
            }
        }
        assert forall|k: Seq<u8>|
            (exists|j: int| 0 <= j < keys.len() && (#[trigger] keys[j])@ == k) implies map_of(
            keys,
            vals,
        ).contains_key(k) by {
            let j = choose|j: int| 0 <= j < keys.len() && (#[trigger] keys[j])@ == k;
            if j < keys.len() - 1 {
                assert(kp[j]@ == k);
                assert(m0.contains_key(k));
            }
        }
        assert forall|j: int|
            0 <= j < keys.len() && (forall|j2: int|
                j < j2 < keys.len() ==> (#[trigger] keys[j2])@ != keys[j]@) implies map_of(
            keys,
            vals,
        )[(#[trigger] keys[j])@] == vals[j]@ by {
            if j == keys.len() - 1 {
                assert(m[kl] == vals.last()@);
            } else {
                assert(keys[j]@ != kl);
                assert(kp[j]@ == keys[j]@);
                assert(forall|j2: int| j < j2 < kp.len() ==> (#[trigger] kp[j2])@ != kp[j]@);
                assert(m0[kp[j]@] == vp[j]@);
            }
        }
    }
}

/// A write-once map from byte-string keys to values of `V`.
pub struct ByteMap<V> {
    keys: Vec<Vec<u8>>,
    vals: Vec<V>,
}

impl<V: View> View for ByteMap<V> {
    type V = Map<Seq<u8>, V::V>;

    closed spec fn view(&self) -> Map<Seq<u8>, V::V> {
        map_of(self.keys@, self.vals@)
    }
}

impl<V: View> ByteMap<V> {
    /// Both columns name the same number of rows and no two rows share a key.
    pub closed spec fn wf(&self) -> bool {
        &&& self.keys@.len() == self.vals@.len()
        &&& forall|i: int, j: int|
            0 <= i < j < self.keys@.len() ==> (#[trigger] self.keys@[i])@ != (
            #[trigger] self.keys@[j])@
    }

    /// How many keys the map holds.
    pub closed spec fn spec_len(&self) -> nat {
        self.keys@.len()
    }

    /// The empty map.
    pub fn new() -> (r: ByteMap<V>)
        ensures
            r.wf(),
            r@ == Map::<Seq<u8>, V::V>::empty(),
            r.spec_len() == 0,
    {
        ByteMap { keys: Vec::new(), vals: Vec::new() }
    }

    /// How many keys the map holds.
    pub fn len(&self) -> (r: usize)
        ensures
            r == self.spec_len(),
    {
        self.keys.len()
    }

    /// The row holding key `k`, if any.
    fn index_of(&self, k: &[u8]) -> (r: Option<usize>)
        requires
            self.wf(),
        ensures
            match r {
                Some(i) => i < self.keys@.len() && self.keys@[i as int]@ == k@,
                None => forall|j: int| 0 <= j < self.keys@.len() ==> (#[trigger] self.keys@[j])@ != k@,
            },
    {
        let mut i: usize = 0;
        while i < self.keys.len()
            invariant
                i <= self.keys@.len(),
                forall|j: int| 0 <= j < i ==> (#[trigger] self.keys@[j])@ != k@,
            decreases self.keys@.len() - i,
        {
            if crate::text::bytes_eq(self.keys[i].as_slice(), k) {
                return Some(i);
            }
            i += 1;
        }
        None
    }

    /// Whether key `k` is present.
    pub fn contains_key(&self, k: &[u8]) -> (r: bool)
        requires
            self.wf(),
        ensures
            r <==> self@.contains_key(k@),
    {
        proof {
            lemma_map_of(self.keys@, self.vals@);
        }
        match self.index_of(k) {
            Some(_) => true,
            None => false,
        }
    }

    /// The value under key `k`, if any.
    pub fn get(&self, k: &[u8]) -> (r: Option<&V>)
        requires
            self.wf(),
        ensures
            match r {
                Some(v) => self@.contains_key(k@) && v@ == self@[k@],
                None => !self@.contains_key(k@),
            },
    {
        proof {
            lemma_map_of(self.keys@, self.vals@);
        }
        match self.index_of(k) {
            Some(i) => Some(&self.vals[i]),
            None => None,
        }
    }

    /// Insert `v` under `k` if `k` is absent; an attempt to write a present
    /// key changes nothing and reports `false`.
    pub fn insert(&mut self, k: Vec<u8>, v: V) -> (r: bool)
        requires
            old(self).wf(),
        ensures
            final(self).wf(),
            r <==> !old(self)@.contains_key(k@),
            final(self)@ == if r {
                old(self)@.insert(k@, v@)
            } else {
                old(self)@
            },
            final(self).spec_len() == if r {
                old(self).spec_len() + 1
            } else {
                old(self).spec_len()
            },
    {
        proof {
            lemma_map_of(self.keys@, self.vals@);
        }
        match self.index_of(k.as_slice()) {
            Some(_) => false,
            None => {
                self.keys.push(k);
                self.vals.push(v);
                proof {
                    assert(self.keys@.drop_last() =~= old(self).keys@);
                    assert(self.vals@.drop_last() =~= old(self).vals@);
                }
                true
            },
        }
    }
}

} // verus!
