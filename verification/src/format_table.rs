//! A table of clipboard data by format atom, kept in a `BTreeMap`, which lists the atoms in
//! ascending order.
use vstd::prelude::*;
use std::collections::BTreeMap;
use vstd::std_specs::btree::{increasing_seq, spec_keys_iter};
use vstd::std_specs::cmp::OrdSpec;
use vstd::laws_cmp::obeys_cmp;
use vstd::std_specs::iter::IteratorSpec;

verus! {

broadcast use vstd::std_specs::btree::group_btree_axioms;

/// The view of stored data.
pub open spec fn data_view(d: Option<Vec<u8>>) -> Option<Seq<u8>> {
    match d {
        Some(v) => Some(v@),
        None => None,
    }
}

/// Whether a sequence of atoms is strictly ascending.
pub open spec fn strictly_ascending(s: Seq<u32>) -> bool {
    forall|i: int, j: int| 0 <= i < j < s.len() ==> s[i] < s[j]
}

/// Keys that a `BTreeMap` lists in increasing order are strictly ascending atoms.
proof fn lemma_ascending_keys(keys: Seq<&u32>)
    requires
        increasing_seq(keys),
    ensures
        strictly_ascending(keys.unref()),
{
    broadcast use vstd::laws_cmp::group_laws_cmp, vstd::laws_cmp::lemma_ref_obeys_cmp_spec;

    assert(obeys_cmp::<&u32>());
    assert forall|i: int, j: int| 0 <= i < j < keys.unref().len() implies keys.unref()[i]
        < keys.unref()[j] by {
        assert((&keys[i]).cmp_spec(&keys[j]) is Less);
    }
}

/// Clipboard data by format atom; `None` marks data that is produced on demand.
pub struct FormatTable {
    map: BTreeMap<u32, Option<Vec<u8>>>,
}

impl FormatTable {
    /// The data stored by format atom.
    pub closed spec fn view(self) -> Map<u32, Option<Seq<u8>>> {
        self.map@.map_values(|d: Option<Vec<u8>>| data_view(d))
    }

    /// An empty table.
    pub fn new() -> (t: FormatTable)
        ensures
            t.view() == Map::<u32, Option<Seq<u8>>>::empty(),
    {
        let t = FormatTable { map: BTreeMap::new() };
        proof {
            assert(t.view() =~= Map::<u32, Option<Seq<u8>>>::empty());
        }
        t
    }

    /// Whether nothing is stored.
    pub fn is_empty(&self) -> (e: bool)
        ensures
            e == (self.view().dom() == Set::<u32>::empty()),
    {
        let e = self.map.is_empty();
        proof {
            assert(self.view().dom() =~= self.map@.dom());
            if !e {
                let a = self.map@.dom().choose();
                assert(self.view().dom().contains(a));
            } else {
                assert(self.view().dom() =~= Set::<u32>::empty());
            }
        }
        e
    }

    /// Forgets everything.
    pub fn clear(&mut self)
        ensures
            final(self).view() == Map::<u32, Option<Seq<u8>>>::empty(),
    {
        self.map.clear();
        proof {
            assert(self.view() =~= Map::<u32, Option<Seq<u8>>>::empty());
        }
    }

    /// The stored atoms, in ascending order.
    pub fn keys(&self) -> (k: Vec<u32>)
        ensures
            strictly_ascending(k@),
            forall|a: u32| k@.contains(a) <==> self.view().contains_key(a),
    {
        let ghost all = spec_keys_iter(&self.map).remaining();
        let mut k: Vec<u32> = Vec::new();
        for a in it: self.map.keys()
            invariant
                it.seq() == all,
                k@ == all.take(it.index()).unref(),
        {
            k.push(*a);
            proof {
                assert(k@ =~= all.take(it.index() + 1).unref());
            }
        }
        proof {
            assert(k@ =~= all.unref());
            lemma_ascending_keys(all);
            assert forall|a: u32| k@.contains(a) <==> self.view().contains_key(a) by {
                assert(all.unref().to_set().contains(a) <==> self.map@.dom().contains(a));
                if k@.contains(a) {
                    assert(all.unref().to_set().contains(a));
                }
                if self.map@.dom().contains(a) {
                    assert(all.unref().to_set().contains(a));
                    assert(all.unref().contains(a));
                }
            }
        }
        k
    }

    /// The data stored for `atom`: `None` where the atom is not stored, `Some(None)` where it
    /// is stored without data.
    pub fn get(&self, atom: u32) -> (r: Option<Option<Vec<u8>>>)
        ensures
            r is None <==> !self.view().contains_key(atom),
            r matches Some(d) ==> data_view(d) == self.view()[atom],
    {
        match self.map.get(&atom) {
            None => None,
            Some(None) => Some(None),
            Some(Some(v)) => {
                let c = v.clone();
                proof {
                    assert(c@ =~= v@);
                }
                Some(Some(c))
            },
        }
    }

    /// Stores `data` for `atom`, in place of what was stored for it.
    pub fn insert(&mut self, atom: u32, data: Option<Vec<u8>>)
        ensures
            final(self).view() == old(self).view().insert(atom, data_view(data)),
    {
        let ghost d = data_view(data);
        self.map.insert(atom, data);
        proof {
            assert(self.view() =~= old(self).view().insert(atom, d));
        }
    }
}

} // verus!
