//! Relation resolution: the session's map from physical relation
//! addressing — tablespace and relation-file number — to the logical
//! relation id the catalog gives it.
//!
//! The engine itself cannot ask a catalog; a driver fills this map
//! and the decoder looks relations up in it.  A missing entry is not
//! fatal: the record referring to it is skipped.

use vstd::prelude::*;

verus! {

/// The map that a list of entries denotes: later entries win.
pub open spec fn spec_rel_entries_map(s: Seq<(u32, u32, u32)>) -> Map<(u32, u32), u32>
    decreases s.len(),
{
    if s.len() == 0 {
        Map::empty()
    } else {
        spec_rel_entries_map(s.drop_last()).insert(
            (s.last().0, s.last().1),
            s.last().2,
        )
    }
}

/// A lookup table from (tablespace, relation-file number) to logical
/// relation id.
pub struct RelationMap {
    entries: Vec<(u32, u32, u32)>,
}

impl View for RelationMap {
    type V = Map<(u32, u32), u32>;

    closed spec fn view(&self) -> Map<(u32, u32), u32> {
        spec_rel_entries_map(self.entries@)
    }
}

impl RelationMap {
    /// An empty map.
    pub fn new() -> (m: RelationMap)
        ensures
            m@ == Map::<(u32, u32), u32>::empty(),
    {
        RelationMap { entries: Vec::new() }
    }

    /// Record that the relation file `(spc_oid, rel_number)` belongs
    /// to the logical relation `relid`, replacing any earlier entry.
    pub fn insert(&mut self, spc_oid: u32, rel_number: u32, relid: u32)
        ensures
            final(self)@ == old(self)@.insert((spc_oid, rel_number), relid),
    {
        let ghost snap = self.entries@;
        self.entries.push((spc_oid, rel_number, relid));
        proof {
            assert(self.entries@.drop_last() =~= snap);
        }
    }

    /// Find the logical relation id for a relation file, if the map
    /// knows it.
    pub fn get(&self, spc_oid: u32, rel_number: u32) -> (r: Option<u32>)
        ensures
            r matches Some(relid) ==> self@.contains_key((spc_oid, rel_number)) && self@[
                (spc_oid, rel_number)
            ] == relid,
            r is None ==> !self@.contains_key((spc_oid, rel_number)),
    {
        let n = self.entries.len();
        let mut i: usize = n;
        proof {
            assert(self.entries@.subrange(0, n as int) =~= self.entries@);
        }
        while i > 0
            invariant
                i <= n == self.entries@.len(),
                spec_rel_entries_map(self.entries@).contains_key((spc_oid, rel_number))
                    == spec_rel_entries_map(self.entries@.subrange(0, i as int)).contains_key(
                    (spc_oid, rel_number),
                ),
                spec_rel_entries_map(self.entries@.subrange(0, i as int)).contains_key(
                    (spc_oid, rel_number),
                ) ==> spec_rel_entries_map(self.entries@)[(spc_oid, rel_number)]
                    == spec_rel_entries_map(self.entries@.subrange(0, i as int))[
                    (spc_oid, rel_number)
                ],
            decreases i,
        {
            proof {
                assert(self.entries@.subrange(0, i as int).drop_last() =~= self.entries@.subrange(
                    0,
                    i as int - 1,
                ));
                assert(self.entries@.subrange(0, i as int).last() == self.entries@[i as int - 1]);
            }
            let entry = &self.entries[i - 1];
            if entry.0 == spc_oid && entry.1 == rel_number {
                return Some(entry.2);
            }
            i = i - 1;
        }
        proof {
            assert(self.entries@.subrange(0, 0) =~= Seq::<(u32, u32, u32)>::empty());
        }
        None
    }
}

} // verus!
