//! The page reconstruction cache: the pages materialized from
//! full-page images during one decoding session, keyed by physical
//! page identity.
//!
//! The cache's view is a map from page identity to page bytes.  A
//! full-page image written for a key replaces whatever the cache held
//! for it: the most recent image always wins.

use vstd::prelude::*;

use crate::page::BLCKSZ;
use crate::record::BlockReference;

verus! {

/// The physical identity of one page across the cluster: tablespace,
/// database, relation-file number and block number.  Unlike a log
/// pointer it has no time component.
#[derive(Clone, Copy, Debug, Hash, PartialEq, Eq, Structural)]
pub struct PageId {
    /// Tablespace of the page.
    pub spc_oid: u32,
    /// Database of the page.
    pub db_oid: u32,
    /// Relation-file number of the page.
    pub rel_number: u32,
    /// Block number of the page.
    pub blknum: u32,
}

impl PageId {
    /// The identity of the page a block reference points at.
    pub fn new(blk: &BlockReference) -> (r: PageId)
        ensures
            r == spec_page_id_of(blk@),
    {
        PageId {
            spc_oid: blk.spc_oid,
            db_oid: blk.db_oid,
            rel_number: blk.rel_number,
            blknum: blk.blknum,
        }
    }
}

/// The identity of the page a block reference points at.
pub open spec fn spec_page_id_of(blk: crate::record::BlockReferenceV) -> PageId {
    PageId {
        spc_oid: blk.spc_oid,
        db_oid: blk.db_oid,
        rel_number: blk.rel_number,
        blknum: blk.blknum,
    }
}

/// Round trip of a full-page image: for a record parsed out of the
/// bytes `b` whose first block carries an image to apply, restoring
/// that block (as `apply_image` does) leaves the cache holding, under
/// the block's page identity, exactly the image bytes as they stand
/// in `b` — byte-identical to what was written into the segment.
pub proof fn lemma_fpw_round_trip(b: Seq<u8>, lsn: u64, pages: Map<PageId, Seq<u8>>)
    requires
        crate::record::spec_parse_record(b, lsn) matches Some(v) && v.blocks.len() > 0
            && v.blocks[0].has_image && v.blocks[0].apply_image,
    ensures
        crate::record::spec_parse_record(b, lsn) matches Some(v) ==> pages.insert(
            spec_page_id_of(v.blocks[0]),
            v.blocks[0].image,
        )[spec_page_id_of(v.blocks[0])] == b.subrange(
            crate::record::MIN_RECORD_LEN + crate::record::SIZE_OF_BLOCK_REF,
            crate::record::MIN_RECORD_LEN + crate::record::SIZE_OF_BLOCK_REF + BLCKSZ,
        ),
{
    crate::record::lemma_first_block_image_bytes(b, lsn);
}

/// The map that a list of cache entries denotes: later entries win.
pub open spec fn spec_entries_map(s: Seq<(PageId, Vec<u8>)>) -> Map<PageId, Seq<u8>>
    decreases s.len(),
{
    if s.len() == 0 {
        Map::empty()
    } else {
        spec_entries_map(s.drop_last()).insert(s.last().0, s.last().1@)
    }
}

/// The keyed store of reconstructed page images of one decoding
/// session.  It exclusively owns its page buffers; every held page is
/// exactly one block long.
pub struct PageCache {
    entries: Vec<(PageId, Vec<u8>)>,
}

impl View for PageCache {
    type V = Map<PageId, Seq<u8>>;

    closed spec fn view(&self) -> Map<PageId, Seq<u8>> {
        spec_entries_map(self.entries@)
    }
}

impl PageCache {
    /// Every page the cache holds is exactly one block long.
    pub closed spec fn wf(&self) -> bool {
        forall|i: int|
            0 <= i < self.entries@.len() ==> (#[trigger] self.entries@[i]).1@.len() == BLCKSZ
    }

    /// An empty cache.
    pub fn new() -> (c: PageCache)
        ensures
            c.wf(),
            c@ == Map::<PageId, Seq<u8>>::empty(),
    {
        PageCache { entries: Vec::new() }
    }

    /// Store `page` as the current image for `pid`, replacing any
    /// prior image for that key.
    pub fn insert(&mut self, pid: PageId, page: Vec<u8>)
        requires
            old(self).wf(),
            page@.len() == BLCKSZ,
        ensures
            final(self).wf(),
            final(self)@ == old(self)@.insert(pid, page@),
    {
        let ghost snap = self.entries@;
        self.entries.push((pid, page));
        proof {
            assert(self.entries@.drop_last() =~= snap);
        }
    }

    /// Look up the current image for `pid`, if the session has seen a
    /// full-page image for it.
    pub fn get(&self, pid: &PageId) -> (r: Option<&Vec<u8>>)
        requires
            self.wf(),
        ensures
            r matches Some(p) ==> self@.contains_key(*pid) && self@[*pid] == p@ && p@.len()
                == BLCKSZ,
            r is None ==> !self@.contains_key(*pid),
    {
        let n = self.entries.len();
        let mut i: usize = n;
        proof {
            assert(self.entries@.subrange(0, n as int) =~= self.entries@);
        }
        while i > 0
            invariant
                i <= n == self.entries@.len(),
                self.wf(),
                spec_entries_map(self.entries@).contains_key(*pid) == spec_entries_map(
                    self.entries@.subrange(0, i as int),
                ).contains_key(*pid),
                spec_entries_map(self.entries@.subrange(0, i as int)).contains_key(*pid)
                    ==> spec_entries_map(self.entries@)[*pid] == spec_entries_map(
                    self.entries@.subrange(0, i as int),
                )[*pid],
            decreases i,
        {
            proof {
                assert(self.entries@.subrange(0, i as int).drop_last() =~= self.entries@.subrange(
                    0,
                    i as int - 1,
                ));
                assert(self.entries@.subrange(0, i as int).last() == self.entries@[i as int - 1]);
            }
            let entry = &self.entries[i - 1];
            if entry.0 == *pid {
                return Some(&entry.1);
            }
            i = i - 1;
        }
        proof {
            assert(self.entries@.subrange(0, 0) =~= Seq::<(PageId, Vec<u8>)>::empty());
        }
        None
    }

    /// Apply the full-page image of one block reference, if it
    /// carries one to apply: the embedded image entirely replaces any
    /// prior image cached for the block's page.
    pub fn apply_image(&mut self, blk: &BlockReference) -> (applied: bool)
        requires
            old(self).wf(),
            crate::record::block_wf(blk@),
        ensures
            final(self).wf(),
            applied == (blk@.has_image && blk@.apply_image),
            applied ==> final(self)@ == old(self)@.insert(spec_page_id_of(blk@), blk@.image),
            !applied ==> *final(self) == *old(self),
    {
        if !blk.has_image || !blk.apply_image {
            return false;
        }
        let pid = PageId::new(blk);
        let page = vstd::slice::slice_to_vec(blk.image.as_slice());
        self.insert(pid, page);
        true
    }
}

} // verus!
