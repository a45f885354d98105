//! The decoding session: one pull-based pass over the log that turns
//! assembled records into logical change events.
//!
//! A session owns a record assembler, the page reconstruction cache
//! and a relation map.  It performs no I/O: `poll` either hands the
//! driver a page request — already clipped against the optional end
//! pointer — or a change event, or reports that the sequence has
//! ended.  Record-level failures (an unknown resource manager, a page
//! never seen with a full-page image, an unknown relation, a dead or
//! out-of-range slot) skip the record and never end the sequence;
//! only an inconsistent byte stream does, and the end of the log ends
//! it cleanly.  Every poll that reports progress strictly decreases a
//! ghost measure, and every consumed record either yields its change
//! or provably decodes to nothing.

use vstd::prelude::*;

use crate::assembler::{lex3_lt, lsns_strictly_increasing, AsmStep, RecordAssembler};
use crate::cache::{spec_page_id_of, PageCache, PageId};
use crate::lsn::InvalidLSN;
use crate::pg_lsn::PgLSN;
use crate::record::{record_wf, RawRecord, RawRecordV, WalError};
use crate::relation::RelationMap;
use crate::wal::{spec_is_valid_segsz, XLOG_BLCKSZ};
use crate::xlog_heap::{spec_decode_heap, RM_HEAP_ID};

verus! {

/// The kind of row-level change a heap record describes.
#[derive(Clone, Copy, Debug, PartialEq, Eq, Structural)]
pub enum HeapOp {
    /// A row was inserted; the after-row is set.
    Insert,
    /// A row was updated; before-row and after-row are set.
    Update,
    /// A row was deleted; the before-row is set.
    Delete,
}

/// One logical change event: what a successfully decoded heap record
/// did, keyed by table and transaction.
pub struct DecodedResult {
    /// Position of the record that produced the change.
    pub lsn: u64,
    /// Database of the changed page.
    pub dboid: u32,
    /// Logical relation the change belongs to.
    pub relid: u32,
    /// Transaction that wrote the record.
    pub xid: u32,
    /// The kind of change.
    pub op: HeapOp,
    /// The row as it stood before the change, when the kind has one.
    pub row_before: Option<Vec<u8>>,
    /// The row as it stands after the change, when the kind has one.
    pub row_after: Option<Vec<u8>>,
}

/// The mathematical image of a change event.
#[verifier::ext_equal]
pub struct DecodedResultV {
    /// Position of the record that produced the change.
    pub lsn: u64,
    /// Database of the changed page.
    pub dboid: u32,
    /// Logical relation the change belongs to.
    pub relid: u32,
    /// Transaction that wrote the record.
    pub xid: u32,
    /// The kind of change.
    pub op: HeapOp,
    /// The row before the change.
    pub row_before: Option<Seq<u8>>,
    /// The row after the change.
    pub row_after: Option<Seq<u8>>,
}

impl View for DecodedResult {
    type V = DecodedResultV;

    open spec fn view(&self) -> DecodedResultV {
        DecodedResultV {
            lsn: self.lsn,
            dboid: self.dboid,
            relid: self.relid,
            xid: self.xid,
            op: self.op,
            row_before: match self.row_before {
                Some(v) => Some(v@),
                None => None,
            },
            row_after: match self.row_after {
                Some(v) => Some(v@),
                None => None,
            },
        }
    }
}

/// The page store after one record is processed: the first block's
/// image, when it is one to apply, entirely replaces the cached page
/// under the block's page identity; anything else leaves the store
/// untouched.
pub open spec fn spec_pages_after(pages: Map<PageId, Seq<u8>>, v: RawRecordV) -> Map<
    PageId,
    Seq<u8>,
> {
    if v.rmid == RM_HEAP_ID && v.blocks.len() > 0 && v.blocks[0].has_image
        && v.blocks[0].apply_image {
        pages.insert(spec_page_id_of(v.blocks[0]), v.blocks[0].image)
    } else {
        pages
    }
}

/// The change event one record yields against a session's page store
/// and relation map: nothing for a foreign resource manager, a record
/// without blocks, a page never imaged, or an unknown relation;
/// otherwise what the heap decoder extracts from the (possibly just
/// restored) page.
pub open spec fn spec_process_record(
    pages: Map<PageId, Seq<u8>>,
    rels: Map<(u32, u32), u32>,
    v: RawRecordV,
) -> Option<DecodedResultV> {
    if v.rmid != RM_HEAP_ID || v.blocks.len() == 0 {
        None
    } else {
        let pid = spec_page_id_of(v.blocks[0]);
        let pages1 = spec_pages_after(pages, v);
        if !pages1.contains_key(pid) {
            None
        } else if !rels.contains_key((v.blocks[0].spc_oid, v.blocks[0].rel_number)) {
            None
        } else {
            spec_decode_heap(v, pages1[pid], rels[(v.blocks[0].spc_oid, v.blocks[0].rel_number)])
        }
    }
}

/// How many bytes of the page at `addr` a driver may read under the
/// end pointer: a whole page when it fits before the end pointer, the
/// clipped count when at least `min_len` bytes fit, and nothing — the
/// end is reached — otherwise.  No byte at or past the end pointer is
/// ever requested.
pub fn read_len(addr: u64, min_len: usize, endptr: Option<u64>) -> (r: Option<usize>)
    requires
        1 <= min_len <= XLOG_BLCKSZ,
    ensures
        match endptr {
            None => r == Some(XLOG_BLCKSZ),
            Some(e) => {
                if addr + XLOG_BLCKSZ <= e {
                    r == Some(XLOG_BLCKSZ)
                } else if addr + min_len <= e {
                    r matches Some(len) && len == e - addr
                } else {
                    r is None
                }
            },
        },
        r matches Some(len) ==> min_len <= len <= XLOG_BLCKSZ,
        endptr matches Some(e) ==> (r matches Some(len) ==> addr + len <= e),
{
    match endptr {
        None => Some(XLOG_BLCKSZ),
        Some(e) => {
            if e >= addr && e - addr >= XLOG_BLCKSZ as u64 {
                Some(XLOG_BLCKSZ)
            } else if e >= addr && e - addr >= min_len as u64 {
                Some((e - addr) as usize)
            } else {
                None
            }
        },
    }
}

/// What one call of `poll` yields.
pub enum NextChange {
    /// Read `len` bytes of the page at `addr` and supply them.
    NeedPage {
        /// Page-aligned address of the page to read.
        addr: u64,
        /// How many of its bytes to read.
        len: usize,
    },
    /// One logical change event.
    Change(DecodedResult),
    /// Internal work was done; poll again.
    Progress,
    /// No more records: the sequence has ended.
    End,
    /// A session-fatal error; every later call reports the end of the
    /// sequence.
    Fatal(WalError),
}

/// One decoding session over the log.
pub struct WalDecoder {
    /// The record assembly state machine.
    assembler: RecordAssembler,
    /// The pages materialized from full-page images so far.
    cache: PageCache,
    /// The session's relation lookup table.
    relmap: RelationMap,
    /// Reads are clipped so that no byte at or past this position is
    /// requested.
    endptr: Option<u64>,
    /// Timeline the session reads.
    timeline: u32,
    /// Position the session was asked to start at.
    start_lsn: u64,
    /// A record at or after the start position has been seen.
    found_first: bool,
    /// A session-fatal error was reported.
    errored: bool,
    /// Positions of the changes produced so far.
    emitted: Ghost<Seq<u64>>,
    /// The record the assembler handed over last.
    last_rec: Ghost<Option<RawRecordV>>,
}

impl WalDecoder {
    /// Positions of the changes produced so far, in production order.
    pub closed spec fn emitted(&self) -> Seq<u64> {
        self.emitted@
    }

    /// The sequence has ended: no further change will be produced.
    pub closed spec fn done(&self) -> bool {
        self.errored || (self.assembler.is_ended() && self.found_first)
    }

    /// The session's end pointer, if one was given.
    pub closed spec fn end(&self) -> Option<u64> {
        self.endptr
    }

    /// The position the session was asked to start at.
    pub closed spec fn start(&self) -> u64 {
        self.start_lsn
    }

    /// The pages the session has materialized from full-page images.
    pub closed spec fn pages(&self) -> Map<PageId, Seq<u8>> {
        self.cache@
    }

    /// The session's relation lookup table.
    pub closed spec fn relations(&self) -> Map<(u32, u32), u32> {
        self.relmap@
    }

    /// Positions of the records the assembler has handed over so far.
    pub closed spec fn record_lsns(&self) -> Seq<u64> {
        self.assembler.emitted()
    }

    /// A record at or after the start position has been seen.
    pub closed spec fn saw_record(&self) -> bool {
        self.found_first
    }

    /// The valid log has ended.
    pub closed spec fn log_ended(&self) -> bool {
        self.assembler.is_ended()
    }

    /// The record stream was found inconsistent.
    pub closed spec fn stream_failed(&self) -> bool {
        self.assembler.is_failed()
    }

    /// The record the assembler handed over last, if any.
    pub closed spec fn last_record(&self) -> Option<RawRecordV> {
        self.last_rec@
    }

    /// The outstanding page request, if any: its address and the
    /// least number of bytes that lets decoding go on.
    pub closed spec fn pending_req(&self) -> Option<(u64, usize)> {
        self.assembler.pending_req()
    }

    /// The assembler holds a page that covers its next unconsumed
    /// byte.
    pub closed spec fn page_covers(&self) -> bool {
        self.assembler.covers_cur()
    }

    /// The held page and its address, if one is held.
    pub closed spec fn held_page(&self) -> Option<(u64, Seq<u8>)> {
        self.assembler.held_page()
    }

    /// The supplied page is consistent with its address and the
    /// assembly state.
    pub closed spec fn accepts_page(&self, addr: u64, bytes: Seq<u8>) -> bool {
        self.assembler.accepts_page(addr, bytes)
    }

    /// The ghost measure that every progress step strictly decreases.
    pub closed spec fn measure(&self) -> (int, int, int) {
        self.assembler.measure()
    }

    /// The session's invariant.
    pub closed spec fn wf(&self) -> bool {
        &&& self.assembler.wf()
        &&& self.cache.wf()
        &&& lsns_strictly_increasing(self.emitted@)
        &&& (self.emitted@.len() > 0 ==> self.assembler.emitted().len() > 0 && self.emitted@.last()
            <= self.assembler.emitted().last())
        &&& (self.emitted@.len() > 0 ==> self.found_first)
        &&& (self.emitted@.len() > 0 ==> self.emitted@.last() >= self.start_lsn)
        &&& self.assembler.start() == self.start_lsn
        &&& (self.endptr matches Some(e) ==> self.assembler.supplied_hi() <= e)
        &&& (self.emitted@.len() > 0 ==> (self.endptr matches Some(e) ==> self.emitted@.last()
            < e))
    }

    /// The positions of the changes a session produces strictly
    /// increase.
    pub proof fn lemma_changes_increasing(&self)
        requires
            self.wf(),
        ensures
            lsns_strictly_increasing(self.emitted()),
    {
    }

    /// Open a session that will decode from `startptr` up to the
    /// optional end pointer `end_lsn` (text form `high/low`), on the
    /// given timeline, for segments of size `wal_segsz`, resolving
    /// relations through `relmap`.  A malformed end pointer is a
    /// fatal parse error before any page is requested.
    pub fn new(
        startptr: PgLSN,
        end_lsn: Option<&str>,
        timeline: i32,
        wal_segsz: u32,
        relmap: RelationMap,
    ) -> (r: Result<WalDecoder, InvalidLSN>)
        requires
            spec_is_valid_segsz(wal_segsz as int),
        ensures
            end_lsn is None ==> r is Ok,
            r matches Ok(d) ==> d.wf() && d.emitted() == Seq::<u64>::empty() && !d.done()
                && d.start() == startptr@ && d.pages() == Map::<PageId, Seq<u8>>::empty()
                && d.relations() == relmap@ && d.record_lsns() == Seq::<u64>::empty()
                && !d.saw_record() && !d.log_ended() && !d.stream_failed() && d.last_record()
                is None && d.pending_req() is None && (end_lsn is None ==> d.end() is None) && (
            end_lsn matches Some(s) ==> d.end() == crate::lsn::spec_lsn_value(s@)
                && d.end() is Some),
            r is Err ==> (end_lsn matches Some(s) && crate::lsn::spec_lsn_value(s@) is None),
    {
        let endptr: Option<u64> = match end_lsn {
            Some(s) => match crate::lsn::lsn_to_rec_ptr(s) {
                Ok(p) => Some(p.to_u64()),
                Err(e) => {
                    return Err(e);
                },
            },
            None => None,
        };
        Ok(
            WalDecoder {
                assembler: RecordAssembler::new(startptr.to_u64(), wal_segsz),
                cache: PageCache::new(),
                relmap,
                endptr,
                timeline: timeline as u32,
                start_lsn: startptr.to_u64(),
                found_first: false,
                errored: false,
                emitted: Ghost(Seq::empty()),
                last_rec: Ghost(None),
            },
        )
    }

    /// The timeline the session reads.
    pub fn timeline(&self) -> u32 {
        self.timeline
    }

    /// Decode one heap record against a reconstructed page for the
    /// relation `relid`.
    pub fn decode_heap_record(&self, rec: &RawRecord, page: &Vec<u8>, relid: u32) -> (r: Option<
        DecodedResult,
    >)
        requires
            page@.len() == crate::page::BLCKSZ,
        ensures
            r matches Some(d) ==> spec_decode_heap(rec@, page@, relid) == Some(d@),
            r is None ==> spec_decode_heap(rec@, page@, relid) is None,
    {
        crate::xlog_heap::decode_heap_record(rec, page, relid)
    }

    /// Process one assembled record: restore its full-page image into
    /// the cache if it carries one to apply, then decode it against
    /// the cached page.
    ///
    /// The result and the new page store are fixed exactly by
    /// `spec_process_record` and `spec_pages_after`: a record of a
    /// foreign resource manager, without blocks, whose page the
    /// session has never seen with a full-page image, or whose
    /// relation the map does not know, is skipped — the call returns
    /// nothing, every other cached page is untouched, and the session
    /// goes on.
    pub fn process_current_record(&mut self, rec: &RawRecord) -> (r: Option<DecodedResult>)
        requires
            old(self).wf(),
            record_wf(rec@),
        ensures
            final(self).wf(),
            final(self).emitted() == old(self).emitted(),
            final(self).done() == old(self).done(),
            final(self).relations() == old(self).relations(),
            final(self).end() == old(self).end(),
            final(self).start() == old(self).start(),
            final(self).record_lsns() == old(self).record_lsns(),
            final(self).saw_record() == old(self).saw_record(),
            final(self).last_record() == old(self).last_record(),
            final(self).log_ended() == old(self).log_ended(),
            final(self).stream_failed() == old(self).stream_failed(),
            final(self).pending_req() == old(self).pending_req(),
            final(self).measure() == old(self).measure(),
            final(self).pages() == spec_pages_after(old(self).pages(), rec@),
            match spec_process_record(old(self).pages(), old(self).relations(), rec@) {
                Some(d) => r matches Some(x) && x@ == d,
                None => r is None,
            },
    {
        if rec.rmid != RM_HEAP_ID {
            return None;
        }
        if rec.blocks.len() == 0 {
            return None;
        }
        let blk = &rec.blocks[0];
        proof {
            assert(rec@.blocks[0] == rec.blocks@[0]@);
        }
        let pid = PageId::new(blk);
        self.cache.apply_image(blk);
        let page = match self.cache.get(&pid) {
            Some(p) => p,
            None => {
                return None;
            },
        };
        let relid = match self.relmap.get(blk.spc_oid, blk.rel_number) {
            Some(relid) => relid,
            None => {
                return None;
            },
        };
        crate::xlog_heap::decode_heap_record(rec, page, relid)
    }

    /// Produce the next page request, change event, or end report.
    ///
    /// After the sequence has ended — at the end of the log, at the
    /// end pointer, or after a fatal error was reported — every
    /// further call returns the end report and changes nothing.
    /// Every call that reports progress or a change strictly
    /// decreases the ghost measure, and a held page that covers the
    /// position is never requested again, so a driver that answers
    /// requests is never spun forever.  At most one record is
    /// consumed per call; when one is, its change is returned unless
    /// it provably decodes to nothing, and the page store is updated
    /// exactly by its full-page image.  The positions of the produced
    /// changes strictly increase, start at or after the session's
    /// start position and stay below the end pointer, and every page
    /// request respects the end pointer.  A fatal report names the
    /// inconsistent stream, or — exactly when the log ends before any
    /// record at or after the start — the start position.
    pub fn poll(&mut self) -> (r: NextChange)
        requires
            old(self).wf(),
        ensures
            final(self).wf(),
            final(self).end() == old(self).end(),
            final(self).start() == old(self).start(),
            final(self).relations() == old(self).relations(),
            old(self).done() ==> r is End && *final(self) == *old(self),
            old(self).record_lsns().is_prefix_of(final(self).record_lsns()),
            final(self).record_lsns().len() <= old(self).record_lsns().len() + 1,
            r matches NextChange::Change(c) ==> final(self).emitted() == old(
                self).emitted().push(c.lsn) && (old(self).emitted().len() > 0 ==> c.lsn > old(
                self).emitted().last()) && c.lsn >= old(self).start() && (old(self).end()
                matches Some(e) ==> c.lsn < e),
            !(r is Change) ==> final(self).emitted() == old(self).emitted(),
            r matches NextChange::NeedPage { addr, len } ==> 1 <= len <= XLOG_BLCKSZ && addr % (
            XLOG_BLCKSZ as u64) == 0 && (old(self).end() matches Some(e) ==> addr + len <= e) && (
            final(self).pending_req() matches Some(req) && req.0 == addr && req.1 <= len),
            r is Progress ==> lex3_lt(final(self).measure(), old(self).measure()),
            r is Change ==> lex3_lt(final(self).measure(), old(self).measure()),
            !old(self).done() && old(self).page_covers() ==> !(r is NeedPage),
            final(self).record_lsns() == old(self).record_lsns() ==> final(self).pages() == old(
                self).pages() && final(self).last_record() == old(self).last_record(),
            final(self).record_lsns().len() > old(self).record_lsns().len() ==> (final(
                self).last_record() matches Some(v) && record_wf(v) && v.lsn == final(
                self).record_lsns().last() && v.lsn >= old(self).start() && final(self).pages()
                == spec_pages_after(old(self).pages(), v) && (match spec_process_record(
                old(self).pages(),
                old(self).relations(),
                v,
            ) {
                Some(d) => r matches NextChange::Change(c) && c@ == d,
                None => r is Progress,
            })),
            r is Fatal ==> final(self).done(),
            r is End ==> final(self).done(),
            r is End ==> old(self).done() || final(self).saw_record(),
            r matches NextChange::Fatal(e) ==> (e matches WalError::NoRecordAfterStart(p) ==> p
                == old(self).start() && final(self).log_ended() && !final(self).saw_record()),
            !old(self).done() ==> ((r matches NextChange::Fatal(e) && e is ReadRecordError)
                <==> final(self).stream_failed()),
            !old(self).done() && old(self).log_ended() && !old(self).saw_record() ==> (r matches
                NextChange::Fatal(e) && e matches WalError::NoRecordAfterStart(p) && p == old(
            self).start()),
    {
        if self.errored {
            return NextChange::End;
        }
        match self.assembler.next_step() {
            AsmStep::Progress => NextChange::Progress,
            AsmStep::NeedPage { addr, min_len } => {
                match read_len(addr, min_len, self.endptr) {
                    Some(len) => NextChange::NeedPage { addr, len },
                    None => {
                        // The end pointer cuts the read off: the
                        // sequence ends here, cleanly.
                        self.assembler.mark_end();
                        NextChange::Progress
                    },
                }
            },
            AsmStep::End => {
                if self.found_first {
                    NextChange::End
                } else {
                    self.errored = true;
                    NextChange::Fatal(WalError::NoRecordAfterStart(self.start_lsn))
                }
            },
            AsmStep::Corrupt => {
                self.errored = true;
                NextChange::Fatal(
                    WalError::ReadRecordError(
                        self.assembler.position(),
                        String::from_str("inconsistent record stream"),
                    ),
                )
            },
            AsmStep::Record(rec) => {
                self.found_first = true;
                self.last_rec = Ghost(Some(rec@));
                proof {
                    assert(old(self).record_lsns() =~= self.assembler.emitted().subrange(
                        0,
                        old(self).record_lsns().len() as int,
                    ));
                }
                match self.process_current_record(&rec) {
                    None => NextChange::Progress,
                    Some(res) => {
                        proof {
                            let old_emitted = self.emitted@;
                            assert forall|i: int, j: int|
                                0 <= i < j < old_emitted.push(res.lsn).len() implies old_emitted.push(
                                res.lsn,
                            )[i] < old_emitted.push(res.lsn)[j] by {
                                if j < old_emitted.len() {
                                } else {
                                    assert(old_emitted.push(res.lsn)[j] == res.lsn);
                                }
                            }
                        }
                        self.emitted = Ghost(self.emitted@.push(res.lsn));
                        NextChange::Change(res)
                    },
                }
            },
        }
    }

    /// Answer the outstanding page request with the bytes read at
    /// `addr`.  The page is held afterwards exactly when its header
    /// is consistent with the address and the assembly state; an
    /// inconsistent header fails the stream, which the next poll
    /// reports.  No byte at or past the end pointer may be supplied.
    pub fn supply_page(&mut self, addr: u64, bytes: Vec<u8>)
        requires
            old(self).wf(),
            old(self).pending_req() matches Some(req) && req.0 == addr && req.1 <= bytes@.len()
                <= XLOG_BLCKSZ,
            old(self).end() matches Some(e) ==> addr + bytes@.len() <= e,
        ensures
            final(self).wf(),
            final(self).emitted() == old(self).emitted(),
            final(self).done() == old(self).done(),
            final(self).end() == old(self).end(),
            final(self).start() == old(self).start(),
            final(self).relations() == old(self).relations(),
            final(self).pages() == old(self).pages(),
            final(self).record_lsns() == old(self).record_lsns(),
            final(self).saw_record() == old(self).saw_record(),
            final(self).last_record() == old(self).last_record(),
            final(self).pending_req() is None,
            final(self).log_ended() == old(self).log_ended(),
            final(self).held_page() == (if old(self).accepts_page(addr, bytes@) {
                Some((addr, bytes@))
            } else {
                None::<(u64, Seq<u8>)>
            }),
            final(self).stream_failed() == (old(self).stream_failed() || !old(self).accepts_page(
                addr,
                bytes@,
            )),
            old(self).accepts_page(addr, bytes@) ==> final(self).page_covers() && final(
                self).measure() == old(self).measure(),
    {
        self.assembler.supply_page(addr, bytes);
    }

    /// The valid log has ended: no further page will come.  Unless
    /// the stream already failed, the log is ended from now on: every
    /// later poll reports the end of the sequence, or the dedicated
    /// error when no record at or after the start was ever seen.
    pub fn mark_end(&mut self)
        requires
            old(self).wf(),
        ensures
            final(self).wf(),
            final(self).emitted() == old(self).emitted(),
            final(self).end() == old(self).end(),
            final(self).start() == old(self).start(),
            final(self).relations() == old(self).relations(),
            final(self).pages() == old(self).pages(),
            final(self).record_lsns() == old(self).record_lsns(),
            final(self).saw_record() == old(self).saw_record(),
            final(self).last_record() == old(self).last_record(),
            final(self).log_ended() == (old(self).log_ended() || !old(self).stream_failed()),
            final(self).stream_failed() == old(self).stream_failed(),
            final(self).pending_req() is None,
            final(self).measure().0 == 0,
    {
        self.assembler.mark_end();
    }
}

} // verus!
