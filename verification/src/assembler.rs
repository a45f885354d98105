//! Record assembly: the state machine that consumes page-aligned
//! bytes and reassembles records whose headers and bodies may
//! straddle page and segment boundaries.
//!
//! The assembler never reads a file.  It asks its driver for pages by
//! address, validates each page's header against the address and the
//! assembly state, gathers record bytes across pages, and hands back
//! one parsed record at a time.  Records that start before the
//! session's start position are assembled and discarded.  The
//! positions of the records it emits are strictly increasing and lie
//! below the end of what was supplied.  Every step that reports
//! progress strictly decreases a ghost measure, so a driver that
//! answers page requests cannot be spun forever.

use vstd::bytes::u32_from_le_bytes;
use vstd::prelude::*;
use vstd::slice::slice_subrange;

use crate::page::{
    page_header_size, parse_page_header, spec_page_header, spec_page_header_size,
    SIZE_OF_LONG_PAGE_HEADER, XLP_FIRST_IS_CONTRECORD, XLP_LONG_HEADER, XLP_PAGE_MAGIC,
};
use crate::record::{
    parse_record, record_wf, spec_parse_record, RawRecord, MAX_RECORD_LEN, MIN_RECORD_LEN,
};
use crate::wal::{spec_is_valid_segsz, XLOG_BLCKSZ};

verus! {

/// A sequence of positions that strictly increases.
pub open spec fn lsns_strictly_increasing(s: Seq<u64>) -> bool {
    forall|i: int, j: int| 0 <= i < j < s.len() ==> s[i] < s[j]
}

/// Lexicographic order on three-part measures.
pub open spec fn lex3_lt(a: (int, int, int), b: (int, int, int)) -> bool {
    a.0 < b.0 || (a.0 == b.0 && (a.1 < b.1 || (a.1 == b.1 && a.2 < b.2)))
}

/// The page that holds the byte at `a`.
pub open spec fn spec_page_of(a: u64) -> u64 {
    (a - a % (XLOG_BLCKSZ as u64)) as u64
}

/// Compute the address of the page that holds the byte at `a`.
pub fn page_of(a: u64) -> (r: u64)
    ensures
        r == spec_page_of(a),
        r % (XLOG_BLCKSZ as u64) == 0,
        r <= a < r + XLOG_BLCKSZ,
{
    let r = a - a % (XLOG_BLCKSZ as u64);
    proof {
        assert(r == a - a % 8192 ==> r % 8192 == 0 && r <= a < r + 8192) by (bit_vector);
    }
    r
}

/// Round `x` up to the next multiple of eight, the alignment at which
/// records start; `None` when that leaves the address space.
pub fn align8_up(x: u64) -> (r: Option<u64>)
    ensures
        r matches Some(y) ==> y % 8 == 0 && x <= y < x + 8,
        r is None ==> x + 7 > u64::MAX,
{
    if x > u64::MAX - 7 {
        if x % 8 == 0 {
            Some(x)
        } else {
            None
        }
    } else {
        let y = (x + 7) & 0xffff_ffff_ffff_fff8u64;
        proof {
            assert(y == (x + 7) as u64 & 0xffff_ffff_ffff_fff8u64 && x <= u64::MAX - 7 ==> y % 8
                == 0 && x <= y < x + 8) by (bit_vector);
        }
        Some(y)
    }
}

/// Copy `src[from..to]` onto the end of `dst`.
fn append_range(dst: &mut Vec<u8>, src: &Vec<u8>, from: usize, to: usize)
    requires
        from <= to <= src@.len(),
    ensures
        final(dst)@ == old(dst)@ + src@.subrange(from as int, to as int),
{
    let ghost snap = dst@;
    let mut i = from;
    while i < to
        invariant
            from <= i <= to <= src@.len(),
            dst@ == snap + src@.subrange(from as int, i as int),
        decreases to - i,
    {
        dst.push(src[i]);
        proof {
            assert(snap + src@.subrange(from as int, i + 1) =~= (snap + src@.subrange(
                from as int,
                i as int,
            )).push(src@[i as int]));
        }
        i = i + 1;
    }
    proof {
        assert(dst@ =~= snap + src@.subrange(from as int, to as int));
    }
}

/// What the assembler asks of its driver, or hands back.
pub enum AsmStep {
    /// Supply at least `min_len` bytes of the page at `addr`.
    NeedPage {
        /// Page-aligned address of the page to read.
        addr: u64,
        /// The least number of its bytes that lets assembly go on.
        min_len: usize,
    },
    /// One record was assembled.
    Record(RawRecord),
    /// Internal work was done; ask again.
    Progress,
    /// The valid log has ended; so has the sequence.
    End,
    /// The byte stream is inconsistent in a way the end of the log
    /// does not explain; the sequence ends.
    Corrupt,
}

/// Where the assembler stands between steps.
enum Phase {
    /// No page has been processed yet.
    Start,
    /// Discarding the tail of a record already in progress at the
    /// session's first page.
    Skipping {
        /// Bytes of that record still to discard.
        remaining: u32,
    },
    /// At a position where the next record may start.
    Between,
    /// Gathering the bytes of one record; `need` is its declared
    /// total length, or zero while fewer than four bytes are read.
    InRecord {
        /// Declared total length, once known.
        need: u32,
    },
    /// The valid log has ended.
    Ended,
    /// The stream was found inconsistent.
    Failed,
}

/// The record assembly state machine.
pub struct RecordAssembler {
    /// Segment size of the session.
    segsz: u32,
    /// Records starting before this position are discarded.
    start_lsn: u64,
    /// Where the assembler stands.
    phase: Phase,
    /// Position of the next unconsumed byte.
    cur: u64,
    /// Address of the held page.
    page_addr: u64,
    /// The held page, when one is held.
    page: Option<Vec<u8>>,
    /// Bytes of the record being gathered.
    buf: Vec<u8>,
    /// Position where the gathered record starts.
    rec_start: u64,
    /// The outstanding page request, if any.
    pending: Option<(u64, usize)>,
    /// Positions of the records emitted so far.
    emitted: Ghost<Seq<u64>>,
    /// One past the highest address ever supplied.
    supplied: Ghost<int>,
}

impl RecordAssembler {
    /// Positions of the records emitted so far, in emission order.
    pub closed spec fn emitted(&self) -> Seq<u64> {
        self.emitted@
    }

    /// The position records must reach to be emitted.
    pub closed spec fn start(&self) -> u64 {
        self.start_lsn
    }

    /// The valid log has ended.
    pub closed spec fn is_ended(&self) -> bool {
        self.phase is Ended
    }

    /// The stream was found inconsistent.
    pub closed spec fn is_failed(&self) -> bool {
        self.phase is Failed
    }

    /// The outstanding page request, if any.
    pub closed spec fn pending_req(&self) -> Option<(u64, usize)> {
        self.pending
    }

    /// One past the highest address the driver has supplied bytes
    /// for; every emitted record starts below it.
    pub closed spec fn supplied_hi(&self) -> int {
        self.supplied@
    }

    /// The held page and its address, if a page is held.
    pub closed spec fn held_page(&self) -> Option<(u64, Seq<u8>)> {
        match self.page {
            Some(p) => Some((self.page_addr, p@)),
            None => None,
        }
    }

    /// The held page covers the next unconsumed byte.
    pub closed spec fn covers_cur(&self) -> bool {
        self.page matches Some(p) && self.page_addr == spec_page_of(self.cur) && self.cur
            - self.page_addr < p@.len()
    }

    /// The ghost measure that every progress step strictly decreases:
    /// whether the machine still has to orient (or has stopped), how
    /// many addresses are left ahead of the next unconsumed byte, and
    /// whether a record is still to be opened at that byte.
    pub closed spec fn measure(&self) -> (int, int, int) {
        (
            match self.phase {
                Phase::Start => 2int,
                Phase::Ended => 0int,
                Phase::Failed => 0int,
                _ => 1int,
            },
            u64::MAX - self.cur,
            if self.phase is Between {
                1int
            } else {
                0int
            },
        )
    }

    /// The page read at `addr` is consistent with the address and the
    /// assembly state: right magic, claims its own address, long form
    /// exactly on a segment's first page, and — when the page is
    /// entered at its boundary — its continuation flag and remaining
    /// length agree with the record in progress, or say that none is.
    pub closed spec fn accepts_page(&self, addr: u64, bytes: Seq<u8>) -> bool {
        let h = spec_page_header(bytes);
        &&& h.magic == XLP_PAGE_MAGIC
        &&& h.pageaddr == addr
        &&& ((h.info & XLP_LONG_HEADER != 0) == (spec_page_header_size(addr, self.segsz)
            == SIZE_OF_LONG_PAGE_HEADER))
        &&& (self.cur == addr ==> match self.phase {
            Phase::InRecord { need } => (h.info & XLP_FIRST_IS_CONTRECORD != 0) && (need
                >= MIN_RECORD_LEN ==> h.rem_len == need - self.buf@.len()),
            Phase::Skipping { remaining } => (h.info & XLP_FIRST_IS_CONTRECORD != 0) && h.rem_len
                == remaining,
            Phase::Between => (h.info & XLP_FIRST_IS_CONTRECORD == 0) && h.rem_len == 0,
            _ => true,
        })
    }

    /// The assembler's invariant.
    pub closed spec fn wf(&self) -> bool {
        &&& self.segsz > 0
        &&& lsns_strictly_increasing(self.emitted@)
        &&& (self.emitted@.len() > 0 ==> self.emitted@.last() < self.cur)
        &&& self.supplied@ >= 0
        &&& (self.page matches Some(p) ==> {
            &&& self.page_addr % (XLOG_BLCKSZ as u64) == 0
            &&& self.page_addr <= self.cur <= self.page_addr + 2 * XLOG_BLCKSZ
            &&& p@.len() <= XLOG_BLCKSZ
            &&& p@.len() >= spec_page_header_size(self.page_addr, self.segsz)
            &&& self.page_addr + p@.len() <= self.supplied@
        })
        &&& (self.phase matches Phase::InRecord { need } ==> {
            &&& (need == 0 ==> self.buf@.len() < 4)
            &&& (need != 0 ==> MIN_RECORD_LEN <= need <= MAX_RECORD_LEN && self.buf@.len()
                < need)
            &&& self.rec_start + self.buf@.len() <= self.cur
            &&& self.rec_start < self.supplied@
            &&& (self.emitted@.len() > 0 ==> self.emitted@.last() < self.rec_start)
        })
        &&& (self.phase matches Phase::Skipping { remaining } ==> remaining > 0)
        &&& (self.phase is Start ==> self.emitted@.len() == 0)
        &&& (self.pending matches Some(req) ==> {
            &&& self.page is None
            &&& !(self.phase is Ended)
            &&& !(self.phase is Failed)
            &&& req.0 == spec_page_of(self.cur)
            &&& spec_page_header_size(req.0, self.segsz) <= req.1 <= XLOG_BLCKSZ
            &&& self.cur - req.0 < req.1
        })
        &&& self.buf@.len() <= MAX_RECORD_LEN
    }

    /// The positions of the emitted records strictly increase.
    pub proof fn lemma_emitted_increasing(&self)
        requires
            self.wf(),
        ensures
            lsns_strictly_increasing(self.emitted()),
    {
    }

    /// The position of the next byte the assembler would consume;
    /// where an inconsistency is reported.
    pub fn position(&self) -> u64 {
        self.cur
    }

    /// A fresh assembler that will emit the records standing at or
    /// after `start_lsn`.
    pub fn new(start_lsn: u64, segsz: u32) -> (a: RecordAssembler)
        requires
            spec_is_valid_segsz(segsz as int),
        ensures
            a.wf(),
            a.emitted() == Seq::<u64>::empty(),
            a.start() == start_lsn,
            !a.is_ended(),
            !a.is_failed(),
            a.pending_req() is None,
            a.supplied_hi() == 0,
    {
        RecordAssembler {
            segsz,
            start_lsn,
            phase: Phase::Start,
            cur: start_lsn,
            page_addr: 0,
            page: None,
            buf: Vec::new(),
            rec_start: 0,
            pending: None,
            emitted: Ghost(Seq::empty()),
            supplied: Ghost(0int),
        }
    }

    /// The valid log has ended: no further page will come.  Unless an
    /// inconsistency was already found, the machine is ended from now
    /// on; a record left unfinished at the end of the log is
    /// discarded.
    pub fn mark_end(&mut self)
        requires
            old(self).wf(),
        ensures
            final(self).wf(),
            final(self).is_ended() == (old(self).is_ended() || !old(self).is_failed()),
            old(self).is_failed() == final(self).is_failed(),
            final(self).emitted() == old(self).emitted(),
            final(self).start() == old(self).start(),
            final(self).supplied_hi() == old(self).supplied_hi(),
            final(self).measure().0 == 0,
            final(self).held_page() is None,
            final(self).pending_req() is None,
    {
        match self.phase {
            Phase::Failed => {},
            _ => {
                self.phase = Phase::Ended;
            },
        }
        self.page = None;
        self.pending = None;
    }

    /// Answer the outstanding page request with the bytes read at
    /// `addr`.  The page is held afterwards exactly when its header is
    /// consistent with the address and the assembly state; an
    /// inconsistent header fails the stream.
    pub fn supply_page(&mut self, addr: u64, bytes: Vec<u8>)
        requires
            old(self).wf(),
            old(self).pending_req() matches Some(req) && req.0 == addr && req.1 <= bytes@.len()
                <= XLOG_BLCKSZ,
        ensures
            final(self).wf(),
            final(self).emitted() == old(self).emitted(),
            final(self).start() == old(self).start(),
            final(self).pending_req() is None,
            final(self).is_ended() == old(self).is_ended(),
            final(self).held_page() == (if old(self).accepts_page(addr, bytes@) {
                Some((addr, bytes@))
            } else {
                None::<(u64, Seq<u8>)>
            }),
            final(self).is_failed() == (old(self).is_failed() || !old(self).accepts_page(
                addr,
                bytes@,
            )),
            old(self).accepts_page(addr, bytes@) ==> final(self).covers_cur() && final(
                self).measure() == old(self).measure(),
            final(self).supplied_hi() == (if addr + bytes@.len() > old(self).supplied_hi() {
                addr + bytes@.len()
            } else {
                old(self).supplied_hi()
            }),
    {
        self.pending = None;
        proof {
            if addr + bytes@.len() > self.supplied@ {
                self.supplied = Ghost(addr + bytes@.len());
            }
        }
        let h = parse_page_header(&bytes);
        let hdr_size = page_header_size(addr, self.segsz);
        let long_expected = hdr_size == SIZE_OF_LONG_PAGE_HEADER;
        let is_long = h.info & XLP_LONG_HEADER != 0;
        let is_cont = h.info & XLP_FIRST_IS_CONTRECORD != 0;
        if h.magic != XLP_PAGE_MAGIC || h.pageaddr != addr || is_long != long_expected {
            self.phase = Phase::Failed;
            self.page = None;
            return ;
        }
        if self.cur == addr {
            // Entering the page at its boundary: its header must
            // agree with the assembly state.
            match self.phase {
                Phase::InRecord { need } => {
                    if need >= MIN_RECORD_LEN {
                        let remaining: usize = need as usize - self.buf.len();
                        if !is_cont || h.rem_len as usize != remaining {
                            self.phase = Phase::Failed;
                            self.page = None;
                            return ;
                        }
                    } else {
                        if !is_cont {
                            self.phase = Phase::Failed;
                            self.page = None;
                            return ;
                        }
                    }
                },
                Phase::Skipping { remaining } => {
                    if !is_cont || h.rem_len != remaining {
                        self.phase = Phase::Failed;
                        self.page = None;
                        return ;
                    }
                },
                Phase::Between => {
                    if is_cont || h.rem_len != 0 {
                        self.phase = Phase::Failed;
                        self.page = None;
                        return ;
                    }
                },
                _ => {},
            }
        }
        self.page_addr = addr;
        self.page = Some(bytes);
    }

    /// Issue the request for the page that holds `cur`.
    fn request_page(&mut self) -> (r: AsmStep)
        requires
            old(self).wf(),
            !(old(self).phase is Ended),
            !(old(self).phase is Failed),
        ensures
            final(self).wf(),
            final(self).emitted() == old(self).emitted(),
            final(self).start() == old(self).start(),
            final(self).is_ended() == old(self).is_ended(),
            final(self).is_failed() == old(self).is_failed(),
            final(self).supplied_hi() == old(self).supplied_hi(),
            final(self).measure() == old(self).measure(),
            final(self).measure().0 >= 1,
            r matches AsmStep::NeedPage { addr, min_len } ==> final(self).pending_req() == Some(
                (addr, min_len),
            ) && addr % (XLOG_BLCKSZ as u64) == 0 && 0 < min_len <= XLOG_BLCKSZ,
            r is NeedPage,
    {
        let pg = page_of(self.cur);
        let hdr = page_header_size(pg, self.segsz);
        let off = (self.cur - pg) as usize;
        let min_len = if off + 1 > hdr {
            off + 1
        } else {
            hdr
        };
        self.page = None;
        self.pending = Some((pg, min_len));
        AsmStep::NeedPage { addr: pg, min_len }
    }

    /// Orient on the first page of the session: a record already in
    /// progress there will be discarded.
    fn step_start(&mut self) -> (r: AsmStep)
        requires
            old(self).wf(),
            old(self).phase is Start,
            old(self).covers_cur(),
        ensures
            final(self).wf(),
            final(self).start() == old(self).start(),
            final(self).emitted() == old(self).emitted(),
            final(self).supplied_hi() == old(self).supplied_hi(),
            r is Progress || r is Corrupt,
            final(self).is_failed() == (r is Corrupt),
            !(final(self).is_ended()),
            r is Progress ==> lex3_lt(final(self).measure(), old(self).measure()),
    {
        let hdr = page_header_size(self.page_addr, self.segsz);
        proof {
            let pa = self.page_addr;
            assert(pa % 8192 == 0 ==> pa <= 0xffff_ffff_ffff_e000u64) by (bit_vector);
        }
        let rem_len: u32;
        let is_cont: bool;
        match &self.page {
            Some(p) => {
                let h = parse_page_header(p);
                rem_len = h.rem_len;
                is_cont = h.info & XLP_FIRST_IS_CONTRECORD != 0;
            },
            None => {
                rem_len = 0;
                is_cont = false;
            },
        }
        if is_cont != (rem_len > 0) {
            self.phase = Phase::Failed;
            return AsmStep::Corrupt;
        }
        if rem_len > 0 {
            self.phase = Phase::Skipping { remaining: rem_len };
        } else {
            self.phase = Phase::Between;
        }
        self.cur = self.page_addr + hdr as u64;
        AsmStep::Progress
    }

    /// Discard bytes of the record that was in progress at the
    /// session's first page.
    #[verifier::rlimit(100)]
    fn step_skipping(&mut self, remaining: u32) -> (r: AsmStep)
        requires
            old(self).wf(),
            old(self).phase matches Phase::Skipping { remaining: rem } && rem == remaining,
            old(self).covers_cur(),
        ensures
            final(self).wf(),
            final(self).start() == old(self).start(),
            final(self).emitted() == old(self).emitted(),
            final(self).supplied_hi() == old(self).supplied_hi(),
            r is Progress || r is Corrupt,
            final(self).is_failed() == (r is Corrupt),
            final(self).is_ended() == old(self).is_ended(),
            r is Progress ==> lex3_lt(final(self).measure(), old(self).measure()),
    {
        let hdr = page_header_size(self.page_addr, self.segsz);
        let off = (self.cur - self.page_addr) as usize;
        proof {
            let pa = self.page_addr;
            assert(pa % 8192 == 0 ==> pa <= 0xffff_ffff_ffff_e000u64) by (bit_vector);
        }
        if off < hdr {
            self.cur = self.page_addr + hdr as u64;
            return AsmStep::Progress;
        }
        let avail: usize = match &self.page {
            Some(p) => p.len() - off,
            None => 0,
        };
        let take: usize = if (remaining as usize) < avail {
            remaining as usize
        } else {
            avail
        };
        if take as u64 > u64::MAX - self.cur {
            self.phase = Phase::Failed;
            return AsmStep::Corrupt;
        }
        self.cur = self.cur + take as u64;
        if take == remaining as usize {
            match align8_up(self.cur) {
                Some(aligned) => {
                    proof {
                        let pa = self.page_addr;
                        assert(pa % 8192 == 0 ==> (pa + 8192) % 8 == 0) by (bit_vector);
                    }
                    self.cur = aligned;
                    self.phase = Phase::Between;
                },
                None => {
                    self.phase = Phase::Failed;
                    return AsmStep::Corrupt;
                },
            }
        } else {
            self.phase = Phase::Skipping { remaining: remaining - take as u32 };
        }
        AsmStep::Progress
    }

    /// Open the record that starts at the next unconsumed byte.
    fn step_between(&mut self) -> (r: AsmStep)
        requires
            old(self).wf(),
            old(self).phase is Between,
            old(self).covers_cur(),
        ensures
            final(self).wf(),
            final(self).start() == old(self).start(),
            final(self).emitted() == old(self).emitted(),
            final(self).supplied_hi() == old(self).supplied_hi(),
            r is Progress,
            final(self).is_ended() == old(self).is_ended(),
            !(final(self).is_failed()),
            lex3_lt(final(self).measure(), old(self).measure()),
    {
        let hdr = page_header_size(self.page_addr, self.segsz);
        let off = (self.cur - self.page_addr) as usize;
        proof {
            let pa = self.page_addr;
            assert(pa % 8192 == 0 ==> pa <= 0xffff_ffff_ffff_e000u64) by (bit_vector);
        }
        if off < hdr {
            self.cur = self.page_addr + hdr as u64;
            return AsmStep::Progress;
        }
        self.rec_start = self.cur;
        self.buf = Vec::new();
        self.phase = Phase::InRecord { need: 0 };
        AsmStep::Progress
    }

    /// Parse the record whose bytes are complete in the buffer, step
    /// past its padding, and emit it when it starts at or after the
    /// session's start position.
    #[verifier::rlimit(100)]
    fn complete_record(&mut self) -> (r: AsmStep)
        requires
            old(self).segsz > 0,
            old(self).phase matches Phase::InRecord { need } && MIN_RECORD_LEN <= need
                <= MAX_RECORD_LEN && old(self).buf@.len() == need,
            old(self).pending is None,
            old(self).page matches Some(p) && old(self).page_addr % (XLOG_BLCKSZ as u64) == 0
                && old(self).page_addr <= old(self).cur <= old(self).page_addr + XLOG_BLCKSZ
                && p@.len() <= XLOG_BLCKSZ && p@.len() >= spec_page_header_size(
                old(self).page_addr,
                old(self).segsz,
            ) && old(self).page_addr + p@.len() <= old(self).supplied@,
            old(self).supplied@ >= 0,
            lsns_strictly_increasing(old(self).emitted@),
            old(self).emitted@.len() > 0 ==> old(self).emitted@.last() < old(self).rec_start,
            old(self).rec_start < old(self).cur,
            old(self).rec_start < old(self).supplied@,
        ensures
            final(self).wf(),
            final(self).start() == old(self).start(),
            final(self).supplied_hi() == old(self).supplied_hi(),
            final(self).cur >= old(self).cur,
            final(self).measure().0 <= 1,
            r is Progress || r is Corrupt || r matches AsmStep::Record(_),
            final(self).is_failed() == (r is Corrupt),
            !(final(self).is_ended()),
            !(r matches AsmStep::Record(_)) ==> final(self).emitted() == old(self).emitted(),
            r matches AsmStep::Record(rec) ==> final(self).emitted() == old(self).emitted().push(
                rec.lsn,
            ) && rec.lsn >= old(self).start() && (old(self).emitted@.len() > 0 ==> rec.lsn > old(
                self).emitted@.last()) && rec.lsn < old(self).supplied@ && record_wf(rec@)
                && rec@.lsn == rec.lsn && (exists|bts: Seq<u8>|
                spec_parse_record(bts, rec.lsn) == Some(rec@)),
    {
        let ghost rec_bytes = self.buf@;
        let rec_opt = parse_record(&self.buf, self.rec_start);
        match rec_opt {
            None => {
                self.phase = Phase::Failed;
                AsmStep::Corrupt
            },
            Some(rec) => {
                match align8_up(self.cur) {
                    Some(aligned) => {
                        proof {
                            let pa = self.page_addr;
                            assert(pa % 8192 == 0 ==> (pa + 8192) % 8 == 0) by (bit_vector);
                        }
                        self.cur = aligned;
                    },
                    None => {
                        self.phase = Phase::Failed;
                        return AsmStep::Corrupt;
                    },
                }
                self.phase = Phase::Between;
                self.buf = Vec::new();
                proof {
                    assert(rec.lsn == self.rec_start);
                }
                if self.rec_start >= self.start_lsn {
                    proof {
                        assert(spec_parse_record(rec_bytes, rec.lsn) == Some(rec@));
                        assert(record_wf(rec@));
                        let old_emitted = self.emitted@;
                        assert forall|i: int, j: int|
                            0 <= i < j < old_emitted.push(rec.lsn).len() implies old_emitted.push(
                            rec.lsn,
                        )[i] < old_emitted.push(rec.lsn)[j] by {
                            if j < old_emitted.len() {
                            } else {
                                assert(old_emitted.push(rec.lsn)[j] == rec.lsn);
                            }
                        }
                    }
                    self.emitted = Ghost(self.emitted@.push(rec.lsn));
                    return AsmStep::Record(rec);
                }
                AsmStep::Progress
            },
        }
    }

    /// Gather bytes of the record being assembled; emit it when its
    /// declared length is reached.
    #[verifier::rlimit(100)]
    fn step_in_record(&mut self, need: u32) -> (r: AsmStep)
        requires
            old(self).wf(),
            old(self).phase matches Phase::InRecord { need: n } && n == need,
            old(self).covers_cur(),
        ensures
            final(self).wf(),
            final(self).start() == old(self).start(),
            final(self).supplied_hi() == old(self).supplied_hi(),
            r is Progress || r is Corrupt || r is End || r matches AsmStep::Record(_),
            final(self).is_failed() == (r is Corrupt),
            final(self).is_ended() == (r is End),
            !(r matches AsmStep::Record(_)) ==> final(self).emitted() == old(self).emitted(),
            r is Progress ==> lex3_lt(final(self).measure(), old(self).measure()),
            r matches AsmStep::Record(rec) ==> lex3_lt(final(self).measure(), old(self).measure())
                && final(self).emitted() == old(self).emitted().push(rec.lsn) && rec.lsn >= old(
                self).start() && (old(self).emitted().len() > 0 ==> rec.lsn > old(
                self).emitted().last()) && rec.lsn < old(self).supplied_hi() && record_wf(rec@)
                && rec@.lsn == rec.lsn && (exists|bts: Seq<u8>|
                spec_parse_record(bts, rec.lsn) == Some(rec@)),
    {
        let hdr = page_header_size(self.page_addr, self.segsz);
        let off = (self.cur - self.page_addr) as usize;
        proof {
            let pa = self.page_addr;
            assert(pa % 8192 == 0 ==> pa <= 0xffff_ffff_ffff_e000u64) by (bit_vector);
        }
        if off < hdr {
            self.cur = self.page_addr + hdr as u64;
            return AsmStep::Progress;
        }
        let avail: usize = match &self.page {
            Some(p) => p.len() - off,
            None => 0,
        };
        if need < MIN_RECORD_LEN {
            // The declared length is not known yet: gather the four
            // bytes that hold it.
            let want: usize = 4 - self.buf.len();
            let take: usize = if want < avail {
                want
            } else {
                avail
            };
            match &self.page {
                Some(p) => {
                    append_range(&mut self.buf, p, off, off + take);
                },
                None => {},
            }
            if take as u64 > u64::MAX - self.cur {
                self.phase = Phase::Failed;
                return AsmStep::Corrupt;
            }
            self.cur = self.cur + take as u64;
            if self.buf.len() == 4 {
                let tl = u32_from_le_bytes(slice_subrange(self.buf.as_slice(), 0, 4));
                if tl == 0 {
                    // Zeroed space: the valid log ends here.
                    self.phase = Phase::Ended;
                    self.page = None;
                    return AsmStep::End;
                }
                if tl < MIN_RECORD_LEN || tl > MAX_RECORD_LEN {
                    self.phase = Phase::Failed;
                    return AsmStep::Corrupt;
                }
                self.phase = Phase::InRecord { need: tl };
            }
            return AsmStep::Progress;
        }
        let want: usize = need as usize - self.buf.len();
        let take: usize = if want < avail {
            want
        } else {
            avail
        };
        match &self.page {
            Some(p) => {
                append_range(&mut self.buf, p, off, off + take);
            },
            None => {},
        }
        if take as u64 > u64::MAX - self.cur {
            self.phase = Phase::Failed;
            return AsmStep::Corrupt;
        }
        self.cur = self.cur + take as u64;
        if self.buf.len() == need as usize {
            return self.complete_record();
        }
        AsmStep::Progress
    }

    /// Do one bounded piece of work: ask for a page, consume bytes of
    /// the held page, or hand back what was assembled.
    ///
    /// After the sequence has ended — cleanly or on an inconsistency —
    /// every further call reports the same outcome and changes
    /// nothing; the machine ends or fails exactly when `End` or
    /// `Corrupt` is reported.  When the held page covers the next
    /// unconsumed byte, no page is requested, and a step that reports
    /// progress or a record strictly decreases the ghost measure.
    /// Emitted records parse as records, start at or after the
    /// session's start position and below the supplied bytes, and
    /// their positions strictly increase.
    pub fn next_step(&mut self) -> (r: AsmStep)
        requires
            old(self).wf(),
        ensures
            final(self).wf(),
            final(self).start() == old(self).start(),
            final(self).supplied_hi() == old(self).supplied_hi(),
            old(self).is_ended() ==> r is End && *final(self) == *old(self),
            old(self).is_failed() ==> r is Corrupt && *final(self) == *old(self),
            final(self).is_ended() == (old(self).is_ended() || r is End),
            final(self).is_failed() == (old(self).is_failed() || r is Corrupt),
            r is End ==> final(self).emitted() == old(self).emitted(),
            r is Corrupt ==> final(self).emitted() == old(self).emitted(),
            r is Progress ==> final(self).emitted() == old(self).emitted() && lex3_lt(
                final(self).measure(),
                old(self).measure(),
            ),
            r matches AsmStep::NeedPage { addr, min_len } ==> final(self).pending_req() == Some(
                (addr, min_len),
            ) && addr % (XLOG_BLCKSZ as u64) == 0 && 0 < min_len <= XLOG_BLCKSZ && final(
                self).emitted() == old(self).emitted() && final(self).measure() == old(
                self).measure() && final(self).measure().0 >= 1,
            !old(self).is_ended() && !old(self).is_failed() && old(self).covers_cur() ==> !(
            r is NeedPage),
            r matches AsmStep::Record(rec) ==> lex3_lt(final(self).measure(), old(self).measure())
                && final(self).emitted() == old(self).emitted().push(rec.lsn) && rec.lsn >= old(
                self).start() && (old(self).emitted().len() > 0 ==> rec.lsn > old(
                self).emitted().last()) && rec.lsn < old(self).supplied_hi() && record_wf(rec@)
                && rec@.lsn == rec.lsn && (exists|bts: Seq<u8>|
                spec_parse_record(bts, rec.lsn) == Some(rec@)),
    {
        match self.phase {
            Phase::Ended => {
                return AsmStep::End;
            },
            Phase::Failed => {
                return AsmStep::Corrupt;
            },
            _ => {},
        }
        // Make sure the held page covers the next unconsumed byte.
        let pg = page_of(self.cur);
        let covers: bool = match &self.page {
            Some(p) => self.page_addr == pg && ((self.cur - self.page_addr) as usize) < p.len(),
            None => false,
        };
        if !covers {
            return self.request_page();
        }
        match self.phase {
            Phase::Start => self.step_start(),
            Phase::Skipping { remaining } => self.step_skipping(remaining),
            Phase::Between => self.step_between(),
            Phase::InRecord { need } => self.step_in_record(need),
            _ => AsmStep::Corrupt,
        }
    }
}

} // verus!
