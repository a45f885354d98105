use waldecoder::decoder::{DecodedResult, HeapOp, NextChange, WalDecoder};
use waldecoder::lsn;
use waldecoder::pg_lsn::PgLSN;
use waldecoder::record::WalError;
use waldecoder::relation::RelationMap;
use waldecoder::wal;

const BLCKSZ: usize = 8192;
const PAGE_MAGIC: u16 = 0xD118;
const CONTRECORD: u16 = 0x0001;
const LONG_HEADER: u16 = 0x0002;
const SEGSZ: u64 = 1024 * 1024;
const RM_HEAP: u8 = 10;
const OP_INSERT: u8 = 0x00;
const OP_DELETE: u8 = 0x10;
const OP_UPDATE: u8 = 0x20;

const SPC: u32 = 1663;
const DB: u32 = 5;
const REL: u32 = 16384;
const BLKNO: u32 = 0;
const RELID: u32 = 4242;

/// Builds a contiguous in-memory image of the log, page headers
/// included, exactly as segment files would hold it.
struct LogBuilder {
    base: u64,
    bytes: Vec<u8>,
    pos: u64,
}

impl LogBuilder {
    fn new(base: u64) -> LogBuilder {
        assert!(base % BLCKSZ as u64 == 0);
        LogBuilder { base, bytes: Vec::new(), pos: base }
    }

    /// Write the page header if the position sits on a page
    /// boundary; `rem` is how much of the current record still
    /// follows.
    fn begin_page_if_needed(&mut self, rem: u32) {
        if self.pos % BLCKSZ as u64 != 0 {
            return;
        }
        let long = self.pos % SEGSZ == 0;
        let mut info: u16 = 0;
        if rem > 0 {
            info |= CONTRECORD;
        }
        if long {
            info |= LONG_HEADER;
        }
        self.bytes.extend_from_slice(&PAGE_MAGIC.to_le_bytes());
        self.bytes.extend_from_slice(&info.to_le_bytes());
        self.bytes.extend_from_slice(&1u32.to_le_bytes()); // timeline
        self.bytes.extend_from_slice(&self.pos.to_le_bytes());
        self.bytes.extend_from_slice(&rem.to_le_bytes());
        self.bytes.extend_from_slice(&[0u8; 4]);
        self.pos += 24;
        if long {
            self.bytes.extend_from_slice(&[0u8; 8]); // system identifier
            self.bytes.extend_from_slice(&(SEGSZ as u32).to_le_bytes());
            self.bytes.extend_from_slice(&(BLCKSZ as u32).to_le_bytes());
            self.pos += 16;
        }
    }

    /// Lay one encoded record into the log, splitting it over page
    /// and segment boundaries as needed; returns its start position.
    fn append_record(&mut self, rec: &[u8]) -> u64 {
        self.begin_page_if_needed(0);
        let start = self.pos;
        let mut written = 0usize;
        while written < rec.len() {
            self.begin_page_if_needed((rec.len() - written) as u32);
            let room = BLCKSZ - (self.pos % BLCKSZ as u64) as usize;
            let take = room.min(rec.len() - written);
            self.bytes.extend_from_slice(&rec[written..written + take]);
            self.pos += take as u64;
            written += take;
        }
        while self.pos % 8 != 0 {
            self.bytes.push(0);
            self.pos += 1;
        }
        start
    }

    /// Zero-fill the rest of the current page, as a preallocated
    /// segment file holds zeroes past the written log.
    fn finish(mut self) -> (u64, Vec<u8>) {
        while self.pos % BLCKSZ as u64 != 0 {
            self.bytes.push(0);
            self.pos += 1;
        }
        (self.base, self.bytes)
    }
}

struct BlockSpec {
    has_image: bool,
    apply_image: bool,
    image: Vec<u8>,
}

/// Encode one record: header, block count, block references, payload.
fn encode_record(xid: u32, info: u8, rmid: u8, blocks: &[BlockSpec], payload: &[u8]) -> Vec<u8> {
    let mut body: Vec<u8> = Vec::new();
    body.push(blocks.len() as u8);
    for (i, b) in blocks.iter().enumerate() {
        body.push(i as u8);
        let mut flags = 0u8;
        if b.has_image {
            flags |= 1;
        }
        if b.apply_image {
            flags |= 2;
        }
        body.push(flags);
        body.extend_from_slice(&SPC.to_le_bytes());
        body.extend_from_slice(&DB.to_le_bytes());
        body.extend_from_slice(&REL.to_le_bytes());
        body.extend_from_slice(&BLKNO.to_le_bytes());
        if b.has_image {
            assert!(b.image.len() == BLCKSZ);
            body.extend_from_slice(&b.image);
        }
    }
    body.extend_from_slice(payload);
    let tot_len = (24 + body.len()) as u32;
    let mut rec: Vec<u8> = Vec::new();
    rec.extend_from_slice(&tot_len.to_le_bytes());
    rec.extend_from_slice(&xid.to_le_bytes());
    rec.extend_from_slice(&0u64.to_le_bytes()); // previous record
    rec.push(info);
    rec.push(rmid);
    rec.extend_from_slice(&[0u8; 2]);
    rec.extend_from_slice(&0u32.to_le_bytes()); // checksum, unverified
    rec.extend_from_slice(&body);
    rec
}

/// A filler record of exactly `tot_len` bytes that the decoder skips.
fn filler_record(tot_len: usize) -> Vec<u8> {
    assert!(tot_len >= 25);
    encode_record(1, 0, 0, &[], &vec![0u8; tot_len - 25])
}

/// A slotted heap page holding the given rows in slots 1, 2, ...
fn make_heap_page(rows: &[&[u8]]) -> Vec<u8> {
    let mut page = vec![0u8; BLCKSZ];
    let pd_lower = (24 + 4 * rows.len()) as u16;
    page[12..14].copy_from_slice(&pd_lower.to_le_bytes());
    let mut upper = BLCKSZ;
    for (i, row) in rows.iter().enumerate() {
        upper -= row.len();
        page[upper..upper + row.len()].copy_from_slice(row);
        let lp: u32 = (upper as u32) | (1 << 15) | ((row.len() as u32) << 17);
        page[24 + 4 * i..24 + 4 * i + 4].copy_from_slice(&lp.to_le_bytes());
    }
    page
}

fn insert_record(xid: u32, offnum: u16, image: Option<Vec<u8>>) -> Vec<u8> {
    let blocks = match image {
        Some(img) => vec![BlockSpec { has_image: true, apply_image: true, image: img }],
        None => vec![BlockSpec { has_image: false, apply_image: false, image: Vec::new() }],
    };
    encode_record(xid, OP_INSERT, RM_HEAP, &blocks, &offnum.to_le_bytes())
}

fn session_relmap() -> RelationMap {
    let mut m = RelationMap::new();
    m.insert(SPC, REL, RELID);
    m
}

enum Outcome {
    Ended,
    Fatal(WalError),
}

/// Drive a session over an in-memory log image until it ends.
fn drive(dec: &mut WalDecoder, base: u64, log: &[u8]) -> (Vec<DecodedResult>, Outcome) {
    let mut out: Vec<DecodedResult> = Vec::new();
    let mut steps = 0u64;
    loop {
        steps += 1;
        assert!(steps < 10_000_000, "the session does not make progress");
        match dec.poll() {
            NextChange::Progress => {},
            NextChange::NeedPage { addr, len } => {
                if addr < base || addr - base >= log.len() as u64 {
                    dec.mark_end();
                    continue;
                }
                let off = (addr - base) as usize;
                if log.len() - off < len {
                    dec.mark_end();
                    continue;
                }
                dec.supply_page(addr, log[off..off + len].to_vec());
            },
            NextChange::Change(c) => out.push(c),
            NextChange::End => return (out, Outcome::Ended),
            NextChange::Fatal(e) => return (out, Outcome::Fatal(e)),
        }
    }
}

const SEG18: u64 = 0x1800000;

#[test]
fn test_fpw_round_trip() {
    // A full-page image written into a segment and read back through
    // the cache yields rows byte-identical to what the image held.
    let image = make_heap_page(&[b"hello-row-one", b"world-row-two"]);
    let mut b = LogBuilder::new(SEG18);
    let lsn1 = b.append_record(&insert_record(100, 1, Some(image)));
    let lsn2 = b.append_record(&insert_record(101, 2, None));
    let (base, log) = b.finish();

    let mut dec =
        WalDecoder::new(PgLSN::from(base), None, 1, SEGSZ as u32, session_relmap()).unwrap();
    let (changes, outcome) = drive(&mut dec, base, &log);
    assert!(matches!(outcome, Outcome::Ended));
    assert_eq!(changes.len(), 2);
    assert_eq!(changes[0].lsn, lsn1);
    assert_eq!(changes[0].relid, RELID);
    assert_eq!(changes[0].dboid, DB);
    assert_eq!(changes[0].xid, 100);
    assert_eq!(changes[0].op, HeapOp::Insert);
    assert!(changes[0].row_before.is_none());
    assert_eq!(changes[0].row_after.as_deref(), Some(b"hello-row-one".as_slice()));
    // The second record carries no image: its row comes out of the
    // cached page, unchanged since the image was restored.
    assert_eq!(changes[1].lsn, lsn2);
    assert_eq!(changes[1].row_after.as_deref(), Some(b"world-row-two".as_slice()));
}

#[test]
fn test_next_after_end_is_idempotent() {
    let image = make_heap_page(&[b"r1"]);
    let mut b = LogBuilder::new(SEG18);
    b.append_record(&insert_record(7, 1, Some(image)));
    let (base, log) = b.finish();

    let mut dec =
        WalDecoder::new(PgLSN::from(base), None, 1, SEGSZ as u32, session_relmap()).unwrap();
    let (changes, outcome) = drive(&mut dec, base, &log);
    assert!(matches!(outcome, Outcome::Ended));
    assert_eq!(changes.len(), 1);
    for _ in 0..5 {
        assert!(matches!(dec.poll(), NextChange::End));
    }
}

#[test]
fn test_change_pointers_strictly_increase() {
    let image = make_heap_page(&[b"a", b"b", b"c"]);
    let mut b = LogBuilder::new(SEG18);
    b.append_record(&insert_record(1, 1, Some(image)));
    b.append_record(&filler_record(48));
    b.append_record(&insert_record(2, 2, None));
    b.append_record(&insert_record(3, 3, None));
    let (base, log) = b.finish();

    let mut dec =
        WalDecoder::new(PgLSN::from(base), None, 1, SEGSZ as u32, session_relmap()).unwrap();
    let (changes, outcome) = drive(&mut dec, base, &log);
    assert!(matches!(outcome, Outcome::Ended));
    assert_eq!(changes.len(), 3);
    for w in changes.windows(2) {
        assert!(w[0].lsn < w[1].lsn);
    }
}

#[test]
fn test_skip_without_image_continues() {
    // A record whose page was never seen with a full-page image
    // produces no change and does not abort: the next valid record is
    // still produced.
    let image = make_heap_page(&[b"first", b"second"]);
    let mut b = LogBuilder::new(SEG18);
    let _skipped = b.append_record(&insert_record(1, 2, None));
    let lsn2 = b.append_record(&insert_record(2, 1, Some(image)));
    let (base, log) = b.finish();

    let mut dec =
        WalDecoder::new(PgLSN::from(base), None, 1, SEGSZ as u32, session_relmap()).unwrap();
    let (changes, outcome) = drive(&mut dec, base, &log);
    assert!(matches!(outcome, Outcome::Ended));
    assert_eq!(changes.len(), 1);
    assert_eq!(changes[0].lsn, lsn2);
    assert_eq!(changes[0].row_after.as_deref(), Some(b"first".as_slice()));
}

#[test]
fn test_insert_before_and_after_image() {
    // The same insert is skipped before the image-bearing record for
    // its page and decoded after it, with the after-row set and no
    // before-row.
    let image = make_heap_page(&[b"tuple-one", b"tuple-two"]);
    let mut b = LogBuilder::new(SEG18);
    b.append_record(&insert_record(1, 2, None)); // no image yet: skipped
    b.append_record(&insert_record(2, 1, Some(image)));
    let lsn3 = b.append_record(&insert_record(3, 2, None)); // same insert, image present now
    let (base, log) = b.finish();

    let mut dec =
        WalDecoder::new(PgLSN::from(base), None, 1, SEGSZ as u32, session_relmap()).unwrap();
    let (changes, outcome) = drive(&mut dec, base, &log);
    assert!(matches!(outcome, Outcome::Ended));
    assert_eq!(changes.len(), 2);
    assert_eq!(changes[1].lsn, lsn3);
    assert_eq!(changes[1].op, HeapOp::Insert);
    assert!(changes[1].row_before.is_none());
    assert_eq!(changes[1].row_after.as_deref(), Some(b"tuple-two".as_slice()));
}

#[test]
fn test_two_segment_spanning_record() {
    // A record whose header sits in the last page of one segment and
    // whose body begins in the next is assembled into one record.
    let last_page = SEG18 + SEGSZ - BLCKSZ as u64;
    let image = make_heap_page(&[b"spanning-row"]);
    let mut b = LogBuilder::new(last_page);
    b.append_record(&filler_record(8136));
    let rec_start = b.append_record(&insert_record(9, 1, Some(image)));
    let (base, log) = b.finish();
    assert_eq!(rec_start, SEG18 + SEGSZ - 32); // 32 bytes before the boundary

    let mut dec =
        WalDecoder::new(PgLSN::from(rec_start), None, 1, SEGSZ as u32, session_relmap()).unwrap();
    let (changes, outcome) = drive(&mut dec, base, &log);
    assert!(matches!(outcome, Outcome::Ended));
    assert_eq!(changes.len(), 1);
    assert_eq!(changes[0].lsn, rec_start);
    assert_eq!(changes[0].row_after.as_deref(), Some(b"spanning-row".as_slice()));
}

#[test]
fn test_bounded_range_session() {
    // One 1 MiB segment named 000000010000000000000018; the window
    // [0/01800028, 0/01800D28) holds a handful of records; the
    // session ends cleanly at the end pointer.
    let name = lsn::xlog_file_name(1, 0x18, SEGSZ as i32);
    assert_eq!(name, "000000010000000000000018");
    let (tli, segno) = lsn::filename_to_startptr(&name, SEGSZ).unwrap();
    assert_eq!((tli, segno), (1, 24));
    let mut header = vec![0u8; BLCKSZ];
    header[32..36].copy_from_slice(&(SEGSZ as u32).to_le_bytes());
    assert_eq!(wal::validate_wal_file(&name, &header).unwrap(), SEGSZ as u32);

    let mut b = LogBuilder::new(SEG18);
    for _ in 0..10 {
        b.append_record(&filler_record(256));
    }
    let (base, log) = b.finish();

    let start = lsn::lsn_to_rec_ptr("0/01800028").unwrap();
    assert_eq!(start.to_u64(), SEG18 + 0x28);
    let mut dec =
        WalDecoder::new(start, Some("0/01800D28"), 1, SEGSZ as u32, session_relmap()).unwrap();
    let (changes, outcome) = drive(&mut dec, base, &log);
    assert!(matches!(outcome, Outcome::Ended));
    // Filler records carry a foreign resource manager: no changes,
    // and whatever is produced lies inside the window.
    for c in &changes {
        assert!(SEG18 + 0x28 <= c.lsn && c.lsn < SEG18 + 0xD28);
    }
    assert_eq!(changes.len(), 0);
    for _ in 0..3 {
        assert!(matches!(dec.poll(), NextChange::End));
    }
}

#[test]
fn test_no_record_after_start() {
    // The log ends before any record at or after the start position:
    // the session fails at its first call with the dedicated error.
    let mut b = LogBuilder::new(SEG18);
    b.append_record(&filler_record(64));
    let (base, log) = b.finish();

    let far_start = SEG18 + 4 * BLCKSZ as u64;
    let mut dec =
        WalDecoder::new(PgLSN::from(far_start), None, 1, SEGSZ as u32, session_relmap()).unwrap();
    let (changes, outcome) = drive(&mut dec, base, &log);
    assert_eq!(changes.len(), 0);
    match outcome {
        Outcome::Fatal(WalError::NoRecordAfterStart(p)) => assert_eq!(p, far_start),
        _ => panic!("expected the no-record-after-start error"),
    }
    assert!(matches!(dec.poll(), NextChange::End));
}

#[test]
fn test_bad_page_magic_is_fatal() {
    let mut b = LogBuilder::new(SEG18);
    b.append_record(&filler_record(64));
    let (base, mut log) = b.finish();
    log[0] = 0xAA; // break the magic
    log[1] = 0xAA;

    let mut dec =
        WalDecoder::new(PgLSN::from(base), None, 1, SEGSZ as u32, session_relmap()).unwrap();
    let (changes, outcome) = drive(&mut dec, base, &log);
    assert_eq!(changes.len(), 0);
    match outcome {
        Outcome::Fatal(WalError::ReadRecordError(_, _)) => {},
        _ => panic!("expected a read-record error"),
    }
    assert!(matches!(dec.poll(), NextChange::End));
}

#[test]
fn test_delete_and_update_rows() {
    let image = make_heap_page(&[b"old-version", b"new-version"]);
    let del_payload = 1u16.to_le_bytes();
    let mut upd_payload: Vec<u8> = Vec::new();
    upd_payload.extend_from_slice(&1u16.to_le_bytes());
    upd_payload.extend_from_slice(&2u16.to_le_bytes());

    let blocks_img =
        vec![BlockSpec { has_image: true, apply_image: true, image: image.clone() }];
    let blocks_plain =
        vec![BlockSpec { has_image: false, apply_image: false, image: Vec::new() }];

    let mut b = LogBuilder::new(SEG18);
    b.append_record(&encode_record(11, OP_DELETE, RM_HEAP, &blocks_img, &del_payload));
    b.append_record(&encode_record(12, OP_UPDATE, RM_HEAP, &blocks_plain, &upd_payload));
    let (base, log) = b.finish();

    let mut dec =
        WalDecoder::new(PgLSN::from(base), None, 1, SEGSZ as u32, session_relmap()).unwrap();
    let (changes, outcome) = drive(&mut dec, base, &log);
    assert!(matches!(outcome, Outcome::Ended));
    assert_eq!(changes.len(), 2);
    assert_eq!(changes[0].op, HeapOp::Delete);
    assert_eq!(changes[0].row_before.as_deref(), Some(b"old-version".as_slice()));
    assert!(changes[0].row_after.is_none());
    assert_eq!(changes[1].op, HeapOp::Update);
    assert_eq!(changes[1].row_before.as_deref(), Some(b"old-version".as_slice()));
    assert_eq!(changes[1].row_after.as_deref(), Some(b"new-version".as_slice()));
}

#[test]
fn test_unknown_relation_is_skipped() {
    let image = make_heap_page(&[b"row"]);
    let mut b = LogBuilder::new(SEG18);
    b.append_record(&insert_record(5, 1, Some(image)));
    let (base, log) = b.finish();

    // An empty relation map: the record's relation is unknown.
    let mut dec =
        WalDecoder::new(PgLSN::from(base), None, 1, SEGSZ as u32, RelationMap::new()).unwrap();
    let (changes, outcome) = drive(&mut dec, base, &log);
    assert!(matches!(outcome, Outcome::Ended));
    assert_eq!(changes.len(), 0);
}

#[test]
fn test_dead_slot_is_skipped() {
    // Slot flagged unused rather than live: the record decodes to
    // nothing and the session goes on.
    let mut image = make_heap_page(&[b"row"]);
    let lp = (8192u32 - 3) | (0 << 15) | (3u32 << 17); // flags 0: unused
    image[24..28].copy_from_slice(&lp.to_le_bytes());
    let mut b = LogBuilder::new(SEG18);
    b.append_record(&insert_record(5, 1, Some(image)));
    let good = make_heap_page(&[b"live"]);
    let lsn2 = b.append_record(&insert_record(6, 1, Some(good)));
    let (base, log) = b.finish();

    let mut dec =
        WalDecoder::new(PgLSN::from(base), None, 1, SEGSZ as u32, session_relmap()).unwrap();
    let (changes, outcome) = drive(&mut dec, base, &log);
    assert!(matches!(outcome, Outcome::Ended));
    assert_eq!(changes.len(), 1);
    assert_eq!(changes[0].lsn, lsn2);
}

#[test]
fn test_malformed_end_pointer_is_rejected() {
    match WalDecoder::new(PgLSN::from(0u64), Some("nonsense"), 1, SEGSZ as u32, RelationMap::new())
    {
        Err(lsn::InvalidLSN::HexValue(_, _)) => {},
        Err(e) => panic!("unexpected error {:?}", e),
        Ok(_) => panic!("a malformed end pointer must be rejected"),
    }
}

#[test]
fn test_record_header_split_across_pages() {
    // The record's fixed header itself straddles a page boundary:
    // only eight of its bytes fit on the first page.
    let image = make_heap_page(&[b"split-header-row"]);
    let mut b = LogBuilder::new(SEG18);
    b.append_record(&filler_record(8144));
    let rec_start = b.append_record(&insert_record(21, 1, Some(image)));
    let (base, log) = b.finish();
    assert_eq!(rec_start, SEG18 + 8192 - 8);

    let mut dec =
        WalDecoder::new(PgLSN::from(rec_start), None, 1, SEGSZ as u32, session_relmap()).unwrap();
    let (changes, outcome) = drive(&mut dec, base, &log);
    assert!(matches!(outcome, Outcome::Ended));
    assert_eq!(changes.len(), 1);
    assert_eq!(changes[0].lsn, rec_start);
    assert_eq!(changes[0].row_after.as_deref(), Some(b"split-header-row".as_slice()));
}

#[test]
fn test_contrecord_mismatch_is_fatal() {
    // A continuation page that disagrees about how much of the
    // record remains is a consistency failure, not an end of log.
    let image = make_heap_page(&[b"row"]);
    let mut b = LogBuilder::new(SEG18);
    b.append_record(&insert_record(31, 1, Some(image)));
    let (base, mut log) = b.finish();
    // The second page's remaining-length field sits sixteen bytes
    // into that page.
    let rem_off = BLCKSZ + 16;
    log[rem_off..rem_off + 4].copy_from_slice(&7u32.to_le_bytes());

    let mut dec =
        WalDecoder::new(PgLSN::from(base), None, 1, SEGSZ as u32, session_relmap()).unwrap();
    let (changes, outcome) = drive(&mut dec, base, &log);
    assert_eq!(changes.len(), 0);
    assert!(matches!(outcome, Outcome::Fatal(WalError::ReadRecordError(_, _))));
}
