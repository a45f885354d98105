//! Records: the fixed record header, the block references that may
//! carry full-page images, and the parse of one assembled record.
//!
//! A record is `tot_len` bytes: a twenty-four byte header — total
//! length (4), transaction id (4), previous record pointer (8), info
//! byte, resource-manager id, two bytes of padding, checksum (4) —
//! then one byte counting the block references, the references
//! themselves, and the operation's own payload.  A block reference is
//! eighteen bytes — block id, flags, tablespace id, database id,
//! relation-file number and block number — followed by a full page
//! image exactly when its has-image flag is set.  References carry
//! strictly increasing block ids.

use vstd::bytes::{spec_u32_from_le_bytes, spec_u64_from_le_bytes};
use vstd::bytes::{u32_from_le_bytes, u64_from_le_bytes};
use vstd::prelude::*;
use vstd::slice::{slice_subrange, slice_to_vec};

use crate::page::BLCKSZ;

verus! {

/// Bytes in the fixed record header.
pub const SIZE_OF_RECORD_HEADER: usize = 24;

/// The shortest well-formed record: the header and the block count.
pub const MIN_RECORD_LEN: u32 = 25;

/// The longest record the engine accepts.
pub const MAX_RECORD_LEN: u32 = 0x4000_0000;

/// Block-reference flag: a full page image follows the reference.
pub const BKPBLOCK_HAS_IMAGE: u8 = 0x01;

/// Block-reference flag: the image replaces the page when the record
/// is replayed.
pub const BKPBLOCK_APPLY_IMAGE: u8 = 0x02;

/// Bytes in a block reference before its optional image.
pub const SIZE_OF_BLOCK_REF: usize = 18;

/// An error of the record stream.
#[derive(Clone, Debug, Hash, Ord, PartialOrd, PartialEq, Eq)]
pub enum WalError {
    /// The stream is inconsistent at the given position: framing or
    /// length checks failed in a way that the end of the log does not
    /// explain.
    ReadRecordError(u64, String),
    /// No complete record stands at or after the requested start.
    NoRecordAfterStart(u64),
}

/// One block reference of a record.
pub struct BlockReference {
    /// Position of the reference among the record's blocks.
    pub blk_id: u8,
    /// A full page image follows the reference.
    pub has_image: bool,
    /// The image replaces the page when the record is replayed.
    pub apply_image: bool,
    /// Tablespace of the referenced page.
    pub spc_oid: u32,
    /// Database of the referenced page.
    pub db_oid: u32,
    /// Relation-file number of the referenced page.
    pub rel_number: u32,
    /// Block number of the referenced page.
    pub blknum: u32,
    /// The embedded full page image: one page when `has_image`, empty
    /// otherwise.
    pub image: Vec<u8>,
}

/// The mathematical image of a block reference.
#[verifier::ext_equal]
pub struct BlockReferenceV {
    /// Position of the reference among the record's blocks.
    pub blk_id: u8,
    /// A full page image follows the reference.
    pub has_image: bool,
    /// The image replaces the page when the record is replayed.
    pub apply_image: bool,
    /// Tablespace of the referenced page.
    pub spc_oid: u32,
    /// Database of the referenced page.
    pub db_oid: u32,
    /// Relation-file number of the referenced page.
    pub rel_number: u32,
    /// Block number of the referenced page.
    pub blknum: u32,
    /// The embedded full page image.
    pub image: Seq<u8>,
}

impl View for BlockReference {
    type V = BlockReferenceV;

    open spec fn view(&self) -> BlockReferenceV {
        BlockReferenceV {
            blk_id: self.blk_id,
            has_image: self.has_image,
            apply_image: self.apply_image,
            spc_oid: self.spc_oid,
            db_oid: self.db_oid,
            rel_number: self.rel_number,
            blknum: self.blknum,
            image: self.image@,
        }
    }
}

/// A block reference is well formed when its image is exactly one
/// page if present and absent otherwise.
pub open spec fn block_wf(b: BlockReferenceV) -> bool {
    if b.has_image {
        b.image.len() == BLCKSZ
    } else {
        b.image.len() == 0
    }
}

/// The views of a sequence of block references.
pub open spec fn block_views(s: Seq<BlockReference>) -> Seq<BlockReferenceV> {
    s.map_values(|b: BlockReference| b@)
}

/// One assembled record.
pub struct RawRecord {
    /// The position in the log where the record starts.
    pub lsn: u64,
    /// Total length of the record in bytes.
    pub tot_len: u32,
    /// Transaction that wrote the record.
    pub xid: u32,
    /// Position of the previous record.
    pub prev: u64,
    /// Operation info byte.
    pub info: u8,
    /// Resource-manager id.
    pub rmid: u8,
    /// Checksum, as read (not verified by the engine).
    pub crc: u32,
    /// The record's block references, in block-id order.
    pub blocks: Vec<BlockReference>,
    /// The operation's own payload.
    pub main_data: Vec<u8>,
}

/// The mathematical image of a record.
#[verifier::ext_equal]
pub struct RawRecordV {
    /// The position in the log where the record starts.
    pub lsn: u64,
    /// Total length of the record in bytes.
    pub tot_len: u32,
    /// Transaction that wrote the record.
    pub xid: u32,
    /// Position of the previous record.
    pub prev: u64,
    /// Operation info byte.
    pub info: u8,
    /// Resource-manager id.
    pub rmid: u8,
    /// Checksum, as read.
    pub crc: u32,
    /// The record's block references, in block-id order.
    pub blocks: Seq<BlockReferenceV>,
    /// The operation's own payload.
    pub main_data: Seq<u8>,
}

impl View for RawRecord {
    type V = RawRecordV;

    open spec fn view(&self) -> RawRecordV {
        RawRecordV {
            lsn: self.lsn,
            tot_len: self.tot_len,
            xid: self.xid,
            prev: self.prev,
            info: self.info,
            rmid: self.rmid,
            crc: self.crc,
            blocks: block_views(self.blocks@),
            main_data: self.main_data@,
        }
    }
}

/// A record is well formed when each of its block references is.
pub open spec fn record_wf(r: RawRecordV) -> bool {
    forall|i: int| 0 <= i < r.blocks.len() ==> block_wf(#[trigger] r.blocks[i])
}

/// The block reference encoded at `pos` in `b`, with the position of
/// what follows it, or `None` when the bytes do not reach.
pub open spec fn spec_parse_block(b: Seq<u8>, pos: int) -> Option<(BlockReferenceV, int)> {
    if pos < 0 || pos + SIZE_OF_BLOCK_REF > b.len() {
        None
    } else {
        let flags = b[pos + 1];
        let has_image = flags & BKPBLOCK_HAS_IMAGE != 0;
        let blk = BlockReferenceV {
            blk_id: b[pos],
            has_image,
            apply_image: flags & BKPBLOCK_APPLY_IMAGE != 0,
            spc_oid: spec_u32_from_le_bytes(b.subrange(pos + 2, pos + 6)),
            db_oid: spec_u32_from_le_bytes(b.subrange(pos + 6, pos + 10)),
            rel_number: spec_u32_from_le_bytes(b.subrange(pos + 10, pos + 14)),
            blknum: spec_u32_from_le_bytes(b.subrange(pos + 14, pos + 18)),
            image: if has_image {
                b.subrange(pos + SIZE_OF_BLOCK_REF, pos + SIZE_OF_BLOCK_REF + BLCKSZ)
            } else {
                Seq::empty()
            },
        };
        if has_image {
            if pos + SIZE_OF_BLOCK_REF + BLCKSZ > b.len() {
                None
            } else {
                Some((blk, pos + SIZE_OF_BLOCK_REF + BLCKSZ))
            }
        } else {
            Some((blk, pos + SIZE_OF_BLOCK_REF))
        }
    }
}

/// The `n` block references encoded at `pos` in `b` with block ids
/// above `prev_id`, and the position of what follows them.
pub open spec fn spec_parse_blocks(b: Seq<u8>, pos: int, n: int, prev_id: int) -> Option<
    (Seq<BlockReferenceV>, int),
>
    decreases n,
{
    if n <= 0 {
        Some((Seq::empty(), pos))
    } else {
        match spec_parse_block(b, pos) {
            None => None,
            Some((blk, p2)) => {
                if blk.blk_id <= prev_id {
                    None
                } else {
                    match spec_parse_blocks(b, p2, n - 1, blk.blk_id as int) {
                        None => None,
                        Some((rest, p3)) => Some((seq![blk] + rest, p3)),
                    }
                }
            },
        }
    }
}

/// Parsed blocks stay inside the bytes, are well formed, and number
/// exactly `n`.
pub proof fn lemma_parse_blocks_props(b: Seq<u8>, pos: int, n: int, prev_id: int)
    requires
        0 <= pos <= b.len(),
    ensures
        spec_parse_blocks(b, pos, n, prev_id) matches Some(p) ==> pos <= p.1 <= b.len()
            && p.0.len() == (if n <= 0 { 0int } else { n }) && forall|i: int|
            0 <= i < p.0.len() ==> block_wf(#[trigger] p.0[i]),
    decreases n,
{
    if n > 0 {
        match spec_parse_block(b, pos) {
            None => {},
            Some((blk, p2)) => {
                assert(block_wf(blk));
                if blk.blk_id > prev_id {
                    lemma_parse_blocks_props(b, p2, n - 1, blk.blk_id as int);
                }
            },
        }
    }
}

/// The record encoded by the `tot_len` bytes `b` standing at `lsn`,
/// or `None` when the bytes are not a well-formed record.
pub open spec fn spec_parse_record(b: Seq<u8>, lsn: u64) -> Option<RawRecordV> {
    if b.len() < MIN_RECORD_LEN || b.len() > MAX_RECORD_LEN {
        None
    } else if spec_u32_from_le_bytes(b.subrange(0, 4)) != b.len() {
        None
    } else {
        match spec_parse_blocks(b, MIN_RECORD_LEN as int, b[24] as int, -1) {
            None => None,
            Some((blocks, pos)) => Some(
                RawRecordV {
                    lsn,
                    tot_len: spec_u32_from_le_bytes(b.subrange(0, 4)),
                    xid: spec_u32_from_le_bytes(b.subrange(4, 8)),
                    prev: spec_u64_from_le_bytes(b.subrange(8, 16)),
                    info: b[16],
                    rmid: b[17],
                    crc: spec_u32_from_le_bytes(b.subrange(20, 24)),
                    blocks,
                    main_data: b.subrange(pos, b.len() as int),
                },
            ),
        }
    }
}

impl RawRecord {
    /// The identity of the page the record's first block reference
    /// points at: tablespace, database, relation-file number and
    /// block number; nothing when the record references no block.
    pub fn get_block_tag(&self) -> (r: Option<(u32, u32, u32, u32)>)
        ensures
            self@.blocks.len() == 0 ==> r is None,
            self@.blocks.len() > 0 ==> r == Some(
                (
                    self@.blocks[0].spc_oid,
                    self@.blocks[0].db_oid,
                    self@.blocks[0].rel_number,
                    self@.blocks[0].blknum,
                ),
            ),
    {
        if self.blocks.len() == 0 {
            return None;
        }
        let blk = &self.blocks[0];
        proof {
            assert(self@.blocks[0] == self.blocks@[0]@);
        }
        Some((blk.spc_oid, blk.db_oid, blk.rel_number, blk.blknum))
    }
}

/// A full-page image rides through record parsing untouched: the
/// image of a record's first block reference is byte-identical to the
/// corresponding bytes of the record.  Restoring it into the page
/// reconstruction cache therefore stores exactly the bytes that were
/// written into the segment.
pub proof fn lemma_first_block_image_bytes(b: Seq<u8>, lsn: u64)
    requires
        spec_parse_record(b, lsn) matches Some(v) && v.blocks.len() > 0 && v.blocks[0].has_image,
    ensures
        spec_parse_record(b, lsn) matches Some(v) ==> v.blocks[0].image == b.subrange(
            MIN_RECORD_LEN + SIZE_OF_BLOCK_REF,
            MIN_RECORD_LEN + SIZE_OF_BLOCK_REF + BLCKSZ,
        ),
{
    let n = b[24] as int;
    lemma_parse_blocks_props(b, MIN_RECORD_LEN as int, n, -1);
    match spec_parse_blocks(b, MIN_RECORD_LEN as int, n, -1) {
        Some(p) => {
            if n > 0 {
                match spec_parse_block(b, MIN_RECORD_LEN as int) {
                    Some(q) => {
                        assert(p.0[0] == q.0);
                    },
                    None => {},
                }
            }
        },
        None => {},
    }
}

/// Parse one assembled record out of its bytes.
///
/// The bytes must be exactly the record: their length must equal the
/// declared total length, the block references must fit with strictly
/// increasing block ids, and what remains is the payload.  Bytes that
/// do not form a record yield `None`.
#[verifier::rlimit(50)]
#[verifier::loop_isolation(false)]
pub fn parse_record(bytes: &Vec<u8>, lsn: u64) -> (r: Option<RawRecord>)
    ensures
        r matches Some(rec) ==> spec_parse_record(bytes@, lsn) == Some(rec@) && record_wf(rec@)
            && rec.lsn == lsn && rec.tot_len == bytes@.len(),
        r is None ==> spec_parse_record(bytes@, lsn) is None,
{
    let ghost b = bytes@;
    let n = bytes.len();
    if n < MIN_RECORD_LEN as usize || n > MAX_RECORD_LEN as usize {
        return None;
    }
    let tot_len = u32_from_le_bytes(slice_subrange(bytes.as_slice(), 0, 4));
    if tot_len as usize != n {
        return None;
    }
    let xid = u32_from_le_bytes(slice_subrange(bytes.as_slice(), 4, 8));
    let prev = u64_from_le_bytes(slice_subrange(bytes.as_slice(), 8, 16));
    let info = bytes[16];
    let rmid = bytes[17];
    let crc = u32_from_le_bytes(slice_subrange(bytes.as_slice(), 20, 24));
    let nblocks = bytes[24];

    let mut blocks: Vec<BlockReference> = Vec::new();
    let mut pos: usize = MIN_RECORD_LEN as usize;
    let mut k: u8 = 0;
    let mut prev_id: i32 = -1;
    while k < nblocks
        invariant
            25 <= pos <= n == b.len(),
            b == bytes@,
            n <= MAX_RECORD_LEN,
            k <= nblocks,
            -1 <= prev_id < 256,
            blocks@.len() == k,
            forall|i: int| 0 <= i < k ==> block_wf(#[trigger] block_views(blocks@)[i]),
            spec_parse_blocks(b, 25, nblocks as int, -1) == (match spec_parse_blocks(
                b,
                pos as int,
                nblocks - k,
                prev_id as int,
            ) {
                None => None::<(Seq<BlockReferenceV>, int)>,
                Some((rest, p)) => Some((block_views(blocks@) + rest, p)),
            }),
        decreases nblocks - k,
    {
        let ghost blocks_snap = blocks@;
        if pos + SIZE_OF_BLOCK_REF > n {
            proof {
                assert(spec_parse_block(b, pos as int) is None);
                assert(spec_parse_blocks(b, pos as int, nblocks - k, prev_id as int) is None);
            }
            return None;
        }
        let blk_id = bytes[pos];
        if blk_id as i32 <= prev_id {
            proof {
                match spec_parse_block(b, pos as int) {
                    None => {},
                    Some(p) => {
                        assert(p.0.blk_id == b[pos as int]);
                    },
                }
                assert(spec_parse_blocks(b, pos as int, nblocks - k, prev_id as int) is None);
            }
            return None;
        }
        let flags = bytes[pos + 1];
        let has_image = flags & BKPBLOCK_HAS_IMAGE != 0;
        let apply_image = flags & BKPBLOCK_APPLY_IMAGE != 0;
        let spc_oid = u32_from_le_bytes(slice_subrange(bytes.as_slice(), pos + 2, pos + 6));
        let db_oid = u32_from_le_bytes(slice_subrange(bytes.as_slice(), pos + 6, pos + 10));
        let rel_number = u32_from_le_bytes(slice_subrange(bytes.as_slice(), pos + 10, pos + 14));
        let blknum = u32_from_le_bytes(slice_subrange(bytes.as_slice(), pos + 14, pos + 18));
        let image: Vec<u8>;
        let newpos: usize;
        if has_image {
            if pos + SIZE_OF_BLOCK_REF + BLCKSZ > n {
                proof {
                    assert(b[pos as int + 1] == flags);
                    assert(spec_parse_block(b, pos as int) is None);
                    assert(spec_parse_blocks(b, pos as int, nblocks - k, prev_id as int) is None);
                }
                return None;
            }
            image = slice_to_vec(
                slice_subrange(bytes.as_slice(), pos + SIZE_OF_BLOCK_REF, pos + SIZE_OF_BLOCK_REF + BLCKSZ),
            );
            newpos = pos + SIZE_OF_BLOCK_REF + BLCKSZ;
        } else {
            image = Vec::new();
            newpos = pos + SIZE_OF_BLOCK_REF;
        }
        let blk = BlockReference {
            blk_id,
            has_image,
            apply_image,
            spc_oid,
            db_oid,
            rel_number,
            blknum,
            image,
        };
        proof {
            assert(spec_parse_block(b, pos as int) matches Some(p) && p.0 =~= blk@ && p.1
                == newpos as int);
        }
        blocks.push(blk);
        proof {
            assert(block_views(blocks@) =~= block_views(blocks_snap).push(blk@));
            match spec_parse_blocks(b, newpos as int, nblocks - k - 1, blk_id as int) {
                None => {},
                Some((rest, p3)) => {
                    assert((block_views(blocks_snap) + (seq![blk@] + rest)) =~= (block_views(
                        blocks@,
                    ) + rest));
                },
            }
            lemma_parse_blocks_props(b, newpos as int, nblocks - k - 1, blk_id as int);
        }
        pos = newpos;
        k = k + 1;
        prev_id = blk_id as i32;
    }
    proof {
        assert(spec_parse_blocks(b, pos as int, 0, prev_id as int) == Some((
            Seq::<BlockReferenceV>::empty(),
            pos as int,
        )));
        assert((block_views(blocks@) + Seq::<BlockReferenceV>::empty()) =~= block_views(blocks@));
    }
    let main_data = slice_to_vec(slice_subrange(bytes.as_slice(), pos, n));
    let rec = RawRecord { lsn, tot_len, xid, prev, info, rmid, crc, blocks, main_data };
    proof {
        assert(spec_parse_record(b, lsn) matches Some(v) && v =~~= rec@);
    }
    Some(rec)
}

} // verus!
