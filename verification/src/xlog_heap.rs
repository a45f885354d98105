//! Heap operation decoding: interpret a heap record's opcode and
//! per-operation payload against a reconstructed page to recover the
//! row images it touched.
//!
//! The operation is the record's info byte masked with the heap
//! opcode mask.  An insert payload names the new row's slot; a delete
//! payload names the old row's slot; an update payload names the old
//! slot then the new slot, two bytes each, little endian.  Opcodes
//! that carry no row data decode to nothing.

use vstd::bytes::{spec_u16_from_le_bytes, u16_from_le_bytes};
use vstd::prelude::*;
use vstd::slice::slice_subrange;

use crate::decoder::{DecodedResult, DecodedResultV, HeapOp};
use crate::page::{extract_row, spec_row_of, BLCKSZ};
use crate::record::{RawRecord, RawRecordV};

verus! {

/// Resource-manager id of heap row storage.
pub const RM_HEAP_ID: u8 = 10;

/// Mask that isolates the heap opcode in a record's info byte.
pub const XLOG_HEAP_OPMASK: u8 = 0x70;

/// Heap opcode: insert.
pub const XLOG_HEAP_INSERT: u8 = 0x00;

/// Heap opcode: delete.
pub const XLOG_HEAP_DELETE: u8 = 0x10;

/// Heap opcode: update.
pub const XLOG_HEAP_UPDATE: u8 = 0x20;

/// Heap opcode: update that kept the row on its page.
pub const XLOG_HEAP_HOT_UPDATE: u8 = 0x40;

/// The change event a heap record yields against the page `page`,
/// for the logical relation `relid`, or `None` when the opcode
/// carries no row data, the payload is short, or a named slot holds
/// no live row inside the page.
pub open spec fn spec_decode_heap(rec: RawRecordV, page: Seq<u8>, relid: u32) -> Option<
    DecodedResultV,
> {
    if rec.blocks.len() == 0 {
        None
    } else {
        let op = rec.info & XLOG_HEAP_OPMASK;
        let dboid = rec.blocks[0].db_oid;
        if op == XLOG_HEAP_INSERT {
            if rec.main_data.len() < 2 {
                None
            } else {
                match spec_row_of(page, spec_u16_from_le_bytes(rec.main_data.subrange(0, 2)) as int) {
                    None => None,
                    Some(row) => Some(
                        DecodedResultV {
                            lsn: rec.lsn,
                            dboid,
                            relid,
                            xid: rec.xid,
                            op: HeapOp::Insert,
                            row_before: None,
                            row_after: Some(row),
                        },
                    ),
                }
            }
        } else if op == XLOG_HEAP_DELETE {
            if rec.main_data.len() < 2 {
                None
            } else {
                match spec_row_of(page, spec_u16_from_le_bytes(rec.main_data.subrange(0, 2)) as int) {
                    None => None,
                    Some(row) => Some(
                        DecodedResultV {
                            lsn: rec.lsn,
                            dboid,
                            relid,
                            xid: rec.xid,
                            op: HeapOp::Delete,
                            row_before: Some(row),
                            row_after: None,
                        },
                    ),
                }
            }
        } else if op == XLOG_HEAP_UPDATE || op == XLOG_HEAP_HOT_UPDATE {
            if rec.main_data.len() < 4 {
                None
            } else {
                let old_row = spec_row_of(
                    page,
                    spec_u16_from_le_bytes(rec.main_data.subrange(0, 2)) as int,
                );
                let new_row = spec_row_of(
                    page,
                    spec_u16_from_le_bytes(rec.main_data.subrange(2, 4)) as int,
                );
                match (old_row, new_row) {
                    (Some(before), Some(after)) => Some(
                        DecodedResultV {
                            lsn: rec.lsn,
                            dboid,
                            relid,
                            xid: rec.xid,
                            op: HeapOp::Update,
                            row_before: Some(before),
                            row_after: Some(after),
                        },
                    ),
                    _ => None,
                }
            }
        } else {
            None
        }
    }
}

/// Decode one heap record against a reconstructed page.
///
/// The record must carry at least one block reference; the engine
/// decodes against block zero's page.  An insert yields the after-row
/// from the named slot; a delete the before-row; an update both, from
/// the old and new slots.  Any other opcode, a short payload, or a
/// slot without a live row inside the page yields nothing, and the
/// record is skipped.
pub fn decode_heap_record(rec: &RawRecord, page: &Vec<u8>, relid: u32) -> (r: Option<
    DecodedResult,
>)
    requires
        page@.len() == BLCKSZ,
    ensures
        r matches Some(d) ==> spec_decode_heap(rec@, page@, relid) == Some(d@),
        r is None ==> spec_decode_heap(rec@, page@, relid) is None,
{
    if rec.blocks.len() == 0 {
        return None;
    }
    let op = rec.info & XLOG_HEAP_OPMASK;
    let dboid = rec.blocks[0].db_oid;
    proof {
        assert(rec@.blocks[0] == rec.blocks@[0]@);
    }
    if op == XLOG_HEAP_INSERT {
        if rec.main_data.len() < 2 {
            return None;
        }
        let offnum = u16_from_le_bytes(slice_subrange(rec.main_data.as_slice(), 0, 2));
        match extract_row(page, offnum) {
            None => None,
            Some(row) => Some(
                DecodedResult {
                    lsn: rec.lsn,
                    dboid,
                    relid,
                    xid: rec.xid,
                    op: HeapOp::Insert,
                    row_before: None,
                    row_after: Some(row),
                },
            ),
        }
    } else if op == XLOG_HEAP_DELETE {
        if rec.main_data.len() < 2 {
            return None;
        }
        let offnum = u16_from_le_bytes(slice_subrange(rec.main_data.as_slice(), 0, 2));
        match extract_row(page, offnum) {
            None => None,
            Some(row) => Some(
                DecodedResult {
                    lsn: rec.lsn,
                    dboid,
                    relid,
                    xid: rec.xid,
                    op: HeapOp::Delete,
                    row_before: Some(row),
                    row_after: None,
                },
            ),
        }
    } else if op == XLOG_HEAP_UPDATE || op == XLOG_HEAP_HOT_UPDATE {
        if rec.main_data.len() < 4 {
            return None;
        }
        let old_offnum = u16_from_le_bytes(slice_subrange(rec.main_data.as_slice(), 0, 2));
        let new_offnum = u16_from_le_bytes(slice_subrange(rec.main_data.as_slice(), 2, 4));
        let old_row = extract_row(page, old_offnum);
        let new_row = extract_row(page, new_offnum);
        match (old_row, new_row) {
            (Some(before), Some(after)) => Some(
                DecodedResult {
                    lsn: rec.lsn,
                    dboid,
                    relid,
                    xid: rec.xid,
                    op: HeapOp::Update,
                    row_before: Some(before),
                    row_after: Some(after),
                },
            ),
            _ => None,
        }
    } else {
        None
    }
}

} // verus!
