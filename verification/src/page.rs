//! Page framing: the header that opens every log page, and the slotted
//! layout of reconstructed heap pages.
//!
//! Every log page opens with a twenty-four byte header: magic (2),
//! info flags (2), timeline (4), the page's own address (8), and the
//! length still owed to a record continuing from the previous page
//! (4), then four bytes of padding.  The first page of a segment
//! carries the long form, which appends a system identifier (8), the
//! segment size (4) and the page size (4), forty bytes in all.
//!
//! A reconstructed heap page is a slotted page: bytes 12 to 13 hold
//! `pd_lower`, the end of the line-pointer directory that starts at
//! byte 24.  Each line pointer is four bytes: offset in the low
//! fifteen bits, two flag bits, length in the next fifteen bits.

use vstd::bytes::{spec_u16_from_le_bytes, spec_u32_from_le_bytes, spec_u64_from_le_bytes};
use vstd::bytes::{u16_from_le_bytes, u32_from_le_bytes, u64_from_le_bytes};
use vstd::prelude::*;
use vstd::slice::{slice_subrange, slice_to_vec};

verus! {

/// Bytes in one reconstructed heap page.
pub const BLCKSZ: usize = 8192;

/// Magic number that opens every log page header.
pub const XLP_PAGE_MAGIC: u16 = 0xD118;

/// Info flag: the page begins with the tail of a record that started
/// on an earlier page.
pub const XLP_FIRST_IS_CONTRECORD: u16 = 0x0001;

/// Info flag: the page carries the long header.
pub const XLP_LONG_HEADER: u16 = 0x0002;

/// Bytes in the short page header.
pub const SIZE_OF_PAGE_HEADER: usize = 24;

/// Bytes in the long page header that opens a segment.
pub const SIZE_OF_LONG_PAGE_HEADER: usize = 40;

/// The fields of a log page header.
#[derive(Clone, Copy, Debug, PartialEq, Eq, Structural)]
pub struct XLogPageHeader {
    /// Magic number; must be `XLP_PAGE_MAGIC`.
    pub magic: u16,
    /// Info flags.
    pub info: u16,
    /// Timeline of the page.
    pub tli: u32,
    /// The address the page claims in the log space.
    pub pageaddr: u64,
    /// Bytes still owed to a record continuing from an earlier page.
    pub rem_len: u32,
}

/// The page header encoded in the first bytes of `p`.
pub open spec fn spec_page_header(p: Seq<u8>) -> XLogPageHeader {
    XLogPageHeader {
        magic: spec_u16_from_le_bytes(p.subrange(0, 2)),
        info: spec_u16_from_le_bytes(p.subrange(2, 4)),
        tli: spec_u32_from_le_bytes(p.subrange(4, 8)),
        pageaddr: spec_u64_from_le_bytes(p.subrange(8, 16)),
        rem_len: spec_u32_from_le_bytes(p.subrange(16, 20)),
    }
}

/// Read the page header out of the first bytes of a page.
pub fn parse_page_header(p: &Vec<u8>) -> (h: XLogPageHeader)
    requires
        p@.len() >= SIZE_OF_PAGE_HEADER,
    ensures
        h == spec_page_header(p@),
{
    XLogPageHeader {
        magic: u16_from_le_bytes(slice_subrange(p.as_slice(), 0, 2)),
        info: u16_from_le_bytes(slice_subrange(p.as_slice(), 2, 4)),
        tli: u32_from_le_bytes(slice_subrange(p.as_slice(), 4, 8)),
        pageaddr: u64_from_le_bytes(slice_subrange(p.as_slice(), 8, 16)),
        rem_len: u32_from_le_bytes(slice_subrange(p.as_slice(), 16, 20)),
    }
}

/// The size of the header that opens the page at address `addr`: the
/// long form on the first page of a segment, the short form elsewhere.
pub open spec fn spec_page_header_size(addr: u64, segsz: u32) -> int {
    if segsz > 0 && addr as int % segsz as int == 0 {
        SIZE_OF_LONG_PAGE_HEADER as int
    } else {
        SIZE_OF_PAGE_HEADER as int
    }
}

/// Compute the size of the header that opens the page at `addr`.
pub fn page_header_size(addr: u64, segsz: u32) -> (r: usize)
    requires
        segsz > 0,
    ensures
        r == spec_page_header_size(addr, segsz),
        r == SIZE_OF_PAGE_HEADER || r == SIZE_OF_LONG_PAGE_HEADER,
{
    if addr % (segsz as u64) == 0 {
        SIZE_OF_LONG_PAGE_HEADER
    } else {
        SIZE_OF_PAGE_HEADER
    }
}

/// Line-pointer flag: the slot holds a live row.
pub const LP_NORMAL: u32 = 1;

/// The `pd_lower` field of a heap page: the end of its line-pointer
/// directory.
pub open spec fn spec_pd_lower(p: Seq<u8>) -> u16 {
    spec_u16_from_le_bytes(p.subrange(12, 14))
}

/// The raw line pointer for slot `offnum` (slots count from one).
pub open spec fn spec_line_pointer(p: Seq<u8>, offnum: int) -> u32 {
    spec_u32_from_le_bytes(p.subrange(24 + 4 * (offnum - 1), 24 + 4 * (offnum - 1) + 4))
}

/// The row stored in slot `offnum` of the heap page `p`, or `None`
/// when the slot does not exist, is not live, or its offset and
/// length leave the page.
pub open spec fn spec_row_of(p: Seq<u8>, offnum: int) -> Option<Seq<u8>> {
    if offnum < 1 || 24 + 4 * offnum > spec_pd_lower(p) || spec_pd_lower(p) > p.len() {
        None
    } else {
        let lp = spec_line_pointer(p, offnum);
        let off = lp & 0x7fff;
        let flags = (lp >> 15) & 3;
        let len = (lp >> 17) & 0x7fff;
        if flags != LP_NORMAL {
            None
        } else if off == 0 || off + len > p.len() {
            None
        } else {
            Some(p.subrange(off as int, off + len))
        }
    }
}

/// Copy the row stored in slot `offnum` out of a heap page.
///
/// The slot must exist in the line-pointer directory, be flagged as a
/// live row, and point inside the page; otherwise there is no row to
/// return.
pub fn extract_row(page: &Vec<u8>, offnum: u16) -> (r: Option<Vec<u8>>)
    requires
        page@.len() == BLCKSZ,
    ensures
        r matches Some(v) ==> spec_row_of(page@, offnum as int) == Some(v@),
        r is None ==> spec_row_of(page@, offnum as int) is None,
{
    if offnum < 1 {
        return None;
    }
    let pd_lower = u16_from_le_bytes(slice_subrange(page.as_slice(), 12, 14));
    if 24 + 4 * (offnum as usize) > pd_lower as usize || pd_lower as usize > page.len() {
        return None;
    }
    let lp_pos: usize = 24 + 4 * (offnum as usize - 1);
    let lp = u32_from_le_bytes(slice_subrange(page.as_slice(), lp_pos, lp_pos + 4));
    let off = lp & 0x7fff;
    let flags = (lp >> 15u32) & 3;
    let len = (lp >> 17u32) & 0x7fff;
    if flags != LP_NORMAL {
        return None;
    }
    proof {
        assert(lp & 0x7fff < 0x8000u32) by (bit_vector);
        assert((lp >> 17u32) & 0x7fff < 0x8000u32) by (bit_vector);
    }
    if off == 0 || (off as usize) + (len as usize) > page.len() {
        return None;
    }
    let row = slice_to_vec(slice_subrange(page.as_slice(), off as usize, off as usize + len as usize));
    Some(row)
}

} // verus!
