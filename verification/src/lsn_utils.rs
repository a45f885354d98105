//! Log pointer text forms over plain 64-bit offsets: parsing `high/low`
//! pointer strings and segment file names, writing segment file names.

use vstd::prelude::*;

use crate::hexutil::{
    hex_err_string, hex_upper_string, parse_hex_range, spec_find_char, spec_hex_err_text,
    spec_hex_upper, spec_parse_hex, spec_rfind_char, find_char, rfind_char,
};
use crate::lsn::spec_startptr_of;

verus! {

/// A log pointer or segment file name that could not be read.
#[derive(Clone, Debug, Hash, Ord, PartialOrd, PartialEq, Eq)]
pub enum InvalidLSN {
    /// No pointer text was given.
    NoLSN,
    /// The pointer text has no `/` separator.
    InvalidFormat(String),
    /// The file name has no base name of at least twenty-four characters.
    InvalidFileName(String),
    /// A field is not a hexadecimal number: the offending text and why.
    InvalidHexValue(String, String),
}

/// Read a pointer string `high/low` into a 64-bit start position.
///
/// The text must be exactly two hexadecimal fields separated by one
/// `/`.  A missing or second separator is a format error; a field
/// that is empty, has a non-hexadecimal character or does not fit in
/// 64 bits is a value error carrying the whole input and a message.
pub fn lsn_to_rec_ptr(lsn: &str) -> (r: Result<u64, InvalidLSN>)
    ensures
        ({
            let s = lsn@;
            let p = spec_find_char(s, '/', 0);
            match spec_parse_hex(s.subrange(0, p)) {
                Err(e) => r matches Err(InvalidLSN::InvalidHexValue(t, m)) && t@ == s && m@
                    == spec_hex_err_text(e),
                Ok(hi) => if p == s.len() || spec_find_char(s, '/', p + 1) != s.len() {
                    r matches Err(InvalidLSN::InvalidFormat(t)) && t@ == s
                } else {
                    match spec_parse_hex(s.subrange(p + 1, s.len() as int)) {
                        Err(e) => r matches Err(InvalidLSN::InvalidHexValue(t, m)) && t@ == s
                            && m@ == spec_hex_err_text(e),
                        Ok(lo) => r matches Ok(v) && v == (hi << 32) | lo,
                    }
                },
            }
        }),
{
    let n = lsn.unicode_len();
    let p = find_char(lsn, '/', 0);
    let hi = match parse_hex_range(lsn, 0, p) {
        Ok(v) => v,
        Err(e) => {
            return Err(InvalidLSN::InvalidHexValue(String::from_str(lsn), hex_err_string(e)));
        },
    };
    if p == n {
        return Err(InvalidLSN::InvalidFormat(String::from_str(lsn)));
    }
    let q = find_char(lsn, '/', p + 1);
    if q != n {
        return Err(InvalidLSN::InvalidFormat(String::from_str(lsn)));
    }
    let lo = match parse_hex_range(lsn, p + 1, n) {
        Ok(v) => v,
        Err(e) => {
            return Err(InvalidLSN::InvalidHexValue(String::from_str(lsn), hex_err_string(e)));
        },
    };
    Ok((hi << 32u64) | lo)
}

/// Write the segment file name for a timeline and segment number.
pub fn xlog_file_name(tli: u32, log_seg_no: u64, wal_segsz_bytes: u32) -> (r: String)
    requires
        wal_segsz_bytes != 0,
    ensures
        r@ == crate::lsn::spec_xlog_file_name(tli, log_seg_no, wal_segsz_bytes),
{
    let segments_per_xlog_id: u64 = 0x1_0000_0000u64 / (wal_segsz_bytes as u64);
    proof {
        assert(segments_per_xlog_id >= 1) by (nonlinear_arith)
            requires 1 <= wal_segsz_bytes as u64 <= 0xffff_ffffu64, segments_per_xlog_id == 0x1_0000_0000u64 / (wal_segsz_bytes as u64);
    }
    let up = log_seg_no / segments_per_xlog_id;
    let rest = log_seg_no % segments_per_xlog_id;
    let mut s = hex_upper_string(tli as u64, 8);
    let s_up = hex_upper_string(up, 8);
    let s_rest = hex_upper_string(rest, 8);
    s.append(s_up.as_str());
    s.append(s_rest.as_str());
    proof {
        assert(s@ =~= crate::lsn::spec_xlog_file_name(tli, log_seg_no, wal_segsz_bytes));
    }
    s
}

/// Read a segment file name into its timeline and segment number.
///
/// The base name is the text after the last `/`.  Its first three
/// eight-character fields hold the timeline, log and segment numbers
/// in hexadecimal; characters after the twenty-fourth are ignored.
/// The result inverts the naming that `xlog_file_name` writes: the
/// log field counts whole log ids of `0x1_0000_0000 / segsz` segments
/// each.  A base name shorter than twenty-four characters is a name
/// error; a field with a non-hexadecimal character is a value error
/// carrying that field's text and a message.
pub fn filename_to_startptr(filename: &str, wal_segsz_bytes: u64) -> (r: Result<
    (u64, u64),
    InvalidLSN,
>)
    requires
        wal_segsz_bytes >= 1,
    ensures
        ({
            let s = filename@;
            let bs = spec_rfind_char(s, '/') + 1;
            if s.len() - bs < 24 {
                r matches Err(InvalidLSN::InvalidFileName(t)) && t@ == s
            } else {
                match spec_parse_hex(s.subrange(bs, bs + 8)) {
                    Err(e) => r matches Err(InvalidLSN::InvalidHexValue(t, m)) && t@
                        == s.subrange(bs, bs + 8) && m@ == spec_hex_err_text(e),
                    Ok(tli) => match spec_parse_hex(s.subrange(bs + 8, bs + 16)) {
                        Err(e) => r matches Err(InvalidLSN::InvalidHexValue(t, m)) && t@
                            == s.subrange(bs + 8, bs + 16) && m@ == spec_hex_err_text(e),
                        Ok(log) => match spec_parse_hex(s.subrange(bs + 16, bs + 24)) {
                            Err(e) => r matches Err(InvalidLSN::InvalidHexValue(t, m)) && t@
                                == s.subrange(bs + 16, bs + 24) && m@ == spec_hex_err_text(e),
                            Ok(seg) => r matches Ok(p) && p.0 == tli && p.1 == spec_startptr_of(
                                log,
                                wal_segsz_bytes,
                                seg,
                            ),
                        },
                    },
                }
            }
        }),
{
    let n = filename.unicode_len();
    let bs: usize = match rfind_char(filename, '/') {
        Some(k) => k + 1,
        None => 0,
    };
    if n - bs < 24 {
        return Err(InvalidLSN::InvalidFileName(String::from_str(filename)));
    }
    let tli = match parse_hex_range(filename, bs, bs + 8) {
        Ok(v) => v,
        Err(e) => {
            let field = filename.substring_char(bs, bs + 8);
            return Err(InvalidLSN::InvalidHexValue(String::from_str(field), hex_err_string(e)));
        },
    };
    let log = match parse_hex_range(filename, bs + 8, bs + 16) {
        Ok(v) => v,
        Err(e) => {
            let field = filename.substring_char(bs + 8, bs + 16);
            return Err(InvalidLSN::InvalidHexValue(String::from_str(field), hex_err_string(e)));
        },
    };
    let seg = match parse_hex_range(filename, bs + 16, bs + 24) {
        Ok(v) => v,
        Err(e) => {
            let field = filename.substring_char(bs + 16, bs + 24);
            return Err(InvalidLSN::InvalidHexValue(String::from_str(field), hex_err_string(e)));
        },
    };
    let segments_per_xlog_id: u64 = 0x1_0000_0000u64 / wal_segsz_bytes;
    proof {
        crate::hexutil::lemma_hex_val_bound(filename@.subrange(bs as int + 8, bs as int + 16));
        crate::hexutil::lemma_hex_val_bound(filename@.subrange(bs as int + 16, bs as int + 24));
        reveal_with_fuel(crate::hexutil::spec_pow16, 9);
        assert(crate::hexutil::spec_pow16(8) == 0x1_0000_0000);
        assert(segments_per_xlog_id <= 0x1_0000_0000u64) by (nonlinear_arith)
            requires
                segments_per_xlog_id == 0x1_0000_0000u64 / wal_segsz_bytes,
                wal_segsz_bytes >= 1,
        ;
        assert(log * segments_per_xlog_id <= 0xffff_ffffu64 * 0x1_0000_0000u64)
            by (nonlinear_arith)
            requires
                log <= 0xffff_ffffu64,
                segments_per_xlog_id <= 0x1_0000_0000u64,
        ;
    }
    let startptr = log * segments_per_xlog_id + seg;
    Ok((tli, startptr))
}

} // verus!
