//! Segment file validation over plain values: the same checks as the
//! segment locator, with its own error taxonomy.

use vstd::prelude::*;

use crate::hexutil::{is_hex_digit_char, rfind_char, spec_all_hex};
use crate::wal::{
    get_wal_segsz_field, spec_base_name, spec_header_segsz, spec_is_power_of_two,
    spec_is_valid_segsz, spec_validate_wal_file, XLOG_BLCKSZ, XLOG_FNAME_LEN,
};

verus! {

/// A file that cannot serve as a segment file.
#[derive(Clone, Debug, Hash, Ord, PartialOrd, PartialEq, Eq)]
pub enum InvalidWalFile {
    /// A directory could not be located: its name.
    NoDir(String),
    /// The base name is not twenty-four hexadecimal characters.
    InvalidFileName(String),
    /// The first page could not be read whole: the file's name and why.
    ReadError(String, String),
    /// The declared segment size failed the validity check.
    InvalidSegSize(u32),
    /// There is no file under the given name.
    NoFile(String),
    /// The declared segment size is not a power of two between one
    /// mebibyte and one gibibyte.
    InvalidWalSegSz(u32),
}

/// Decide whether a segment size is valid: a power of two between one
/// mebibyte and one gibibyte.
pub fn is_valid_wal_seg_size(wal_seg_size: u32) -> (r: bool)
    ensures
        r == spec_is_valid_segsz(wal_seg_size as int),
{
    if wal_seg_size < crate::wal::WAL_SEG_MIN_SIZE || wal_seg_size > crate::wal::WAL_SEG_MAX_SIZE {
        return false;
    }
    let mut m: u32 = wal_seg_size;
    while m > 1 && m % 2 == 0
        invariant
            1 <= m <= wal_seg_size,
            spec_is_power_of_two(wal_seg_size as int) == spec_is_power_of_two(m as int),
        decreases m,
    {
        m = m / 2;
    }
    m == 1
}

/// Validate one candidate segment file: its path and the bytes a read
/// of its first page returned.
///
/// The base name (the text after the last `/`) must be exactly
/// twenty-four hexadecimal characters; an empty base name cannot name
/// a file.  The first page must be whole and must declare a valid
/// segment size, which is returned.
pub fn validate_wal_file(wal_path: &str, header: &Vec<u8>) -> (r: Result<u32, InvalidWalFile>)
    ensures
        r is Ok <==> spec_validate_wal_file(wal_path@, header@) is Some,
        r matches Ok(s) ==> spec_validate_wal_file(wal_path@, header@) == Some(s)
            && spec_is_valid_segsz(s as int),
        ({
            let base = spec_base_name(wal_path@);
            if base.len() == 0 {
                r matches Err(InvalidWalFile::NoFile(t)) && t@ == wal_path@
            } else if !(base.len() == XLOG_FNAME_LEN && spec_all_hex(base)) {
                r matches Err(InvalidWalFile::InvalidFileName(t)) && t@ == base
            } else if header@.len() < XLOG_BLCKSZ {
                r matches Err(InvalidWalFile::ReadError(t, m)) && t@ == wal_path@ && m@
                    == "failed to fill whole buffer"@
            } else if !spec_is_valid_segsz(spec_header_segsz(header@) as int) {
                r == Err::<u32, InvalidWalFile>(
                    InvalidWalFile::InvalidSegSize(spec_header_segsz(header@)),
                )
            } else {
                r == Ok::<u32, InvalidWalFile>(spec_header_segsz(header@))
            }
        }),
{
    let n = wal_path.unicode_len();
    let bs: usize = match rfind_char(wal_path, '/') {
        Some(k) => k + 1,
        None => 0,
    };
    if n - bs == 0 {
        return Err(InvalidWalFile::NoFile(String::from_str(wal_path)));
    }
    let ghost base = spec_base_name(wal_path@);
    if n - bs != XLOG_FNAME_LEN {
        let name = wal_path.substring_char(bs, n);
        return Err(InvalidWalFile::InvalidFileName(String::from_str(name)));
    }
    let mut i: usize = bs;
    while i < n
        invariant
            bs <= i <= n == wal_path@.len(),
            n - bs == XLOG_FNAME_LEN,
            base == spec_base_name(wal_path@),
            base == wal_path@.subrange(bs as int, n as int),
            forall|j: int| bs <= j < i ==> crate::hexutil::spec_is_hex_digit(#[trigger] wal_path@[j]),
        decreases n - i,
    {
        let c = wal_path.get_char(i);
        if !is_hex_digit_char(c) {
            assert(base[i - bs] == wal_path@[i as int]);
            let name = wal_path.substring_char(bs, n);
            return Err(InvalidWalFile::InvalidFileName(String::from_str(name)));
        }
        i = i + 1;
    }
    assert forall|j: int| 0 <= j < base.len() implies crate::hexutil::spec_is_hex_digit(
        #[trigger] base[j],
    ) by {
        assert(base[j] == wal_path@[bs + j]);
    }
    if header.len() < XLOG_BLCKSZ {
        return Err(
            InvalidWalFile::ReadError(
                String::from_str(wal_path),
                String::from_str("failed to fill whole buffer"),
            ),
        );
    }
    let s = get_wal_segsz_field(header);
    if !is_valid_wal_seg_size(s) {
        return Err(InvalidWalFile::InvalidSegSize(s));
    }
    Ok(s)
}

} // verus!
