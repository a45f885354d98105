//! Segment location: which files are valid segment files, and what
//! segment size their first page declares.
//!
//! A segment file's base name is exactly twenty-four hexadecimal
//! characters.  Its first page opens with the long page header, whose
//! fifth field (bytes 32 to 35, little endian) declares the segment
//! size; a size is valid when it is a power of two between one
//! mebibyte and one gibibyte.

use vstd::bytes::spec_u32_from_le_bytes;
use vstd::bytes::u32_from_le_bytes;
use vstd::prelude::*;
use vstd::slice::slice_subrange;

use crate::hexutil::{is_hex_digit_char, rfind_char, spec_all_hex, spec_rfind_char};

verus! {

/// Bytes in one log page.
pub const XLOG_BLCKSZ: usize = 8192;

/// Characters in a segment file's base name.
pub const XLOG_FNAME_LEN: usize = 24;

/// Smallest valid segment size: one mebibyte.
pub const WAL_SEG_MIN_SIZE: u32 = 0x10_0000;

/// Largest valid segment size: one gibibyte.
pub const WAL_SEG_MAX_SIZE: u32 = 0x4000_0000;

/// Byte offset of the declared segment size in the long page header.
pub const SEG_SIZE_OFFSET: usize = 32;

/// A file that cannot serve as a segment file.
#[derive(Clone, Debug, Hash, Ord, PartialOrd, PartialEq, Eq)]
pub enum InvalidWalFile {
    /// A directory could not be listed: its name and why.
    IoError(String),
    /// The base name is not twenty-four hexadecimal characters.
    InvalidFileName(String),
    /// The first page could not be read whole: the file's name and why.
    ReadError(String, String),
    /// There is no file under the given name.
    NoFile(String),
    /// The declared segment size is not a power of two between one
    /// mebibyte and one gibibyte.
    InvalidWalSegSz(u32),
}

/// `n` is a positive power of two.
pub open spec fn spec_is_power_of_two(n: int) -> bool
    decreases n,
{
    if n <= 0 {
        false
    } else if n == 1 {
        true
    } else {
        n % 2 == 0 && spec_is_power_of_two(n / 2)
    }
}

/// `n` is a valid segment size: a power of two between one mebibyte
/// and one gibibyte.
pub open spec fn spec_is_valid_segsz(n: int) -> bool {
    spec_is_power_of_two(n) && WAL_SEG_MIN_SIZE <= n <= WAL_SEG_MAX_SIZE
}

/// Decide whether a segment size is valid.
pub fn is_wal_segsz_valid(wal_seg_size: u32) -> (r: bool)
    ensures
        r == spec_is_valid_segsz(wal_seg_size as int),
{
    if wal_seg_size < WAL_SEG_MIN_SIZE || wal_seg_size > WAL_SEG_MAX_SIZE {
        return false;
    }
    let mut m: u32 = wal_seg_size;
    while m > 1 && m % 2 == 0
        invariant
            1 <= m <= wal_seg_size,
            spec_is_power_of_two(wal_seg_size as int) == spec_is_power_of_two(m as int),
        decreases m,
    {
        m = m / 2;
    }
    m == 1
}

/// The base name of `path`: the text after the last `/`.
pub open spec fn spec_base_name(path: Seq<char>) -> Seq<char> {
    path.subrange(spec_rfind_char(path, '/') + 1, path.len() as int)
}

/// The base name is a well-formed segment file name: exactly
/// twenty-four hexadecimal characters.
pub open spec fn spec_wal_name_ok(path: Seq<char>) -> bool {
    spec_base_name(path).len() == XLOG_FNAME_LEN && spec_all_hex(spec_base_name(path))
}

/// The segment size that the first page `header` declares.
pub open spec fn spec_header_segsz(header: Seq<u8>) -> u32 {
    spec_u32_from_le_bytes(
        header.subrange(SEG_SIZE_OFFSET as int, SEG_SIZE_OFFSET + 4),
    )
}

/// The segment size of a valid segment file with path `path` whose
/// first page reads `header`, or `None` when the file is not valid.
pub open spec fn spec_validate_wal_file(path: Seq<char>, header: Seq<u8>) -> Option<u32> {
    if !spec_wal_name_ok(path) {
        None
    } else if header.len() < XLOG_BLCKSZ {
        None
    } else if spec_is_valid_segsz(spec_header_segsz(header) as int) {
        Some(spec_header_segsz(header))
    } else {
        None
    }
}

/// Read the declared-segment-size field out of a whole first page.
pub fn get_wal_segsz_field(header: &Vec<u8>) -> (s: u32)
    requires
        header@.len() >= XLOG_BLCKSZ,
    ensures
        s == spec_header_segsz(header@),
{
    u32_from_le_bytes(slice_subrange(header.as_slice(), SEG_SIZE_OFFSET, SEG_SIZE_OFFSET + 4))
}

/// Read the declared segment size out of a segment file's first page.
///
/// `wal_str` names the file in error reports; `header` holds what a
/// read of the first page returned.  A header shorter than one page is
/// a read error; a declared size that fails the validity check is a
/// size error.
pub fn get_wal_segsz(wal_str: &str, header: &Vec<u8>) -> (r: Result<u32, InvalidWalFile>)
    ensures
        header@.len() < XLOG_BLCKSZ ==> (r matches Err(InvalidWalFile::ReadError(t, m)) && t@
            == wal_str@ && m@ == "failed to fill whole buffer"@),
        header@.len() >= XLOG_BLCKSZ && !spec_is_valid_segsz(spec_header_segsz(header@) as int)
            ==> r == Err::<u32, InvalidWalFile>(
            InvalidWalFile::InvalidWalSegSz(spec_header_segsz(header@)),
        ),
        header@.len() >= XLOG_BLCKSZ && spec_is_valid_segsz(spec_header_segsz(header@) as int)
            ==> r == Ok::<u32, InvalidWalFile>(spec_header_segsz(header@)),
{
    if header.len() < XLOG_BLCKSZ {
        return Err(
            InvalidWalFile::ReadError(
                String::from_str(wal_str),
                String::from_str("failed to fill whole buffer"),
            ),
        );
    }
    let s = get_wal_segsz_field(header);
    if !is_wal_segsz_valid(s) {
        return Err(InvalidWalFile::InvalidWalSegSz(s));
    }
    Ok(s)
}

/// Validate one candidate segment file: its path and the bytes a read
/// of its first page returned.
///
/// The base name (the text after the last `/`) must be exactly
/// twenty-four hexadecimal characters; an empty base name cannot name
/// a file.  The first page must be whole and must declare a valid
/// segment size, which is returned.
pub fn validate_wal_file(wal_path: &str, header: &Vec<u8>) -> (r: Result<u32, InvalidWalFile>)
    ensures
        r is Ok <==> spec_validate_wal_file(wal_path@, header@) is Some,
        r matches Ok(s) ==> spec_validate_wal_file(wal_path@, header@) == Some(s)
            && spec_is_valid_segsz(s as int),
        ({
            let base = spec_base_name(wal_path@);
            if base.len() == 0 {
                r matches Err(InvalidWalFile::NoFile(t)) && t@ == wal_path@
            } else if !(base.len() == XLOG_FNAME_LEN && spec_all_hex(base)) {
                r matches Err(InvalidWalFile::InvalidFileName(t)) && t@ == base
            } else if header@.len() < XLOG_BLCKSZ {
                r matches Err(InvalidWalFile::ReadError(t, m)) && t@ == wal_path@ && m@
                    == "failed to fill whole buffer"@
            } else if !spec_is_valid_segsz(spec_header_segsz(header@) as int) {
                r == Err::<u32, InvalidWalFile>(
                    InvalidWalFile::InvalidWalSegSz(spec_header_segsz(header@)),
                )
            } else {
                r == Ok::<u32, InvalidWalFile>(spec_header_segsz(header@))
            }
        }),
{
    let n = wal_path.unicode_len();
    let bs: usize = match rfind_char(wal_path, '/') {
        Some(k) => k + 1,
        None => 0,
    };
    if n - bs == 0 {
        return Err(InvalidWalFile::NoFile(String::from_str(wal_path)));
    }
    let ghost base = spec_base_name(wal_path@);
    if n - bs != XLOG_FNAME_LEN {
        let name = wal_path.substring_char(bs, n);
        return Err(InvalidWalFile::InvalidFileName(String::from_str(name)));
    }
    let mut i: usize = bs;
    while i < n
        invariant
            bs <= i <= n == wal_path@.len(),
            n - bs == XLOG_FNAME_LEN,
            base == spec_base_name(wal_path@),
            base == wal_path@.subrange(bs as int, n as int),
            forall|j: int| bs <= j < i ==> crate::hexutil::spec_is_hex_digit(#[trigger] wal_path@[j]),
        decreases n - i,
    {
        let c = wal_path.get_char(i);
        if !is_hex_digit_char(c) {
            assert(base[i - bs] == wal_path@[i as int]);
            let name = wal_path.substring_char(bs, n);
            return Err(InvalidWalFile::InvalidFileName(String::from_str(name)));
        }
        i = i + 1;
    }
    assert forall|j: int| 0 <= j < base.len() implies crate::hexutil::spec_is_hex_digit(
        #[trigger] base[j],
    ) by {
        assert(base[j] == wal_path@[bs + j]);
    }
    get_wal_segsz(wal_path, header)
}

/// One candidate found while scanning a directory: the path of an
/// entry and the bytes a read of its first page returned.
pub struct WalCandidate {
    /// The entry's path.
    pub path: String,
    /// What a read of the entry's first page returned; empty when the
    /// entry could not be read.
    pub header: Vec<u8>,
}

/// Pick the first valid segment file among directory entries, given in
/// the order in which the directory scan listed them.
///
/// Entries that fail validation — a malformed name, a short first
/// page, an invalid declared segment size — are skipped, and the scan
/// goes on with the next entry.
pub fn search_entries(entries: &Vec<WalCandidate>) -> (r: Option<(usize, u32)>)
    ensures
        r matches Some(p) ==> p.0 < entries@.len() && spec_validate_wal_file(
            entries@[p.0 as int].path@,
            entries@[p.0 as int].header@,
        ) == Some(p.1) && spec_is_valid_segsz(p.1 as int) && forall|j: int|
            0 <= j < p.0 ==> spec_validate_wal_file(
                #[trigger] entries@[j].path@,
                entries@[j].header@,
            ) is None,
        r is None ==> forall|j: int|
            0 <= j < entries@.len() ==> spec_validate_wal_file(
                #[trigger] entries@[j].path@,
                entries@[j].header@,
            ) is None,
{
    let mut i: usize = 0;
    while i < entries.len()
        invariant
            i <= entries@.len(),
            forall|j: int|
                0 <= j < i ==> spec_validate_wal_file(
                    #[trigger] entries@[j].path@,
                    entries@[j].header@,
                ) is None,
        decreases entries@.len() - i,
    {
        let entry = &entries[i];
        match validate_wal_file(entry.path.as_str(), &entry.header) {
            Ok(segsz) => {
                return Some((i, segsz));
            },
            Err(_) => {},
        }
        i = i + 1;
    }
    None
}

} // verus!
