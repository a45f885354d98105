use waldecoder::wal;
use waldecoder::wal_utils;

/// A first page whose long header declares the given segment size.
fn header_with_segsz(segsz: u32) -> Vec<u8> {
    let mut h = vec![0u8; 8192];
    h[32..36].copy_from_slice(&segsz.to_le_bytes());
    h
}

#[test]
fn wal_test_validate_wal_file() {
    let wal_path = "18_single_upgrade/000000010000000000000018";
    let header = header_with_segsz(1024 * 1024);
    let seg_size = match wal::validate_wal_file(wal_path, &header) {
        Ok(s) => s,
        Err(e) => panic!("{:?}", e),
    };
    assert_eq!(seg_size, 1024 * 1024, "Invalid segment size");
}

#[test]
fn wal_utils_test_validate_wal_file() {
    let wal_path = "18_single_upgrade/000000010000000000000018";
    let header = header_with_segsz(1024 * 1024);
    let seg_size = match wal_utils::validate_wal_file(wal_path, &header) {
        Ok(s) => s,
        Err(e) => panic!("{:?}", e),
    };
    assert_eq!(seg_size, 1024 * 1024, "Invalid segment size");
}

#[test]
fn test_segsz_validity() {
    assert!(wal::is_wal_segsz_valid(1024 * 1024));
    assert!(wal::is_wal_segsz_valid(16 * 1024 * 1024));
    assert!(wal::is_wal_segsz_valid(1024 * 1024 * 1024));
    assert!(!wal::is_wal_segsz_valid(512 * 1024));
    assert!(!wal::is_wal_segsz_valid(3 * 1024 * 1024));
    assert!(!wal::is_wal_segsz_valid(0));
    assert!(!wal::is_wal_segsz_valid(u32::MAX));
    assert!(wal_utils::is_valid_wal_seg_size(1024 * 1024));
    assert!(!wal_utils::is_valid_wal_seg_size(1000 * 1000));
}

#[test]
fn test_validate_rejects_non_power_of_two_size() {
    let header = header_with_segsz(3 * 1024 * 1024);
    match wal::validate_wal_file("000000010000000000000018", &header) {
        Err(wal::InvalidWalFile::InvalidWalSegSz(s)) => assert_eq!(s, 3 * 1024 * 1024),
        other => panic!("expected an invalid-size error, got {:?}", other),
    }
    match wal_utils::validate_wal_file("000000010000000000000018", &header) {
        Err(wal_utils::InvalidWalFile::InvalidSegSize(s)) => assert_eq!(s, 3 * 1024 * 1024),
        other => panic!("expected an invalid-size error, got {:?}", other),
    }
}

#[test]
fn test_validate_rejects_bad_names() {
    let header = header_with_segsz(1024 * 1024);
    match wal::validate_wal_file("notawalfile", &header) {
        Err(wal::InvalidWalFile::InvalidFileName(t)) => assert_eq!(t, "notawalfile"),
        other => panic!("expected a file-name error, got {:?}", other),
    }
    match wal::validate_wal_file("00000001000000000000001x", &header) {
        Err(wal::InvalidWalFile::InvalidFileName(_)) => {},
        other => panic!("expected a file-name error, got {:?}", other),
    }
    match wal::validate_wal_file("dir/", &header) {
        Err(wal::InvalidWalFile::NoFile(t)) => assert_eq!(t, "dir/"),
        other => panic!("expected a no-file error, got {:?}", other),
    }
}

#[test]
fn test_validate_rejects_short_header() {
    let header = vec![0u8; 100];
    match wal::validate_wal_file("000000010000000000000018", &header) {
        Err(wal::InvalidWalFile::ReadError(t, m)) => {
            assert_eq!(t, "000000010000000000000018");
            assert_eq!(m, "failed to fill whole buffer");
        },
        other => panic!("expected a read error, got {:?}", other),
    }
}

#[test]
fn test_get_wal_segsz() {
    let header = header_with_segsz(1024 * 1024);
    assert_eq!(wal::get_wal_segsz("x", &header).unwrap(), 1024 * 1024);
    let bad = header_with_segsz(12345);
    match wal::get_wal_segsz("x", &bad) {
        Err(wal::InvalidWalFile::InvalidWalSegSz(s)) => assert_eq!(s, 12345),
        other => panic!("expected an invalid-size error, got {:?}", other),
    }
}

#[test]
fn test_search_entries_skips_invalid_candidates() {
    let entries = vec![
        // malformed name: skipped
        wal::WalCandidate { path: String::from("archive_status"), header: header_with_segsz(1024 * 1024) },
        // well-formed name but a bad declared size: skipped
        wal::WalCandidate {
            path: String::from("000000010000000000000017"),
            header: header_with_segsz(3 * 1024 * 1024),
        },
        // the first valid candidate
        wal::WalCandidate {
            path: String::from("000000010000000000000018"),
            header: header_with_segsz(1024 * 1024),
        },
        wal::WalCandidate {
            path: String::from("000000010000000000000019"),
            header: header_with_segsz(1024 * 1024),
        },
    ];
    let found = wal::search_entries(&entries);
    assert_eq!(found, Some((2, 1024 * 1024)));
}

#[test]
fn test_search_entries_none_valid() {
    let entries = vec![
        wal::WalCandidate { path: String::from("garbage"), header: header_with_segsz(1024 * 1024) },
        wal::WalCandidate {
            path: String::from("000000010000000000000018"),
            header: header_with_segsz(7),
        },
    ];
    assert_eq!(wal::search_entries(&entries), None);
}
