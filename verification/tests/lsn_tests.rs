use waldecoder::lsn;
use waldecoder::lsn_utils;
use waldecoder::pg_lsn::PgLSN;

#[test]
fn lsn_test_lsn_to_startptr() {
    let res = lsn::lsn_to_rec_ptr("0/01800C50");
    assert_eq!(res.unwrap(), PgLSN::from(0x1800c50_u64));
    let res = lsn::lsn_to_rec_ptr("2/01800C50");
    assert_eq!(res.unwrap(), PgLSN::from(0x201800c50_u64));
}

#[test]
fn lsn_test_filename_to_startptr() {
    let res = lsn::filename_to_startptr("000000010000000000000018", 1024 * 1024);
    assert_eq!(res.unwrap(), (1, 24));
}

#[test]
fn lsn_test_xlog_file_name() {
    let res = lsn::xlog_file_name(1, 0x18, 1024 * 1024);
    assert_eq!(res, "000000010000000000000018");
}

#[test]
fn lsn_utils_test_lsn_to_startptr() {
    let res = lsn_utils::lsn_to_rec_ptr("0/01800C50");
    assert_eq!(res.unwrap(), 0x1800c50);
    let res = lsn_utils::lsn_to_rec_ptr("2/01800C50");
    assert_eq!(res.unwrap(), 0x201800c50);
}

#[test]
fn lsn_utils_test_filename_to_startptr() {
    let res = lsn_utils::filename_to_startptr("000000010000000000000018", 1024 * 1024);
    assert_eq!(res.unwrap(), (1, 24));
}

#[test]
fn lsn_utils_test_xlog_file_name() {
    let res = lsn_utils::xlog_file_name(1, 0x18, 1024 * 1024);
    assert_eq!(res, "000000010000000000000018");
}

#[test]
fn test_format_lsn() {
    assert_eq!(lsn::format_lsn(0x1800c50), "0/01800C50");
    assert_eq!(lsn::format_lsn(0x201800c50), "2/01800C50");
    assert_eq!(lsn::format_lsn(0), "0/00000000");
    assert_eq!(lsn::format_lsn(u64::MAX), "FFFFFFFF/FFFFFFFF");
}

#[test]
fn test_pg_lsn_format_round_trip() {
    let p = lsn::lsn_to_rec_ptr("2/01800C50").unwrap();
    assert_eq!(p.format(), "2/01800C50");
    assert_eq!(u64::from(p), 0x201800c50_u64);
    assert_eq!(p.to_u64(), 0x201800c50_u64);
    let again = lsn::lsn_to_rec_ptr(&p.format()).unwrap();
    assert_eq!(again, p);
}

#[test]
fn test_lsn_parse_missing_separator() {
    match lsn::lsn_to_rec_ptr("1234") {
        Err(lsn::InvalidLSN::Format(t)) => assert_eq!(t, "1234"),
        other => panic!("expected a format error, got {:?}", other),
    }
}

#[test]
fn test_lsn_parse_bad_digit() {
    match lsn::lsn_to_rec_ptr("zz/01800C50") {
        Err(lsn::InvalidLSN::HexValue(t, m)) => {
            assert_eq!(t, "zz/01800C50");
            assert_eq!(m, "invalid digit found in string");
        },
        other => panic!("expected a hex-value error, got {:?}", other),
    }
}

#[test]
fn test_lsn_parse_empty_field() {
    match lsn_utils::lsn_to_rec_ptr("1/") {
        Err(lsn_utils::InvalidLSN::InvalidHexValue(t, m)) => {
            assert_eq!(t, "1/");
            assert_eq!(m, "cannot parse integer from empty string");
        },
        other => panic!("expected a hex-value error, got {:?}", other),
    }
}

#[test]
fn test_lsn_parse_overflow() {
    match lsn_utils::lsn_to_rec_ptr("11112222333344445/0") {
        Err(lsn_utils::InvalidLSN::InvalidHexValue(_, m)) => {
            assert_eq!(m, "number too large to fit in target type");
        },
        other => panic!("expected a hex-value error, got {:?}", other),
    }
}

#[test]
fn test_filename_too_short() {
    match lsn::filename_to_startptr("0000000100000000000018", 1024 * 1024) {
        Err(lsn::InvalidLSN::FileName(t)) => assert_eq!(t, "0000000100000000000018"),
        other => panic!("expected a file-name error, got {:?}", other),
    }
}

#[test]
fn test_filename_with_directory() {
    let res = lsn_utils::filename_to_startptr("some/dir/000000010000000000000018", 1024 * 1024);
    assert_eq!(res.unwrap(), (1, 24));
}

#[test]
fn test_filename_bad_digit_names_field() {
    match lsn_utils::filename_to_startptr("0000000g0000000000000018", 1024 * 1024) {
        Err(lsn_utils::InvalidLSN::InvalidHexValue(t, m)) => {
            assert_eq!(t, "0000000g");
            assert_eq!(m, "invalid digit found in string");
        },
        other => panic!("expected a hex-value error, got {:?}", other),
    }
}

#[test]
fn test_lsn_rejects_second_separator() {
    match lsn::lsn_to_rec_ptr("1/2/3") {
        Err(lsn::InvalidLSN::Format(t)) => assert_eq!(t, "1/2/3"),
        other => panic!("expected a format error, got {:?}", other),
    }
    match lsn_utils::lsn_to_rec_ptr("0/01800C50/") {
        Err(lsn_utils::InvalidLSN::InvalidFormat(t)) => assert_eq!(t, "0/01800C50/"),
        other => panic!("expected a format error, got {:?}", other),
    }
}

#[test]
fn test_filename_round_trip_nonzero_log() {
    // Segment 4096 of a 1 MiB-segment log is the first segment of
    // log id 1: the name and its reading must agree.
    let name = lsn::xlog_file_name(1, 4096, 1024 * 1024);
    assert_eq!(name, "000000010000000100000000");
    assert_eq!(lsn::filename_to_startptr(&name, 1024 * 1024).unwrap(), (1, 4096));
    assert_eq!(
        lsn_utils::filename_to_startptr("000000020000000100000003", 1024 * 1024).unwrap(),
        (2, 4099)
    );
}
