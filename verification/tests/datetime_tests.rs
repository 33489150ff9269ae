//! Tests of datetimes, datetime patterns and filters.
#![allow(non_snake_case)]

use s4lib::datetime::{
    datetime_from_str_workaround_Issue660, dt_after_or_before, dt_pass_filters, dt_pattern_has_tz,
    dt_pattern_has_year, str_datetime, DateTimeL, Result_Filter_DateTime1, Result_Filter_DateTime2,
    DATETIME_PARSE_DATAS_VEC, DATETIME_PARSE_DATAS_LEN, u8_to_str, slice_contains_X_2,
};

fn tz_west(hours: i32) -> i32 {
    chrono::FixedOffset::west_opt(3600 * hours).unwrap().local_minus_utc()
}

#[test]
fn test_DATETIME_PARSE_DATAS() {
    let datas = DATETIME_PARSE_DATAS_VEC();
    assert_eq!(datas.len(), DATETIME_PARSE_DATAS_LEN);
    for dtpd in datas.iter() {
        assert!(dtpd.sib < dtpd.sie, "dtpd.sib < dtpd.sie failed; bad build-in DateTimeParseData {:?}", dtpd);
        assert!(dtpd.siba < dtpd.siea, "dtpd.siba < dtpd.siea failed; bad build-in DateTimeParseData {:?}", dtpd);
        assert!(dtpd.sib <= dtpd.siba, "dtpd.sib ≤ dtpd.siba failed; bad build-in DateTimeParseData {:?}", dtpd);
        assert!(dtpd.sie >= dtpd.siea, "dtpd.sie ≥ dtpd.siea failed; bad build-in DateTimeParseData {:?}", dtpd);
        let len_ = dtpd.pattern.len();
        assert!(6 <= len_, ".pattern.len too short; bad build-in DateTimeParseData {:?}", dtpd);
        let diff_ = dtpd.sie - dtpd.sib;
        let diff_dt = dtpd.siea - dtpd.siba;
        assert!(diff_ >= diff_dt, "len(.sib,.sie) ≥ len(.siba,.siea) failed; bad build-in DateTimeParseData {:?}", dtpd);
        assert!(diff_ >= len_, "len(.sib,.sie) ≥ .dtp.len() failed; bad build-in DateTimeParseData {:?}", dtpd);
        if dtpd.year {
            assert!(dt_pattern_has_year(dtpd.pattern), "pattern has not year {:?} but .year is true", dtpd.pattern);
        } else {
            assert!(!dt_pattern_has_year(dtpd.pattern), "pattern has year {:?} but .year is false", dtpd.pattern);
        }
        if dtpd.tz {
            assert!(dt_pattern_has_tz(dtpd.pattern), "pattern has not timezone {:?} but tz is true", dtpd.pattern);
        } else {
            assert!(!dt_pattern_has_tz(dtpd.pattern), "pattern has timezone {:?} but tz is false", dtpd.pattern);
        }
    }
    // check for duplicates
    for (i, a) in datas.iter().enumerate() {
        for b in datas.iter().skip(i + 1) {
            let same = a.pattern == b.pattern && a.year == b.year && a.tz == b.tz && a.sib == b.sib
                && a.sie == b.sie && a.siba == b.siba && a.siea == b.siea;
            assert!(!same, "entry {:?} appears to be a duplicate", a);
        }
    }
}

#[test]
fn test_datetime_from_str_workaround_Issue660() {
    assert!(datetime_from_str_workaround_Issue660("", ""));
    assert!(datetime_from_str_workaround_Issue660("a", ""));
    assert!(datetime_from_str_workaround_Issue660("", "a"));
    assert!(!datetime_from_str_workaround_Issue660(" ", ""));
    assert!(!datetime_from_str_workaround_Issue660("", " "));
    assert!(datetime_from_str_workaround_Issue660(" ", " "));
    assert!(datetime_from_str_workaround_Issue660(" a", " a"));
    assert!(!datetime_from_str_workaround_Issue660(" a", "  a"));
    assert!(!datetime_from_str_workaround_Issue660("  a", " a"));
    assert!(!datetime_from_str_workaround_Issue660("  a", "   a"));
    assert!(!datetime_from_str_workaround_Issue660("a", "   a"));
    assert!(!datetime_from_str_workaround_Issue660("  a", "a"));
    assert!(datetime_from_str_workaround_Issue660("a ", "a "));
    assert!(datetime_from_str_workaround_Issue660("a  ", "a  "));
    assert!(datetime_from_str_workaround_Issue660(" a ", " a "));
    assert!(datetime_from_str_workaround_Issue660(" a  ", " a  "));
    assert!(datetime_from_str_workaround_Issue660("   a  ", "   a  "));
    assert!(datetime_from_str_workaround_Issue660("   a  ", "   a  "));
    assert!(!datetime_from_str_workaround_Issue660("   a  ", "   a   "));
    assert!(!datetime_from_str_workaround_Issue660("   a   ", "   a  "));
    assert!(!datetime_from_str_workaround_Issue660("   a   ", " a  "));
    assert!(!datetime_from_str_workaround_Issue660("a   ", " a  "));

    assert!(!datetime_from_str_workaround_Issue660(" \t", " "));
    assert!(!datetime_from_str_workaround_Issue660(" ", "\t "));
    assert!(datetime_from_str_workaround_Issue660(" \t", "\t "));
    assert!(!datetime_from_str_workaround_Issue660("\t ", "\t a\t"));

    assert!(datetime_from_str_workaround_Issue660(" \n\t", " \n\t"));
    assert!(datetime_from_str_workaround_Issue660(" \n\t", " \t\n"));
    assert!(datetime_from_str_workaround_Issue660(" \n\ta", " \t\n"));
    assert!(datetime_from_str_workaround_Issue660(" \n\t", " \t\na"));
    assert!(datetime_from_str_workaround_Issue660(" \n", " \n"));
    assert!(datetime_from_str_workaround_Issue660(" \n", "\n "));
    assert!(datetime_from_str_workaround_Issue660(" \n", "\r "));
    assert!(datetime_from_str_workaround_Issue660(" \n", " \n"));
    assert!(!datetime_from_str_workaround_Issue660("\t a", "\t a\t\n"));
    assert!(!datetime_from_str_workaround_Issue660("\t\n a\n", "\t\n a\t\n"));
}

fn DTL(s: &str) -> DateTimeL {
    str_datetime(s, "%Y%m%dT%H%M%S", false, tz_west(8)).unwrap()
}

#[test]
fn test_dt_pass_filters() {
    for (da, dt, db, exp_result) in [
        (Some(DTL("20000101T010105")), DTL("20000101T010106"), Some(DTL("20000101T010107")), Result_Filter_DateTime2::InRange),
        (Some(DTL("20000101T010107")), DTL("20000101T010106"), Some(DTL("20000101T010108")), Result_Filter_DateTime2::BeforeRange),
        (Some(DTL("20000101T010101")), DTL("20000101T010106"), Some(DTL("20000101T010102")), Result_Filter_DateTime2::AfterRange),
        (Some(DTL("20000101T010101")), DTL("20000101T010106"), None, Result_Filter_DateTime2::InRange),
        (Some(DTL("20000101T010102")), DTL("20000101T010101"), None, Result_Filter_DateTime2::BeforeRange),
        (Some(DTL("20000101T010101")), DTL("20000101T010101"), None, Result_Filter_DateTime2::InRange),
        (None, DTL("20000101T010101"), Some(DTL("20000101T010106")), Result_Filter_DateTime2::InRange),
        (None, DTL("20000101T010101"), Some(DTL("20000101T010100")), Result_Filter_DateTime2::AfterRange),
        (None, DTL("20000101T010101"), Some(DTL("20000101T010101")), Result_Filter_DateTime2::InRange),
    ] {
        let result = dt_pass_filters(&dt, &da, &db);
        assert_eq!(exp_result, result, "Expected {:?} Got {:?} for ({:?}, {:?}, {:?})", exp_result, result, dt, da, db);
    }
}

#[test]
fn test_dt_after_or_before() {
    for (dt, da, exp_result) in [
        (DTL("20000101T010106"), None, Result_Filter_DateTime1::Pass),
        (DTL("20000101T010101"), Some(DTL("20000101T010103")), Result_Filter_DateTime1::OccursBefore),
        (DTL("20000101T010100"), Some(DTL("20000101T010100")), Result_Filter_DateTime1::OccursAtOrAfter),
        (DTL("20000101T010109"), Some(DTL("20000101T010108")), Result_Filter_DateTime1::OccursAtOrAfter),
    ] {
        let result = dt_after_or_before(&dt, &da);
        assert_eq!(exp_result, result, "Expected {:?} Got {:?} for ({:?}, {:?})", exp_result, result, dt, da);
    }
}

/// A datetime without a timezone is read in the given offset.
#[test]
fn test_str_datetime_offsets() {
    let dt = str_datetime("2000-01-01 00:00:00", "%Y-%m-%d %H:%M:%S", false, tz_west(8)).unwrap();
    assert_eq!(dt.secs, 946684800 + 8 * 3600);
    assert_eq!(dt.offset, -28800);
    let dt2 = str_datetime("2000-01-01 00:00:00 +0100", "%Y-%m-%d %H:%M:%S %z", true, tz_west(8)).unwrap();
    assert_eq!(dt2.secs, 946684800 - 3600);
    assert_eq!(dt2.offset, 3600);
    assert!(str_datetime("not a date", "%Y-%m-%d %H:%M:%S", false, 0).is_none());
}

#[test]
fn test_u8_to_str_and_contains() {
    assert_eq!(u8_to_str(b"abc"), Some("abc"));
    assert_eq!(u8_to_str("é".as_bytes()), Some("é"));
    assert_eq!(u8_to_str(&[0xFF]), None);
    assert!(slice_contains_X_2(b"x1", &[b'1', b'2']));
    assert!(!slice_contains_X_2(b"abcdefg", &[b'1', b'2']));
    // the last byte is looked at too
    assert!(slice_contains_X_2(b"abcde1", &[b'1', b'2']));
    assert!(slice_contains_X_2(b"abcde2", &[b'1', b'2']));
    assert!(slice_contains_X_2(b"abcd1e", &[b'1', b'2']));
}
