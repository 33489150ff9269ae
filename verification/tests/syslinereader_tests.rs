//! Tests of `SyslineReader`.
#![allow(non_snake_case)]
#![allow(non_camel_case_types)]

use chrono::TimeZone;
use s4lib::common::{FileType, FPath, ResultS4};
use s4lib::blockreader::BlockSz;
use s4lib::common::FileOffset;
use s4lib::datetime::{str_datetime, dt_pattern_has_tz, TzOffset};
use s4lib::syslinereader::{SyslineReader, ResultS4_SyslineFind};

type DateTimePattern = String;

/// The offset of `FixedOffset::west(3600 * hours)`, in seconds east of UTC.
fn tz_west(hours: i32) -> TzOffset {
    chrono::FixedOffset::west_opt(3600 * hours).unwrap().local_minus_utc()
}

fn new_SyslineReader(data: &[u8], blocksz: BlockSz, tzo: TzOffset) -> SyslineReader {
    let path: FPath = String::from("test.log");
    match SyslineReader::new(path, FileType::File, blocksz, tzo, data.to_vec(), 0) {
        Ok(val) => val,
        Err(err) => panic!("ERROR: SyslineReader::new failed {:?}", err),
    }
}

// -------------------------------------------------------------------------------------------------

fn _test_find_datetime_in_line_by_block(blocksz: BlockSz) {
    let data = "\
[20200113-11:03:06] [DEBUG] Testing if xrdp can listen on 0.0.0.0 port 3389.
[20200113-11:03:06] [DEBUG] Closed socket 7 (AF_INET6 :: port 3389)
CLOSED!
[20200113-11:03:08] [INFO ] starting xrdp with pid 23198
[20200113-11:03:08] [INFO ] listening to port 3389 on 0.0.0.0
[20200113-11:13:59] [INFO ] Socket 12: AF_INET6 connection received from ::ffff:127.0.0.1 port 55426
[20200113-11:13:59] [DEBUG] Closed socket 12 (AF_INET6 ::ffff:127.0.0.1 port 3389)
[20200113-11:13:59] [DEBUG] Closed socket 11 (AF_INET6 :: port 3389)
[20200113-11:13:59] [INFO ] Using default X.509 certificate: /etc/xrdp/cert.pem
[20200113-11:13:59] [INFO ] Using default X.509 key file: /etc/xrdp/key.pem
[20200113-11:13:59] [DEBUG] read private key file /etc/xrdp/key.pem
[20200113-11:13:59] [DEBUG] Certification found
    FOUND CERTIFICATE!
[20200113-11:13:59] [DEBUG] Certification complete.
";
    let tzo = tz_west(8);
    let mut slr = new_SyslineReader(data.as_bytes(), blocksz, tzo);
    let mut fo1: FileOffset = 0;
    loop {
        let result = slr.find_sysline(fo1);
        let done = result.is_done() || result.is_eof();
        match result {
            ResultS4::Found((fo, _slp)) | ResultS4::Found_EOF((fo, _slp)) => {
                fo1 = fo;
            }
            ResultS4::Done => {
                break;
            }
            ResultS4::Error(err) => {
                panic!("ERROR: test_find_datetime_in_line: slr.find_sysline({}) returned Err({:?})", fo1, err);
            }
        }
        if done {
            break;
        }
    }
}

#[test]
fn test_find_datetime_in_line_by_block2() {
    _test_find_datetime_in_line_by_block(2);
}

#[test]
fn test_find_datetime_in_line_by_block4() {
    _test_find_datetime_in_line_by_block(4);
}

#[test]
fn test_find_datetime_in_line_by_block8() {
    _test_find_datetime_in_line_by_block(8);
}

#[test]
fn test_find_datetime_in_line_by_block256() {
    _test_find_datetime_in_line_by_block(256);
}

// -------------------------------------------------------------------------------------------------

type _test_find_sysline_at_datetime_filter_Checks<'a> = Vec<(FileOffset, &'a str, &'a str)>;

fn __test_find_sysline_at_datetime_filter(
    file_content: String,
    dt_pattern: DateTimePattern,
    blocksz: BlockSz,
    checks: _test_find_sysline_at_datetime_filter_Checks,
) {
    let tzo = tz_west(8);
    let mut slr = new_SyslineReader(file_content.as_bytes(), blocksz, tzo);
    for (fo1, dts, sline_expect) in checks.iter() {
        let has_tz = dt_pattern_has_tz(dt_pattern.as_str());
        let dt = match str_datetime(dts, dt_pattern.as_str(), has_tz, tzo) {
            Some(val) => val,
            None => {
                panic!("ERROR: datetime_from_str({:?}, {:?}) returned None", dts, dt_pattern);
            }
        };
        let result = slr.find_sysline_at_datetime_filter(*fo1, &Some(dt));
        match result {
            ResultS4::Found(val) | ResultS4::Found_EOF(val) => {
                let sline = val.1.to_String();
                assert_eq!(sline, String::from(*sline_expect), "Expected {:?} == {:?} but it is not!", sline, sline_expect);
            }
            ResultS4::Done => {
                panic!("During test unexpected result Done");
            }
            ResultS4::Error(err) => {
                panic!("During test unexpected result Error {:?}", err);
            }
        }
    }
}

fn _test_find_sysline_at_datetime_filter(
    blocksz: BlockSz, checks: Option<_test_find_sysline_at_datetime_filter_Checks>,
) {
    let dt_fmt1: DateTimePattern = String::from("%Y-%m-%d %H:%M:%S");
    let file_content1 = String::from(
        "\
2020-01-01 00:00:00
2020-01-01 00:00:01a
2020-01-01 00:00:02ab
2020-01-01 00:00:03abc
2020-01-01 00:00:04abcd
2020-01-01 00:00:05abcde
2020-01-01 00:00:06abcdef
2020-01-01 00:00:07abcdefg
2020-01-01 00:00:08abcdefgh
2020-01-01 00:00:09abcdefghi
2020-01-01 00:00:10abcdefghij
2020-01-01 00:00:11abcdefghijk
2020-01-01 00:00:12abcdefghijkl
2020-01-01 00:00:13abcdefghijklm
2020-01-01 00:00:14abcdefghijklmn
2020-01-01 00:00:15abcdefghijklmno
2020-01-01 00:00:16abcdefghijklmnop
2020-01-01 00:00:17abcdefghijklmnopq
2020-01-01 00:00:18abcdefghijklmnopqr
2020-01-01 00:00:19abcdefghijklmnopqrs
2020-01-01 00:00:20abcdefghijklmnopqrst
2020-01-01 00:00:21abcdefghijklmnopqrstu
2020-01-01 00:00:22abcdefghijklmnopqrstuv
2020-01-01 00:00:23abcdefghijklmnopqrstuvw
2020-01-01 00:00:24abcdefghijklmnopqrstuvwx
2020-01-01 00:00:25abcdefghijklmnopqrstuvwxy
2020-01-01 00:00:26abcdefghijklmnopqrstuvwxyz
",
    );
    let checks0: _test_find_sysline_at_datetime_filter_Checks = Vec::from([
        (0, "2020-01-01 00:00:00", "2020-01-01 00:00:00\n"),
        (0, "2020-01-01 00:00:01", "2020-01-01 00:00:01a\n"),
        (0, "2020-01-01 00:00:02", "2020-01-01 00:00:02ab\n"),
        (0, "2020-01-01 00:00:03", "2020-01-01 00:00:03abc\n"),
        (0, "2020-01-01 00:00:04", "2020-01-01 00:00:04abcd\n"),
        (0, "2020-01-01 00:00:05", "2020-01-01 00:00:05abcde\n"),
        (0, "2020-01-01 00:00:06", "2020-01-01 00:00:06abcdef\n"),
        (0, "2020-01-01 00:00:07", "2020-01-01 00:00:07abcdefg\n"),
        (0, "2020-01-01 00:00:08", "2020-01-01 00:00:08abcdefgh\n"),
        (0, "2020-01-01 00:00:09", "2020-01-01 00:00:09abcdefghi\n"),
        (0, "2020-01-01 00:00:10", "2020-01-01 00:00:10abcdefghij\n"),
        (0, "2020-01-01 00:00:11", "2020-01-01 00:00:11abcdefghijk\n"),
        (0, "2020-01-01 00:00:12", "2020-01-01 00:00:12abcdefghijkl\n"),
        (0, "2020-01-01 00:00:13", "2020-01-01 00:00:13abcdefghijklm\n"),
        (0, "2020-01-01 00:00:14", "2020-01-01 00:00:14abcdefghijklmn\n"),
        (0, "2020-01-01 00:00:15", "2020-01-01 00:00:15abcdefghijklmno\n"),
        (0, "2020-01-01 00:00:16", "2020-01-01 00:00:16abcdefghijklmnop\n"),
        (0, "2020-01-01 00:00:17", "2020-01-01 00:00:17abcdefghijklmnopq\n"),
        (0, "2020-01-01 00:00:18", "2020-01-01 00:00:18abcdefghijklmnopqr\n"),
        (0, "2020-01-01 00:00:19", "2020-01-01 00:00:19abcdefghijklmnopqrs\n"),
        (0, "2020-01-01 00:00:20", "2020-01-01 00:00:20abcdefghijklmnopqrst\n"),
        (0, "2020-01-01 00:00:21", "2020-01-01 00:00:21abcdefghijklmnopqrstu\n"),
        (0, "2020-01-01 00:00:22", "2020-01-01 00:00:22abcdefghijklmnopqrstuv\n"),
        (0, "2020-01-01 00:00:23", "2020-01-01 00:00:23abcdefghijklmnopqrstuvw\n"),
        (0, "2020-01-01 00:00:24", "2020-01-01 00:00:24abcdefghijklmnopqrstuvwx\n"),
        (0, "2020-01-01 00:00:25", "2020-01-01 00:00:25abcdefghijklmnopqrstuvwxy\n"),
        (0, "2020-01-01 00:00:26", "2020-01-01 00:00:26abcdefghijklmnopqrstuvwxyz\n"),
    ]);
    let checks_: _test_find_sysline_at_datetime_filter_Checks = checks.unwrap_or(checks0);
    __test_find_sysline_at_datetime_filter(file_content1, dt_fmt1, blocksz, checks_);
}


#[test]
fn test_find_sysline_at_datetime_filter_4() {
    _test_find_sysline_at_datetime_filter(4, None);
}

#[test]
fn test_find_sysline_at_datetime_filter_8() {
    _test_find_sysline_at_datetime_filter(8, None);
}

#[test]
fn test_find_sysline_at_datetime_filter_16() {
    _test_find_sysline_at_datetime_filter(16, None);
}

#[test]
fn test_find_sysline_at_datetime_filter_32() {
    _test_find_sysline_at_datetime_filter(32, None);
}

#[test]
fn test_find_sysline_at_datetime_filter_64() {
    _test_find_sysline_at_datetime_filter(64, None);
}

#[test]
fn test_find_sysline_at_datetime_filter_128() {
    _test_find_sysline_at_datetime_filter(128, None);
}

#[test]
fn test_find_sysline_at_datetime_filter_256() {
    _test_find_sysline_at_datetime_filter(256, None);
}

#[test]
fn test_find_sysline_at_datetime_filter_512() {
    _test_find_sysline_at_datetime_filter(512, None);
}

#[test]
fn test_find_sysline_at_datetime_filter_1024() {
    _test_find_sysline_at_datetime_filter(1024, None);
}

#[test]
fn test_find_sysline_at_datetime_filter_2056() {
    _test_find_sysline_at_datetime_filter(2056, None);
}

#[test]
fn test_find_sysline_at_datetime_filter_checks_0_() {
    _test_find_sysline_at_datetime_filter(64,Some(_test_find_sysline_at_datetime_filter_Checks::from([(
            0,
            "2020-01-01 00:00:00",
            "2020-01-01 00:00:00\n",
        )])),
    );
}

#[test]
fn test_find_sysline_at_datetime_filter_checks_0_a() {
    _test_find_sysline_at_datetime_filter(
        64,
        Some(_test_find_sysline_at_datetime_filter_Checks::from([(
            0,
            "2020-01-01 00:00:01",
            "2020-01-01 00:00:01a\n",
        )])),
    );
}

#[test]
fn test_find_sysline_at_datetime_filter_checks_0_b() {
    _test_find_sysline_at_datetime_filter(
        64,
        Some(_test_find_sysline_at_datetime_filter_Checks::from([(
            0,
            "2020-01-01 00:00:02",
            "2020-01-01 00:00:02ab\n",
        )])),
    );
}

#[test]
fn test_find_sysline_at_datetime_filter_checks_0_c() {
    _test_find_sysline_at_datetime_filter(
        64,
        Some(_test_find_sysline_at_datetime_filter_Checks::from([(
            0,
            "2020-01-01 00:00:03",
            "2020-01-01 00:00:03abc\n",
        )])),
    );
}

#[test]
fn test_find_sysline_at_datetime_filter_checks_0_d() {
    _test_find_sysline_at_datetime_filter(
        64,
        Some(_test_find_sysline_at_datetime_filter_Checks::from([(
            0,
            "2020-01-01 00:00:04",
            "2020-01-01 00:00:04abcd\n",
        )])),
    );
}

#[test]
fn test_find_sysline_at_datetime_filter_checks_0_e() {
    _test_find_sysline_at_datetime_filter(
        64,
        Some(_test_find_sysline_at_datetime_filter_Checks::from([(
            0,
            "2020-01-01 00:00:05",
            "2020-01-01 00:00:05abcde\n",
        )])),
    );
}

#[test]
fn test_find_sysline_at_datetime_filter_checks_0_f() {
    _test_find_sysline_at_datetime_filter(
        64,
        Some(_test_find_sysline_at_datetime_filter_Checks::from([(
            0,
            "2020-01-01 00:00:06",
            "2020-01-01 00:00:06abcdef\n",
        )])),
    );
}

#[test]
fn test_find_sysline_at_datetime_filter_checks_0_g() {
    _test_find_sysline_at_datetime_filter(
        64,
        Some(_test_find_sysline_at_datetime_filter_Checks::from([(
            0,
            "2020-01-01 00:00:07",
            "2020-01-01 00:00:07abcdefg\n",
        )])),
    );
}

#[test]
fn test_find_sysline_at_datetime_filter_checks_0_h() {
    _test_find_sysline_at_datetime_filter(
        64,
        Some(_test_find_sysline_at_datetime_filter_Checks::from([(
            0,
            "2020-01-01 00:00:08",
            "2020-01-01 00:00:08abcdefgh\n",
        )])),
    );
}

#[test]
fn test_find_sysline_at_datetime_filter_checks_0_i() {
    _test_find_sysline_at_datetime_filter(
        64,
        Some(_test_find_sysline_at_datetime_filter_Checks::from([(
            0,
            "2020-01-01 00:00:09",
            "2020-01-01 00:00:09abcdefghi\n",
        )])),
    );
}

#[test]
fn test_find_sysline_at_datetime_filter_checks_0_j() {
    _test_find_sysline_at_datetime_filter(
        64,
        Some(_test_find_sysline_at_datetime_filter_Checks::from([(
            0,
            "2020-01-01 00:00:10",
            "2020-01-01 00:00:10abcdefghij\n",
        )])),
    );
}

#[test]
fn test_find_sysline_at_datetime_filter_checks_0_k() {
    _test_find_sysline_at_datetime_filter(
        64,
        Some(_test_find_sysline_at_datetime_filter_Checks::from([(
            0,
            "2020-01-01 00:00:11",
            "2020-01-01 00:00:11abcdefghijk\n",
        )])),
    );
}

#[test]
fn test_find_sysline_at_datetime_filter_checks_0_l() {
    _test_find_sysline_at_datetime_filter(
        64,
        Some(_test_find_sysline_at_datetime_filter_Checks::from([(
            0,
            "2020-01-01 00:00:12",
            "2020-01-01 00:00:12abcdefghijkl\n",
        )])),
    );
}

#[test]
fn test_find_sysline_at_datetime_filter_checks_0_m() {
    _test_find_sysline_at_datetime_filter(
        64,
        Some(_test_find_sysline_at_datetime_filter_Checks::from([(
            0,
            "2020-01-01 00:00:13",
            "2020-01-01 00:00:13abcdefghijklm\n",
        )])),
    );
}

#[test]
fn test_find_sysline_at_datetime_filter_checks_0_n() {
    _test_find_sysline_at_datetime_filter(
        64,
        Some(_test_find_sysline_at_datetime_filter_Checks::from([(
            0,
            "2020-01-01 00:00:14",
            "2020-01-01 00:00:14abcdefghijklmn\n",
        )])),
    );
}

#[test]
fn test_find_sysline_at_datetime_filter_checks_0_o() {
    _test_find_sysline_at_datetime_filter(
        64,
        Some(_test_find_sysline_at_datetime_filter_Checks::from([(
            0,
            "2020-01-01 00:00:15",
            "2020-01-01 00:00:15abcdefghijklmno\n",
        )])),
    );
}

#[test]
fn test_find_sysline_at_datetime_filter_checks_0_p() {
    _test_find_sysline_at_datetime_filter(
        64,
        Some(_test_find_sysline_at_datetime_filter_Checks::from([(
            0,
            "2020-01-01 00:00:16",
            "2020-01-01 00:00:16abcdefghijklmnop\n",
        )])),
    );
}

#[test]
fn test_find_sysline_at_datetime_filter_checks_0_q() {
    _test_find_sysline_at_datetime_filter(
        64,
        Some(_test_find_sysline_at_datetime_filter_Checks::from([(
            0,
            "2020-01-01 00:00:17",
            "2020-01-01 00:00:17abcdefghijklmnopq\n",
        )])),
    );
}

#[test]
fn test_find_sysline_at_datetime_filter_checks_0_r() {
    _test_find_sysline_at_datetime_filter(
        64,
        Some(_test_find_sysline_at_datetime_filter_Checks::from([(
            0,
            "2020-01-01 00:00:18",
            "2020-01-01 00:00:18abcdefghijklmnopqr\n",
        )])),
    );
}

#[test]
fn test_find_sysline_at_datetime_filter_checks_0_s() {
    _test_find_sysline_at_datetime_filter(
        64,
        Some(_test_find_sysline_at_datetime_filter_Checks::from([(
            0,
            "2020-01-01 00:00:19",
            "2020-01-01 00:00:19abcdefghijklmnopqrs\n",
        )])),
    );
}

#[test]
fn test_find_sysline_at_datetime_filter_checks_0_t() {
    _test_find_sysline_at_datetime_filter(
        64,
        Some(_test_find_sysline_at_datetime_filter_Checks::from([(
            0,
            "2020-01-01 00:00:20",
            "2020-01-01 00:00:20abcdefghijklmnopqrst\n",
        )])),
    );
}

#[test]
fn test_find_sysline_at_datetime_filter_checks_0_u() {
    _test_find_sysline_at_datetime_filter(
        64,
        Some(_test_find_sysline_at_datetime_filter_Checks::from([(
            0,
            "2020-01-01 00:00:21",
            "2020-01-01 00:00:21abcdefghijklmnopqrstu\n",
        )])),
    );
}

#[test]
fn test_find_sysline_at_datetime_filter_checks_0_v() {
    _test_find_sysline_at_datetime_filter(
        64,
        Some(_test_find_sysline_at_datetime_filter_Checks::from([(
            0,
            "2020-01-01 00:00:22",
            "2020-01-01 00:00:22abcdefghijklmnopqrstuv\n",
        )])),
    );
}

#[test]
fn test_find_sysline_at_datetime_filter_checks_0_w() {
    _test_find_sysline_at_datetime_filter(
        64,
        Some(_test_find_sysline_at_datetime_filter_Checks::from([(
            0,
            "2020-01-01 00:00:23",
            "2020-01-01 00:00:23abcdefghijklmnopqrstuvw\n",
        )])),
    );
}

#[test]
fn test_find_sysline_at_datetime_filter_checks_0_x() {
    _test_find_sysline_at_datetime_filter(
        64,
        Some(_test_find_sysline_at_datetime_filter_Checks::from([(
            0,
            "2020-01-01 00:00:24",
            "2020-01-01 00:00:24abcdefghijklmnopqrstuvwx\n",
        )])),
    );
}

#[test]
fn test_find_sysline_at_datetime_filter_checks_0_y() {
    _test_find_sysline_at_datetime_filter(
        64,
        Some(_test_find_sysline_at_datetime_filter_Checks::from([(
            0,
            "2020-01-01 00:00:25",
            "2020-01-01 00:00:25abcdefghijklmnopqrstuvwxy\n",
        )])),
    );
}

#[test]
fn test_find_sysline_at_datetime_filter_checks_0_z() {
    _test_find_sysline_at_datetime_filter(
        64,
        Some(_test_find_sysline_at_datetime_filter_Checks::from([(
            0,
            "2020-01-01 00:00:26",
            "2020-01-01 00:00:26abcdefghijklmnopqrstuvwxyz\n",
        )])),
    );
}

#[test]
fn test_find_sysline_at_datetime_filter_checks_x_a() {
    _test_find_sysline_at_datetime_filter(
        64,
        Some(_test_find_sysline_at_datetime_filter_Checks::from([(
            19,
            "2020-01-01 00:00:01",
            "2020-01-01 00:00:01a\n",
        )])),
    );
}

#[test]
fn test_find_sysline_at_datetime_filter_checks_x_b() {
    _test_find_sysline_at_datetime_filter(
        64,
        Some(_test_find_sysline_at_datetime_filter_Checks::from([(
            40,
            "2020-01-01 00:00:02",
            "2020-01-01 00:00:02ab\n",
        )])),
    );
}

#[test]
fn test_find_sysline_at_datetime_filter_checks_x_c() {
    _test_find_sysline_at_datetime_filter(
        64,
        Some(_test_find_sysline_at_datetime_filter_Checks::from([(
            62,
            "2020-01-01 00:00:03",
            "2020-01-01 00:00:03abc\n",
        )])),
    );
}

#[test]
fn test_find_sysline_at_datetime_filter_checks_x_d() {
    _test_find_sysline_at_datetime_filter(
        64,
        Some(_test_find_sysline_at_datetime_filter_Checks::from([(
            85,
            "2020-01-01 00:00:04",
            "2020-01-01 00:00:04abcd\n",
        )])),
    );
}

#[test]
fn test_find_sysline_at_datetime_filter_checks_x_e() {
    _test_find_sysline_at_datetime_filter(
        64,
        Some(_test_find_sysline_at_datetime_filter_Checks::from([(
            109,
            "2020-01-01 00:00:05",
            "2020-01-01 00:00:05abcde\n",
        )])),
    );
}

#[test]
fn test_find_sysline_at_datetime_filter_checks_x_f() {
    _test_find_sysline_at_datetime_filter(
        64,
        Some(_test_find_sysline_at_datetime_filter_Checks::from([(
            134,
            "2020-01-01 00:00:06",
            "2020-01-01 00:00:06abcdef\n",
        )])),
    );
}

#[test]
fn test_find_sysline_at_datetime_filter_checks_x_g() {
    _test_find_sysline_at_datetime_filter(
        64,
        Some(_test_find_sysline_at_datetime_filter_Checks::from([(
            160,
            "2020-01-01 00:00:07",
            "2020-01-01 00:00:07abcdefg\n",
        )])),
    );
}

#[test]
fn test_find_sysline_at_datetime_filter_checks_x_h() {
    _test_find_sysline_at_datetime_filter(
        64,
        Some(_test_find_sysline_at_datetime_filter_Checks::from([(
            187,
            "2020-01-01 00:00:08",
            "2020-01-01 00:00:08abcdefgh\n",
        )])),
    );
}

#[test]
fn test_find_sysline_at_datetime_filter_checks_x_i() {
    _test_find_sysline_at_datetime_filter(
        64,
        Some(_test_find_sysline_at_datetime_filter_Checks::from([(
            215,
            "2020-01-01 00:00:09",
            "2020-01-01 00:00:09abcdefghi\n",
        )])),
    );
}

#[test]
fn test_find_sysline_at_datetime_filter_checks_x_j() {
    _test_find_sysline_at_datetime_filter(
        64,
        Some(_test_find_sysline_at_datetime_filter_Checks::from([(
            244,
            "2020-01-01 00:00:10",
            "2020-01-01 00:00:10abcdefghij\n",
        )])),
    );
}

#[test]
fn test_find_sysline_at_datetime_filter_checks_x_k() {
    _test_find_sysline_at_datetime_filter(
        64,
        Some(_test_find_sysline_at_datetime_filter_Checks::from([(
            274,
            "2020-01-01 00:00:11",
            "2020-01-01 00:00:11abcdefghijk\n",
        )])),
    );
}

#[test]
fn test_find_sysline_at_datetime_filter_checks_x_l() {
    _test_find_sysline_at_datetime_filter(
        64,
        Some(_test_find_sysline_at_datetime_filter_Checks::from([(
            305,
            "2020-01-01 00:00:12",
            "2020-01-01 00:00:12abcdefghijkl\n",
        )])),
    );
}

#[test]
fn test_find_sysline_at_datetime_filter_checks_x_m() {
    _test_find_sysline_at_datetime_filter(
        64,
        Some(_test_find_sysline_at_datetime_filter_Checks::from([(
            337,
            "2020-01-01 00:00:13",
            "2020-01-01 00:00:13abcdefghijklm\n",
        )])),
    );
}

#[test]
fn test_find_sysline_at_datetime_filter_checks_x_n() {
    _test_find_sysline_at_datetime_filter(
        64,
        Some(_test_find_sysline_at_datetime_filter_Checks::from([(
            370,
            "2020-01-01 00:00:14",
            "2020-01-01 00:00:14abcdefghijklmn\n",
        )])),
    );
}

#[test]
fn test_find_sysline_at_datetime_filter_checks_x_o() {
    _test_find_sysline_at_datetime_filter(
        64,
        Some(_test_find_sysline_at_datetime_filter_Checks::from([(
            404,
            "2020-01-01 00:00:15",
            "2020-01-01 00:00:15abcdefghijklmno\n",
        )])),
    );
}

#[test]
fn test_find_sysline_at_datetime_filter_checks_x_p() {
    _test_find_sysline_at_datetime_filter(
        64,
        Some(_test_find_sysline_at_datetime_filter_Checks::from([(
            439,
            "2020-01-01 00:00:16",
            "2020-01-01 00:00:16abcdefghijklmnop\n",
        )])),
    );
}

#[test]
fn test_find_sysline_at_datetime_filter_checks_x_q() {
    _test_find_sysline_at_datetime_filter(
        64,
        Some(_test_find_sysline_at_datetime_filter_Checks::from([(
            475,
            "2020-01-01 00:00:17",
            "2020-01-01 00:00:17abcdefghijklmnopq\n",
        )])),
    );
}

#[test]
fn test_find_sysline_at_datetime_filter_checks_x_r() {
    _test_find_sysline_at_datetime_filter(
        64,
        Some(_test_find_sysline_at_datetime_filter_Checks::from([(
            512,
            "2020-01-01 00:00:18",
            "2020-01-01 00:00:18abcdefghijklmnopqr\n",
        )])),
    );
}

#[test]
fn test_find_sysline_at_datetime_filter_checks_x_s() {
    _test_find_sysline_at_datetime_filter(
        64,
        Some(_test_find_sysline_at_datetime_filter_Checks::from([(
            550,
            "2020-01-01 00:00:19",
            "2020-01-01 00:00:19abcdefghijklmnopqrs\n",
        )])),
    );
}

#[test]
fn test_find_sysline_at_datetime_filter_checks_x_t() {
    _test_find_sysline_at_datetime_filter(
        64,
        Some(_test_find_sysline_at_datetime_filter_Checks::from([(
            589,
            "2020-01-01 00:00:20",
            "2020-01-01 00:00:20abcdefghijklmnopqrst\n",
        )])),
    );
}

#[test]
fn test_find_sysline_at_datetime_filter_checks_x_u() {
    _test_find_sysline_at_datetime_filter(
        64,
        Some(_test_find_sysline_at_datetime_filter_Checks::from([(
            629,
            "2020-01-01 00:00:21",
            "2020-01-01 00:00:21abcdefghijklmnopqrstu\n",
        )])),
    );
}

#[test]
fn test_find_sysline_at_datetime_filter_checks_x_v() {
    _test_find_sysline_at_datetime_filter(
        64,
        Some(_test_find_sysline_at_datetime_filter_Checks::from([(
            670,
            "2020-01-01 00:00:22",
            "2020-01-01 00:00:22abcdefghijklmnopqrstuv\n",
        )])),
    );
}

#[test]
fn test_find_sysline_at_datetime_filter_checks_x_w() {
    _test_find_sysline_at_datetime_filter(
        64,
        Some(_test_find_sysline_at_datetime_filter_Checks::from([(
            712,
            "2020-01-01 00:00:23",
            "2020-01-01 00:00:23abcdefghijklmnopqrstuvw\n",
        )])),
    );
}

#[test]
fn test_find_sysline_at_datetime_filter_checks_x_x() {
    _test_find_sysline_at_datetime_filter(
        64,
        Some(_test_find_sysline_at_datetime_filter_Checks::from([(
            755,
            "2020-01-01 00:00:24",
            "2020-01-01 00:00:24abcdefghijklmnopqrstuvwx\n",
        )])),
    );
}

#[test]
fn test_find_sysline_at_datetime_filter_checks_x_y() {
    _test_find_sysline_at_datetime_filter(
        64,
        Some(_test_find_sysline_at_datetime_filter_Checks::from([(
            799,
            "2020-01-01 00:00:25",
            "2020-01-01 00:00:25abcdefghijklmnopqrstuvwxy\n",
        )])),
    );
}

#[test]
fn test_find_sysline_at_datetime_filter_checks_x_z() {
    _test_find_sysline_at_datetime_filter(
        64,
        Some(_test_find_sysline_at_datetime_filter_Checks::from([(
            844,
            "2020-01-01 00:00:26",
            "2020-01-01 00:00:26abcdefghijklmnopqrstuvwxyz\n",
        )])),
    );
}

#[test]
fn test_find_sysline_at_datetime_filter_checks_2_z_() {
    _test_find_sysline_at_datetime_filter(
        64,
        Some(_test_find_sysline_at_datetime_filter_Checks::from([
            (0, "2020-01-01 00:00:26", "2020-01-01 00:00:26abcdefghijklmnopqrstuvwxyz\n"),
            (0, "2020-01-01 00:00:00", "2020-01-01 00:00:00\n"),
        ])),
    );
}

#[test]
fn test_find_sysline_at_datetime_filter_checks_2_y_() {
    _test_find_sysline_at_datetime_filter(
        64,
        Some(_test_find_sysline_at_datetime_filter_Checks::from([
            (0, "2020-01-01 00:00:25", "2020-01-01 00:00:25abcdefghijklmnopqrstuvwxy\n"),
            (0, "2020-01-01 00:00:00", "2020-01-01 00:00:00\n"),
        ])),
    );
}

#[test]
fn test_find_sysline_at_datetime_filter_checks_2_x_() {
    _test_find_sysline_at_datetime_filter(
        64,
        Some(_test_find_sysline_at_datetime_filter_Checks::from([
            (0, "2020-01-01 00:00:24", "2020-01-01 00:00:24abcdefghijklmnopqrstuvwx\n"),
            (0, "2020-01-01 00:00:00", "2020-01-01 00:00:00\n"),
        ])),
    );
}

#[test]
fn test_find_sysline_at_datetime_filter_checks_2_m_() {
    _test_find_sysline_at_datetime_filter(
        64,
        Some(_test_find_sysline_at_datetime_filter_Checks::from([
            (0, "2020-01-01 00:00:13", "2020-01-01 00:00:13abcdefghijklm\n"),
            (0, "2020-01-01 00:00:00", "2020-01-01 00:00:00\n"),
        ])),
    );
}

#[test]
fn test_find_sysline_at_datetime_filter_checks_2_za() {
    _test_find_sysline_at_datetime_filter(
        64,
        Some(_test_find_sysline_at_datetime_filter_Checks::from([
            (0, "2020-01-01 00:00:26", "2020-01-01 00:00:26abcdefghijklmnopqrstuvwxyz\n"),
            (0, "2020-01-01 00:00:01", "2020-01-01 00:00:01a\n"),
        ])),
    );
}

#[test]
fn test_find_sysline_at_datetime_filter_checks_2_ya() {
    _test_find_sysline_at_datetime_filter(
        64,
        Some(_test_find_sysline_at_datetime_filter_Checks::from([
            (0, "2020-01-01 00:00:25", "2020-01-01 00:00:25abcdefghijklmnopqrstuvwxy\n"),
            (0, "2020-01-01 00:00:01", "2020-01-01 00:00:01a\n"),
        ])),
    );
}

#[test]
fn test_find_sysline_at_datetime_filter_checks_2_xa() {
    _test_find_sysline_at_datetime_filter(
        64,
        Some(_test_find_sysline_at_datetime_filter_Checks::from([
            (0, "2020-01-01 00:00:24", "2020-01-01 00:00:24abcdefghijklmnopqrstuvwx\n"),
            (0, "2020-01-01 00:00:01", "2020-01-01 00:00:01a\n"),
        ])),
    );
}

#[test]
fn test_find_sysline_at_datetime_filter_checks_2_ma() {
    _test_find_sysline_at_datetime_filter(
        64,
        Some(_test_find_sysline_at_datetime_filter_Checks::from([
            (0, "2020-01-01 00:00:13", "2020-01-01 00:00:13abcdefghijklm\n"),
            (0, "2020-01-01 00:00:01", "2020-01-01 00:00:01a\n"),
        ])),
    );
}

#[test]
fn test_find_sysline_at_datetime_filter_checks_3____() {
    _test_find_sysline_at_datetime_filter(
        64,
        Some(_test_find_sysline_at_datetime_filter_Checks::from([
            (0, "2020-01-01 00:00:00", "2020-01-01 00:00:00\n"),
            (0, "2020-01-01 00:00:00", "2020-01-01 00:00:00\n"),
            (0, "2020-01-01 00:00:00", "2020-01-01 00:00:00\n"),
        ])),
    );
}

#[test]
fn test_find_sysline_at_datetime_filter_checks_3__ab() {
    _test_find_sysline_at_datetime_filter(
        64,
        Some(_test_find_sysline_at_datetime_filter_Checks::from([
            (0, "2020-01-01 00:00:00", "2020-01-01 00:00:00\n"),
            (0, "2020-01-01 00:00:01", "2020-01-01 00:00:01a\n"),
            (0, "2020-01-01 00:00:02", "2020-01-01 00:00:02ab\n"),
        ])),
    );
}

#[test]
fn test_find_sysline_at_datetime_filter_checks_3__az() {
    _test_find_sysline_at_datetime_filter(
        64,
        Some(_test_find_sysline_at_datetime_filter_Checks::from([
            (0, "2020-01-01 00:00:00", "2020-01-01 00:00:00\n"),
            (0, "2020-01-01 00:00:01", "2020-01-01 00:00:01a\n"),
            (0, "2020-01-01 00:00:26", "2020-01-01 00:00:26abcdefghijklmnopqrstuvwxyz\n"),
        ])),
    );
}

#[test]
fn test_find_sysline_at_datetime_filter_checks_3__bd() {
    _test_find_sysline_at_datetime_filter(
        64,
        Some(_test_find_sysline_at_datetime_filter_Checks::from([
            (0, "2020-01-01 00:00:00", "2020-01-01 00:00:00\n"),
            (0, "2020-01-01 00:00:02", "2020-01-01 00:00:02ab\n"),
            (0, "2020-01-01 00:00:04", "2020-01-01 00:00:04abcd\n"),
        ])),
    );
}

#[test]
fn test_find_sysline_at_datetime_filter_checks_3__ml() {
    _test_find_sysline_at_datetime_filter(
        64,
        Some(_test_find_sysline_at_datetime_filter_Checks::from([
            (0, "2020-01-01 00:00:00", "2020-01-01 00:00:00\n"),
            (0, "2020-01-01 00:00:13", "2020-01-01 00:00:13abcdefghijklm\n"),
            (0, "2020-01-01 00:00:12", "2020-01-01 00:00:12abcdefghijkl\n"),
        ])),
    );
}

#[test]
fn test_find_sysline_at_datetime_filter_checks_3__my() {
    _test_find_sysline_at_datetime_filter(
        64,
        Some(_test_find_sysline_at_datetime_filter_Checks::from([
            (0, "2020-01-01 00:00:00", "2020-01-01 00:00:00\n"),
            (0, "2020-01-01 00:00:13", "2020-01-01 00:00:13abcdefghijklm\n"),
            (0, "2020-01-01 00:00:25", "2020-01-01 00:00:25abcdefghijklmnopqrstuvwxy\n"),
        ])),
    );
}

#[test]
fn test_find_sysline_at_datetime_filter_checks_3__mz() {
    _test_find_sysline_at_datetime_filter(
        64,
        Some(_test_find_sysline_at_datetime_filter_Checks::from([
            (0, "2020-01-01 00:00:00", "2020-01-01 00:00:00\n"),
            (0, "2020-01-01 00:00:13", "2020-01-01 00:00:13abcdefghijklm\n"),
            (0, "2020-01-01 00:00:26", "2020-01-01 00:00:26abcdefghijklmnopqrstuvwxyz\n"),
        ])),
    );
}

#[test]
fn test_find_sysline_at_datetime_filter_checks_3__m_() {
    _test_find_sysline_at_datetime_filter(
        64,
        Some(_test_find_sysline_at_datetime_filter_Checks::from([
            (0, "2020-01-01 00:00:00", "2020-01-01 00:00:00\n"),
            (0, "2020-01-01 00:00:13", "2020-01-01 00:00:13abcdefghijklm\n"),
            (0, "2020-01-01 00:00:00", "2020-01-01 00:00:00\n"),
        ])),
    );
}

#[test]
fn test_find_sysline_at_datetime_filter_checks_3_aaa() {
    _test_find_sysline_at_datetime_filter(
        64,
        Some(_test_find_sysline_at_datetime_filter_Checks::from([
            (0, "2020-01-01 00:00:01", "2020-01-01 00:00:01a\n"),
            (0, "2020-01-01 00:00:01", "2020-01-01 00:00:01a\n"),
            (0, "2020-01-01 00:00:01", "2020-01-01 00:00:01a\n"),
        ])),
    );
}

#[test]
fn test_find_sysline_at_datetime_filter_checks_3_abc() {
    _test_find_sysline_at_datetime_filter(
        64,
        Some(_test_find_sysline_at_datetime_filter_Checks::from([
            (0, "2020-01-01 00:00:01", "2020-01-01 00:00:01a\n"),
            (0, "2020-01-01 00:00:02", "2020-01-01 00:00:02ab\n"),
            (0, "2020-01-01 00:00:03", "2020-01-01 00:00:03abc\n"),
        ])),
    );
}

#[test]
fn test_find_sysline_at_datetime_filter_checks_3_aba() {
    _test_find_sysline_at_datetime_filter(
        64,
        Some(_test_find_sysline_at_datetime_filter_Checks::from([
            (0, "2020-01-01 00:00:01", "2020-01-01 00:00:01a\n"),
            (0, "2020-01-01 00:00:02", "2020-01-01 00:00:02ab\n"),
            (0, "2020-01-01 00:00:01", "2020-01-01 00:00:01a\n"),
        ])),
    );
}

#[test]
fn test_find_sysline_at_datetime_filter_checks_3_abn() {
    _test_find_sysline_at_datetime_filter(
        64,
        Some(_test_find_sysline_at_datetime_filter_Checks::from([
            (0, "2020-01-01 00:00:01", "2020-01-01 00:00:01a\n"),
            (0, "2020-01-01 00:00:02", "2020-01-01 00:00:02ab\n"),
            (0, "2020-01-01 00:00:14", "2020-01-01 00:00:14abcdefghijklmn\n"),
        ])),
    );
}

#[test]
fn test_find_sysline_at_datetime_filter_checks_3_aby() {
    _test_find_sysline_at_datetime_filter(
        64,
        Some(_test_find_sysline_at_datetime_filter_Checks::from([
            (0, "2020-01-01 00:00:01", "2020-01-01 00:00:01a\n"),
            (0, "2020-01-01 00:00:02", "2020-01-01 00:00:02ab\n"),
            (0, "2020-01-01 00:00:25", "2020-01-01 00:00:25abcdefghijklmnopqrstuvwxy\n"),
        ])),
    );
}

#[test]
fn test_find_sysline_at_datetime_filter_checks_3_abz() {
    _test_find_sysline_at_datetime_filter(
        64,
        Some(_test_find_sysline_at_datetime_filter_Checks::from([
            (0, "2020-01-01 00:00:01", "2020-01-01 00:00:01a\n"),
            (0, "2020-01-01 00:00:02", "2020-01-01 00:00:02ab\n"),
            (0, "2020-01-01 00:00:26", "2020-01-01 00:00:26abcdefghijklmnopqrstuvwxyz\n"),
        ])),
    );
}

#[test]
fn test_find_sysline_at_datetime_filter_checks_3_aaz() {
    _test_find_sysline_at_datetime_filter(
        64,
        Some(_test_find_sysline_at_datetime_filter_Checks::from([
            (0, "2020-01-01 00:00:01", "2020-01-01 00:00:01a\n"),
            (0, "2020-01-01 00:00:01", "2020-01-01 00:00:01a\n"),
            (0, "2020-01-01 00:00:26", "2020-01-01 00:00:26abcdefghijklmnopqrstuvwxyz\n"),
        ])),
    );
}

#[test]
fn test_find_sysline_at_datetime_filter_checks_3_byo() {
    _test_find_sysline_at_datetime_filter(
        64,
        Some(_test_find_sysline_at_datetime_filter_Checks::from([
            (0, "2020-01-01 00:00:02", "2020-01-01 00:00:02ab\n"),
            (0, "2020-01-01 00:00:25", "2020-01-01 00:00:25abcdefghijklmnopqrstuvwxy\n"),
            (0, "2020-01-01 00:00:15", "2020-01-01 00:00:15abcdefghijklmno\n"),
        ])),
    );
}

#[test]
fn test_find_sysline_at_datetime_filter_checks_3_zaa() {
    _test_find_sysline_at_datetime_filter(
        64,
        Some(_test_find_sysline_at_datetime_filter_Checks::from([
            (0, "2020-01-01 00:00:26", "2020-01-01 00:00:26abcdefghijklmnopqrstuvwxyz\n"),
            (0, "2020-01-01 00:00:01", "2020-01-01 00:00:01a\n"),
            (0, "2020-01-01 00:00:01", "2020-01-01 00:00:01a\n"),
        ])),
    );
}

#[test]
fn test_find_sysline_at_datetime_filter_checks_3_zbc() {
    _test_find_sysline_at_datetime_filter(
        64,
        Some(_test_find_sysline_at_datetime_filter_Checks::from([
            (0, "2020-01-01 00:00:26", "2020-01-01 00:00:26abcdefghijklmnopqrstuvwxyz\n"),
            (0, "2020-01-01 00:00:02", "2020-01-01 00:00:02ab\n"),
            (0, "2020-01-01 00:00:03", "2020-01-01 00:00:03abc\n"),
        ])),
    );
}

#[test]
fn test_find_sysline_at_datetime_filter_checks_3_zba() {
    _test_find_sysline_at_datetime_filter(
        64,
        Some(_test_find_sysline_at_datetime_filter_Checks::from([
            (0, "2020-01-01 00:00:26", "2020-01-01 00:00:26abcdefghijklmnopqrstuvwxyz\n"),
            (0, "2020-01-01 00:00:02", "2020-01-01 00:00:02ab\n"),
            (0, "2020-01-01 00:00:01", "2020-01-01 00:00:01a\n"),
        ])),
    );
}

#[test]
fn test_find_sysline_at_datetime_filter_checks_3_zbn() {
    _test_find_sysline_at_datetime_filter(
        64,
        Some(_test_find_sysline_at_datetime_filter_Checks::from([
            (0, "2020-01-01 00:00:26", "2020-01-01 00:00:26abcdefghijklmnopqrstuvwxyz\n"),
            (0, "2020-01-01 00:00:02", "2020-01-01 00:00:02ab\n"),
            (0, "2020-01-01 00:00:14", "2020-01-01 00:00:14abcdefghijklmn\n"),
        ])),
    );
}

#[test]
fn test_find_sysline_at_datetime_filter_checks_3_zby() {
    _test_find_sysline_at_datetime_filter(
        64,
        Some(_test_find_sysline_at_datetime_filter_Checks::from([
            (0, "2020-01-01 00:00:26", "2020-01-01 00:00:26abcdefghijklmnopqrstuvwxyz\n"),
            (0, "2020-01-01 00:00:02", "2020-01-01 00:00:02ab\n"),
            (0, "2020-01-01 00:00:25", "2020-01-01 00:00:25abcdefghijklmnopqrstuvwxy\n"),
        ])),
    );
}

#[test]
fn test_find_sysline_at_datetime_filter_checks_3_zbz() {
    _test_find_sysline_at_datetime_filter(
        64,
        Some(_test_find_sysline_at_datetime_filter_Checks::from([
            (0, "2020-01-01 00:00:26", "2020-01-01 00:00:26abcdefghijklmnopqrstuvwxyz\n"),
            (0, "2020-01-01 00:00:02", "2020-01-01 00:00:02ab\n"),
            (0, "2020-01-01 00:00:26", "2020-01-01 00:00:26abcdefghijklmnopqrstuvwxyz\n"),
        ])),
    );
}

#[test]
fn test_find_sysline_at_datetime_filter_checks_3_zaz() {
    _test_find_sysline_at_datetime_filter(
        64,
        Some(_test_find_sysline_at_datetime_filter_Checks::from([
            (0, "2020-01-01 00:00:26", "2020-01-01 00:00:26abcdefghijklmnopqrstuvwxyz\n"),
            (0, "2020-01-01 00:00:01", "2020-01-01 00:00:01a\n"),
            (0, "2020-01-01 00:00:26", "2020-01-01 00:00:26abcdefghijklmnopqrstuvwxyz\n"),
        ])),
    );
}

#[test]
fn test_find_sysline_at_datetime_filter_checks_3_yaa() {
    _test_find_sysline_at_datetime_filter(
        64,
        Some(_test_find_sysline_at_datetime_filter_Checks::from([
            (0, "2020-01-01 00:00:25", "2020-01-01 00:00:25abcdefghijklmnopqrstuvwxy\n"),
            (0, "2020-01-01 00:00:01", "2020-01-01 00:00:01a\n"),
            (0, "2020-01-01 00:00:01", "2020-01-01 00:00:01a\n"),
        ])),
    );
}

#[test]
fn test_find_sysline_at_datetime_filter_checks_3_ybc() {
    _test_find_sysline_at_datetime_filter(
        64,
        Some(_test_find_sysline_at_datetime_filter_Checks::from([
            (0, "2020-01-01 00:00:25", "2020-01-01 00:00:25abcdefghijklmnopqrstuvwxy\n"),
            (0, "2020-01-01 00:00:02", "2020-01-01 00:00:02ab\n"),
            (0, "2020-01-01 00:00:03", "2020-01-01 00:00:03abc\n"),
        ])),
    );
}

#[test]
fn test_find_sysline_at_datetime_filter_checks_3_yba() {
    _test_find_sysline_at_datetime_filter(
        64,
        Some(_test_find_sysline_at_datetime_filter_Checks::from([
            (0, "2020-01-01 00:00:25", "2020-01-01 00:00:25abcdefghijklmnopqrstuvwxy\n"),
            (0, "2020-01-01 00:00:02", "2020-01-01 00:00:02ab\n"),
            (0, "2020-01-01 00:00:01", "2020-01-01 00:00:01a\n"),
        ])),
    );
}

#[test]
fn test_find_sysline_at_datetime_filter_checks_3_ybn() {
    _test_find_sysline_at_datetime_filter(
        64,
        Some(_test_find_sysline_at_datetime_filter_Checks::from([
            (0, "2020-01-01 00:00:25", "2020-01-01 00:00:25abcdefghijklmnopqrstuvwxy\n"),
            (0, "2020-01-01 00:00:02", "2020-01-01 00:00:02ab\n"),
            (0, "2020-01-01 00:00:14", "2020-01-01 00:00:14abcdefghijklmn\n"),
        ])),
    );
}

#[test]
fn test_find_sysline_at_datetime_filter_checks_3_yby() {
    _test_find_sysline_at_datetime_filter(
        64,
        Some(_test_find_sysline_at_datetime_filter_Checks::from([
            (0, "2020-01-01 00:00:25", "2020-01-01 00:00:25abcdefghijklmnopqrstuvwxy\n"),
            (0, "2020-01-01 00:00:02", "2020-01-01 00:00:02ab\n"),
            (0, "2020-01-01 00:00:25", "2020-01-01 00:00:25abcdefghijklmnopqrstuvwxy\n"),
        ])),
    );
}

#[test]
fn test_find_sysline_at_datetime_filter_checks_3_ybz() {
    _test_find_sysline_at_datetime_filter(
        64,
        Some(_test_find_sysline_at_datetime_filter_Checks::from([
            (0, "2020-01-01 00:00:25", "2020-01-01 00:00:25abcdefghijklmnopqrstuvwxy\n"),
            (0, "2020-01-01 00:00:02", "2020-01-01 00:00:02ab\n"),
            (0, "2020-01-01 00:00:26", "2020-01-01 00:00:26abcdefghijklmnopqrstuvwxyz\n"),
        ])),
    );
}

#[test]
fn test_find_sysline_at_datetime_filter_checks_3_yaz() {
    _test_find_sysline_at_datetime_filter(
        64,
        Some(_test_find_sysline_at_datetime_filter_Checks::from([
            (0, "2020-01-01 00:00:25", "2020-01-01 00:00:25abcdefghijklmnopqrstuvwxy\n"),
            (0, "2020-01-01 00:00:01", "2020-01-01 00:00:01a\n"),
            (0, "2020-01-01 00:00:26", "2020-01-01 00:00:26abcdefghijklmnopqrstuvwxyz\n"),
        ])),
    );
}

// ━━━━━━━━━━━━━━━━━━━━━━━━━━━━━━━━━━━━━━━━━━━━━━━━━━━━━━━━━━━━━━━━━━━━━━━━━━━━━━━━━━━━━━━━━━━━━━━━━

// -------------------------------------------------------------------------------------------------

type _test_SyslineReader_checks<'a> = Vec<(&'a str, FileOffset)>;

/// Calls `find_sysline` from `fileoffset` on, comparing each sysline found to `checks`.
fn test_SyslineReader_find_sysline(
    data: &[u8],
    blocksz: BlockSz,
    fileoffset: FileOffset,
    checks: &_test_SyslineReader_checks,
) {
    let tzo = tz_west(8);
    let mut slr = new_SyslineReader(data, blocksz, tzo);
    let mut fo1: FileOffset = fileoffset;
    let mut check_i: usize = 0;
    loop {
        let result = slr.find_sysline(fo1);
        let done = result.is_done() || result.is_eof();
        match result {
            ResultS4::Found((fo, slp)) => {
                assert!(!slr.is_sysline_last(&slp), "returned Found yet this Sysline is last!");
                fo1 = fo;
                if checks.is_empty() {
                    continue;
                }
                let check_String = checks[check_i].0.to_string();
                let actual_String = (*slp).to_String();
                assert_eq!(check_String, actual_String, "\nexpected string value {:?}\nfind_sysline({:?}) returned {:?}", check_String, fo1, actual_String);
                let check_fo = checks[check_i].1;
                assert_eq!(check_fo, fo, "expected fileoffset {}, but find_sysline returned fileoffset {} for check {}", check_fo, fo, check_i);
            }
            ResultS4::Found_EOF((fo, slp)) => {
                assert!(slr.is_sysline_last(&slp), "returned Found_EOF yet this Sysline is not last!");
                fo1 = fo;
                if checks.is_empty() {
                    continue;
                }
                let check_String = checks[check_i].0.to_string();
                let actual_String = (*slp).to_String();
                assert_eq!(check_String, actual_String, "\nexpected string value {:?}\nfind_sysline({:2}) returned {:?}\n", check_String, fo1, actual_String);
                let check_fo = checks[check_i].1;
                assert_eq!(check_fo, fo, "expected fileoffset {}, but find_sysline returned fileoffset {} for check {}", check_fo, fo, check_i);
            }
            ResultS4::Done => {
                break;
            }
            ResultS4::Error(err) => {
                panic!("ERROR: {:?}", err);
            }
        }
        check_i += 1;
        if done {
            break;
        }
    }
    assert_eq!(checks.len(), check_i, "expected {} Sysline checks but only {} Sysline checks were done", checks.len(), check_i);
}

const test_data_file_A_dt6: &str = "\
2000-01-01 00:00:00
2000-01-01 00:00:01a
2000-01-01 00:00:02ab
2000-01-01 00:00:03abc
2000-01-01 00:00:04abcd
2000-01-01 00:00:05abcde";

const test_data_file_A_dt6_checks: [(&str, FileOffset); 6] = [
    ("2000-01-01 00:00:00\n", 20),
    ("2000-01-01 00:00:01a\n", 41),
    ("2000-01-01 00:00:02ab\n", 63),
    ("2000-01-01 00:00:03abc\n", 86),
    ("2000-01-01 00:00:04abcd\n", 110),
    ("2000-01-01 00:00:05abcde", 134),
];

#[test]
fn test_SyslineReader_A_dt6_128_0_() {
    let checks = _test_SyslineReader_checks::from(test_data_file_A_dt6_checks);
    test_SyslineReader_find_sysline(test_data_file_A_dt6.as_bytes(), 128, 0, &checks);
}

#[test]
fn test_SyslineReader_A_dt6_128_1_() {
    let checks = _test_SyslineReader_checks::from(&test_data_file_A_dt6_checks[1..]);
    test_SyslineReader_find_sysline(test_data_file_A_dt6.as_bytes(), 128, 40, &checks);
}

#[test]
fn test_SyslineReader_A_dt6_128_2_() {
    let checks = _test_SyslineReader_checks::from(&test_data_file_A_dt6_checks[2..]);
    test_SyslineReader_find_sysline(test_data_file_A_dt6.as_bytes(), 128, 62, &checks);
}

#[test]
fn test_SyslineReader_A_dt6_128_3_() {
    let checks = _test_SyslineReader_checks::from(&test_data_file_A_dt6_checks[3..]);
    test_SyslineReader_find_sysline(test_data_file_A_dt6.as_bytes(), 128, 85, &checks);
}

#[test]
fn test_SyslineReader_A_dt6_128_4_() {
    let checks = _test_SyslineReader_checks::from(&test_data_file_A_dt6_checks[4..]);
    test_SyslineReader_find_sysline(test_data_file_A_dt6.as_bytes(), 128, 86, &checks);
}

#[test]
fn test_SyslineReader_A_dt6_128_X_beforeend() {
    let checks = _test_SyslineReader_checks::from([]);
    test_SyslineReader_find_sysline(test_data_file_A_dt6.as_bytes(), 128, 132, &checks);
}

#[test]
fn test_SyslineReader_A_dt6_128_X_pastend() {
    let checks = _test_SyslineReader_checks::from([]);
    test_SyslineReader_find_sysline(test_data_file_A_dt6.as_bytes(), 128, 135, &checks);
}

#[test]
fn test_SyslineReader_A_dt6_128_X9999() {
    let checks = _test_SyslineReader_checks::from([]);
    test_SyslineReader_find_sysline(test_data_file_A_dt6.as_bytes(), 128, 9999, &checks);
}

// -------------------------------------------------------------------------------------------------

/// The kind of result expected of `find_sysline`.
#[derive(Clone, Copy, Debug)]
enum Expect {
    Found,
    Found_EOF,
    Done,
}

fn assert_results4(fo: &FileOffset, result_expect: &Expect, result_actual: &ResultS4_SyslineFind) {
    match result_expect {
        Expect::Found => {
            assert!(matches!(result_actual, ResultS4::Found(_)), "Expected Found for find_sysline({})", fo);
        }
        Expect::Found_EOF => {
            assert!(matches!(result_actual, ResultS4::Found_EOF(_)), "Expected Found_EOF for find_sysline({})", fo);
        }
        Expect::Done => {
            assert!(matches!(result_actual, ResultS4::Done), "Expected Done for find_sysline({})", fo);
        }
    }
}

type _test_SyslineReader_any_input_check<'a> = (FileOffset, Expect, &'a str);

fn test_SyslineReader_A2_any_input_check(
    data: &[u8],
    blocksz: BlockSz,
    lru_cache_enable: bool,
    input_checks: &[_test_SyslineReader_any_input_check],
) {
    let tzo = tz_west(8);
    let mut slr = new_SyslineReader(data, blocksz, tzo);
    if lru_cache_enable {
        slr.LRU_cache_disable();
    }
    let mut check_i: usize = 0;
    for (input_fo, expect_result, expect_val) in input_checks.iter() {
        let result = slr.find_sysline(*input_fo);
        assert_results4(input_fo, expect_result, &result);
        match result {
            ResultS4::Found((_fo, slp)) => {
                assert!(!slr.is_sysline_last(&slp), "returned Found yet this Sysline is last!");
                let actual_String = (*slp).to_String();
                let expect_String = String::from(*expect_val);
                assert_eq!(expect_String, actual_String, "\nexpected string value {:?}\nfind_sysline({:?}) returned {:?}", expect_String, input_fo, actual_String);
            }
            ResultS4::Found_EOF((_fo, slp)) => {
                assert!(slr.is_sysline_last(&slp), "returned Found_EOF yet this Sysline is not last!");
                let actual_String = (*slp).to_String();
                let expect_String = String::from(*expect_val);
                assert_eq!(expect_String, actual_String, "\nexpected string value {:?}\nfind_sysline({:?}) returned {:?}", expect_String, input_fo, actual_String);
            }
            ResultS4::Done => {}
            ResultS4::Error(err) => {
                panic!("ERROR: {:?}", err);
            }
        }
        check_i += 1;
    }
    assert_eq!(input_checks.len(), check_i, "expected {} Sysline checks but only {} Sysline checks were done", input_checks.len(), check_i);
}

const test_data_any_file_A2_dt6: &str = "\
2000-01-01 00:00:00
2000-01-01 00:00:01a
2000-01-01 00:00:02ab
2000-01-01 00:00:03abc
2000-01-01 00:00:04abcd
2000-01-01 00:00:05abcde";

const test_data_any_file_A2_dt6_checks_many: [_test_SyslineReader_any_input_check; 50] = [
    (0, Expect::Found, "2000-01-01 00:00:00\n"),
    (1, Expect::Found, "2000-01-01 00:00:00\n"),
    (2, Expect::Found, "2000-01-01 00:00:00\n"),
    (3, Expect::Found, "2000-01-01 00:00:00\n"),
    (4, Expect::Found, "2000-01-01 00:00:00\n"),
    (5, Expect::Found, "2000-01-01 00:00:00\n"),
    (6, Expect::Found, "2000-01-01 00:00:00\n"),
    (19, Expect::Found, "2000-01-01 00:00:00\n"),
    (20, Expect::Found, "2000-01-01 00:00:01a\n"),
    (21, Expect::Found, "2000-01-01 00:00:01a\n"),
    (22, Expect::Found, "2000-01-01 00:00:01a\n"),
    (23, Expect::Found, "2000-01-01 00:00:01a\n"),
    (24, Expect::Found, "2000-01-01 00:00:01a\n"),
    (25, Expect::Found, "2000-01-01 00:00:01a\n"),
    (40, Expect::Found, "2000-01-01 00:00:01a\n"),
    (41, Expect::Found, "2000-01-01 00:00:02ab\n"),
    (42, Expect::Found, "2000-01-01 00:00:02ab\n"),
    (43, Expect::Found, "2000-01-01 00:00:02ab\n"),
    (44, Expect::Found, "2000-01-01 00:00:02ab\n"),
    (45, Expect::Found, "2000-01-01 00:00:02ab\n"),
    (46, Expect::Found, "2000-01-01 00:00:02ab\n"),
    (47, Expect::Found, "2000-01-01 00:00:02ab\n"),
    (61, Expect::Found, "2000-01-01 00:00:02ab\n"),
    (62, Expect::Found, "2000-01-01 00:00:02ab\n"),
    (63, Expect::Found, "2000-01-01 00:00:03abc\n"),
    (64, Expect::Found, "2000-01-01 00:00:03abc\n"),
    (65, Expect::Found, "2000-01-01 00:00:03abc\n"),
    (66, Expect::Found, "2000-01-01 00:00:03abc\n"),
    (67, Expect::Found, "2000-01-01 00:00:03abc\n"),
    (84, Expect::Found, "2000-01-01 00:00:03abc\n"),
    (85, Expect::Found, "2000-01-01 00:00:03abc\n"),
    (86, Expect::Found, "2000-01-01 00:00:04abcd\n"),
    (87, Expect::Found, "2000-01-01 00:00:04abcd\n"),
    (88, Expect::Found, "2000-01-01 00:00:04abcd\n"),
    (89, Expect::Found, "2000-01-01 00:00:04abcd\n"),
    (90, Expect::Found, "2000-01-01 00:00:04abcd\n"),
    (108, Expect::Found, "2000-01-01 00:00:04abcd\n"),
    (109, Expect::Found, "2000-01-01 00:00:04abcd\n"),
    (110, Expect::Found_EOF, "2000-01-01 00:00:05abcde"),
    (111, Expect::Found_EOF, "2000-01-01 00:00:05abcde"),
    (112, Expect::Found_EOF, "2000-01-01 00:00:05abcde"),
    (113, Expect::Found_EOF, "2000-01-01 00:00:05abcde"),
    (114, Expect::Found_EOF, "2000-01-01 00:00:05abcde"),
    (134, Expect::Done, ""),
    (135, Expect::Done, ""),
    (136, Expect::Done, ""),
    (137, Expect::Done, ""),
    (138, Expect::Done, ""),
    (139, Expect::Done, ""),
    (140, Expect::Done, ""),
];

#[test]
fn test_SyslineReader_A2_dt6_any_2() {
    test_SyslineReader_A2_any_input_check(test_data_any_file_A2_dt6.as_bytes(), 2, true, &test_data_any_file_A2_dt6_checks_many);
}

#[test]
fn test_SyslineReader_A2_dt6_any_2_noLRUcache() {
    test_SyslineReader_A2_any_input_check(test_data_any_file_A2_dt6.as_bytes(), 2, false, &test_data_any_file_A2_dt6_checks_many);
}

#[test]
fn test_SyslineReader_A2_dt6_any_4() {
    test_SyslineReader_A2_any_input_check(test_data_any_file_A2_dt6.as_bytes(), 4, true, &test_data_any_file_A2_dt6_checks_many);
}

#[test]
fn test_SyslineReader_A2_dt6_any_4_noLRUcache() {
    test_SyslineReader_A2_any_input_check(test_data_any_file_A2_dt6.as_bytes(), 4, false, &test_data_any_file_A2_dt6_checks_many);
}

#[test]
fn test_SyslineReader_A2_dt6_any_0xFF() {
    test_SyslineReader_A2_any_input_check(test_data_any_file_A2_dt6.as_bytes(), 0xFF, true, &test_data_any_file_A2_dt6_checks_many);
}

#[test]
fn test_SyslineReader_A2_dt6_any_0xFF_noLRUcache() {
    test_SyslineReader_A2_any_input_check(test_data_any_file_A2_dt6.as_bytes(), 0xFF, false, &test_data_any_file_A2_dt6_checks_many);
}

// -------------------------------------------------------------------------------------------------

const test_data_file_B_dt0: &str = "
foo
bar
";

#[test]
fn test_SyslineReader_B_dt0_0() {
    let checks = _test_SyslineReader_checks::from([]);
    test_SyslineReader_find_sysline(test_data_file_B_dt0.as_bytes(), 128, 0, &checks);
}

#[test]
fn test_SyslineReader_B_dt0_3() {
    let checks = _test_SyslineReader_checks::from([]);
    test_SyslineReader_find_sysline(test_data_file_B_dt0.as_bytes(), 128, 3, &checks);
}

// -------------------------------------------------------------------------------------------------

const _test_data_file_C_dt6: &str = "\
[DEBUG] 2000-01-01 00:00:00
[DEBUG] 2000-01-01 00:00:01a
[DEBUG] 2000-01-01 00:00:02ab
[DEBUG] 2000-01-01 00:00:03abc
[DEBUG] 2000-01-01 00:00:04abcd
[DEBUG] 2000-01-01 00:00:05abcde";

const _test_data_file_C_dt6_checks: [(&str, FileOffset); 6] = [
    ("[DEBUG] 2000-01-01 00:00:00\n", 28),
    ("[DEBUG] 2000-01-01 00:00:01a\n", 57),
    ("[DEBUG] 2000-01-01 00:00:02ab\n", 87),
    ("[DEBUG] 2000-01-01 00:00:03abc\n", 118),
    ("[DEBUG] 2000-01-01 00:00:04abcd\n", 150),
    ("[DEBUG] 2000-01-01 00:00:05abcde", 182),
];

#[test]
fn test_SyslineReader_C_dt6_0() {
    let checks = _test_SyslineReader_checks::from(_test_data_file_C_dt6_checks);
    test_SyslineReader_find_sysline(_test_data_file_C_dt6.as_bytes(), 128, 0, &checks);
}

#[test]
fn test_SyslineReader_C_dt6_3() {
    let checks = _test_SyslineReader_checks::from(_test_data_file_C_dt6_checks);
    test_SyslineReader_find_sysline(_test_data_file_C_dt6.as_bytes(), 128, 3, &checks);
}

#[test]
fn test_SyslineReader_C_dt6_27() {
    let checks = _test_SyslineReader_checks::from(_test_data_file_C_dt6_checks);
    test_SyslineReader_find_sysline(_test_data_file_C_dt6.as_bytes(), 128, 27, &checks);
}

#[test]
fn test_SyslineReader_C_dt6_28_1__() {
    let checks = _test_SyslineReader_checks::from(&_test_data_file_C_dt6_checks[1..]);
    test_SyslineReader_find_sysline(_test_data_file_C_dt6.as_bytes(), 128, 28, &checks);
}

#[test]
fn test_SyslineReader_C_dt6_29_1__() {
    let checks = _test_SyslineReader_checks::from(&_test_data_file_C_dt6_checks[1..]);
    test_SyslineReader_find_sysline(_test_data_file_C_dt6.as_bytes(), 128, 29, &checks);
}

#[test]
fn test_SyslineReader_D_invalid1() {
    let data_invalid1: [u8; 1] = [0xFF];
    let date_checks1: _test_SyslineReader_checks = _test_SyslineReader_checks::from([]);
    test_SyslineReader_find_sysline(&data_invalid1, 128, 0, &date_checks1);
}

// -------------------------------------------------------------------------------------------------

type check_find_sysline_in_block = Vec<(FileOffset, Expect, String)>;

fn _test_SyslineReader_find_sysline_in_block(data: &str, checks: check_find_sysline_in_block, blocksz: BlockSz) {
    let tzo = tz_west(2);
    let mut slr = new_SyslineReader(data.as_bytes(), blocksz, tzo);
    for (fo_input, result_expect, value_expect) in checks.iter() {
        let result = slr.find_sysline_in_block(*fo_input);
        assert_results4(fo_input, result_expect, &result);
        match result {
            ResultS4::Found((_fo, slp)) | ResultS4::Found_EOF((_fo, slp)) => {
                let value_actual: String = (*slp).to_String();
                assert_eq!(value_expect, &value_actual, "find_sysline_in_block({})\nExpected {:?}\nActual {:?}", fo_input, value_expect, value_actual);
            }
            ResultS4::Done => {
                assert_eq!(value_expect, &String::from(""), "bad test check value {:?}", value_expect);
            }
            ResultS4::Error(err) => {
                panic!("ERROR: find_sysline_in_block({}) returned Error {:?}", fo_input, err);
            }
        }
    }
}

#[test]
fn test_SyslineReader_find_sysline_in_block__empty0() {
    let checks: check_find_sysline_in_block = vec![];
    _test_SyslineReader_find_sysline_in_block("", checks, 2);
}

#[test]
fn test_SyslineReader_find_sysline_in_block__empty1() {
    let checks: check_find_sysline_in_block = vec![
        (0, Expect::Done, String::from("")),
    ];
    _test_SyslineReader_find_sysline_in_block("\n", checks, 2);
}

#[test]
fn test_SyslineReader_find_sysline_in_block__empty2() {
    let checks: check_find_sysline_in_block = vec![
        (0, Expect::Done, String::from("")),
        (1, Expect::Done, String::from("")),
    ];
    _test_SyslineReader_find_sysline_in_block("\n\n", checks, 4);
}

#[test]
fn test_SyslineReader_find_sysline_in_block__empty4() {
    let checks: check_find_sysline_in_block = vec![
        (0, Expect::Done, String::from("")),
        (1, Expect::Done, String::from("")),
        (2, Expect::Done, String::from("")),
        (3, Expect::Done, String::from("")),
    ];
    _test_SyslineReader_find_sysline_in_block("\n\n\n\n", checks, 4);
}

#[test]
fn test_SyslineReader_find_sysline_in_block__1_4() {
    let checks: check_find_sysline_in_block = vec![
        (0, Expect::Done, String::from("")),
        (1, Expect::Done, String::from("")),
        (2, Expect::Done, String::from("")),
        (3, Expect::Done, String::from("")),
    ];
    _test_SyslineReader_find_sysline_in_block("2000-01-01 00:00:00\n", checks, 4);
}

#[test]
fn test_SyslineReader_find_sysline_in_block__1_FF() {
    let checks: check_find_sysline_in_block = vec![
        (0, Expect::Found_EOF, String::from("2000-01-01 00:00:00\n")),
        (1, Expect::Found_EOF, String::from("2000-01-01 00:00:00\n")),
        (2, Expect::Found_EOF, String::from("2000-01-01 00:00:00\n")),
        (3, Expect::Found_EOF, String::from("2000-01-01 00:00:00\n")),
        (19, Expect::Found_EOF, String::from("2000-01-01 00:00:00\n")),
        (20, Expect::Done, String::from("")),
    ];
    _test_SyslineReader_find_sysline_in_block("2000-01-01 00:00:00\n", checks, 0xFF);
}

// -------------------------------------------------------------------------------------------------

/// Reads every file offset, in random order, with `find_sysline`; none may fail.
fn _test_SyslineReader_rand(data: &[u8], blocksz: BlockSz) {
    let tzo8 = tz_west(8);
    let mut slr = new_SyslineReader(data, blocksz, tzo8);
    let mut offsets_rand = Vec::<FileOffset>::with_capacity(slr.filesz() as usize);
    s4lib::helpers::fill(&mut offsets_rand);
    s4lib::helpers::randomize(&mut offsets_rand);
    for fo1 in offsets_rand {
        let result = slr.find_sysline(fo1);
        if let ResultS4::Error(err) = result {
            panic!("slr.find_sysline({}) returned Err({:?})", fo1, err);
        }
    }
}

#[test]
fn test_SyslineReader_rand__zero__2() {
    _test_SyslineReader_rand(b"", 2);
}

// -------------------------------------------------------------------------------------------------

/// The instant that chrono gives, as the library's datetime.
fn dt_of(dt: chrono::DateTime<chrono::FixedOffset>) -> s4lib::datetime::DateTimeL {
    s4lib::datetime::DateTimeL {
        secs: dt.timestamp(),
        nsecs: dt.timestamp_subsec_nanos(),
        offset: dt.offset().local_minus_utc(),
    }
}

fn fixed(secs_east: i32) -> chrono::FixedOffset {
    chrono::FixedOffset::east_opt(secs_east).unwrap()
}

/// `a` and `b` are the same instant (as chrono compares datetimes).
fn same_instant(a: &s4lib::datetime::DateTimeL, b: &s4lib::datetime::DateTimeL) -> bool {
    a.secs == b.secs && a.nsecs == b.nsecs
}

#[test]
fn test_str_datetime() {
    let hour = 3600;
    let tzo8 = tz_west(8);
    let tzo5 = 3600 * 5;

    // good without timezone
    let dts1 = "2000-01-01 00:01:01";
    let p1 = "%Y-%m-%d %H:%M:%S";
    let dt1 = str_datetime(dts1, p1, false, tzo8).unwrap();
    let answer1 = dt_of(fixed(tzo8).with_ymd_and_hms(2000, 1, 1, 0, 1, 1).unwrap());
    assert!(same_instant(&dt1, &answer1));

    // good without timezone
    let dts1 = "2000-01-01 00:02:01";
    let p1 = "%Y-%m-%d %H:%M:%S";
    let dt1 = str_datetime(dts1, p1, false, tzo5).unwrap();
    let answer1 = dt_of(fixed(tzo5).with_ymd_and_hms(2000, 1, 1, 0, 2, 1).unwrap());
    assert!(same_instant(&dt1, &answer1));

    // good with timezone
    let dts2 = "2000-01-01 00:00:02 -0100";
    let p2 = "%Y-%m-%d %H:%M:%S %z";
    let dt2 = str_datetime(dts2, p2, true, tzo8).unwrap();
    let answer2 = dt_of(fixed(-hour).with_ymd_and_hms(2000, 1, 1, 0, 0, 2).unwrap());
    assert!(same_instant(&dt2, &answer2));

    // bad with timezone
    let dts3 = "2000-01-01 00:00:03 BADD";
    let p3 = "%Y-%m-%d %H:%M:%S %z";
    let dt3 = str_datetime(dts3, p3, true, tzo8);
    assert!(dt3.is_none());

    // bad without timezone
    let dts4 = "2000-01-01 00:00:XX";
    let p4 = "%Y-%m-%d %H:%M:%S";
    let dt4 = str_datetime(dts4, p4, false, tzo8);
    assert!(dt4.is_none());
}

/// The index and value of the soonest datetime, if any.
fn datetime_soonest2(vec_dt: &Vec<s4lib::datetime::DateTimeL>) -> Option<(usize, s4lib::datetime::DateTimeL)> {
    if vec_dt.is_empty() {
        return None;
    }
    let mut index: usize = 0;
    for (index_, _) in vec_dt.iter().enumerate() {
        if vec_dt[index_].lt(&vec_dt[index]) {
            index = index_;
        }
    }
    Some((index, vec_dt[index]))
}

#[test]
fn test_datetime_soonest2() {
    let vec0 = Vec::<s4lib::datetime::DateTimeL>::with_capacity(0);
    let val = datetime_soonest2(&vec0);
    assert!(val.is_none());
    let tzo = tz_west(8);

    let dt1_a = str_datetime("2001-01-01T12:00:00", "%Y-%m-%dT%H:%M:%S", false, tzo).unwrap();
    let vec1 = vec![dt1_a];
    let (i_, dt_) = datetime_soonest2(&vec1).expect("datetime_soonest2 returned None1a");
    assert_eq!(i_, 0);
    assert!(same_instant(&dt_, &dt1_a));

    let dt1_b = str_datetime("2001-01-01T12:00:00-0100", "%Y-%m-%dT%H:%M:%S%z", true, tzo).unwrap();
    let vec1 = vec![dt1_b];
    let (i_, dt_) = datetime_soonest2(&vec1).expect("datetime_soonest2 returned None1b");
    assert_eq!(i_, 0);
    assert!(same_instant(&dt_, &dt1_b));

    let dt2_a = str_datetime("2002-01-01T11:00:00", "%Y-%m-%dT%H:%M:%S", false, tzo).unwrap();
    let vec2a = vec![dt1_a, dt2_a];
    let (i_, dt_) = datetime_soonest2(&vec2a).expect("datetime_soonest2 returned None2a");
    assert_eq!(i_, 0);
    assert!(same_instant(&dt_, &dt1_a));

    let vec2b = vec![dt2_a, dt1_a];
    let (i_, dt_) = datetime_soonest2(&vec2b).expect("datetime_soonest2 returned None2b");
    assert_eq!(i_, 1);
    assert!(same_instant(&dt_, &dt1_a));

    let dt3 = str_datetime("2000-01-01T12:00:00", "%Y-%m-%dT%H:%M:%S", false, tzo).unwrap();
    let vec3a = vec![dt1_a, dt2_a, dt3];
    let (i_, dt_) = datetime_soonest2(&vec3a).expect("datetime_soonest2 returned None3a");
    assert_eq!(i_, 2);
    assert!(same_instant(&dt_, &dt3));

    let vec3b = vec![dt1_a, dt3, dt2_a];
    let (i_, dt_) = datetime_soonest2(&vec3b).expect("datetime_soonest2 returned None3b");
    assert_eq!(i_, 1);
    assert!(same_instant(&dt_, &dt3));

    let vec3c = vec![dt3, dt1_a, dt2_a];
    let (i_, dt_) = datetime_soonest2(&vec3c).expect("datetime_soonest2 returned None3c");
    assert_eq!(i_, 0);
    assert!(same_instant(&dt_, &dt3));
}

#[test]
fn test_drop_block_keeps_syslines_after_block() {
    let data = "\
2000-01-01 00:00:01 a
2000-01-01 00:00:02 b
2000-01-01 00:00:03 c
2000-01-01 00:00:04 d
";
    let mut slr = new_SyslineReader(data.as_bytes(), 64, 0);
    let mut fo: FileOffset = 0;
    loop {
        match slr.find_sysline(fo) {
            ResultS4::Found((n, _)) => fo = n,
            _ => break,
        }
    }
    assert_eq!(slr.count_syslines_stored(), 3);
    let mut bo_dropped = std::collections::HashSet::<u64>::new();
    slr.drop_block(0, &mut bo_dropped);
    assert_eq!(slr.count_syslines_stored(), 1);
    assert!(bo_dropped.contains(&0));
}

// -------------------------------------------------------------------------------------------------

/// Syslines ending in one newline.
const RAND_TEST0_NLX1: &str = "\
2000-01-01 00:00:00 a
2000-01-01 00:00:01 ab
2000-01-01 00:00:02 abc
2000-01-01 00:00:03 abcd
";

/// Syslines ending in one Windows newline.
const RAND_TEST0_NLX1_WIN: &str = "2000-01-01 00:00:00 a\r\n2000-01-01 00:00:01 ab\r\n2000-01-01 00:00:02 abc\r\n2000-01-01 00:00:03 abcd\r\n";

/// Syslines each followed by an empty line.
const RAND_TEST0_NLX2: &str = "\
2000-01-01 00:00:00 a

2000-01-01 00:00:01 ab

2000-01-01 00:00:02 abc

";

/// Syslines of one datetime format, one with a second line.
const RAND_BASIC_DT1: &str = "\
2000-01-01 00:00:00
2000-01-01 00:00:01a
2000-01-01 00:00:02ab
  more of it
2000-01-01 00:00:03abc
";

/// Syslines of another datetime format, six characters of message each.
const RAND_DTF5_6C: &str = "\
Jan 1 01:00:00 2000 6-3-1
Jan 1 02:00:00 2000 6-3-2
Jan 1 03:00:00 2000 6-3-3
Jan 1 04:00:00 2000 6-3-4
";

#[test]
fn test_SyslineReader_rand__test0_nlx1__2() {
    _test_SyslineReader_rand(RAND_TEST0_NLX1.as_bytes(), 2);
}

#[test]
fn test_SyslineReader_rand__test0_nlx1__4() {
    _test_SyslineReader_rand(RAND_TEST0_NLX1.as_bytes(), 4);
}

#[test]
fn test_SyslineReader_rand__test0_nlx1__8() {
    _test_SyslineReader_rand(RAND_TEST0_NLX1.as_bytes(), 8);
}

#[test]
fn test_SyslineReader_rand__test0_nlx1_Win__2() {
    _test_SyslineReader_rand(RAND_TEST0_NLX1_WIN.as_bytes(), 2);
}

#[test]
fn test_SyslineReader_rand__test0_nlx1_Win__4() {
    _test_SyslineReader_rand(RAND_TEST0_NLX1_WIN.as_bytes(), 4);
}

#[test]
fn test_SyslineReader_rand__test0_nlx1_Win__8() {
    _test_SyslineReader_rand(RAND_TEST0_NLX1_WIN.as_bytes(), 8);
}

#[test]
fn test_SyslineReader_rand__test0_nlx2__4() {
    _test_SyslineReader_rand(RAND_TEST0_NLX2.as_bytes(), 4);
}

#[test]
fn test_SyslineReader_rand__basic_dt1__4() {
    _test_SyslineReader_rand(RAND_BASIC_DT1.as_bytes(), 4);
}

#[test]
fn test_SyslineReader_rand__dtf5_6c__4() {
    _test_SyslineReader_rand(RAND_DTF5_6C.as_bytes(), 4);
}

#[test]
fn test_SyslineReader_rand__dtf5_6c__8() {
    _test_SyslineReader_rand(RAND_DTF5_6C.as_bytes(), 8);
}

#[test]
fn test_find_sysline_at_datetime_filter_done_and_found() {
    let data = "2000-01-01 00:00:01 a\n2000-01-01 00:00:02 b\n2000-01-01 00:00:03 c\n";
    let tzo = tz_west(0);
    let dt = |s: &str| str_datetime(s, "%Y-%m-%d %H:%M:%S", false, tzo).unwrap();
    // a filter after every sysline: nothing is found
    let mut slr = new_SyslineReader(data.as_bytes(), 8, tzo);
    assert!(matches!(slr.find_sysline_at_datetime_filter(0, &Some(dt("2000-01-01 00:00:09"))), ResultS4::Done));
    // a filter before every sysline: the sysline met first is the result
    let mut slr = new_SyslineReader(data.as_bytes(), 8, tzo);
    match slr.find_sysline_at_datetime_filter(0, &Some(dt("1999-01-01 00:00:00"))) {
        ResultS4::Found((n, slp)) => {
            assert_eq!(n, 22);
            assert_eq!(slp.to_String(), "2000-01-01 00:00:01 a\n");
        }
        _ => panic!("expected Found"),
    }
    // no filter: as `find_sysline`
    let mut slr1 = new_SyslineReader(data.as_bytes(), 8, tzo);
    let mut slr2 = new_SyslineReader(data.as_bytes(), 8, tzo);
    for fo in 0..data.len() as u64 {
        let a = slr1.find_sysline_at_datetime_filter(fo, &None);
        let b = slr2.find_sysline(fo);
        match (a, b) {
            (ResultS4::Found((n1, s1)), ResultS4::Found((n2, s2))) | (ResultS4::Found_EOF((n1, s1)), ResultS4::Found_EOF((n2, s2))) => {
                assert_eq!(n1, n2);
                assert_eq!(s1.to_String(), s2.to_String());
            }
            (ResultS4::Done, ResultS4::Done) => {}
            _ => panic!("different results at {}", fo),
        }
    }
}
