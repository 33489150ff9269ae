//! Concrete cases of the laws that relate the readers' operations.
use s4lib::common::{FileType, ResultS3, ResultS4};
use s4lib::blockreader::BlockReader;
use s4lib::linereader::LineReader;
use s4lib::syslinereader::SyslineReader;
use s4lib::datetime::{DateTimeL, dt_after_or_before, dt_pass_filters, Result_Filter_DateTime1, Result_Filter_DateTime2};

const DATA: &[u8] = b"first line\nsecond\n\nfourth line here\nlast";

fn new_BlockReader(bsz: u64) -> BlockReader {
    BlockReader::new(String::from("t.log"), FileType::File, bsz, DATA.to_vec(), 0).unwrap()
}

#[test]
fn test_law_blocks_cover_file() {
    for bsz in [1u64, 2, 3, 7, 16, 64] {
        let mut br = new_BlockReader(bsz);
        let mut all: Vec<u8> = Vec::new();
        let mut bo = 0;
        loop {
            match br.read_block(bo) {
                ResultS3::Found(b) => all.extend_from_slice(&b),
                ResultS3::Done => break,
                ResultS3::Error(e) => panic!("{:?}", e),
            }
            bo += 1;
        }
        assert_eq!(all, DATA.to_vec(), "bsz {}", bsz);
    }
}

#[test]
fn test_law_byte_in_its_block() {
    for bsz in [1u64, 3, 5, 64] {
        let mut br = new_BlockReader(bsz);
        for fo in 0..DATA.len() as u64 {
            let bo = BlockReader::block_offset_at_file_offset(fo, bsz);
            let bi = BlockReader::block_index_at_file_offset(fo, bsz);
            match br.read_block(bo) {
                ResultS3::Found(b) => assert_eq!(b[bi], DATA[fo as usize]),
                _ => panic!("expected a block"),
            }
        }
    }
}

fn new_LineReader(bsz: u64) -> LineReader {
    LineReader::new(String::from("t.log"), FileType::File, bsz, DATA.to_vec(), 0).unwrap()
}

fn line_of(r: &ResultS4<(u64, s4lib::linereader::LineP), s4lib::common::Error>) -> Option<(u64, bool, String)> {
    match r {
        ResultS4::Found((n, l)) => Some((*n, false, l.to_String())),
        ResultS4::Found_EOF((n, l)) => Some((*n, true, l.to_String())),
        _ => None,
    }
}

#[test]
fn test_law_find_line_deterministic() {
    let mut lr1 = new_LineReader(4);
    let mut lr2 = new_LineReader(4);
    lr2.LRU_cache_disable();
    for fo in (0..DATA.len() as u64 + 2).rev() {
        let a = line_of(&lr1.find_line(fo));
        let b = line_of(&lr1.find_line(fo));
        let c = line_of(&lr2.find_line(fo));
        assert_eq!(a, b);
        assert_eq!(a, c);
    }
}

#[test]
fn test_law_next_line_begins_at_next_offset() {
    let mut lr = new_LineReader(3);
    let mut fo = 0;
    let mut begins: Vec<u64> = Vec::new();
    loop {
        match lr.find_line(fo) {
            ResultS4::Found((n, l)) => {
                begins.push(l.fileoffset_begin());
                fo = n;
            }
            ResultS4::Found_EOF((_, l)) => {
                begins.push(l.fileoffset_begin());
                break;
            }
            _ => panic!("unexpected"),
        }
    }
    assert_eq!(begins, vec![0, 11, 18, 19, 36]);
}

#[test]
fn test_law_pass_filters_agree() {
    let dt = |s: i64| DateTimeL { secs: s, nsecs: 0, offset: 0 };
    let filters = [None, Some(dt(5)), Some(dt(10)), Some(dt(15))];
    for a in filters.iter() {
        for b in filters.iter() {
            if let (Some(x), Some(y)) = (a, b) {
                if y.secs < x.secs {
                    continue;
                }
            }
            for t in [0i64, 5, 7, 10, 12, 15, 20] {
                let p = dt_pass_filters(&dt(t), a, b);
                let after = dt_after_or_before(&dt(t), a);
                let not_later = match b {
                    None => true,
                    Some(y) => !(y.secs < t),
                };
                assert_eq!(p == Result_Filter_DateTime2::InRange, after != Result_Filter_DateTime1::OccursBefore && not_later);
                assert_eq!(p == Result_Filter_DateTime2::BeforeRange, after == Result_Filter_DateTime1::OccursBefore);
            }
        }
    }
}

#[test]
fn test_get_byte_and_vec_from() {
    let mut br = new_BlockReader(4);
    assert_eq!(br._get_byte(0), None);
    let _ = br.read_block(0);
    let _ = br.read_block(1);
    assert_eq!(br._get_byte(0), Some(b'f'));
    assert_eq!(br._get_byte(5), Some(DATA[5]));
    assert_eq!(br._get_byte(9), None);
    assert_eq!(br._vec_from(1, 3), DATA[1..3].to_vec());
    assert_eq!(br._vec_from(2, 11), DATA[2..8].to_vec());
    assert_eq!(br._vec_from(5, 5), Vec::<u8>::new());
}

#[test]
fn test_copy_line_and_default() {
    let mut lr = new_LineReader(4);
    let _ = lr.find_line(12);
    let mut buffer = String::from(">");
    assert!(lr.copy_line(&11, &mut buffer));
    assert_eq!(buffer, ">second\n");
    assert!(!lr.copy_line(&0, &mut buffer));
    assert_eq!(buffer, ">second\n");
    let line = s4lib::linereader::Line::default();
    assert_eq!(line.count(), 0);
}

#[test]
fn test_law_next_sysline_begins_at_next_offset() {
    let data = "\
2000-01-01 00:00:01 first
  more of the first
2000-01-01 00:00:02 second
2000-01-01 00:00:03 third
  more
  and more
2000-01-01 00:00:04 last
";
    for bsz in [4u64, 8, 64, 1024] {
        let mut slr = SyslineReader::new(String::from("t.log"), FileType::File, bsz, 0, data.as_bytes().to_vec(), 0).unwrap();
        let mut fo: u64 = 0;
        let mut begins: Vec<u64> = Vec::new();
        loop {
            match slr.find_sysline(fo) {
                ResultS4::Found((n, slp)) => {
                    assert_eq!(slp.fileoffset_begin(), fo, "bsz {}", bsz);
                    begins.push(slp.fileoffset_begin());
                    fo = n;
                },
                ResultS4::Found_EOF((n, slp)) => {
                    assert_eq!(slp.fileoffset_begin(), fo, "bsz {}", bsz);
                    begins.push(slp.fileoffset_begin());
                    assert_eq!(n as usize, data.len());
                    break;
                },
                ResultS4::Done => panic!("Done before the end, bsz {}", bsz),
                ResultS4::Error(e) => panic!("{:?}", e),
            }
        }
        assert_eq!(begins, vec![0, 46, 73, 117], "bsz {}", bsz);
    }
}

#[test]
fn test_law_lines_cover_file() {
    for bsz in [1u64, 2, 3, 5, 8, 64] {
        let mut lr = new_LineReader(bsz);
        let mut all: Vec<u8> = Vec::new();
        let mut fo: u64 = 0;
        loop {
            match lr.find_line(fo) {
                ResultS4::Found((n, l)) => {
                    assert_eq!(l.fileoffset_begin(), fo);
                    all.extend_from_slice(&l.as_bytes());
                    fo = n;
                },
                ResultS4::Found_EOF((n, l)) => {
                    all.extend_from_slice(&l.as_bytes());
                    assert_eq!(n as usize, DATA.len());
                    break;
                },
                ResultS4::Done => break,
                ResultS4::Error(e) => panic!("{:?}", e),
            }
        }
        assert_eq!(all, DATA.to_vec(), "bsz {}", bsz);
    }
}

#[test]
fn test_law_dt_first_last_bound_syslines() {
    let data = "\
2000-01-01 00:00:05 b
2000-01-01 00:00:01 a
  more
2000-01-01 00:00:09 c
";
    let mut slr = SyslineReader::new(String::from("t.log"), FileType::File, 8, 0, data.as_bytes().to_vec(), 0).unwrap();
    let mut fo: u64 = 0;
    let mut dts: Vec<DateTimeL> = Vec::new();
    loop {
        match slr.find_sysline(fo) {
            ResultS4::Found((n, slp)) => {
                dts.push(slp.dt.unwrap());
                fo = n;
            },
            ResultS4::Found_EOF((_, slp)) => {
                dts.push(slp.dt.unwrap());
                break;
            },
            ResultS4::Done => break,
            ResultS4::Error(e) => panic!("{:?}", e),
        }
    }
    assert_eq!(dts.len(), 3);
    let first = slr.dt_first().unwrap();
    let last = slr.dt_last().unwrap();
    for dt in dts.iter() {
        assert!((first.secs, first.nsecs) <= (dt.secs, dt.nsecs));
        assert!((dt.secs, dt.nsecs) <= (last.secs, last.nsecs));
    }
    assert_eq!(last.secs - first.secs, 8);
}

#[test]
fn test_law_block_sizes_sum_to_file_size() {
    for bsz in [1u64, 2, 3, 7, 16, 64] {
        let br = new_BlockReader(bsz);
        let mut sum: u64 = 0;
        for bo in 0..=br.blockoffset_last() {
            sum += br.blocksz_at_blockoffset(&bo);
        }
        assert_eq!(sum, DATA.len() as u64, "bsz {}", bsz);
    }
}

#[test]
fn test_law_offset_round_trip() {
    for bsz in [1u64, 3, 5, 64] {
        for fo in [0u64, 1, 4, 5, 63, 64, 65, 1000] {
            let bo = BlockReader::block_offset_at_file_offset(fo, bsz);
            let bi = BlockReader::block_index_at_file_offset(fo, bsz);
            assert!((bi as u64) < bsz);
            assert_eq!(BlockReader::file_offset_at_block_offset_index(bo, bsz, bi), fo);
        }
    }
}

#[test]
fn test_law_filters_by_instant() {
    // the same instant, written in two offsets
    let a = DateTimeL { secs: 1000, nsecs: 5, offset: 0 };
    let b = DateTimeL { secs: 1000, nsecs: 5, offset: 3600 };
    let f = |s: i64| Some(DateTimeL { secs: s, nsecs: 0, offset: -7200 });
    for filter in [None, f(999), f(1000), f(1001)] {
        assert_eq!(dt_after_or_before(&a, &filter), dt_after_or_before(&b, &filter));
        for before in [None, f(1000), f(2000)] {
            assert_eq!(dt_pass_filters(&a, &filter, &before), dt_pass_filters(&b, &filter, &before));
        }
    }
}

#[test]
fn test_law_found_eof_is_last() {
    let data = "2000-01-01 00:00:01 first\n2000-01-01 00:00:02 second\n";
    for bsz in [4u64, 64] {
        let mut slr = SyslineReader::new(String::from("t.log"), FileType::File, bsz, 0, data.as_bytes().to_vec(), 0).unwrap();
        match slr.find_sysline(0) {
            ResultS4::Found((_, slp)) => assert!(!slr.is_sysline_last(&slp)),
            _ => panic!("expected Found"),
        }
        match slr.find_sysline(30) {
            ResultS4::Found_EOF((_, slp)) => assert!(slr.is_sysline_last(&slp)),
            _ => panic!("expected Found_EOF"),
        }
    }
}

#[test]
fn test_law_stored_lines_agree() {
    let mut lr1 = new_LineReader(2);
    let mut lr2 = new_LineReader(64);
    for fo in (0..DATA.len() as u64).rev() {
        let a = line_of(&lr1.find_line(fo));
        let b = line_of(&lr2.find_line(fo));
        assert_eq!(a, b, "fo {}", fo);
    }
}
