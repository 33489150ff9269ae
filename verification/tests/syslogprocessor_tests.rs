//! Tests of `SyslogProcessor` and `Summary`.
#![allow(non_snake_case)]
use s4lib::common::{FileType, FileProcessingResult};
use s4lib::blockreader::BlockSz;
use s4lib::summary::Summary;
use s4lib::syslogprocessor::{SyslogProcessor, SYSLOGPROCESSOR_BLOCKSZ_MIN, patterns_used_by_count};
use s4lib::datetime::{DATETIME_PARSE_DATAS_VEC, DateTime_Parse_Data};

fn new_SyslogProcessor(data: &str, blocksz: BlockSz) -> SyslogProcessor {
    match SyslogProcessor::new(String::from("test.log"), FileType::File, blocksz, 0, None, None, data.as_bytes().to_vec(), 0) {
        Ok(val) => val,
        Err(err) => panic!("ERROR: SyslogProcessor::new failed {:?}", err),
    }
}

#[test]
fn test_SyslogProcessor_new1() {
    // an empty file with a small block size
    let slp = new_SyslogProcessor("", 0xF);
    assert_eq!(slp.blocksz(), 0xF);
    assert_eq!(slp.filesz(), 0);
}

#[test]
fn test_SyslogProcessor_new_small_blocksz() {
    let slp = new_SyslogProcessor("abc\n", 1);
    assert_eq!(slp.blocksz(), 1);
    assert!(SyslogProcessor::new(String::from("test.log"), FileType::File, SYSLOGPROCESSOR_BLOCKSZ_MIN, 0, None, None, Vec::new(), 0).is_ok());
}

#[test]
fn test_SyslogProcessor_getters() {
    let slp = new_SyslogProcessor("abc\ndef\n", 0x100);
    assert_eq!(slp.blocksz(), 0x100);
    assert_eq!(slp.filesz(), 8);
    assert_eq!(slp.filetype(), FileType::File);
    assert_eq!(slp.path(), "test.log");
    assert_eq!(slp.count_blocks(), 1);
    assert_eq!(slp.blockoffset_last(), 0);
    assert_eq!(slp.block_offset_at_file_offset(0x101), 1);
    assert_eq!(slp.block_index_at_file_offset(0x101), 1);
    assert_eq!(slp.file_offset_at_block_offset(2), 0x200);
    assert_eq!(slp.file_offset_at_block_offset_index(2, 3), 0x203);
    assert_eq!(slp.charsz(), 1);
    assert_eq!(slp.count_lines(), 0);
}

#[test]
fn test_stage0_empty() {
    let mut slp = new_SyslogProcessor("", 0x100);
    assert!(matches!(slp.process_stage0_valid_file_check(), FileProcessingResult::FileErrEmpty));
}

#[test]
fn test_stage0_ok() {
    let mut slp = new_SyslogProcessor("\n", 0x100);
    assert!(matches!(slp.process_stage0_valid_file_check(), FileProcessingResult::FileOk));
}

#[test]
fn test_stages_small_file() {
    let data = "2020-01-01 00:00:01 one\n2020-01-01 00:00:02 two\n";
    let mut slp = new_SyslogProcessor(data, 0x100);
    assert!(matches!(slp.process_stage0_valid_file_check(), FileProcessingResult::FileOk));
    assert!(matches!(slp.process_stage1_blockzero_analysis(), FileProcessingResult::FileOk));
    assert!(slp.count_lines() >= 1);
    assert!(matches!(slp.process_stage2_find_dt(), FileProcessingResult::FileOk));
    assert!(matches!(slp.process_stage3_stream_syslines(), FileProcessingResult::FileOk));
    let mut fo = 0;
    let mut n = 0;
    loop {
        match slp.find_sysline(fo) {
            s4lib::common::ResultS4::Found((next, _)) => {
                fo = next;
                n += 1;
            }
            s4lib::common::ResultS4::Found_EOF(_) => {
                n += 1;
                break;
            }
            s4lib::common::ResultS4::Done => break,
            s4lib::common::ResultS4::Error(e) => panic!("{:?}", e),
        }
    }
    assert_eq!(n, 2);
    assert!(slp.summary_counts_ok());
    let summary = slp.process_stage4_summary();
    assert_eq!(summary.filetype, FileType::File);
    assert_eq!(summary.BlockReader_blocksz, 0x100);
    assert_eq!(summary.BlockReader_filesz_actual, data.len() as u64);
    // a last sysline that is a single line at the end of the file is not stored
    assert_eq!(summary.SyslineReader_syslines, 1);
    assert_eq!(summary.LineReader_lines, 2);
}

#[test]
fn test_blockzero_analysis_empty() {
    let mut slp = new_SyslogProcessor("", 0x100);
    assert!(matches!(slp.process_stage1_blockzero_analysis(), FileProcessingResult::FileErrEmpty));
}

#[test]
fn test_blockzero_analysis_lines_small_block() {
    // a first block smaller than a syslog message needs one line
    let mut slp = new_SyslogProcessor("                    ", 0x100);
    let _ = slp.process_stage1_blockzero_analysis();
    assert!(matches!(slp.blockzero_analysis_lines(), FileProcessingResult::FileOk));
}

#[test]
fn test_blockzero_analysis_lines_large_block() {
    // a first block of at least a syslog message's size needs two lines in it
    let one_line = " ".repeat(9000);
    let mut slp = new_SyslogProcessor(&one_line, 0x2000);
    assert!(matches!(slp.process_stage1_blockzero_analysis(), FileProcessingResult::FileErrNoLinesFound));
    let two_lines = format!("a\n{}", " ".repeat(9000));
    let mut slp = new_SyslogProcessor(&two_lines, 0x2000);
    let _ = slp.process_stage1_blockzero_analysis();
    assert!(matches!(slp.blockzero_analysis_lines(), FileProcessingResult::FileOk));
}

#[test]
fn test_blockzero_analysis_syslines_large_block() {
    let mut data = String::new();
    for i in 0..300 {
        data.push_str(&format!("2020-01-01 00:00:{:02} message {}\n", i % 60, i));
    }
    let mut slp = new_SyslogProcessor(&data, 0x2000);
    assert!(matches!(slp.process_stage1_blockzero_analysis(), FileProcessingResult::FileOk));
}

#[test]
fn test_blockzero_analysis_no_syslines() {
    let mut data = String::new();
    for _ in 0..300 {
        data.push_str("no datetime on this line at all\n");
    }
    let mut slp = new_SyslogProcessor(&data, 0x2000);
    assert!(matches!(slp.process_stage1_blockzero_analysis(), FileProcessingResult::FileErrNoSyslinesFound));
}

#[test]
fn test_find_sysline_between_datetime_filters() {
    let data = "2020-01-01 00:00:01 one\n2020-01-01 00:00:02 two\n";
    let mut slp = new_SyslogProcessor(data, 0x100);
    match slp.find_sysline_between_datetime_filters(0) {
        s4lib::common::ResultS4::Found((next, slp_)) => {
            assert_eq!(next, 24);
            assert_eq!(slp_.to_String(), "2020-01-01 00:00:01 one\n");
        }
        other => panic!("unexpected {:?}", other.is_done()),
    }
}

#[test]
fn test_summary_max() {
    let mut s = Summary::default();
    s.SyslineReader_syslines_miss = 7;
    s.BlockReader_read_blocks_put = 9;
    s.LineReader_drop_line_errors = 3;
    assert_eq!(s.max_hit_miss(), 9);
    assert_eq!(s.max_drop(), 3);
    assert_eq!(Summary::default().max_hit_miss(), 0);
}

#[test]
fn test_patterns_used_by_count() {
    let pds: Vec<DateTime_Parse_Data> = DATETIME_PARSE_DATAS_VEC();
    let counts = vec![(pds[0], 0u64), (pds[1], 2u64), (pds[2], 5u64), (pds[3], 1u64)];
    let r = patterns_used_by_count(&counts);
    let cs: Vec<u64> = r.iter().map(|p| p.1).collect();
    assert_eq!(cs, vec![5, 2, 1]);
}

#[test]
fn test_patterns_used_by_count_stable() {
    let pds: Vec<DateTime_Parse_Data> = DATETIME_PARSE_DATAS_VEC();
    let counts = vec![(pds[0], 3u64), (pds[1], 7u64), (pds[2], 3u64), (pds[3], 0u64), (pds[4], 7u64), (pds[5], 3u64)];
    let r = patterns_used_by_count(&counts);
    let patterns: Vec<&str> = r.iter().map(|p| p.0.pattern).collect();
    assert_eq!(patterns, vec![pds[1].pattern, pds[4].pattern, pds[0].pattern, pds[2].pattern, pds[5].pattern]);
}

#[test]
fn test_find_sysline_between_datetime_filters_out_of_range() {
    let data = "2020-01-01 00:00:01 one\n2020-01-01 00:00:02 two\n";
    let late = s4lib::datetime::DateTimeL { secs: 1_700_000_000, nsecs: 0, offset: 0 };
    let mut slp = SyslogProcessor::new(String::from("test.log"), FileType::File, 0x100, 0, Some(late), None, data.as_bytes().to_vec(), 0).unwrap();
    assert!(slp.find_sysline_between_datetime_filters(0).is_done());
}

#[test]
fn test_summary_counters() {
    let mut slp = new_SyslogProcessor("2020-01-01 00:00:01 one\n2020-01-01 00:00:02 two\n", 0x10);
    let _ = slp.process_stage0_valid_file_check();
    let _ = slp.process_stage1_blockzero_analysis();
    let s = slp.summary();
    assert_eq!(s.BlockReader_blocksz, 0x10);
    assert_eq!(s.BlockReader_blocks_total, 3);
    assert_eq!(s.BlockReader_bytes_total, 48);
    assert!(s.BlockReader_bytes <= 48);
    assert!(s.Error_.is_none());
}
