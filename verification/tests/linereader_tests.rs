//! Tests of `LineReader`.
#![allow(non_snake_case)]

use s4lib::common::{FileType, FPath, ResultS4};
use s4lib::blockreader::BlockSz;
use s4lib::common::FileOffset;
use s4lib::datetime::LineIndex;
use s4lib::linereader::{LineReader, enum_BoxPtrs};
use s4lib::helpers::{fill, randomize};

fn new_LineReader(content: &[u8], blocksz: BlockSz) -> LineReader {
    let path: FPath = String::from("test.log");
    match LineReader::new(path, FileType::File, blocksz, content.to_vec(), 0) {
        Ok(val) => val,
        Err(err) => panic!("ERROR: LineReader::new failed {:?}", err),
    }
}

/// Calls `find_line` from offset 0 until `Done`.
fn process_LineReader(lr1: &mut LineReader) {
    let mut fo1: FileOffset = 0;
    loop {
        match lr1.find_line(fo1) {
            ResultS4::Found((fo, _lp)) => {
                fo1 = fo;
            }
            ResultS4::Found_EOF((fo, _lp)) => {
                fo1 = fo;
            }
            ResultS4::Done => {
                break;
            }
            ResultS4::Error(err) => {
                panic!("ERROR: {:?}", err);
            }
        }
    }
}

fn do_test_LineReader_count(content: &str, line_count: usize) {
    let blocksz: BlockSz = 64;
    let mut lr1 = new_LineReader(content.as_bytes(), blocksz);
    process_LineReader(&mut lr1);
    let lc = lr1.count();
    assert_eq!(line_count as u64, lc, "Expected {} count of lines, found {}", line_count, lc);
}

#[test]
fn test_LineReader_count0() {
    do_test_LineReader_count("", 0);
}

#[test]
fn test_LineReader_count1_() {
    do_test_LineReader_count(" ", 1);
}

#[test]
fn test_LineReader_count1__() {
    do_test_LineReader_count("  ", 1);
}

#[test]
fn test_LineReader_count1_n() {
    do_test_LineReader_count(" \n", 1);
}

#[test]
fn test_LineReader_count2_n_() {
    do_test_LineReader_count(" \n ", 2);
}

#[test]
fn test_LineReader_count2__n__() {
    do_test_LineReader_count("  \n  ", 2);
}

#[test]
fn test_LineReader_count2_n_n() {
    do_test_LineReader_count(" \n \n", 2);
}

#[test]
fn test_LineReader_count2__n__n() {
    do_test_LineReader_count("  \n  \n", 2);
}

#[test]
fn test_LineReader_count3_n_n_() {
    do_test_LineReader_count(" \n \n ", 3);
}

#[test]
fn test_LineReader_count3__n__n__() {
    do_test_LineReader_count("  \n  \n  ", 3);
}

#[test]
fn test_LineReader_count3__n__n__n() {
    do_test_LineReader_count("  \n  \n  \n", 3);
}

#[test]
fn test_LineReader_count1() {
    do_test_LineReader_count("  \n  \n  \n  ", 4);
}

#[test]
fn test_LineReader_count4__n__n_n__n() {
    do_test_LineReader_count("  \n  \n  \n  \n", 4);
}

#[test]
fn test_LineReader_count4_uhi_n__n__n__n() {
    do_test_LineReader_count("two unicode points é\n  \n  \n  \n", 4);
}

type test_Line_get_boxptrs_check = Vec<(FileOffset, (LineIndex, LineIndex), Vec<u8>)>;

/// Reads all lines, then checks `Line::get_boxptrs` of the lines at the given offsets.
fn _test_Line_get_boxptrs(data: &[u8], blocksz: BlockSz, checks: &test_Line_get_boxptrs_check) {
    let mut lr = new_LineReader(data, blocksz);
    process_LineReader(&mut lr);
    for (linenum, (a, b), bytes_check) in checks.iter() {
        assert!(a < b, "bad check args a {} b {}", a, b);
        assert!(b - a >= bytes_check.len(), "Bad check args");
        let line = lr.get_linep(linenum).unwrap();
        let boxptrs = match line.get_boxptrs(*a, *b) {
            enum_BoxPtrs::SinglePtr(box_) => vec![box_],
            enum_BoxPtrs::MultiPtr(boxes) => boxes,
        };
        let mut at: usize = 0;
        for boxptr in boxptrs.iter() {
            for byte_ in (*boxptr).iter() {
                let byte_check = &bytes_check[at];
                assert_eq!(byte_, byte_check, "byte {} from boxptr {:?} ≠ {:?} check value", at, byte_, byte_check);
                at += 1;
            }
        }
    }
}

fn _test_Line_get_boxptrs_2_(blocksz: BlockSz) {
    let data: &str = "One 1\nTwo 2";
    let checks: test_Line_get_boxptrs_check = vec![
        (6, (0, 1), vec![b'T']),
        (6, (0, 2), vec![b'T', b'w']),
        (7, (0, 2), vec![b'T', b'w']),
        (7, (0, 5), vec![b'T', b'w', b'o', b' ', b'2']),
        (8, (0, 6), vec![b'T', b'w', b'o', b' ', b'2', b'\n']),
        (8, (0, 7), vec![b'T', b'w', b'o', b' ', b'2', b'\n']),
        (9, (0, 6), vec![b'T', b'w', b'o', b' ', b'2', b'\n']),
        (10, (0, 6), vec![b'T', b'w', b'o', b' ', b'2', b'\n']),
        (10, (1, 6), vec![b'w', b'o', b' ', b'2', b'\n']),
        (10, (2, 6), vec![b'o', b' ', b'2', b'\n']),
        (10, (3, 6), vec![b' ', b'2', b'\n']),
        (10, (4, 6), vec![b'2', b'\n']),
        (10, (5, 6), vec![b'\n']),
    ];
    _test_Line_get_boxptrs(data.as_bytes(), blocksz, &checks);
}

#[test]
fn test_Line_get_boxptrs_2_bsz_0xF() {
    _test_Line_get_boxptrs_2_(0xF);
}

#[test]
fn test_Line_get_boxptrs_2_bsz_0xE() {
    _test_Line_get_boxptrs_2_(0xE);
}

#[test]
fn test_Line_get_boxptrs_2_bsz_0xD() {
    _test_Line_get_boxptrs_2_(0xD);
}

#[test]
fn test_Line_get_boxptrs_2_bsz_0xC() {
    _test_Line_get_boxptrs_2_(0xC);
}

#[test]
fn test_Line_get_boxptrs_2_bsz_0xB() {
    _test_Line_get_boxptrs_2_(0xB);
}

#[test]
fn test_Line_get_boxptrs_2_bsz_0xA() {
    _test_Line_get_boxptrs_2_(0xA);
}

#[test]
fn test_Line_get_boxptrs_2_bsz_0x9() {
    _test_Line_get_boxptrs_2_(0x9);
}

#[test]
fn test_Line_get_boxptrs_2_bsz_0x8() {
    _test_Line_get_boxptrs_2_(0x8);
}

#[test]
fn test_Line_get_boxptrs_2_bsz_0x7() {
    _test_Line_get_boxptrs_2_(0x7);
}

#[test]
fn test_Line_get_boxptrs_2_bsz_0x6() {
    _test_Line_get_boxptrs_2_(0x6);
}

#[test]
fn test_Line_get_boxptrs_2_bsz_0x5() {
    _test_Line_get_boxptrs_2_(0x5);
}

#[test]
fn test_Line_get_boxptrs_2_bsz_0x4() {
    _test_Line_get_boxptrs_2_(0x4);
}

#[test]
fn test_Line_get_boxptrs_2_bsz_0x3() {
    _test_Line_get_boxptrs_2_(0x3);
}

#[test]
fn test_Line_get_boxptrs_2_bsz_0x2() {
    _test_Line_get_boxptrs_2_(0x2);
}

// ---------------------------------------------------------------------------------------
// further tests of lines
// ---------------------------------------------------------------------------------------

/// The line holding each offset, and `Found_EOF` for the last line.
#[test]
fn test_find_line_each_offset() {
    let data = b"ab\ncd\n\nef";
    for bsz in [1u64, 2, 3, 4, 64] {
        let mut lr = new_LineReader(data, bsz);
        let expect: [(u64, &[u8], bool); 9] = [
            (3, b"ab\n", false), (3, b"ab\n", false), (3, b"ab\n", false),
            (6, b"cd\n", false), (6, b"cd\n", false), (6, b"cd\n", false),
            (7, b"\n", false),
            (9, b"ef", true), (9, b"ef", true),
        ];
        for (fo, (next, bytes, eof)) in expect.iter().enumerate() {
            match lr.find_line(fo as u64) {
                ResultS4::Found((n, lp)) => {
                    assert!(!eof);
                    assert_eq!(n, *next);
                    assert_eq!(lp.as_bytes(), bytes.to_vec());
                }
                ResultS4::Found_EOF((n, lp)) => {
                    assert!(*eof);
                    assert_eq!(n, *next);
                    assert_eq!(lp.as_bytes(), bytes.to_vec());
                }
                _ => panic!("expected a line at {}", fo),
            }
        }
        assert!(matches!(lr.find_line(9), ResultS4::Done));
        assert!(matches!(lr.find_line(100), ResultS4::Done));
        assert_eq!(lr.count(), 4);
    }
}

/// A line is counted once, however often it is found.
#[test]
fn test_find_line_counted_once() {
    let mut lr = new_LineReader(b"abc\ndef\n", 2);
    for _ in 0..3 {
        for fo in 0..8u64 {
            let _ = lr.find_line(fo);
        }
    }
    assert_eq!(lr.count(), 2);
    lr.LRU_cache_disable();
    for fo in 0..8u64 {
        let _ = lr.find_line(fo);
    }
    assert_eq!(lr.count(), 2);
}

#[test]
fn test_Line_to_String_and_contains() {
    let mut lr = new_LineReader(b"hello world\nbye", 4);
    let lp = match lr.find_line(3) {
        ResultS4::Found((_, lp)) => lp,
        _ => panic!("expected Found"),
    };
    assert_eq!(lp.to_String(), "hello world\n");
    assert_eq!(lp.to_String_noraw(), "hello world\u{240A}");
    assert!(lp.contains(&b'w'));
    assert!(!lp.contains(&b'z'));
    assert_eq!(lp.len(), 12);
    assert_eq!(lp.count(), 3);
    assert_eq!(lp.count_bytes(), 12);
    assert_eq!(lp.fileoffset_begin(), 0);
    assert_eq!(lp.fileoffset_end(), 11);
    assert!(lp.stores_blockoffset(2));
    assert!(!lp.stores_blockoffset(3));
    assert_eq!(lp.get_slices_count(), 3);
    assert_eq!(lp.get_linepart(5).fileoffset, 4);
    // an index at or past the line's length gives the last part
    assert_eq!(lp.get_linepart(12).fileoffset, 8);
    assert_eq!(lp.get_linepart(1000).fileoffset, 8);
}

#[test]
fn test_parseable_mimestr() {
    assert!(LineReader::parseable_mimestr("text/plain"));
    assert!(LineReader::parseable_mimestr("utf-8"));
    assert!(!LineReader::parseable_mimestr("application/octet-stream"));
}

// -------------------------------------------------------------------------------------------------

/// Calls `find_line` at each of `offsets`; none may fail.
fn find_line_all(linereader: &mut LineReader, offsets: &Vec<FileOffset>) {
    for fo1 in offsets {
        if let ResultS4::Error(err) = linereader.find_line(*fo1) {
            panic!("ERROR: find_line({:?}) {:?}", fo1, err);
        }
    }
}

/// The stored lines, as text, in the order of their offsets.
fn copy_all_lines(linereader: &LineReader, buffer: &mut String) {
    buffer.clear();
    let keys: Vec<FileOffset> = linereader.lines.keys().copied().collect();
    for fo in keys.iter() {
        if !linereader.copy_line(fo, buffer) {
            panic!("copy_line({}, ...) failed", fo);
        }
    }
}

/// The lines of `data` are those that `linereader` has stored.
fn compare_file_linereader(data: &str, linereader: &LineReader) {
    let contents_file_count = data.lines().count();
    let mut contents_lr: String = String::with_capacity(0);
    copy_all_lines(linereader, &mut contents_lr);
    let mut i: usize = 0;
    for lines_file_lr1 in data.lines().zip(contents_lr.lines()) {
        i += 1;
        assert_eq!(
            lines_file_lr1.0, lines_file_lr1.1,
            "Lines {:?} differ\nFile      : {:?}\nLineReader: {:?}\n",
            i, lines_file_lr1.0, lines_file_lr1.1,
        );
    }
    assert_eq!(contents_file_count, i, "Expected to compare {} lines, only compared {}", contents_file_count, i);
}

/// Reads all file offsets.
fn _test_LineReader_all(data: &str, blocksz: BlockSz) {
    let mut lr1 = new_LineReader(data.as_bytes(), blocksz);
    let fillsz: usize = match lr1.filesz() as usize { 0 => 1, x => x };
    let mut offsets_all = Vec::<FileOffset>::with_capacity(fillsz);
    fill(&mut offsets_all);
    find_line_all(&mut lr1, &offsets_all);
    compare_file_linereader(data, &lr1);
}

/// Reads all file offsets, in random order.
fn _test_LineReader_rand(data: &str, blocksz: BlockSz) {
    let mut lr1 = new_LineReader(data.as_bytes(), blocksz);
    let fillsz: usize = match lr1.filesz() as usize { 0 => 1, x => x };
    let mut offsets_rand = Vec::<FileOffset>::with_capacity(fillsz);
    fill(&mut offsets_rand);
    randomize(&mut offsets_rand);
    offsets_rand.insert(0, 0);
    find_line_all(&mut lr1, &offsets_rand);
    compare_file_linereader(data, &lr1);
}

/// Reads the file offsets `offsets`, in order.
fn _test_LineReader_precise_order(data: &str, blocksz: BlockSz, offsets: &Vec<FileOffset>) {
    let mut lr1: LineReader = new_LineReader(data.as_bytes(), blocksz);
    find_line_all(&mut lr1, offsets);
    compare_file_linereader(data, &lr1);
}

#[test]
fn test_LineReader_all0_empty() {
    let data: &str = "";
    _test_LineReader_all(data, 0x4);
}

#[test]
fn test_LineReader_all1() {
    let data: &str = "\
test_LineReader_all1 line 1";
    _test_LineReader_all(data, 0x4);
}

#[test]
fn test_LineReader_all1n() {
    let data: &str = "\
test_LineReader_all1n line 1n
";
    _test_LineReader_all(data, 0x4);
}

#[test]
fn test_LineReader_all2() {
    let data: &str = "\
test_LineReader_all2 line 1
test_LineReader_all2 line 2";
    _test_LineReader_all(data, 0xFF);
}

#[test]
fn test_LineReader_all2n() {
    let data: &str = "\
test_LineReader_all2n line 1
test_LineReader_all2n line 2
";
    _test_LineReader_all(data, 0x4);
}

#[test]
fn test_LineReader_all3_empty() {
    let data: &str = "\n\n\n";
    _test_LineReader_all(data, 0x4);
}

#[test]
fn test_LineReader_all3() {
    let data: &str = "\
test_LineReader_all3 line 1
test_LineReader_all3 line 2
test_LineReader_all3 line 3";
    _test_LineReader_all(data, 0x4);
}

#[test]
fn test_LineReader_all3n() {
    let data: &str = "\
test_LineReader_all3n line 1
test_LineReader_all3n line 2
test_LineReader_all3n line 3
";
    _test_LineReader_all(data, 0x4);
}

#[test]
fn test_LineReader_all_reversed0_empty() {
    let data: &str = "";
    _test_LineReader_all(data, 0x4);
}

#[test]
fn test_LineReader_all_reversed1() {
    let data: &str = "\
test_LineReader_all_reversed1 line 1";
    _test_LineReader_all(data, 0x4);
}

#[test]
fn test_LineReader_all_reversed1n() {
    let data: &str = "\
test_LineReader_all_reversed1n line 1n
";
    _test_LineReader_all(data, 0x4);
}

#[test]
fn test_LineReader_all_reversed2() {
    let data: &str = "\
test_LineReader_all_reversed2 line 1
test_LineReader_all_reversed2 line 2";
    _test_LineReader_all(data, 0xFF);
}

#[test]
fn test_LineReader_all_reversed2n() {
    let data: &str = "\
test_LineReader_all_reversed2n line 1
test_LineReader_all_reversed2n line 2
";
    _test_LineReader_all(data, 0x4);
}

#[test]
fn test_LineReader_all_reversed3_empty() {
    let data: &str = "\n\n\n";
    _test_LineReader_all(data, 0x4);
}

#[test]
fn test_LineReader_all_reversed3() {
    let data: &str = "\
test_LineReader_all_reversed3 line 1
test_LineReader_all_reversed3 line 2
test_LineReader_all_reversed3 line 3";
    _test_LineReader_all(data, 0x4);
}

#[test]
fn test_LineReader_all_reversed3n() {
    let data: &str = "\
test_LineReader_all_reversed3n line 1
test_LineReader_all_reversed3n line 2
test_LineReader_all_reversed3n line 3
";
    _test_LineReader_all(data, 0x4);
}

#[test]
fn test_LineReader_rand0_empty() {
    let data: &str = "";
    _test_LineReader_rand(data, 0x4);
}

#[test]
fn test_LineReader_rand1() {
    let data: &str = "\
test_LineReader_rand1 line 1";
    _test_LineReader_rand(data, 0x4);
}

#[test]
fn test_LineReader_rand1n() {
    let data: &str = "\
test_LineReader_rand1n line 1n
";
    _test_LineReader_rand(data, 0x4);
}

#[test]
fn test_LineReader_rand2() {
    let data: &str = "\
test_LineReader_rand2 line 1
test_LineReader_rand2 line 2";
    _test_LineReader_rand(data, 0xFF);
}

#[test]
fn test_LineReader_rand2n() {
    let data: &str = "\
test_LineReader_rand2n line 1
test_LineReader_rand2n line 2
";
    _test_LineReader_rand(data, 0x4);
}

#[test]
fn test_LineReader_rand3_empty() {
    let data: &str = "\n\n\n";
    _test_LineReader_rand(data, 0x4);
}

#[test]
fn test_LineReader_rand3() {
    let data: &str = "\
test_LineReader_rand3 line 1
test_LineReader_rand3 line 2
test_LineReader_rand3 line 3";
    _test_LineReader_rand(data, 0x4);
}

#[test]
fn test_LineReader_rand3n() {
    let data: &str = "\
test_LineReader_rand3n line 1
test_LineReader_rand3n line 2
test_LineReader_rand3n line 3
";
    _test_LineReader_rand(data, 0x4);
}

#[test]
fn test_LineReader_precise_order_empty3_0_1_2() {
    let data: &str = "\n\n\n";
    let offsets: Vec<FileOffset> = vec![0, 1, 2];
    _test_LineReader_precise_order(data, 0xF, &offsets);
}

#[test]
fn test_LineReader_precise_order_empty3_0_2_1() {
    let data: &str = "\n\n\n";
    let offsets: Vec<FileOffset> = vec![0, 2, 1];
    _test_LineReader_precise_order(data, 0xF, &offsets);
}

#[test]
fn test_LineReader_precise_order_empty3_1_2_0() {
    let data: &str = "\n\n\n";
    let offsets: Vec<FileOffset> = vec![1, 2, 0];
    _test_LineReader_precise_order(data, 0xF, &offsets);
}

#[test]
fn test_LineReader_precise_order_empty3_1_0_2() {
    let data: &str = "\n\n\n";
    let offsets: Vec<FileOffset> = vec![1, 0, 2];
    _test_LineReader_precise_order(data, 0xF, &offsets);
}

#[test]
fn test_LineReader_precise_order_empty3_2_0_1() {
    let data: &str = "\n\n\n";
    let offsets: Vec<FileOffset> = vec![2, 0, 1];
    _test_LineReader_precise_order(data, 0xF, &offsets);
}

#[test]
fn test_LineReader_precise_order_empty3_2_1_0() {
    let data: &str = "\n\n\n";
    let offsets: Vec<FileOffset> = vec![2, 1, 0];
    _test_LineReader_precise_order(data, 0xF, &offsets);
}

#[test]
fn test_LineReader_precise_order_empty3_1_0_2_1_2() {
    let data: &str = "\n\n\n";
    let offsets: Vec<FileOffset> = vec![1, 0, 2, 1, 2];
    _test_LineReader_precise_order(data, 0xF, &offsets);
}

#[test]
fn test_LineReader_precise_order_empty3_1_2_1_2_0() {
    let data: &str = "\n\n\n";
    let offsets: Vec<FileOffset> = vec![1, 2, 1, 2, 0];
    _test_LineReader_precise_order(data, 0xF, &offsets);
}

#[test]
fn test_LineReader_precise_order_empty3_0_1_2_2() {
    let data: &str = "\n\n\n";
    let offsets: Vec<FileOffset> = vec![0, 1, 2, 2];
    _test_LineReader_precise_order(data, 0xF, &offsets);
}

#[test]
fn test_LineReader_precise_order_empty3_0_2_1_1() {
    let data: &str = "\n\n\n";
    let offsets: Vec<FileOffset> = vec![0, 2, 1, 1];
    _test_LineReader_precise_order(data, 0xF, &offsets);
}

#[test]
fn test_LineReader_precise_order_empty3_1_2_0_0() {
    let data: &str = "\n\n\n";
    let offsets: Vec<FileOffset> = vec![1, 2, 0, 0];
    _test_LineReader_precise_order(data, 0xF, &offsets);
}

#[test]
fn test_LineReader_precise_order_empty3() {
    let data: &str = "\n\n\n";
    let offsets: Vec<FileOffset> = vec![0, 2, 1];
    _test_LineReader_precise_order(data, 0xF, &offsets);
}

#[test]
fn test_Line_get_boxptrs_1() {
    let data: &str = "\
this is line 1";
    let mut lr = new_LineReader(data.as_bytes(), 0xFF);
    process_LineReader(&mut lr);
    let line = lr.get_linep(&0).unwrap();
    let bytes: Vec<u8> = match line.get_boxptrs(0, 1) {
        enum_BoxPtrs::SinglePtr(b) => b.to_vec(),
        enum_BoxPtrs::MultiPtr(bs) => bs.iter().flat_map(|b| b.iter().copied()).collect(),
    };
    assert_eq!(bytes, vec![b't']);
}
