//! Opening compressed and archived files with `BlockReader::new`.
use std::io::Write;
use s4lib::common::{ErrorKind, FileType, ResultS3};
use s4lib::blockreader::BlockReader;

const TEXT: &str = "2000-01-01 00:00:01 first\n2000-01-01 00:00:02 second\nlast line\n";

fn all_bytes(br: &mut BlockReader) -> Vec<u8> {
    let mut all: Vec<u8> = Vec::new();
    let mut bo = 0;
    loop {
        match br.read_block(bo) {
            ResultS3::Found(b) => all.extend_from_slice(&b),
            ResultS3::Done => break,
            ResultS3::Error(e) => panic!("{:?}", e),
        }
        bo += 1;
    }
    all
}

fn gz_bytes(data: &[u8]) -> Vec<u8> {
    let mut enc = flate2::write::GzEncoder::new(Vec::new(), flate2::Compression::default());
    enc.write_all(data).unwrap();
    enc.finish().unwrap()
}

fn xz_bytes(data: &[u8]) -> Vec<u8> {
    let mut input: &[u8] = data;
    let mut out: Vec<u8> = Vec::new();
    lzma_rs::xz_compress(&mut input, &mut out).unwrap();
    out
}

fn tar_bytes(files: &[(&str, &str)]) -> Vec<u8> {
    let mut builder = tar::Builder::new(Vec::new());
    for (name, data) in files {
        let mut header = tar::Header::new_gnu();
        header.set_size(data.len() as u64);
        header.set_mode(0o644);
        builder.append_data(&mut header, name, data.as_bytes()).unwrap();
    }
    builder.into_inner().unwrap()
}

#[test]
fn test_BlockReader_new_gz_decompresses() {
    let bytes = gz_bytes(TEXT.as_bytes());
    for bsz in [2u64, 16, 64, 1024] {
        let mut br = BlockReader::new(String::from("t.log.gz"), FileType::FileGz, bsz, bytes.clone(), 0).unwrap();
        assert_eq!(br.filesz(), TEXT.len() as u64);
        assert_eq!(all_bytes(&mut br), TEXT.as_bytes().to_vec(), "bsz {}", bsz);
    }
}

#[test]
fn test_BlockReader_new_gz_too_short() {
    let r = BlockReader::new(String::from("t.gz"), FileType::FileGz, 64, vec![0x1f, 0x8b, 8, 0], 0);
    assert!(r.is_err());
}

#[test]
fn test_BlockReader_new_gz_trailer_size_zero() {
    let mut bytes = gz_bytes(TEXT.as_bytes());
    let n = bytes.len();
    for i in n - 4..n {
        bytes[i] = 0;
    }
    let r = BlockReader::new(String::from("t.gz"), FileType::FileGz, 64, bytes, 0);
    assert!(r.is_err());
}

#[test]
fn test_BlockReader_new_gz_not_gzip() {
    let r = BlockReader::new(String::from("t.gz"), FileType::FileGz, 64, TEXT.as_bytes().to_vec(), 0);
    assert!(r.is_err());
}

#[test]
fn test_BlockReader_new_xz_decompresses() {
    let bytes = xz_bytes(TEXT.as_bytes());
    for bsz in [2u64, 16, 1024] {
        let mut br = BlockReader::new(String::from("t.log.xz"), FileType::FileXz, bsz, bytes.clone(), 0).unwrap();
        assert_eq!(br.filesz(), TEXT.len() as u64);
        assert_eq!(all_bytes(&mut br), TEXT.as_bytes().to_vec(), "bsz {}", bsz);
    }
}

#[test]
fn test_BlockReader_new_xz_no_magic() {
    let r = BlockReader::new(String::from("t.xz"), FileType::FileXz, 64, TEXT.as_bytes().to_vec(), 0);
    assert!(r.is_err());
}

#[test]
fn test_BlockReader_new_tar_reads_subpath() {
    let bytes = tar_bytes(&[("a.log", "first file\n"), ("b.log", TEXT)]);
    let mut br = BlockReader::new(String::from("logs.tar:b.log"), FileType::FileTar, 16, bytes.clone(), 0).unwrap();
    assert_eq!(br.filesz(), TEXT.len() as u64);
    assert_eq!(all_bytes(&mut br), TEXT.as_bytes().to_vec());
    let mut br = BlockReader::new(String::from("logs.tar:a.log"), FileType::FileTar, 16, bytes, 0).unwrap();
    assert_eq!(all_bytes(&mut br), b"first file\n".to_vec());
}

#[test]
fn test_BlockReader_new_tar_missing_subpath_is_empty() {
    let bytes = tar_bytes(&[("a.log", "first file\n")]);
    let mut br = BlockReader::new(String::from("logs.tar:nope.log"), FileType::FileTar, 16, bytes, 0).unwrap();
    assert_eq!(br.filesz(), 0);
    assert_eq!(all_bytes(&mut br), Vec::<u8>::new());
}

#[test]
fn test_BlockReader_new_tar_no_separator() {
    let bytes = tar_bytes(&[("a.log", "first file\n")]);
    match BlockReader::new(String::from("logs.tar"), FileType::FileTar, 16, bytes, 0) {
        Err(e) => assert_eq!(e.kind, ErrorKind::NotFound),
        Ok(_) => panic!("expected an error"),
    }
}

#[test]
fn test_BlockReader_new_unsupported() {
    match BlockReader::new(String::from("t.bin"), FileType::FileUnknown, 16, TEXT.as_bytes().to_vec(), 0) {
        Err(e) => assert_eq!(e.kind, ErrorKind::Unsupported),
        Ok(_) => panic!("expected an error"),
    }
}

#[test]
fn test_BlockReader_new_counters_and_error_kinds() {
    let mut br = BlockReader::new(String::from("t.log"), FileType::File, 4, TEXT.as_bytes().to_vec(), 0).unwrap();
    assert_eq!(br.count_bytes(), 0);
    assert_eq!(br.count_blocks_processed(), 0);
    assert!(br.subpath.is_none());
    // a block past the end changes no counter
    assert!(matches!(br.read_block(1000), ResultS3::Done));
    assert_eq!(br.count_bytes(), 0);
    assert_eq!(br.count_blocks_processed(), 0);
    // a block that is read is counted
    assert!(matches!(br.read_block(1), ResultS3::Found(_)));
    assert_eq!(br.count_blocks_processed(), 1);
    assert_eq!(br.count_bytes(), 4);
    assert!(matches!(br.read_block(1), ResultS3::Found(_)));
    assert_eq!(br.count_blocks_processed(), 1);
    // an archived file's path without the subpath separator
    match BlockReader::new(String::from("logs.tar"), FileType::FileTar, 64, Vec::new(), 0) {
        Err(e) => assert_eq!(e.kind, ErrorKind::NotFound),
        Ok(_) => panic!("expected an error"),
    }
    // gzip bytes too few to hold a header
    match BlockReader::new(String::from("t.gz"), FileType::FileGz, 64, vec![0x1f, 0x8b, 8], 0) {
        Err(e) => assert_eq!(e.kind, ErrorKind::InvalidData),
        Ok(_) => panic!("expected an error"),
    }
}

#[test]
fn test_BlockReader_new_xz_counts_its_blocks() {
    let bytes = xz_bytes(TEXT.as_bytes());
    let br = BlockReader::new(String::from("t.log.xz"), FileType::FileXz, 16, bytes, 0).unwrap();
    // opening an xz file reads all of it into blocks
    assert_eq!(br.count_bytes(), TEXT.len() as u64);
    assert_eq!(br.count_blocks_processed(), (TEXT.len() as u64 + 15) / 16);
}
