//! Tests of the file type guesses and of the paths to process.
use s4lib::common::{FileType, FPath};
use s4lib::blockreader::MimeGuess;
use s4lib::filepreprocessor::{
    mimeguess_to_filetype_str, mimeguess_to_filetype, mimeguess_to_filetype_ok, path_to_filetype, fpath_to_filetype,
    parseable_filetype, parseable_filetype_ok, FileParseable, guess_filetype_from_path, guess_filetype_from_fpath,
    guess_filetype_from_mimeguess_path, guess_filetype_from_mimeguess_fpath, process_path_tar, process_path_file,
    process_path_entry, ProcessPathResult, str_starts_with, str_ends_with,
};

fn fp(s: &str) -> FPath {
    String::from(s)
}

#[test]
fn test_mimeguess_to_filetype_str() {
    assert_eq!(mimeguess_to_filetype_str("text/plain"), FileType::File);
    assert_eq!(mimeguess_to_filetype_str("TEXT/PLAIN"), FileType::File);
    assert_eq!(mimeguess_to_filetype_str("text/plain; charset=utf-8"), FileType::File);
    assert_eq!(mimeguess_to_filetype_str("utf-8"), FileType::File);
    assert_eq!(mimeguess_to_filetype_str("application/gzip"), FileType::FileGz);
    assert_eq!(mimeguess_to_filetype_str("Application/X-Tar"), FileType::FileTar);
    assert_eq!(mimeguess_to_filetype_str("application/x-xz"), FileType::FileXz);
    assert_eq!(mimeguess_to_filetype_str("application/octet-stream"), FileType::FileUnknown);
}

#[test]
fn test_mimeguess_to_filetype() {
    assert_eq!(mimeguess_to_filetype(&MimeGuess::from_path("foo.gz")), FileType::FileGz);
    assert_eq!(mimeguess_to_filetype(&MimeGuess::from_path("foo.bin")), FileType::FileUnknown);
    assert_eq!(mimeguess_to_filetype(&MimeGuess::from_path("foo")), FileType::FileUnknown);
    let mg = MimeGuess { types: vec![String::from("application/octet-stream"), String::from("text/plain")] };
    assert_eq!(mimeguess_to_filetype(&mg), FileType::File);
    assert!(mimeguess_to_filetype_ok(&mg));
    assert!(!mimeguess_to_filetype_ok(&MimeGuess::from_path("foo.dll")));
}

#[test]
fn test_path_to_filetype() {
    assert_eq!(path_to_filetype(&fp("/var/log/messages")), FileType::File);
    assert_eq!(path_to_filetype(&fp("/var/log/SYSLOG")), FileType::File);
    assert_eq!(path_to_filetype(&fp("/var/log/noext")), FileType::File);
    assert_eq!(path_to_filetype(&fp("/var/log/log.bin")), FileType::File);
    assert_eq!(path_to_filetype(&fp("/var/log/log.host.bin")), FileType::File);
    assert_eq!(path_to_filetype(&fp("/var/log/log_media.bin")), FileType::File);
    assert_eq!(path_to_filetype(&fp("/var/log/media_log.bin")), FileType::File);
    assert_eq!(path_to_filetype(&fp("/var/log/foo.bin")), FileType::FileUnknown);
    assert_eq!(fpath_to_filetype(&fp("foo.dll")), FileType::FileUnknown);
    assert_eq!(path_to_filetype(&fp("/var/log/media.gzip")), FileType::FileGz);
    assert_eq!(path_to_filetype(&fp("/var/log/media.gz.old")), FileType::FileGz);
    assert_eq!(path_to_filetype(&fp("/var/log/var-log.tar.old")), FileType::FileTar);
    assert_eq!(path_to_filetype(&fp("/var/log/media.log.old")), FileType::File);
    assert_eq!(path_to_filetype(&fp("/var/log/media.old")), FileType::FileUnknown);
}

#[test]
fn test_parseable_filetype() {
    assert_eq!(parseable_filetype(&FileType::File), FileParseable::Yes);
    assert_eq!(parseable_filetype(&FileType::FileGz), FileParseable::Yes);
    assert_eq!(parseable_filetype(&FileType::FileXz), FileParseable::Yes);
    assert_eq!(parseable_filetype(&FileType::FileTar), FileParseable::Yes);
    assert_eq!(parseable_filetype(&FileType::FileTarGz), FileParseable::NoNotSupported);
    assert_eq!(parseable_filetype(&FileType::FileUnknown), FileParseable::NoNotParseable);
    assert_eq!(parseable_filetype(&FileType::Unset), FileParseable::NoNotParseable);
    assert!(parseable_filetype_ok(&FileType::File));
    assert!(!parseable_filetype_ok(&FileType::FileTarGz));
}

#[test]
fn test_guess_filetype_from_path() {
    assert_eq!(guess_filetype_from_path(&fp("foo.txt")).0, FileType::File);
    assert_eq!(guess_filetype_from_path(&fp("foo.log")).0, FileType::File);
    assert_eq!(guess_filetype_from_path(&fp("syslog")).0, FileType::File);
    assert_eq!(guess_filetype_from_path(&fp("foo.bin")).0, FileType::FileUnknown);
    assert_eq!(guess_filetype_from_path(&fp("foo.dll")).0, FileType::FileUnknown);
    assert_eq!(guess_filetype_from_path(&fp("messages.gz")).0, FileType::FileGz);
    assert_eq!(guess_filetype_from_path(&fp("logs.tar")).0, FileType::FileTar);
    assert_eq!(guess_filetype_from_path(&fp("logs.xz")).0, FileType::FileXz);
    // renamed files are also tried without the last extension
    let (ft, mg) = guess_filetype_from_fpath(&fp("/var/log/foo.log.old"));
    assert_eq!(ft, FileType::File);
    assert_eq!(mg.types, vec![String::from("text/plain")]);
    assert_eq!(guess_filetype_from_path(&fp("/var/log/media.gz.old")).0, FileType::FileGz);
}

#[test]
fn test_guess_filetype_from_mimeguess_path() {
    let empty = MimeGuess { types: vec![] };
    assert_eq!(guess_filetype_from_mimeguess_path(&empty, &fp("/var/log/syslog")), FileType::File);
    assert_eq!(guess_filetype_from_mimeguess_fpath(&empty, &fp("/var/log/foo.bin")), FileType::FileUnknown);
    assert_eq!(guess_filetype_from_mimeguess_path(&MimeGuess::from_path("a.gz"), &fp("/var/log/syslog")), FileType::FileGz);
}

#[test]
fn test_str_starts_ends_with() {
    assert!(str_starts_with("log.host", "log."));
    assert!(!str_starts_with("lo", "log."));
    assert!(str_ends_with("media_log", "_log"));
    assert!(!str_ends_with("media_log", "_lug"));
    assert!(str_ends_with("x", ""));
}

fn tar_bytes(files: &[(&str, &[u8])]) -> Vec<u8> {
    let mut builder = tar::Builder::new(Vec::new());
    for (name, data) in files {
        let mut header = tar::Header::new_gnu();
        header.set_size(data.len() as u64);
        header.set_mode(0o644);
        header.set_cksum();
        builder.append_data(&mut header, name, *data).unwrap();
    }
    builder.into_inner().unwrap()
}

#[test]
fn test_process_path_tar() {
    let bytes = tar_bytes(&[("a.log", b"line\n"), ("b.bin", b"\x00"), ("c.gz", b"zz")]);
    let results = process_path_tar(&fp("/tmp/logs.tar"), &bytes);
    assert_eq!(results.len(), 2);
    match &results[0] {
        ProcessPathResult::FileValid(p, _, ft) => {
            assert_eq!(p, "/tmp/logs.tar:a.log");
            assert_eq!(*ft, FileType::FileTar);
        }
        other => panic!("unexpected {:?}", other),
    }
    match &results[1] {
        ProcessPathResult::FileErrNotParseable(p, _) => {
            assert_eq!(p, "c.gz");
        }
        other => panic!("unexpected {:?}", other),
    }
}

#[test]
fn test_process_path_tar_not_tar() {
    let results = process_path_tar(&fp("/tmp/logs.tar"), &b"not a tar file".to_vec());
    assert!(results.is_empty());
}

#[test]
fn test_process_path_file() {
    let results = process_path_file(&fp("/var/log/syslog"), &b"x\n".to_vec());
    assert_eq!(results.len(), 1);
    match &results[0] {
        ProcessPathResult::FileValid(p, _, ft) => {
            assert_eq!(p, "/var/log/syslog");
            assert_eq!(*ft, FileType::File);
        }
        other => panic!("unexpected {:?}", other),
    }
    let bytes = tar_bytes(&[("x.txt", b"x\n")]);
    let results = process_path_file(&fp("/tmp/a.tar"), &bytes);
    assert_eq!(results.len(), 1);
    match &results[0] {
        ProcessPathResult::FileValid(p, _, ft) => {
            assert_eq!(p, "/tmp/a.tar:x.txt");
            assert_eq!(*ft, FileType::FileTar);
        }
        other => panic!("unexpected {:?}", other),
    }
}

#[test]
fn test_process_path_entry() {
    assert!(process_path_entry(&fp("/var/log"), false, true).is_none());
    match process_path_entry(&fp("/var/log/fifo"), false, false) {
        Some(ProcessPathResult::FileErrNotAFile(p, mg)) => {
            assert_eq!(p, "/var/log/fifo");
            assert!(mg.types.is_empty());
        }
        other => panic!("unexpected {:?}", other),
    }
    match process_path_entry(&fp("/var/log/foo.bin"), true, false) {
        Some(ProcessPathResult::FileErrNotParseable(p, _)) => assert_eq!(p, "/var/log/foo.bin"),
        other => panic!("unexpected {:?}", other),
    }
    match process_path_entry(&fp("/var/log/foo.log"), true, false) {
        Some(ProcessPathResult::FileValid(_, _, ft)) => assert_eq!(ft, FileType::File),
        other => panic!("unexpected {:?}", other),
    }
}
