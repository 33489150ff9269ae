//! Tests of the helpers for paths and lists of offsets.
use s4lib::common::FileOffset;
use s4lib::helpers::{
    basename, basename_at, count_chars_in_str, filename_count_extensions, remove_extension, fill, randomize,
    str_rfind, path_to_fpath, fpath_to_path,
};

#[test]
fn test_path_to_fpath_and_back() {
    let p = path_to_fpath("/var/log/syslog");
    assert_eq!(p, String::from("/var/log/syslog"));
    assert_eq!(fpath_to_path(&p), "/var/log/syslog");
}

#[test]
fn test_basename() {
    assert_eq!(basename(&String::from("/var/log/syslog")), "syslog");
    assert_eq!(basename(&String::from("syslog")), "syslog");
    assert_eq!(basename(&String::from("/var/log/")), "");
}

#[test]
fn test_basename_at() {
    assert_eq!(basename_at(&String::from("a:b:c"), ':'), "c");
    assert_eq!(basename_at(&String::from("abc"), ':'), "abc");
}

#[test]
fn test_str_rfind() {
    assert_eq!(str_rfind("a.b.c", '.'), Some(3));
    assert_eq!(str_rfind("abc", '.'), None);
}

#[test]
fn test_count_chars_in_str() {
    assert_eq!(count_chars_in_str("a.b.c", '.'), 2);
    assert_eq!(count_chars_in_str("a.b.c", 'b'), 1);
    assert_eq!(count_chars_in_str("", '.'), 0);
}

#[test]
fn test_filename_count_extensions() {
    assert_eq!(filename_count_extensions(&String::from("/var/log/kern.log.1")), 2);
    assert_eq!(filename_count_extensions(&String::from("/var/log/syslog")), 0);
    assert_eq!(filename_count_extensions(&String::from("/var/log.d/syslog")), 0);
    assert_eq!(filename_count_extensions(&String::from("/")), 0);
}

#[test]
fn test_remove_extension() {
    assert_eq!(remove_extension(&String::from("/var/log/kern.log.1")), Some(String::from("/var/log/kern.log")));
    assert_eq!(remove_extension(&String::from("/var/log/syslog")), None);
    assert_eq!(remove_extension(&String::from("kern.log")), Some(String::from("kern")));
}

#[test]
fn test_fill() {
    let mut v = Vec::<FileOffset>::with_capacity(5);
    fill(&mut v);
    assert!(v.len() >= 5);
    for (i, x) in v.iter().enumerate() {
        assert_eq!(*x, i as FileOffset);
    }
}

#[test]
fn test_randomize_keeps_elements() {
    let mut v: Vec<FileOffset> = (0..50).collect();
    randomize(&mut v);
    assert_eq!(v.len(), 50);
    let mut w = v.clone();
    w.sort();
    assert_eq!(w, (0..50).collect::<Vec<FileOffset>>());
}

#[test]
fn test_randomize_empty() {
    let mut v: Vec<FileOffset> = Vec::new();
    randomize(&mut v);
    assert!(v.is_empty());
}
