//! Readers of log files: blocks of bytes, lines, and datetime-stamped
//! "syslines", with verified contracts over the file's contents.
#![allow(non_snake_case)]
#![allow(non_camel_case_types)]
#![allow(non_upper_case_globals)]

pub mod common;
pub mod datetime;
pub mod cache;
pub mod blockreader;
pub mod linereader;
pub mod sysline;
pub mod syslinereader;
pub mod helpers;
pub mod summary;
pub mod syslogprocessor;
pub mod filepreprocessor;
pub mod laws;
