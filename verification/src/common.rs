//! Types shared by all readers.
use vstd::prelude::*;
use std::sync::Arc;

verus! {

/// A path to a file, as a string.
pub type FPath = String;
/// A byte offset into a file (its uncompressed contents).
pub type FileOffset = u64;
/// A file size in bytes.
pub type FileSz = u64;
/// A counter.
pub type Count = u64;
/// Size of a character in bytes.
pub type CharSz = usize;
/// A sequence of bytes.
pub type Bytes = Vec<u8>;

/// The newline byte.
pub const NLu8: u8 = 10;

/// Largest size of a syslog message, in bytes.
pub const SYSLOG_SZ_MAX: usize = 8096;

/// How a file is read.
#[derive(Clone, Copy, Debug, PartialEq, Eq, Structural, Default)]
pub enum FileType {
    #[default]
    Unset,
    File,
    FileGz,
    FileXz,
    FileTar,
    FileTarGz,
    FileUnknown,
}

/// The type of a file of `ft` when it lies within a tar archive.
pub open spec fn spec_to_tar(ft: FileType) -> FileType {
    match ft {
        FileType::File => FileType::FileTar,
        FileType::FileGz => FileType::FileTarGz,
        _ => FileType::FileUnknown,
    }
}

impl FileType {
    /// The type of such a file when it lies within a tar archive: a plain file is read
    /// out of the archive, a gzipped one out of a gzipped archive; other types are unknown.
    pub fn to_tar(&self) -> (r: FileType)
        ensures
            r == spec_to_tar(*self),
    {
        match *self {
            FileType::File => FileType::FileTar,
            FileType::FileGz => FileType::FileTarGz,
            _ => FileType::FileUnknown,
        }
    }

    /// Is the file a member of an archive file?
    pub fn is_archived(&self) -> (r: bool)
        ensures
            r == (*self == FileType::FileTar || *self == FileType::FileTarGz),
    {
        matches!(*self, FileType::FileTar | FileType::FileTarGz)
    }
}

/// The kind of an error, after `std::io::ErrorKind`.
#[derive(Clone, Copy, Debug, PartialEq, Eq, Structural)]
pub enum ErrorKind {
    NotFound,
    InvalidInput,
    InvalidData,
    UnexpectedEof,
    Unsupported,
    Other,
}

/// An error with a kind and a message.
#[derive(Debug)]
pub struct Error {
    pub kind: ErrorKind,
    pub message: String,
}

impl Error {
    pub fn new(kind: ErrorKind, message: &str) -> (e: Error)
        ensures
            e.kind == kind,
            e.message@ == message@,
    {
        Error { kind, message: String::from_str(message) }
    }
}

/// Result of a search with three outcomes.
#[derive(Debug)]
pub enum ResultS3<T, E> {
    Found(T),
    Done,
    Error(E),
}

/// Result of a search with four outcomes; `Found_EOF` is a find at the end of the file.
#[derive(Debug)]
pub enum ResultS4<T, E> {
    Found(T),
    Found_EOF(T),
    Done,
    Error(E),
}

impl<T, E> ResultS4<T, E> {
    pub fn is_found(&self) -> (r: bool)
        ensures
            r == (self is Found || self is Found_EOF),
    {
        matches!(self, ResultS4::Found(_) | ResultS4::Found_EOF(_))
    }

    pub fn is_eof(&self) -> (r: bool)
        ensures
            r == (self is Found_EOF),
    {
        matches!(self, ResultS4::Found_EOF(_))
    }

    pub fn is_done(&self) -> (r: bool)
        ensures
            r == (self is Done),
    {
        matches!(self, ResultS4::Done)
    }

    pub fn is_err(&self) -> (r: bool)
        ensures
            r == (self is Error),
    {
        matches!(self, ResultS4::Error(_))
    }
}

/// The outcome of checking a file before and while its syslines are read.
#[derive(Debug)]
pub enum FileProcessingResult<E> {
    FileOk,
    FileErrIo(E),
    FileErrEmpty,
    FileErrNoLinesFound,
    FileErrNoSyslinesFound,
    FileErrDecompressFailed,
    FileErrWrongType,
}

impl<E> FileProcessingResult<E> {
    /// Is it `FileOk`?
    pub fn is_ok(&self) -> (r: bool)
        ensures
            r == (self is FileOk),
    {
        matches!(self, FileProcessingResult::FileOk)
    }
}

/// Calls `Arc::clone`, which makes another pointer to the same value (std documentation).
#[verifier::external_body]
pub(crate) fn arc_clone<T>(a: &Arc<T>) -> (r: Arc<T>)
    ensures
        r == *a,
{
    a.clone()
}

/// Calls `String::push`, which appends the char (std documentation).
#[verifier::external_body]
pub(crate) fn string_push(s: &mut String, c: char)
    ensures
        final(s)@ == old(s)@.push(c),
{
    s.push(c);
}

} // verus!
