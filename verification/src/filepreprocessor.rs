//! Finding the files that can be parsed, and their types, from their paths.
#![allow(non_snake_case)]
use vstd::prelude::*;
use crate::common::{FPath, FileType, spec_to_tar};
use crate::blockreader::{MimeGuess, SUBPATH_SEP, mime_guess_of, str_eq, tar_entries, tar_entries_of};
use crate::helpers::{
    path_file_name, path_file_name_of, filename_count_extensions, spec_filename_count_extensions,
    remove_extension, spec_remove_extension,
};
use crate::common::string_push;

verus! {

/// What a path was found to be.
#[derive(Debug)]
pub enum ProcessPathResult {
    FileValid(FPath, MimeGuess, FileType),
    FileErrNoPermissions(FPath, MimeGuess),
    FileErrNotSupported(FPath, MimeGuess),
    FileErrNotParseable(FPath, MimeGuess),
    FileErrNotAFile(FPath, MimeGuess),
}

pub type ProcessPathResults = Vec<ProcessPathResult>;

/// Is a file type supported?
#[derive(Clone, Copy, Debug, PartialEq, Eq, Structural)]
pub enum FileParseable {
    Yes,
    NoNotSupported,
    NoNotParseable,
}

// ---------------------------------------------------------------------------------------
// strings
// ---------------------------------------------------------------------------------------

/// The lowercase form of a string (Unicode's lowercase mapping of each char).
pub uninterp spec fn lowercase_of(s: Seq<char>) -> Seq<char>;

/// Calls `str::to_lowercase`; the result is named `lowercase_of`.
#[verifier::external_body]
fn str_to_lowercase(s: &str) -> (r: String)
    ensures
        r@ == lowercase_of(s@),
{
    s.to_lowercase()
}

/// Does `s` begin with `prefix`?
pub fn str_starts_with(s: &str, prefix: &str) -> (r: bool)
    ensures
        r == prefix@.is_prefix_of(s@),
{
    let n = s.unicode_len();
    let m = prefix.unicode_len();
    if m > n {
        return false;
    }
    let mut i: usize = 0;
    while i < m
        invariant
            n == s@.len(),
            m == prefix@.len(),
            m <= n,
            i <= m,
            forall|k: int| 0 <= k < i ==> prefix@[k] == s@[k],
        decreases m - i,
    {
        if s.get_char(i) != prefix.get_char(i) {
            return false;
        }
        i += 1;
    }
    proof {
        assert(prefix@ =~= s@.subrange(0, m as int));
    }
    true
}

/// Does `s` end with `suffix`?
pub fn str_ends_with(s: &str, suffix: &str) -> (r: bool)
    ensures
        r == suffix@.is_suffix_of(s@),
{
    let n = s.unicode_len();
    let m = suffix.unicode_len();
    if m > n {
        return false;
    }
    let d = n - m;
    let mut i: usize = 0;
    while i < m
        invariant
            n == s@.len(),
            m == suffix@.len(),
            d == n - m,
            i <= m,
            forall|k: int| 0 <= k < i ==> suffix@[k] == s@[d + k],
        decreases m - i,
    {
        if s.get_char(d + i) != suffix.get_char(i) {
            proof {
                assert(s@.subrange(d as int, n as int)[i as int] == s@[d + i]);
            }
            return false;
        }
        i += 1;
    }
    proof {
        assert(suffix@ =~= s@.subrange(d as int, n as int));
    }
    true
}

// ---------------------------------------------------------------------------------------
// file types from MIME types
// ---------------------------------------------------------------------------------------

/// The file type of a (lowercase) MIME type.
pub open spec fn spec_mimestr_filetype(lower: Seq<char>) -> FileType {
    if lower == "plain"@ || lower == "text"@ || lower == "text/plain"@ || lower == "text/plain; charset=utf-8"@
        || lower == "text/*"@ || lower == "utf-8"@ {
        FileType::File
    } else if lower == "application/gzip"@ {
        FileType::FileGz
    } else if lower == "application/x-tar"@ {
        FileType::FileTar
    } else if lower == "application/x-xz"@ {
        FileType::FileXz
    } else {
        FileType::FileUnknown
    }
}

/// The file type of a MIME type, compared in lowercase.
pub fn mimeguess_to_filetype_str(mimeguess_str: &str) -> (r: FileType)
    ensures
        r == spec_mimestr_filetype(lowercase_of(mimeguess_str@)),
{
    let lower = str_to_lowercase(mimeguess_str);
    let l = lower.as_str();
    if str_eq(l, "plain") || str_eq(l, "text") || str_eq(l, "text/plain") || str_eq(l, "text/plain; charset=utf-8")
        || str_eq(l, "text/*") || str_eq(l, "utf-8") {
        FileType::File
    } else if str_eq(l, "application/gzip") {
        FileType::FileGz
    } else if str_eq(l, "application/x-tar") {
        FileType::FileTar
    } else if str_eq(l, "application/x-xz") {
        FileType::FileXz
    } else {
        FileType::FileUnknown
    }
}

/// The file type of the first of the MIME types that has a known one; else unknown.
pub open spec fn spec_types_filetype(types: Seq<Seq<char>>) -> FileType
    decreases types.len(),
{
    if types.len() == 0 {
        FileType::FileUnknown
    } else {
        let ft = spec_mimestr_filetype(lowercase_of(types[0]));
        if ft != FileType::FileUnknown && ft != FileType::Unset {
            ft
        } else {
            spec_types_filetype(types.drop_first())
        }
    }
}

/// The file type of a MIME guess: that of the first guessed type that has a known one.
pub fn mimeguess_to_filetype(mimeguess: &MimeGuess) -> (r: FileType)
    ensures
        r == spec_types_filetype(mimeguess.types@.map_values(|t: String| t@)),
{
    let ghost types = mimeguess.types@.map_values(|t: String| t@);
    let n = mimeguess.types.len();
    let mut i: usize = 0;
    proof {
        assert(types.subrange(0, n as int) =~= types);
    }
    while i < n
        invariant
            n == mimeguess.types@.len(),
            types == mimeguess.types@.map_values(|t: String| t@),
            i <= n,
            spec_types_filetype(types) == spec_types_filetype(types.subrange(i as int, n as int)),
        decreases n - i,
    {
        let ft = mimeguess_to_filetype_str(mimeguess.types[i].as_str());
        proof {
            let rest = types.subrange(i as int, n as int);
            assert(rest[0] == mimeguess.types@[i as int]@);
            assert(rest.drop_first() =~= types.subrange(i + 1, n as int));
        }
        match ft {
            FileType::FileUnknown | FileType::Unset => {},
            val => {
                return val;
            },
        }
        i += 1;
    }
    FileType::FileUnknown
}

// ---------------------------------------------------------------------------------------
// file types from paths
// ---------------------------------------------------------------------------------------

/// The extension of a path's file name: after its last `.`, where the name has one
/// that does not begin it.
pub uninterp spec fn path_extension_of(path: Seq<char>) -> Option<Seq<char>>;

/// Calls `std::path::Path::extension`; the result is named `path_extension_of`.
#[verifier::external_body]
fn path_extension(path: &str) -> (r: Option<String>)
    ensures
        r matches Some(e) ==> path_extension_of(path@) == Some(e@),
        r is None ==> path_extension_of(path@) is None,
{
    std::path::Path::new(path).extension().map(|e| e.to_string_lossy().into_owned())
}

/// The stem of a path's file name: the name without its extension.
pub uninterp spec fn path_file_stem_of(path: Seq<char>) -> Option<Seq<char>>;

/// Calls `std::path::Path::file_stem`; the result is named `path_file_stem_of`.
#[verifier::external_body]
fn path_file_stem(path: &str) -> (r: Option<String>)
    ensures
        r matches Some(e) ==> path_file_stem_of(path@) == Some(e@),
        r is None ==> path_file_stem_of(path@) is None,
{
    std::path::Path::new(path).file_stem().map(|e| e.to_string_lossy().into_owned())
}

/// Names of files that are syslogs, whatever their MIME guess.
pub open spec fn parseable_filename(n: Seq<char>) -> bool {
    n == "messages"@ || n == "MESSAGES"@ || n == "syslog"@ || n == "SYSLOG"@ || n == "faillog"@
        || n == "lastlog"@ || n == "kernlog"@
}

/// Is `n` one of the names of files that are syslogs?
fn is_parseable_filename(n: &str) -> (r: bool)
    ensures
        r == parseable_filename(n@),
{
    str_eq(n, "messages") || str_eq(n, "MESSAGES") || str_eq(n, "syslog") || str_eq(n, "SYSLOG")
        || str_eq(n, "faillog") || str_eq(n, "lastlog") || str_eq(n, "kernlog")
}

/// The value of an optional string, or the empty string.
pub open spec fn or_empty(o: Option<Seq<char>>) -> Seq<char> {
    match o {
        Some(s) => s,
        None => Seq::empty(),
    }
}

/// The file type that a path's name implies: syslogs by name, names without an
/// extension, names of the forms `log`, `log.*`, `log_*`, `*_log` and `*.log.old`;
/// gzip files named `*.gz.old` or `*.gzip`; tar files named `*.tar.old`; else unknown.
pub open spec fn spec_path_to_filetype(p: Seq<char>) -> FileType {
    let name = or_empty(path_file_name_of(p));
    let prefix = or_empty(path_file_stem_of(p));
    let suffix = or_empty(path_extension_of(p));
    if parseable_filename(name) {
        FileType::File
    } else if path_extension_of(p) is None {
        FileType::File
    } else if prefix == "log"@ || "log."@.is_prefix_of(prefix) || "log_"@.is_prefix_of(prefix)
        || "_log"@.is_suffix_of(prefix) || ".log.old"@.is_suffix_of(name) {
        FileType::File
    } else if ".gz.old"@.is_suffix_of(name) || ".gzip"@.is_suffix_of(name) {
        FileType::FileGz
    } else if ".tar.old"@.is_suffix_of(name) {
        FileType::FileTar
    } else {
        FileType::FileUnknown
    }
}

/// The file type that a path's name implies, for files that the MIME guess does not
/// place, such as file names without an extension (`messages`, `syslog`).
pub fn path_to_filetype(path: &FPath) -> (r: FileType)
    ensures
        r == spec_path_to_filetype(path@),
{
    let name = match path_file_name(path.as_str()) {
        Some(n) => n,
        None => String::new(),
    };
    if is_parseable_filename(name.as_str()) {
        return FileType::File;
    }
    let ext = path_extension(path.as_str());
    let file_suffix = match ext {
        None => {
            return FileType::File;
        },
        Some(e) => e,
    };
    let file_prefix = match path_file_stem(path.as_str()) {
        Some(s) => s,
        None => String::new(),
    };
    let prefix = file_prefix.as_str();
    let suffix = file_suffix.as_str();
    if str_eq(prefix, "log") || str_starts_with(prefix, "log.") || str_starts_with(prefix, "log_")
        || str_ends_with(prefix, "_log") || str_ends_with(name.as_str(), ".log.old") {
        return FileType::File;
    }
    if str_ends_with(name.as_str(), ".gz.old") || str_ends_with(name.as_str(), ".gzip") {
        return FileType::FileGz;
    }
    if str_ends_with(name.as_str(), ".tar.old") {
        return FileType::FileTar;
    }
    FileType::FileUnknown
}

/// The file type that a path's name implies (`path_to_filetype`).
pub fn fpath_to_filetype(path: &FPath) -> (r: FileType)
    ensures
        r == spec_path_to_filetype(path@),
{
    path_to_filetype(path)
}

/// Whether a file type is supported.
pub open spec fn spec_parseable_filetype(ft: FileType) -> FileParseable {
    match ft {
        FileType::File | FileType::FileGz | FileType::FileXz | FileType::FileTar => FileParseable::Yes,
        FileType::FileTarGz => FileParseable::NoNotSupported,
        _ => FileParseable::NoNotParseable,
    }
}

/// Is the file type supported? Plain, gzip, xz and tar files are; gzipped tar files
/// are not yet; other types cannot be parsed.
pub fn parseable_filetype(filetype: &FileType) -> (r: FileParseable)
    ensures
        r == spec_parseable_filetype(*filetype),
{
    match filetype {
        FileType::File | FileType::FileGz | FileType::FileXz | FileType::FileTar => FileParseable::Yes,
        FileType::FileTarGz => FileParseable::NoNotSupported,
        _ => FileParseable::NoNotParseable,
    }
}

/// Is the file type supported?
pub fn parseable_filetype_ok(filetype: &FileType) -> (r: bool)
    ensures
        r == (spec_parseable_filetype(*filetype) == FileParseable::Yes),
{
    matches!(parseable_filetype(filetype), FileParseable::Yes)
}

/// Is the file type of the MIME guess supported?
pub fn mimeguess_to_filetype_ok(mimeguess: &MimeGuess) -> (r: bool)
    ensures
        r == (spec_parseable_filetype(spec_types_filetype(mimeguess.types@.map_values(|t: String| t@))) == FileParseable::Yes),
{
    matches!(parseable_filetype(&mimeguess_to_filetype(mimeguess)), FileParseable::Yes)
}

/// The file type of the MIME types, where supported; else that of the path's name.
pub open spec fn spec_guess_from_types_path(types: Seq<Seq<char>>, p: Seq<char>) -> FileType {
    let ft = spec_types_filetype(types);
    if spec_parseable_filetype(ft) == FileParseable::Yes { ft } else { spec_path_to_filetype(p) }
}

/// The file type of the MIME guess, where supported; else that of the path's name.
pub fn guess_filetype_from_mimeguess_path(mimeguess: &MimeGuess, path: &FPath) -> (r: FileType)
    ensures
        r == spec_guess_from_types_path(mimeguess.types@.map_values(|t: String| t@), path@),
{
    let mut filetype: FileType = mimeguess_to_filetype(mimeguess);
    if !parseable_filetype_ok(&filetype) {
        filetype = path_to_filetype(path);
    }
    filetype
}

/// The file type of the MIME guess, where supported; else that of the path's name.
pub fn guess_filetype_from_mimeguess_fpath(mimeguess: &MimeGuess, path: &FPath) -> (r: FileType)
    ensures
        r == spec_guess_from_types_path(mimeguess.types@.map_values(|t: String| t@), path@),
{
    guess_filetype_from_mimeguess_path(mimeguess, path)
}

/// The MIME types guessed for a path: from its name, or, where none are and the name
/// has more than one extension (`kern.log.1`), from the name without its last one.
pub open spec fn spec_guess_mime(p: Seq<char>) -> Seq<Seq<char>> {
    let g = mime_guess_of(p);
    if g.len() == 0 && spec_filename_count_extensions(p) > 1 {
        match spec_remove_extension(p) {
            Some(p2) => mime_guess_of(p2),
            None => g,
        }
    } else {
        g
    }
}

/// The file type guessed for a path: that of its MIME types where supported; else
/// that of its name; else, where the name has more than one extension, that of the
/// name without its last one.
pub open spec fn spec_guess_filetype(p: Seq<char>) -> FileType {
    let ft = spec_types_filetype(spec_guess_mime(p));
    if spec_parseable_filetype(ft) == FileParseable::Yes {
        ft
    } else {
        let ft2 = spec_path_to_filetype(p);
        if spec_parseable_filetype(ft2) != FileParseable::Yes && spec_filename_count_extensions(p) > 1 {
            match spec_remove_extension(p) {
                Some(p2) => spec_path_to_filetype(p2),
                None => ft2,
            }
        } else {
            ft2
        }
    }
}

/// The file type and the MIME guess of a path. Renamed syslogs (`file.log.old`,
/// `kern.log.1`) are also tried without the appended extension.
pub fn guess_filetype_from_path(path: &FPath) -> (r: (FileType, MimeGuess))
    ensures
        r.0 == spec_guess_filetype(path@),
        r.1.types@.map_values(|t: String| t@) == spec_guess_mime(path@),
{
    let mut mimeguess: MimeGuess = MimeGuess::from_path(path.as_str());
    if mimeguess.is_empty() && filename_count_extensions(path) > 1 {
        match remove_extension(path) {
            None => {},
            Some(path_) => {
                mimeguess = MimeGuess::from_path(path_.as_str());
            },
        }
    }
    let mut filetype: FileType = mimeguess_to_filetype(&mimeguess);
    if !parseable_filetype_ok(&filetype) {
        filetype = path_to_filetype(path);
        if !parseable_filetype_ok(&filetype) && filename_count_extensions(path) > 1 {
            match remove_extension(path) {
                None => {},
                Some(path_) => {
                    filetype = path_to_filetype(&path_);
                },
            }
        }
    }
    (filetype, mimeguess)
}

/// The file type and the MIME guess of a path (`guess_filetype_from_path`).
pub fn guess_filetype_from_fpath(path: &FPath) -> (r: (FileType, MimeGuess))
    ensures
        r.0 == spec_guess_filetype(path@),
        r.1.types@.map_values(|t: String| t@) == spec_guess_mime(path@),
{
    guess_filetype_from_path(path)
}

// ---------------------------------------------------------------------------------------
// paths to process
// ---------------------------------------------------------------------------------------

/// The path of a file within an archive: the archive's path, `SUBPATH_SEP`, and the
/// path within.
pub open spec fn archived_path(path: Seq<char>, subpath: Seq<char>) -> Seq<char> {
    path.push(SUBPATH_SEP) + subpath
}

/// What the entries of a tar file give, in order: regular files of a type that can be
/// read from the archive; those of an unsupported type as not parseable.
pub open spec fn spec_tar_results(path: Seq<char>, entries: Seq<Option<(Seq<char>, Option<u64>, u32, u64, bool)>>) -> Seq<(int, Seq<char>, Seq<Seq<char>>, FileType)>
    decreases entries.len(),
{
    if entries.len() == 0 {
        Seq::empty()
    } else {
        let before = spec_tar_results(path, entries.drop_last());
        match entries.last() {
            Some(e) => {
                if !e.4 {
                    before
                } else {
                    let ft = spec_to_tar(spec_guess_filetype(e.0));
                    if ft == FileType::FileUnknown {
                        before
                    } else if spec_parseable_filetype(ft) != FileParseable::Yes {
                        before.push((1, e.0, spec_guess_mime(e.0), FileType::Unset))
                    } else {
                        before.push((0, archived_path(path, e.0), spec_guess_mime(e.0), ft))
                    }
                }
            },
            None => before,
        }
    }
}

/// The result `v` comes from a regular file of the archive at `path`: an entry of the
/// listing `es` that could be read, whose header's entry type is a regular file, and
/// whose path (within the archive, or joined to the archive's) `v` holds.
pub open spec fn from_regular_entry(es: Seq<Option<(Seq<char>, Option<u64>, u32, u64, bool)>>, path: Seq<char>,
    v: (int, Seq<char>, Seq<Seq<char>>, FileType)) -> bool {
    exists|i: int| 0 <= i < es.len() && #[trigger] es[i] is Some && (es[i]->0).4
        && (v.1 == archived_path(path, (es[i]->0).0) || v.1 == (es[i]->0).0)
}

/// The result as a plain value: its kind (0 valid, 1 not parseable, 2 not supported,
/// 3 not a file, 4 no permissions), path, MIME types and file type (`Unset` where
/// the result holds none).
pub open spec fn result_view(r: ProcessPathResult) -> (int, Seq<char>, Seq<Seq<char>>, FileType) {
    match r {
        ProcessPathResult::FileValid(p, m, ft) => (0, p@, m.types@.map_values(|t: String| t@), ft),
        ProcessPathResult::FileErrNotParseable(p, m) => (1, p@, m.types@.map_values(|t: String| t@), FileType::Unset),
        ProcessPathResult::FileErrNotSupported(p, m) => (2, p@, m.types@.map_values(|t: String| t@), FileType::Unset),
        ProcessPathResult::FileErrNotAFile(p, m) => (3, p@, m.types@.map_values(|t: String| t@), FileType::Unset),
        ProcessPathResult::FileErrNoPermissions(p, m) => (4, p@, m.types@.map_values(|t: String| t@), FileType::Unset),
    }
}

/// The path of a file within an archive.
fn archived_fpath(path: &FPath, subpath: &FPath) -> (r: FPath)
    ensures
        r@ == archived_path(path@, subpath@),
{
    let mut fullpath: FPath = path.clone();
    string_push(&mut fullpath, SUBPATH_SEP);
    fullpath.append(subpath.as_str());
    fullpath
}

/// A result per file of the tar file at `path`, whose bytes are `tar_bytes`: each
/// regular file of a type that can be read from the archive is valid, with the path
/// `archived_path`; one of an unsupported type is not parseable. Empty where the
/// entries cannot be listed.
pub fn process_path_tar(path: &FPath, tar_bytes: &Vec<u8>) -> (r: Vec<ProcessPathResult>)
    ensures
        match tar_entries_of(tar_bytes@) {
            Some(es) => r@.map_values(|x: ProcessPathResult| result_view(x)) == spec_tar_results(path@, es),
            None => r@.len() == 0,
        },
        tar_entries_of(tar_bytes@) matches Some(es) ==>
            forall|k: int| 0 <= k < r@.len() ==> from_regular_entry(es, path@, #[trigger] result_view(r@[k])),
{
    let entries = match tar_entries(tar_bytes.as_slice()) {
        Some(e) => e,
        None => {
            return Vec::new();
        },
    };
    let ghost es = entries@.map_values(|e: Option<(String, Option<u64>, u32, u64, bool)>| match e { Some(t) => Some((t.0@, t.1, t.2, t.3, t.4)), None => None });
    let mut results: Vec<ProcessPathResult> = Vec::new();
    let mut i: usize = 0;
    while i < entries.len()
        invariant
            i <= entries@.len(),
            es == entries@.map_values(|e: Option<(String, Option<u64>, u32, u64, bool)>| match e { Some(t) => Some((t.0@, t.1, t.2, t.3, t.4)), None => None }),
            results@.map_values(|x: ProcessPathResult| result_view(x)) == spec_tar_results(path@, es.take(i as int)),
            es.len() == entries@.len(),
            forall|k: int| 0 <= k < results@.len() ==> from_regular_entry(es, path@, #[trigger] result_view(results@[k])),
        decreases entries@.len() - i,
    {
        let ghost before = results@;
        let ghost vb = before.map_values(|x: ProcessPathResult| result_view(x));
        proof {
            assert(es.take(i + 1).drop_last() =~= es.take(i as int));
            assert(es.take(i + 1).last() == es[i as int]);
        }
        match &entries[i] {
            Some((subfpath, _size, _cksum, _mtime, is_file)) => {
                proof {
                    assert(es[i as int] == Some((subfpath@, *_size, *_cksum, *_mtime, *is_file)));
                }
                if *is_file {
                    let (filetype_subpath, mimeguess) = guess_filetype_from_path(subfpath);
                    let filetype = filetype_subpath.to_tar();
                    if filetype != FileType::FileUnknown {
                        if !parseable_filetype_ok(&filetype) {
                            results.push(ProcessPathResult::FileErrNotParseable(subfpath.clone(), mimeguess));
                        } else {
                            let fullpath = archived_fpath(path, subfpath);
                            results.push(ProcessPathResult::FileValid(fullpath, mimeguess, filetype));
                        }
                        proof {
                            assert(results@.map_values(|x: ProcessPathResult| result_view(x)) =~=
                                vb.push(result_view(results@.last())));
                            assert(es[i as int] is Some && (es[i as int]->0).4);
                            assert forall|k: int| 0 <= k < results@.len() implies from_regular_entry(es, path@, #[trigger] result_view(results@[k])) by {
                                if k < before.len() {
                                    assert(results@[k] == before[k]);
                                } else {
                                    assert(from_regular_entry(es, path@, result_view(results@[k]))) by {
                                        assert(es[i as int] is Some && (es[i as int]->0).4);
                                    }
                                }
                            }
                        }
                    } else {
                        proof {
                            assert(results@ == before);
                        }
                    }
                } else {
                    proof {
                        assert(results@ == before);
                    }
                }
            },
            None => {
                proof {
                    assert(es[i as int] is None);
                    assert(results@ == before);
                }
            },
        }
        i += 1;
    }
    proof {
        assert(es.take(entries@.len() as int) =~= es);
    }
    results
}

/// What a plain file gives: valid with its guessed type, unless it is an archive;
/// an archive gives the results of its files (`spec_tar_results`).
pub fn process_path_file(path: &FPath, file_bytes: &Vec<u8>) -> (r: Vec<ProcessPathResult>)
    ensures
        !(spec_guess_filetype(path@) == FileType::FileTar || spec_guess_filetype(path@) == FileType::FileTarGz) ==>
            r@.map_values(|x: ProcessPathResult| result_view(x)) == seq![(0int, path@, spec_guess_mime(path@), spec_guess_filetype(path@))],
        (spec_guess_filetype(path@) == FileType::FileTar || spec_guess_filetype(path@) == FileType::FileTarGz) ==>
            match tar_entries_of(file_bytes@) {
                Some(es) => r@.map_values(|x: ProcessPathResult| result_view(x)) == spec_tar_results(path@, es),
                None => r@.len() == 0,
            },
        (spec_guess_filetype(path@) == FileType::FileTar || spec_guess_filetype(path@) == FileType::FileTarGz) ==>
            (tar_entries_of(file_bytes@) matches Some(es) ==>
                forall|k: int| 0 <= k < r@.len() ==> from_regular_entry(es, path@, #[trigger] result_view(r@[k]))),
{
    let (filetype, mimeguess) = guess_filetype_from_path(path);
    if !filetype.is_archived() {
        let mut v: Vec<ProcessPathResult> = Vec::new();
        v.push(ProcessPathResult::FileValid(path.clone(), mimeguess, filetype));
        proof {
            assert(v@.map_values(|x: ProcessPathResult| result_view(x)) =~= seq![(0int, path@, spec_guess_mime(path@), spec_guess_filetype(path@))]);
        }
        return v;
    }
    process_path_tar(path, file_bytes)
}

/// What an entry met while walking a directory gives: nothing for a directory; not a
/// file, for what is neither a directory nor a regular file; else, by whether its
/// guessed type is supported, valid, not parseable or not supported.
pub fn process_path_entry(fpath: &FPath, is_file: bool, is_dir: bool) -> (r: Option<ProcessPathResult>)
    ensures
        !is_file && is_dir ==> r is None,
        !is_file && !is_dir ==> (r matches Some(x) && result_view(x).0 == 3 && result_view(x).1 == fpath@
            && result_view(x).2.len() == 0),
        is_file ==> (r matches Some(x) && result_view(x) == (
            match spec_parseable_filetype(spec_guess_filetype(fpath@)) {
                FileParseable::Yes => (0int, fpath@, spec_guess_mime(fpath@), spec_guess_filetype(fpath@)),
                FileParseable::NoNotParseable => (1int, fpath@, spec_guess_mime(fpath@), FileType::Unset),
                FileParseable::NoNotSupported => (2int, fpath@, spec_guess_mime(fpath@), FileType::Unset),
            })),
{
    if !is_file {
        if is_dir {
            return None;
        }
        let mg = MimeGuess::from_ext("");
        proof {
            reveal_strlit("");
        }
        return Some(ProcessPathResult::FileErrNotAFile(fpath.clone(), mg));
    }
    let (filetype, mimeguess) = guess_filetype_from_path(fpath);
    match parseable_filetype(&filetype) {
        FileParseable::Yes => Some(ProcessPathResult::FileValid(fpath.clone(), mimeguess, filetype)),
        FileParseable::NoNotParseable => Some(ProcessPathResult::FileErrNotParseable(fpath.clone(), mimeguess)),
        FileParseable::NoNotSupported => Some(ProcessPathResult::FileErrNotSupported(fpath.clone(), mimeguess)),
    }
}

} // verus!
