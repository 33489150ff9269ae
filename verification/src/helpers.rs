//! Helpers for paths and for lists of file offsets.
use vstd::prelude::*;
use crate::common::{FPath, FileOffset};

verus! {

// ---------------------------------------------------------------------------------------
// paths, as strings
// ---------------------------------------------------------------------------------------

/// The number of times `c` occurs in `s`.
pub open spec fn count_of(s: Seq<char>, c: char) -> nat
    decreases s.len(),
{
    if s.len() == 0 {
        0
    } else {
        count_of(s.drop_last(), c) + if s.last() == c { 1nat } else { 0nat }
    }
}

/// `count_of` is at most the length.
pub proof fn lemma_count_of_le(s: Seq<char>, c: char)
    ensures
        count_of(s, c) <= s.len(),
    decreases s.len(),
{
    if s.len() > 0 {
        lemma_count_of_le(s.drop_last(), c);
    }
}

/// The index of the last `c` in `s`, or -1 where there is none.
pub open spec fn last_index_of(s: Seq<char>, c: char) -> int
    decreases s.len(),
{
    if s.len() == 0 {
        -1
    } else if s.last() == c {
        s.len() - 1
    } else {
        last_index_of(s.drop_last(), c)
    }
}

/// `last_index_of` is an index holding `c` with no `c` after it, or -1 where `c`
/// does not occur.
pub proof fn lemma_last_index_of(s: Seq<char>, c: char)
    ensures
        -1 <= last_index_of(s, c) < s.len(),
        last_index_of(s, c) >= 0 ==> s[last_index_of(s, c)] == c,
        forall|k: int| last_index_of(s, c) < k < s.len() ==> s[k] != c,
    decreases s.len(),
{
    if s.len() > 0 && s.last() != c {
        lemma_last_index_of(s.drop_last(), c);
        assert forall|k: int| last_index_of(s, c) < k < s.len() implies s[k] != c by {
            if k < s.len() - 1 {
                assert(s[k] == s.drop_last()[k]);
            }
        }
    }
}

/// The part of `s` after the last `c` (all of `s` where `c` does not occur).
pub open spec fn after_last(s: Seq<char>, c: char) -> Seq<char> {
    s.subrange(last_index_of(s, c) + 1, s.len() as int)
}

/// The separator of path components on this platform: `/` on Unix, `\` on
/// Windows (`std::path::MAIN_SEPARATOR`).
#[verifier::external_body]
fn main_separator() -> (c: char)
    ensures
        c == '/' || c == '\\',
{
    std::path::MAIN_SEPARATOR
}

/// The index of the last `c` in `s`, if any.
pub fn str_rfind(s: &str, c: char) -> (r: Option<usize>)
    ensures
        match r {
            Some(i) => i == last_index_of(s@, c),
            None => last_index_of(s@, c) == -1,
        },
{
    let n = s.unicode_len();
    let mut i: usize = n;
    proof {
        assert(s@.subrange(0, i as int) =~= s@);
    }
    while i > 0
        invariant
            n == s@.len(),
            i <= n,
            last_index_of(s@, c) == last_index_of(s@.subrange(0, i as int), c),
        decreases i,
    {
        let ghost pre = s@.subrange(0, i as int);
        if s.get_char(i - 1) == c {
            return Some(i - 1);
        }
        proof {
            assert(pre.drop_last() =~= s@.subrange(0, i - 1));
        }
        i -= 1;
    }
    None
}

/// A path, given as a string, as an `FPath`: the same characters.
pub fn path_to_fpath(path: &str) -> (r: FPath)
    ensures
        r@ == path@,
{
    path.to_string()
}

/// An `FPath` as a path string: the same characters.
pub fn fpath_to_path(path: &FPath) -> (r: &str)
    ensures
        r@ == path@,
{
    path.as_str()
}

/// The last component of `path`, split at `sep`: the part after the last `sep`
/// (all of `path` where it holds no `sep`).
pub fn basename_at(path: &FPath, sep: char) -> (r: FPath)
    ensures
        r@ == after_last(path@, sep),
{
    let s = path.as_str();
    let n = s.unicode_len();
    proof {
        lemma_last_index_of(s@, sep);
    }
    let start: usize = match str_rfind(s, sep) {
        Some(i) => i + 1,
        None => 0,
    };
    s.substring_char(start, n).to_owned()
}

/// The last component of `path`, split at the platform's path separator.
pub fn basename(path: &FPath) -> (r: FPath)
    ensures
        r@ == after_last(path@, '/') || r@ == after_last(path@, '\\'),
{
    basename_at(path, main_separator())
}

/// The number of times `c` occurs in `s`.
pub fn count_chars_in_str(s: &str, c: char) -> (r: usize)
    ensures
        r == count_of(s@, c),
{
    let n = s.unicode_len();
    let mut count: usize = 0;
    let mut i: usize = 0;
    while i < n
        invariant
            n == s@.len(),
            i <= n,
            count == count_of(s@.subrange(0, i as int), c),
            count <= i,
        decreases n - i,
    {
        proof {
            assert(s@.subrange(0, i + 1).drop_last() =~= s@.subrange(0, i as int));
        }
        if s.get_char(i) == c {
            count += 1;
        }
        i += 1;
    }
    proof {
        assert(s@.subrange(0, n as int) =~= s@);
    }
    count
}

/// The file name of a path: its last component, where that is not `..`.
pub uninterp spec fn path_file_name_of(path: Seq<char>) -> Option<Seq<char>>;

/// Calls `std::path::Path::file_name` on `path`; the result is named
/// `path_file_name_of`.
#[verifier::external_body]
pub(crate) fn path_file_name(path: &str) -> (r: Option<String>)
    ensures
        r matches Some(n) ==> path_file_name_of(path@) == Some(n@),
        r is None ==> path_file_name_of(path@) is None,
{
    std::path::Path::new(path).file_name().map(|n| n.to_string_lossy().into_owned())
}

/// The parent of a path: the path without its last component, where it has one.
pub uninterp spec fn path_parent_of(path: Seq<char>) -> Option<Seq<char>>;

/// Calls `std::path::Path::parent` on `path`; the result is named `path_parent_of`.
#[verifier::external_body]
pub(crate) fn path_parent(path: &str) -> (r: Option<String>)
    ensures
        r matches Some(n) ==> path_parent_of(path@) == Some(n@),
        r is None ==> path_parent_of(path@) is None,
{
    std::path::Path::new(path).parent().map(|p| p.to_string_lossy().into_owned())
}

/// A path joined with another.
pub uninterp spec fn path_join_of(path: Seq<char>, other: Seq<char>) -> Seq<char>;

/// Calls `std::path::Path::join`; the result is named `path_join_of`.
#[verifier::external_body]
pub(crate) fn path_join(path: &str, other: &str) -> (r: String)
    ensures
        r@ == path_join_of(path@, other@),
{
    std::path::Path::new(path).join(other).to_string_lossy().into_owned()
}

/// How many `.` the file name of `path` holds (0 where it has no file name).
pub open spec fn spec_filename_count_extensions(path: Seq<char>) -> nat {
    match path_file_name_of(path) {
        Some(n) => count_of(n, '.'),
        None => 0,
    }
}

/// The number of `.` in the file name of `path`, i.e. of file extensions.
pub fn filename_count_extensions(path: &FPath) -> (r: usize)
    ensures
        r == spec_filename_count_extensions(path@),
{
    match path_file_name(path.as_str()) {
        Some(name) => count_chars_in_str(name.as_str(), '.'),
        None => 0,
    }
}

/// `path` with the last extension of its file name removed: the parent joined with
/// the file name up to its last `.`; `None` where there is no file name, no `.` in
/// it, or no parent.
pub open spec fn spec_remove_extension(path: Seq<char>) -> Option<Seq<char>> {
    match path_file_name_of(path) {
        Some(name) => {
            if last_index_of(name, '.') < 0 {
                None
            } else {
                match path_parent_of(path) {
                    Some(dir) => Some(path_join_of(dir, name.subrange(0, last_index_of(name, '.')))),
                    None => None,
                }
            }
        },
        None => None,
    }
}

/// Removes the last extension from the file name of `path`.
pub fn remove_extension(path: &FPath) -> (r: Option<FPath>)
    ensures
        match r {
            Some(p) => spec_remove_extension(path@) == Some(p@),
            None => spec_remove_extension(path@) is None,
        },
{
    let file_name = match path_file_name(path.as_str()) {
        Some(n) => n,
        None => {
            return None;
        },
    };
    let index: usize = match str_rfind(file_name.as_str(), '.') {
        Some(i) => i,
        None => {
            return None;
        },
    };
    proof {
        lemma_last_index_of(file_name@, '.');
    }
    let name_new: &str = file_name.as_str().substring_char(0, index);
    let dir_name = match path_parent(path.as_str()) {
        Some(d) => d,
        None => {
            return None;
        },
    };
    Some(path_join(dir_name.as_str(), name_new))
}

// ---------------------------------------------------------------------------------------
// lists of file offsets
// ---------------------------------------------------------------------------------------

/// Calls `Vec::capacity`: the number of elements the vector can hold without
/// allocating again, which is at least its length (std documentation).
#[verifier::external_body]
fn vec_capacity(v: &Vec<FileOffset>) -> (r: usize)
    ensures
        r >= v@.len(),
{
    v.capacity()
}

/// Appends `0, 1, 2, ...` up to the vector's capacity (taken before the first push).
pub fn fill(v_: &mut Vec<FileOffset>)
    ensures
        final(v_)@.len() >= 2 * old(v_)@.len(),
        final(v_)@.subrange(0, old(v_)@.len() as int) == old(v_)@,
        forall|i: int| old(v_)@.len() <= i < final(v_)@.len() ==> #[trigger] final(v_)@[i] == i - old(v_)@.len(),
{
    let sz = vec_capacity(v_);
    let ghost v0 = v_@;
    let mut i: usize = 0;
    while i < sz
        invariant
            i <= sz,
            sz >= v0.len(),
            v_@ == v0 + Seq::new(i as nat, |k: int| k as u64),
        decreases sz - i,
    {
        v_.push(i as FileOffset);
        i += 1;
        proof {
            assert(v_@ =~= v0 + Seq::new(i as nat, |k: int| k as u64));
        }
    }
    proof {
        assert(v_@.subrange(0, v0.len() as int) =~= v0);
    }
}

/// Calls `rand::random::<usize>()`: a random number. Nothing is known of its value.
#[verifier::external_body]
fn random_usize() -> (r: usize) {
    rand::random::<usize>()
}

/// Setting element `i` of `s` to `x` takes `s[i]` out of its multiset and puts `x` in.
proof fn lemma_update_to_multiset(s: Seq<FileOffset>, i: int, x: FileOffset)
    requires
        0 <= i < s.len(),
    ensures
        s.update(i, x).to_multiset() =~= s.to_multiset().remove(s[i]).insert(x),
{
    let t = s.update(i, x);
    s.to_multiset_ensures();
    t.to_multiset_ensures();
    assert(t.remove(i) =~= s.remove(i));
    assert(t.remove(i).to_multiset() =~= t.to_multiset().remove(t[i]));
    assert(s.remove(i).to_multiset() =~= s.to_multiset().remove(s[i]));
    assert(t.contains(x)) by {
        assert(t[i] == x);
    }
    assert(t.to_multiset().count(x) > 0);
    assert(t.to_multiset() =~= t.to_multiset().remove(x).insert(x));
}

/// Shuffles `v_`: for each index in turn, swaps its element with that at a random
/// index. The elements stay the same, only their order changes.
pub fn randomize(v_: &mut Vec<FileOffset>)
    ensures
        final(v_)@.len() == old(v_)@.len(),
        final(v_)@.to_multiset() == old(v_)@.to_multiset(),
{
    let sz = v_.len();
    let mut i: usize = 0;
    while i < sz
        invariant
            sz == v_@.len(),
            i <= sz,
            v_@.to_multiset() == old(v_)@.to_multiset(),
        decreases sz - i,
    {
        let r = random_usize() % sz;
        let a = v_[r];
        let b = v_[i];
        let ghost w0 = v_@;
        v_.set(r, b);
        let ghost w1 = v_@;
        v_.set(i, a);
        proof {
            lemma_update_to_multiset(w0, r as int, b);
            lemma_update_to_multiset(w1, i as int, a);
            w0.to_multiset_ensures();
            assert(w0.contains(a));
            assert(v_@.to_multiset() =~= w0.to_multiset());
        }
        i += 1;
    }
}

} // verus!
