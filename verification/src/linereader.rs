//! Lines of a file, found among its blocks.
//!
//! A line is the bytes from the byte after a newline (or the file's start) up to
//! and including the next newline (or the file's last byte). A `Line` is held as
//! `LinePart`s, one per block that it spans.
use vstd::prelude::*;
use std::sync::Arc;
use std::collections::BTreeMap;
use crate::common::{FPath, FileOffset, FileSz, Count, CharSz, NLu8, Bytes, FileType, Error, ErrorKind, ResultS3, ResultS4, arc_clone, string_push};
use crate::datetime::LineIndex;
use crate::blockreader::{ResultS3_ReadBlock, BlockSz, BlockIndex, BlockOffset, BlockP, BlockReader, MimeGuess, block_bytes, lemma_div_mod, lemma_block_in_file, spec_blockoffset_last, std_string_from_utf8, str_eq, file_contents};
use crate::cache::{FindLRUCache, find_cache_contents, find_cache_new, find_cache_get, find_cache_put, find_cache_clear, find_cache_resize};

verus! {

broadcast use vstd::std_specs::btree::group_btree_axioms, vstd::laws_cmp::group_laws_cmp;

// ---------------------------------------------------------------------------------------
// lines of a file, as a specification
// ---------------------------------------------------------------------------------------

/// The offset at which the line holding offset `fo` begins: just after the last
/// newline before `fo`, or 0.
pub open spec fn line_begin(data: Seq<u8>, fo: int) -> int
    decreases fo,
{
    if fo <= 0 {
        0
    } else if data[fo - 1] == NLu8 {
        fo
    } else {
        line_begin(data, fo - 1)
    }
}

/// The offset of the last byte of the line holding offset `fo`: the first newline
/// at or after `fo`, or the file's last byte.
pub open spec fn line_end(data: Seq<u8>, fo: int) -> int
    decreases data.len() - fo,
{
    if fo >= data.len() - 1 {
        fo
    } else if data[fo] == NLu8 {
        fo
    } else {
        line_end(data, fo + 1)
    }
}

/// No newline in `data[a..b)`.
pub open spec fn no_nl(data: Seq<u8>, a: int, b: int) -> bool {
    forall|i: int| a <= i < b ==> #[trigger] data[i] != NLu8
}

/// `line_begin` is a line start at or before `fo` with no newline between.
pub proof fn lemma_line_begin(data: Seq<u8>, fo: int)
    requires
        0 <= fo <= data.len(),
    ensures
        0 <= line_begin(data, fo) <= fo,
        line_begin(data, fo) == 0 || data[line_begin(data, fo) - 1] == NLu8,
        no_nl(data, line_begin(data, fo), fo),
    decreases fo,
{
    if fo > 0 && data[fo - 1] != NLu8 {
        lemma_line_begin(data, fo - 1);
    }
}

/// `line_end` is the first newline at or after `fo`, else the last byte.
pub proof fn lemma_line_end(data: Seq<u8>, fo: int)
    requires
        0 <= fo < data.len(),
    ensures
        fo <= line_end(data, fo) < data.len(),
        data[line_end(data, fo)] == NLu8 || line_end(data, fo) == data.len() - 1,
        no_nl(data, fo, line_end(data, fo)),
    decreases data.len() - fo,
{
    if fo < data.len() - 1 && data[fo] != NLu8 {
        lemma_line_end(data, fo + 1);
    }
}

/// A line ends at or before any newline at or after its offset.
pub proof fn lemma_line_end_le_nl(data: Seq<u8>, fo: int, y: int)
    requires
        0 <= fo <= y < data.len(),
        data[y] == NLu8,
    ensures
        line_end(data, fo) <= y,
    decreases y - fo,
{
    if fo < data.len() - 1 && data[fo] != NLu8 {
        lemma_line_end_le_nl(data, fo + 1, y);
    }
}

/// Offsets with no newline between them are on the same line.
pub proof fn lemma_same_line(data: Seq<u8>, a: int, b: int)
    requires
        0 <= a <= b < data.len(),
        no_nl(data, a, b),
    ensures
        line_end(data, a) == line_end(data, b),
        line_begin(data, b) == line_begin(data, a),
    decreases b - a,
{
    if a < b {
        lemma_same_line(data, a + 1, b);
        assert(data[a] != NLu8);
        assert(line_begin(data, a + 1) == line_begin(data, a));
    }
}

/// Every offset of a line has that line's start and end.
pub proof fn lemma_line_of_offset(data: Seq<u8>, fo: int)
    requires
        0 <= fo < data.len(),
    ensures
        line_end(data, line_begin(data, fo)) == line_end(data, fo),
        line_begin(data, line_end(data, fo)) == line_begin(data, fo),
{
    lemma_line_begin(data, fo);
    lemma_line_end(data, fo);
    let b = line_begin(data, fo);
    let e = line_end(data, fo);
    assert(no_nl(data, b, e)) by {
        assert forall|i: int| b <= i < e implies data[i] != NLu8 by {
            if i < fo {
            } else {
            }
        }
    }
    lemma_same_line(data, b, e);
    lemma_same_line(data, b, fo);
}

// ---------------------------------------------------------------------------------------
// LinePart
// ---------------------------------------------------------------------------------------

/// The char that stands for a byte in a printable rendering: a control byte is shown
/// as its Unicode control picture, any other byte as the char of that code point.
pub open spec fn byte_noraw(b: u8) -> char {
    if b < 0x20 {
        (0x2400 + b) as char
    } else if b == 0x7F {
        '\u{2421}'
    } else {
        b as char
    }
}

/// Printable rendering of a byte.
pub fn byte_to_char_noraw(b: u8) -> (r: char)
    ensures
        r == byte_noraw(b),
{
    if b < 0x20 {
        let c: u32 = 0x2400 + b as u32;
        proof {
            assert(0x2400 <= c < 0x2420);
        }
        char_from_u32_in_range(c)
    } else if b == 0x7F {
        '\u{2421}'
    } else {
        b as char
    }
}

/// A char for a code point in the range `0x2400..0x2420` (no surrogates there).
fn char_from_u32_in_range(c: u32) -> (r: char)
    requires
        0x2400 <= c < 0x2420,
    ensures
        r == c as char,
{
    let mut ch: char = '\u{2400}';
    let mut k: u32 = 0x2400;
    while k < c
        invariant
            0x2400 <= k <= c,
            c < 0x2420,
            ch == k as char,
        decreases c - k,
    {
        ch = next_control_picture(ch, k);
        k += 1;
    }
    ch
}

/// The char after a control picture.
fn next_control_picture(ch: char, k: u32) -> (r: char)
    requires
        0x2400 <= k < 0x241F,
        ch == k as char,
    ensures
        r == (k + 1) as char,
{
    match k - 0x2400 {
        0 => '\u{2401}', 1 => '\u{2402}', 2 => '\u{2403}', 3 => '\u{2404}', 4 => '\u{2405}',
        5 => '\u{2406}', 6 => '\u{2407}', 7 => '\u{2408}', 8 => '\u{2409}', 9 => '\u{240A}',
        10 => '\u{240B}', 11 => '\u{240C}', 12 => '\u{240D}', 13 => '\u{240E}', 14 => '\u{240F}',
        15 => '\u{2410}', 16 => '\u{2411}', 17 => '\u{2412}', 18 => '\u{2413}', 19 => '\u{2414}',
        20 => '\u{2415}', 21 => '\u{2416}', 22 => '\u{2417}', 23 => '\u{2418}', 24 => '\u{2419}',
        25 => '\u{241A}', 26 => '\u{241B}', 27 => '\u{241C}', 28 => '\u{241D}', 29 => '\u{241E}', _ => '\u{241F}',
    }
}

/// Part or all of a line, within one block.
pub struct LinePart {
    /// index into the block where this part begins
    pub blocki_beg: BlockIndex,
    /// index into the block one past where this part ends
    pub blocki_end: BlockIndex,
    /// the block
    pub blockp: BlockP,
    /// file offset at which this part begins
    pub fileoffset: FileOffset,
    /// block offset of the block
    pub blockoffset: BlockOffset,
    /// the file's block size
    pub blocksz: BlockSz,
}

impl LinePart {
    /// The bytes of this part.
    pub open spec fn bytes(&self) -> Seq<u8> {
        self.blockp@.subrange(self.blocki_beg as int, self.blocki_end as int)
    }

    /// The length of this part.
    pub open spec fn spec_len(&self) -> int {
        self.blocki_end - self.blocki_beg
    }

    /// Well-formed: a non-empty slice of its block, at its file offset.
    pub open spec fn wf(&self) -> bool {
        &&& self.blocki_beg < self.blocki_end <= self.blockp@.len()
        &&& self.blockp@.len() <= self.blocksz
        &&& 0 < self.blocksz
        &&& self.fileoffset == self.blockoffset * self.blocksz + self.blocki_beg
        &&& self.fileoffset + self.spec_len() <= u64::MAX
    }

    /// A part of `blockp[blocki_beg..blocki_end]`, which begins at `fileoffset` in block `blockoffset`.
    pub fn new(
        blocki_beg: BlockIndex,
        blocki_end: BlockIndex,
        blockp: BlockP,
        fileoffset: FileOffset,
        blockoffset: BlockOffset,
        blocksz: BlockSz,
    ) -> (r: LinePart)
        requires
            0 < blocksz,
            fileoffset != u64::MAX,
            blockoffset != u64::MAX,
            blockoffset == fileoffset / blocksz,
            blocki_beg == fileoffset % blocksz,
            blocki_beg < blocki_end <= blockp@.len(),
            blocki_end <= blocksz,
            blockp@.len() <= blocksz,
            fileoffset + (blocki_end - blocki_beg) <= u64::MAX,
        ensures
            r.wf(),
            r.blocki_beg == blocki_beg,
            r.blocki_end == blocki_end,
            r.blockp == blockp,
            r.fileoffset == fileoffset,
            r.blockoffset == blockoffset,
            r.blocksz == blocksz,
    {
        proof {
            lemma_div_mod(fileoffset as int, blocksz as int);
        }
        LinePart { blocki_beg, blocki_end, blockp, fileoffset, blockoffset, blocksz }
    }

    /// The length of this part.
    pub fn len(&self) -> (r: usize)
        requires
            self.blocki_beg <= self.blocki_end,
        ensures
            r == self.spec_len(),
    {
        self.blocki_end - self.blocki_beg
    }

    /// Is this part empty?
    pub fn is_empty(&self) -> (r: bool)
        requires
            self.blocki_beg <= self.blocki_end,
        ensures
            r == (self.spec_len() == 0),
    {
        self.len() == 0
    }

    /// The count of bytes of this part.
    pub fn count_bytes(&self) -> (r: u64)
        requires
            self.blocki_beg <= self.blocki_end,
        ensures
            r == self.spec_len(),
    {
        self.len() as u64
    }

    /// Does this part hold the byte?
    pub fn contains(&self, byte_: &u8) -> (r: bool)
        requires
            self.wf(),
        ensures
            r == self.bytes().contains(*byte_),
    {
        let mut i = self.blocki_beg;
        while i < self.blocki_end
            invariant
                self.wf(),
                self.blocki_beg <= i <= self.blocki_end,
                forall|k: int| self.blocki_beg <= k < i ==> self.blockp@[k] != *byte_,
            decreases self.blocki_end - i,
        {
            if self.blockp[i] == *byte_ {
                proof {
                    assert(self.bytes()[i - self.blocki_beg] == *byte_);
                }
                return true;
            }
            i += 1;
        }
        proof {
            if self.bytes().contains(*byte_) {
                let k = choose|k: int| 0 <= k < self.bytes().len() && self.bytes()[k] == *byte_;
                assert(self.blockp@[k + self.blocki_beg] == *byte_);
            }
        }
        false
    }

    /// The bytes of this part as a `String`, where they are UTF-8; else empty.
    pub fn to_String(&self) -> (r: String)
        requires
            self.wf(),
        ensures
            r@ == utf8_or_empty(self.bytes()),
    {
        let slice_ = slice_of(&self.blockp, self.blocki_beg, self.blocki_end);
        bytes_to_string(slice_)
    }

    /// The bytes of this part as a `String` of printable chars.
    pub fn to_String_noraw(&self) -> (r: String)
        requires
            self.wf(),
        ensures
            r@ == self.bytes().map_values(|b: u8| byte_noraw(b)),
    {
        let slice_ = slice_of(&self.blockp, self.blocki_beg, self.blocki_end);
        bytes_to_string_noraw(slice_)
    }

    /// The bytes of this part.
    pub fn block_boxptr(&self) -> (r: Box<&[u8]>)
        requires
            self.wf(),
        ensures
            (**r)@ == self.bytes(),
    {
        Box::new(slice_of(&self.blockp, self.blocki_beg, self.blocki_end))
    }

    /// The bytes of this part from index `a` on.
    pub fn block_boxptr_a(&self, a: &LineIndex) -> (r: Box<&[u8]>)
        requires
            self.wf(),
            self.blocki_beg + *a < self.blocki_end,
        ensures
            (**r)@ == self.bytes().subrange(*a as int, self.spec_len()),
    {
        let r = Box::new(slice_of(&self.blockp, self.blocki_beg + *a, self.blocki_end));
        proof {
            assert((**r)@ =~= self.bytes().subrange(*a as int, self.spec_len()));
        }
        r
    }

    /// The bytes of the block from its start up to index `b` of this part.
    pub fn block_boxptr_b(&self, b: &LineIndex) -> (r: Box<&[u8]>)
        requires
            self.wf(),
            self.blocki_beg + *b <= self.blocki_end,
        ensures
            (**r)@ == self.blockp@.subrange(0, self.blocki_beg + *b),
    {
        Box::new(slice_of(&self.blockp, 0, self.blocki_beg + *b))
    }

    /// The bytes of this part from index `a` up to index `b`.
    pub fn block_boxptr_ab(&self, a: &LineIndex, b: &LineIndex) -> (r: Box<&[u8]>)
        requires
            self.wf(),
            *a <= *b,
            self.blocki_beg + *b <= self.blocki_end,
        ensures
            (**r)@ == self.bytes().subrange(*a as int, *b as int),
    {
        let r = Box::new(slice_of(&self.blockp, self.blocki_beg + *a, self.blocki_beg + *b));
        proof {
            assert((**r)@ =~= self.bytes().subrange(*a as int, *b as int));
        }
        r
    }
}


// ---------------------------------------------------------------------------------------
// Line
// ---------------------------------------------------------------------------------------

/// The bytes of a sequence of parts, one after another.
pub open spec fn parts_bytes(parts: Seq<LinePart>) -> Seq<u8>
    decreases parts.len(),
{
    if parts.len() == 0 {
        Seq::empty()
    } else {
        parts_bytes(parts.drop_last()) + parts.last().bytes()
    }
}

/// The chars of a sequence of parts, each part decoded as UTF-8 on its own (a part
/// that is not UTF-8 gives nothing).
pub open spec fn parts_string(parts: Seq<LinePart>) -> Seq<char>
    decreases parts.len(),
{
    if parts.len() == 0 {
        Seq::empty()
    } else {
        parts_string(parts.drop_last()) + utf8_or_empty(parts.last().bytes())
    }
}

/// Where part `i` begins within the bytes of `parts`.
pub open spec fn part_start(parts: Seq<LinePart>, i: int) -> int {
    parts_bytes(parts.take(i)).len() as int
}

/// The parts are well-formed and each begins at the file offset where the one
/// before it ends.
pub open spec fn parts_chain(parts: Seq<LinePart>) -> bool {
    &&& forall|i: int| 0 <= i < parts.len() ==> #[trigger] parts[i].wf()
    &&& forall|i: int| 0 <= i < parts.len() - 1 ==> #[trigger] parts[i + 1].fileoffset == parts[i].fileoffset + parts[i].spec_len()
}

/// Every part after the first begins at the start of its block.
pub open spec fn parts_aligned(parts: Seq<LinePart>) -> bool {
    forall|i: int| 0 < i < parts.len() ==> #[trigger] parts[i].blocki_beg == 0
}

/// The bytes of the parts before part `i + 1` are those before part `i` and part `i`'s.
pub proof fn lemma_parts_take(parts: Seq<LinePart>, i: int)
    requires
        0 <= i < parts.len(),
    ensures
        parts_bytes(parts.take(i + 1)) == parts_bytes(parts.take(i)) + parts[i].bytes(),
        parts_string(parts.take(i + 1)) == parts_string(parts.take(i)) + utf8_or_empty(parts[i].bytes()),
{
    assert(parts.take(i + 1).drop_last() =~= parts.take(i));
}

/// The length of the bytes of a chain of parts is the span of file offsets it covers.
pub proof fn lemma_parts_span(parts: Seq<LinePart>)
    requires
        parts.len() > 0,
        parts_chain(parts),
    ensures
        parts_bytes(parts).len() == parts.last().fileoffset + parts.last().spec_len() - parts[0].fileoffset,
    decreases parts.len(),
{
    if parts.len() > 1 {
        let p = parts.drop_last();
        assert(parts_chain(p)) by {
            assert forall|i: int| 0 <= i < p.len() implies #[trigger] p[i].wf() by {
                assert(p[i] == parts[i]);
            }
            assert forall|i: int| 0 <= i < p.len() - 1 implies #[trigger] p[i + 1].fileoffset == p[i].fileoffset + p[i].spec_len() by {
                assert(p[i] == parts[i]);
                assert(p[i + 1] == parts[i + 1]);
            }
        }
        lemma_parts_span(p);
        let k = parts.len() - 2;
        assert(parts[k + 1].fileoffset == parts[k].fileoffset + parts[k].spec_len());
        assert(p.last() == parts[k]);
        assert(p[0] == parts[0]);
    }
    assert(parts.last().wf());
    assert(parts[parts.len() - 1].wf());
    assert(parts_bytes(parts) == parts_bytes(parts.drop_last()) + parts.last().bytes());
    if parts.len() == 1 {
        assert(parts_bytes(parts.drop_last()).len() == 0);
    }
    assert(parts.last().bytes().len() == parts.last().spec_len());
}

/// Part `j`'s bytes lie at `part_start(parts, j)` within the bytes of `parts`.
pub proof fn lemma_part_in_bytes(parts: Seq<LinePart>, j: int)
    requires
        0 <= j < parts.len(),
    ensures
        part_start(parts, j) + parts[j].bytes().len() <= parts_bytes(parts).len(),
        parts_bytes(parts).subrange(part_start(parts, j), part_start(parts, j) + parts[j].bytes().len()) == parts[j].bytes(),
    decreases parts.len(),
{
    let n = parts.len();
    let p = parts.drop_last();
    if j < n - 1 {
        lemma_part_in_bytes(p, j);
        assert(p.take(j) =~= parts.take(j));
        assert(p[j] == parts[j]);
        let a = part_start(parts, j);
        let b = a + parts[j].bytes().len();
        assert(parts_bytes(parts).subrange(a, b) =~= parts_bytes(p).subrange(a, b));
    } else {
        assert(parts.take(j) =~= p);
        assert(parts_bytes(parts).subrange(part_start(parts, j), part_start(parts, j) + parts[j].bytes().len()) =~= parts[j].bytes());
    }
}

/// The bytes of all the parts are the bytes of the parts before `n`.
pub proof fn lemma_parts_take_all(parts: Seq<LinePart>)
    ensures
        parts_bytes(parts.take(parts.len() as int)) == parts_bytes(parts),
        parts_string(parts.take(parts.len() as int)) == parts_string(parts),
{
    assert(parts.take(parts.len() as int) =~= parts);
}

/// The concatenated bytes of a sequence of byte slices.
pub open spec fn slices_bytes<'a>(v: Seq<&'a [u8]>) -> Seq<u8>
    decreases v.len(),
{
    if v.len() == 0 {
        Seq::empty()
    } else {
        slices_bytes(v.drop_last()) + v.last()@
    }
}

/// The concatenated bytes of a sequence of boxed byte slices.
pub open spec fn boxes_bytes<'a>(v: Seq<Box<&'a [u8]>>) -> Seq<u8>
    decreases v.len(),
{
    if v.len() == 0 {
        Seq::empty()
    } else {
        boxes_bytes(v.drop_last()) + (*v.last())@
    }
}

/// The slices that make up part of a `Line`: one, or several.
pub enum enum_BoxPtrs<'a> {
    SinglePtr(Box<&'a [u8]>),
    MultiPtr(Vec<Box<&'a [u8]>>),
}

/// The bytes that `enum_BoxPtrs` hands out, one slice after another.
pub open spec fn boxptrs_bytes<'a>(e: enum_BoxPtrs<'a>) -> Seq<u8> {
    match e {
        enum_BoxPtrs::SinglePtr(b) => (*b)@,
        enum_BoxPtrs::MultiPtr(v) => boxes_bytes(v@),
    }
}

/// A line, as the parts of it held by each block that it spans.
pub struct Line {
    pub lineparts: Vec<LinePart>,
}

/// The smaller of two integers.
pub open spec fn min_int(a: int, b: int) -> int {
    if a < b { a } else { b }
}

impl Default for Line {
    /// A line of no parts.
    fn default() -> (r: Line)
        ensures
            r.lineparts@.len() == 0,
    {
        Line { lineparts: Vec::new() }
    }
}

impl Line {
    /// The bytes of the line.
    pub open spec fn bytes(&self) -> Seq<u8> {
        parts_bytes(self.lineparts@)
    }

    /// Well-formed: at least one part, the parts following one another in the file.
    pub open spec fn wf(&self) -> bool {
        &&& self.lineparts@.len() > 0
        &&& parts_chain(self.lineparts@)
        &&& parts_bytes(self.lineparts@).len() <= usize::MAX
    }

    /// The file offset of the line's first byte.
    pub open spec fn spec_begin(&self) -> int {
        self.lineparts@[0].fileoffset as int
    }

    /// The file offset of the line's last byte.
    pub open spec fn spec_end(&self) -> int {
        self.lineparts@.last().fileoffset + self.lineparts@.last().spec_len() - 1
    }

    /// A well-formed line spans its bytes: it ends its length less one after it begins.
    pub proof fn lemma_span(&self)
        requires
            self.wf(),
        ensures
            self.bytes().len() >= 1,
            self.spec_end() == self.spec_begin() + self.bytes().len() - 1,
    {
        lemma_parts_span(self.lineparts@);
        assert(self.lineparts@.last().wf());
        assert(self.lineparts@[self.lineparts@.len() - 1].wf());
        assert(self.bytes().len() >= self.lineparts@.last().bytes().len());
    }

    /// A line with no parts.
    pub fn new() -> (r: Line)
        ensures
            r.lineparts@.len() == 0,
    {
        Line { lineparts: Vec::new() }
    }

    /// A line of one part.
    pub fn new_from_linepart(linepart: LinePart) -> (r: Line)
        ensures
            r.lineparts@ == seq![linepart],
    {
        let mut v: Vec<LinePart> = Vec::new();
        v.push(linepart);
        proof {
            assert(v@ =~= seq![linepart]);
        }
        Line { lineparts: v }
    }

    /// Adds a part at the end; it must come after the parts held.
    pub fn append(&mut self, linepart: LinePart)
        requires
            old(self).lineparts@.len() > 0 ==> old(self).lineparts@.last().blockoffset <= linepart.blockoffset,
            old(self).lineparts@.len() > 0 ==> old(self).lineparts@.last().fileoffset < linepart.fileoffset,
        ensures
            final(self).lineparts@ == old(self).lineparts@.push(linepart),
    {
        self.lineparts.push(linepart);
    }

    /// Adds a part at the front; it must come before the parts held.
    pub fn prepend(&mut self, linepart: LinePart)
        requires
            old(self).lineparts@.len() > 0 ==> old(self).lineparts@[0].blockoffset >= linepart.blockoffset,
            old(self).lineparts@.len() > 0 ==> old(self).lineparts@[0].fileoffset > linepart.fileoffset,
        ensures
            final(self).lineparts@ == seq![linepart] + old(self).lineparts@,
    {
        self.lineparts.insert(0, linepart);
        proof {
            assert(self.lineparts@ =~= seq![linepart] + old(self).lineparts@);
        }
    }

    /// The file offset at which the line begins.
    pub fn fileoffset_begin(&self) -> (r: FileOffset)
        requires
            self.lineparts@.len() > 0,
        ensures
            r == self.spec_begin(),
    {
        self.lineparts[0].fileoffset
    }

    /// The file offset of the line's last byte.
    pub fn fileoffset_end(&self) -> (r: FileOffset)
        requires
            self.wf(),
        ensures
            r == self.spec_end(),
    {
        let last = self.lineparts.len() - 1;
        proof {
            assert(self.lineparts@[last as int].wf());
        }
        self.lineparts[last].fileoffset + (self.lineparts[last].len() as FileOffset) - 1
    }

    /// The length of the line in bytes.
    pub fn len(&self) -> (r: usize)
        requires
            self.wf(),
        ensures
            r == self.bytes().len(),
            r == self.spec_end() - self.spec_begin() + 1,
    {
        proof {
            lemma_parts_span(self.lineparts@);
            assert(self.lineparts@.last().wf());
            assert(self.lineparts@[self.lineparts@.len() - 1].wf());
            assert(self.bytes().len() >= self.lineparts@.last().bytes().len());
        }
        (self.fileoffset_end() - self.fileoffset_begin() + 1) as usize
    }

    /// The count of parts.
    pub fn count(&self) -> (r: usize)
        ensures
            r == self.lineparts@.len(),
    {
        self.lineparts.len()
    }

    /// The sum of the parts' byte counts.
    pub fn count_bytes(&self) -> (r: u64)
        requires
            self.wf(),
        ensures
            r == self.bytes().len(),
    {
        let mut cb: u64 = 0;
        let mut i: usize = 0;
        let n = self.lineparts.len();
        while i < n
            invariant
                self.wf(),
                n == self.lineparts@.len(),
                i <= n,
                cb == parts_bytes(self.lineparts@.take(i as int)).len(),
            decreases n - i,
        {
            proof {
                lemma_parts_take(self.lineparts@, i as int);
                lemma_part_in_bytes(self.lineparts@, i as int);
                assert(self.lineparts@[i as int].wf());
            }
            cb = cb + self.lineparts[i].count_bytes();
            i += 1;
        }
        proof {
            lemma_parts_take_all(self.lineparts@);
        }
        cb
    }

    /// The part that holds index `a` of the line (the last part where `a` is past the end).
    pub fn get_linepart(&self, a: LineIndex) -> (r: &LinePart)
        requires
            self.wf(),
        ensures
            exists|i: int| 0 <= i < self.lineparts@.len() && *r == self.lineparts@[i] && (a < self.bytes().len() ==> part_start(self.lineparts@, i) <= a < part_start(self.lineparts@, i) + self.lineparts@[i].spec_len()),
            a >= self.bytes().len() ==> *r == self.lineparts@.last(),
    {
        let n = self.lineparts.len();
        let mut i: usize = 0;
        let mut s: usize = 0;
        while i < n
            invariant
                self.wf(),
                n == self.lineparts@.len(),
                i <= n,
                s == part_start(self.lineparts@, i as int),
                s <= a,
                s <= self.bytes().len(),
            decreases n - i,
        {
            proof {
                lemma_parts_take(self.lineparts@, i as int);
                lemma_part_in_bytes(self.lineparts@, i as int);
                assert(self.lineparts@[i as int].wf());
            }
            let len_ = self.lineparts[i].len();
            if a < s + len_ {
                assert(a < self.bytes().len());
                return &self.lineparts[i];
            }
            s = s + len_;
            i += 1;
        }
        proof {
            lemma_parts_take_all(self.lineparts@);
        }
        &self.lineparts[n - 1]
    }

    /// Does a part of the line lie in block `bo`?
    pub fn stores_blockoffset(&self, bo: BlockOffset) -> (r: bool)
        ensures
            r == exists|i: int| 0 <= i < self.lineparts@.len() && #[trigger] self.lineparts@[i].blockoffset == bo,
    {
        let mut i: usize = 0;
        while i < self.lineparts.len()
            invariant
                i <= self.lineparts@.len(),
                forall|k: int| 0 <= k < i ==> #[trigger] self.lineparts@[k].blockoffset != bo,
            decreases self.lineparts@.len() - i,
        {
            if self.lineparts[i].blockoffset == bo {
                return true;
            }
            i += 1;
        }
        false
    }

    /// Does the line hold the byte?
    pub fn contains(&self, byte_: &u8) -> (r: bool)
        requires
            self.wf(),
        ensures
            r == self.bytes().contains(*byte_),
    {
        let n = self.lineparts.len();
        let mut i: usize = 0;
        while i < n
            invariant
                self.wf(),
                n == self.lineparts@.len(),
                i <= n,
                !parts_bytes(self.lineparts@.take(i as int)).contains(*byte_),
            decreases n - i,
        {
            proof {
                lemma_parts_take(self.lineparts@, i as int);
                assert(self.lineparts@[i as int].wf());
            }
            let found = self.lineparts[i].contains(byte_);
            let ghost pre = parts_bytes(self.lineparts@.take(i as int));
            let ghost pb = self.lineparts@[i as int].bytes();
            if found {
                proof {
                    let k = choose|k: int| 0 <= k < pb.len() && pb[k] == *byte_;
                    assert((pre + pb)[pre.len() + k] == *byte_);
                }
                proof {
                    lemma_contains_prefix(parts_bytes(self.lineparts@.take(i as int + 1)), self.bytes(), *byte_, self.lineparts@, i as int + 1);
                }
                return true;
            }
            proof {
                assert(!(pre + pb).contains(*byte_)) by {
                    if (pre + pb).contains(*byte_) {
                        let k = choose|k: int| 0 <= k < (pre + pb).len() && (pre + pb)[k] == *byte_;
                        if k < pre.len() {
                            assert(pre[k] == *byte_);
                        } else {
                            assert(pb[k - pre.len()] == *byte_);
                        }
                    }
                }
            }
            i += 1;
        }
        proof {
            lemma_parts_take_all(self.lineparts@);
        }
        false
    }

    /// Does the line hold the byte? (`a` and `b` are not used.)
    pub fn contains_at(&self, byte_: &u8, a: &LineIndex, b: &LineIndex) -> (r: bool)
        requires
            self.wf(),
            *a <= *b,
        ensures
            r == self.bytes().contains(*byte_),
    {
        self.contains(byte_)
    }

    /// The slices of the parts, in order.
    pub fn get_slices(&self) -> (r: Vec<&[u8]>)
        requires
            self.wf(),
        ensures
            r@.len() == self.lineparts@.len(),
            forall|i: int| 0 <= i < r@.len() ==> #[trigger] r@[i]@ == self.lineparts@[i].bytes(),
            slices_bytes(r@) == self.bytes(),
    {
        let n = self.lineparts.len();
        let mut slices: Vec<&[u8]> = Vec::new();
        let mut i: usize = 0;
        while i < n
            invariant
                self.wf(),
                n == self.lineparts@.len(),
                i <= n,
                slices@.len() == i,
                forall|k: int| 0 <= k < i ==> #[trigger] slices@[k]@ == self.lineparts@[k].bytes(),
                slices_bytes(slices@) == parts_bytes(self.lineparts@.take(i as int)),
            decreases n - i,
        {
            proof {
                lemma_parts_take(self.lineparts@, i as int);
                assert(self.lineparts@[i as int].wf());
            }
            let lp = &self.lineparts[i];
            let sl = slice_of(&lp.blockp, lp.blocki_beg, lp.blocki_end);
            let ghost old_slices = slices@;
            slices.push(sl);
            proof {
                assert(slices@.drop_last() =~= old_slices);
            }
            i += 1;
        }
        proof {
            lemma_parts_take_all(self.lineparts@);
        }
        slices
    }

    /// The count of slices that `get_slices` gives.
    pub fn get_slices_count(&self) -> (r: usize)
        ensures
            r == self.lineparts@.len(),
    {
        self.lineparts.len()
    }

    /// The bytes of the line from index `a` up to index `b` (both cut to the line's
    /// length): one slice where they lie within one part, else one slice per part.
    pub fn get_boxptrs(&self, a: LineIndex, b: LineIndex) -> (r: enum_BoxPtrs<'_>)
        requires
            self.wf(),
            parts_aligned(self.lineparts@),
            a <= b,
        ensures
            boxptrs_bytes(r) == self.bytes().subrange(min_int(a as int, self.bytes().len() as int), min_int(b as int, self.bytes().len() as int)),
    {
        let n = self.lineparts.len();
        let ghost bytes = self.bytes();
        let mut i: usize = 0;
        let mut s: usize = 0;
        while i < n
            invariant
                self.wf(),
                bytes == self.bytes(),
                n == self.lineparts@.len(),
                i <= n,
                s == part_start(self.lineparts@, i as int),
                s <= a,
                a <= b,
                s <= bytes.len(),
                parts_aligned(self.lineparts@),
            decreases n - i,
        {
            proof {
                lemma_parts_take(self.lineparts@, i as int);
                lemma_part_in_bytes(self.lineparts@, i as int);
                assert(self.lineparts@[i as int].wf());
            }
            let lp = &self.lineparts[i];
            let len_ = lp.len();
            if a < s + len_ {
                if b < s + len_ {
                    let bp = lp.block_boxptr_ab(&(a - s), &(b - s));
                    proof {
                        assert((*bp)@ =~= bytes.subrange(a as int, b as int));
                    }
                    return enum_BoxPtrs::SinglePtr(bp);
                }
                return self.get_boxptrs_multi(a, b, i, s);
            }
            s = s + len_;
            i += 1;
        }
        proof {
            lemma_parts_take_all(self.lineparts@);
        }
        let v: Vec<Box<&[u8]>> = Vec::new();
        proof {
            assert(boxes_bytes(v@) =~= bytes.subrange(min_int(a as int, bytes.len() as int), min_int(b as int, bytes.len() as int)));
        }
        enum_BoxPtrs::MultiPtr(v)
    }

    /// The slices for `get_boxptrs` where `a` lies in part `i` (which begins at `s`)
    /// and `b` lies past it.
    fn get_boxptrs_multi(&self, a: LineIndex, b: LineIndex, i: usize, s: usize) -> (r: enum_BoxPtrs<'_>)
        requires
            self.wf(),
            parts_aligned(self.lineparts@),
            i < self.lineparts@.len(),
            s == part_start(self.lineparts@, i as int),
            s <= a < s + self.lineparts@[i as int].spec_len() <= b,
        ensures
            boxptrs_bytes(r) == self.bytes().subrange(a as int, min_int(b as int, self.bytes().len() as int)),
    {
        let n = self.lineparts.len();
        let ghost bytes = self.bytes();
        proof {
            lemma_parts_take(self.lineparts@, i as int);
            lemma_part_in_bytes(self.lineparts@, i as int);
            assert(self.lineparts@[i as int].wf());
        }
        let lp0 = &self.lineparts[i];
        let mut ptrs: Vec<Box<&[u8]>> = Vec::new();
        let bp0 = lp0.block_boxptr_a(&(a - s));
        ptrs.push(bp0);
        proof {
            assert(ptrs@.drop_last() =~= Seq::<Box<&[u8]>>::empty());
            assert(ptrs@.last() == bp0);
            assert(boxes_bytes(ptrs@) == boxes_bytes(ptrs@.drop_last()) + (*ptrs@.last())@);
            assert(lp0.bytes() == bytes.subrange(s as int, s + lp0.spec_len()));
            assert(boxes_bytes(ptrs@) =~= bytes.subrange(a as int, s + lp0.spec_len()));
        }
        let mut j: usize = i + 1;
        let mut t: usize = s + lp0.len();
        while j < n
            invariant
                self.wf(),
                parts_aligned(self.lineparts@),
                bytes == self.bytes(),
                n == self.lineparts@.len(),
                i < j <= n,
                t == part_start(self.lineparts@, j as int),
                a < t <= b,
                t <= bytes.len(),
                boxes_bytes(ptrs@) == bytes.subrange(a as int, t as int),
            decreases n - j,
        {
            proof {
                lemma_parts_take(self.lineparts@, j as int);
                lemma_part_in_bytes(self.lineparts@, j as int);
                assert(self.lineparts@[j as int].wf());
                assert(self.lineparts@[j as int].blocki_beg == 0);
            }
            let lp = &self.lineparts[j];
            let len_ = lp.len();
            let ghost old_ptrs = ptrs@;
            if b < t + len_ {
                let bp = lp.block_boxptr_b(&(b - t));
                ptrs.push(bp);
                proof {
                    assert(ptrs@.drop_last() =~= old_ptrs);
                    assert((*bp)@ =~= bytes.subrange(t as int, b as int));
                    assert(boxes_bytes(ptrs@) =~= bytes.subrange(a as int, b as int));
                }
                return enum_BoxPtrs::MultiPtr(ptrs);
            }
            let bp = lp.block_boxptr();
            ptrs.push(bp);
            proof {
                assert(ptrs@.drop_last() =~= old_ptrs);
                assert(boxes_bytes(ptrs@) =~= bytes.subrange(a as int, t + len_));
            }
            t = t + len_;
            j += 1;
        }
        proof {
            lemma_parts_take_all(self.lineparts@);
        }
        enum_BoxPtrs::MultiPtr(ptrs)
    }

    /// The line as a `String`: each part decoded as UTF-8 on its own; a part that is
    /// not UTF-8 is left out.
    pub fn to_String(&self) -> (r: String)
        requires
            self.wf(),
        ensures
            r@ == parts_string(self.lineparts@),
    {
        let n = self.lineparts.len();
        let mut s = String::new();
        let mut i: usize = 0;
        while i < n
            invariant
                self.wf(),
                n == self.lineparts@.len(),
                i <= n,
                s@ == parts_string(self.lineparts@.take(i as int)),
            decreases n - i,
        {
            proof {
                lemma_parts_take(self.lineparts@, i as int);
                assert(self.lineparts@[i as int].wf());
            }
            let part = self.lineparts[i].to_String();
            s.append(part.as_str());
            i += 1;
        }
        proof {
            lemma_parts_take_all(self.lineparts@);
        }
        s
    }

    /// The line as a `String` of printable chars.
    pub fn to_String_noraw(&self) -> (r: String)
        requires
            self.wf(),
        ensures
            r@ == self.bytes().map_values(|b: u8| byte_noraw(b)),
    {
        let v = self.as_bytes();
        bytes_to_string_noraw(v.as_slice())
    }

    /// The bytes of the line.
    pub fn as_bytes(&self) -> (r: Bytes)
        requires
            self.wf(),
        ensures
            r@ == self.bytes(),
    {
        let n = self.lineparts.len();
        let mut data: Vec<u8> = Vec::new();
        let mut i: usize = 0;
        while i < n
            invariant
                self.wf(),
                n == self.lineparts@.len(),
                i <= n,
                data@ == parts_bytes(self.lineparts@.take(i as int)),
            decreases n - i,
        {
            proof {
                lemma_parts_take(self.lineparts@, i as int);
                assert(self.lineparts@[i as int].wf());
            }
            let lp = &self.lineparts[i];
            data.extend_from_slice(slice_of(&lp.blockp, lp.blocki_beg, lp.blocki_end));
            i += 1;
        }
        proof {
            lemma_parts_take_all(self.lineparts@);
        }
        data
    }

    /// The bytes `beg..end` of the block of a line of one part.
    pub fn as_vec(&self, beg: LineIndex, end: LineIndex) -> (r: Bytes)
        requires
            self.lineparts@.len() == 1,
            beg <= end <= self.lineparts@[0].blockp@.len(),
        ensures
            r@ == self.lineparts@[0].blockp@.subrange(beg as int, end as int),
    {
        let mut v: Vec<u8> = Vec::new();
        v.extend_from_slice(slice_of(&self.lineparts[0].blockp, beg, end));
        v
    }
}


// ---------------------------------------------------------------------------------------
// LineReader
// ---------------------------------------------------------------------------------------

/// A shared pointer to a line.
pub type LineP = Arc<Line>;
/// Lines by the file offset at which they begin.
pub type FoToLine = BTreeMap<FileOffset, LineP>;
/// File offsets by file offsets.
pub type FoToFo = BTreeMap<FileOffset, FileOffset>;
/// Result of `find_line`: the offset after the line, and the line.
pub type ResultS4_LineFind = ResultS4<(FileOffset, LineP), Error>;

/// Slots in the `find_line` cache.
pub const FIND_LINE_LRC_CACHE_SZ: usize = 8;
/// Smallest char size in bytes.
pub const CHARSZ_MIN: CharSz = 1;
/// Largest char size in bytes.
pub const CHARSZ_MAX: CharSz = 4;
/// Char size in bytes that is read.
pub const CHARSZ: CharSz = CHARSZ_MIN;

/// Cache entry kinds: a line that is not the file's last, the last line, no line.
pub const FIND_FOUND: u8 = 0;
pub const FIND_FOUND_EOF: u8 = 1;
pub const FIND_DONE: u8 = 2;

/// `b` is the offset at which one of `lines` (that has parts) begins.
pub open spec fn is_line_key(lines: Seq<LineP>, b: u64) -> bool {
    exists|k: int| 0 <= k < lines.len() && lines[k].lineparts@.len() > 0 && #[trigger] lines[k].lineparts@[0].fileoffset == b
}

/// A part of `l` lies in block `bo`.
pub open spec fn part_of(l: LineP, bo: u64) -> bool {
    exists|j: int| 0 <= j < l.lineparts@.len() && #[trigger] l.lineparts@[j].blockoffset == bo
}

/// A part of one of `lines` lies in block `bo`.
pub open spec fn is_part_block(lines: Seq<LineP>, bo: u64) -> bool {
    exists|k: int| 0 <= k < lines.len() && #[trigger] part_of(lines[k], bo)
}

/// The line keys of lines with one more line.
proof fn lemma_line_key_push(ls: Seq<LineP>, l: LineP)
    ensures
        forall|b: u64| is_line_key(ls.push(l), b) <==> (is_line_key(ls, b) || (l.lineparts@.len() > 0 && l.lineparts@[0].fileoffset == b)),
{
    let t = ls.push(l);
    assert forall|b: u64| is_line_key(t, b) <==> (is_line_key(ls, b) || (l.lineparts@.len() > 0 && l.lineparts@[0].fileoffset == b)) by {
        if is_line_key(t, b) {
            let k = choose|k: int| 0 <= k < t.len() && t[k].lineparts@.len() > 0 && #[trigger] t[k].lineparts@[0].fileoffset == b;
            if k < ls.len() {
                assert(t[k] == ls[k]);
            }
        }
        if is_line_key(ls, b) {
            let k = choose|k: int| 0 <= k < ls.len() && ls[k].lineparts@.len() > 0 && #[trigger] ls[k].lineparts@[0].fileoffset == b;
            assert(t[k] == ls[k]);
        }
        if l.lineparts@.len() > 0 && l.lineparts@[0].fileoffset == b {
            assert(t[ls.len() as int] == l);
        }
    }
}

/// The blocks of the parts of lines with one more line.
proof fn lemma_part_block_push(ls: Seq<LineP>, l: LineP)
    ensures
        forall|bo: u64| is_part_block(ls.push(l), bo) <==> (is_part_block(ls, bo) || part_of(l, bo)),
{
    let t = ls.push(l);
    assert forall|bo: u64| is_part_block(t, bo) <==> (is_part_block(ls, bo) || part_of(l, bo)) by {
        if is_part_block(t, bo) {
            let k = choose|k: int| 0 <= k < t.len() && #[trigger] part_of(t[k], bo);
            if k < ls.len() {
                assert(t[k] == ls[k]);
            }
        }
        if is_part_block(ls, bo) {
            let k = choose|k: int| 0 <= k < ls.len() && #[trigger] part_of(ls[k], bo);
            assert(t[k] == ls[k]);
        }
        if part_of(l, bo) {
            assert(t[ls.len() as int] == l);
        }
    }
}

/// `l` is the line of `data` that begins where it begins, held in aligned parts.
pub open spec fn line_at(data: Seq<u8>, l: Line) -> bool {
    &&& l.wf()
    &&& parts_aligned(l.lineparts@)
    &&& 0 <= l.spec_begin()
    &&& l.spec_end() < data.len()
    &&& l.spec_begin() == line_begin(data, l.spec_begin())
    &&& l.spec_end() == line_end(data, l.spec_begin())
    &&& l.bytes() == data.subrange(l.spec_begin(), l.spec_end() + 1)
}

/// What `find_line(fo)` gives for a file of `data`: `Done` at or past the end, else
/// the line holding `fo` and the offset after it, as `Found_EOF` exactly when that
/// line ends the file.
pub open spec fn find_line_result(data: Seq<u8>, fo: int, r: ResultS4_LineFind) -> bool {
    if fo >= data.len() {
        r is Done
    } else {
        match r {
            ResultS4::Found((fo_next, lp)) => {
                &&& line_at(data, *lp)
                &&& lp.spec_begin() == line_begin(data, fo)
                &&& fo_next == lp.spec_end() + 1
                &&& fo_next < data.len()
            },
            ResultS4::Found_EOF((fo_next, lp)) => {
                &&& line_at(data, *lp)
                &&& lp.spec_begin() == line_begin(data, fo)
                &&& fo_next == lp.spec_end() + 1
                &&& fo_next == data.len()
            },
            _ => false,
        }
    }
}

/// A MIME type whose files are read as lines of text.
pub open spec fn mime_parseable(m: Seq<char>) -> bool {
    m == "plain"@ || m == "text"@ || m == "text/plain"@ || m == "text/*"@ || m == "utf-8"@
}

/// The MIME type that `mime_sniffer`'s `sniff_mime_type` sniffs from bytes.
pub uninterp spec fn mime_sniffed(bytes: Seq<u8>) -> Option<Seq<char>>;

/// Sniffs the MIME type of bytes with `mime_sniffer::MimeTypeSniffer::sniff_mime_type`;
/// the result is named `mime_sniffed` of the bytes.
#[verifier::external_body]
fn sniff_mime_type(bytes: &[u8]) -> (r: Option<String>)
    ensures
        match r {
            Some(s) => mime_sniffed(bytes@) == Some(s@),
            None => mime_sniffed(bytes@) is None,
        },
{
    mime_sniffer::MimeTypeSniffer::sniff_mime_type(&bytes).map(|m| m.to_string())
}

/// One more, but no more than `u64::MAX`.
pub open spec fn sat_inc(n: int) -> int {
    if n < u64::MAX { n + 1 } else { n }
}

/// The line holds file offset `fo`.
pub open spec fn line_holds(l: Line, fo: int) -> bool {
    l.spec_begin() <= fo <= l.spec_end()
}

/// A cache entry `(kind, next offset, line start)` for `fo` agrees with `data`.
pub open spec fn find_cache_entry_ok(data: Seq<u8>, fo: int, e: (u8, u64, u64)) -> bool {
    if fo >= data.len() {
        e.0 == FIND_DONE
    } else {
        &&& e.0 == FIND_FOUND || e.0 == FIND_FOUND_EOF
        &&& e.2 == line_begin(data, fo)
        &&& e.1 == line_end(data, fo) + 1
        &&& (e.0 == FIND_FOUND_EOF <==> e.1 == data.len())
    }
}

/// A current block for reading bytes: `(block offset, block)`.
pub open spec fn cur_block_ok(data: Seq<u8>, bsz: int, cur: Option<(u64, BlockP)>) -> bool {
    cur matches Some((bo, bp)) ==> bo * bsz < data.len() && bp@ == block_bytes(data, bo as int, bsz)
}

/// The byte at `fo`, read from the current block, or from the block reader where
/// the current block does not hold `fo`.
fn byte_at(br: &mut BlockReader, fo: FileOffset, cur: &mut Option<(u64, BlockP)>) -> (r: u8)
    requires
        old(br).wf(),
        fo < old(br).data().len(),
        cur_block_ok(old(br).data(), old(br).spec_blocksz(), *old(cur)),
    ensures
        final(br).wf(),
        final(br).data() == old(br).data(),
        final(br).spec_blocksz() == old(br).spec_blocksz(),
        final(br).spec_filetype() == old(br).spec_filetype(),
        cur_block_ok(final(br).data(), final(br).spec_blocksz(), *final(cur)),
        r == old(br).data()[fo as int],
{
    let bsz = br.blocksz();
    proof {
        br.lemma_wf();
    }
    let bo = fo / bsz;
    proof {
        lemma_div_mod(fo as int, bsz as int);
        lemma_block_in_file(bo as int, bsz as int, old(br).data().len() as int);
    }
    let bi: usize = (fo - bo * bsz) as usize;
    let need = match cur {
        Some((cbo, _)) => *cbo != bo,
        None => true,
    };
    if need {
        match br.read_block(bo) {
            ResultS3::Found(bp) => {
                *cur = Some((bo, bp));
            },
            _ => {
                proof {
                    assert(false);
                }
                return 0;
            },
        }
    }
    match cur {
        Some((_, bp)) => {
            proof {
                assert(bp@ == block_bytes(br.data(), bo as int, bsz as int));
                assert(bp@[bi as int] == br.data()[fo as int]);
            }
            bp[bi]
        },
        None => {
            proof {
                assert(false);
            }
            0
        },
    }
}

/// Reads a file's lines, from the blocks of a `BlockReader`.
pub struct LineReader {
    pub blockreader: BlockReader,
    /// lines found, by the file offset at which they begin
    pub lines: FoToLine,
    /// for the lines found, the offset at which each begins, by the offset at which it ends
    foend_to_fobeg: FoToFo,
    /// count of lines found (not lessened when lines are dropped)
    lines_count: u64,
    _charsz: CharSz,
    _zeroblock_analysis_done: bool,
    _find_line_lru_cache_enabled: bool,
    _find_line_lru_cache: FindLRUCache,
    pub _find_line_lru_cache_hit: u64,
    pub _find_line_lru_cache_miss: u64,
    pub find_line_lru_cache_put: u64,
    /// lookups of a found line's offset in `lines`: hits and misses
    pub _lines_hits: u64,
    pub _lines_miss: u64,
    /// lines dropped, and lines that were not stored when asked to be dropped
    pub drop_line_ok: u64,
    pub drop_line_errors: u64,
}

impl LineReader {
    /// The file's contents.
    pub closed spec fn data(&self) -> Seq<u8> {
        self.blockreader.data()
    }

    /// The block size.
    pub closed spec fn spec_blocksz(&self) -> int {
        self.blockreader.spec_blocksz()
    }

    /// The stored lines, by the offset at which each begins.
    pub closed spec fn spec_lines(&self) -> Map<u64, LineP> {
        self.lines@
    }

    /// The MIME types guessed from the file's path.
    pub closed spec fn spec_mimeguess(&self) -> Seq<Seq<char>> {
        self.blockreader.spec_mimeguess()
    }

    /// `zeroblock_process` has decided.
    pub closed spec fn spec_zeroblock_done(&self) -> bool {
        self._zeroblock_analysis_done
    }

    /// A stored line holds file offset `fo`.
    pub closed spec fn stored_line_holds(&self, fo: int) -> bool {
        exists|b: u64| #[trigger] self.lines@.contains_key(b) && line_holds(*self.lines@[b], fo)
    }

    /// The file's path.
    pub closed spec fn spec_path(&self) -> FPath {
        self.blockreader.spec_path()
    }

    /// The count of lines found.
    pub closed spec fn spec_count(&self) -> int {
        self.lines_count as int
    }

    /// What a well-formed reader's sizes are.
    pub proof fn lemma_wf(&self)
        requires
            self.wf(),
        ensures
            crate::blockreader::BLOCKSZ_MIN <= self.spec_blocksz() <= crate::blockreader::BLOCKSZ_MAX,
            self.data().len() < 0x4000_0000_0000_0000,
            self.data().len() <= usize::MAX,
    {
        self.blockreader.lemma_wf();
    }

    /// Two readers of the same bytes agree on every line they both hold: a line is
    /// stored only at an offset where a line of the file begins, and it has the same
    /// offsets and bytes in each, those of the file's line that begins there, whatever
    /// block sizes or order of reads led to it.
    pub proof fn law_stored_lines_agree(a: &LineReader, b: &LineReader, fo: u64)
        requires
            a.wf(),
            b.wf(),
            a.data() == b.data(),
            a.spec_lines().contains_key(fo),
            b.spec_lines().contains_key(fo),
        ensures
            a.spec_lines()[fo].spec_begin() == b.spec_lines()[fo].spec_begin(),
            a.spec_lines()[fo].spec_end() == b.spec_lines()[fo].spec_end(),
            a.spec_lines()[fo].bytes() == b.spec_lines()[fo].bytes(),
            a.spec_lines()[fo].bytes() == a.data().subrange(fo as int, line_end(a.data(), fo as int) + 1),
            fo as int == line_begin(a.data(), fo as int),
            a.spec_lines()[fo].spec_end() == line_end(a.data(), fo as int),
    {
    }

    /// The block reader's file size is that of the contents.
    proof fn lemma_wf_br(&self)
        requires
            self.wf(),
        ensures
            self.blockreader.spec_filesz() == self.data().len(),
            self.blockreader.wf(),
    {
        self.blockreader.lemma_wf();
    }

    /// Well-formed: the stored lines and cached results are those of the file's contents.
    pub closed spec fn wf(&self) -> bool {
        &&& self.blockreader.wf()
        &&& self._charsz == 1
        &&& forall|b: u64| #[trigger] self.lines@.contains_key(b) ==> {
            &&& line_at(self.blockreader.data(), *self.lines@[b])
            &&& self.lines@[b].spec_begin() == b
        }
        &&& forall|fo: u64| #[trigger] find_cache_contents(self._find_line_lru_cache).contains_key(fo) ==>
            find_cache_entry_ok(self.blockreader.data(), fo as int, find_cache_contents(self._find_line_lru_cache)[fo])
    }

    /// A reader of the lines of a file (see `BlockReader::new`).
    pub fn new(path: FPath, filetype: FileType, blocksz: BlockSz, file_bytes: Vec<u8>, mtime: u64) -> (r: Result<LineReader, Error>)
        requires
            crate::blockreader::BLOCKSZ_MIN <= blocksz <= crate::blockreader::BLOCKSZ_MAX,
            file_bytes@.len() < 0x4000_0000_0000_0000,
        ensures
            match r {
                Ok(lr) => {
                    &&& lr.wf()
                    &&& lr.spec_blocksz() == blocksz
                    &&& lr.spec_lines().len() == 0
                    &&& lr.spec_count() == 0
                    &&& file_contents(filetype, path@, file_bytes@) == Some(lr.data())
                    &&& filetype == FileType::File ==> lr.data() == file_bytes@
                },
                Err(_) => filetype != FileType::File,
            },
            r is Ok <==> file_contents(filetype, path@, file_bytes@) is Some,
    {
        let br = match BlockReader::new(path, filetype, blocksz, file_bytes, mtime) {
            Ok(br) => br,
            Err(e) => {
                return Err(e);
            },
        };
        Ok(LineReader {
            blockreader: br,
            lines: BTreeMap::new(),
            foend_to_fobeg: BTreeMap::new(),
            lines_count: 0,
            _charsz: CHARSZ,
            _zeroblock_analysis_done: false,
            _find_line_lru_cache_enabled: true,
            _find_line_lru_cache: find_cache_new(FIND_LINE_LRC_CACHE_SZ),
            _find_line_lru_cache_hit: 0,
            find_line_lru_cache_put: 0,
            _lines_hits: 0,
            _lines_miss: 0,
            drop_line_ok: 0,
            drop_line_errors: 0,
            _find_line_lru_cache_miss: 0,
        })
    }

    /// The char size in bytes.
    pub fn charsz(&self) -> (r: usize)
        requires
            self.wf(),
        ensures
            r == 1,
    {
        self._charsz
    }

    /// The block size.
    pub fn blocksz(&self) -> (r: BlockSz)
        ensures
            r == self.spec_blocksz(),
    {
        self.blockreader.blocksz()
    }

    /// The file size.
    pub fn filesz(&self) -> (r: FileSz)
        requires
            self.wf(),
        ensures
            r == self.data().len(),
    {
        self.blockreader.filesz()
    }

    /// Count of the bytes stored by the block reader's reads.
    pub closed spec fn spec_count_bytes(&self) -> u64 {
        self.blockreader.spec_count_bytes()
    }

    /// Count of the blocks read by the block reader.
    pub closed spec fn spec_count_blocks_read(&self) -> int {
        self.blockreader.spec_blocks_read().len() as int
    }

    /// The file type.
    pub closed spec fn spec_filetype(&self) -> FileType {
        self.blockreader.spec_filetype()
    }

    /// The file type.
    pub fn filetype(&self) -> (r: FileType)
        ensures
            r == self.spec_filetype(),
    {
        self.blockreader.filetype()
    }

    /// The MIME types guessed from the file's path.
    pub fn mimeguess(&self) -> (r: MimeGuess)
        ensures
            r.types@.map_values(|t: String| t@) == self.spec_mimeguess(),
    {
        self.blockreader.mimeguess()
    }

    /// The file's path.
    pub fn path(&self) -> (r: &FPath)
        ensures
            *r == self.spec_path(),
    {
        self.blockreader.path()
    }

    /// Enables the cache of `find_line`.
    pub fn LRU_cache_enable(&mut self)
        requires
            old(self).wf(),
        ensures
            final(self).wf(),
            final(self).data() == old(self).data(),
            final(self).spec_blocksz() == old(self).spec_blocksz(),
            final(self).spec_lines() == old(self).spec_lines(),
            final(self).spec_count() == old(self).spec_count(),
            final(self).spec_lru_cache_enabled(),
            final(self).spec_lines_cached() == Set::<u64>::empty(),
            final(self).spec_blocks_stored() == old(self).spec_blocks_stored(),
    {
        self._find_line_lru_cache_enabled = true;
        find_cache_clear(&mut self._find_line_lru_cache);
        find_cache_resize(&mut self._find_line_lru_cache, FIND_LINE_LRC_CACHE_SZ);
        proof {
            assert(self.spec_lines_cached() =~= Set::<u64>::empty());
        }
    }

    /// Disables the cache of `find_line`.
    pub fn LRU_cache_disable(&mut self)
        requires
            old(self).wf(),
        ensures
            final(self).wf(),
            final(self).data() == old(self).data(),
            final(self).spec_blocksz() == old(self).spec_blocksz(),
            final(self).spec_lines() == old(self).spec_lines(),
            final(self).spec_count() == old(self).spec_count(),
            !final(self).spec_lru_cache_enabled(),
            final(self).spec_lines_cached() == Set::<u64>::empty(),
            final(self).spec_blocks_stored() == old(self).spec_blocks_stored(),
    {
        self._find_line_lru_cache_enabled = false;
        find_cache_clear(&mut self._find_line_lru_cache);
        find_cache_resize(&mut self._find_line_lru_cache, 1);
        proof {
            assert(self.spec_lines_cached() =~= Set::<u64>::empty());
        }
    }

    /// The cache of `find_line` is enabled.
    pub closed spec fn spec_lru_cache_enabled(&self) -> bool {
        self._find_line_lru_cache_enabled
    }

    /// The offsets for which the cache of `find_line` holds a result.
    pub closed spec fn spec_lines_cached(&self) -> Set<u64> {
        find_cache_contents(self._find_line_lru_cache).dom()
    }

    /// The block offsets of the blocks stored by the block reader.
    pub closed spec fn spec_blocks_stored(&self) -> Set<u64> {
        self.blockreader.spec_blocks_stored()
    }

    /// The block offsets of the blocks in the block reader's cache.
    pub closed spec fn spec_blocks_cached(&self) -> Set<u64> {
        self.blockreader.spec_blocks_cached()
    }

    /// The count of lines found.
    pub fn count(&self) -> (r: u64)
        ensures
            r == self.spec_count(),
    {
        self.lines_count
    }

    /// The counter `_lines_hits`.
    pub closed spec fn spec_lines_hits(&self) -> u64 {
        self._lines_hits
    }

    /// The counter `_lines_hits`.
    pub fn _lines_hits(&self) -> (r: u64)
        ensures
            r == self.spec_lines_hits(),
    {
        self._lines_hits
    }

    /// The counter `_lines_miss`.
    pub closed spec fn spec_lines_miss(&self) -> u64 {
        self._lines_miss
    }

    /// The counter `_lines_miss`.
    pub fn _lines_miss(&self) -> (r: u64)
        ensures
            r == self.spec_lines_miss(),
    {
        self._lines_miss
    }

    /// The counter `_find_line_lru_cache_hit`.
    pub closed spec fn spec_find_line_lru_cache_hit(&self) -> u64 {
        self._find_line_lru_cache_hit
    }

    /// The counter `_find_line_lru_cache_hit`.
    pub fn _find_line_lru_cache_hit(&self) -> (r: u64)
        ensures
            r == self.spec_find_line_lru_cache_hit(),
    {
        self._find_line_lru_cache_hit
    }

    /// The counter `_find_line_lru_cache_miss`.
    pub closed spec fn spec_find_line_lru_cache_miss(&self) -> u64 {
        self._find_line_lru_cache_miss
    }

    /// The counter `_find_line_lru_cache_miss`.
    pub fn _find_line_lru_cache_miss(&self) -> (r: u64)
        ensures
            r == self.spec_find_line_lru_cache_miss(),
    {
        self._find_line_lru_cache_miss
    }

    /// The counter `find_line_lru_cache_put`.
    pub closed spec fn spec_find_line_lru_cache_put(&self) -> u64 {
        self.find_line_lru_cache_put
    }

    /// The counter `find_line_lru_cache_put`.
    pub fn find_line_lru_cache_put(&self) -> (r: u64)
        ensures
            r == self.spec_find_line_lru_cache_put(),
    {
        self.find_line_lru_cache_put
    }

    /// The counter `drop_line_ok`.
    pub closed spec fn spec_drop_line_ok(&self) -> u64 {
        self.drop_line_ok
    }

    /// The counter `drop_line_ok`.
    pub fn drop_line_ok(&self) -> (r: u64)
        ensures
            r == self.spec_drop_line_ok(),
    {
        self.drop_line_ok
    }

    /// The counter `drop_line_errors`.
    pub closed spec fn spec_drop_line_errors(&self) -> u64 {
        self.drop_line_errors
    }

    /// The counter `drop_line_errors`.
    pub fn drop_line_errors(&self) -> (r: u64)
        ensures
            r == self.spec_drop_line_errors(),
    {
        self.drop_line_errors
    }

    /// The block reader, as a value.
    pub closed spec fn spec_blockreader(&self) -> BlockReader {
        self.blockreader
    }

    /// The block reader.
    pub fn blockreader(&self) -> (r: &BlockReader)
        ensures
            *r == self.spec_blockreader(),
            self.wf() ==> r.wf(),
            r.data() == self.data(),
            r.spec_blocksz() == self.spec_blocksz(),
            r.spec_count_bytes() == self.spec_count_bytes(),
            r.spec_blocks_read().len() == self.spec_count_blocks_read(),
    {
        &self.blockreader
    }

    /// The count of lines found.
    pub fn count_lines_processed(&self) -> (r: u64)
        ensures
            r == self.spec_count(),
    {
        self.lines_count
    }

    /// The block offset at a file offset.
    pub fn block_offset_at_file_offset(&self, fileoffset: FileOffset) -> (r: BlockOffset)
        requires
            self.wf(),
        ensures
            r == fileoffset as int / self.spec_blocksz(),
    {
        proof {
            self.lemma_wf();
        }
        crate::blockreader::BlockReader::block_offset_at_file_offset(fileoffset, self.blocksz())
    }

    /// The file offset at which a block begins.
    pub fn file_offset_at_block_offset(&self, blockoffset: BlockOffset) -> (r: FileOffset)
        requires
            blockoffset * self.spec_blocksz() <= u64::MAX,
        ensures
            r == blockoffset * self.spec_blocksz(),
    {
        crate::blockreader::BlockReader::file_offset_at_block_offset(blockoffset, self.blocksz())
    }

    /// The file offset of an index within a block.
    pub fn file_offset_at_block_offset_index(&self, blockoffset: BlockOffset, blockindex: BlockIndex) -> (r: FileOffset)
        requires
            blockoffset * self.spec_blocksz() + blockindex <= u64::MAX,
        ensures
            r == blockoffset * self.spec_blocksz() + blockindex,
    {
        crate::blockreader::BlockReader::file_offset_at_block_offset_index(blockoffset, self.blocksz(), blockindex)
    }

    /// The index within its block of a file offset.
    pub fn block_index_at_file_offset(&self, fileoffset: FileOffset) -> (r: BlockIndex)
        requires
            self.wf(),
        ensures
            r == fileoffset as int % self.spec_blocksz(),
    {
        proof {
            self.lemma_wf();
        }
        crate::blockreader::BlockReader::block_index_at_file_offset(fileoffset, self.blocksz())
    }

    /// The count of blocks of the file.
    pub fn file_blocks_count(&self) -> (r: u64)
        requires
            self.wf(),
        ensures
            r == crate::blockreader::spec_count_blocks(self.data().len() as int, self.spec_blocksz()),
    {
        proof {
            self.lemma_wf();
        }
        crate::blockreader::BlockReader::count_blocks(self.filesz(), self.blocksz())
    }

    /// The last block offset of the file.
    pub fn blockoffset_last(&self) -> (r: BlockOffset)
        requires
            self.wf(),
        ensures
            r == spec_blockoffset_last(self.data().len() as int, self.spec_blocksz()),
    {
        proof {
            self.lemma_wf_br();
        }
        self.blockreader.blockoffset_last()
    }

    /// Is a MIME type one whose files are read as lines of text?
    pub fn parseable_mimestr(mimeguess: &str) -> (r: bool)
        ensures
            r == mime_parseable(mimeguess@),
    {
        str_eq(mimeguess, "plain") || str_eq(mimeguess, "text") || str_eq(mimeguess, "text/plain")
            || str_eq(mimeguess, "text/*") || str_eq(mimeguess, "utf-8")
    }

    /// Is the most likely MIME type guessed one whose files are read as lines of text?
    pub fn parseable_mimeguess(mimeguess: &MimeGuess) -> (r: bool)
        ensures
            r == (mimeguess.types@.len() > 0 && mime_parseable(mimeguess.types@[0]@)),
    {
        match mimeguess.first() {
            Some(first_) => LineReader::parseable_mimestr(first_),
            None => false,
        }
    }

    /// The stored line holding `fileoffset`, if any.
    pub fn get_linep(&self, fileoffset: &FileOffset) -> (r: Option<LineP>)
        requires
            self.wf(),
        ensures
            r matches Some(lp) ==> self.spec_lines().contains_key(lp.lineparts@[0].fileoffset),
            r matches Some(lp) ==> self.spec_lines()[lp.lineparts@[0].fileoffset] == lp,
            r matches Some(lp) ==> line_holds(*lp, (*fileoffset) as int),
            r is None ==> !self.stored_line_holds((*fileoffset) as int),
    {
        let fo = *fileoffset;
        assert(self.spec_lines() == self.lines@);
        let mut b: u64 = fo;
        loop
            invariant
                self.wf(),
                fo == *fileoffset,
                b <= fo,
                forall|k: u64| b < k <= fo ==> !#[trigger] self.lines@.contains_key(k),
            decreases b,
        {
            match self.lines.get(&b) {
                Some(lpb) => {
                    assert(self.lines@.contains_key(b));
                    assert(self.lines@[b] == *lpb);
                    let end = lpb.fileoffset_end();
                    if end >= fo {
                        assert(self.lines@[b].spec_begin() == b);
                        return Some(arc_clone(lpb));
                    }
                    proof {
                        self.lemma_no_line_holds(b, fo);
                    }
                    return None;
                },
                None => {},
            }
            if b == 0 {
                proof {
                    assert forall|k: u64| #[trigger] self.lines@.contains_key(k) implies !line_holds(*self.lines@[k], fo as int) by {
                        assert(k > fo);
                        assert(self.lines@[k].spec_begin() == k);
                    }
                }
                return None;
            }
            b -= 1;
        }
    }

    /// Where the stored line at `b` ends before `fo` and no stored line begins in
    /// `(b, fo]`, no stored line holds `fo`.
    proof fn lemma_no_line_holds(&self, b: u64, fo: u64)
        requires
            self.wf(),
            b <= fo,
            self.lines@.contains_key(b),
            self.lines@[b].spec_end() < fo,
            forall|k: u64| b < k <= fo ==> !#[trigger] self.lines@.contains_key(k),
        ensures
            forall|k: u64| #[trigger] self.lines@.contains_key(k) ==> !line_holds(*self.lines@[k], fo as int),
    {
        let data = self.data();
        assert forall|k: u64| #[trigger] self.lines@.contains_key(k) implies !line_holds(*self.lines@[k], fo as int) by {
            if k < b {
                let lk = *self.lines@[k];
                let lb = *self.lines@[b];
                assert(line_at(data, lk));
                assert(line_at(data, lb));
                assert(b > 0);
                assert(data[b - 1] == NLu8) by {
                    assert(lb.spec_begin() == line_begin(data, b as int));
                    lemma_line_begin(data, b as int);
                }
                lemma_line_end_le_nl(data, k as int, b - 1);
            }
        }
    }


    /// The offset at which the line holding `fo` begins, found by reading back from `fo`.
    fn find_line_begin(&mut self, fo: FileOffset, cur: &mut Option<(u64, BlockP)>) -> (b: FileOffset)
        requires
            old(self).wf(),
            fo < old(self).data().len(),
            cur_block_ok(old(self).data(), old(self).spec_blocksz(), *old(cur)),
        ensures
            final(self).wf(),
            final(self).data() == old(self).data(),
            final(self).spec_blocksz() == old(self).spec_blocksz(),
            final(self).lines@ == old(self).lines@,
            final(self).spec_count() == old(self).spec_count(),
            final(self)._find_line_lru_cache_enabled == old(self)._find_line_lru_cache_enabled,
            cur_block_ok(final(self).data(), final(self).spec_blocksz(), *final(cur)),
            b == line_begin(old(self).data(), fo as int),
    {
        let ghost data = self.data();
        let mut b: FileOffset = fo;
        loop
            invariant
                self.wf(),
                self.data() == data,
                self.spec_blocksz() == old(self).spec_blocksz(),
                self.lines@ == old(self).lines@,
                self.spec_count() == old(self).spec_count(),
                self._find_line_lru_cache_enabled == old(self)._find_line_lru_cache_enabled,
                fo < data.len(),
                b <= fo,
                line_begin(data, fo as int) == line_begin(data, b as int),
                cur_block_ok(data, self.spec_blocksz(), *cur),
            ensures
                self.wf(),
                self.data() == data,
                self.spec_blocksz() == old(self).spec_blocksz(),
                self.lines@ == old(self).lines@,
                self.spec_count() == old(self).spec_count(),
                self._find_line_lru_cache_enabled == old(self)._find_line_lru_cache_enabled,
                cur_block_ok(data, self.spec_blocksz(), *cur),
                b == line_begin(data, fo as int),
            decreases b,
        {
            if b == 0 {
                break;
            }
            let c = byte_at(&mut self.blockreader, b - 1, cur);
            if c == NLu8 {
                break;
            }
            b -= 1;
        }
        b
    }

    /// The offset of the last byte of the line holding `fo`, found by reading on from `fo`.
    fn find_line_end(&mut self, fo: FileOffset, cur: &mut Option<(u64, BlockP)>) -> (e: FileOffset)
        requires
            old(self).wf(),
            fo < old(self).data().len(),
            cur_block_ok(old(self).data(), old(self).spec_blocksz(), *old(cur)),
        ensures
            final(self).wf(),
            final(self).data() == old(self).data(),
            final(self).spec_blocksz() == old(self).spec_blocksz(),
            final(self).lines@ == old(self).lines@,
            final(self).spec_count() == old(self).spec_count(),
            final(self)._find_line_lru_cache_enabled == old(self)._find_line_lru_cache_enabled,
            cur_block_ok(final(self).data(), final(self).spec_blocksz(), *final(cur)),
            e == line_end(old(self).data(), fo as int),
    {
        let ghost data = self.data();
        let filesz = self.filesz();
        let mut e: FileOffset = fo;
        loop
            invariant
                self.wf(),
                self.data() == data,
                filesz == data.len(),
                self.spec_blocksz() == old(self).spec_blocksz(),
                self.lines@ == old(self).lines@,
                self.spec_count() == old(self).spec_count(),
                self._find_line_lru_cache_enabled == old(self)._find_line_lru_cache_enabled,
                fo <= e < data.len(),
                line_end(data, fo as int) == line_end(data, e as int),
                cur_block_ok(data, self.spec_blocksz(), *cur),
            ensures
                self.wf(),
                self.data() == data,
                self.spec_blocksz() == old(self).spec_blocksz(),
                self.lines@ == old(self).lines@,
                self.spec_count() == old(self).spec_count(),
                self._find_line_lru_cache_enabled == old(self)._find_line_lru_cache_enabled,
                cur_block_ok(data, self.spec_blocksz(), *cur),
                e == line_end(data, fo as int),
            decreases data.len() - e,
        {
            let c = byte_at(&mut self.blockreader, e, cur);
            if c == NLu8 || e + 1 == filesz {
                break;
            }
            e += 1;
        }
        e
    }

    /// The line `[b, e]`, built of parts of the blocks that it spans.
    fn build_line(&mut self, b: FileOffset, e: FileOffset) -> (line: Line)
        requires
            old(self).wf(),
            b <= e < old(self).data().len(),
            b == line_begin(old(self).data(), b as int),
            e == line_end(old(self).data(), b as int),
        ensures
            final(self).wf(),
            final(self).data() == old(self).data(),
            final(self).spec_blocksz() == old(self).spec_blocksz(),
            final(self).lines@ == old(self).lines@,
            final(self).spec_count() == old(self).spec_count(),
            final(self)._find_line_lru_cache_enabled == old(self)._find_line_lru_cache_enabled,
            line_at(old(self).data(), line),
            line.spec_begin() == b,
            line.spec_end() == e,
    {
        let ghost data = self.data();
        proof {
            self.lemma_wf();
        }
        let bsz = self.blocksz();
        let mut line = Line::new();
        let mut fo: FileOffset = b;
        let mut bo: BlockOffset = b / bsz;
        proof {
            lemma_div_mod(b as int, bsz as int);
        }
        while fo <= e
            invariant
                self.wf(),
                self.data() == data,
                self.spec_blocksz() == old(self).spec_blocksz(),
                bsz == self.spec_blocksz(),
                0 < bsz <= crate::blockreader::BLOCKSZ_MAX,
                self.lines@ == old(self).lines@,
                self.spec_count() == old(self).spec_count(),
                self._find_line_lru_cache_enabled == old(self)._find_line_lru_cache_enabled,
                data.len() < 0x4000_0000_0000_0000,
                b <= e < data.len(),
                b <= fo <= e + 1,
                fo <= e ==> bo == fo / bsz,
                fo <= e ==> (fo == b || fo % bsz == 0),
                fo == b <==> line.lineparts@.len() == 0,
                line.lineparts@.len() > 0 ==> line.lineparts@[0].fileoffset == b,
                line.lineparts@.len() > 0 ==> line.lineparts@.last().fileoffset + line.lineparts@.last().spec_len() == fo,
                parts_chain(line.lineparts@),
                parts_aligned(line.lineparts@),
                parts_bytes(line.lineparts@) == data.subrange(b as int, fo as int),
            decreases e + 1 - fo,
        {
            proof {
                self.lemma_wf_br();
                self.lemma_wf();
            }
            let bp = match self.blockreader.read_block(bo) {
                ResultS3::Found(bp) => bp,
                _ => {
                    proof {
                        self.lemma_wf_br();
                        lemma_div_mod(fo as int, bsz as int);
                        lemma_block_in_file(bo as int, bsz as int, data.len() as int);
                        assert(bo * bsz <= fo);
                        assert(false);
                    }
                    return line;
                },
            };
            proof {
                lemma_div_mod(fo as int, bsz as int);
                lemma_block_in_file(bo as int, bsz as int, data.len() as int);
            }
            let start = bo * bsz;
            let beg: usize = (fo - start) as usize;
            let end: usize = if e < start + bsz { (e - start + 1) as usize } else { bp.len() };
            proof {
                assert(bp@ == block_bytes(data, bo as int, bsz as int));
                if e >= start + bsz {
                    assert((bo + 1) * bsz <= e);
                    assert(bp@.len() == bsz);
                }
            }
            let part = LinePart::new(beg, end, bp, fo, bo, bsz);
            let ghost old_parts = line.lineparts@;
            line.lineparts.push(part);
            proof {
                assert(line.lineparts@.drop_last() =~= old_parts);
                assert(part.bytes() =~= data.subrange(fo as int, start + end));
                assert(parts_bytes(line.lineparts@) =~= data.subrange(b as int, start + end));
                assert forall|i: int| 0 <= i < line.lineparts@.len() implies #[trigger] line.lineparts@[i].wf() by {
                    if i < old_parts.len() {
                        assert(line.lineparts@[i] == old_parts[i]);
                    }
                }
                assert forall|i: int| 0 <= i < line.lineparts@.len() - 1 implies
                    #[trigger] line.lineparts@[i + 1].fileoffset == line.lineparts@[i].fileoffset + line.lineparts@[i].spec_len() by {
                    if i + 1 < old_parts.len() {
                        assert(line.lineparts@[i] == old_parts[i]);
                        assert(line.lineparts@[i + 1] == old_parts[i + 1]);
                    } else {
                        assert(line.lineparts@[i] == old_parts.last());
                    }
                }
                assert forall|i: int| 0 < i < line.lineparts@.len() implies #[trigger] line.lineparts@[i].blocki_beg == 0 by {
                    if i < old_parts.len() {
                        assert(line.lineparts@[i] == old_parts[i]);
                    }
                }
                if old_parts.len() > 0 {
                    assert(line.lineparts@[0] == old_parts[0]);
                }
            }
            fo = start + end as u64;
            bo = bo + 1;
            proof {
                if fo <= e {
                    assert(fo == (bo as int) * bsz);
                    assert(fo as int % bsz as int == 0 && fo as int / bsz as int == bo) by (nonlinear_arith)
                        requires fo == (bo as int) * bsz, bsz > 0;
                }
            }
        }
        proof {
            lemma_parts_span(line.lineparts@);
            lemma_line_of_offset(data, b as int);
            assert(line.spec_end() == e);
        }
        line
    }

    /// Finds the line that holds file offset `fileoffset`: `Done` at or past the end
    /// of the file, else the offset just past the line and the line, as `Found_EOF`
    /// for the file's last line. A line found for the first time is stored and counted.
    pub fn find_line(&mut self, fileoffset: FileOffset) -> (r: ResultS4_LineFind)
        requires
            old(self).wf(),
        ensures
            final(self).wf(),
            final(self).data() == old(self).data(),
            final(self).spec_blocksz() == old(self).spec_blocksz(),
            find_line_result(old(self).data(), fileoffset as int, r),
            r is Done ==> final(self).spec_lines() == old(self).spec_lines() && final(self).spec_count() == old(self).spec_count(),
            r matches ResultS4::Found((_, lp)) ==> final(self).spec_lines() == old(self).spec_lines().insert(lp.lineparts@[0].fileoffset, lp),
            r matches ResultS4::Found_EOF((_, lp)) ==> final(self).spec_lines() == old(self).spec_lines().insert(lp.lineparts@[0].fileoffset, lp),
            r matches ResultS4::Found((_, lp)) ==> (old(self).spec_lines().contains_key(lp.lineparts@[0].fileoffset) ==> old(self).spec_lines()[lp.lineparts@[0].fileoffset] == lp),
            r matches ResultS4::Found_EOF((_, lp)) ==> (old(self).spec_lines().contains_key(lp.lineparts@[0].fileoffset) ==> old(self).spec_lines()[lp.lineparts@[0].fileoffset] == lp),
            !(r is Done) ==> final(self).spec_count() == (if old(self).spec_lines().dom().contains(line_begin(old(self).data(), fileoffset as int) as u64) {
                old(self).spec_count()
            } else {
                sat_inc(old(self).spec_count())
            }),
    {
        let ghost data = self.data();
        proof {
            self.lemma_wf();
        }
        let filesz = self.filesz();
        if self._find_line_lru_cache_enabled {
            match find_cache_get(&mut self._find_line_lru_cache, fileoffset) {
                Some((kind, fo_next, b)) => {
                    proof {
                        if fileoffset < data.len() {
                            lemma_line_of_offset(data, fileoffset as int);
                            lemma_line_end(data, fileoffset as int);
                        }
                    }
                    self._find_line_lru_cache_hit = self._find_line_lru_cache_hit.saturating_add(1);
                    if kind == FIND_DONE {
                        return ResultS4::Done;
                    }
                    match self.lines.get(&b) {
                        Some(lpb) => {
                            let lp = arc_clone(lpb);
                            proof {
                                assert(self.lines@.insert(b, lp) =~= self.lines@);
                            }
                            if kind == FIND_FOUND_EOF {
                                return ResultS4::Found_EOF((fo_next, lp));
                            }
                            return ResultS4::Found((fo_next, lp));
                        },
                        None => {},
                    }
                },
                None => {
                    self._find_line_lru_cache_miss = self._find_line_lru_cache_miss.saturating_add(1);
                },
            }
        }
        if fileoffset >= filesz {
            if self._find_line_lru_cache_enabled {
                find_cache_put(&mut self._find_line_lru_cache, fileoffset, (FIND_DONE, 0, 0));
                self.find_line_lru_cache_put = self.find_line_lru_cache_put.saturating_add(1);
            }
            return ResultS4::Done;
        }
        let mut cur: Option<(u64, BlockP)> = None;
        let b = self.find_line_begin(fileoffset, &mut cur);
        let e = self.find_line_end(fileoffset, &mut cur);
        proof {
            lemma_line_of_offset(data, fileoffset as int);
            lemma_line_begin(data, fileoffset as int);
            lemma_line_end(data, fileoffset as int);
        }
        let fo_next: FileOffset = e + 1;
        let kind: u8 = if fo_next == filesz { FIND_FOUND_EOF } else { FIND_FOUND };
        let lp: LineP = match self.lines.get(&b) {
            Some(lpb) => {
                let lp = arc_clone(lpb);
                proof {
                    assert(self.lines@.insert(b, lp) =~= self.lines@);
                }
                self._lines_hits = self._lines_hits.saturating_add(1);
                lp
            },
            None => {
                self._lines_miss = self._lines_miss.saturating_add(1);
                let line = self.build_line(b, e);
                let lp = Arc::new(line);
                self.lines.insert(b, arc_clone(&lp));
                self.foend_to_fobeg.insert(e, b);
                self.lines_count = self.lines_count.saturating_add(1);
                lp
            },
        };
        if self._find_line_lru_cache_enabled {
            find_cache_put(&mut self._find_line_lru_cache, fileoffset, (kind, fo_next, b));
            self.find_line_lru_cache_put = self.find_line_lru_cache_put.saturating_add(1);
        }
        if kind == FIND_FOUND_EOF {
            ResultS4::Found_EOF((fo_next, lp))
        } else {
            ResultS4::Found((fo_next, lp))
        }
    }



    /// Reads block `blockoffset` of the file (`BlockReader::read_block`); the lines
    /// stay as they were.
    pub fn read_block(&mut self, blockoffset: BlockOffset) -> (r: ResultS3_ReadBlock)
        requires
            old(self).wf(),
        ensures
            final(self).wf(),
            final(self).data() == old(self).data(),
            final(self).spec_blocksz() == old(self).spec_blocksz(),
            final(self).spec_lines() == old(self).spec_lines(),
            final(self).spec_count() == old(self).spec_count(),
            r is Done <==> blockoffset * old(self).spec_blocksz() >= old(self).data().len(),
            r matches ResultS3::Found(bp) ==> bp@ == block_bytes(old(self).data(), blockoffset as int, old(self).spec_blocksz()),
            !(r is Error),
    {
        proof {
            self.blockreader.lemma_wf();
        }
        self.blockreader.read_block(blockoffset)
    }

    /// Like `find_line`, but `Done` also where the line holding `fileoffset` does not
    /// lie wholly within the block holding `fileoffset`.
    pub fn find_line_in_block(&mut self, fileoffset: FileOffset) -> (r: ResultS4_LineFind)
        requires
            old(self).wf(),
        ensures
            final(self).wf(),
            final(self).data() == old(self).data(),
            final(self).spec_blocksz() == old(self).spec_blocksz(),
            forall|b: u64| #[trigger] old(self).spec_lines().contains_key(b) ==>
                final(self).spec_lines().contains_key(b) && final(self).spec_lines()[b] == old(self).spec_lines()[b],
            r is Done <==> (fileoffset >= old(self).data().len()
                || line_begin(old(self).data(), fileoffset as int) / old(self).spec_blocksz() != fileoffset as int / old(self).spec_blocksz()
                || line_end(old(self).data(), fileoffset as int) / old(self).spec_blocksz() != fileoffset as int / old(self).spec_blocksz()),
            !(r is Done) ==> find_line_result(old(self).data(), fileoffset as int, r),
    {
        let ghost data = self.data();
        let r = self.find_line(fileoffset);
        proof {
            self.lemma_wf();
            if fileoffset < data.len() {
                lemma_line_of_offset(data, fileoffset as int);
            }
        }
        let bsz = self.blocksz();
        match &r {
            ResultS4::Found((_, lp)) | ResultS4::Found_EOF((_, lp)) => {
                let b = lp.fileoffset_begin();
                let e = lp.fileoffset_end();
                if b / bsz != fileoffset / bsz || e / bsz != fileoffset / bsz {
                    return ResultS4::Done;
                }
            },
            _ => {},
        }
        r
    }

    /// Decides whether the file is read as lines of text: by the most likely MIME type
    /// guessed from its path where one was guessed, else by the MIME type sniffed from
    /// its first block. `Err(UnexpectedEof)` for an empty file.
    pub fn zeroblock_process(&mut self) -> (r: Result<bool, Error>)
        requires
            old(self).wf(),
            !old(self).spec_zeroblock_done(),
        ensures
            final(self).wf(),
            final(self).data() == old(self).data(),
            final(self).spec_blocksz() == old(self).spec_blocksz(),
            final(self).spec_lines() == old(self).spec_lines(),
            final(self).spec_count() == old(self).spec_count(),
            old(self).spec_mimeguess().len() > 0 ==> r == Ok::<bool, Error>(mime_parseable(old(self).spec_mimeguess()[0])),
            old(self).spec_mimeguess().len() == 0 ==> match r {
                Ok(b) => old(self).data().len() > 0 && b == mime_parseable(
                    match mime_sniffed(block_bytes(old(self).data(), 0, old(self).spec_blocksz())) { Some(m) => m, None => Seq::empty() }),
                Err(e) => old(self).data().len() == 0 && e.kind == ErrorKind::UnexpectedEof,
            },
            r is Ok ==> final(self).spec_zeroblock_done(),
    {
        let mg = self.blockreader.mimeguess();
        if !mg.is_empty() {
            self._zeroblock_analysis_done = true;
            return Ok(LineReader::parseable_mimeguess(&mg));
        }
        proof {
            self.lemma_wf_br();
            self.lemma_wf();
            lemma_block_in_file(0, self.spec_blocksz(), self.data().len() as int);
        }
        let bptr: BlockP = match self.blockreader.read_block(0) {
            ResultS3::Found(val) => val,
            ResultS3::Done => {
                return Err(Error::new(ErrorKind::UnexpectedEof, "zeroblock_process read_block(0) returned Done"));
            },
            ResultS3::Error(err) => {
                return Err(err);
            },
        };
        let sniff: String = match sniff_mime_type(slice_of(&bptr, 0, bptr.len())) {
            Some(m) => m,
            None => String::new(),
        };
        proof {
            assert(bptr@.subrange(0, bptr@.len() as int) =~= bptr@);
        }
        let is_parseable = LineReader::parseable_mimestr(sniff.as_str());
        self._zeroblock_analysis_done = true;
        Ok(is_parseable)
    }

    /// Drops the stored lines `lines` (by the offset at which each begins) and the
    /// blocks that their parts lie in (see `BlockReader::drop_block`, which adds the
    /// block offsets of dropped blocks to `bo_dropped`).
    pub fn drop_lines(&mut self, lines: &Vec<LineP>, bo_dropped: &mut std::collections::HashSet<BlockOffset>)
        requires
            old(self).wf(),
        ensures
            final(self).wf(),
            final(self).data() == old(self).data(),
            final(self).spec_blocksz() == old(self).spec_blocksz(),
            final(self).spec_count() == old(self).spec_count(),
            forall|b: u64| #[trigger] final(self).spec_lines().contains_key(b) ==>
                old(self).spec_lines().contains_key(b) && final(self).spec_lines()[b] == old(self).spec_lines()[b],
            forall|b: u64| #[trigger] old(self).spec_lines().contains_key(b) && !is_line_key(lines@, b)
                ==> final(self).spec_lines().contains_key(b),
            forall|b: u64| is_line_key(lines@, b) ==> !#[trigger] final(self).spec_lines().contains_key(b),
            forall|bo: u64| #[trigger] is_part_block(lines@, bo) ==> old(bo_dropped)@.contains(bo)
                || (!final(self).spec_blocks_stored().contains(bo) && !final(self).spec_blocks_cached().contains(bo)),
            final(self).spec_blocks_stored().subset_of(old(self).spec_blocks_stored()),
            final(self).spec_blocks_cached().subset_of(old(self).spec_blocks_cached()),
            old(bo_dropped)@.subset_of(final(bo_dropped)@),
            forall|bo: u64| #[trigger] final(bo_dropped)@.contains(bo) ==> old(bo_dropped)@.contains(bo) || is_part_block(lines@, bo),
    {
        let mut i: usize = 0;
        while i < lines.len()
            invariant
                self.wf(),
                self.data() == old(self).data(),
                self.spec_blocksz() == old(self).spec_blocksz(),
                self.spec_count() == old(self).spec_count(),
                i <= lines@.len(),
                forall|b: u64| #[trigger] self.lines@.contains_key(b) ==>
                    old(self).lines@.contains_key(b) && self.lines@[b] == old(self).lines@[b],
                forall|b: u64| #[trigger] old(self).lines@.contains_key(b) && !is_line_key(lines@.take(i as int), b)
                    ==> self.lines@.contains_key(b),
                forall|b: u64| is_line_key(lines@.take(i as int), b) ==> !#[trigger] self.lines@.contains_key(b),
                forall|bo: u64| #[trigger] is_part_block(lines@.take(i as int), bo) ==> old(bo_dropped)@.contains(bo)
                    || (!self.spec_blocks_stored().contains(bo) && !self.spec_blocks_cached().contains(bo)),
                self.spec_blocks_stored().subset_of(old(self).spec_blocks_stored()),
                self.spec_blocks_cached().subset_of(old(self).spec_blocks_cached()),
                old(bo_dropped)@.subset_of(bo_dropped@),
                forall|bo: u64| #[trigger] bo_dropped@.contains(bo) ==> old(bo_dropped)@.contains(bo) || is_part_block(lines@.take(i as int), bo),
                forall|bo: u64| #[trigger] bo_dropped@.contains(bo) && !old(bo_dropped)@.contains(bo) ==>
                    !self.spec_blocks_stored().contains(bo) && !self.spec_blocks_cached().contains(bo),
            decreases lines@.len() - i,
        {
            let lp = &lines[i];
            let ghost pre = lines@.take(i as int);
            let ghost post = lines@.take(i + 1);
            proof {
                assert(post =~= pre.push(lines@[i as int]));
                lemma_line_key_push(pre, lines@[i as int]);
                lemma_part_block_push(pre, lines@[i as int]);
            }
            if lp.lineparts.len() > 0 {
                let fo_beg = lp.lineparts[0].fileoffset;
                match self.lines.remove(&fo_beg) {
                    Some(_) => {
                        self.drop_line_ok = self.drop_line_ok.saturating_add(1);
                    },
                    None => {
                        self.drop_line_errors = self.drop_line_errors.saturating_add(1);
                    },
                }
                let mut j: usize = 0;
                while j < lp.lineparts.len()
                    invariant
                        self.wf(),
                        self.data() == old(self).data(),
                        self.spec_blocksz() == old(self).spec_blocksz(),
                        self.spec_count() == old(self).spec_count(),
                        j <= lp.lineparts@.len(),
                        lp == lines@[i as int],
                        i < lines@.len(),
                        pre == lines@.take(i as int),
                        post == lines@.take(i + 1),
                        forall|bo: u64| #[trigger] bo_dropped@.contains(bo) && !old(bo_dropped)@.contains(bo) ==>
                            !self.spec_blocks_stored().contains(bo) && !self.spec_blocks_cached().contains(bo),
                        forall|b: u64| #[trigger] self.lines@.contains_key(b) ==>
                            old(self).lines@.contains_key(b) && self.lines@[b] == old(self).lines@[b],
                        forall|b: u64| #[trigger] old(self).lines@.contains_key(b) && !is_line_key(post, b)
                            ==> self.lines@.contains_key(b),
                        forall|b: u64| is_line_key(post, b) ==> !#[trigger] self.lines@.contains_key(b),
                        forall|bo: u64| #[trigger] is_part_block(pre, bo) ==> old(bo_dropped)@.contains(bo)
                            || (!self.spec_blocks_stored().contains(bo) && !self.spec_blocks_cached().contains(bo)),
                        forall|k: int| 0 <= k < j ==> old(bo_dropped)@.contains(#[trigger] lp.lineparts@[k].blockoffset)
                            || (!self.spec_blocks_stored().contains(lp.lineparts@[k].blockoffset)
                                && !self.spec_blocks_cached().contains(lp.lineparts@[k].blockoffset)),
                        self.spec_blocks_stored().subset_of(old(self).spec_blocks_stored()),
                        self.spec_blocks_cached().subset_of(old(self).spec_blocks_cached()),
                        old(bo_dropped)@.subset_of(bo_dropped@),
                        forall|bo: u64| #[trigger] bo_dropped@.contains(bo) ==> old(bo_dropped)@.contains(bo) || is_part_block(post, bo),
                    decreases lp.lineparts@.len() - j,
                {
                    let bo = lp.lineparts[j].blockoffset;
                    proof {
                        assert(part_of(lines@[i as int], bo));
                        assert(post[i as int] == lines@[i as int]);
                        assert(is_part_block(post, bo));
                    }
                    self.blockreader.drop_block(bo, bo_dropped);
                    j += 1;
                }
            }
            proof {
                assert forall|bo: u64| #[trigger] is_part_block(post, bo) implies old(bo_dropped)@.contains(bo)
                    || (!self.spec_blocks_stored().contains(bo) && !self.spec_blocks_cached().contains(bo)) by {
                    assert(is_part_block(pre.push(lines@[i as int]), bo));
                    if !is_part_block(pre, bo) {
                        assert(part_of(lines@[i as int], bo));
                        let k = choose|k: int| 0 <= k < lp.lineparts@.len() && #[trigger] lp.lineparts@[k].blockoffset == bo;
                    }
                }
            }
            i += 1;
        }
        proof {
            assert(lines@.take(lines@.len() as int) =~= lines@);
        }
    }

    /// Appends the stored line that begins at `fileoffset`, as a `String`, to
    /// `buffer`; `false` (and `buffer` unchanged) where no stored line begins there.
    pub fn copy_line(&self, fileoffset: &FileOffset, buffer: &mut String) -> (r: bool)
        requires
            self.wf(),
        ensures
            r == self.spec_lines().contains_key(*fileoffset),
            r ==> final(buffer)@ == old(buffer)@ + parts_string(self.spec_lines()[*fileoffset].lineparts@),
            !r ==> final(buffer)@ == old(buffer)@,
    {
        match self.lines.get(fileoffset) {
            Some(lp) => {
                proof {
                    assert(line_at(self.data(), **lp));
                }
                let s = lp.to_String();
                buffer.append(s.as_str());
                true
            },
            None => false,
        }
    }

    /// Is a stored line holding `fileoffset`?
    pub fn lines_contains(&self, fileoffset: &FileOffset) -> (r: bool)
        requires
            self.wf(),
        ensures
            r == self.stored_line_holds((*fileoffset) as int),
    {
        match self.get_linep(fileoffset) {
            Some(lp) => {
                proof {
                    let b = lp.lineparts@[0].fileoffset;
                    assert(self.lines@.contains_key(b));
                }
                true
            },
            None => false,
        }
    }
}

/// A prefix of the parts' bytes that holds a byte means the whole does.
proof fn lemma_contains_prefix(pre: Seq<u8>, all: Seq<u8>, x: u8, parts: Seq<LinePart>, k: int)
    requires
        0 <= k <= parts.len(),
        pre == parts_bytes(parts.take(k)),
        all == parts_bytes(parts),
        pre.contains(x),
    ensures
        all.contains(x),
    decreases parts.len() - k,
{
    if k < parts.len() {
        lemma_parts_take(parts, k);
        let next = parts_bytes(parts.take(k + 1));
        let j = choose|j: int| 0 <= j < pre.len() && pre[j] == x;
        assert(next[j] == x);
        lemma_contains_prefix(next, all, x, parts, k + 1);
    } else {
        assert(parts.take(k) =~= parts);
    }
}

/// `block[a..b]`.
fn slice_of(block: &BlockP, a: usize, b: usize) -> (r: &[u8])
    requires
        a <= b <= block@.len(),
    ensures
        r@ == block@.subrange(a as int, b as int),
{
    let v: &Vec<u8> = &**block;
    &v.as_slice()[a..b]
}

/// The chars that UTF-8 bytes encode; nothing for bytes that are not UTF-8.
pub open spec fn utf8_or_empty(b: Seq<u8>) -> Seq<char> {
    if vstd::utf8::valid_utf8(b) { vstd::utf8::decode_utf8(b) } else { Seq::empty() }
}

/// The `String` of UTF-8 bytes, or an empty one.
fn bytes_to_string(b: &[u8]) -> (r: String)
    ensures
        r@ == utf8_or_empty(b@),
{
    let mut v: Vec<u8> = Vec::new();
    v.extend_from_slice(b);
    assert(v@ =~= b@);
    match std_string_from_utf8(v) {
        Some(s) => s,
        None => String::new(),
    }
}

/// The printable rendering of bytes.
fn bytes_to_string_noraw(b: &[u8]) -> (r: String)
    ensures
        r@ == b@.map_values(|x: u8| byte_noraw(x)),
{
    let mut s = String::new();
    let mut i: usize = 0;
    while i < b.len()
        invariant
            i <= b@.len(),
            s@ == b@.subrange(0, i as int).map_values(|x: u8| byte_noraw(x)),
        decreases b@.len() - i,
    {
        let c = byte_to_char_noraw(b[i]);
        string_push(&mut s, c);
        proof {
            assert(b@.subrange(0, i + 1).map_values(|x: u8| byte_noraw(x)) =~= b@.subrange(0, i as int).map_values(|x: u8| byte_noraw(x)).push(c));
        }
        i += 1;
    }
    proof {
        assert(b@.subrange(0, b@.len() as int) =~= b@);
    }
    s
}

} // verus!
