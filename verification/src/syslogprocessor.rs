//! The processing of one syslog file, in stages, over a `SyslineReader`.
#![allow(non_snake_case)]
#![allow(non_camel_case_types)]
use vstd::prelude::*;
use std::collections::HashSet;
use crate::common::{
    Count, FPath, FileOffset, FileProcessingResult, FileSz, FileType, Error, ErrorKind, ResultS3, ResultS4,
    SYSLOG_SZ_MAX,
};
use crate::blockreader::{BlockIndex, BlockOffset, BlockSz, MimeGuess, BLOCKSZ_MAX, spec_count_blocks, spec_blockoffset_last, file_contents};
use crate::datetime::{DateTime_Parse_Data, DateTimeL_Opt, TzOffset, tz_offset_ok, filters_ordered};
use itertools::Itertools;
use crate::linereader::{line_end, line_begin};
use crate::sysline::{Sysline, SyslineP};
use crate::syslinereader::{
    SyslineReader, ResultS4_SyslineFind, sysline_result_ok, done_entry_ok, no_dt_lines, whole_sysline, lemma_whole_within,
    lemma_no_dt_lines_subset, kept_by_drop,
};
use crate::summary::{Summary, summary_counts_ok};
use crate::cache::{FoRangeMap, rangemap_contents, rangemap_new, rangemap_insert, rangemap_get_key_value};

verus! {

/// Result of the checks of a file's first block.
pub type FileProcessingResult_BlockZero = FileProcessingResult<Error>;

/// The stages of processing a file, in order.
#[derive(Clone, Copy, Debug, PartialEq, Eq, Structural)]
pub enum ProcessingStage {
    /// does the file exist?
    Stage0ValidFileCheck,
    /// can the first block be parsed?
    Stage1BlockzeroAnalysis,
    /// find the sysline with a datetime that the filters allow
    Stage2FindDt,
    /// no more searching backwards: processed data can be dropped
    Stage3StreamSyslines,
    /// only the summary is left
    Stage4Summary,
}

/// A block size large enough for the checks of the first block to have a chance to
/// succeed.
pub const SYSLOGPROCESSOR_BLOCKSZ_MIN: BlockSz = 0x100;

/// How many lines (and syslines) the first block must hold, by its size: one in a
/// block smaller than a syslog message can be, else two.
pub open spec fn spec_blockzero_count_min(blocksz0: int) -> Count {
    if blocksz0 < SYSLOG_SZ_MAX as int { 1 } else { 2 }
}

/// The size of the first block of a file of `len` bytes.
pub open spec fn blocksz0_of(len: int, bsz: int) -> int {
    if len < bsz { len } else { bsz }
}

/// `s` is the file's first sysline (no line before it has a datetime by the
/// patterns `active`), and lies whole within the first `bsz0` bytes, not ending
/// the file there.
pub open spec fn first_sysline_within(data: Seq<u8>, tz: TzOffset, active: Seq<DateTime_Parse_Data>, bsz0: int, s: Sysline) -> bool {
    &&& whole_sysline(s, data, active, tz)
    &&& s.spec_end() + 1 < bsz0
    &&& (s.spec_begin() == 0 || no_dt_lines(data, 0, s.spec_begin(), active, tz))
}

/// The first block holds enough lines: one is needed (and any is found), or two
/// are, and the first line ends before the block and before the file do.
pub open spec fn blockzero_lines_enough(data: Seq<u8>, bsz: int) -> bool {
    ||| spec_blockzero_count_min(blocksz0_of(data.len() as int, bsz)) == 1
    ||| (line_end(data, 0) + 1 < data.len() && line_end(data, 0) + 1 < bsz)
}

/// The patterns of `s` with a use count above 0, in order.
pub open spec fn used_patterns(s: Seq<(DateTime_Parse_Data, Count)>) -> Seq<(DateTime_Parse_Data, Count)>
    decreases s.len(),
{
    if s.len() == 0 {
        s
    } else if s.last().1 > 0 {
        used_patterns(s.drop_last()).push(s.last())
    } else {
        used_patterns(s.drop_last())
    }
}

/// Greater counts come first.
pub open spec fn counts_descending(s: Seq<(DateTime_Parse_Data, Count)>) -> bool {
    forall|i: int, j: int| 0 <= i < j < s.len() ==> s[i].1 >= s[j].1
}

/// `s` with `x` put after the last element whose count is at least `x`'s (for `s`
/// in descending order of counts: after all such elements).
pub open spec fn insert_by_count(s: Seq<(DateTime_Parse_Data, Count)>, x: (DateTime_Parse_Data, Count)) -> Seq<(DateTime_Parse_Data, Count)>
    decreases s.len(),
{
    if s.len() == 0 || s.last().1 >= x.1 {
        s.push(x)
    } else {
        insert_by_count(s.drop_last(), x).push(s.last())
    }
}

/// `s` sorted by count, the greater count first, elements of equal count in the
/// order they had in `s` (a stable sort).
pub open spec fn sort_by_count(s: Seq<(DateTime_Parse_Data, Count)>) -> Seq<(DateTime_Parse_Data, Count)>
    decreases s.len(),
{
    if s.len() == 0 {
        s
    } else {
        insert_by_count(sort_by_count(s.drop_last()), s.last())
    }
}

/// Inserting by count adds `x` to the elements, and keeps a descending order.
proof fn lemma_insert_by_count(s: Seq<(DateTime_Parse_Data, Count)>, x: (DateTime_Parse_Data, Count))
    ensures
        insert_by_count(s, x).to_multiset() == s.to_multiset().insert(x),
        insert_by_count(s, x).len() == s.len() + 1,
        forall|k: int| 0 <= k < insert_by_count(s, x).len() ==>
            #[trigger] insert_by_count(s, x)[k] == x || s.contains(insert_by_count(s, x)[k]),
        counts_descending(s) ==> counts_descending(insert_by_count(s, x)),
    decreases s.len(),
{
    broadcast use vstd::seq_lib::group_seq_properties;
    broadcast use vstd::multiset::group_multiset_axioms;
    let t = insert_by_count(s, x);
    if s.len() == 0 || s.last().1 >= x.1 {
        if counts_descending(s) {
            assert forall|i: int, j: int| 0 <= i < j < t.len() implies t[i].1 >= t[j].1 by {
                if j == t.len() - 1 && s.len() > 0 {
                    assert(s[i].1 >= s[s.len() - 1].1 || i == s.len() - 1);
                }
            }
        }
    } else {
        let p = s.drop_last();
        let l = s.last();
        lemma_insert_by_count(p, x);
        let u = insert_by_count(p, x);
        assert(s =~= p.push(l));
        assert(t == u.push(l));
        assert forall|k: int| 0 <= k < t.len() implies #[trigger] t[k] == x || s.contains(t[k]) by {
            if k < u.len() {
                assert(t[k] == u[k]);
                if u[k] != x {
                    let m = choose|m: int| 0 <= m < p.len() && p[m] == u[k];
                    assert(s[m] == p[m]);
                }
            } else {
                assert(s[s.len() - 1] == l);
            }
        }
        if counts_descending(s) {
            assert(counts_descending(p)) by {
                assert forall|i: int, j: int| 0 <= i < j < p.len() implies p[i].1 >= p[j].1 by {
                    assert(p[i] == s[i]);
                    assert(p[j] == s[j]);
                }
            }
            assert forall|i: int, j: int| 0 <= i < j < t.len() implies t[i].1 >= t[j].1 by {
                if j == t.len() - 1 {
                    assert(t[i] == u[i]);
                    if u[i] == x {
                    } else {
                        let m = choose|m: int| 0 <= m < p.len() && p[m] == u[i];
                        assert(s[m] == p[m]);
                        assert(s[m].1 >= s[s.len() - 1].1);
                    }
                } else {
                    assert(t[i] == u[i]);
                    assert(t[j] == u[j]);
                }
            }
        }
    }
}

/// Sorting by count keeps the elements and orders them by descending count.
proof fn lemma_sort_by_count(s: Seq<(DateTime_Parse_Data, Count)>)
    ensures
        sort_by_count(s).to_multiset() == s.to_multiset(),
        counts_descending(sort_by_count(s)),
    decreases s.len(),
{
    broadcast use vstd::seq_lib::group_seq_properties;
    broadcast use vstd::multiset::group_multiset_axioms;
    if s.len() > 0 {
        let p = s.drop_last();
        lemma_sort_by_count(p);
        lemma_insert_by_count(sort_by_count(p), s.last());
        assert(s =~= p.push(s.last()));
    }
}

/// The order of two patterns by their counts, the greater count first.
fn count_order(a: &(DateTime_Parse_Data, Count), b: &(DateTime_Parse_Data, Count)) -> (r: std::cmp::Ordering)
    ensures
        (r == std::cmp::Ordering::Less) <==> (a.1 > b.1),
        (r == std::cmp::Ordering::Equal) <==> (a.1 == b.1),
        (r == std::cmp::Ordering::Greater) <==> (a.1 < b.1),
{
    if a.1 > b.1 {
        std::cmp::Ordering::Less
    } else if a.1 == b.1 {
        std::cmp::Ordering::Equal
    } else {
        std::cmp::Ordering::Greater
    }
}

/// Calls `Itertools::sorted_by` with `count_order`. The crate's source collects the
/// items into a `Vec` and sorts it with `sort_by`, which std documents as stable: the
/// result is the items by descending count, those of equal count in their order
/// (`sort_by_count`).
#[verifier::external_body]
fn sorted_by_count(v: Vec<(DateTime_Parse_Data, Count)>) -> (r: Vec<(DateTime_Parse_Data, Count)>)
    ensures
        r@ == sort_by_count(v@),
{
    v.into_iter().sorted_by(|a, b| count_order(a, b)).collect()
}

/// The patterns used (count above 0), the most used first.
pub fn patterns_used_by_count(counts: &Vec<(DateTime_Parse_Data, Count)>) -> (r: Vec<(DateTime_Parse_Data, Count)>)
    ensures
        r@ == sort_by_count(used_patterns(counts@)),
        r@.to_multiset() == used_patterns(counts@).to_multiset(),
        counts_descending(r@),
{
    let mut v: Vec<(DateTime_Parse_Data, Count)> = Vec::new();
    let mut i: usize = 0;
    while i < counts.len()
        invariant
            i <= counts@.len(),
            v@ == used_patterns(counts@.take(i as int)),
        decreases counts@.len() - i,
    {
        proof {
            assert(counts@.take(i + 1).drop_last() =~= counts@.take(i as int));
        }
        let p = counts[i];
        if p.1 > 0 {
            v.push(p);
        }
        i += 1;
    }
    proof {
        assert(counts@.take(counts@.len() as int) =~= counts@);
        lemma_sort_by_count(v@);
    }
    sorted_by_count(v)
}

/// A non-negative number divided by a positive one is 0 exactly when it is smaller.
proof fn lemma_div_zero(x: int, bsz: int)
    requires
        0 <= x,
        0 < bsz,
    ensures
        (x / bsz == 0) <==> (x < bsz),
{
    crate::blockreader::lemma_div_mod(x, bsz);
    if x < bsz {
        assert(x / bsz == 0) by (nonlinear_arith)
            requires x < bsz, 0 <= x, 0 < bsz, x == (x / bsz) * bsz + x % bsz, 0 <= x % bsz < bsz, 0 <= x / bsz;
    }
    if x >= bsz {
        assert(x / bsz != 0) by (nonlinear_arith)
            requires x >= bsz, 0 < bsz, x == (x / bsz) * bsz + x % bsz, 0 <= x % bsz < bsz;
    }
}

/// The minimum count of lines (and of syslines) in a first block of `blocksz0`
/// bytes, looked up in a map of block-size ranges.
fn blockzero_analysis_count_min(blocksz0: BlockSz) -> (r: Count)
    requires
        blocksz0 <= BLOCKSZ_MAX,
    ensures
        r == spec_blockzero_count_min(blocksz0 as int),
{
    let mut m: FoRangeMap = rangemap_new();
    rangemap_insert(&mut m, 0, SYSLOG_SZ_MAX as u64, 1);
    rangemap_insert(&mut m, SYSLOG_SZ_MAX as u64, u64::MAX, 2);
    proof {
        assert(rangemap_contents(m).contains_key(blocksz0));
    }
    match rangemap_get_key_value(&m, blocksz0) {
        Some((_, _, v)) => v,
        None => 1,
    }
}

/// Processes a syslog file in stages: checks of the file and of its first block,
/// then the search for syslines between the datetime filters, then streaming (which
/// drops data already processed), then the summary.
pub struct SyslogProcessor {
    syslinereader: SyslineReader,
    processingstage: ProcessingStage,
    path: FPath,
    blocksz: BlockSz,
    tz_offset: TzOffset,
    filter_dt_after_opt: DateTimeL_Opt,
    filter_dt_before_opt: DateTimeL_Opt,
    /// has `blockzero_analysis` been done?
    blockzero_analysis_done: bool,
    /// the last block offset passed to `drop_block`
    drop_block_last: BlockOffset,
    /// the blocks dropped
    bo_dropped: HashSet<BlockOffset>,
    /// the last error, as a message, if any
    Error_: Option<String>,
}

impl SyslogProcessor {
    /// Well-formed: the reader is, and the processor's settings are those of the reader.
    pub closed spec fn wf(&self) -> bool {
        &&& self.syslinereader.wf()
        &&& self.blocksz as int == self.syslinereader.spec_blocksz()
        &&& self.tz_offset == self.syslinereader.spec_tz()
        &&& filters_ordered(self.filter_dt_after_opt, self.filter_dt_before_opt)
    }

    /// The file's contents.
    pub closed spec fn data(&self) -> Seq<u8> {
        self.syslinereader.data()
    }

    /// The block size.
    pub closed spec fn spec_blocksz(&self) -> int {
        self.blocksz as int
    }

    /// The offset from UTC in which datetimes without a timezone are read.
    pub closed spec fn spec_tz(&self) -> TzOffset {
        self.tz_offset
    }

    /// The processing stage.
    pub closed spec fn spec_stage(&self) -> ProcessingStage {
        self.processingstage
    }

    /// Has `blockzero_analysis` been done?
    pub closed spec fn spec_blockzero_done(&self) -> bool {
        self.blockzero_analysis_done
    }

    /// The sysline reader, as a value.
    pub closed spec fn spec_syslinereader(&self) -> SyslineReader {
        self.syslinereader
    }

    /// The error message kept from the last failed read, if any.
    pub closed spec fn spec_error(&self) -> Option<String> {
        self.Error_
    }

    /// The datetime filters: after, before.
    pub closed spec fn spec_filters(&self) -> (DateTimeL_Opt, DateTimeL_Opt) {
        (self.filter_dt_after_opt, self.filter_dt_before_opt)
    }

    /// The path given to `new`.
    pub closed spec fn spec_path(&self) -> FPath {
        self.path
    }

    /// The path of the file read.
    pub closed spec fn spec_reader_path(&self) -> FPath {
        self.syslinereader.spec_path()
    }

    /// The file type.
    pub closed spec fn spec_filetype(&self) -> FileType {
        self.syslinereader.spec_filetype()
    }

    /// The MIME types guessed from the file's path.
    pub closed spec fn spec_mimeguess(&self) -> Seq<Seq<char>> {
        self.syslinereader.spec_mimeguess()
    }

    /// The count of lines found.
    pub closed spec fn spec_lines_count(&self) -> int {
        self.syslinereader.spec_lines_count()
    }

    /// The count of syslines found.
    pub closed spec fn spec_syslines_count(&self) -> int {
        self.syslinereader.spec_count()
    }

    /// The patterns with which a line's datetime is looked for (`SyslineReader::spec_active`).
    pub closed spec fn spec_active(&self) -> Seq<crate::datetime::DateTime_Parse_Data> {
        self.syslinereader.spec_active()
    }

    /// The earliest datetime found so far.
    pub closed spec fn spec_dt_first(&self) -> DateTimeL_Opt {
        self.syslinereader.spec_dt_first()
    }

    /// The latest datetime found so far.
    pub closed spec fn spec_dt_last(&self) -> DateTimeL_Opt {
        self.syslinereader.spec_dt_last()
    }

    /// The use counts of the datetime patterns tried.
    pub closed spec fn spec_dt_patterns_counts(&self) -> Seq<(DateTime_Parse_Data, Count)> {
        self.syslinereader.spec_dt_patterns_counts()
    }

    /// The counts of the summary are sane (see `summary_counts_ok`).
    pub closed spec fn spec_summary_counts_ok(&self) -> bool {
        summary_counts_ok(
            self.syslinereader.spec_count_bytes(),
            self.syslinereader.spec_count_blocks_read() as Count,
            self.blocksz,
            self.syslinereader.spec_lines_count() as Count,
            self.syslinereader.spec_count() as Count,
        )
    }

    /// A processor of the file at `path` of type `filetype`, whose bytes (as
    /// stored) are `file_bytes` and whose modified time is `mtime`; datetimes without a
    /// timezone are read in `tz_offset`. `Ok` exactly where `SyslineReader::new` can
    /// read the file.
    pub fn new(
        path: FPath,
        filetype: FileType,
        blocksz: BlockSz,
        tz_offset: TzOffset,
        filter_dt_after_opt: DateTimeL_Opt,
        filter_dt_before_opt: DateTimeL_Opt,
        file_bytes: Vec<u8>,
        mtime: u64,
    ) -> (r: Result<SyslogProcessor, Error>)
        requires
            crate::blockreader::BLOCKSZ_MIN <= blocksz <= BLOCKSZ_MAX,
            file_bytes@.len() < 0x4000_0000_0000_0000,
            tz_offset_ok(tz_offset),
            filters_ordered(filter_dt_after_opt, filter_dt_before_opt),
        ensures
            r is Ok <==> file_contents(filetype, path@, file_bytes@) is Some,
            r matches Ok(p) ==> {
                &&& p.wf()
                &&& p.spec_stage() == ProcessingStage::Stage0ValidFileCheck
                &&& !p.spec_blockzero_done()
                &&& p.spec_blocksz() == blocksz
                &&& p.spec_tz() == tz_offset
                &&& p.spec_path() == path
                &&& p.spec_filters() == (filter_dt_after_opt, filter_dt_before_opt)
                &&& file_contents(filetype, path@, file_bytes@) == Some(p.data())
                &&& filetype == FileType::File ==> p.data() == file_bytes@
            },
    {
        let path_ = path.clone();
        let slr = match SyslineReader::new(path, filetype, blocksz, tz_offset, file_bytes, mtime) {
            Ok(val) => val,
            Err(err) => {
                return Err(err);
            },
        };
        let bo_dropped_sz: usize = slr.blockoffset_last() as usize;
        Ok(SyslogProcessor {
            syslinereader: slr,
            processingstage: ProcessingStage::Stage0ValidFileCheck,
            path: path_,
            blocksz,
            tz_offset,
            filter_dt_after_opt,
            filter_dt_before_opt,
            blockzero_analysis_done: false,
            drop_block_last: 0,
            bo_dropped: HashSet::with_capacity(bo_dropped_sz),
            Error_: None,
        })
    }

    /// The count of lines found.
    pub fn count_lines(&self) -> (r: Count)
        ensures
            r == self.spec_lines_count(),
    {
        self.syslinereader.count_lines_processed()
    }

    /// The block size.
    pub fn blocksz(&self) -> (r: BlockSz)
        requires
            self.wf(),
        ensures
            r == self.spec_blocksz(),
    {
        self.syslinereader.blocksz()
    }

    /// The size of the file's contents.
    pub fn filesz(&self) -> (r: FileSz)
        requires
            self.wf(),
        ensures
            r == self.data().len(),
    {
        self.syslinereader.filesz()
    }

    /// The file type.
    pub fn filetype(&self) -> (r: FileType)
        ensures
            r == self.spec_filetype(),
    {
        self.syslinereader.filetype()
    }

    /// The file's path.
    pub fn path(&self) -> (r: &FPath)
        ensures
            *r == self.spec_reader_path(),
    {
        self.syslinereader.path()
    }

    /// The block offset at a file offset.
    pub fn block_offset_at_file_offset(&self, fileoffset: FileOffset) -> (r: BlockOffset)
        requires
            self.wf(),
        ensures
            r == fileoffset as int / self.spec_blocksz(),
    {
        self.syslinereader.block_offset_at_file_offset(fileoffset)
    }

    /// The file offset at which a block begins.
    pub fn file_offset_at_block_offset(&self, blockoffset: BlockOffset) -> (r: FileOffset)
        requires
            self.wf(),
            blockoffset * self.spec_blocksz() <= u64::MAX,
        ensures
            r == blockoffset * self.spec_blocksz(),
    {
        self.syslinereader.file_offset_at_block_offset(blockoffset)
    }

    /// The file offset of an index within a block.
    pub fn file_offset_at_block_offset_index(&self, blockoffset: BlockOffset, blockindex: BlockIndex) -> (r: FileOffset)
        requires
            self.wf(),
            blockoffset * self.spec_blocksz() + blockindex <= u64::MAX,
        ensures
            r == blockoffset * self.spec_blocksz() + blockindex,
    {
        self.syslinereader.file_offset_at_block_offset_index(blockoffset, blockindex)
    }

    /// The index within its block of a file offset.
    pub fn block_index_at_file_offset(&self, fileoffset: FileOffset) -> (r: BlockIndex)
        requires
            self.wf(),
        ensures
            r == fileoffset as int % self.spec_blocksz(),
    {
        self.syslinereader.block_index_at_file_offset(fileoffset)
    }

    /// The count of blocks of the file.
    pub fn count_blocks(&self) -> (r: Count)
        requires
            self.wf(),
        ensures
            r == spec_count_blocks(self.data().len() as int, self.spec_blocksz()),
    {
        self.syslinereader.count_blocks()
    }

    /// The last block offset of the file.
    pub fn blockoffset_last(&self) -> (r: BlockOffset)
        requires
            self.wf(),
        ensures
            r == spec_blockoffset_last(self.data().len() as int, self.spec_blocksz()),
    {
        self.syslinereader.blockoffset_last()
    }

    /// The char size in bytes.
    pub fn charsz(&self) -> (r: usize)
        requires
            self.wf(),
        ensures
            r == 1,
    {
        self.syslinereader.charsz()
    }

    /// The MIME types guessed from the file's path.
    pub fn mimeguess(&self) -> (r: MimeGuess)
        ensures
            r.types@.map_values(|t: String| t@) == self.spec_mimeguess(),
    {
        self.syslinereader.mimeguess()
    }

    /// Finds a sysline as `SyslineReader::find_sysline` does. While streaming
    /// (stage 3), the blocks before the first block of the sysline found are
    /// dropped, with the lines and syslines in them.
    pub fn find_sysline(&mut self, fileoffset: FileOffset) -> (r: ResultS4_SyslineFind)
        requires
            old(self).wf(),
        ensures
            final(self).wf(),
            final(self).data() == old(self).data(),
            final(self).spec_blocksz() == old(self).spec_blocksz(),
            final(self).spec_tz() == old(self).spec_tz(),
            final(self).spec_stage() == old(self).spec_stage(),
            final(self).spec_blockzero_done() == old(self).spec_blockzero_done(),
            final(self).spec_filters() == old(self).spec_filters(),
            sysline_result_ok(old(self).data(), old(self).spec_tz(), fileoffset as int, r),
            r is Done ==> done_entry_ok(old(self).data(), old(self).spec_tz(), final(self).spec_active(), fileoffset as int),
            r matches ResultS4::Found((_, slp)) ==> slp.spec_begin() <= fileoffset
                || no_dt_lines(old(self).data(), line_begin(old(self).data(), fileoffset as int), slp.spec_begin(), final(self).spec_active(), old(self).spec_tz()),
            r matches ResultS4::Found_EOF((_, slp)) ==> slp.spec_begin() <= fileoffset
                || no_dt_lines(old(self).data(), line_begin(old(self).data(), fileoffset as int), slp.spec_begin(), final(self).spec_active(), old(self).spec_tz()),
            r matches ResultS4::Found((_, slp)) ==> whole_sysline(*slp, old(self).data(), final(self).spec_active(), old(self).spec_tz()),
            r matches ResultS4::Found_EOF((_, slp)) ==> whole_sysline(*slp, old(self).data(), final(self).spec_active(), old(self).spec_tz()),
            r matches ResultS4::Found((_, slp)) ==> crate::syslinereader::dt_within(slp.dt.unwrap(), final(self).spec_dt_first(), final(self).spec_dt_last()),
            r matches ResultS4::Found_EOF((_, slp)) ==> crate::syslinereader::dt_within(slp.dt.unwrap(), final(self).spec_dt_first(), final(self).spec_dt_last()),
    {
        if self.processingstage == ProcessingStage::Stage3StreamSyslines {
            let result: ResultS4_SyslineFind = self.syslinereader.find_sysline(fileoffset);
            match &result {
                ResultS4::Found((_fo, syslinep)) | ResultS4::Found_EOF((_fo, syslinep)) => {
                    proof {
                        assert(syslinep.lines@.len() > 0);
                    }
                    let bo_first = syslinep.blockoffset_first();
                    if bo_first > 0 {
                        self.drop_block(bo_first - 1);
                    }
                },
                ResultS4::Done => {},
                ResultS4::Error(err) => {
                    self.Error_ = Some(err.message.clone());
                },
            }
            return result;
        }
        self.syslinereader.find_sysline(fileoffset)
    }

    /// Is the sysline the file's last?
    pub fn is_sysline_last(&self, syslinep: &SyslineP) -> (r: bool)
        requires
            self.wf(),
            syslinep.lines@.len() > 0,
            syslinep.lines@.last().wf(),
            syslinep.spec_end() + 1 <= self.data().len(),
        ensures
            r == (syslinep.spec_end() + 1 == self.data().len()),
    {
        self.syslinereader.is_sysline_last(syslinep)
    }

    /// Drops the data at and before block `blockoffset`, where it is past the block
    /// last given here.
    fn drop_block(&mut self, blockoffset: BlockOffset)
        requires
            old(self).wf(),
        ensures
            final(self).spec_active() == old(self).spec_active(),
            final(self).spec_dt_first() == old(self).spec_dt_first(),
            final(self).spec_dt_last() == old(self).spec_dt_last(),
            final(self).wf(),
            final(self).data() == old(self).data(),
            final(self).spec_blocksz() == old(self).spec_blocksz(),
            final(self).spec_tz() == old(self).spec_tz(),
            final(self).spec_stage() == old(self).spec_stage(),
            final(self).spec_blockzero_done() == old(self).spec_blockzero_done(),
            final(self).spec_filters() == old(self).spec_filters(),
            blockoffset <= old(self).spec_drop_block_last() ==> *final(self) == *old(self),
            blockoffset > old(self).spec_drop_block_last() ==> {
                &&& final(self).spec_drop_block_last() == blockoffset
                &&& forall|b: u64| #[trigger] final(self).spec_syslines().contains_key(b) <==>
                    old(self).spec_syslines().contains_key(b) && kept_by_drop(old(self).spec_syslines(), blockoffset, b)
                &&& forall|b: u64| #[trigger] final(self).spec_syslines().contains_key(b) ==>
                    final(self).spec_syslines()[b] == old(self).spec_syslines()[b]
            },
    {
        if blockoffset <= self.drop_block_last {
            return;
        }
        self.drop_block_last = blockoffset;
        self.drop_block_impl(blockoffset)
    }

    /// Drops the stored syslines, lines and blocks at and before block `blockoffset`.
    fn drop_block_impl(&mut self, blockoffset: BlockOffset)
        requires
            old(self).wf(),
        ensures
            final(self).spec_active() == old(self).spec_active(),
            final(self).spec_dt_first() == old(self).spec_dt_first(),
            final(self).spec_dt_last() == old(self).spec_dt_last(),
            final(self).wf(),
            final(self).data() == old(self).data(),
            final(self).spec_blocksz() == old(self).spec_blocksz(),
            final(self).spec_tz() == old(self).spec_tz(),
            final(self).spec_stage() == old(self).spec_stage(),
            final(self).spec_blockzero_done() == old(self).spec_blockzero_done(),
            final(self).spec_filters() == old(self).spec_filters(),
            final(self).spec_drop_block_last() == old(self).spec_drop_block_last(),
            forall|b: u64| #[trigger] final(self).spec_syslines().contains_key(b) <==>
                old(self).spec_syslines().contains_key(b) && kept_by_drop(old(self).spec_syslines(), blockoffset, b),
            forall|b: u64| #[trigger] final(self).spec_syslines().contains_key(b) ==>
                final(self).spec_syslines()[b] == old(self).spec_syslines()[b],
    {
        self.syslinereader.drop_block(blockoffset, &mut self.bo_dropped);
    }

    /// The stored syslines, by the offset at which each begins.
    pub closed spec fn spec_syslines(&self) -> Map<u64, SyslineP> {
        self.syslinereader.spec_syslines()
    }

    /// The greatest block offset that `drop_block` was asked to drop.
    pub closed spec fn spec_drop_block_last(&self) -> BlockOffset {
        self.drop_block_last
    }

    /// Finds the first sysline at or after `fileoffset` that passes the processor's
    /// datetime filters (`SyslineReader::find_sysline_between_datetime_filters`).
    pub fn find_sysline_between_datetime_filters(&mut self, fileoffset: FileOffset) -> (r: ResultS4_SyslineFind)
        requires
            old(self).wf(),
            fileoffset <= old(self).data().len(),
        ensures
            final(self).wf(),
            final(self).data() == old(self).data(),
            final(self).spec_blocksz() == old(self).spec_blocksz(),
            final(self).spec_tz() == old(self).spec_tz(),
            final(self).spec_stage() == old(self).spec_stage(),
            final(self).spec_blockzero_done() == old(self).spec_blockzero_done(),
            final(self).spec_filters() == old(self).spec_filters(),
            !(r is Error),
            r matches ResultS4::Found((n, slp)) ==> slp.ok(old(self).data(), old(self).spec_tz())
                && n == slp.spec_end() + 1 && n <= old(self).data().len() && fileoffset <= slp.spec_end()
                && crate::datetime::spec_dt_pass_filters(slp.dt.unwrap(), old(self).spec_filters().0, old(self).spec_filters().1)
                    == crate::datetime::Result_Filter_DateTime2::InRange,
            r matches ResultS4::Found_EOF((n, slp)) ==> slp.ok(old(self).data(), old(self).spec_tz())
                && n == slp.spec_end() + 1 && n == old(self).data().len() && fileoffset <= slp.spec_end()
                && crate::datetime::spec_dt_pass_filters(slp.dt.unwrap(), old(self).spec_filters().0, old(self).spec_filters().1)
                    == crate::datetime::Result_Filter_DateTime2::InRange,
            r matches ResultS4::Found((_, slp)) ==> whole_sysline(*slp, old(self).data(), final(self).spec_active(), old(self).spec_tz()),
            r matches ResultS4::Found_EOF((_, slp)) ==> whole_sysline(*slp, old(self).data(), final(self).spec_active(), old(self).spec_tz()),
            r matches ResultS4::Found((_, slp)) ==> crate::syslinereader::dt_within(slp.dt.unwrap(), final(self).spec_dt_first(), final(self).spec_dt_last()),
            r matches ResultS4::Found_EOF((_, slp)) ==> crate::syslinereader::dt_within(slp.dt.unwrap(), final(self).spec_dt_first(), final(self).spec_dt_last()),
            r is Done ==> crate::syslinereader::done_entry_ok(old(self).data(), old(self).spec_tz(), final(self).spec_active(), fileoffset as int)
                || crate::syslinereader::met_first_out_of_range(old(self).data(), final(self).spec_active(), old(self).spec_tz(),
                    fileoffset as int, old(self).spec_filters().0, old(self).spec_filters().1),
            r is Done ==> crate::syslinereader::between_search_gave_up(old(self).data(), final(self).spec_active(), old(self).spec_tz(),
                fileoffset as int, old(self).spec_filters().0, old(self).spec_filters().1),
            r matches ResultS4::Found((_, slp)) ==> crate::syslinereader::sysline_met_from(*slp, old(self).data(), final(self).spec_active(), old(self).spec_tz(), fileoffset as int)
                || crate::syslinereader::met_first_out_of_range(old(self).data(), final(self).spec_active(), old(self).spec_tz(),
                    fileoffset as int, old(self).spec_filters().0, old(self).spec_filters().1),
            r matches ResultS4::Found_EOF((_, slp)) ==> crate::syslinereader::sysline_met_from(*slp, old(self).data(), final(self).spec_active(), old(self).spec_tz(), fileoffset as int)
                || crate::syslinereader::met_first_out_of_range(old(self).data(), final(self).spec_active(), old(self).spec_tz(),
                    fileoffset as int, old(self).spec_filters().0, old(self).spec_filters().1),
    {
        let r = self.syslinereader.find_sysline_between_datetime_filters(
            fileoffset, &self.filter_dt_after_opt, &self.filter_dt_before_opt,
        );
        match r {
            ResultS4::Error(err) => {
                self.Error_ = Some(err.message.clone());
                ResultS4::Error(err)
            },
            val => val,
        }
    }

    /// Stage 0: checks the file. `FileErrEmpty` for an empty file, else `FileOk`.
    pub fn process_stage0_valid_file_check(&mut self) -> (r: FileProcessingResult_BlockZero)
        requires
            old(self).wf(),
            old(self).spec_stage() == ProcessingStage::Stage0ValidFileCheck,
        ensures
            *final(self) == *old(self),
            r is FileErrEmpty <==> old(self).data().len() == 0,
            r is FileOk <==> old(self).data().len() > 0,
    {
        if self.filesz() == 0 {
            return FileProcessingResult::FileErrEmpty;
        }
        FileProcessingResult::FileOk
    }

    /// Stage 1: can lines and syslines be found in the first block
    /// (`blockzero_analysis`)?
    pub fn process_stage1_blockzero_analysis(&mut self) -> (r: FileProcessingResult_BlockZero)
        requires
            old(self).wf(),
            old(self).spec_stage() == ProcessingStage::Stage0ValidFileCheck,
            !old(self).spec_blockzero_done(),
        ensures
            final(self).wf(),
            final(self).data() == old(self).data(),
            final(self).spec_blocksz() == old(self).spec_blocksz(),
            final(self).spec_stage() == ProcessingStage::Stage1BlockzeroAnalysis,
            final(self).spec_blockzero_done(),
            final(self).spec_filters() == old(self).spec_filters(),
            blockzero_outcome(old(self).data(), old(self).spec_blocksz(), r),
            (spec_blockzero_count_min(blocksz0_of(old(self).data().len() as int, old(self).spec_blocksz())) == 2 && r is FileOk)
                ==> exists|s: Sysline| first_sysline_within(old(self).data(), old(self).spec_tz(), final(self).spec_active(),
                    blocksz0_of(old(self).data().len() as int, old(self).spec_blocksz()), s),
    {
        self.processingstage = ProcessingStage::Stage1BlockzeroAnalysis;
        proof {
            assert(self.data() == old(self).data());
            assert(self.spec_tz() == old(self).spec_tz());
            assert(self.spec_blocksz() == old(self).spec_blocksz());
        }
        self.blockzero_analysis()
    }

    /// Stage 2: the search for a datetime between the filters. `FileOk`.
    pub fn process_stage2_find_dt(&mut self) -> (r: FileProcessingResult_BlockZero)
        requires
            old(self).wf(),
            old(self).spec_stage() == ProcessingStage::Stage1BlockzeroAnalysis,
        ensures
            final(self).wf(),
            final(self).data() == old(self).data(),
            final(self).spec_blocksz() == old(self).spec_blocksz(),
            final(self).spec_stage() == ProcessingStage::Stage2FindDt,
            final(self).spec_blockzero_done() == old(self).spec_blockzero_done(),
            final(self).spec_filters() == old(self).spec_filters(),
            r is FileOk,
    {
        self.processingstage = ProcessingStage::Stage2FindDt;
        FileProcessingResult::FileOk
    }

    /// Stage 3: streaming; `find_sysline` now drops the data before what it finds.
    /// `FileOk`.
    pub fn process_stage3_stream_syslines(&mut self) -> (r: FileProcessingResult_BlockZero)
        requires
            old(self).wf(),
            old(self).spec_stage() == ProcessingStage::Stage2FindDt,
        ensures
            final(self).wf(),
            final(self).data() == old(self).data(),
            final(self).spec_blocksz() == old(self).spec_blocksz(),
            final(self).spec_stage() == ProcessingStage::Stage3StreamSyslines,
            final(self).spec_blockzero_done() == old(self).spec_blockzero_done(),
            final(self).spec_filters() == old(self).spec_filters(),
            r is FileOk,
    {
        self.processingstage = ProcessingStage::Stage3StreamSyslines;
        FileProcessingResult::FileOk
    }

    /// Stage 4: no more syslines to process; the summary.
    pub fn process_stage4_summary(&mut self) -> (r: Summary)
        requires
            old(self).wf(),
            old(self).spec_summary_counts_ok(),
        ensures
            final(self).wf(),
            final(self).data() == old(self).data(),
            final(self).spec_blocksz() == old(self).spec_blocksz(),
            final(self).spec_stage() == ProcessingStage::Stage4Summary,
            r.filetype == old(self).spec_filetype(),
            r.BlockReader_blocksz == old(self).spec_blocksz(),
            r.BlockReader_filesz_actual == old(self).data().len(),
            r.LineReader_lines == old(self).spec_lines_count(),
            r.SyslineReader_syslines == old(self).spec_syslines_count(),
            r.SyslineReader_patterns@ == sort_by_count(used_patterns(old(self).spec_dt_patterns_counts())),
            r.SyslineReader_pattern_first == old(self).spec_dt_first(),
            r.SyslineReader_pattern_last == old(self).spec_dt_last(),
    {
        self.processingstage = ProcessingStage::Stage4Summary;
        self.summary()
    }

    /// Are lines found in the first block: at least `spec_blockzero_count_min` of the
    /// block's size, or as many as the block holds? `FileErrEmpty` for an empty file.
    pub fn blockzero_analysis_lines(&mut self) -> (r: FileProcessingResult_BlockZero)
        requires
            old(self).wf(),
            old(self).spec_stage() == ProcessingStage::Stage1BlockzeroAnalysis,
        ensures
            final(self).wf(),
            final(self).data() == old(self).data(),
            final(self).spec_blocksz() == old(self).spec_blocksz(),
            final(self).spec_tz() == old(self).spec_tz(),
            final(self).spec_stage() == old(self).spec_stage(),
            final(self).spec_blockzero_done() == old(self).spec_blockzero_done(),
            final(self).spec_filters() == old(self).spec_filters(),
            r is FileErrEmpty <==> old(self).data().len() == 0,
            r is FileOk <==> (old(self).data().len() > 0 && blockzero_lines_enough(old(self).data(), old(self).spec_blocksz())),
            r is FileErrNoLinesFound <==> (old(self).data().len() > 0 && !blockzero_lines_enough(old(self).data(), old(self).spec_blocksz())),
    {
        let ghost data = self.data();
        let ghost bsz = self.spec_blocksz();
        let blockp = match self.syslinereader.read_block(0) {
            ResultS3::Found(bp) => bp,
            ResultS3::Done => {
                return FileProcessingResult::FileErrEmpty;
            },
            ResultS3::Error(err) => {
                self.Error_ = Some(err.message.clone());
                return FileProcessingResult::FileErrIo(err);
            },
        };
        proof {
            self.syslinereader.lemma_wf();
            assert(blockp@.len() == blocksz0_of(data.len() as int, bsz));
        }
        let blocksz0: BlockSz = blockp.len() as BlockSz;
        let mut fo: FileOffset = 0;
        let mut found: Count = 0;
        let found_min: Count = blockzero_analysis_count_min(blocksz0);
        let ghost first_end = line_end(data, 0);
        proof {
            assert(data.len() > 0);
            assert(line_begin(data, 0) == 0);
            crate::linereader::lemma_line_of_offset(data, 0);
            crate::linereader::lemma_line_end(data, 0);
        }
        while found < found_min
            invariant_except_break
                self.wf(),
                self.data() == data,
                self.spec_blocksz() == bsz,
                self.spec_tz() == old(self).spec_tz(),
                self.spec_stage() == old(self).spec_stage(),
                self.spec_blockzero_done() == old(self).spec_blockzero_done(),
                self.spec_filters() == old(self).spec_filters(),
                data.len() > 0,
                bsz > 0,
                line_begin(data, 0) == 0,
                first_end == line_end(data, 0),
                0 <= first_end < data.len(),
                found_min == spec_blockzero_count_min(blocksz0_of(data.len() as int, bsz)),
                found <= found_min,
                found_min <= 2,
                found == 0 ==> fo == 0,
                found == 1 ==> fo == first_end + 1 && first_end + 1 < data.len() && first_end + 1 < bsz,
                found == 2 ==> (first_end + 1 < data.len() && first_end + 1 < bsz),
            ensures
                self.wf(),
                self.data() == data,
                self.spec_blocksz() == bsz,
                self.spec_tz() == old(self).spec_tz(),
                self.spec_stage() == old(self).spec_stage(),
                self.spec_blockzero_done() == old(self).spec_blockzero_done(),
                self.spec_filters() == old(self).spec_filters(),
                found == found_min || (found == 1 && found_min == 2 && !(first_end + 1 < data.len() && first_end + 1 < bsz)),
                found == 2 ==> (first_end + 1 < data.len() && first_end + 1 < bsz),
            decreases found_min - found,
        {
            let r = self.syslinereader.find_line_in_block(fo);
            proof {
                if fo < data.len() {
                    crate::linereader::lemma_line_of_offset(data, fo as int);
                }
                lemma_div_zero(0, bsz);
                lemma_div_zero(first_end, bsz);
                lemma_div_zero(first_end + 1, bsz);
                if found == 0 {
                    assert(r is Done <==> first_end >= bsz);
                }
            }
            match r {
                ResultS4::Found((fo_next, lp)) => {
                    proof {
                        if found == 0 {
                            assert(lp.spec_begin() == 0);
                            assert(fo_next == first_end + 1);
                        }
                    }
                    found += 1;
                    fo = fo_next;
                },
                ResultS4::Found_EOF((_fo_next, _lp)) => {
                    found += 1;
                    break;
                },
                ResultS4::Done => {
                    found += 1;
                    break;
                },
                ResultS4::Error(err) => {
                    self.Error_ = Some(err.message.clone());
                    return FileProcessingResult::FileErrIo(err);
                },
            }
            if 0 != self.syslinereader.block_offset_at_file_offset(fo) {
                break;
            }
        }
        if found >= found_min {
            FileProcessingResult::FileOk
        } else {
            FileProcessingResult::FileErrNoLinesFound
        }
    }

    /// Are syslines found in the first block: at least `spec_blockzero_count_min` of
    /// the block's size, or as many as the block holds? `FileErrEmpty` for an empty
    /// file.
    pub fn blockzero_analysis_syslines(&mut self) -> (r: FileProcessingResult_BlockZero)
        requires
            old(self).wf(),
            old(self).spec_stage() == ProcessingStage::Stage1BlockzeroAnalysis,
        ensures
            final(self).wf(),
            final(self).data() == old(self).data(),
            final(self).spec_blocksz() == old(self).spec_blocksz(),
            final(self).spec_tz() == old(self).spec_tz(),
            final(self).spec_stage() == old(self).spec_stage(),
            final(self).spec_blockzero_done() == old(self).spec_blockzero_done(),
            final(self).spec_filters() == old(self).spec_filters(),
            r is FileErrEmpty <==> old(self).data().len() == 0,
            (old(self).data().len() > 0 && spec_blockzero_count_min(blocksz0_of(old(self).data().len() as int, old(self).spec_blocksz())) == 1)
                ==> r is FileOk,
            (spec_blockzero_count_min(blocksz0_of(old(self).data().len() as int, old(self).spec_blocksz())) == 2 && r is FileOk)
                ==> exists|s: Sysline| first_sysline_within(old(self).data(), old(self).spec_tz(), final(self).spec_active(),
                    blocksz0_of(old(self).data().len() as int, old(self).spec_blocksz()), s),
            r is FileOk || r is FileErrEmpty || r is FileErrNoSyslinesFound,
    {
        let ghost data = self.data();
        let ghost bsz = self.spec_blocksz();
        let ghost tz = self.spec_tz();
        let ghost mut wit: Option<SyslineP> = None;
        let blockp = match self.syslinereader.read_block(0) {
            ResultS3::Found(bp) => bp,
            ResultS3::Done => {
                return FileProcessingResult::FileErrEmpty;
            },
            ResultS3::Error(err) => {
                self.Error_ = Some(err.message.clone());
                return FileProcessingResult::FileErrIo(err);
            },
        };
        proof {
            self.syslinereader.lemma_wf();
            assert(blockp@.len() == blocksz0_of(data.len() as int, bsz));
        }
        let blocksz0: BlockSz = blockp.len() as BlockSz;
        let mut fo: FileOffset = 0;
        let mut found: Count = 0;
        let found_min: Count = blockzero_analysis_count_min(blocksz0);
        while found < found_min
            invariant_except_break
                self.wf(),
                self.data() == data,
                self.spec_blocksz() == bsz,
                self.spec_tz() == old(self).spec_tz(),
                self.spec_stage() == old(self).spec_stage(),
                self.spec_blockzero_done() == old(self).spec_blockzero_done(),
                self.spec_filters() == old(self).spec_filters(),
                found <= found_min,
                1 <= found_min <= 2,
                found_min == spec_blockzero_count_min(blocksz0 as int),
                tz == old(self).spec_tz(),
                blocksz0 == blocksz0_of(data.len() as int, bsz),
                found == 0 ==> fo == 0,
                found >= 1 && found_min == 2 ==> (wit matches Some(w) && first_sysline_within(data, tz, self.spec_active(), blocksz0 as int, *w)),
            ensures
                self.wf(),
                self.data() == data,
                self.spec_blocksz() == bsz,
                self.spec_tz() == old(self).spec_tz(),
                self.spec_stage() == old(self).spec_stage(),
                self.spec_blockzero_done() == old(self).spec_blockzero_done(),
                self.spec_filters() == old(self).spec_filters(),
                found == found_min || (found == 1 && found_min == 2),
                found_min == 2 && found == 2 ==> (wit matches Some(w) && first_sysline_within(data, tz, self.spec_active(), blocksz0 as int, *w)),
            decreases found_min - found,
        {
            let ghost active_before = self.spec_active();
            let ghost found_before = found;
            let found_result = self.syslinereader.find_sysline_in_block(fo);
            proof {
                if found == 1 && found_min == 2 {
                    let w = wit->0;
                    lemma_whole_within(&w, data, active_before, self.spec_active(), tz);
                    if w.spec_begin() != 0 {
                        lemma_no_dt_lines_subset(data, 0, w.spec_begin(), active_before, self.spec_active(), tz);
                    }
                }
            }
            match found_result {
                ResultS4::Found((fo_next, _slp)) => {
                    proof {
                        if found == 0 {
                            wit = Some(_slp);
                        }
                    }
                    found += 1;
                    fo = fo_next;
                },
                ResultS4::Found_EOF((_fo_next, _slp)) => {
                    found += 1;
                    break;
                },
                ResultS4::Done => {
                    found += 1;
                    break;
                },
                ResultS4::Error(err) => {
                    self.Error_ = Some(err.message.clone());
                    return FileProcessingResult::FileErrIo(err);
                },
            }
            if 0 != self.syslinereader.block_offset_at_file_offset(fo) {
                break;
            }
            proof {
                if found == 1 && found_min == 2 {
                    self.syslinereader.lemma_wf();
                    assert(fo < bsz) by (nonlinear_arith)
                        requires
                            fo as int / bsz == 0,
                            bsz > 0,
                    ;
                    assert(line_begin(data, 0) == 0);
                }
            }
        }
        if found >= found_min {
            FileProcessingResult::FileOk
        } else {
            FileProcessingResult::FileErrNoSyslinesFound
        }
    }

    /// Checks the first block: its lines (`blockzero_analysis_lines`), and where
    /// those are enough, its syslines (`blockzero_analysis_syslines`). Done once.
    pub fn blockzero_analysis(&mut self) -> (r: FileProcessingResult_BlockZero)
        requires
            old(self).wf(),
            old(self).spec_stage() == ProcessingStage::Stage1BlockzeroAnalysis,
            !old(self).spec_blockzero_done(),
        ensures
            final(self).wf(),
            final(self).data() == old(self).data(),
            final(self).spec_blocksz() == old(self).spec_blocksz(),
            final(self).spec_tz() == old(self).spec_tz(),
            final(self).spec_stage() == old(self).spec_stage(),
            final(self).spec_blockzero_done(),
            final(self).spec_filters() == old(self).spec_filters(),
            blockzero_outcome(old(self).data(), old(self).spec_blocksz(), r),
            (spec_blockzero_count_min(blocksz0_of(old(self).data().len() as int, old(self).spec_blocksz())) == 2 && r is FileOk)
                ==> exists|s: Sysline| first_sysline_within(old(self).data(), old(self).spec_tz(), final(self).spec_active(),
                    blocksz0_of(old(self).data().len() as int, old(self).spec_blocksz()), s),
    {
        self.blockzero_analysis_done = true;
        let result = self.blockzero_analysis_lines();
        if !result.is_ok() {
            return result;
        }
        self.blockzero_analysis_syslines()
    }

    /// The summary of the reading so far.
    pub fn summary(&self) -> (r: Summary)
        requires
            self.wf(),
            self.spec_summary_counts_ok(),
        ensures
            r.filetype == self.spec_filetype(),
            r.BlockReader_blocksz == self.spec_blocksz(),
            r.BlockReader_filesz_actual == self.data().len(),
            r.LineReader_lines == self.spec_lines_count(),
            r.SyslineReader_syslines == self.spec_syslines_count(),
            r.SyslineReader_patterns@ == sort_by_count(used_patterns(self.spec_dt_patterns_counts())),
            r.SyslineReader_pattern_first == self.spec_dt_first(),
            r.SyslineReader_pattern_last == self.spec_dt_last(),
            summary_counters(r, self.spec_syslinereader()),
            r.BlockReader_bytes_total == self.data().len(),
            r.SyslineReader_get_boxptrs_singleptr == 0,
            r.SyslineReader_get_boxptrs_doubleptr == 0,
            r.SyslineReader_get_boxptrs_multiptr == 0,
            r.Error_ == self.spec_error(),
    {
        let slr = &self.syslinereader;
        let lr = slr.linereader();
        let br = lr.blockreader();
        Summary::new(
            self.filetype(),
            br.count_bytes(),
            self.filesz(),
            br.count_blocks_processed(),
            br.blockn(),
            self.blocksz(),
            br.filesz_stored(),
            self.filesz(),
            slr.count_lines_processed(),
            slr.count_syslines_processed(),
            slr.syslines_hit(),
            slr.syslines_miss(),
            slr.syslines_by_range_hit(),
            slr.syslines_by_range_miss(),
            slr.syslines_by_range_put(),
            patterns_used_by_count(slr.dt_patterns_counts()),
            slr.dt_first(),
            slr.dt_last(),
            slr.find_sysline_lru_cache_hit(),
            slr.find_sysline_lru_cache_miss(),
            slr.find_sysline_lru_cache_put(),
            slr.parse_datetime_in_line_lru_cache_hit(),
            slr.parse_datetime_in_line_lru_cache_miss(),
            slr.parse_datetime_in_line_lru_cache_put(),
            0,
            0,
            0,
            lr._lines_hits(),
            lr._lines_miss(),
            lr._find_line_lru_cache_hit(),
            lr._find_line_lru_cache_miss(),
            lr.find_line_lru_cache_put(),
            br.read_block_cache_lru_hit(),
            br.read_block_cache_lru_miss(),
            br.read_block_cache_lru_put(),
            br.read_blocks_hit(),
            br.read_blocks_miss(),
            br.read_blocks_put(),
            lr.drop_line_ok(),
            lr.drop_line_errors(),
            slr.drop_sysline_ok(),
            slr.drop_sysline_errors(),
            self.Error_.clone(),
        )
    }

    /// Are the counts of the summary sane (`spec_summary_counts_ok`)?
    pub fn summary_counts_ok(&self) -> (r: bool)
        requires
            self.wf(),
        ensures
            r == self.spec_summary_counts_ok(),
    {
        let slr = &self.syslinereader;
        let br = slr.linereader().blockreader();
        let bytes = br.count_bytes();
        let blocks = br.count_blocks_processed();
        let lines = slr.count_lines_processed();
        let syslines = slr.count_syslines_processed();
        let bsz = self.blocksz;
        bytes >= blocks && bytes >= lines && bytes >= syslines
            && crate::blockreader::BLOCKSZ_MIN <= bsz && bsz <= BLOCKSZ_MAX && lines >= syslines
    }
}

/// The counters of a summary are those of the readers of `slr`: bytes and blocks
/// read, block count and stored size, syslines, and the hits and misses of each store
/// and cache.
pub open spec fn summary_counters(r: Summary, slr: SyslineReader) -> bool {
    let lr = slr.spec_linereader();
    let br = lr.spec_blockreader();
    &&& r.BlockReader_bytes == br.spec_count_bytes()
    &&& r.BlockReader_blocks == br.spec_blocks_read().len()
    &&& r.BlockReader_blocks_total == spec_count_blocks(br.data().len() as int, br.spec_blocksz())
    &&& r.BlockReader_filesz == br.spec_filesz_stored()
    &&& r.SyslineReader_syslines_hit == slr.spec_syslines_hit()
    &&& r.SyslineReader_syslines_miss == slr.spec_syslines_miss()
    &&& r.SyslineReader_syslines_by_range_hit == slr.spec_syslines_by_range_hit()
    &&& r.SyslineReader_syslines_by_range_miss == slr.spec_syslines_by_range_miss()
    &&& r.SyslineReader_syslines_by_range_put == slr.spec_syslines_by_range_put()
    &&& r.SyslineReader_find_sysline_lru_cache_hit == slr.spec_find_sysline_lru_cache_hit()
    &&& r.SyslineReader_find_sysline_lru_cache_miss == slr.spec_find_sysline_lru_cache_miss()
    &&& r.SyslineReader_find_sysline_lru_cache_put == slr.spec_find_sysline_lru_cache_put()
    &&& r.SyslineReader_parse_datetime_in_line_lru_cache_hit == slr.spec_parse_datetime_in_line_lru_cache_hit()
    &&& r.SyslineReader_parse_datetime_in_line_lru_cache_miss == slr.spec_parse_datetime_in_line_lru_cache_miss()
    &&& r.SyslineReader_parse_datetime_in_line_lru_cache_put == slr.spec_parse_datetime_in_line_lru_cache_put()
    &&& r.LineReader_lines_hit == lr.spec_lines_hits()
    &&& r.LineReader_lines_miss == lr.spec_lines_miss()
    &&& r.LineReader_find_line_lru_cache_hit == lr.spec_find_line_lru_cache_hit()
    &&& r.LineReader_find_line_lru_cache_miss == lr.spec_find_line_lru_cache_miss()
    &&& r.LineReader_find_line_lru_cache_put == lr.spec_find_line_lru_cache_put()
    &&& r.BlockReader_read_block_lru_cache_hit == br.spec_read_block_cache_lru_hit()
    &&& r.BlockReader_read_block_lru_cache_miss == br.spec_read_block_cache_lru_miss()
    &&& r.BlockReader_read_block_lru_cache_put == br.spec_read_block_cache_lru_put()
    &&& r.BlockReader_read_blocks_hit == br.spec_read_blocks_hit()
    &&& r.BlockReader_read_blocks_miss == br.spec_read_blocks_miss()
    &&& r.BlockReader_read_blocks_put == br.spec_read_blocks_put()
    &&& r.LineReader_drop_line_ok == lr.spec_drop_line_ok()
    &&& r.LineReader_drop_line_errors == lr.spec_drop_line_errors()
    &&& r.SyslineReader_drop_sysline_ok == slr.spec_drop_sysline_ok()
    &&& r.SyslineReader_drop_sysline_errors == slr.spec_drop_sysline_errors()
}

/// What the checks of the first block give: `FileErrEmpty` exactly for an empty
/// file; where the lines are not enough (`blockzero_lines_enough`),
/// `FileErrNoLinesFound`; `FileOk` only where they are; and `FileOk` where also
/// one sysline suffices.
pub open spec fn blockzero_outcome(data: Seq<u8>, bsz: int, r: FileProcessingResult_BlockZero) -> bool {
    &&& r is FileErrEmpty <==> data.len() == 0
    &&& (data.len() > 0 && !blockzero_lines_enough(data, bsz)) ==> r is FileErrNoLinesFound
    &&& r is FileOk ==> blockzero_lines_enough(data, bsz)
    &&& (data.len() > 0 && spec_blockzero_count_min(blocksz0_of(data.len() as int, bsz)) == 1) ==> r is FileOk
    &&& (r is FileOk || r is FileErrEmpty || r is FileErrNoLinesFound || r is FileErrNoSyslinesFound)
}

} // verus!
