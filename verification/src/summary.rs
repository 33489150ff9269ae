//! Statistics of the reading of one file.
#![allow(non_snake_case)]
use vstd::prelude::*;
use crate::common::{Count, FileSz, FileType};
use crate::blockreader::{BlockSz, BLOCKSZ_MIN, BLOCKSZ_MAX};
use crate::datetime::{DateTime_Parse_Data, DateTimeL_Opt};

verus! {

/// Statistics of the reading of a file by a `SyslineReader`, its `LineReader` and
/// its `BlockReader`.
#[derive(Clone, Default)]
pub struct Summary {
    /// the type of the file
    pub filetype: FileType,
    /// count of bytes stored by the `BlockReader`
    pub BlockReader_bytes: Count,
    /// count of bytes in the file
    pub BlockReader_bytes_total: FileSz,
    /// count of blocks read by the `BlockReader`
    pub BlockReader_blocks: Count,
    /// count of blocks in the file
    pub BlockReader_blocks_total: Count,
    /// block size of the `BlockReader`
    pub BlockReader_blocksz: BlockSz,
    /// size of the file as stored (compressed, or the whole archive)
    pub BlockReader_filesz: FileSz,
    /// size of the file's contents (uncompressed)
    pub BlockReader_filesz_actual: FileSz,
    /// count of lines found by the `LineReader`
    pub LineReader_lines: Count,
    /// count of syslines found by the `SyslineReader`
    pub SyslineReader_syslines: Count,
    /// hits on the stored syslines
    pub SyslineReader_syslines_hit: Count,
    /// misses on the stored syslines
    pub SyslineReader_syslines_miss: Count,
    /// hits on the ranges of stored syslines
    pub SyslineReader_syslines_by_range_hit: Count,
    /// misses on the ranges of stored syslines
    pub SyslineReader_syslines_by_range_miss: Count,
    /// ranges of syslines stored
    pub SyslineReader_syslines_by_range_put: Count,
    /// datetime patterns used, with their use counts
    pub SyslineReader_patterns: Vec<(DateTime_Parse_Data, Count)>,
    /// earliest datetime seen (not necessarily of the whole file)
    pub SyslineReader_pattern_first: DateTimeL_Opt,
    /// latest datetime seen (not necessarily of the whole file)
    pub SyslineReader_pattern_last: DateTimeL_Opt,
    /// `find_sysline` cache hits
    pub SyslineReader_find_sysline_lru_cache_hit: Count,
    /// `find_sysline` cache misses
    pub SyslineReader_find_sysline_lru_cache_miss: Count,
    /// `find_sysline` cache puts
    pub SyslineReader_find_sysline_lru_cache_put: Count,
    /// `parse_datetime_in_line` cache hits
    pub SyslineReader_parse_datetime_in_line_lru_cache_hit: Count,
    /// `parse_datetime_in_line` cache misses
    pub SyslineReader_parse_datetime_in_line_lru_cache_miss: Count,
    /// `parse_datetime_in_line` cache puts
    pub SyslineReader_parse_datetime_in_line_lru_cache_put: Count,
    /// `get_boxptrs` calls that gave one slice
    pub SyslineReader_get_boxptrs_singleptr: Count,
    /// `get_boxptrs` calls that gave two slices
    pub SyslineReader_get_boxptrs_doubleptr: Count,
    /// `get_boxptrs` calls that gave more slices
    pub SyslineReader_get_boxptrs_multiptr: Count,
    /// hits on the stored lines
    pub LineReader_lines_hit: Count,
    /// misses on the stored lines
    pub LineReader_lines_miss: Count,
    /// `find_line` cache hits
    pub LineReader_find_line_lru_cache_hit: Count,
    /// `find_line` cache misses
    pub LineReader_find_line_lru_cache_miss: Count,
    /// `find_line` cache puts
    pub LineReader_find_line_lru_cache_put: Count,
    /// `read_block` cache hits
    pub BlockReader_read_block_lru_cache_hit: Count,
    /// `read_block` cache misses
    pub BlockReader_read_block_lru_cache_miss: Count,
    /// `read_block` cache puts
    pub BlockReader_read_block_lru_cache_put: Count,
    /// `read_block` hits on the stored blocks
    pub BlockReader_read_blocks_hit: Count,
    /// `read_block` misses on the stored blocks
    pub BlockReader_read_blocks_miss: Count,
    /// blocks stored by `read_block`
    pub BlockReader_read_blocks_put: Count,
    /// lines dropped
    pub LineReader_drop_line_ok: Count,
    /// lines that could not be dropped
    pub LineReader_drop_line_errors: Count,
    /// syslines dropped
    pub SyslineReader_drop_sysline_ok: Count,
    /// syslines that could not be dropped
    pub SyslineReader_drop_sysline_errors: Count,
    /// the last error, as a message, if any
    pub Error_: Option<String>,
}

/// The sanity conditions of a summary's counts: at least as many bytes as blocks,
/// lines and syslines, at least as many lines as syslines, and a block size in range.
pub open spec fn summary_counts_ok(bytes: Count, blocks: Count, blocksz: BlockSz, lines: Count, syslines: Count) -> bool {
    &&& bytes >= blocks
    &&& bytes >= lines
    &&& bytes >= syslines
    &&& BLOCKSZ_MIN <= blocksz <= BLOCKSZ_MAX
    &&& lines >= syslines
}

/// The greatest element of a sequence is one of its elements, and none is greater.
pub open spec fn is_max_of(r: Count, s: Seq<Count>) -> bool {
    &&& forall|i: int| 0 <= i < s.len() ==> s[i] <= r
    &&& exists|i: int| 0 <= i < s.len() && s[i] == r
}

/// The greatest element of a non-empty vector.
fn vec_max(v: &Vec<Count>) -> (r: Count)
    requires
        v@.len() > 0,
    ensures
        is_max_of(r, v@),
{
    let mut m = v[0];
    let mut i: usize = 1;
    while i < v.len()
        invariant
            1 <= i <= v@.len(),
            forall|k: int| 0 <= k < i ==> v@[k] <= m,
            exists|k: int| 0 <= k < i && v@[k] == m,
        decreases v@.len() - i,
    {
        if v[i] > m {
            m = v[i];
        }
        i += 1;
    }
    m
}

impl Summary {
    /// A summary of the given counts. The counts must be sane (`summary_counts_ok`).
    #[allow(clippy::too_many_arguments)]
    pub fn new(
        filetype: FileType,
        BlockReader_bytes: Count,
        BlockReader_bytes_total: FileSz,
        BlockReader_blocks: Count,
        BlockReader_blocks_total: Count,
        BlockReader_blocksz: BlockSz,
        BlockReader_filesz: FileSz,
        BlockReader_filesz_actual: FileSz,
        LineReader_lines: Count,
        SyslineReader_syslines: Count,
        SyslineReader_syslines_hit: Count,
        SyslineReader_syslines_miss: Count,
        SyslineReader_syslines_by_range_hit: Count,
        SyslineReader_syslines_by_range_miss: Count,
        SyslineReader_syslines_by_range_put: Count,
        SyslineReader_patterns: Vec<(DateTime_Parse_Data, Count)>,
        SyslineReader_pattern_first: DateTimeL_Opt,
        SyslineReader_pattern_last: DateTimeL_Opt,
        SyslineReader_find_sysline_lru_cache_hit: Count,
        SyslineReader_find_sysline_lru_cache_miss: Count,
        SyslineReader_find_sysline_lru_cache_put: Count,
        SyslineReader_parse_datetime_in_line_lru_cache_hit: Count,
        SyslineReader_parse_datetime_in_line_lru_cache_miss: Count,
        SyslineReader_parse_datetime_in_line_lru_cache_put: Count,
        SyslineReader_get_boxptrs_singleptr: Count,
        SyslineReader_get_boxptrs_doubleptr: Count,
        SyslineReader_get_boxptrs_multiptr: Count,
        LineReader_lines_hit: Count,
        LineReader_lines_miss: Count,
        LineReader_find_line_lru_cache_hit: Count,
        LineReader_find_line_lru_cache_miss: Count,
        LineReader_find_line_lru_cache_put: Count,
        BlockReader_read_block_lru_cache_hit: Count,
        BlockReader_read_block_lru_cache_miss: Count,
        BlockReader_read_block_lru_cache_put: Count,
        BlockReader_read_blocks_hit: Count,
        BlockReader_read_blocks_miss: Count,
        BlockReader_read_blocks_put: Count,
        LineReader_drop_line_ok: Count,
        LineReader_drop_line_errors: Count,
        SyslineReader_drop_sysline_ok: Count,
        SyslineReader_drop_sysline_errors: Count,
        Error_: Option<String>,
    ) -> (s: Summary)
        requires
            summary_counts_ok(BlockReader_bytes, BlockReader_blocks, BlockReader_blocksz, LineReader_lines, SyslineReader_syslines),
        ensures
            s.filetype == filetype,
            s.BlockReader_bytes == BlockReader_bytes,
            s.BlockReader_bytes_total == BlockReader_bytes_total,
            s.BlockReader_blocks == BlockReader_blocks,
            s.BlockReader_blocks_total == BlockReader_blocks_total,
            s.BlockReader_blocksz == BlockReader_blocksz,
            s.BlockReader_filesz == BlockReader_filesz,
            s.BlockReader_filesz_actual == BlockReader_filesz_actual,
            s.LineReader_lines == LineReader_lines,
            s.SyslineReader_syslines == SyslineReader_syslines,
            s.SyslineReader_syslines_hit == SyslineReader_syslines_hit,
            s.SyslineReader_syslines_miss == SyslineReader_syslines_miss,
            s.SyslineReader_syslines_by_range_hit == SyslineReader_syslines_by_range_hit,
            s.SyslineReader_syslines_by_range_miss == SyslineReader_syslines_by_range_miss,
            s.SyslineReader_syslines_by_range_put == SyslineReader_syslines_by_range_put,
            s.SyslineReader_pattern_first == SyslineReader_pattern_first,
            s.SyslineReader_pattern_last == SyslineReader_pattern_last,
            s.SyslineReader_find_sysline_lru_cache_hit == SyslineReader_find_sysline_lru_cache_hit,
            s.SyslineReader_find_sysline_lru_cache_miss == SyslineReader_find_sysline_lru_cache_miss,
            s.SyslineReader_find_sysline_lru_cache_put == SyslineReader_find_sysline_lru_cache_put,
            s.SyslineReader_parse_datetime_in_line_lru_cache_hit == SyslineReader_parse_datetime_in_line_lru_cache_hit,
            s.SyslineReader_parse_datetime_in_line_lru_cache_miss == SyslineReader_parse_datetime_in_line_lru_cache_miss,
            s.SyslineReader_parse_datetime_in_line_lru_cache_put == SyslineReader_parse_datetime_in_line_lru_cache_put,
            s.SyslineReader_get_boxptrs_singleptr == SyslineReader_get_boxptrs_singleptr,
            s.SyslineReader_get_boxptrs_doubleptr == SyslineReader_get_boxptrs_doubleptr,
            s.SyslineReader_get_boxptrs_multiptr == SyslineReader_get_boxptrs_multiptr,
            s.LineReader_lines_hit == LineReader_lines_hit,
            s.LineReader_lines_miss == LineReader_lines_miss,
            s.LineReader_find_line_lru_cache_hit == LineReader_find_line_lru_cache_hit,
            s.LineReader_find_line_lru_cache_miss == LineReader_find_line_lru_cache_miss,
            s.LineReader_find_line_lru_cache_put == LineReader_find_line_lru_cache_put,
            s.BlockReader_read_block_lru_cache_hit == BlockReader_read_block_lru_cache_hit,
            s.BlockReader_read_block_lru_cache_miss == BlockReader_read_block_lru_cache_miss,
            s.BlockReader_read_block_lru_cache_put == BlockReader_read_block_lru_cache_put,
            s.BlockReader_read_blocks_hit == BlockReader_read_blocks_hit,
            s.BlockReader_read_blocks_miss == BlockReader_read_blocks_miss,
            s.BlockReader_read_blocks_put == BlockReader_read_blocks_put,
            s.LineReader_drop_line_ok == LineReader_drop_line_ok,
            s.LineReader_drop_line_errors == LineReader_drop_line_errors,
            s.SyslineReader_drop_sysline_ok == SyslineReader_drop_sysline_ok,
            s.SyslineReader_drop_sysline_errors == SyslineReader_drop_sysline_errors,
            s.SyslineReader_patterns@ == SyslineReader_patterns@,
            s.Error_ == Error_,
    {
        Summary {
            filetype,
            BlockReader_bytes,
            BlockReader_bytes_total,
            BlockReader_blocks,
            BlockReader_blocks_total,
            BlockReader_blocksz,
            BlockReader_filesz,
            BlockReader_filesz_actual,
            LineReader_lines,
            SyslineReader_syslines,
            SyslineReader_syslines_hit,
            SyslineReader_syslines_miss,
            SyslineReader_syslines_by_range_hit,
            SyslineReader_syslines_by_range_miss,
            SyslineReader_syslines_by_range_put,
            SyslineReader_patterns,
            SyslineReader_pattern_first,
            SyslineReader_pattern_last,
            SyslineReader_find_sysline_lru_cache_hit,
            SyslineReader_find_sysline_lru_cache_miss,
            SyslineReader_find_sysline_lru_cache_put,
            SyslineReader_parse_datetime_in_line_lru_cache_hit,
            SyslineReader_parse_datetime_in_line_lru_cache_miss,
            SyslineReader_parse_datetime_in_line_lru_cache_put,
            SyslineReader_get_boxptrs_singleptr,
            SyslineReader_get_boxptrs_doubleptr,
            SyslineReader_get_boxptrs_multiptr,
            LineReader_lines_hit,
            LineReader_lines_miss,
            LineReader_find_line_lru_cache_hit,
            LineReader_find_line_lru_cache_miss,
            LineReader_find_line_lru_cache_put,
            BlockReader_read_block_lru_cache_hit,
            BlockReader_read_block_lru_cache_miss,
            BlockReader_read_block_lru_cache_put,
            BlockReader_read_blocks_hit,
            BlockReader_read_blocks_miss,
            BlockReader_read_blocks_put,
            LineReader_drop_line_ok,
            LineReader_drop_line_errors,
            SyslineReader_drop_sysline_ok,
            SyslineReader_drop_sysline_errors,
            Error_,
        }
    }


    /// The hit, miss and put counts, in the order `max_hit_miss` looks at them.
    pub open spec fn hit_miss_counts(&self) -> Seq<Count> {
        seq![
            self.SyslineReader_syslines_hit,
            self.SyslineReader_syslines_miss,
            self.SyslineReader_syslines_by_range_hit,
            self.SyslineReader_syslines_by_range_miss,
            self.SyslineReader_syslines_by_range_put,
            self.SyslineReader_find_sysline_lru_cache_hit,
            self.SyslineReader_find_sysline_lru_cache_hit,
            self.SyslineReader_find_sysline_lru_cache_hit,
            self.SyslineReader_find_sysline_lru_cache_miss,
            self.SyslineReader_find_sysline_lru_cache_put,
            self.SyslineReader_parse_datetime_in_line_lru_cache_hit,
            self.SyslineReader_parse_datetime_in_line_lru_cache_miss,
            self.SyslineReader_parse_datetime_in_line_lru_cache_put,
            self.SyslineReader_get_boxptrs_singleptr,
            self.SyslineReader_get_boxptrs_doubleptr,
            self.SyslineReader_get_boxptrs_multiptr,
            self.LineReader_lines_hit,
            self.LineReader_lines_miss,
            self.LineReader_find_line_lru_cache_hit,
            self.LineReader_find_line_lru_cache_miss,
            self.LineReader_find_line_lru_cache_put,
            self.BlockReader_read_block_lru_cache_hit,
            self.BlockReader_read_block_lru_cache_miss,
            self.BlockReader_read_block_lru_cache_put,
            self.BlockReader_read_blocks_hit,
            self.BlockReader_read_blocks_miss,
            self.BlockReader_read_blocks_put,
        ]
    }

    /// The greatest of the hit, miss and put counts (for the width of printed columns).
    pub fn max_hit_miss(&self) -> (r: Count)
        ensures
            is_max_of(r, self.hit_miss_counts()),
    {
        let v: Vec<Count> = vec![
            self.SyslineReader_syslines_hit,
            self.SyslineReader_syslines_miss,
            self.SyslineReader_syslines_by_range_hit,
            self.SyslineReader_syslines_by_range_miss,
            self.SyslineReader_syslines_by_range_put,
            self.SyslineReader_find_sysline_lru_cache_hit,
            self.SyslineReader_find_sysline_lru_cache_hit,
            self.SyslineReader_find_sysline_lru_cache_hit,
            self.SyslineReader_find_sysline_lru_cache_miss,
            self.SyslineReader_find_sysline_lru_cache_put,
            self.SyslineReader_parse_datetime_in_line_lru_cache_hit,
            self.SyslineReader_parse_datetime_in_line_lru_cache_miss,
            self.SyslineReader_parse_datetime_in_line_lru_cache_put,
            self.SyslineReader_get_boxptrs_singleptr,
            self.SyslineReader_get_boxptrs_doubleptr,
            self.SyslineReader_get_boxptrs_multiptr,
            self.LineReader_lines_hit,
            self.LineReader_lines_miss,
            self.LineReader_find_line_lru_cache_hit,
            self.LineReader_find_line_lru_cache_miss,
            self.LineReader_find_line_lru_cache_put,
            self.BlockReader_read_block_lru_cache_hit,
            self.BlockReader_read_block_lru_cache_miss,
            self.BlockReader_read_block_lru_cache_put,
            self.BlockReader_read_blocks_hit,
            self.BlockReader_read_blocks_miss,
            self.BlockReader_read_blocks_put,
        ];
        proof {
            assert(v@ =~= self.hit_miss_counts());
        }
        vec_max(&v)
    }

    /// The drop counts, in the order `max_drop` looks at them.
    pub open spec fn drop_counts(&self) -> Seq<Count> {
        seq![
            self.LineReader_drop_line_ok,
            self.LineReader_drop_line_errors,
            self.SyslineReader_drop_sysline_ok,
            self.SyslineReader_drop_sysline_errors,
        ]
    }

    /// The greatest of the drop counts (for the width of printed columns).
    pub fn max_drop(&self) -> (r: Count)
        ensures
            is_max_of(r, self.drop_counts()),
    {
        let v: Vec<Count> = vec![
            self.LineReader_drop_line_ok,
            self.LineReader_drop_line_errors,
            self.SyslineReader_drop_sysline_ok,
            self.SyslineReader_drop_sysline_errors,
        ];
        proof {
            assert(v@ =~= self.drop_counts());
        }
        vec_max(&v)
    }
}

/// An optional summary.
pub type Summary_Opt = Option<Summary>;

} // verus!
