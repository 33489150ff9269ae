//! Finding syslines: lines that begin with a datetime, with the lines that follow
//! them up to the next such line.
use vstd::prelude::*;
use std::sync::Arc;
use std::collections::BTreeMap;
use crate::common::{FPath, FileOffset, FileSz, Count, CharSz, FileType, Error, ErrorKind, ResultS3, ResultS4, arc_clone};
use crate::datetime::{
    LineIndex, TzOffset, tz_offset_ok, DateTimeL, DateTimeL_Opt, dt_before, dt_of,
    DateTime_Parse_Data, DateTime_Parse_Datas_vec, DATETIME_PARSE_DATAS_VEC,
    Result_Filter_DateTime1, Result_Filter_DateTime2, spec_dt_after_or_before, spec_dt_pass_filters, builtin_dtpds,
    filters_ordered, dt_after_or_before, dt_pass_filters, str_datetime, u8_to_str, slice_contains_X_2,
};
use crate::blockreader::{BlockSz, BlockIndex, BlockOffset, ResultS3_ReadBlock, block_bytes, file_contents};
use crate::linereader::{
    Line, LineP, LineReader, ResultS4_LineFind, line_at, line_begin, line_end, parts_aligned,
    enum_BoxPtrs, boxptrs_bytes, boxes_bytes, min_int, find_line_result, lemma_line_of_offset,
    FIND_FOUND, FIND_FOUND_EOF, FIND_DONE,
};
use crate::sysline::{Sysline, SyslineP, dtpd_result, dtpd_slice, first_match, lines_consecutive};
use crate::cache::{
    FindLRUCache, find_cache_contents, find_cache_new, find_cache_get, find_cache_put, find_cache_clear, find_cache_resize, find_cache_pop,
    ParseLRUCache, parse_cache_contents, parse_cache_new, parse_cache_get, parse_cache_put, parse_cache_clear, parse_cache_resize,
    FoRangeMap, rangemap_contents, rangemap_new, rangemap_insert, rangemap_get_key_value, put_result,
};

verus! {

broadcast use vstd::std_specs::btree::group_btree_axioms, vstd::laws_cmp::group_laws_cmp;

/// Result of `find_datetime_in_line`: the pattern that found the datetime, and the datetime.
pub type Result_FindDateTime = Result<(DateTime_Parse_Data, DateTimeL), Error>;
/// Result of parsing a line: where the datetime lies in the line, and the datetime.
pub type Result_ParseDateTime = Result<(LineIndex, LineIndex, DateTimeL), Error>;
/// Result of finding a sysline: the offset after it, and the sysline.
pub type ResultS4_SyslineFind = ResultS4<(FileOffset, SyslineP), Error>;
/// Syslines by the offset at which they begin.
pub type Syslines = BTreeMap<FileOffset, SyslineP>;

/// Most patterns tracked before the patterns are narrowed.
pub const DT_PATTERN_MAX_PRE_ANALYSIS: usize = 4;
/// Patterns kept once narrowed.
pub const DT_PATTERN_MAX: usize = 1;
/// Syslines found before the patterns are narrowed.
pub const DT_PATTERN_ANALYSIS_THRESHOLD: u64 = 5;
/// Slots in the `find_sysline` cache.
pub const FIND_SYSLINE_LRU_CACHE_SZ: usize = 4;
/// Slots in the cache of line parses.
pub const PARSE_DATETIME_IN_LINE_LRU_CACHE_SZ: usize = 8;

/// The bytes of the line that begins at `b`.
pub open spec fn line_bytes_at(data: Seq<u8>, b: int) -> Seq<u8> {
    data.subrange(b, line_end(data, b) + 1)
}

/// Some pattern of `pats` finds a datetime in the line `bytes` (of at least 4 bytes).
pub open spec fn has_dt(bytes: Seq<u8>, pats: Seq<DateTime_Parse_Data>, tz: TzOffset) -> bool {
    bytes.len() >= 4 && exists|d: DateTime_Parse_Data| #[trigger] pats.contains(d) && dtpd_result(bytes, d, tz) is Some
}

/// No line that begins in `[a, z)` has a datetime by the patterns `pats`.
pub open spec fn no_dt_lines(data: Seq<u8>, a: int, z: int, pats: Seq<DateTime_Parse_Data>, tz: TzOffset) -> bool {
    forall|b: int| a <= b < z && b == line_begin(data, b) ==> !#[trigger] has_dt(line_bytes_at(data, b), pats, tz)
}

/// The patterns with which a line's datetime is looked for: the narrowed patterns,
/// once the narrowing chose some; else the built-in patterns (those tried first
/// before the narrowing are among them, and the rest are tried after).
pub open spec fn active_patterns(analyzed: bool, tried: Seq<DateTime_Parse_Data>, builtin: Seq<DateTime_Parse_Data>) -> Seq<DateTime_Parse_Data> {
    if analyzed && tried.len() > 0 { tried } else { builtin }
}

/// A parse cache entry for the line at `b` agrees with the file: a datetime found is
/// one that some pattern finds in that line; none found means that none of the
/// patterns `active` finds one.
pub open spec fn parse_entry_ok(data: Seq<u8>, tz: TzOffset, active: Seq<DateTime_Parse_Data>, b: int, e: (u8, usize, usize, i64, u32, i32)) -> bool {
    &&& e.0 == 1 ==> {
        &&& 0 <= b < data.len()
        &&& b == line_begin(data, b)
        &&& exists|d: DateTime_Parse_Data| #[trigger] dtpd_result(line_bytes_at(data, b), d, tz) == Some(dt_of((e.3, e.4, e.5)))
            && e.1 == d.siba && e.2 == d.siea && builtin_dtpds().contains(d)
    }
    &&& e.0 != 1 ==> {
        &&& 0 <= b < data.len()
        &&& b == line_begin(data, b)
        &&& !has_dt(line_bytes_at(data, b), active, tz)
    }
}

/// A `Done` cached by `find_sysline` for `k`: `k` is at or past the end, or no line
/// from the one holding `k` to the end has a datetime by the patterns `active`.
pub open spec fn done_entry_ok(data: Seq<u8>, tz: TzOffset, active: Seq<DateTime_Parse_Data>, k: int) -> bool {
    k >= data.len() || no_dt_lines(data, line_begin(data, k), data.len() as int, active, tz)
}

/// The patterns of `p2` are among those of `p1`.
pub open spec fn patterns_within(p2: Seq<DateTime_Parse_Data>, p1: Seq<DateTime_Parse_Data>) -> bool {
    forall|d: DateTime_Parse_Data| #[trigger] p2.contains(d) ==> p1.contains(d)
}

/// A `Done` that holds for some patterns holds for fewer.
pub proof fn lemma_done_entry_within(data: Seq<u8>, tz: TzOffset, p1: Seq<DateTime_Parse_Data>, p2: Seq<DateTime_Parse_Data>, k: int)
    requires
        done_entry_ok(data, tz, p1, k),
        patterns_within(p2, p1),
    ensures
        done_entry_ok(data, tz, p2, k),
{
    if k < data.len() {
        lemma_no_dt_lines_subset(data, line_begin(data, k), data.len() as int, p1, p2, tz);
    }
}


/// A line in which no pattern of `p1` finds a datetime has none by fewer patterns.
pub proof fn lemma_has_dt_subset(bytes: Seq<u8>, p1: Seq<DateTime_Parse_Data>, p2: Seq<DateTime_Parse_Data>, tz: TzOffset)
    requires
        !has_dt(bytes, p1, tz),
        patterns_within(p2, p1),
    ensures
        !has_dt(bytes, p2, tz),
{
    if has_dt(bytes, p2, tz) {
        let d = choose|d: DateTime_Parse_Data| #[trigger] p2.contains(d) && dtpd_result(bytes, d, tz) is Some;
        assert(p1.contains(d));
    }
}

/// Where `first_match` finds nothing (or the line is too short), no pattern finds a
/// datetime.
pub proof fn lemma_no_match(bytes: Seq<u8>, pd: Seq<DateTime_Parse_Data>, tz: TzOffset)
    requires
        bytes.len() < 4 || first_match(bytes, pd, tz, 0) is None,
    ensures
        !has_dt(bytes, pd, tz),
{
    if bytes.len() >= 4 {
        lemma_first_match_none(bytes, pd, tz, 0);
        if has_dt(bytes, pd, tz) {
            let d = choose|d: DateTime_Parse_Data| #[trigger] pd.contains(d) && dtpd_result(bytes, d, tz) is Some;
            let j = choose|j: int| 0 <= j < pd.len() && pd[j] == d;
            assert(dtpd_result(bytes, pd[j], tz) is None);
        }
    }
}

/// The pattern that `first_match` gives is one of the patterns.
pub proof fn lemma_match_contains(bytes: Seq<u8>, pd: Seq<DateTime_Parse_Data>, tz: TzOffset, d: DateTime_Parse_Data)
    requires
        first_match(bytes, pd, tz, 0) matches Some((i, _)) && d == pd[i],
    ensures
        pd.contains(d),
{
    lemma_first_match(bytes, pd, tz, 0);
    let (i, _) = first_match(bytes, pd, tz, 0)->0;
    assert(pd[i] == d);
}

/// The lines before a line, and that line, have no datetime: neither have the lines
/// up to the next line (no line begins within a line).
pub proof fn lemma_no_dt_lines_extend(data: Seq<u8>, a: int, b: int, pats: Seq<DateTime_Parse_Data>, tz: TzOffset)
    requires
        0 <= a <= b < data.len(),
        b == line_begin(data, b),
        no_dt_lines(data, a, b, pats, tz),
        !has_dt(line_bytes_at(data, b), pats, tz),
    ensures
        no_dt_lines(data, a, line_end(data, b) + 1, pats, tz),
{
    crate::linereader::lemma_line_end(data, b);
    let e = line_end(data, b);
    assert forall|x: int| a <= x < e + 1 && x == line_begin(data, x) implies !#[trigger] has_dt(line_bytes_at(data, x), pats, tz) by {
        if b < x {
            if data[x - 1] != crate::common::NLu8 {
                crate::linereader::lemma_line_begin(data, x - 1);
            }
            assert(data[x - 1] == crate::common::NLu8);
            assert(b <= x - 1 < e);
        }
    }
}

/// Fewer patterns find a datetime in no more lines.
pub proof fn lemma_no_dt_lines_subset(data: Seq<u8>, a: int, z: int, p1: Seq<DateTime_Parse_Data>, p2: Seq<DateTime_Parse_Data>, tz: TzOffset)
    requires
        no_dt_lines(data, a, z, p1, tz),
        forall|d: DateTime_Parse_Data| p2.contains(d) ==> p1.contains(d),
    ensures
        no_dt_lines(data, a, z, p2, tz),
{
    assert forall|b: int| a <= b < z && b == line_begin(data, b) implies !#[trigger] has_dt(line_bytes_at(data, b), p2, tz) by {
        assert(!has_dt(line_bytes_at(data, b), p1, tz));
        if has_dt(line_bytes_at(data, b), p2, tz) {
            let d = choose|d: DateTime_Parse_Data| #[trigger] p2.contains(d) && dtpd_result(line_bytes_at(data, b), d, tz) is Some;
            assert(p1.contains(d));
        }
    }
}

/// Where `first_match` finds nothing, no pattern from `i` on finds a datetime.
pub proof fn lemma_first_match_none(bytes: Seq<u8>, pd: Seq<DateTime_Parse_Data>, tz: TzOffset, i: int)
    requires
        0 <= i,
        first_match(bytes, pd, tz, i) is None,
    ensures
        forall|j: int| i <= j < pd.len() ==> dtpd_result(bytes, #[trigger] pd[j], tz) is None,
    decreases pd.len() - i,
{
    if i < pd.len() {
        lemma_first_match_none(bytes, pd, tz, i + 1);
    }
}

/// `dt` lies within the span from `first` to `last`.
pub open spec fn dt_within(dt: DateTimeL, first: DateTimeL_Opt, last: DateTimeL_Opt) -> bool {
    &&& first matches Some(f) && !dt_before(dt, f)
    &&& last matches Some(l) && !dt_before(l, dt)
}

/// A span that holds `dt` widened by `x` still holds it.
pub open spec fn span_widened(f0: DateTimeL_Opt, l0: DateTimeL_Opt, f1: DateTimeL_Opt, l1: DateTimeL_Opt) -> bool {
    forall|x: DateTimeL| #[trigger] dt_within(x, f0, l0) ==> dt_within(x, f1, l1)
}

/// The lines of `sl` after its first have no datetime by the patterns `active`.
pub open spec fn tail_no_dt(sl: Sysline, active: Seq<DateTime_Parse_Data>, tz: TzOffset) -> bool {
    forall|i: int| 1 <= i < sl.lines@.len() ==> !#[trigger] has_dt(sl.lines@[i].bytes(), active, tz)
}

/// `sl` runs to the end of the file, or to a line in which a pattern finds a datetime.
pub open spec fn ends_before_dt(sl: Sysline, data: Seq<u8>, tz: TzOffset) -> bool {
    sl.spec_end() + 1 >= data.len()
        || exists|d: DateTime_Parse_Data| #[trigger] dtpd_result(line_bytes_at(data, sl.spec_end() + 1), d, tz) is Some
}

/// The datetime of `sl` is one that a built-in pattern finds in its first line.
pub open spec fn dt_by_builtin(sl: Sysline, tz: TzOffset) -> bool {
    exists|d: DateTime_Parse_Data| #[trigger] dtpd_result(sl.lines@[0].bytes(), d, tz) == sl.dt && builtin_dtpds().contains(d)
}

/// `sl` is a whole sysline: its first line has a datetime, the lines after it have
/// none by the patterns `active`, and the line after its last (if any) has one.
pub open spec fn whole_sysline(sl: Sysline, data: Seq<u8>, active: Seq<DateTime_Parse_Data>, tz: TzOffset) -> bool {
    &&& sl.ok(data, tz)
    &&& dt_by_builtin(sl, tz)
    &&& tail_no_dt(sl, active, tz)
    &&& ends_before_dt(sl, data, tz)
}

/// Lines with no datetime by some patterns have none by fewer patterns.
pub proof fn lemma_tail_within(sl: Sysline, p1: Seq<DateTime_Parse_Data>, p2: Seq<DateTime_Parse_Data>, tz: TzOffset)
    requires
        tail_no_dt(sl, p1, tz),
        patterns_within(p2, p1),
    ensures
        tail_no_dt(sl, p2, tz),
{
    assert forall|i: int| 1 <= i < sl.lines@.len() implies !#[trigger] has_dt(sl.lines@[i].bytes(), p2, tz) by {
        lemma_has_dt_subset(sl.lines@[i].bytes(), p1, p2, tz);
    }
}

/// A whole sysline by some patterns is one by fewer patterns.
pub proof fn lemma_whole_within(sl: &Sysline, data: Seq<u8>, p1: Seq<DateTime_Parse_Data>, p2: Seq<DateTime_Parse_Data>, tz: TzOffset)
    requires
        whole_sysline(*sl, data, p1, tz),
        patterns_within(p2, p1),
    ensures
        whole_sysline(*sl, data, p2, tz),
{
    assert forall|i: int| 1 <= i < sl.lines@.len() implies !#[trigger] has_dt(sl.lines@[i].bytes(), p2, tz) by {
        lemma_has_dt_subset(sl.lines@[i].bytes(), p1, p2, tz);
    }
}

/// The line that begins at `b` lies across blocks of `bsz` bytes.
pub open spec fn line_across_blocks(data: Seq<u8>, bsz: int, b: int) -> bool {
    line_end(data, b) / bsz != b / bsz
}

/// Every line of `s` lies within one block of size `bsz` (its first and last bytes are
/// in the same block).
pub open spec fn lines_within_blocks(s: Sysline, bsz: int) -> bool {
    forall|i: int| 0 <= i < s.lines@.len() ==> #[trigger] s.lines@[i].spec_begin() / bsz == s.lines@[i].spec_end() / bsz
}

/// `s` is one of the syslines stored in `m`.
pub open spec fn stored_sysline(m: Map<u64, SyslineP>, s: SyslineP) -> bool {
    exists|b: u64| #[trigger] m.contains_key(b) && m[b] == s
}

/// Why `find_sysline_in_block(fo)` can give `Done`: `fo` is at or past the end; or
/// a line from the one holding `fo` on lies across blocks; or at most one line from
/// the one holding `fo` on has a datetime by the patterns `active` (so no sysline
/// from there ends before the file does).
pub open spec fn in_block_done_ok(data: Seq<u8>, bsz: int, active: Seq<DateTime_Parse_Data>, tz: TzOffset, fo: int) -> bool {
    ||| fo >= data.len()
    ||| exists|b: int| line_begin(data, fo) <= b < data.len() && b == line_begin(data, b) && #[trigger] line_across_blocks(data, bsz, b)
    ||| exists|g: int| line_begin(data, fo) <= g <= data.len() && #[trigger] no_dt_lines(data, line_begin(data, fo), g, active, tz)
        && no_dt_lines(data, g + 1, data.len() as int, active, tz)
}

/// No line begins within a line, past its first byte.
proof fn lemma_no_line_begins_within(data: Seq<u8>, g: int)
    requires
        0 <= g < data.len(),
    ensures
        forall|b: int| g < b <= line_end(data, g) ==> b != #[trigger] line_begin(data, b),
{
    crate::linereader::lemma_line_end(data, g);
    assert forall|b: int| g < b <= line_end(data, g) implies b != #[trigger] line_begin(data, b) by {
        assert(data[b - 1] != crate::common::NLu8);
        crate::linereader::lemma_line_begin(data, b - 1);
    }
}

/// A `Done` of `find_line_in_block` while looking for the first line with a datetime.
proof fn lemma_in_block_first_done(data: Seq<u8>, bsz: int, active: Seq<DateTime_Parse_Data>, tz: TzOffset, fo: int, fo1: int, g_next: int)
    requires
        bsz > 0,
        0 <= fo,
        fo1 >= data.len()
            || line_begin(data, fo1) / bsz != fo1 / bsz
            || line_end(data, fo1) / bsz != fo1 / bsz,
        fo < data.len() ==> {
            &&& line_begin(data, fo) <= g_next <= data.len()
            &&& (fo1 == fo && g_next == line_begin(data, fo)) || (fo1 == g_next && (g_next < data.len() ==> line_begin(data, g_next) == g_next))
            &&& no_dt_lines(data, line_begin(data, fo), g_next, active, tz)
        },
        fo1 <= data.len() || fo1 == fo,
    ensures
        in_block_done_ok(data, bsz, active, tz, fo),
{
    if fo < data.len() {
        let lb = line_begin(data, fo);
        crate::linereader::lemma_line_begin(data, fo);
        if fo1 >= data.len() {
            assert(g_next == data.len());
            assert(no_dt_lines(data, g_next + 1, data.len() as int, active, tz));
        } else {
            let b = line_begin(data, fo1);
            crate::linereader::lemma_line_begin(data, fo1);
            crate::linereader::lemma_line_end(data, fo1);
            lemma_line_of_offset(data, fo1);
            assert(b == line_begin(data, b));
            vstd::arithmetic::div_mod::lemma_div_is_ordered(b, fo1, bsz);
            vstd::arithmetic::div_mod::lemma_div_is_ordered(fo1, line_end(data, fo1), bsz);
            assert(line_end(data, b) == line_end(data, fo1));
            assert(line_across_blocks(data, bsz, b));
            if fo1 == fo {
                assert(b == lb);
            } else {
                assert(b == g_next);
            }
        }
    }
}

/// A `Done` of `find_line_in_block` while looking for the lines after a sysline's first.
proof fn lemma_in_block_tail_done(data: Seq<u8>, bsz: int, active: Seq<DateTime_Parse_Data>, tz: TzOffset, fo: int, last: LineP, sl_begin: int, fo1: int)
    requires
        bsz > 0,
        line_at(data, *last),
        fo1 == last.spec_end() + 1,
        fo1 >= data.len()
            || line_begin(data, fo1) / bsz != fo1 / bsz
            || line_end(data, fo1) / bsz != fo1 / bsz,
        0 <= fo < data.len(),
        line_begin(data, fo) <= sl_begin < fo1,
        no_dt_lines(data, line_begin(data, fo), sl_begin, active, tz),
        no_dt_lines(data, sl_begin + 1, fo1, active, tz),
    ensures
        in_block_done_ok(data, bsz, active, tz, fo),
{
    crate::linereader::lemma_line_end(data, last.spec_begin());
    if fo1 >= data.len() {
        assert(fo1 == data.len());
        assert(no_dt_lines(data, line_begin(data, fo), sl_begin, active, tz));
    } else {
        assert(data[fo1 - 1] == crate::common::NLu8);
        assert(line_begin(data, fo1) == fo1);
        assert(line_across_blocks(data, bsz, fo1));
    }
}

/// The block offset of the last byte of a sysline: that of the last part of its
/// last line.
pub open spec fn sysline_last_block(sl: Sysline) -> u64 {
    sl.lines@.last().lineparts@.last().blockoffset
}

/// `drop_block(bo)` keeps the stored sysline that begins at `b`: a stored sysline
/// that begins at or before it ends in a block after `bo`.
pub open spec fn kept_by_drop(sls: Map<u64, SyslineP>, bo: u64, b: u64) -> bool {
    exists|c: u64| #[trigger] sls.contains_key(c) && c <= b && sysline_last_block(*sls[c]) > bo
}

/// What `find_sysline` gives for `fo` in a file of `data`: `Done` at or past the end;
/// a found sysline is one of the file's that ends at or after `fo`, with the offset
/// just past it, as `Found_EOF` exactly when it ends the file.
pub open spec fn sysline_result_ok(data: Seq<u8>, tz: TzOffset, fo: int, r: ResultS4_SyslineFind) -> bool {
    &&& fo >= data.len() ==> r is Done
    &&& !(r is Error)
    &&& r matches ResultS4::Found((n, slp)) ==> {
        &&& slp.ok(data, tz)
        &&& fo <= slp.spec_end()
        &&& n == slp.spec_end() + 1
        &&& n < data.len()
    }
    &&& r matches ResultS4::Found_EOF((n, slp)) ==> {
        &&& slp.ok(data, tz)
        &&& fo <= slp.spec_end()
        &&& n == slp.spec_end() + 1
        &&& n == data.len()
    }
}

/// `s` is the sysline that a search from `fo` meets first, by the patterns `active`:
/// a whole sysline that holds `fo`, or that ends after `fo` and begins with no line
/// having a datetime between the line holding `fo` and it.
pub open spec fn sysline_met_from(s: Sysline, data: Seq<u8>, active: Seq<DateTime_Parse_Data>, tz: TzOffset, fo: int) -> bool {
    &&& whole_sysline(s, data, active, tz)
    &&& fo <= s.spec_end()
    &&& (s.spec_begin() <= fo || no_dt_lines(data, line_begin(data, fo), s.spec_begin(), active, tz))
}

/// The sysline that a search from `fo` meets first is before the datetime `f`.
pub open spec fn met_first_before(data: Seq<u8>, active: Seq<DateTime_Parse_Data>, tz: TzOffset, fo: int, f: DateTimeL) -> bool {
    exists|s: Sysline| #[trigger] sysline_met_from(s, data, active, tz, fo) && dt_before(s.dt.unwrap(), f)
}

/// A search from `fo` for a sysline at or after `f` may give up: no sysline is met
/// from `fo` on, or the one met first is before `f`.
pub open spec fn filter_search_may_stop(data: Seq<u8>, active: Seq<DateTime_Parse_Data>, tz: TzOffset, fo: int, f: DateTimeL) -> bool {
    done_entry_ok(data, tz, active, fo) || met_first_before(data, active, tz, fo, f)
}

/// The sysline that a search from `fo` meets first is outside the filters.
pub open spec fn met_first_out_of_range(data: Seq<u8>, active: Seq<DateTime_Parse_Data>, tz: TzOffset, fo: int,
    after: DateTimeL_Opt, before: DateTimeL_Opt) -> bool {
    exists|s: Sysline| #[trigger] sysline_met_from(s, data, active, tz, fo)
        && spec_dt_pass_filters(s.dt.unwrap(), after, before) != Result_Filter_DateTime2::InRange
}

/// A first sysline before the "after" filter is outside the filters.
proof fn lemma_met_first_before_out_of_range(data: Seq<u8>, active: Seq<DateTime_Parse_Data>, tz: TzOffset, fo: int,
    a: DateTimeL, before: DateTimeL_Opt)
    requires
        met_first_before(data, active, tz, fo, a),
    ensures
        met_first_out_of_range(data, active, tz, fo, Some(a), before),
{
    let s = choose|s: Sysline| #[trigger] sysline_met_from(s, data, active, tz, fo) && dt_before(s.dt.unwrap(), a);
    assert(sysline_met_from(s, data, active, tz, fo));
}

/// A sysline met from `x` by some patterns is met from `x` by fewer.
proof fn lemma_met_from_within(sl: &Sysline, data: Seq<u8>, p1: Seq<DateTime_Parse_Data>, p2: Seq<DateTime_Parse_Data>, tz: TzOffset, x: int)
    requires
        sysline_met_from(*sl, data, p1, tz, x),
        patterns_within(p2, p1),
    ensures
        sysline_met_from(*sl, data, p2, tz, x),
{
    lemma_whole_within(sl, data, p1, p2, tz);
    if !(sl.spec_begin() <= x) {
        lemma_no_dt_lines_subset(data, line_begin(data, x), sl.spec_begin(), p1, p2, tz);
    }
}

/// A sysline before `f`, ending at or after `fo`, is the last of the file.
pub open spec fn last_sysline_before(data: Seq<u8>, active: Seq<DateTime_Parse_Data>, tz: TzOffset, fo: int, f: DateTimeL) -> bool {
    exists|s: Sysline| #[trigger] whole_sysline(s, data, active, tz) && fo <= s.spec_end()
        && s.spec_end() + 1 == data.len() && dt_before(s.dt.unwrap(), f)
}

/// A sysline before `f` is the one met just after a sysline that ends at or after `fo`.
pub open spec fn before_follows(data: Seq<u8>, active: Seq<DateTime_Parse_Data>, tz: TzOffset, fo: int, f: DateTimeL) -> bool {
    exists|s1: Sysline, s2: Sysline| #![trigger whole_sysline(s1, data, active, tz), sysline_met_from(s2, data, active, tz, s1.spec_end() + 1)]
        whole_sysline(s1, data, active, tz) && fo <= s1.spec_end()
        && sysline_met_from(s2, data, active, tz, s1.spec_end() + 1) && dt_before(s2.dt.unwrap(), f)
}

/// The syslines from `fo` on are not in order about `f`: one at or after `f` begins
/// no later than the end of one before `f`, or two syslines met from the same offset
/// fall on either side of `f`.
pub open spec fn filter_order_broken(data: Seq<u8>, active: Seq<DateTime_Parse_Data>, tz: TzOffset, fo: int, f: DateTimeL) -> bool {
    ||| exists|s1: Sysline, s2: Sysline| #![trigger whole_sysline(s1, data, active, tz), whole_sysline(s2, data, active, tz)]
        whole_sysline(s1, data, active, tz) && whole_sysline(s2, data, active, tz)
        && fo <= s1.spec_end() && fo <= s2.spec_end()
        && dt_before(s1.dt.unwrap(), f) && !dt_before(s2.dt.unwrap(), f) && s2.spec_begin() <= s1.spec_end()
    ||| exists|x: int, s1: Sysline, s2: Sysline| #![trigger sysline_met_from(s1, data, active, tz, x), sysline_met_from(s2, data, active, tz, x)]
        fo <= x && sysline_met_from(s1, data, active, tz, x) && sysline_met_from(s2, data, active, tz, x)
        && dt_before(s1.dt.unwrap(), f) && !dt_before(s2.dt.unwrap(), f)
}

/// Why a search from `fo` for a sysline at or after `f` can end without one: no line
/// from `fo` on, or from some offset at or after `fo` on, has a datetime; the last
/// sysline is before `f`; a sysline before `f` follows one from `fo` on; or the
/// syslines from `fo` on are not in order about `f`.
pub open spec fn filter_search_gave_up(data: Seq<u8>, active: Seq<DateTime_Parse_Data>, tz: TzOffset, fo: int, f: DateTimeL) -> bool {
    ||| done_entry_ok(data, tz, active, fo)
    ||| exists|t: int| fo <= t < data.len() && #[trigger] done_entry_ok(data, tz, active, t)
    ||| last_sysline_before(data, active, tz, fo, f)
    ||| before_follows(data, active, tz, fo, f)
    ||| filter_order_broken(data, active, tz, fo, f)
}

/// What a search gave up on for some patterns holds for fewer.
proof fn lemma_gave_up_within(data: Seq<u8>, p1: Seq<DateTime_Parse_Data>, p2: Seq<DateTime_Parse_Data>, tz: TzOffset, fo: int, f: DateTimeL)
    requires
        filter_search_gave_up(data, p1, tz, fo, f),
        patterns_within(p2, p1),
    ensures
        filter_search_gave_up(data, p2, tz, fo, f),
{
    if done_entry_ok(data, tz, p1, fo) {
        lemma_done_entry_within(data, tz, p1, p2, fo);
    } else if exists|t: int| fo <= t < data.len() && #[trigger] done_entry_ok(data, tz, p1, t) {
        let t = choose|t: int| fo <= t < data.len() && #[trigger] done_entry_ok(data, tz, p1, t);
        lemma_done_entry_within(data, tz, p1, p2, t);
    } else if last_sysline_before(data, p1, tz, fo, f) {
        let s = choose|s: Sysline| #[trigger] whole_sysline(s, data, p1, tz) && fo <= s.spec_end()
            && s.spec_end() + 1 == data.len() && dt_before(s.dt.unwrap(), f);
        lemma_whole_within(&s, data, p1, p2, tz);
        assert(last_sysline_before(data, p2, tz, fo, f));
    } else if before_follows(data, p1, tz, fo, f) {
        let (s1, s2) = choose|s1: Sysline, s2: Sysline| #![trigger whole_sysline(s1, data, p1, tz), sysline_met_from(s2, data, p1, tz, s1.spec_end() + 1)]
            whole_sysline(s1, data, p1, tz) && fo <= s1.spec_end()
            && sysline_met_from(s2, data, p1, tz, s1.spec_end() + 1) && dt_before(s2.dt.unwrap(), f);
        lemma_whole_within(&s1, data, p1, p2, tz);
        lemma_met_from_within(&s2, data, p1, p2, tz, s1.spec_end() + 1);
        assert(before_follows(data, p2, tz, fo, f));
    } else {
        if exists|s1: Sysline, s2: Sysline| #![trigger whole_sysline(s1, data, p1, tz), whole_sysline(s2, data, p1, tz)]
            whole_sysline(s1, data, p1, tz) && whole_sysline(s2, data, p1, tz)
            && fo <= s1.spec_end() && fo <= s2.spec_end()
            && dt_before(s1.dt.unwrap(), f) && !dt_before(s2.dt.unwrap(), f) && s2.spec_begin() <= s1.spec_end() {
            let (s1, s2) = choose|s1: Sysline, s2: Sysline| #![trigger whole_sysline(s1, data, p1, tz), whole_sysline(s2, data, p1, tz)]
                whole_sysline(s1, data, p1, tz) && whole_sysline(s2, data, p1, tz)
                && fo <= s1.spec_end() && fo <= s2.spec_end()
                && dt_before(s1.dt.unwrap(), f) && !dt_before(s2.dt.unwrap(), f) && s2.spec_begin() <= s1.spec_end();
            lemma_whole_within(&s1, data, p1, p2, tz);
            lemma_whole_within(&s2, data, p1, p2, tz);
            assert(filter_order_broken(data, p2, tz, fo, f));
        } else {
            let (x, s1, s2) = choose|x: int, s1: Sysline, s2: Sysline| #![trigger sysline_met_from(s1, data, p1, tz, x), sysline_met_from(s2, data, p1, tz, x)]
                fo <= x && sysline_met_from(s1, data, p1, tz, x) && sysline_met_from(s2, data, p1, tz, x)
                && dt_before(s1.dt.unwrap(), f) && !dt_before(s2.dt.unwrap(), f);
            lemma_met_from_within(&s1, data, p1, p2, tz, x);
            lemma_met_from_within(&s2, data, p1, p2, tz, x);
            assert(filter_order_broken(data, p2, tz, fo, f));
        }
    }
}

/// A whole sysline ends after it begins: a built-in pattern finds its datetime in its
/// first line, which therefore holds at least two bytes.
proof fn lemma_whole_not_one_byte(sl: &Sysline, data: Seq<u8>, active: Seq<DateTime_Parse_Data>, tz: TzOffset)
    requires
        whole_sysline(*sl, data, active, tz),
    ensures
        sl.spec_begin() < sl.spec_end(),
{
    sl.lemma_span(data, tz);
    crate::datetime::lemma_builtin_sie();
    let d = choose|d: DateTime_Parse_Data| #[trigger] dtpd_result(sl.lines@[0].bytes(), d, tz) == sl.dt && builtin_dtpds().contains(d);
    assert(line_at(data, *sl.lines@[0]));
    assert(sl.lines@[0].bytes().len() >= d.sie);
}

/// The sysline a pointer points to.
pub open spec fn sysline_value(p: &SyslineP) -> Sysline {
    **p
}

/// A sysline that ends at or after `fo` is later than the "before" filter.
pub open spec fn sysline_past_before(data: Seq<u8>, active: Seq<DateTime_Parse_Data>, tz: TzOffset, fo: int, before: DateTimeL_Opt) -> bool {
    before is Some && exists|s: Sysline| #[trigger] whole_sysline(s, data, active, tz) && fo <= s.spec_end()
        && dt_before(before->0, s.dt.unwrap())
}

/// Why a search from `fo` for a sysline between the filters can end without one: no
/// line from `fo` on has a datetime; the search for the "after" filter gave up
/// (`filter_search_gave_up`); or a sysline from `fo` on is later than the "before"
/// filter.
pub open spec fn between_search_gave_up(data: Seq<u8>, active: Seq<DateTime_Parse_Data>, tz: TzOffset, fo: int,
    after: DateTimeL_Opt, before: DateTimeL_Opt) -> bool {
    ||| done_entry_ok(data, tz, active, fo)
    ||| (after is Some && filter_search_gave_up(data, active, tz, fo, after->0))
    ||| sysline_past_before(data, active, tz, fo, before)
}

/// What holds of a search's start for some patterns holds for fewer.
proof fn lemma_filter_search_may_stop_within(data: Seq<u8>, p1: Seq<DateTime_Parse_Data>, p2: Seq<DateTime_Parse_Data>, tz: TzOffset, fo: int, f: DateTimeL)
    requires
        filter_search_may_stop(data, p1, tz, fo, f),
        patterns_within(p2, p1),
    ensures
        filter_search_may_stop(data, p2, tz, fo, f),
{
    if done_entry_ok(data, tz, p1, fo) {
        lemma_done_entry_within(data, tz, p1, p2, fo);
    } else {
        let s = choose|s: Sysline| #[trigger] sysline_met_from(s, data, p1, tz, fo) && dt_before(s.dt.unwrap(), f);
        lemma_whole_within(&s, data, p1, p2, tz);
        if !(s.spec_begin() <= fo) {
            lemma_no_dt_lines_subset(data, line_begin(data, fo), s.spec_begin(), p1, p2, tz);
        }
        assert(sysline_met_from(s, data, p2, tz, fo));
    }
}

/// Where no sysline is met from `fo` on, a whole sysline that ends after `fo` is the
/// one met first.
proof fn lemma_met_from_after_done(s: &Sysline, data: Seq<u8>, active: Seq<DateTime_Parse_Data>, tz: TzOffset, fo: int)
    requires
        done_entry_ok(data, tz, active, fo),
        whole_sysline(*s, data, active, tz),
        0 <= fo <= s.spec_end(),
        s.spec_begin() <= s.spec_end() < data.len(),
    ensures
        sysline_met_from(*s, data, active, tz, fo),
{
    if !(s.spec_begin() <= fo) {
        assert forall|b: int| line_begin(data, fo) <= b < s.spec_begin() && b == line_begin(data, b)
            implies !#[trigger] has_dt(line_bytes_at(data, b), active, tz) by {
            assert(line_begin(data, fo) <= b < data.len());
        }
    }
}

/// The bytes that `get_boxptrs` hands out, copied into one `Vec`.
fn boxptrs_to_vec(e: enum_BoxPtrs) -> (r: Vec<u8>)
    ensures
        r@ == boxptrs_bytes(e),
{
    match e {
        enum_BoxPtrs::SinglePtr(b) => {
            let mut v: Vec<u8> = Vec::new();
            v.extend_from_slice(*b);
            proof {
                assert(v@ =~= (*b)@);
            }
            v
        },
        enum_BoxPtrs::MultiPtr(bs) => {
            let mut v: Vec<u8> = Vec::new();
            let mut i: usize = 0;
            while i < bs.len()
                invariant
                    i <= bs@.len(),
                    v@ == boxes_bytes(bs@.take(i as int)),
                decreases bs@.len() - i,
            {
                proof {
                    assert(bs@.take(i + 1).drop_last() =~= bs@.take(i as int));
                }
                v.extend_from_slice(*bs[i]);
                i += 1;
            }
            proof {
                assert(bs@.take(bs@.len() as int) =~= bs@);
            }
            v
        },
    }
}

/// Reads syslines of a file, by the lines of a `LineReader`.
pub struct SyslineReader {
    pub linereader: LineReader,
    /// syslines found, by the offset at which each begins
    pub syslines: Syslines,
    syslines_count: Count,
    pub syslines_hit: Count,
    pub syslines_miss: Count,
    /// for each offset of a stored sysline, the offset at which it begins
    syslines_by_range: FoRangeMap,
    pub syslines_by_range_hit: Count,
    pub syslines_by_range_miss: Count,
    pub syslines_by_range_put: Count,
    /// the patterns tried first (narrowed to one once enough syslines were found)
    pub dt_patterns: DateTime_Parse_Datas_vec,
    /// the built-in patterns
    dt_patterns_builtin: DateTime_Parse_Datas_vec,
    /// earliest datetime found
    pub dt_first: DateTimeL_Opt,
    /// latest datetime found
    pub dt_last: DateTimeL_Opt,
    dt_patterns_counts: Vec<(DateTime_Parse_Data, Count)>,
    tz_offset: TzOffset,
    find_sysline_lru_cache_enabled: bool,
    find_sysline_lru_cache: FindLRUCache,
    pub find_sysline_lru_cache_hit: Count,
    pub find_sysline_lru_cache_miss: Count,
    pub find_sysline_lru_cache_put: Count,
    parse_datetime_in_line_lru_cache_enabled: bool,
    parse_datetime_in_line_lru_cache: ParseLRUCache,
    pub parse_datetime_in_line_lru_cache_hit: Count,
    pub parse_datetime_in_line_lru_cache_miss: Count,
    pub parse_datetime_in_line_lru_cache_put: Count,
    analyzed: bool,
    pub drop_sysline_ok: Count,
    pub drop_sysline_errors: Count,
}

/// Are two pattern datas the same?
pub open spec fn dtpd_same(a: DateTime_Parse_Data, b: DateTime_Parse_Data) -> bool {
    a.pattern@ == b.pattern@ && a.year == b.year && a.tz == b.tz && a.sib == b.sib
        && a.sie == b.sie && a.siba == b.siba && a.siea == b.siea
}

/// Entry `k` of `counts` is the first one for a pattern the same as `d`.
pub open spec fn first_count_of(counts: Seq<(DateTime_Parse_Data, Count)>, d: DateTime_Parse_Data, k: int) -> bool {
    &&& 0 <= k < counts.len()
    &&& dtpd_same(counts[k].0, d)
    &&& forall|j: int| 0 <= j < k ==> !dtpd_same(#[trigger] counts[j].0, d)
}

/// No entry of `counts` is for a pattern the same as `d`.
pub open spec fn no_count_of(counts: Seq<(DateTime_Parse_Data, Count)>, d: DateTime_Parse_Data) -> bool {
    forall|j: int| 0 <= j < counts.len() ==> !dtpd_same(#[trigger] counts[j].0, d)
}

/// The greatest count in `counts` (0 where there is none).
pub open spec fn max_count(counts: Seq<(DateTime_Parse_Data, Count)>) -> Count
    decreases counts.len(),
{
    if counts.len() == 0 {
        0
    } else if counts.last().1 > max_count(counts.drop_last()) {
        counts.last().1
    } else {
        max_count(counts.drop_last())
    }
}

/// The first entry of `counts` for `d` has a count of at least `m`.
pub open spec fn counted_at_least(counts: Seq<(DateTime_Parse_Data, Count)>, d: DateTime_Parse_Data, m: Count) -> bool {
    exists|k: int| #[trigger] first_count_of(counts, d, k) && counts[k].1 >= m
}

/// The pattern `dt_patterns_most_counted` chooses: the first of `pats` whose count
/// is the greatest count.
pub open spec fn most_counted(pats: Seq<DateTime_Parse_Data>, counts: Seq<(DateTime_Parse_Data, Count)>, j: int) -> bool {
    &&& 0 <= j < pats.len()
    &&& counted_at_least(counts, pats[j], max_count(counts))
    &&& forall|i: int| 0 <= i < j ==> !counted_at_least(counts, #[trigger] pats[i], max_count(counts))
}

/// The first entry of the counts for a pattern is unique.
proof fn lemma_first_count_unique(counts: Seq<(DateTime_Parse_Data, Count)>, d: DateTime_Parse_Data, k1: int, k2: int)
    requires
        first_count_of(counts, d, k1),
        first_count_of(counts, d, k2),
    ensures
        k1 == k2,
{
    if k1 < k2 {
        assert(!dtpd_same(counts[k1].0, d));
    } else if k2 < k1 {
        assert(!dtpd_same(counts[k2].0, d));
    }
}

/// The counts after `d` was counted once more: its first entry's count is raised
/// by one (saturating), or, where it has none, an entry with count 1 is added while
/// fewer than `DT_PATTERN_MAX_PRE_ANALYSIS` entries are there.
pub open spec fn counts_bumped(counts: Seq<(DateTime_Parse_Data, Count)>, d: DateTime_Parse_Data) -> Seq<(DateTime_Parse_Data, Count)> {
    if exists|k: int| first_count_of(counts, d, k) {
        let k = choose|k: int| first_count_of(counts, d, k);
        counts.update(k, (counts[k].0, crate::blockreader::sat_add(counts[k].1, 1)))
    } else if counts.len() < DT_PATTERN_MAX_PRE_ANALYSIS {
        counts.push((d, 1u64))
    } else {
        counts
    }
}

/// The patterns tried first after `d` found a datetime: `d` is added where it is not
/// among them and fewer than `DT_PATTERN_MAX_PRE_ANALYSIS` are there.
pub open spec fn patterns_added(pats: Seq<DateTime_Parse_Data>, d: DateTime_Parse_Data) -> Seq<DateTime_Parse_Data> {
    if pats.len() < DT_PATTERN_MAX_PRE_ANALYSIS && !(exists|j: int| 0 <= j < pats.len() && dtpd_same(#[trigger] pats[j], d)) {
        pats.push(d)
    } else {
        pats
    }
}

/// Are two pattern datas the same?
fn dtpd_eq(a: &DateTime_Parse_Data, b: &DateTime_Parse_Data) -> (r: bool)
    ensures
        r == dtpd_same(*a, *b),
{
    a.year == b.year && a.tz == b.tz && a.sib == b.sib && a.sie == b.sie && a.siba == b.siba
        && a.siea == b.siea && crate::blockreader::str_eq(a.pattern, b.pattern)
}

impl SyslineReader {
    /// The file's contents.
    pub closed spec fn data(&self) -> Seq<u8> {
        self.linereader.data()
    }

    /// The offset from UTC in which datetimes without a timezone are read.
    pub closed spec fn spec_tz(&self) -> TzOffset {
        self.tz_offset
    }

    /// The stored syslines.
    pub closed spec fn spec_syslines(&self) -> Map<u64, SyslineP> {
        self.syslines@
    }

    /// The block size.
    pub closed spec fn spec_blocksz(&self) -> int {
        self.linereader.spec_blocksz()
    }

    /// Count of the bytes stored by the block reader's reads.
    pub closed spec fn spec_count_bytes(&self) -> u64 {
        self.linereader.spec_count_bytes()
    }

    /// Count of the blocks read by the block reader.
    pub closed spec fn spec_count_blocks_read(&self) -> int {
        self.linereader.spec_count_blocks_read()
    }

    /// The file type.
    pub closed spec fn spec_filetype(&self) -> FileType {
        self.linereader.spec_filetype()
    }

    /// The file's path.
    pub closed spec fn spec_path(&self) -> FPath {
        self.linereader.spec_path()
    }

    /// The MIME types guessed from the file's path.
    pub closed spec fn spec_mimeguess(&self) -> Seq<Seq<char>> {
        self.linereader.spec_mimeguess()
    }

    /// The count of lines found.
    pub closed spec fn spec_lines_count(&self) -> int {
        self.linereader.spec_count()
    }

    /// The count of syslines found.
    pub closed spec fn spec_count(&self) -> int {
        self.syslines_count as int
    }

    /// What a well-formed reader's sizes are.
    pub proof fn lemma_wf(&self)
        requires
            self.wf(),
        ensures
            crate::blockreader::BLOCKSZ_MIN <= self.spec_blocksz() <= crate::blockreader::BLOCKSZ_MAX,
            self.data().len() < 0x4000_0000_0000_0000,
            self.data().len() <= usize::MAX,
            tz_offset_ok(self.spec_tz()),
    {
        self.linereader.lemma_wf();
    }

    /// The stores of `a` and `b` are the same: only the datetime patterns and spans differ.
    pub closed spec fn same_store(a: &Self, b: &Self) -> bool {
        &&& a.linereader == b.linereader
        &&& a.syslines == b.syslines
        &&& a.syslines_count == b.syslines_count
        &&& a.syslines_by_range == b.syslines_by_range
        &&& a.tz_offset == b.tz_offset
        &&& a.dt_patterns_builtin == b.dt_patterns_builtin
        &&& a.parse_datetime_in_line_lru_cache == b.parse_datetime_in_line_lru_cache
        &&& a.parse_datetime_in_line_lru_cache_enabled == b.parse_datetime_in_line_lru_cache_enabled
        &&& a.find_sysline_lru_cache == b.find_sysline_lru_cache
        &&& a.find_sysline_lru_cache_enabled == b.find_sysline_lru_cache_enabled
    }

    /// Well-formed: the stored syslines and cached parses are those of the file.
    pub closed spec fn wf(&self) -> bool {
        &&& self.linereader.wf()
        &&& tz_offset_ok(self.tz_offset)
        &&& self.dt_patterns_builtin@ == builtin_dtpds()
        &&& forall|b: u64| #[trigger] self.syslines@.contains_key(b) ==> {
            &&& whole_sysline(*self.syslines@[b], self.linereader.data(),
                active_patterns(self.analyzed, self.dt_patterns@, self.dt_patterns_builtin@), self.tz_offset)
            &&& self.syslines@[b].spec_begin() == b
        }
        &&& forall|b: u64| #[trigger] parse_cache_contents(self.parse_datetime_in_line_lru_cache).contains_key(b) ==>
            parse_entry_ok(self.linereader.data(), self.tz_offset,
                active_patterns(self.analyzed, self.dt_patterns@, self.dt_patterns_builtin@),
                b as int, parse_cache_contents(self.parse_datetime_in_line_lru_cache)[b])
        &&& forall|b: u64| #[trigger] self.syslines@.contains_key(b) ==>
            dt_within(self.syslines@[b].dt.unwrap(), self.dt_first, self.dt_last)
        &&& forall|b: u64| #[trigger] parse_cache_contents(self.parse_datetime_in_line_lru_cache).contains_key(b)
            && parse_cache_contents(self.parse_datetime_in_line_lru_cache)[b].0 == 1 ==>
            dt_within(dt_of((parse_cache_contents(self.parse_datetime_in_line_lru_cache)[b].3,
                parse_cache_contents(self.parse_datetime_in_line_lru_cache)[b].4,
                parse_cache_contents(self.parse_datetime_in_line_lru_cache)[b].5)), self.dt_first, self.dt_last)
        &&& forall|d: DateTime_Parse_Data| #[trigger] self.dt_patterns@.contains(d) ==> self.dt_patterns_builtin@.contains(d)
        &&& forall|k: u64| #[trigger] find_cache_contents(self.find_sysline_lru_cache).contains_key(k)
            && find_cache_contents(self.find_sysline_lru_cache)[k].0 == FIND_DONE ==>
            done_entry_ok(self.linereader.data(), self.tz_offset,
                active_patterns(self.analyzed, self.dt_patterns@, self.dt_patterns_builtin@), k as int)
    }

    /// The patterns with which a line's datetime is looked for (`active_patterns`).
    pub closed spec fn spec_active(&self) -> Seq<DateTime_Parse_Data> {
        active_patterns(self.analyzed, self.dt_patterns@, self.dt_patterns_builtin@)
    }

    /// A reader of the syslines of a file (see `BlockReader::new`); datetimes without
    /// a timezone are read in `tz_offset` (seconds east of UTC).
    pub fn new(path: FPath, filetype: FileType, blocksz: BlockSz, tz_offset: TzOffset, file_bytes: Vec<u8>, mtime: u64) -> (r: Result<SyslineReader, Error>)
        requires
            crate::blockreader::BLOCKSZ_MIN <= blocksz <= crate::blockreader::BLOCKSZ_MAX,
            file_bytes@.len() < 0x4000_0000_0000_0000,
            tz_offset_ok(tz_offset),
        ensures
            match r {
                Ok(slr) => {
                    &&& slr.wf()
                    &&& slr.spec_blocksz() == blocksz
                    &&& slr.spec_tz() == tz_offset
                    &&& slr.spec_syslines().len() == 0
                    &&& file_contents(filetype, path@, file_bytes@) == Some(slr.data())
                    &&& filetype == FileType::File ==> slr.data() == file_bytes@
                },
                Err(_) => filetype != FileType::File,
            },
            r is Ok <==> file_contents(filetype, path@, file_bytes@) is Some,
    {
        let lr = match LineReader::new(path, filetype, blocksz, file_bytes, mtime) {
            Ok(val) => val,
            Err(err) => {
                return Err(err);
            },
        };
        Ok(SyslineReader {
            linereader: lr,
            syslines: BTreeMap::new(),
            syslines_count: 0,
            syslines_hit: 0,
            syslines_miss: 0,
            syslines_by_range: rangemap_new(),
            syslines_by_range_hit: 0,
            syslines_by_range_miss: 0,
            syslines_by_range_put: 0,
            dt_patterns: Vec::new(),
            dt_patterns_builtin: DATETIME_PARSE_DATAS_VEC(),
            dt_first: None,
            dt_last: None,
            dt_patterns_counts: Vec::new(),
            tz_offset,
            find_sysline_lru_cache_enabled: true,
            find_sysline_lru_cache: find_cache_new(FIND_SYSLINE_LRU_CACHE_SZ),
            find_sysline_lru_cache_hit: 0,
            find_sysline_lru_cache_miss: 0,
            find_sysline_lru_cache_put: 0,
            parse_datetime_in_line_lru_cache_enabled: true,
            parse_datetime_in_line_lru_cache: parse_cache_new(PARSE_DATETIME_IN_LINE_LRU_CACHE_SZ),
            parse_datetime_in_line_lru_cache_hit: 0,
            parse_datetime_in_line_lru_cache_miss: 0,
            parse_datetime_in_line_lru_cache_put: 0,
            analyzed: false,
            drop_sysline_ok: 0,
            drop_sysline_errors: 0,
        })
    }

    /// The file type.
    pub fn filetype(&self) -> (r: FileType)
        ensures
            r == self.spec_filetype(),
    {
        self.linereader.filetype()
    }

    /// The block size.
    pub fn blocksz(&self) -> (r: BlockSz)
        ensures
            r == self.spec_blocksz(),
    {
        self.linereader.blocksz()
    }

    /// The file size.
    pub fn filesz(&self) -> (r: FileSz)
        requires
            self.wf(),
        ensures
            r == self.data().len(),
    {
        self.linereader.filesz()
    }

    /// The MIME types guessed from the file's path.
    pub fn mimeguess(&self) -> (r: crate::blockreader::MimeGuess)
        ensures
            r.types@.map_values(|t: String| t@) == self.spec_mimeguess(),
    {
        self.linereader.mimeguess()
    }

    /// The file's path.
    pub fn path(&self) -> (r: &FPath)
        ensures
            *r == self.spec_path(),
    {
        self.linereader.path()
    }

    /// The block offset at a file offset.
    pub fn block_offset_at_file_offset(&self, fileoffset: FileOffset) -> (r: BlockOffset)
        requires
            self.wf(),
        ensures
            r == fileoffset as int / self.spec_blocksz(),
    {
        self.linereader.block_offset_at_file_offset(fileoffset)
    }

    /// The file offset at which a block begins.
    pub fn file_offset_at_block_offset(&self, blockoffset: BlockOffset) -> (r: FileOffset)
        requires
            blockoffset * self.spec_blocksz() <= u64::MAX,
        ensures
            r == blockoffset * self.spec_blocksz(),
    {
        self.linereader.file_offset_at_block_offset(blockoffset)
    }

    /// The file offset of an index within a block.
    pub fn file_offset_at_block_offset_index(&self, blockoffset: BlockOffset, blockindex: BlockIndex) -> (r: FileOffset)
        requires
            blockoffset * self.spec_blocksz() + blockindex <= u64::MAX,
        ensures
            r == blockoffset * self.spec_blocksz() + blockindex,
    {
        self.linereader.file_offset_at_block_offset_index(blockoffset, blockindex)
    }

    /// The index within its block of a file offset.
    pub fn block_index_at_file_offset(&self, fileoffset: FileOffset) -> (r: BlockIndex)
        requires
            self.wf(),
        ensures
            r == fileoffset as int % self.spec_blocksz(),
    {
        self.linereader.block_index_at_file_offset(fileoffset)
    }

    /// The count of blocks of the file.
    pub fn count_blocks(&self) -> (r: Count)
        requires
            self.wf(),
        ensures
            r == crate::blockreader::spec_count_blocks(self.data().len() as int, self.spec_blocksz()),
    {
        self.linereader.file_blocks_count()
    }

    /// The last block offset of the file.
    pub fn blockoffset_last(&self) -> (r: BlockOffset)
        requires
            self.wf(),
        ensures
            r == crate::blockreader::spec_blockoffset_last(self.data().len() as int, self.spec_blocksz()),
    {
        self.linereader.blockoffset_last()
    }

    /// The char size in bytes.
    pub fn charsz(&self) -> (r: usize)
        requires
            self.wf(),
        ensures
            r == 1,
    {
        self.linereader.charsz()
    }

    /// The count of syslines found.
    pub fn count_syslines_processed(&self) -> (r: Count)
        ensures
            r == self.spec_count(),
    {
        self.syslines_count
    }

    /// The count of syslines stored.
    pub fn count_syslines_stored(&self) -> (r: Count)
        ensures
            r == self.spec_syslines().len(),
    {
        self.syslines.len() as Count
    }

    /// Reads block `blockoffset` of the file (`BlockReader::read_block`).
    pub fn read_block(&mut self, blockoffset: BlockOffset) -> (r: ResultS3_ReadBlock)
        requires
            old(self).wf(),
        ensures
            final(self).wf(),
            final(self).data() == old(self).data(),
            final(self).spec_tz() == old(self).spec_tz(),
            final(self).spec_blocksz() == old(self).spec_blocksz(),
            final(self).spec_syslines() == old(self).spec_syslines(),
            final(self).spec_count() == old(self).spec_count(),
            final(self).spec_lines_count() == old(self).spec_lines_count(),
            r is Done <==> blockoffset * old(self).spec_blocksz() >= old(self).data().len(),
            r matches ResultS3::Found(bp) ==> bp@ == block_bytes(old(self).data(), blockoffset as int, old(self).spec_blocksz()),
            !(r is Error),
    {
        self.linereader.read_block(blockoffset)
    }

    /// Finds the line holding `fileoffset` (`LineReader::find_line_in_block`).
    pub fn find_line_in_block(&mut self, fileoffset: FileOffset) -> (r: ResultS4_LineFind)
        requires
            old(self).wf(),
        ensures
            final(self).wf(),
            final(self).data() == old(self).data(),
            final(self).spec_tz() == old(self).spec_tz(),
            final(self).spec_blocksz() == old(self).spec_blocksz(),
            final(self).spec_syslines() == old(self).spec_syslines(),
            final(self).spec_count() == old(self).spec_count(),
            r is Done <==> (fileoffset >= old(self).data().len()
                || line_begin(old(self).data(), fileoffset as int) / old(self).spec_blocksz() != fileoffset as int / old(self).spec_blocksz()
                || line_end(old(self).data(), fileoffset as int) / old(self).spec_blocksz() != fileoffset as int / old(self).spec_blocksz()),
            !(r is Done) ==> find_line_result(old(self).data(), fileoffset as int, r),
    {
        self.linereader.find_line_in_block(fileoffset)
    }

    /// The use counts of the datetime patterns tried.
    pub closed spec fn spec_dt_patterns_counts(&self) -> Seq<(DateTime_Parse_Data, Count)> {
        self.dt_patterns_counts@
    }

    /// The use counts of the datetime patterns tried.
    pub fn dt_patterns_counts(&self) -> (r: &Vec<(DateTime_Parse_Data, Count)>)
        ensures
            r@ == self.spec_dt_patterns_counts(),
    {
        &self.dt_patterns_counts
    }

    /// The counter `syslines_hit`.
    pub closed spec fn spec_syslines_hit(&self) -> Count {
        self.syslines_hit
    }

    /// The counter `syslines_hit`.
    pub fn syslines_hit(&self) -> (r: Count)
        ensures
            r == self.spec_syslines_hit(),
    {
        self.syslines_hit
    }

    /// The counter `syslines_miss`.
    pub closed spec fn spec_syslines_miss(&self) -> Count {
        self.syslines_miss
    }

    /// The counter `syslines_miss`.
    pub fn syslines_miss(&self) -> (r: Count)
        ensures
            r == self.spec_syslines_miss(),
    {
        self.syslines_miss
    }

    /// The counter `syslines_by_range_hit`.
    pub closed spec fn spec_syslines_by_range_hit(&self) -> Count {
        self.syslines_by_range_hit
    }

    /// The counter `syslines_by_range_hit`.
    pub fn syslines_by_range_hit(&self) -> (r: Count)
        ensures
            r == self.spec_syslines_by_range_hit(),
    {
        self.syslines_by_range_hit
    }

    /// The counter `syslines_by_range_miss`.
    pub closed spec fn spec_syslines_by_range_miss(&self) -> Count {
        self.syslines_by_range_miss
    }

    /// The counter `syslines_by_range_miss`.
    pub fn syslines_by_range_miss(&self) -> (r: Count)
        ensures
            r == self.spec_syslines_by_range_miss(),
    {
        self.syslines_by_range_miss
    }

    /// The counter `syslines_by_range_put`.
    pub closed spec fn spec_syslines_by_range_put(&self) -> Count {
        self.syslines_by_range_put
    }

    /// The counter `syslines_by_range_put`.
    pub fn syslines_by_range_put(&self) -> (r: Count)
        ensures
            r == self.spec_syslines_by_range_put(),
    {
        self.syslines_by_range_put
    }

    /// The counter `find_sysline_lru_cache_hit`.
    pub closed spec fn spec_find_sysline_lru_cache_hit(&self) -> Count {
        self.find_sysline_lru_cache_hit
    }

    /// The counter `find_sysline_lru_cache_hit`.
    pub fn find_sysline_lru_cache_hit(&self) -> (r: Count)
        ensures
            r == self.spec_find_sysline_lru_cache_hit(),
    {
        self.find_sysline_lru_cache_hit
    }

    /// The counter `find_sysline_lru_cache_miss`.
    pub closed spec fn spec_find_sysline_lru_cache_miss(&self) -> Count {
        self.find_sysline_lru_cache_miss
    }

    /// The counter `find_sysline_lru_cache_miss`.
    pub fn find_sysline_lru_cache_miss(&self) -> (r: Count)
        ensures
            r == self.spec_find_sysline_lru_cache_miss(),
    {
        self.find_sysline_lru_cache_miss
    }

    /// The counter `find_sysline_lru_cache_put`.
    pub closed spec fn spec_find_sysline_lru_cache_put(&self) -> Count {
        self.find_sysline_lru_cache_put
    }

    /// The counter `find_sysline_lru_cache_put`.
    pub fn find_sysline_lru_cache_put(&self) -> (r: Count)
        ensures
            r == self.spec_find_sysline_lru_cache_put(),
    {
        self.find_sysline_lru_cache_put
    }

    /// The counter `parse_datetime_in_line_lru_cache_hit`.
    pub closed spec fn spec_parse_datetime_in_line_lru_cache_hit(&self) -> Count {
        self.parse_datetime_in_line_lru_cache_hit
    }

    /// The counter `parse_datetime_in_line_lru_cache_hit`.
    pub fn parse_datetime_in_line_lru_cache_hit(&self) -> (r: Count)
        ensures
            r == self.spec_parse_datetime_in_line_lru_cache_hit(),
    {
        self.parse_datetime_in_line_lru_cache_hit
    }

    /// The counter `parse_datetime_in_line_lru_cache_miss`.
    pub closed spec fn spec_parse_datetime_in_line_lru_cache_miss(&self) -> Count {
        self.parse_datetime_in_line_lru_cache_miss
    }

    /// The counter `parse_datetime_in_line_lru_cache_miss`.
    pub fn parse_datetime_in_line_lru_cache_miss(&self) -> (r: Count)
        ensures
            r == self.spec_parse_datetime_in_line_lru_cache_miss(),
    {
        self.parse_datetime_in_line_lru_cache_miss
    }

    /// The counter `parse_datetime_in_line_lru_cache_put`.
    pub closed spec fn spec_parse_datetime_in_line_lru_cache_put(&self) -> Count {
        self.parse_datetime_in_line_lru_cache_put
    }

    /// The counter `parse_datetime_in_line_lru_cache_put`.
    pub fn parse_datetime_in_line_lru_cache_put(&self) -> (r: Count)
        ensures
            r == self.spec_parse_datetime_in_line_lru_cache_put(),
    {
        self.parse_datetime_in_line_lru_cache_put
    }

    /// The counter `drop_sysline_ok`.
    pub closed spec fn spec_drop_sysline_ok(&self) -> Count {
        self.drop_sysline_ok
    }

    /// The counter `drop_sysline_ok`.
    pub fn drop_sysline_ok(&self) -> (r: Count)
        ensures
            r == self.spec_drop_sysline_ok(),
    {
        self.drop_sysline_ok
    }

    /// The counter `drop_sysline_errors`.
    pub closed spec fn spec_drop_sysline_errors(&self) -> Count {
        self.drop_sysline_errors
    }

    /// The counter `drop_sysline_errors`.
    pub fn drop_sysline_errors(&self) -> (r: Count)
        ensures
            r == self.spec_drop_sysline_errors(),
    {
        self.drop_sysline_errors
    }

    /// The earliest datetime found so far.
    pub closed spec fn spec_dt_first(&self) -> DateTimeL_Opt {
        self.dt_first
    }

    /// The latest datetime found so far.
    pub closed spec fn spec_dt_last(&self) -> DateTimeL_Opt {
        self.dt_last
    }

    /// The earliest datetime found so far.
    pub fn dt_first(&self) -> (r: DateTimeL_Opt)
        ensures
            r == self.spec_dt_first(),
    {
        self.dt_first
    }

    /// The latest datetime found so far.
    pub fn dt_last(&self) -> (r: DateTimeL_Opt)
        ensures
            r == self.spec_dt_last(),
    {
        self.dt_last
    }

    /// The line reader, as a value.
    pub closed spec fn spec_linereader(&self) -> LineReader {
        self.linereader
    }

    /// The line reader.
    pub fn linereader(&self) -> (r: &LineReader)
        ensures
            *r == self.spec_linereader(),
            self.wf() ==> r.wf(),
            r.data() == self.data(),
            r.spec_blocksz() == self.spec_blocksz(),
            r.spec_count_bytes() == self.spec_count_bytes(),
            r.spec_count_blocks_read() == self.spec_count_blocks_read(),
            r.spec_count() == self.spec_lines_count(),
    {
        &self.linereader
    }

    /// The count of lines found.
    pub fn count_lines_processed(&self) -> (r: Count)
        ensures
            r == self.spec_lines_count(),
    {
        self.linereader.count_lines_processed()
    }
}


impl SyslineReader {
    /// Finds a datetime in `line`: the first of the patterns `parse_data` that finds
    /// one (see `dtpd_result`). `Err(InvalidInput)` for a line shorter than 4 bytes,
    /// `Err(NotFound)` where no pattern finds one.
    pub fn find_datetime_in_line(
        line: &Line,
        parse_data: &DateTime_Parse_Datas_vec,
        charsz: &CharSz,
        tz_offset: TzOffset,
    ) -> (r: Result_FindDateTime)
        requires
            line.wf(),
            parts_aligned(line.lineparts@),
            tz_offset_ok(tz_offset),
            *charsz == 1,
        ensures
            line.bytes().len() < 4 ==> (r matches Err(e) && e.kind == ErrorKind::InvalidInput),
            line.bytes().len() >= 4 ==> match first_match(line.bytes(), parse_data@, tz_offset, 0) {
                Some((i, dt)) => r matches Ok((d, dt2)) && d == parse_data@[i] && dt2 == dt,
                None => r matches Err(e) && e.kind == ErrorKind::NotFound,
            },
    {
        let len = line.len();
        if len < 4 {
            return Err(Error::new(ErrorKind::InvalidInput, "Line is too short"));
        }
        let ghost bytes = line.bytes();
        let hack12: [u8; 2] = [0x31, 0x32];
        proof {
            assert(hack12@ =~= seq![0x31u8, 0x32u8]);
        }
        let n = parse_data.len();
        let mut i: usize = 0;
        while i < n
            invariant
                line.wf(),
                parts_aligned(line.lineparts@),
                tz_offset_ok(tz_offset),
                bytes == line.bytes(),
                len == bytes.len(),
                len >= 4,
                n == parse_data@.len(),
                i <= n,
                hack12@ == seq![0x31u8, 0x32u8],
                first_match(bytes, parse_data@, tz_offset, 0) == first_match(bytes, parse_data@, tz_offset, i as int),
            decreases n - i,
        {
            let dtpd: DateTime_Parse_Data = parse_data[i];
            proof {
                assert(first_match(bytes, parse_data@, tz_offset, i as int) == match dtpd_result(bytes, dtpd, tz_offset) {
                    Some(dt) => Some((i as int, dt)),
                    None => first_match(bytes, parse_data@, tz_offset, i + 1),
                });
            }
            if len < dtpd.sie || dtpd.sie < dtpd.sib {
                i += 1;
                continue;
            }
            let slice_v = boxptrs_to_vec(line.get_boxptrs(dtpd.sib, dtpd.sie));
            proof {
                assert(slice_v@ == dtpd_slice(bytes, dtpd));
            }
            if dtpd.year && !slice_contains_X_2(slice_v.as_slice(), &hack12) {
                i += 1;
                continue;
            }
            let dts: &str = match u8_to_str(slice_v.as_slice()) {
                Some(val) => val,
                None => {
                    i += 1;
                    continue;
                },
            };
            match str_datetime(dts, dtpd.pattern, dtpd.tz, tz_offset) {
                Some(dt) => {
                    return Ok((dtpd, dt));
                },
                None => {},
            }
            i += 1;
        }
        Err(Error::new(ErrorKind::NotFound, "No datetime found in Line!"))
    }

    /// `str_datetime` with the pattern and timezone flag of `dtpd`.
    pub fn str_datetime(dts: &str, dtpd: &DateTime_Parse_Data, tz_offset: TzOffset) -> (r: DateTimeL_Opt)
        requires
            tz_offset_ok(tz_offset),
        ensures
            r == crate::datetime::spec_str_datetime(dts@, dtpd.pattern@, dtpd.tz, tz_offset),
    {
        str_datetime(dts, dtpd.pattern, dtpd.tz, tz_offset)
    }

    /// Widens the span `[dt_first, dt_last]` to hold `datetime`.
    fn dt_first_last_update(&mut self, datetime: &DateTimeL)
        requires
            old(self).wf(),
        ensures
            Self::same_store(&*final(self), &*old(self)),
            final(self).wf(),
            final(self).data() == old(self).data(),
            final(self).spec_tz() == old(self).spec_tz(),
            final(self).spec_blocksz() == old(self).spec_blocksz(),
            final(self).syslines == old(self).syslines,
            final(self).analyzed == old(self).analyzed,
            final(self).spec_active() == old(self).spec_active(),
            final(self).dt_patterns == old(self).dt_patterns,
            final(self).dt_first matches Some(f) && !dt_before(*datetime, f),
            final(self).dt_last matches Some(l) && !dt_before(l, *datetime),
            span_widened(old(self).dt_first, old(self).dt_last, final(self).dt_first, final(self).dt_last),
    {
        match self.dt_first {
            Some(dt_first_) => {
                if datetime.lt(&dt_first_) {
                    self.dt_first = Some(*datetime);
                }
            },
            None => {
                self.dt_first = Some(*datetime);
            },
        }
        match self.dt_last {
            Some(dt_last_) => {
                if dt_last_.lt(datetime) {
                    self.dt_last = Some(*datetime);
                }
            },
            None => {
                self.dt_last = Some(*datetime);
            },
        }
    }

    /// The index of the entry of `dt_patterns_counts` for `d`, if any.
    fn dt_patterns_counts_index(&self, d: &DateTime_Parse_Data) -> (r: Option<usize>)
        ensures
            r matches Some(k) ==> first_count_of(self.dt_patterns_counts@, *d, k as int),
            r is None <==> no_count_of(self.dt_patterns_counts@, *d),
    {
        let mut k: usize = 0;
        while k < self.dt_patterns_counts.len()
            invariant
                k <= self.dt_patterns_counts@.len(),
                forall|j: int| 0 <= j < k ==> !dtpd_same(#[trigger] self.dt_patterns_counts@[j].0, *d),
            decreases self.dt_patterns_counts@.len() - k,
        {
            if dtpd_eq(&self.dt_patterns_counts[k].0, d) {
                return Some(k);
            }
            k += 1;
        }
        None
    }

    /// Is `d` among the patterns tried first?
    fn dt_patterns_contains(&self, d: &DateTime_Parse_Data) -> (r: bool)
        ensures
            r == exists|j: int| 0 <= j < self.dt_patterns@.len() && dtpd_same(#[trigger] self.dt_patterns@[j], *d),
    {
        let mut j: usize = 0;
        while j < self.dt_patterns.len()
            invariant
                j <= self.dt_patterns@.len(),
                forall|i: int| 0 <= i < j ==> !dtpd_same(#[trigger] self.dt_patterns@[i], *d),
            decreases self.dt_patterns@.len() - j,
        {
            if dtpd_eq(&self.dt_patterns[j], d) {
                return true;
            }
            j += 1;
        }
        false
    }

    /// Counts a pattern that found a datetime, and adds it to the patterns tried
    /// first (up to `DT_PATTERN_MAX_PRE_ANALYSIS` of them), before the narrowing.
    fn dt_patterns_update(&mut self, datetime_parse_data: &DateTime_Parse_Data)
        requires
            old(self).wf(),
            old(self).dt_patterns_builtin@.contains(*datetime_parse_data),
        ensures
            final(self).spec_active() == old(self).spec_active(),
            Self::same_store(&*final(self), &*old(self)),
            final(self).wf(),
            final(self).data() == old(self).data(),
            final(self).spec_tz() == old(self).spec_tz(),
            final(self).spec_blocksz() == old(self).spec_blocksz(),
            final(self).syslines == old(self).syslines,
            final(self).analyzed == old(self).analyzed,
            final(self).dt_patterns_builtin == old(self).dt_patterns_builtin,
            old(self).analyzed ==> final(self).dt_patterns == old(self).dt_patterns,
            final(self).dt_first == old(self).dt_first,
            final(self).dt_last == old(self).dt_last,
            old(self).analyzed ==> final(self).dt_patterns_counts == old(self).dt_patterns_counts,
            !old(self).analyzed ==> final(self).dt_patterns_counts@ == counts_bumped(old(self).dt_patterns_counts@, *datetime_parse_data),
            !old(self).analyzed ==> final(self).dt_patterns@ == patterns_added(old(self).dt_patterns@, *datetime_parse_data),
    {
        if self.analyzed {
            return;
        }
        match self.dt_patterns_counts_index(datetime_parse_data) {
            Some(k) => {
                let (d, c) = self.dt_patterns_counts[k];
                proof {
                    let k2 = choose|k2: int| first_count_of(old(self).dt_patterns_counts@, *datetime_parse_data, k2);
                    lemma_first_count_unique(old(self).dt_patterns_counts@, *datetime_parse_data, k as int, k2);
                }
                self.dt_patterns_counts.set(k, (d, c.saturating_add(1)));
            },
            None => {
                if self.dt_patterns_counts.len() < DT_PATTERN_MAX_PRE_ANALYSIS {
                    self.dt_patterns_counts.push((*datetime_parse_data, 1));
                }
            },
        }
        if self.dt_patterns.len() >= DT_PATTERN_MAX_PRE_ANALYSIS {
            return;
        }
        if self.dt_patterns_contains(datetime_parse_data) {
            return;
        }
        let ghost before = self.dt_patterns@;
        self.dt_patterns.push(*datetime_parse_data);
        proof {
            assert(self.dt_patterns@ == before.push(*datetime_parse_data));
            assert forall|d: DateTime_Parse_Data| #[trigger] self.dt_patterns@.contains(d) implies self.dt_patterns_builtin@.contains(d) by {
                if d != *datetime_parse_data {
                    let k = choose|k: int| 0 <= k < self.dt_patterns@.len() && self.dt_patterns@[k] == d;
                    assert(k < before.len());
                    assert(before[k] == d);
                    assert(before.contains(d));
                }
            }
        }
    }

    /// The first of the patterns tried first whose count is the largest count.
    fn dt_patterns_most_counted(&self) -> (r: Option<DateTime_Parse_Data>)
        ensures
            r matches Some(d) ==> self.dt_patterns@.contains(d),
            r matches Some(d) ==> exists|j: int| most_counted(self.dt_patterns@, self.dt_patterns_counts@, j) && #[trigger] self.dt_patterns@[j] == d,
            r is None <==> forall|i: int| 0 <= i < self.dt_patterns@.len() ==>
                !counted_at_least(self.dt_patterns_counts@, #[trigger] self.dt_patterns@[i], max_count(self.dt_patterns_counts@)),
    {
        let mut max_: Count = 0;
        let mut k: usize = 0;
        while k < self.dt_patterns_counts.len()
            invariant
                k <= self.dt_patterns_counts@.len(),
                max_ == max_count(self.dt_patterns_counts@.take(k as int)),
            decreases self.dt_patterns_counts@.len() - k,
        {
            proof {
                assert(self.dt_patterns_counts@.take(k + 1).drop_last() =~= self.dt_patterns_counts@.take(k as int));
            }
            if self.dt_patterns_counts[k].1 > max_ {
                max_ = self.dt_patterns_counts[k].1;
            }
            k += 1;
        }
        proof {
            assert(self.dt_patterns_counts@.take(k as int) =~= self.dt_patterns_counts@);
        }
        let mut j: usize = 0;
        while j < self.dt_patterns.len()
            invariant
                j <= self.dt_patterns@.len(),
                max_ == max_count(self.dt_patterns_counts@),
                forall|i: int| 0 <= i < j ==> !counted_at_least(self.dt_patterns_counts@, #[trigger] self.dt_patterns@[i], max_),
            decreases self.dt_patterns@.len() - j,
        {
            let d = self.dt_patterns[j];
            proof {
                assert(self.dt_patterns@[j as int] == d);
            }
            match self.dt_patterns_counts_index(&d) {
                Some(m) => {
                    if self.dt_patterns_counts[m].1 >= max_ {
                        proof {
                            assert(first_count_of(self.dt_patterns_counts@, d, m as int));
                            assert(most_counted(self.dt_patterns@, self.dt_patterns_counts@, j as int));
                        }
                        return Some(d);
                    }
                    proof {
                        assert forall|k2: int| #[trigger] first_count_of(self.dt_patterns_counts@, d, k2)
                            implies self.dt_patterns_counts@[k2].1 < max_ by {
                            lemma_first_count_unique(self.dt_patterns_counts@, d, m as int, k2);
                        }
                    }
                },
                None => {
                    proof {
                        assert forall|k2: int| #[trigger] first_count_of(self.dt_patterns_counts@, d, k2)
                            implies self.dt_patterns_counts@[k2].1 < max_ by {
                            assert(!dtpd_same(self.dt_patterns_counts@[k2].0, d));
                        }
                    }
                },
            }
            j += 1;
        }
        None
    }

    /// Once enough syslines were found, narrows the patterns tried first to the one
    /// counted most often (the first such among the patterns tried first).
    fn dt_patterns_analysis(&mut self)
        requires
            old(self).wf(),
        ensures
            Self::same_store(&*final(self), &*old(self)),
            final(self).wf(),
            final(self).data() == old(self).data(),
            final(self).spec_tz() == old(self).spec_tz(),
            final(self).spec_blocksz() == old(self).spec_blocksz(),
            final(self).syslines == old(self).syslines,
            final(self).dt_patterns_builtin == old(self).dt_patterns_builtin,
            old(self).analyzed ==> final(self).analyzed && final(self).dt_patterns == old(self).dt_patterns,
            final(self).analyzed == (old(self).analyzed || old(self).syslines_count >= DT_PATTERN_ANALYSIS_THRESHOLD),
            patterns_within(final(self).spec_active(), old(self).spec_active()),
            final(self).dt_first == old(self).dt_first,
            final(self).dt_last == old(self).dt_last,
    {
        if self.analyzed || self.syslines_count < DT_PATTERN_ANALYSIS_THRESHOLD {
            return;
        }
        let ghost old_active = self.spec_active();
        let ghost data = self.data();
        let ghost tz = self.tz_offset;
        let chosen = self.dt_patterns_most_counted();
        let mut patts: DateTime_Parse_Datas_vec = Vec::new();
        if let Some(d) = chosen {
            patts.push(d);
            proof {
                assert(patts@[0] == d);
                assert forall|x: DateTime_Parse_Data| #[trigger] patts@.contains(x) implies self.dt_patterns_builtin@.contains(x) by {
                    assert(x == d);
                }
            }
            self.dt_patterns = patts;
        }
        self.dt_patterns_counts = Vec::new();
        self.analyzed = true;
        proof {
            let new_active = self.spec_active();
            assert(patterns_within(new_active, old_active));
            assert forall|b: u64| #[trigger] parse_cache_contents(self.parse_datetime_in_line_lru_cache).contains_key(b) implies
                parse_entry_ok(data, tz, new_active, b as int, parse_cache_contents(self.parse_datetime_in_line_lru_cache)[b]) by {
                let e = parse_cache_contents(self.parse_datetime_in_line_lru_cache)[b];
                if e.0 != 1 {
                    lemma_has_dt_subset(line_bytes_at(data, b as int), old_active, new_active, tz);
                }
            }
            assert forall|k: u64| #[trigger] find_cache_contents(self.find_sysline_lru_cache).contains_key(k)
                && find_cache_contents(self.find_sysline_lru_cache)[k].0 == FIND_DONE implies
                done_entry_ok(data, tz, new_active, k as int) by {
                if k < data.len() {
                    lemma_no_dt_lines_subset(data, line_begin(data, k as int), data.len() as int, old_active, new_active, tz);
                }
            }
            assert forall|b: u64| #[trigger] self.syslines@.contains_key(b) implies
                whole_sysline(*self.syslines@[b], data, new_active, tz) by {
                lemma_whole_within(&*self.syslines@[b], data, old_active, new_active, tz);
            }
        }
    }

    /// Finds the datetime in a line: with the patterns tried first, then (before the
    /// narrowing) with the built-in patterns.
    fn parse_datetime_in_line(&mut self, line: &Line) -> (r: Result_ParseDateTime)
        requires
            old(self).wf(),
            line.wf(),
            parts_aligned(line.lineparts@),
        ensures
            final(self).wf(),
            final(self).data() == old(self).data(),
            final(self).spec_tz() == old(self).spec_tz(),
            final(self).spec_blocksz() == old(self).spec_blocksz(),
            final(self).syslines == old(self).syslines,
            final(self).parse_datetime_in_line_lru_cache == old(self).parse_datetime_in_line_lru_cache,
            final(self).parse_datetime_in_line_lru_cache_enabled == old(self).parse_datetime_in_line_lru_cache_enabled,
            final(self).find_sysline_lru_cache_enabled == old(self).find_sysline_lru_cache_enabled,
            final(self).syslines_count == old(self).syslines_count,
            r matches Ok((b, e, dt)) ==> exists|d: DateTime_Parse_Data| #[trigger] dtpd_result(line.bytes(), d, old(self).tz_offset) == Some(dt)
                && b == d.siba && e == d.siea && builtin_dtpds().contains(d),
            r matches Ok((_, _, dt)) ==> (first_match(line.bytes(), builtin_dtpds(), old(self).tz_offset, 0) matches Some((_, t)) && t == dt)
                || (first_match(line.bytes(), final(self).dt_patterns@, old(self).tz_offset, 0) matches Some((_, t)) && t == dt),
            patterns_within(final(self).spec_active(), old(self).spec_active()),
            r is Err ==> !has_dt(line.bytes(), final(self).spec_active(), old(self).tz_offset),
            r matches Ok((_, _, dt)) ==> dt_within(dt, final(self).dt_first, final(self).dt_last),
            span_widened(old(self).dt_first, old(self).dt_last, final(self).dt_first, final(self).dt_last),
    {
        let ghost active0 = self.spec_active();
        if !self.analyzed {
            self.dt_patterns_analysis();
        }
        let charsz: CharSz = 1;
        let tz = self.tz_offset;
        if self.dt_patterns.len() == 0 {
            let result = SyslineReader::find_datetime_in_line(line, &self.dt_patterns_builtin, &charsz, tz);
            let (dtpd, dt) = match result {
                Ok(val) => val,
                Err(err) => {
                    proof {
                        lemma_no_match(line.bytes(), self.dt_patterns_builtin@, tz);
                    }
                    return Err(err);
                },
            };
            proof {
                self.lemma_found(line, dtpd, dt, self.dt_patterns_builtin@);
                lemma_match_contains(line.bytes(), self.dt_patterns_builtin@, tz, dtpd);
            }
            self.dt_patterns_update(&dtpd);
            self.dt_first_last_update(&dt);
            return Ok((dtpd.siba, dtpd.siea, dt));
        }
        let result = SyslineReader::find_datetime_in_line(line, &self.dt_patterns, &charsz, tz);
        let (dtpd, dt) = match result {
            Ok(val) => {
                proof {
                    self.lemma_found(line, val.0, val.1, self.dt_patterns@);
                    lemma_match_contains(line.bytes(), self.dt_patterns@, tz, val.0);
                }
                val
            },
            Err(err) => {
                if self.analyzed {
                    proof {
                        lemma_no_match(line.bytes(), self.dt_patterns@, tz);
                    }
                    return Err(err);
                }
                match SyslineReader::find_datetime_in_line(line, &self.dt_patterns_builtin, &charsz, tz) {
                    Ok((dtpd_, dt_)) => {
                        proof {
                            self.lemma_found(line, dtpd_, dt_, self.dt_patterns_builtin@);
                            lemma_match_contains(line.bytes(), self.dt_patterns_builtin@, tz, dtpd_);
                        }
                        self.dt_patterns_update(&dtpd_);
                        (dtpd_, dt_)
                    },
                    Err(err_) => {
                        proof {
                            lemma_no_match(line.bytes(), self.dt_patterns_builtin@, tz);
                        }
                        return Err(err_);
                    },
                }
            },
        };
        self.dt_first_last_update(&dt);
        Ok((dtpd.siba, dtpd.siea, dt))
    }

    /// A datetime that `find_datetime_in_line` finds is one that its pattern finds.
    proof fn lemma_found(&self, line: &Line, d: DateTime_Parse_Data, dt: DateTimeL, pd: Seq<DateTime_Parse_Data>)
        requires
            line.bytes().len() >= 4,
            match first_match(line.bytes(), pd, self.tz_offset, 0) {
                Some((i, dt2)) => d == pd[i] && dt == dt2,
                None => false,
            },
        ensures
            dtpd_result(line.bytes(), d, self.tz_offset) == Some(dt),
    {
        lemma_first_match(line.bytes(), pd, self.tz_offset, 0);
    }

    /// Finds the datetime in a stored line, from the cache of parses where it is there.
    fn parse_datetime_in_line_cached(&mut self, lp: &LineP) -> (r: Result_ParseDateTime)
        requires
            old(self).wf(),
            line_at(old(self).data(), **lp),
        ensures
            final(self).wf(),
            final(self).data() == old(self).data(),
            final(self).spec_tz() == old(self).spec_tz(),
            final(self).spec_blocksz() == old(self).spec_blocksz(),
            final(self).syslines == old(self).syslines,
            final(self).find_sysline_lru_cache_enabled == old(self).find_sysline_lru_cache_enabled,
            final(self).syslines_count == old(self).syslines_count,
            r matches Ok((b, e, dt)) ==> exists|d: DateTime_Parse_Data| #[trigger] dtpd_result(lp.bytes(), d, old(self).tz_offset) == Some(dt)
                && b == d.siba && e == d.siea && builtin_dtpds().contains(d),
            patterns_within(final(self).spec_active(), old(self).spec_active()),
            r is Err ==> !has_dt(lp.bytes(), final(self).spec_active(), old(self).tz_offset),
            r matches Ok((_, _, dt)) ==> dt_within(dt, final(self).dt_first, final(self).dt_last),
            span_widened(old(self).dt_first, old(self).dt_last, final(self).dt_first, final(self).dt_last),
    {
        let key = lp.fileoffset_begin();
        let ghost data = self.data();
        if self.parse_datetime_in_line_lru_cache_enabled {
            match parse_cache_get(&mut self.parse_datetime_in_line_lru_cache, key) {
                Some(val) => {
                    self.parse_datetime_in_line_lru_cache_hit = self.parse_datetime_in_line_lru_cache_hit.saturating_add(1);
                    if val.0 == 1 {
                        return Ok((val.1, val.2, DateTimeL { secs: val.3, nsecs: val.4, offset: val.5 }));
                    }
                    return Err(Error::new(ErrorKind::NotFound, "No datetime found in Line!"));
                },
                None => {
                    self.parse_datetime_in_line_lru_cache_miss = self.parse_datetime_in_line_lru_cache_miss.saturating_add(1);
                },
            }
        }
        let result = self.parse_datetime_in_line(&**lp);
        if self.parse_datetime_in_line_lru_cache_enabled {
            let entry = match &result {
                Ok((b, e, dt)) => (1u8, *b, *e, dt.secs, dt.nsecs, dt.offset),
                Err(_) => (0u8, 0usize, 0usize, 0i64, 0u32, 0i32),
            };
            parse_cache_put(&mut self.parse_datetime_in_line_lru_cache, key, entry);
            self.parse_datetime_in_line_lru_cache_put = self.parse_datetime_in_line_lru_cache_put.saturating_add(1);
        }
        result
    }
}

/// `first_match` gives a pattern that finds the datetime it gives.
pub proof fn lemma_first_match(bytes: Seq<u8>, pd: Seq<DateTime_Parse_Data>, tz: TzOffset, i: int)
    ensures
        first_match(bytes, pd, tz, i) matches Some((j, dt)) ==> 0 <= j < pd.len() && dtpd_result(bytes, pd[j], tz) == Some(dt),
    decreases pd.len() - i,
{
    if 0 <= i < pd.len() && dtpd_result(bytes, pd[i], tz) is None {
        lemma_first_match(bytes, pd, tz, i + 1);
    }
}


impl SyslineReader {
    /// Enables the caches of `find_sysline` and of line parses.
    pub fn LRU_cache_enable(&mut self)
        requires
            old(self).wf(),
        ensures
            final(self).wf(),
            final(self).data() == old(self).data(),
            final(self).spec_tz() == old(self).spec_tz(),
            final(self).spec_blocksz() == old(self).spec_blocksz(),
            final(self).spec_syslines() == old(self).spec_syslines(),
            final(self).spec_active() == old(self).spec_active(),
            final(self).spec_lru_caches_enabled() == (true, true),
            !old(self).spec_lru_caches_enabled().0 ==> final(self).spec_syslines_cached() == Set::<u64>::empty(),
            old(self).spec_lru_caches_enabled().0 ==> final(self).spec_syslines_cached() == old(self).spec_syslines_cached(),
            !old(self).spec_lru_caches_enabled().1 ==> final(self).spec_parses_cached() == Set::<u64>::empty(),
            old(self).spec_lru_caches_enabled().1 ==> final(self).spec_parses_cached() == old(self).spec_parses_cached(),
    {
        if !self.find_sysline_lru_cache_enabled {
            self.find_sysline_lru_cache_enabled = true;
            find_cache_clear(&mut self.find_sysline_lru_cache);
            find_cache_resize(&mut self.find_sysline_lru_cache, FIND_SYSLINE_LRU_CACHE_SZ);
            proof {
                assert(self.spec_syslines_cached() =~= Set::<u64>::empty());
            }
        }
        if !self.parse_datetime_in_line_lru_cache_enabled {
            self.parse_datetime_in_line_lru_cache_enabled = true;
            parse_cache_clear(&mut self.parse_datetime_in_line_lru_cache);
            parse_cache_resize(&mut self.parse_datetime_in_line_lru_cache, PARSE_DATETIME_IN_LINE_LRU_CACHE_SZ);
            proof {
                assert(self.spec_parses_cached() =~= Set::<u64>::empty());
            }
        }
    }

    /// Whether the cache of `find_sysline` and that of line parses are enabled.
    pub closed spec fn spec_lru_caches_enabled(&self) -> (bool, bool) {
        (self.find_sysline_lru_cache_enabled, self.parse_datetime_in_line_lru_cache_enabled)
    }

    /// The offsets for which the cache of `find_sysline` holds a result.
    pub closed spec fn spec_syslines_cached(&self) -> Set<u64> {
        find_cache_contents(self.find_sysline_lru_cache).dom()
    }

    /// The offsets of the lines whose parse the parse cache holds.
    pub closed spec fn spec_parses_cached(&self) -> Set<u64> {
        parse_cache_contents(self.parse_datetime_in_line_lru_cache).dom()
    }

    /// Disables the caches of `find_sysline` and of line parses.
    pub fn LRU_cache_disable(&mut self)
        requires
            old(self).wf(),
        ensures
            final(self).wf(),
            final(self).data() == old(self).data(),
            final(self).spec_tz() == old(self).spec_tz(),
            final(self).spec_blocksz() == old(self).spec_blocksz(),
            final(self).spec_syslines() == old(self).spec_syslines(),
            final(self).spec_active() == old(self).spec_active(),
            final(self).spec_lru_caches_enabled() == (false, false),
            final(self).spec_syslines_cached() == Set::<u64>::empty(),
            final(self).spec_parses_cached() == Set::<u64>::empty(),
    {
        self.find_sysline_lru_cache_enabled = false;
        find_cache_clear(&mut self.find_sysline_lru_cache);
        find_cache_resize(&mut self.find_sysline_lru_cache, 1);
        self.parse_datetime_in_line_lru_cache_enabled = false;
        parse_cache_clear(&mut self.parse_datetime_in_line_lru_cache);
        parse_cache_resize(&mut self.parse_datetime_in_line_lru_cache, 1);
        proof {
            assert(self.spec_syslines_cached() =~= Set::<u64>::empty());
            assert(self.spec_parses_cached() =~= Set::<u64>::empty());
        }
    }

    /// Is the sysline the file's last (does it end at the file's last byte)?
    pub fn is_sysline_last(&self, syslinep: &SyslineP) -> (r: bool)
        requires
            self.wf(),
            syslinep.lines@.len() > 0,
            syslinep.lines@.last().wf(),
            syslinep.spec_end() + 1 <= self.data().len(),
        ensures
            r == (syslinep.spec_end() + 1 == self.data().len()),
    {
        let filesz = self.filesz();
        let fo_end = syslinep.fileoffset_end();
        fo_end + 1 == filesz
    }

    /// Stores a sysline.
    fn insert_sysline(&mut self, sysline: Sysline) -> (r: SyslineP)
        requires
            old(self).wf(),
            whole_sysline(sysline, old(self).data(), old(self).spec_active(), old(self).tz_offset),
            dt_within(sysline.dt.unwrap(), old(self).dt_first, old(self).dt_last),
        ensures
            final(self).wf(),
            final(self).data() == old(self).data(),
            final(self).tz_offset == old(self).tz_offset,
            final(self).spec_blocksz() == old(self).spec_blocksz(),
            *r == sysline,
            final(self).syslines@ == old(self).syslines@.insert(sysline.spec_begin() as u64, r),
            final(self).spec_active() == old(self).spec_active(),
            final(self).find_sysline_lru_cache_enabled == old(self).find_sysline_lru_cache_enabled,
            final(self).dt_first == old(self).dt_first,
            final(self).dt_last == old(self).dt_last,
    {
        proof {
            assert(line_at(self.data(), *sysline.lines@[0]));
            assert(line_at(self.data(), *sysline.lines@[sysline.lines@.len() - 1]));
            self.linereader.lemma_wf();
            sysline.lemma_span(self.data(), self.tz_offset);
        }
        let fo_beg = sysline.fileoffset_begin();
        let fo_end = sysline.fileoffset_end();
        let slp: SyslineP = Arc::new(sysline);
        self.syslines.insert(fo_beg, arc_clone(&slp));
        self.syslines_count = self.syslines_count.saturating_add(1);
        rangemap_insert(&mut self.syslines_by_range, fo_beg, fo_end + 1, fo_beg);
        self.syslines_by_range_put = self.syslines_by_range_put.saturating_add(1);
        slp
    }

    /// A result for `fo` from the stored syslines, where one holds `fo`.
    fn stored_result(&mut self, fileoffset: FileOffset, slp: &SyslineP) -> (r: Option<ResultS4_SyslineFind>)
        requires
            old(self).wf(),
            whole_sysline(**slp, old(self).data(), old(self).spec_active(), old(self).tz_offset),
            dt_within(slp.dt.unwrap(), old(self).dt_first, old(self).dt_last),
        ensures
            final(self).wf(),
            final(self).data() == old(self).data(),
            final(self).tz_offset == old(self).tz_offset,
            final(self).spec_blocksz() == old(self).spec_blocksz(),
            final(self).syslines == old(self).syslines,
            final(self).find_sysline_lru_cache_enabled == old(self).find_sysline_lru_cache_enabled,
            r matches Some(x) ==> sysline_result_ok(old(self).data(), old(self).tz_offset, fileoffset as int, x) && !(x is Done),
            final(self).spec_active() == old(self).spec_active(),
            r matches Some(ResultS4::Found((_, s))) ==> s.spec_begin() <= fileoffset
                && whole_sysline(*s, old(self).data(), old(self).spec_active(), old(self).tz_offset),
            r matches Some(ResultS4::Found_EOF((_, s))) ==> s.spec_begin() <= fileoffset
                && whole_sysline(*s, old(self).data(), old(self).spec_active(), old(self).tz_offset),
            final(self).dt_first == old(self).dt_first,
            final(self).dt_last == old(self).dt_last,
            r matches Some(ResultS4::Found((_, s))) ==> dt_within(s.dt.unwrap(), old(self).dt_first, old(self).dt_last),
            r matches Some(ResultS4::Found_EOF((_, s))) ==> dt_within(s.dt.unwrap(), old(self).dt_first, old(self).dt_last),
            r is Some <==> slp.spec_begin() <= fileoffset <= slp.spec_end(),
            r matches Some(ResultS4::Found((_, x))) ==> x == *slp,
            r matches Some(ResultS4::Found_EOF((_, x))) ==> x == *slp,
    {
        proof {
            assert(line_at(self.data(), *slp.lines@[0]));
            assert(line_at(self.data(), *slp.lines@[slp.lines@.len() - 1]));
        }
        let fo_beg = slp.fileoffset_begin();
        let fo_end = slp.fileoffset_end();
        if fileoffset < fo_beg || fo_end < fileoffset {
            return None;
        }
        let filesz = self.filesz();
        let fo_next = fo_end + 1;
        let slp2 = arc_clone(slp);
        if fo_next == filesz {
            if self.find_sysline_lru_cache_enabled {
                find_cache_put(&mut self.find_sysline_lru_cache, fileoffset, (FIND_FOUND_EOF, fo_next, fo_beg));
                self.find_sysline_lru_cache_put = self.find_sysline_lru_cache_put.saturating_add(1);
            }
            return Some(ResultS4::Found_EOF((fo_next, slp2)));
        }
        if self.find_sysline_lru_cache_enabled {
            find_cache_put(&mut self.find_sysline_lru_cache, fileoffset, (FIND_FOUND, fo_next, fo_beg));
            self.find_sysline_lru_cache_put = self.find_sysline_lru_cache_put.saturating_add(1);
        }
        Some(ResultS4::Found((fo_next, slp2)))
    }

    /// A result for `fo` from the caches and stored syslines, if they hold one.
    #[verifier::rlimit(40)]
    fn check_store(&mut self, fileoffset: FileOffset) -> (r: Option<ResultS4_SyslineFind>)
        requires
            old(self).wf(),
        ensures
            final(self).wf(),
            final(self).data() == old(self).data(),
            final(self).tz_offset == old(self).tz_offset,
            final(self).spec_blocksz() == old(self).spec_blocksz(),
            final(self).syslines == old(self).syslines,
            final(self).find_sysline_lru_cache_enabled == old(self).find_sysline_lru_cache_enabled,
            r matches Some(x) ==> sysline_result_ok(old(self).data(), old(self).tz_offset, fileoffset as int, x),
            final(self).spec_active() == old(self).spec_active(),
            r matches Some(ResultS4::Done) ==> done_entry_ok(old(self).data(), old(self).tz_offset, old(self).spec_active(), fileoffset as int),
            r matches Some(ResultS4::Found((_, s))) ==> s.spec_begin() <= fileoffset
                && whole_sysline(*s, old(self).data(), old(self).spec_active(), old(self).tz_offset),
            r matches Some(ResultS4::Found_EOF((_, s))) ==> s.spec_begin() <= fileoffset
                && whole_sysline(*s, old(self).data(), old(self).spec_active(), old(self).tz_offset),
            final(self).dt_first == old(self).dt_first,
            final(self).dt_last == old(self).dt_last,
            r matches Some(ResultS4::Found((_, s))) ==> dt_within(s.dt.unwrap(), old(self).dt_first, old(self).dt_last),
            r matches Some(ResultS4::Found_EOF((_, s))) ==> dt_within(s.dt.unwrap(), old(self).dt_first, old(self).dt_last),
            old(self).spec_syslines().contains_key(fileoffset) ==> r is Some,
            r matches Some(ResultS4::Found((_, x))) ==> exists|b: u64| #[trigger] old(self).spec_syslines().contains_key(b) && old(self).spec_syslines()[b] == x,
            r matches Some(ResultS4::Found_EOF((_, x))) ==> exists|b: u64| #[trigger] old(self).spec_syslines().contains_key(b) && old(self).spec_syslines()[b] == x,
    {
        let filesz = self.filesz();
        if self.find_sysline_lru_cache_enabled {
            match find_cache_get(&mut self.find_sysline_lru_cache, fileoffset) {
                Some((kind, fo_next, fo_beg)) => {
                    self.find_sysline_lru_cache_hit = self.find_sysline_lru_cache_hit.saturating_add(1);
                    if kind == FIND_DONE {
                        return Some(ResultS4::Done);
                    }
                    match self.syslines.get(&fo_beg) {
                        Some(slp) => {
                            let slp = arc_clone(slp);
                            proof {
                                assert(old(self).spec_syslines().contains_key(fo_beg) && old(self).spec_syslines()[fo_beg] == slp);
                            }
                            match self.stored_result(fileoffset, &slp) {
                                Some(x) => {
                                    return Some(x);
                                },
                                None => {},
                            }
                        },
                        None => {},
                    }
                },
                None => {
                    self.find_sysline_lru_cache_miss = self.find_sysline_lru_cache_miss.saturating_add(1);
                },
            }
        }
        match rangemap_get_key_value(&self.syslines_by_range, fileoffset) {
            Some((_, _, fo_beg)) => {
                match self.syslines.get(&fo_beg) {
                    Some(slp) => {
                        let slp = arc_clone(slp);
                        proof {
                            assert(old(self).spec_syslines().contains_key(fo_beg) && old(self).spec_syslines()[fo_beg] == slp);
                        }
                        match self.stored_result(fileoffset, &slp) {
                            Some(x) => {
                                self.syslines_by_range_hit = self.syslines_by_range_hit.saturating_add(1);
                                return Some(x);
                            },
                            None => {},
                        }
                    },
                    None => {},
                }
            },
            None => {},
        }
        self.syslines_by_range_miss = self.syslines_by_range_miss.saturating_add(1);
        match self.syslines.get(&fileoffset) {
            Some(slp) => {
                let slp = arc_clone(slp);
                proof {
                    assert(old(self).spec_syslines().contains_key(fileoffset) && old(self).spec_syslines()[fileoffset] == slp);
                    slp.lemma_span(self.data(), self.tz_offset);
                }
                match self.stored_result(fileoffset, &slp) {
                    Some(x) => {
                        self.syslines_hit = self.syslines_hit.saturating_add(1);
                        return Some(x);
                    },
                    None => {},
                }
            },
            None => {},
        }
        self.syslines_miss = self.syslines_miss.saturating_add(1);
        None
    }

    /// Records a result of `find_sysline` for `fo` in its cache.
    fn cache_result(&mut self, fileoffset: FileOffset, r: &ResultS4_SyslineFind)
        requires
            old(self).wf(),
            *r is Done ==> done_entry_ok(old(self).data(), old(self).tz_offset, old(self).spec_active(), fileoffset as int),
        ensures
            final(self).spec_active() == old(self).spec_active(),
            final(self).wf(),
            final(self).data() == old(self).data(),
            final(self).tz_offset == old(self).tz_offset,
            final(self).spec_blocksz() == old(self).spec_blocksz(),
            final(self).syslines == old(self).syslines,
            final(self).dt_first == old(self).dt_first,
            final(self).dt_last == old(self).dt_last,
            !old(self).find_sysline_lru_cache_enabled || *r is Error ==> final(self).find_sysline_lru_cache == old(self).find_sysline_lru_cache,
            old(self).find_sysline_lru_cache_enabled && *r is Done ==>
                put_result(find_cache_contents(old(self).find_sysline_lru_cache), find_cache_contents(final(self).find_sysline_lru_cache),
                    fileoffset, (FIND_DONE, 0u64, 0u64)),
            old(self).find_sysline_lru_cache_enabled ==> (*r matches ResultS4::Found((n, slp)) ==> (slp.lines@.len() > 0 && slp.lines@[0].lineparts@.len() > 0 ==>
                put_result(find_cache_contents(old(self).find_sysline_lru_cache), find_cache_contents(final(self).find_sysline_lru_cache),
                    fileoffset, (FIND_FOUND, n, slp.lines@[0].lineparts@[0].fileoffset)))),
            old(self).find_sysline_lru_cache_enabled ==> (*r matches ResultS4::Found_EOF((n, slp)) ==> (slp.lines@.len() > 0 && slp.lines@[0].lineparts@.len() > 0 ==>
                put_result(find_cache_contents(old(self).find_sysline_lru_cache), find_cache_contents(final(self).find_sysline_lru_cache),
                    fileoffset, (FIND_FOUND_EOF, n, slp.lines@[0].lineparts@[0].fileoffset)))),
    {
        if !self.find_sysline_lru_cache_enabled {
            return;
        }
        let entry = match r {
            ResultS4::Found((n, slp)) => {
                if slp.lines.len() == 0 || slp.lines[0].lineparts.len() == 0 {
                    return;
                }
                (FIND_FOUND, *n, slp.lines[0].lineparts[0].fileoffset)
            },
            ResultS4::Found_EOF((n, slp)) => {
                if slp.lines.len() == 0 || slp.lines[0].lineparts.len() == 0 {
                    return;
                }
                (FIND_FOUND_EOF, *n, slp.lines[0].lineparts[0].fileoffset)
            },
            ResultS4::Done => (FIND_DONE, 0, 0),
            ResultS4::Error(_) => {
                return;
            },
        };
        find_cache_put(&mut self.find_sysline_lru_cache, fileoffset, entry);
        self.find_sysline_lru_cache_put = self.find_sysline_lru_cache_put.saturating_add(1);
    }
}


/// `sl` is being built: lines of `data` that follow one another, the first with a
/// datetime that some pattern finds, ending just before `fo1`.
pub open spec fn building(sl: Sysline, data: Seq<u8>, tz: TzOffset, fo1: int) -> bool {
    &&& sl.ok(data, tz)
    &&& fo1 == sl.spec_end() + 1
}

/// The line that begins just after a line that does not end the file begins there.
proof fn lemma_next_line(data: Seq<u8>, l: LineP, lp: LineP, fo1: int)
    requires
        line_at(data, *l),
        fo1 == l.spec_end() + 1,
        fo1 < data.len(),
        line_at(data, *lp),
        lp.spec_begin() == line_begin(data, fo1),
    ensures
        lp.spec_begin() == fo1,
{
    crate::linereader::lemma_line_end(data, l.spec_begin());
    assert(data[fo1 - 1] == crate::common::NLu8);
}

impl SyslineReader {
    /// Finds the sysline that holds `fileoffset`, if stored; else the first sysline
    /// that begins at or after the line holding `fileoffset`. The sysline is the line
    /// with a datetime and the lines that follow it up to the next line with a datetime
    /// (or the end of the file). Gives the offset just past it, as `Found_EOF` where it
    /// ends the file; `Done` where no sysline is found.
    pub fn find_sysline(&mut self, fileoffset: FileOffset) -> (r: ResultS4_SyslineFind)
        requires
            old(self).wf(),
        ensures
            final(self).wf(),
            final(self).data() == old(self).data(),
            final(self).spec_tz() == old(self).spec_tz(),
            final(self).spec_blocksz() == old(self).spec_blocksz(),
            old(self).spec_syslines().dom().subset_of(final(self).spec_syslines().dom()),
            sysline_result_ok(old(self).data(), old(self).spec_tz(), fileoffset as int, r),
            patterns_within(final(self).spec_active(), old(self).spec_active()),
            r is Done ==> done_entry_ok(old(self).data(), old(self).spec_tz(), final(self).spec_active(), fileoffset as int),
            r matches ResultS4::Found((_, slp)) ==> slp.spec_begin() <= fileoffset
                || no_dt_lines(old(self).data(), line_begin(old(self).data(), fileoffset as int), slp.spec_begin(), final(self).spec_active(), old(self).spec_tz()),
            r matches ResultS4::Found_EOF((_, slp)) ==> slp.spec_begin() <= fileoffset
                || no_dt_lines(old(self).data(), line_begin(old(self).data(), fileoffset as int), slp.spec_begin(), final(self).spec_active(), old(self).spec_tz()),
            r matches ResultS4::Found((_, slp)) ==> whole_sysline(*slp, old(self).data(), final(self).spec_active(), old(self).spec_tz()),
            r matches ResultS4::Found_EOF((_, slp)) ==> whole_sysline(*slp, old(self).data(), final(self).spec_active(), old(self).spec_tz()),
            r matches ResultS4::Found((_, slp)) ==> dt_within(slp.dt.unwrap(), final(self).spec_dt_first(), final(self).spec_dt_last()),
            r matches ResultS4::Found_EOF((_, slp)) ==> dt_within(slp.dt.unwrap(), final(self).spec_dt_first(), final(self).spec_dt_last()),
            span_widened(old(self).spec_dt_first(), old(self).spec_dt_last(), final(self).spec_dt_first(), final(self).spec_dt_last()),
            r matches ResultS4::Found((_, slp)) ==> sysline_met_from(*slp, old(self).data(), final(self).spec_active(), old(self).spec_tz(), fileoffset as int),
            r matches ResultS4::Found_EOF((_, slp)) ==> sysline_met_from(*slp, old(self).data(), final(self).spec_active(), old(self).spec_tz(), fileoffset as int),
    {
        let ghost data = self.data();
        let ghost tz = self.tz_offset;
        let ghost dom0 = self.syslines@.dom();
        let ghost active0 = self.spec_active();
        if let Some(results4) = self.check_store(fileoffset) {
            return results4;
        }
        let mut fo1: FileOffset = fileoffset;
        let mut sysline = Sysline::new();
        proof {
            self.linereader.lemma_wf();
            if fileoffset < data.len() {
                crate::linereader::lemma_line_begin(data, fileoffset as int);
            }
        }
        let ghost lbfo: int = if fileoffset < data.len() { line_begin(data, fileoffset as int) } else { 0 };
        let ghost mut g_next: int = lbfo;
        loop
            invariant_except_break
                sysline.lines@.len() == 0,
                fo1 <= data.len() || fo1 == fileoffset,
                fileoffset < data.len() ==> {
                    &&& 0 <= lbfo <= fileoffset
                    &&& 0 <= g_next <= data.len()
                    &&& lbfo <= g_next
                    &&& (fo1 == fileoffset && g_next == lbfo) || (fo1 as int == g_next && (g_next < data.len() ==> line_begin(data, g_next) == g_next))
                    &&& no_dt_lines(data, lbfo, g_next, self.spec_active(), tz)
                },
            invariant
                patterns_within(self.spec_active(), active0),
                active0 == old(self).spec_active(),
                lbfo == (if fileoffset < data.len() { line_begin(data, fileoffset as int) } else { 0 }),
                self.wf(),
                self.data() == data,
                data == old(self).data(),
                self.tz_offset == tz,
                self.spec_blocksz() == old(self).spec_blocksz(),
                tz == old(self).tz_offset,
                span_widened(old(self).dt_first, old(self).dt_last, self.dt_first, self.dt_last),
                dom0 == old(self).syslines@.dom(),
                dom0.subset_of(self.syslines@.dom()),
                data.len() < 0x4000_0000_0000_0000,
                fileoffset <= fo1,
            ensures
                building(sysline, data, tz, fo1 as int),
                sysline.lines@.len() == 1,
                dt_by_builtin(sysline, tz),
                dt_within(sysline.dt.unwrap(), self.dt_first, self.dt_last),
                fileoffset <= sysline.spec_end(),
                fo1 < data.len(),
                fileoffset < data.len(),
                no_dt_lines(data, lbfo, sysline.spec_begin(), self.spec_active(), tz),
            decreases data.len() + 1 - fo1,
        {
            let result: ResultS4_LineFind = self.linereader.find_line(fo1);
            let eof = result.is_eof();
            let (fo2, lp) = match result {
                ResultS4::Found((fo_, lp_)) => (fo_, lp_),
                ResultS4::Found_EOF((fo_, lp_)) => (fo_, lp_),
                ResultS4::Done => {
                    let r = ResultS4::Done;
                    proof {
                        if fileoffset < data.len() {
                            assert(g_next == data.len());
                        }
                    }
                    self.cache_result(fileoffset, &r);
                    return r;
                },
                ResultS4::Error(err) => {
                    return ResultS4::Error(err);
                },
            };
            proof {
                lemma_line_of_offset(data, fo1 as int);
                crate::linereader::lemma_line_begin(data, fo1 as int);
                crate::linereader::lemma_line_end(data, fo1 as int);
            }
            let ghost active_before = self.spec_active();
            let parsed = self.parse_datetime_in_line_cached(&lp);
            proof {
                lemma_no_dt_lines_subset(data, lbfo, g_next, active_before, self.spec_active(), tz);
                assert(lp.spec_begin() == g_next);
            }
            match parsed {
                Err(_) => {
                    proof {
                        assert(fileoffset < data.len());
                        assert(lp.bytes() == line_bytes_at(data, g_next));
                        lemma_no_dt_lines_extend(data, lbfo, g_next, self.spec_active(), tz);
                        crate::linereader::lemma_line_end(data, g_next);
                        g_next = fo2 as int;
                        if g_next < data.len() {
                            assert(data[g_next - 1] == crate::common::NLu8);
                        }
                    }
                },
                Ok((dt_beg, dt_end, dt)) => {
                    sysline.dt_beg = dt_beg;
                    sysline.dt_end = dt_end;
                    sysline.dt = Some(dt);
                    sysline.push(lp);
                    fo1 = fo2;
                    proof {
                        assert(sysline.lines@[0] == lp);
                        assert(lines_consecutive(sysline.lines@));
                        assert(building(sysline, data, tz, fo1 as int));
                        assert(dt_by_builtin(sysline, tz));
                    }
                    if eof {
                        let syslinep = Arc::new(sysline);
                        let r = ResultS4::Found_EOF((fo1, syslinep));
                        self.cache_result(fileoffset, &r);
                        return r;
                    }
                    break;
                },
            }
            fo1 = fo2;
        }
        let mut fo_b: FileOffset = fo1;
        let mut eof = false;
        let ghost sl_begin = sysline.spec_begin();
        loop
            invariant_except_break
                !eof,
            invariant
                patterns_within(self.spec_active(), active0),
                active0 == old(self).spec_active(),
                sysline.spec_begin() == sl_begin,
                no_dt_lines(data, lbfo, sl_begin, self.spec_active(), tz),
                self.wf(),
                self.data() == data,
                data == old(self).data(),
                self.tz_offset == tz,
                self.spec_blocksz() == old(self).spec_blocksz(),
                tz == old(self).tz_offset,
                span_widened(old(self).dt_first, old(self).dt_last, self.dt_first, self.dt_last),
                dom0 == old(self).syslines@.dom(),
                dom0.subset_of(self.syslines@.dom()),
                data.len() < 0x4000_0000_0000_0000,
                building(sysline, data, tz, fo1 as int),
                tail_no_dt(sysline, self.spec_active(), tz),
                dt_by_builtin(sysline, tz),
                dt_within(sysline.dt.unwrap(), self.dt_first, self.dt_last),
                fileoffset <= sysline.spec_end(),
                fo1 <= data.len(),
            ensures
                patterns_within(self.spec_active(), active0),
                sysline.spec_begin() == sl_begin,
                no_dt_lines(data, lbfo, sl_begin, self.spec_active(), tz),
                self.wf(),
                self.data() == data,
                self.tz_offset == tz,
                self.spec_blocksz() == old(self).spec_blocksz(),
                dom0.subset_of(self.syslines@.dom()),
                building(sysline, data, tz, fo1 as int),
                tail_no_dt(sysline, self.spec_active(), tz),
                dt_by_builtin(sysline, tz),
                dt_within(sysline.dt.unwrap(), self.dt_first, self.dt_last),
                fileoffset <= sysline.spec_end(),
                eof ==> fo1 >= data.len(),
                !eof ==> fo1 < data.len() && fo_b == fo1,
                !eof ==> exists|d: DateTime_Parse_Data| #[trigger] dtpd_result(line_bytes_at(data, fo1 as int), d, tz) is Some,
            decreases data.len() - fo1,
        {
            let result = self.linereader.find_line(fo1);
            let (fo2, linep) = match result {
                ResultS4::Found((fo_, lp_)) => (fo_, lp_),
                ResultS4::Found_EOF((fo_, lp_)) => (fo_, lp_),
                ResultS4::Done => {
                    eof = true;
                    break;
                },
                ResultS4::Error(err) => {
                    return ResultS4::Error(err);
                },
            };
            proof {
                lemma_next_line(data, sysline.lines@.last(), linep, fo1 as int);
                crate::linereader::lemma_line_end(data, fo1 as int);
                lemma_line_of_offset(data, fo1 as int);
                sysline.lemma_span(data, tz);
            }
            let ghost active_before = self.spec_active();
            let ghost span_before = (self.dt_first, self.dt_last);
            let parsed = self.parse_datetime_in_line_cached(&linep);
            proof {
                assert(dt_within(sysline.dt.unwrap(), span_before.0, span_before.1));
                lemma_no_dt_lines_subset(data, lbfo, sl_begin, active_before, self.spec_active(), tz);
                lemma_tail_within(sysline, active_before, self.spec_active(), tz);
                assert(linep.bytes() == line_bytes_at(data, fo1 as int));
            }
            match parsed {
                Err(_) => {
                    let ghost old_lines = sysline.lines@;
                    sysline.push(linep);
                    proof {
                        assert(sysline.lines@.last() == linep);
                        assert forall|i: int| 1 <= i < sysline.lines@.len() implies !#[trigger] has_dt(sysline.lines@[i].bytes(), self.spec_active(), tz) by {
                            if i < old_lines.len() {
                                assert(sysline.lines@[i] == old_lines[i]);
                            }
                        }
                        assert(sysline.lines@[0] == old_lines[0]);
                        assert forall|i: int| 0 <= i < sysline.lines@.len() implies line_at(data, *#[trigger] sysline.lines@[i]) by {
                            if i < old_lines.len() {
                                assert(sysline.lines@[i] == old_lines[i]);
                            }
                        }
                        assert forall|i: int| 0 <= i < sysline.lines@.len() - 1 implies #[trigger] sysline.lines@[i + 1].spec_begin() == sysline.lines@[i].spec_end() + 1 by {
                            if i + 1 < old_lines.len() {
                                assert(sysline.lines@[i] == old_lines[i]);
                                assert(sysline.lines@[i + 1] == old_lines[i + 1]);
                            } else {
                                assert(sysline.lines@[i] == old_lines.last());
                            }
                        }
                    }
                },
                Ok(_) => {
                    fo_b = fo1;
                    break;
                },
            }
            fo1 = fo2;
        }
        let syslinep = self.insert_sysline(sysline);
        let r = if eof {
            ResultS4::Found_EOF((fo1, syslinep))
        } else {
            ResultS4::Found((fo_b, syslinep))
        };
        self.cache_result(fileoffset, &r);
        r
    }

    /// Like `find_sysline`, but reading only lines that lie wholly within one block
    /// (`find_line_in_block`): `Done` where a line that is needed lies across blocks,
    /// and where the sysline's lines run to the end of the file.
    pub fn find_sysline_in_block(&mut self, fileoffset: FileOffset) -> (r: ResultS4_SyslineFind)
        requires
            old(self).wf(),
        ensures
            final(self).wf(),
            final(self).data() == old(self).data(),
            final(self).spec_tz() == old(self).spec_tz(),
            final(self).spec_blocksz() == old(self).spec_blocksz(),
            old(self).spec_syslines().dom().subset_of(final(self).spec_syslines().dom()),
            sysline_result_ok(old(self).data(), old(self).spec_tz(), fileoffset as int, r),
            patterns_within(final(self).spec_active(), old(self).spec_active()),
            r matches ResultS4::Found((_, slp)) ==> slp.spec_begin() <= fileoffset
                || no_dt_lines(old(self).data(), line_begin(old(self).data(), fileoffset as int), slp.spec_begin(), final(self).spec_active(), old(self).spec_tz()),
            r matches ResultS4::Found_EOF((_, slp)) ==> slp.spec_begin() <= fileoffset
                || no_dt_lines(old(self).data(), line_begin(old(self).data(), fileoffset as int), slp.spec_begin(), final(self).spec_active(), old(self).spec_tz()),
            r matches ResultS4::Found((_, slp)) ==> whole_sysline(*slp, old(self).data(), final(self).spec_active(), old(self).spec_tz()),
            r matches ResultS4::Found_EOF((_, slp)) ==> whole_sysline(*slp, old(self).data(), final(self).spec_active(), old(self).spec_tz()),
            r is Done ==> in_block_done_ok(old(self).data(), old(self).spec_blocksz(), final(self).spec_active(), old(self).spec_tz(), fileoffset as int),
            r matches ResultS4::Found((_, slp)) ==> lines_within_blocks(*slp, old(self).spec_blocksz())
                || stored_sysline(old(self).spec_syslines(), slp),
            r matches ResultS4::Found_EOF((_, slp)) ==> lines_within_blocks(*slp, old(self).spec_blocksz())
                || stored_sysline(old(self).spec_syslines(), slp),
            r matches ResultS4::Found((_, slp)) ==> dt_within(slp.dt.unwrap(), final(self).spec_dt_first(), final(self).spec_dt_last()),
            r matches ResultS4::Found_EOF((_, slp)) ==> dt_within(slp.dt.unwrap(), final(self).spec_dt_first(), final(self).spec_dt_last()),
            span_widened(old(self).spec_dt_first(), old(self).spec_dt_last(), final(self).spec_dt_first(), final(self).spec_dt_last()),
    {
        let ghost data = self.data();
        let ghost tz = self.tz_offset;
        let ghost dom0 = self.syslines@.dom();
        let ghost active0 = self.spec_active();
        if let Some(results4) = self.check_store(fileoffset) {
            proof {
                if results4 is Done && fileoffset < data.len() {
                    let lb = line_begin(data, fileoffset as int);
                    crate::linereader::lemma_line_begin(data, fileoffset as int);
                    assert(no_dt_lines(data, lb, lb, self.spec_active(), tz));
                    assert(no_dt_lines(data, lb + 1, data.len() as int, self.spec_active(), tz));
                }
            }
            return results4;
        }
        let mut fo1: FileOffset = fileoffset;
        let mut sysline = Sysline::new();
        proof {
            self.linereader.lemma_wf();
            if fileoffset < data.len() {
                crate::linereader::lemma_line_begin(data, fileoffset as int);
            }
        }
        let ghost lbfo: int = if fileoffset < data.len() { line_begin(data, fileoffset as int) } else { 0 };
        let ghost mut g_next: int = lbfo;
        loop
            invariant_except_break
                sysline.lines@.len() == 0,
                fo1 <= data.len() || fo1 == fileoffset,
                fileoffset < data.len() ==> {
                    &&& 0 <= lbfo <= fileoffset
                    &&& 0 <= g_next <= data.len()
                    &&& lbfo <= g_next
                    &&& (fo1 == fileoffset && g_next == lbfo) || (fo1 as int == g_next && (g_next < data.len() ==> line_begin(data, g_next) == g_next))
                    &&& no_dt_lines(data, lbfo, g_next, self.spec_active(), tz)
                },
            invariant
                patterns_within(self.spec_active(), active0),
                active0 == old(self).spec_active(),
                lbfo == (if fileoffset < data.len() { line_begin(data, fileoffset as int) } else { 0 }),
                self.wf(),
                self.data() == data,
                data == old(self).data(),
                self.tz_offset == tz,
                self.spec_blocksz() == old(self).spec_blocksz(),
                tz == old(self).tz_offset,
                span_widened(old(self).dt_first, old(self).dt_last, self.dt_first, self.dt_last),
                dom0 == old(self).syslines@.dom(),
                dom0.subset_of(self.syslines@.dom()),
                data.len() < 0x4000_0000_0000_0000,
                fileoffset <= fo1,
            ensures
                building(sysline, data, tz, fo1 as int),
                sysline.lines@.len() == 1,
                dt_by_builtin(sysline, tz),
                lines_within_blocks(sysline, self.spec_blocksz()),
                dt_within(sysline.dt.unwrap(), self.dt_first, self.dt_last),
                fileoffset <= sysline.spec_end(),
                fo1 < data.len(),
                fileoffset < data.len(),
                no_dt_lines(data, lbfo, sysline.spec_begin(), self.spec_active(), tz),
                lbfo <= sysline.spec_begin(),
            decreases data.len() + 1 - fo1,
        {
            let result: ResultS4_LineFind = self.linereader.find_line_in_block(fo1);
            let eof = result.is_eof();
            let (fo2, lp) = match result {
                ResultS4::Found((fo_, lp_)) => (fo_, lp_),
                ResultS4::Found_EOF((fo_, lp_)) => (fo_, lp_),
                ResultS4::Done => {
                    proof {
                        self.lemma_wf();
                        lemma_in_block_first_done(data, self.spec_blocksz(), self.spec_active(), tz, fileoffset as int, fo1 as int, g_next);
                    }
                    return ResultS4::Done;
                },
                ResultS4::Error(err) => {
                    return ResultS4::Error(err);
                },
            };
            proof {
                lemma_line_of_offset(data, fo1 as int);
                crate::linereader::lemma_line_begin(data, fo1 as int);
                crate::linereader::lemma_line_end(data, fo1 as int);
                assert(lp.spec_begin() / self.spec_blocksz() == lp.spec_end() / self.spec_blocksz());
            }
            let ghost active_before = self.spec_active();
            let parsed = self.parse_datetime_in_line_cached(&lp);
            proof {
                lemma_no_dt_lines_subset(data, lbfo, g_next, active_before, self.spec_active(), tz);
                assert(lp.spec_begin() == g_next);
            }
            match parsed {
                Err(_) => {
                    proof {
                        assert(fileoffset < data.len());
                        assert(lp.bytes() == line_bytes_at(data, g_next));
                        lemma_no_dt_lines_extend(data, lbfo, g_next, self.spec_active(), tz);
                        crate::linereader::lemma_line_end(data, g_next);
                        g_next = fo2 as int;
                        if g_next < data.len() {
                            assert(data[g_next - 1] == crate::common::NLu8);
                        }
                    }
                },
                Ok((dt_beg, dt_end, dt)) => {
                    sysline.dt_beg = dt_beg;
                    sysline.dt_end = dt_end;
                    sysline.dt = Some(dt);
                    sysline.push(lp);
                    fo1 = fo2;
                    proof {
                        assert(sysline.lines@[0] == lp);
                        assert(lines_consecutive(sysline.lines@));
                        assert(building(sysline, data, tz, fo1 as int));
                        assert(dt_by_builtin(sysline, tz));
                        assert(lines_within_blocks(sysline, self.spec_blocksz()));
                    }
                    if eof {
                        let syslinep = Arc::new(sysline);
                        let r = ResultS4::Found_EOF((fo1, syslinep));
                        self.cache_result(fileoffset, &r);
                        return r;
                    }
                    break;
                },
            }
            fo1 = fo2;
        }
        let mut fo_b: FileOffset = fo1;
        let mut eof = false;
        let ghost sl_begin = sysline.spec_begin();
        proof {
            assert(line_at(data, *sysline.lines@[0]));
            lemma_no_line_begins_within(data, sl_begin);
            assert(no_dt_lines(data, sl_begin + 1, fo1 as int, self.spec_active(), tz));
        }
        loop
            invariant
                patterns_within(self.spec_active(), active0),
                active0 == old(self).spec_active(),
                sysline.spec_begin() == sl_begin,
                no_dt_lines(data, lbfo, sl_begin, self.spec_active(), tz),
                self.wf(),
                self.data() == data,
                data == old(self).data(),
                self.tz_offset == tz,
                self.spec_blocksz() == old(self).spec_blocksz(),
                tz == old(self).tz_offset,
                span_widened(old(self).dt_first, old(self).dt_last, self.dt_first, self.dt_last),
                dom0 == old(self).syslines@.dom(),
                dom0.subset_of(self.syslines@.dom()),
                data.len() < 0x4000_0000_0000_0000,
                building(sysline, data, tz, fo1 as int),
                tail_no_dt(sysline, self.spec_active(), tz),
                dt_by_builtin(sysline, tz),
                lines_within_blocks(sysline, self.spec_blocksz()),
                dt_within(sysline.dt.unwrap(), self.dt_first, self.dt_last),
                fileoffset <= sysline.spec_end(),
                fo1 <= data.len(),
                lbfo <= sl_begin,
                fileoffset < data.len(),
                lbfo == line_begin(data, fileoffset as int),
                no_dt_lines(data, sl_begin + 1, fo1 as int, self.spec_active(), tz),
            ensures
                patterns_within(self.spec_active(), active0),
                sysline.spec_begin() == sl_begin,
                no_dt_lines(data, lbfo, sl_begin, self.spec_active(), tz),
                self.wf(),
                self.data() == data,
                self.tz_offset == tz,
                self.spec_blocksz() == old(self).spec_blocksz(),
                dom0.subset_of(self.syslines@.dom()),
                building(sysline, data, tz, fo1 as int),
                tail_no_dt(sysline, self.spec_active(), tz),
                dt_by_builtin(sysline, tz),
                lines_within_blocks(sysline, self.spec_blocksz()),
                dt_within(sysline.dt.unwrap(), self.dt_first, self.dt_last),
                fileoffset <= sysline.spec_end(),
                fo1 < data.len() && fo_b == fo1,
                exists|d: DateTime_Parse_Data| #[trigger] dtpd_result(line_bytes_at(data, fo1 as int), d, tz) is Some,
            decreases data.len() - fo1,
        {
            let result = self.linereader.find_line_in_block(fo1);
            let (fo2, linep) = match result {
                ResultS4::Found((fo_, lp_)) => (fo_, lp_),
                ResultS4::Found_EOF((fo_, lp_)) => {
                    eof = true;
                    (fo_, lp_)
                },
                ResultS4::Done => {
                    proof {
                        self.lemma_wf();
                        sysline.lemma_span(data, tz);
                        lemma_in_block_tail_done(data, self.spec_blocksz(), self.spec_active(), tz, fileoffset as int,
                            sysline.lines@.last(), sl_begin, fo1 as int);
                    }
                    return ResultS4::Done;
                },
                ResultS4::Error(err) => {
                    return ResultS4::Error(err);
                },
            };
            proof {
                lemma_next_line(data, sysline.lines@.last(), linep, fo1 as int);
                crate::linereader::lemma_line_end(data, fo1 as int);
                lemma_line_of_offset(data, fo1 as int);
                sysline.lemma_span(data, tz);
            }
            let ghost active_before = self.spec_active();
            let ghost span_before = (self.dt_first, self.dt_last);
            let parsed = self.parse_datetime_in_line_cached(&linep);
            proof {
                assert(dt_within(sysline.dt.unwrap(), span_before.0, span_before.1));
                lemma_no_dt_lines_subset(data, lbfo, sl_begin, active_before, self.spec_active(), tz);
                lemma_no_dt_lines_subset(data, sl_begin + 1, fo1 as int, active_before, self.spec_active(), tz);
                lemma_tail_within(sysline, active_before, self.spec_active(), tz);
                assert(linep.bytes() == line_bytes_at(data, fo1 as int));
            }
            match parsed {
                Err(_) => {
                    let ghost old_lines = sysline.lines@;
                    proof {
                        lemma_no_dt_lines_extend(data, sl_begin + 1, fo1 as int, self.spec_active(), tz);
                    }
                    sysline.push(linep);
                    proof {
                        assert(sysline.lines@.last() == linep);
                        assert forall|i: int| 1 <= i < sysline.lines@.len() implies !#[trigger] has_dt(sysline.lines@[i].bytes(), self.spec_active(), tz) by {
                            if i < old_lines.len() {
                                assert(sysline.lines@[i] == old_lines[i]);
                            }
                        }
                        assert(sysline.lines@[0] == old_lines[0]);
                        assert forall|i: int| 0 <= i < sysline.lines@.len() implies line_at(data, *#[trigger] sysline.lines@[i]) by {
                            if i < old_lines.len() {
                                assert(sysline.lines@[i] == old_lines[i]);
                            }
                        }
                        assert(linep.spec_end() == line_end(data, fo1 as int));
                        assert forall|i: int| 0 <= i < sysline.lines@.len() implies #[trigger] sysline.lines@[i].spec_begin() / self.spec_blocksz()
                            == sysline.lines@[i].spec_end() / self.spec_blocksz() by {
                            if i < old_lines.len() {
                                assert(sysline.lines@[i] == old_lines[i]);
                            }
                        }
                        assert forall|i: int| 0 <= i < sysline.lines@.len() - 1 implies #[trigger] sysline.lines@[i + 1].spec_begin() == sysline.lines@[i].spec_end() + 1 by {
                            if i + 1 < old_lines.len() {
                                assert(sysline.lines@[i] == old_lines[i]);
                                assert(sysline.lines@[i + 1] == old_lines[i + 1]);
                            } else {
                                assert(sysline.lines@[i] == old_lines.last());
                            }
                        }
                    }
                },
                Ok(_) => {
                    fo_b = fo1;
                    break;
                },
            }
            fo1 = fo2;
        }
        let syslinep = self.insert_sysline(sysline);
        proof {
            syslinep.lemma_span(data, tz);
            assert(line_at(data, *syslinep.lines@[syslinep.lines@.len() - 1]));
        }
        if eof && !self.is_sysline_last(&syslinep) {
            eof = false;
        }
        let r = if eof {
            ResultS4::Found_EOF((fo_b, syslinep))
        } else {
            ResultS4::Found((fo_b, syslinep))
        };
        self.cache_result(fileoffset, &r);
        r
    }
}


impl SyslineReader {
    /// How the datetime of a sysline compares to a filter.
    pub fn sysline_dt_after_or_before(syslinep: &SyslineP, dt_filter: &DateTimeL_Opt) -> (r: Result_Filter_DateTime1)
        requires
            syslinep.dt is Some,
        ensures
            r == spec_dt_after_or_before(syslinep.dt.unwrap(), *dt_filter),
    {
        let dt: DateTimeL = match syslinep.dt {
            Some(d) => d,
            None => {
                proof {
                    assert(false);
                }
                return Result_Filter_DateTime1::Pass;
            },
        };
        dt_after_or_before(&dt, dt_filter)
    }

    /// How the datetime of a sysline compares to two filters.
    pub fn sysline_pass_filters(
        syslinep: &SyslineP,
        dt_filter_after: &DateTimeL_Opt,
        dt_filter_before: &DateTimeL_Opt,
    ) -> (r: Result_Filter_DateTime2)
        requires
            syslinep.dt is Some,
            filters_ordered(*dt_filter_after, *dt_filter_before),
        ensures
            r == spec_dt_pass_filters(syslinep.dt.unwrap(), *dt_filter_after, *dt_filter_before),
    {
        let dt: DateTimeL = match syslinep.dt {
            Some(d) => d,
            None => {
                proof {
                    assert(false);
                }
                return Result_Filter_DateTime2::InRange;
            },
        };
        dt_pass_filters(&dt, dt_filter_after, dt_filter_before)
    }

    /// Searches (by halving the range of offsets tried) for the first sysline, at or
    /// after `fileoffset`, whose datetime is at or after `dt_filter`; with no filter,
    /// the sysline that `find_sysline` finds. Gives the offset just past it. A sysline
    /// that it gives is never before the filter: where the search settles on one that
    /// is, it gives `Done`.
    #[verifier::rlimit(100)]
    #[verifier::spinoff_prover]
    pub fn find_sysline_at_datetime_filter(&mut self, fileoffset: FileOffset, dt_filter: &DateTimeL_Opt) -> (r: ResultS4_SyslineFind)
        requires
            old(self).wf(),
            fileoffset <= old(self).data().len(),
        ensures
            final(self).wf(),
            final(self).data() == old(self).data(),
            final(self).spec_tz() == old(self).spec_tz(),
            final(self).spec_blocksz() == old(self).spec_blocksz(),
            patterns_within(final(self).spec_active(), old(self).spec_active()),
            !(r is Error),
            r matches ResultS4::Found((n, slp)) ==> slp.ok(old(self).data(), old(self).spec_tz())
                && n == slp.spec_end() + 1 && n <= old(self).data().len() && fileoffset <= slp.spec_end(),
            r matches ResultS4::Found_EOF((n, slp)) ==> slp.ok(old(self).data(), old(self).spec_tz())
                && n == slp.spec_end() + 1 && n == old(self).data().len() && fileoffset <= slp.spec_end(),
            r matches ResultS4::Found((_, slp)) ==> whole_sysline(*slp, old(self).data(), final(self).spec_active(), old(self).spec_tz()),
            r matches ResultS4::Found_EOF((_, slp)) ==> whole_sysline(*slp, old(self).data(), final(self).spec_active(), old(self).spec_tz()),
            r matches ResultS4::Found((_, slp)) ==> dt_within(slp.dt.unwrap(), final(self).spec_dt_first(), final(self).spec_dt_last()),
            r matches ResultS4::Found_EOF((_, slp)) ==> dt_within(slp.dt.unwrap(), final(self).spec_dt_first(), final(self).spec_dt_last()),
            span_widened(old(self).spec_dt_first(), old(self).spec_dt_last(), final(self).spec_dt_first(), final(self).spec_dt_last()),
            r matches ResultS4::Found((_, slp)) ==> spec_dt_after_or_before(slp.dt.unwrap(), *dt_filter) != Result_Filter_DateTime1::OccursBefore,
            r matches ResultS4::Found_EOF((_, slp)) ==> spec_dt_after_or_before(slp.dt.unwrap(), *dt_filter) != Result_Filter_DateTime1::OccursBefore,
            dt_filter is None ==> (r matches ResultS4::Found((_, slp)) ==> sysline_met_from(*slp, old(self).data(), final(self).spec_active(), old(self).spec_tz(), fileoffset as int)),
            dt_filter is None ==> (r matches ResultS4::Found_EOF((_, slp)) ==> sysline_met_from(*slp, old(self).data(), final(self).spec_active(), old(self).spec_tz(), fileoffset as int)),
            dt_filter is None && r is Done ==> done_entry_ok(old(self).data(), old(self).spec_tz(), final(self).spec_active(), fileoffset as int),
            dt_filter matches Some(f) ==> (r is Done ==> filter_search_may_stop(old(self).data(), final(self).spec_active(), old(self).spec_tz(), fileoffset as int, *f)),
            dt_filter matches Some(f) ==> (r is Done ==> filter_search_gave_up(old(self).data(), final(self).spec_active(), old(self).spec_tz(), fileoffset as int, *f)),
            dt_filter matches Some(f) ==> (r matches ResultS4::Found((_, slp)) ==> sysline_met_from(*slp, old(self).data(), final(self).spec_active(), old(self).spec_tz(), fileoffset as int)
                || met_first_before(old(self).data(), final(self).spec_active(), old(self).spec_tz(), fileoffset as int, *f)),
            dt_filter matches Some(f) ==> (r matches ResultS4::Found_EOF((_, slp)) ==> sysline_met_from(*slp, old(self).data(), final(self).spec_active(), old(self).spec_tz(), fileoffset as int)
                || met_first_before(old(self).data(), final(self).spec_active(), old(self).spec_tz(), fileoffset as int, *f)),
            dt_filter is None ==> (r matches ResultS4::Found((_, slp)) ==> slp.spec_begin() <= fileoffset
                || no_dt_lines(old(self).data(), line_begin(old(self).data(), fileoffset as int), slp.spec_begin(), final(self).spec_active(), old(self).spec_tz())),
            dt_filter is None ==> (r matches ResultS4::Found_EOF((_, slp)) ==> slp.spec_begin() <= fileoffset
                || no_dt_lines(old(self).data(), line_begin(old(self).data(), fileoffset as int), slp.spec_begin(), final(self).spec_active(), old(self).spec_tz())),
    {
        let ghost data = self.data();
        let ghost tz = self.tz_offset;
        let filesz = self.filesz();
        let mut try_fo: FileOffset = fileoffset;
        let mut try_fo_last: FileOffset = try_fo;
        let mut slp_opt: Option<SyslineP> = None;
        let mut fo_a: FileOffset = fileoffset;
        let mut fo_b: FileOffset = filesz;
        let ghost mut first: bool = true;
        let ghost mut g_p: Option<Sysline> = None;
        let ghost mut g_q: Option<(Sysline, int)> = None;
        let ghost mut gave: bool = false;
        loop
            invariant_except_break
                !first ==> try_fo == fo_a + (fo_b - fo_a) / 2,
                g_p matches Some(p) ==> dt_filter is Some && whole_sysline(p, data, self.spec_active(), tz)
                    && fileoffset <= p.spec_end() && p.spec_end() + 1 <= data.len() && dt_before(p.dt.unwrap(), dt_filter->0),
                dt_filter is Some && fo_a > fileoffset ==> (g_p matches Some(p) && fo_a <= p.spec_end()),
                g_q matches Some((q, tq)) ==> dt_filter is Some && sysline_met_from(q, data, self.spec_active(), tz, tq)
                    && !dt_before(q.dt.unwrap(), dt_filter->0) && fileoffset <= tq,
                dt_filter is Some && fo_b < filesz ==> gave || (g_q matches Some((q, tq)) && fo_b <= tq && (fo_b == q.spec_begin() || fo_b == tq)),
                dt_filter is Some && gave ==> filter_search_gave_up(data, self.spec_active(), tz, fileoffset as int, dt_filter->0),
            invariant
                self.wf(),
                self.data() == data,
                data == old(self).data(),
                self.tz_offset == tz,
                self.spec_blocksz() == old(self).spec_blocksz(),
                tz == old(self).tz_offset,
                filesz == data.len(),
                fileoffset <= fo_a <= try_fo <= fo_b <= filesz,
                slp_opt matches Some(s) ==> whole_sysline(*s, data, self.spec_active(), tz) && s.spec_end() + 1 <= data.len() && fileoffset <= s.spec_end(),
                slp_opt matches Some(s) ==> dt_within(s.dt.unwrap(), self.spec_dt_first(), self.spec_dt_last()),
                span_widened(old(self).spec_dt_first(), old(self).spec_dt_last(), self.spec_dt_first(), self.spec_dt_last()),
                patterns_within(self.spec_active(), old(self).spec_active()),
                first ==> try_fo == fileoffset,
                dt_filter is None ==> slp_opt is None,
                dt_filter is None && !first ==> done_entry_ok(data, tz, self.spec_active(), fileoffset as int),
                dt_filter is Some && !first ==> filter_search_may_stop(data, self.spec_active(), tz, fileoffset as int, dt_filter->0),
            ensures
                dt_filter is None ==> done_entry_ok(data, tz, self.spec_active(), fileoffset as int),
                dt_filter is Some ==> filter_search_may_stop(data, self.spec_active(), tz, fileoffset as int, dt_filter->0),
                dt_filter is Some ==> filter_search_gave_up(data, self.spec_active(), tz, fileoffset as int, dt_filter->0),
            decreases 2 * (fo_b - fo_a) + (if try_fo == fo_a + (fo_b - fo_a) / 2 { 0int } else { 1int }),
        {
            let ghost a0 = fo_a;
            let ghost b0 = fo_b;
            let ghost t0 = try_fo;
            let ghost active_before = self.spec_active();
            let ghost span_before = (self.spec_dt_first(), self.spec_dt_last());
            let result = self.find_sysline(try_fo);
            proof {
                if dt_filter is None && !first {
                    lemma_done_entry_within(data, tz, active_before, self.spec_active(), fileoffset as int);
                }
                if dt_filter is Some && !first {
                    lemma_filter_search_may_stop_within(data, active_before, self.spec_active(), tz, fileoffset as int, dt_filter->0);
                }
                if dt_filter is Some && gave {
                    lemma_gave_up_within(data, active_before, self.spec_active(), tz, fileoffset as int, dt_filter->0);
                }
                if g_p is Some {
                    lemma_whole_within(&g_p->0, data, active_before, self.spec_active(), tz);
                }
                if g_q is Some {
                    lemma_met_from_within(&(g_q->0).0, data, active_before, self.spec_active(), tz, (g_q->0).1);
                }
                if slp_opt is Some {
                    lemma_whole_within(&slp_opt->0, data, active_before, self.spec_active(), tz);
                    assert(dt_within(slp_opt->0.dt.unwrap(), span_before.0, span_before.1));
                }
            }
            let eof = result.is_eof();
            let done = result.is_done();
            match result {
                ResultS4::Found((fo, slp)) | ResultS4::Found_EOF((fo, slp)) => {
                    proof {
                        slp.lemma_span(data, tz);
                        assert(line_at(data, *slp.lines@[0]));
                        assert(line_at(data, *slp.lines@[slp.lines@.len() - 1]));
                    }
                    match SyslineReader::sysline_dt_after_or_before(&slp, dt_filter) {
                        Result_Filter_DateTime1::Pass => {
                            if !eof {
                                return ResultS4::Found((fo, slp));
                            } else {
                                return ResultS4::Found_EOF((fo, slp));
                            }
                        },
                        Result_Filter_DateTime1::OccursAtOrAfter => {
                            if try_fo == fileoffset {
                                if !eof {
                                    return ResultS4::Found((fo, slp));
                                } else {
                                    return ResultS4::Found_EOF((fo, slp));
                                }
                            }
                            try_fo_last = try_fo;
                            let slp_beg = slp.fileoffset_begin();
                            fo_b = if slp_beg < try_fo_last { slp_beg } else { try_fo_last };
                            if fo_b < fo_a {
                                proof {
                                    let ff = dt_filter->0;
                                    let aa = self.spec_active();
                                    if fo_a > fileoffset {
                                        let p = g_p->0;
                                        assert(filter_order_broken(data, aa, tz, fileoffset as int, ff)) by {
                                            assert(whole_sysline(p, data, aa, tz) && whole_sysline(*slp, data, aa, tz));
                                        }
                                    } else if !done_entry_ok(data, tz, aa, fileoffset as int) {
                                        let s0 = choose|s: Sysline| #[trigger] sysline_met_from(s, data, aa, tz, fileoffset as int) && dt_before(s.dt.unwrap(), ff);
                                        assert(sysline_met_from(*slp, data, aa, tz, fileoffset as int));
                                        assert(filter_order_broken(data, aa, tz, fileoffset as int, ff)) by {
                                            assert(sysline_met_from(s0, data, aa, tz, fileoffset as int) && sysline_met_from(*slp, data, aa, tz, fileoffset as int));
                                        }
                                    }
                                    gave = true;
                                }
                                fo_b = fo_a;
                            } else {
                                proof {
                                    g_q = Some((sysline_value(&slp), try_fo_last as int));
                                }
                            }
                            try_fo = fo_a + ((fo_b - fo_a) / 2);
                        },
                        Result_Filter_DateTime1::OccursBefore => {
                            proof {
                                if first {
                                    assert(sysline_met_from(*slp, data, self.spec_active(), tz, fileoffset as int));
                                    assert(filter_search_may_stop(data, self.spec_active(), tz, fileoffset as int, dt_filter->0));
                                }
                            }
                            let slp_foe = slp.fileoffset_end();
                            try_fo_last = try_fo;
                            fo_a = if slp_foe < fo_b { slp_foe } else { fo_b };
                            proof {
                                g_p = Some(sysline_value(&slp));
                            }
                            try_fo = fo_a + ((fo_b - fo_a) / 2);
                        },
                    }
                    slp_opt = Some(slp);
                },
                ResultS4::Done => {
                    proof {
                        if first && dt_filter is Some {
                            assert(filter_search_may_stop(data, self.spec_active(), tz, fileoffset as int, dt_filter->0));
                        }
                    }
                    try_fo_last = try_fo;
                    try_fo = fo_a + ((fo_b - fo_a) / 2);
                },
                ResultS4::Error(_) => {
                    proof {
                        assert(false);
                    }
                    break;
                },
            }
            proof {
                first = false;
            }
            if done && try_fo == try_fo_last {
                proof {
                    if dt_filter is Some {
                        let aa = self.spec_active();
                        if t0 < data.len() {
                            assert(done_entry_ok(data, tz, aa, t0 as int));
                        } else {
                            assert(t0 == fileoffset);
                        }
                    }
                }
                break;
            } else if try_fo != try_fo_last {
                proof {
                    assert(try_fo_last == t0);
                    assert(try_fo == fo_a + (fo_b - fo_a) / 2);
                }
                continue;
            }
            let slp = match slp_opt {
                Some(s) => s,
                None => {
                    break;
                },
            };
            proof {
                slp.lemma_span(data, tz);
                assert(line_at(data, *slp.lines@[0]));
                assert(line_at(data, *slp.lines@[slp.lines@.len() - 1]));
            }
            let fo_beg = slp.fileoffset_begin();
            if self.is_sysline_last(&slp) && fo_beg < try_fo {
                proof {
                    if dt_filter is Some {
                        let aa = self.spec_active();
                        let ff = dt_filter->0;
                        if dt_before(slp.dt.unwrap(), ff) {
                            assert(last_sysline_before(data, aa, tz, fileoffset as int, ff)) by {
                                assert(whole_sysline(*slp, data, aa, tz));
                            }
                        }
                    }
                }
                return ResultS4::Done;
            }
            let fo_next = slp.fileoffset_next();
            let mut slp_res: SyslineP = arc_clone(&slp);
            let ghost active_mid = self.spec_active();
            let ghost span_mid = (self.spec_dt_first(), self.spec_dt_last());
            if fo_beg < try_fo {
                let found_next = self.find_sysline(fo_next);
                proof {
                    lemma_whole_within(&slp, data, active_mid, self.spec_active(), tz);
                    assert(dt_within(slp.dt.unwrap(), span_mid.0, span_mid.1));
                    if dt_filter is Some {
                        lemma_filter_search_may_stop_within(data, active_mid, self.spec_active(), tz, fileoffset as int, dt_filter->0);
                    }
                }
                let slp_next: SyslineP = match found_next {
                    ResultS4::Found_EOF((_, slp_)) => slp_,
                    ResultS4::Found((_, slp_)) => slp_,
                    ResultS4::Done => {
                        break;
                    },
                    ResultS4::Error(_) => {
                        break;
                    },
                };
                let slp_compare = SyslineReader::sysline_dt_after_or_before(&slp, dt_filter);
                let slp_next_compare = SyslineReader::sysline_dt_after_or_before(&slp_next, dt_filter);
                slp_res = match (slp_compare, slp_next_compare) {
                    (_, Result_Filter_DateTime1::Pass) | (Result_Filter_DateTime1::Pass, _) => {
                        break;
                    },
                    (Result_Filter_DateTime1::OccursBefore, Result_Filter_DateTime1::OccursBefore) => slp_next,
                    (Result_Filter_DateTime1::OccursBefore, Result_Filter_DateTime1::OccursAtOrAfter) => slp_next,
                    (Result_Filter_DateTime1::OccursAtOrAfter, Result_Filter_DateTime1::OccursAtOrAfter) => slp,
                    _ => {
                        break;
                    },
                };
            }
            proof {
                slp_res.lemma_span(data, tz);
                assert(line_at(data, *slp_res.lines@[slp_res.lines@.len() - 1]));
            }
            if SyslineReader::sysline_dt_after_or_before(&slp_res, dt_filter) == Result_Filter_DateTime1::OccursBefore {
                return ResultS4::Done;
            }
            proof {
                if dt_filter is Some && done_entry_ok(data, tz, self.spec_active(), fileoffset as int) {
                    lemma_met_from_after_done(&slp_res, data, self.spec_active(), tz, fileoffset as int);
                }
            }
            let fo_ = slp_res.fileoffset_next();
            return ResultS4::Found((fo_, slp_res));
        }
        ResultS4::Done
    }

    /// The first sysline, at or after `fileoffset`, at or after `dt_filter_after`
    /// (`find_sysline_at_datetime_filter`), where it is also at or before
    /// `dt_filter_before`; else `Done`. A sysline that it gives passes both filters.
    pub fn find_sysline_between_datetime_filters(
        &mut self,
        fileoffset: FileOffset,
        dt_filter_after: &DateTimeL_Opt,
        dt_filter_before: &DateTimeL_Opt,
    ) -> (r: ResultS4_SyslineFind)
        requires
            old(self).wf(),
            fileoffset <= old(self).data().len(),
            filters_ordered(*dt_filter_after, *dt_filter_before),
        ensures
            final(self).wf(),
            final(self).data() == old(self).data(),
            final(self).spec_tz() == old(self).spec_tz(),
            final(self).spec_blocksz() == old(self).spec_blocksz(),
            patterns_within(final(self).spec_active(), old(self).spec_active()),
            !(r is Error),
            r matches ResultS4::Found((n, slp)) ==> slp.ok(old(self).data(), old(self).spec_tz())
                && n == slp.spec_end() + 1 && n <= old(self).data().len() && fileoffset <= slp.spec_end()
                && spec_dt_pass_filters(slp.dt.unwrap(), *dt_filter_after, *dt_filter_before) == Result_Filter_DateTime2::InRange,
            r matches ResultS4::Found_EOF((n, slp)) ==> slp.ok(old(self).data(), old(self).spec_tz())
                && n == slp.spec_end() + 1 && n == old(self).data().len() && fileoffset <= slp.spec_end()
                && spec_dt_pass_filters(slp.dt.unwrap(), *dt_filter_after, *dt_filter_before) == Result_Filter_DateTime2::InRange,
            r matches ResultS4::Found((_, slp)) ==> whole_sysline(*slp, old(self).data(), final(self).spec_active(), old(self).spec_tz()),
            r matches ResultS4::Found_EOF((_, slp)) ==> whole_sysline(*slp, old(self).data(), final(self).spec_active(), old(self).spec_tz()),
            r matches ResultS4::Found((_, slp)) ==> dt_within(slp.dt.unwrap(), final(self).spec_dt_first(), final(self).spec_dt_last()),
            r matches ResultS4::Found_EOF((_, slp)) ==> dt_within(slp.dt.unwrap(), final(self).spec_dt_first(), final(self).spec_dt_last()),
            span_widened(old(self).spec_dt_first(), old(self).spec_dt_last(), final(self).spec_dt_first(), final(self).spec_dt_last()),
            dt_filter_after is None ==> (r matches ResultS4::Found((_, slp)) ==> slp.spec_begin() <= fileoffset
                || no_dt_lines(old(self).data(), line_begin(old(self).data(), fileoffset as int), slp.spec_begin(), final(self).spec_active(), old(self).spec_tz())),
            r is Done ==> done_entry_ok(old(self).data(), old(self).spec_tz(), final(self).spec_active(), fileoffset as int)
                || met_first_out_of_range(old(self).data(), final(self).spec_active(), old(self).spec_tz(), fileoffset as int, *dt_filter_after, *dt_filter_before),
            r is Done ==> between_search_gave_up(old(self).data(), final(self).spec_active(), old(self).spec_tz(), fileoffset as int, *dt_filter_after, *dt_filter_before),
            r matches ResultS4::Found((_, slp)) ==> sysline_met_from(*slp, old(self).data(), final(self).spec_active(), old(self).spec_tz(), fileoffset as int)
                || met_first_out_of_range(old(self).data(), final(self).spec_active(), old(self).spec_tz(), fileoffset as int, *dt_filter_after, *dt_filter_before),
            r matches ResultS4::Found_EOF((_, slp)) ==> sysline_met_from(*slp, old(self).data(), final(self).spec_active(), old(self).spec_tz(), fileoffset as int)
                || met_first_out_of_range(old(self).data(), final(self).spec_active(), old(self).spec_tz(), fileoffset as int, *dt_filter_after, *dt_filter_before),
    {
        let ghost data = self.data();
        let ghost tz = self.tz_offset;
        let r0 = self.find_sysline_at_datetime_filter(fileoffset, dt_filter_after);
        proof {
            let a = self.spec_active();
            let fo = fileoffset as int;
            if dt_filter_after is Some && met_first_before(data, a, tz, fo, dt_filter_after->0) {
                lemma_met_first_before_out_of_range(data, a, tz, fo, dt_filter_after->0, *dt_filter_before);
            }
        }
        match r0 {
            ResultS4::Found((fo, slp)) => {
                proof {
                    let a = self.spec_active();
                    let fo0 = fileoffset as int;
                    assert(sysline_met_from(*slp, data, a, tz, fo0)
                        && spec_dt_pass_filters(slp.dt.unwrap(), *dt_filter_after, *dt_filter_before) != Result_Filter_DateTime2::InRange
                        ==> met_first_out_of_range(data, a, tz, fo0, *dt_filter_after, *dt_filter_before));
                }
                match SyslineReader::sysline_pass_filters(&slp, dt_filter_after, dt_filter_before) {
                    Result_Filter_DateTime2::InRange => {
                        return ResultS4::Found((fo, slp));
                    },
                    Result_Filter_DateTime2::BeforeRange => {
                        return ResultS4::Done;
                    },
                    Result_Filter_DateTime2::AfterRange => {
                        proof {
                            assert(whole_sysline(*slp, data, self.spec_active(), tz));
                        }
                        return ResultS4::Done;
                    },
                }
            },
            ResultS4::Found_EOF((fo, slp)) => {
                proof {
                    let a = self.spec_active();
                    let fo0 = fileoffset as int;
                    assert(sysline_met_from(*slp, data, a, tz, fo0)
                        && spec_dt_pass_filters(slp.dt.unwrap(), *dt_filter_after, *dt_filter_before) != Result_Filter_DateTime2::InRange
                        ==> met_first_out_of_range(data, a, tz, fo0, *dt_filter_after, *dt_filter_before));
                }
                match SyslineReader::sysline_pass_filters(&slp, dt_filter_after, dt_filter_before) {
                    Result_Filter_DateTime2::InRange => {
                        return ResultS4::Found_EOF((fo, slp));
                    },
                    _ => {
                        proof {
                            assert(whole_sysline(*slp, data, self.spec_active(), tz));
                        }
                        return ResultS4::Done;
                    },
                }
            },
            ResultS4::Done => {},
            ResultS4::Error(err) => {
                return ResultS4::Error(err);
            },
        }
        ResultS4::Done
    }

    /// The offsets at which the stored syslines begin, in increasing order.
    fn syslines_keys(&self) -> (keys: Vec<FileOffset>)
        ensures
            keys@.to_set() == self.syslines@.dom(),
            forall|a: int, b: int| 0 <= a < b < keys@.len() ==> keys@[a] < keys@[b],
    {
        let mut keys: Vec<FileOffset> = Vec::new();
        let ghost all = vstd::std_specs::iter::IteratorSpec::remaining(&vstd::std_specs::btree::spec_keys_iter(&self.syslines));
        for k in it: self.syslines.keys()
            invariant
                keys@.len() == it.index(),
                it.seq() == all,
                keys@.len() <= all.len(),
                forall|j: int| 0 <= j < keys@.len() ==> keys@[j] == *#[trigger] all[j],
        {
            keys.push(*k);
        }
        proof {
            broadcast use vstd::std_specs::btree::group_btree_axioms;
            broadcast use vstd::laws_cmp::group_laws_cmp;
            vstd::std_specs::btree::axiom_spec_keys_iter(&self.syslines);
            assert(keys@ =~= all.unref());
            assert(vstd::std_specs::btree::increasing_seq(all));
            assert(vstd::laws_cmp::obeys_cmp::<&u64>());
            assert forall|a: int, b: int| 0 <= a < b < keys@.len() implies keys@[a] < keys@[b] by {
                assert(vstd::std_specs::cmp::OrdSpec::cmp_spec(&all[a], &all[b]) is Less);
            }
        }
        keys
    }

    /// Drops the stored sysline that begins at `fileoffset`, with its lines and the
    /// blocks they lie in (adding those block offsets to `bo_dropped`).
    pub fn drop_sysline(&mut self, fileoffset: &FileOffset, bo_dropped: &mut std::collections::HashSet<BlockOffset>)
        requires
            old(self).wf(),
        ensures
            final(self).wf(),
            final(self).data() == old(self).data(),
            final(self).spec_tz() == old(self).spec_tz(),
            final(self).spec_blocksz() == old(self).spec_blocksz(),
            final(self).spec_syslines() == old(self).spec_syslines().remove(*fileoffset),
            final(self).spec_active() == old(self).spec_active(),
            final(self).spec_dt_first() == old(self).spec_dt_first(),
            final(self).spec_dt_last() == old(self).spec_dt_last(),
    {
        let syslinep: SyslineP = match self.syslines.remove(fileoffset) {
            Some(s) => s,
            None => {
                proof {
                    assert(self.syslines@ =~= old(self).syslines@.remove(*fileoffset));
                }
                return;
            },
        };
        find_cache_pop(&mut self.find_sysline_lru_cache, *fileoffset);
        self.drop_sysline_ok = self.drop_sysline_ok.saturating_add(1);
        self.linereader.drop_lines(&syslinep.lines, bo_dropped);
    }

    /// Drops the stored syslines, in order of offset, up to the first that lies
    /// (in part) after block `blockoffset`.
    pub fn drop_block(&mut self, blockoffset: BlockOffset, bo_dropped: &mut std::collections::HashSet<BlockOffset>)
        requires
            old(self).wf(),
        ensures
            final(self).wf(),
            final(self).data() == old(self).data(),
            final(self).spec_tz() == old(self).spec_tz(),
            final(self).spec_blocksz() == old(self).spec_blocksz(),
            final(self).spec_syslines().dom().subset_of(old(self).spec_syslines().dom()),
            forall|b: u64| #[trigger] final(self).spec_syslines().contains_key(b) <==>
                old(self).spec_syslines().contains_key(b) && kept_by_drop(old(self).spec_syslines(), blockoffset, b),
            forall|b: u64| #[trigger] final(self).spec_syslines().contains_key(b) ==>
                final(self).spec_syslines()[b] == old(self).spec_syslines()[b],
            final(self).spec_active() == old(self).spec_active(),
            final(self).spec_dt_first() == old(self).spec_dt_first(),
            final(self).spec_dt_last() == old(self).spec_dt_last(),
    {
        let keys = self.syslines_keys();
        let ghost sls = old(self).syslines@;
        let mut i: usize = 0;
        while i < keys.len()
            invariant_except_break
                forall|j: int| 0 <= j < i ==> sysline_last_block(*sls[#[trigger] keys@[j]]) <= blockoffset,
            invariant
                self.wf(),
                self.data() == old(self).data(),
                self.spec_tz() == old(self).spec_tz(),
                self.spec_blocksz() == old(self).spec_blocksz(),
                self.syslines@.dom().subset_of(old(self).syslines@.dom()),
                self.spec_active() == old(self).spec_active(),
                self.spec_dt_first() == old(self).spec_dt_first(),
                self.spec_dt_last() == old(self).spec_dt_last(),
                sls == old(self).syslines@,
                keys@.to_set() == sls.dom(),
                forall|x: int, y: int| 0 <= x < y < keys@.len() ==> keys@[x] < keys@[y],
                i <= keys@.len(),
                forall|c: u64| #[trigger] self.syslines@.contains_key(c) ==> self.syslines@[c] == sls[c],
                forall|c: u64| #[trigger] self.syslines@.contains_key(c) <==>
                    (sls.contains_key(c) && forall|j: int| 0 <= j < i ==> keys@[j] != c),
            ensures
                self.wf(),
                self.data() == old(self).data(),
                self.spec_tz() == old(self).spec_tz(),
                self.spec_blocksz() == old(self).spec_blocksz(),
                self.syslines@.dom().subset_of(old(self).syslines@.dom()),
                self.spec_active() == old(self).spec_active(),
                self.spec_dt_first() == old(self).spec_dt_first(),
                self.spec_dt_last() == old(self).spec_dt_last(),
                forall|c: u64| #[trigger] self.syslines@.contains_key(c) ==> self.syslines@[c] == sls[c],
                forall|c: u64| #[trigger] self.syslines@.contains_key(c) <==>
                    (sls.contains_key(c) && kept_by_drop(sls, blockoffset, c)),
            decreases keys@.len() - i,
        {
            let fo_key = keys[i];
            proof {
                assert(keys@.to_set().contains(fo_key));
                assert(forall|j: int| 0 <= j < i ==> keys@[j] < keys@[i as int]);
                assert(self.syslines@.contains_key(fo_key));
            }
            match self.syslines.get(&fo_key) {
                Some(slp) => {
                    proof {
                        assert(line_at(self.data(), *slp.lines@[slp.lines@.len() - 1]));
                    }
                    let bo_last = slp.blockoffset_last();
                    if bo_last > blockoffset {
                        proof {
                            assert(sysline_last_block(*sls[fo_key]) > blockoffset);
                            assert forall|c: u64| #[trigger] self.syslines@.contains_key(c) <==>
                                (sls.contains_key(c) && kept_by_drop(sls, blockoffset, c)) by {
                                if sls.contains_key(c) {
                                    assert(keys@.to_set().contains(c));
                                    let m = choose|m: int| 0 <= m < keys@.len() && keys@[m] == c;
                                    if m >= i {
                                        if m > i {
                                            assert(keys@[i as int] < keys@[m]);
                                        }
                                        assert(sls.contains_key(fo_key) && fo_key <= c && sysline_last_block(*sls[fo_key]) > blockoffset);
                                    } else {
                                        if kept_by_drop(sls, blockoffset, c) {
                                            let c2 = choose|c2: u64| #[trigger] sls.contains_key(c2) && c2 <= c && sysline_last_block(*sls[c2]) > blockoffset;
                                            assert(keys@.to_set().contains(c2));
                                            let m2 = choose|m2: int| 0 <= m2 < keys@.len() && keys@[m2] == c2;
                                            if m2 > m {
                                                assert(keys@[m] < keys@[m2]);
                                            }
                                            assert(sysline_last_block(*sls[keys@[m2]]) <= blockoffset);
                                        }
                                    }
                                }
                            }
                        }
                        break;
                    }
                },
                None => {},
            }
            self.drop_sysline(&fo_key, bo_dropped);
            i += 1;
        }
    }
}

} // verus!
