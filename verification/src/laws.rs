//! Properties that relate the readers' operations to each other.
use vstd::prelude::*;
use crate::common::NLu8;
use crate::blockreader::{block_bytes, spec_count_blocks, lemma_div_mod, lemma_block_in_file, spec_blocksz_at_blockoffset, spec_blockoffset_last};
use crate::linereader::{ResultS4_LineFind, find_line_result, line_at, line_begin, line_end, lemma_line_end};
use crate::common::ResultS4;
use crate::datetime::{
    spec_dt_pattern_has_tz,
    builtin_dtpds,
    spec_str_datetime, chrono_parse_with_tz, spec_u8_to_str,
    builtin_datetime_patterns, spec_dt_pattern_has_year, seq_has_at,
    DateTimeL, DateTimeL_Opt, DateTime_Parse_Data, TzOffset, dt_before, spec_dt_after_or_before, spec_dt_pass_filters,
    Result_Filter_DateTime1, Result_Filter_DateTime2,
};
use crate::sysline::{Sysline, lines_consecutive, dtpd_result, dtpd_slice};
use crate::linereader::{LineP, no_nl};
use crate::syslinereader::{whole_sysline, has_dt, line_bytes_at, no_dt_lines};

verus! {

/// The first `n` blocks of `data`, one after another.
pub open spec fn blocks_concat(data: Seq<u8>, bsz: int, n: nat) -> Seq<u8>
    decreases n,
{
    if n == 0 {
        Seq::empty()
    } else {
        blocks_concat(data, bsz, (n - 1) as nat) + block_bytes(data, n - 1, bsz)
    }
}

/// The first `n` blocks are the first `n * bsz` bytes (or all of them).
proof fn lemma_blocks_concat_prefix(data: Seq<u8>, bsz: int, n: nat)
    requires
        bsz > 0,
        n <= spec_count_blocks(data.len() as int, bsz),
    ensures
        blocks_concat(data, bsz, n) == data.subrange(0, if n * bsz < data.len() { n * bsz } else { data.len() as int }),
    decreases n,
{
    if n == 0 {
        assert(n * bsz == 0) by (nonlinear_arith)
            requires n == 0;
        assert(blocks_concat(data, bsz, n) =~= data.subrange(0, 0));
    } else {
        let m = (n - 1) as nat;
        lemma_blocks_concat_prefix(data, bsz, m);
        lemma_block_in_file(m as int, bsz, data.len() as int);
        assert(n * bsz == m * bsz + bsz) by (nonlinear_arith)
            requires n == m + 1;
        assert(m * bsz < data.len());
        let end = if n * bsz < data.len() { n * bsz } else { data.len() as int };
        assert(blocks_concat(data, bsz, m) == data.subrange(0, m * bsz));
        assert(block_bytes(data, m as int, bsz) == data.subrange(m * bsz, end));
        assert(blocks_concat(data, bsz, n) == blocks_concat(data, bsz, m) + block_bytes(data, m as int, bsz));
        assert(data.subrange(0, m * bsz) + data.subrange(m * bsz, end) =~= data.subrange(0, end));
    }
}

/// Reading every block of a file, in order, gives back the file: the blocks that
/// `read_block` hands out, one after another, are the file's contents.
pub proof fn law_blocks_cover_file(data: Seq<u8>, bsz: int)
    requires
        bsz > 0,
    ensures
        blocks_concat(data, bsz, spec_count_blocks(data.len() as int, bsz) as nat) == data,
{
    let n = spec_count_blocks(data.len() as int, bsz);
    lemma_div_mod(data.len() as int, bsz);
    lemma_blocks_concat_prefix(data, bsz, n as nat);
    let q = data.len() as int / bsz;
    let r = data.len() as int % bsz;
    if r > 0 {
        assert(n * bsz == q * bsz + bsz) by (nonlinear_arith)
            requires n == q + 1;
    } else {
        assert(n * bsz == q * bsz);
    }
    assert(data.subrange(0, data.len() as int) =~= data);
}

/// The byte at a file offset is the one at the offset's block index within the
/// block at its block offset: `read_block(block_offset_at_file_offset(fo))` holds
/// `data[fo]` at `block_index_at_file_offset(fo)`.
pub proof fn law_byte_in_its_block(data: Seq<u8>, bsz: int, fo: int)
    requires
        bsz > 0,
        0 <= fo < data.len(),
    ensures
        fo % bsz < block_bytes(data, fo / bsz, bsz).len(),
        block_bytes(data, fo / bsz, bsz)[fo % bsz] == data[fo],
{
    lemma_div_mod(fo, bsz);
    let bo = fo / bsz;
    assert((bo + 1) * bsz == bo * bsz + bsz) by (nonlinear_arith);
}

/// `find_line` gives the same for the same offset of the same file, whatever was
/// read, stored or cached before: the same kind of result, the same next offset,
/// and a line of the same offsets and bytes.
pub proof fn law_find_line_deterministic(data: Seq<u8>, fo: int, r1: ResultS4_LineFind, r2: ResultS4_LineFind)
    requires
        find_line_result(data, fo, r1),
        find_line_result(data, fo, r2),
    ensures
        r1 is Done <==> r2 is Done,
        r1 is Found <==> r2 is Found,
        r1 is Found_EOF <==> r2 is Found_EOF,
        r1 matches ResultS4::Found((n1, l1)) ==> (r2 matches ResultS4::Found((n2, l2))
            && n1 == n2 && l1.spec_begin() == l2.spec_begin() && l1.bytes() == l2.bytes()),
        r1 matches ResultS4::Found_EOF((n1, l1)) ==> (r2 matches ResultS4::Found_EOF((n2, l2))
            && n1 == n2 && l1.spec_begin() == l2.spec_begin() && l1.bytes() == l2.bytes()),
{
}

/// Lines follow one another: after `find_line(fo)` gives `Found((n, _))`, the line
/// that `find_line(n)` gives begins at `n`.
pub proof fn law_next_line_begins_at_next_offset(data: Seq<u8>, fo: int, n: u64, l: crate::linereader::LineP)
    requires
        find_line_result(data, fo, ResultS4::Found((n, l))),
    ensures
        line_begin(data, n as int) == n,
        n < data.len(),
{
    lemma_line_end(data, l.spec_begin());
    assert(data[n - 1] == NLu8);
}

/// The two filters of `dt_pass_filters` are those of `dt_after_or_before`: `dt`
/// passes exactly when it does not occur before the "after" filter and is not later
/// than the "before" filter.
pub proof fn law_pass_filters_agree(dt: DateTimeL, after: DateTimeL_Opt, before: DateTimeL_Opt)
    ensures
        (spec_dt_pass_filters(dt, after, before) == Result_Filter_DateTime2::InRange) <==> (
            spec_dt_after_or_before(dt, after) != Result_Filter_DateTime1::OccursBefore
            && (before is None || !dt_before(before.unwrap(), dt))),
        (spec_dt_pass_filters(dt, after, before) == Result_Filter_DateTime2::BeforeRange) <==> (
            spec_dt_after_or_before(dt, after) == Result_Filter_DateTime1::OccursBefore),
{
}

/// No line begins strictly inside a line: past its first byte and up to its last.
proof fn lemma_no_begin_inside(data: Seq<u8>, l: LineP, b: int)
    requires
        line_at(data, *l),
        l.spec_begin() < b <= l.spec_end(),
    ensures
        b != line_begin(data, b),
{
    lemma_line_end(data, l.spec_begin());
    assert(no_nl(data, l.spec_begin(), l.spec_end()));
    assert(data[b - 1] != NLu8);
    crate::linereader::lemma_line_begin(data, b - 1);
}

/// An offset past the first byte of lines that follow one another, up to their
/// last byte, at which a line begins, is where one of them (not the first) begins.
proof fn lemma_begin_among_lines(data: Seq<u8>, lines: Seq<LineP>, b: int) -> (i: int)
    requires
        lines.len() > 0,
        forall|k: int| 0 <= k < lines.len() ==> line_at(data, *#[trigger] lines[k]),
        lines_consecutive(lines),
        lines[0].spec_begin() < b <= lines.last().spec_end(),
        b == line_begin(data, b),
    ensures
        1 <= i < lines.len(),
        lines[i].spec_begin() == b,
    decreases lines.len(),
{
    let k = lines.len() - 1;
    let last = lines[k];
    assert(line_at(data, *last));
    if b > last.spec_begin() {
        lemma_no_begin_inside(data, last, b);
        assert(false);
        0
    } else if b == last.spec_begin() {
        if k == 0 {
            assert(false);
        }
        k
    } else {
        assert(k >= 1);
        let p = lines.drop_last();
        let j = k - 1;
        assert(lines[j + 1].spec_begin() == lines[j].spec_end() + 1);
        assert forall|j: int| 0 <= j < p.len() implies line_at(data, *#[trigger] p[j]) by {
            assert(p[j] == lines[j]);
        }
        assert(lines_consecutive(p)) by {
            assert forall|j: int| 0 <= j < p.len() - 1 implies #[trigger] p[j + 1].spec_begin() == p[j].spec_end() + 1 by {
                assert(p[j] == lines[j]);
                assert(p[j + 1] == lines[j + 1]);
            }
        }
        assert(p[0] == lines[0]);
        assert(p.last() == lines[k - 1]);
        let i = lemma_begin_among_lines(data, p, b);
        assert(p[i] == lines[i]);
        i
    }
}

/// Syslines follow one another: after `find_sysline` gives `Found((n, s1))`, the
/// sysline `s2` that `find_sysline(n)` gives begins at `n`, where the line at `n`
/// has a datetime by the patterns in use after the second call (`s2` is a whole
/// sysline by them, ends at or after `n`, and begins at or before `n` or with no
/// datetime line between `n` and its start).
pub proof fn law_next_sysline_begins_at_next_offset(
    data: Seq<u8>, tz: TzOffset, p1: Seq<DateTime_Parse_Data>, p2: Seq<DateTime_Parse_Data>,
    s1: Sysline, n: int, s2: Sysline,
)
    requires
        whole_sysline(s1, data, p1, tz),
        n == s1.spec_end() + 1,
        n < data.len(),
        whole_sysline(s2, data, p2, tz),
        n <= s2.spec_end(),
        s2.spec_begin() <= n || no_dt_lines(data, line_begin(data, n), s2.spec_begin(), p2, tz),
        has_dt(line_bytes_at(data, n), p2, tz),
    ensures
        s2.spec_begin() == n,
{
    let last1 = s1.lines@.last();
    assert(line_at(data, *s1.lines@[s1.lines@.len() - 1]));
    lemma_line_end(data, last1.spec_begin());
    assert(data[n - 1] == NLu8);
    assert(line_begin(data, n) == n);
    if s2.spec_begin() > n {
        assert(!has_dt(line_bytes_at(data, n), p2, tz));
    } else if s2.spec_begin() < n {
        s2.lemma_span(data, tz);
        let i = lemma_begin_among_lines(data, s2.lines@, n);
        assert(line_at(data, *s2.lines@[i]));
        assert(s2.lines@[i].bytes() == line_bytes_at(data, n));
        assert(!has_dt(s2.lines@[i].bytes(), p2, tz));
    }
}

/// The lines of `data` from offset `fo` on, one after another: the bytes from `fo`
/// to the end of its line, then the lines from the offset after it.
pub open spec fn lines_concat(data: Seq<u8>, fo: int) -> Seq<u8>
    decreases data.len() - fo,
{
    if fo < 0 || fo >= data.len() {
        Seq::empty()
    } else {
        proof {
            lemma_line_end(data, fo);
        }
        data.subrange(fo, line_end(data, fo) + 1) + lines_concat(data, line_end(data, fo) + 1)
    }
}

/// The lines from `fo` on are the bytes from `fo` on.
proof fn lemma_lines_concat(data: Seq<u8>, fo: int)
    requires
        0 <= fo <= data.len(),
    ensures
        lines_concat(data, fo) == data.subrange(fo, data.len() as int),
    decreases data.len() - fo,
{
    if fo < data.len() {
        lemma_line_end(data, fo);
        let e = line_end(data, fo);
        lemma_lines_concat(data, e + 1);
        assert(data.subrange(fo, e + 1) + data.subrange(e + 1, data.len() as int) =~= data.subrange(fo, data.len() as int));
    } else {
        assert(data.subrange(fo, data.len() as int) =~= Seq::<u8>::empty());
    }
}

/// Reading the lines of a file one after another gives back the file: where a line
/// begins at `fo`, `find_line(fo)` gives the bytes from `fo` to the end of its line
/// and the offset after them, and these pieces from offset 0 on make up `data`.
pub proof fn law_lines_cover_file(data: Seq<u8>, fo: int, r: ResultS4_LineFind)
    requires
        fo == line_begin(data, fo),
        find_line_result(data, fo, r),
    ensures
        lines_concat(data, 0) == data,
        r matches ResultS4::Found((n, l)) ==> l.bytes() == data.subrange(fo, n as int) && n == line_end(data, fo) + 1,
        r matches ResultS4::Found_EOF((n, l)) ==> l.bytes() == data.subrange(fo, n as int) && n == line_end(data, fo) + 1,
{
    lemma_lines_concat(data, 0);
    assert(data.subrange(0, data.len() as int) =~= data);
}

/// The sizes of the first `n` blocks of a file of `filesz` bytes
/// (`blocksz_at_blockoffset`), added up.
pub open spec fn blocks_size_sum(filesz: int, bsz: int, n: nat) -> int
    decreases n,
{
    if n == 0 {
        0
    } else {
        blocks_size_sum(filesz, bsz, (n - 1) as nat)
            + spec_blocksz_at_blockoffset(n - 1, spec_blockoffset_last(filesz, bsz), bsz, filesz)
    }
}

/// The first `n` block sizes add up to `n * bsz`, or to the file size for all blocks.
proof fn lemma_blocks_size_sum(filesz: int, bsz: int, n: nat)
    requires
        bsz > 0,
        filesz >= 0,
        n <= spec_count_blocks(filesz, bsz),
    ensures
        blocks_size_sum(filesz, bsz, n) == (if n * bsz < filesz { n * bsz } else { filesz }),
    decreases n,
{
    lemma_div_mod(filesz, bsz);
    let q = filesz / bsz;
    let r = filesz % bsz;
    if n == 0 {
        assert(n * bsz == 0) by (nonlinear_arith)
            requires n == 0;
    } else {
        let m = (n - 1) as nat;
        lemma_blocks_size_sum(filesz, bsz, m);
        lemma_block_in_file(m as int, bsz, filesz);
        assert(n * bsz == m * bsz + bsz) by (nonlinear_arith)
            requires n == m + 1;
        let last = spec_blockoffset_last(filesz, bsz);
        assert(filesz > 0);
        if m < last {
            lemma_block_in_file(n as int, bsz, filesz);
            assert(n * bsz < filesz);
        } else {
            assert(m == last);
            if r > 0 {
                assert(m == q);
                assert(m * bsz + r == filesz);
            } else {
                assert(m == q - 1);
                assert(m * bsz + bsz == q * bsz) by (nonlinear_arith)
                    requires m == q - 1;
            }
        }
    }
}

/// The sizes of all the blocks of a file (`blocksz_at_blockoffset` of each block
/// offset up to `blockoffset_last`) add up to the file's size.
pub proof fn law_block_sizes_sum_to_file_size(filesz: int, bsz: int)
    requires
        bsz > 0,
        filesz >= 0,
    ensures
        blocks_size_sum(filesz, bsz, spec_count_blocks(filesz, bsz) as nat) == filesz,
{
    let n = spec_count_blocks(filesz, bsz);
    lemma_div_mod(filesz, bsz);
    lemma_blocks_size_sum(filesz, bsz, n as nat);
    let q = filesz / bsz;
    let r = filesz % bsz;
    if r > 0 {
        assert(n * bsz == q * bsz + bsz) by (nonlinear_arith)
            requires n == q + 1;
    } else {
        assert(n * bsz == q * bsz);
    }
}

/// A file offset comes back from its block offset and its index within that block:
/// `file_offset_at_block_offset_index(block_offset_at_file_offset(fo),
/// block_index_at_file_offset(fo)) == fo`, and the index is within the block.
pub proof fn law_offset_round_trip(fo: int, bsz: int)
    requires
        fo >= 0,
        bsz > 0,
    ensures
        (fo / bsz) * bsz + fo % bsz == fo,
        0 <= fo % bsz < bsz,
{
    lemma_div_mod(fo, bsz);
}

/// The filters compare instants: two datetimes that name the same instant (whatever
/// their offsets) pass or fail the filters alike, for one filter and for two.
pub proof fn law_filters_by_instant(a: DateTimeL, b: DateTimeL, filter: DateTimeL_Opt, after: DateTimeL_Opt, before: DateTimeL_Opt)
    requires
        crate::datetime::dt_same(a, b),
    ensures
        spec_dt_after_or_before(a, filter) == spec_dt_after_or_before(b, filter),
        spec_dt_pass_filters(a, after, before) == spec_dt_pass_filters(b, after, before),
{
}

/// `Found_EOF` is given for the file's last sysline, the one that ends the file (as
/// `is_sysline_last` tells), and `Found` for a sysline that does not end it; this
/// holds of what `find_sysline` and `find_sysline_in_block` give.
pub proof fn law_found_eof_is_last(data: Seq<u8>, tz: TzOffset, fo: int, r: crate::syslinereader::ResultS4_SyslineFind)
    requires
        crate::syslinereader::sysline_result_ok(data, tz, fo, r),
    ensures
        r matches ResultS4::Found((_, s)) ==> s.spec_end() + 1 < data.len(),
        r matches ResultS4::Found_EOF((_, s)) ==> s.spec_end() + 1 == data.len(),
{
}

/// No `%` followed by `Y` or `y` from index `j` of `p` on.
pub open spec fn no_year_from(p: Seq<char>, j: int) -> bool
    decreases p.len() - j,
{
    if j < 0 || j + 1 >= p.len() {
        true
    } else {
        !(p[j] == '%' && (p[j + 1] == 'Y' || p[j + 1] == 'y')) && no_year_from(p, j + 1)
    }
}

/// A pattern that holds `%` followed by `Y` or `y` at `i` has a year.
proof fn lemma_year_at(p: Seq<char>, i: int)
    requires
        0 <= i,
        i + 1 < p.len(),
        p[i] == '%',
        p[i + 1] == 'Y' || p[i + 1] == 'y',
    ensures
        spec_dt_pattern_has_year(p),
{
    if p[i + 1] == 'Y' {
        assert(p.subrange(i, i + 2) =~= seq!['%', 'Y']);
        assert(seq_has_at(p, seq!['%', 'Y'], i));
    } else {
        assert(p.subrange(i, i + 2) =~= seq!['%', 'y']);
        assert(seq_has_at(p, seq!['%', 'y'], i));
    }
}

/// Where no `%` from index `j` on is followed by `Y` or `y`, neither `%Y` nor `%y`
/// begins at or after `j`.
proof fn lemma_no_year_from(p: Seq<char>, j: int, i: int)
    requires
        0 <= j <= i,
        no_year_from(p, j),
    ensures
        !seq_has_at(p, seq!['%', 'Y'], i),
        !seq_has_at(p, seq!['%', 'y'], i),
    decreases i - j,
{
    if seq_has_at(p, seq!['%', 'Y'], i) || seq_has_at(p, seq!['%', 'y'], i) {
        if j < i {
            lemma_no_year_from(p, j + 1, i);
        } else {
            assert(p.subrange(i, i + 2)[0] == p[i]);
            assert(p.subrange(i, i + 2)[1] == p[i + 1]);
        }
    }
}

/// A pattern with no `%` followed by `Y` or `y` has no year.
proof fn lemma_no_year(p: Seq<char>)
    requires
        no_year_from(p, 0),
    ensures
        !spec_dt_pattern_has_year(p),
{
    assert forall|i: int| !seq_has_at(p, seq!['%', 'Y'], i) && !seq_has_at(p, seq!['%', 'y'], i) by {
        if 0 <= i {
            lemma_no_year_from(p, 0, i);
        }
    }
}

/// Every built-in datetime pattern's year flag says whether its pattern holds `%Y`
/// or `%y` (`dt_pattern_has_year`).
pub proof fn law_builtin_year_flags()
    ensures
        forall|k: int| 0 <= k < builtin_datetime_patterns().len() ==>
            (#[trigger] builtin_datetime_patterns()[k]).1 == spec_dt_pattern_has_year(builtin_datetime_patterns()[k].0@),
{
    assert(spec_dt_pattern_has_year("[%Y/%m/%d %H:%M:%S%.6f,"@)) by {
        reveal_strlit("[%Y/%m/%d %H:%M:%S%.6f,");
        lemma_year_at("[%Y/%m/%d %H:%M:%S%.6f,"@, 1);
    }
    assert(spec_dt_pattern_has_year("[%Y/%m/%d %H:%M:%S%.6f]"@)) by {
        reveal_strlit("[%Y/%m/%d %H:%M:%S%.6f]");
        lemma_year_at("[%Y/%m/%d %H:%M:%S%.6f]"@, 1);
    }
    assert(spec_dt_pattern_has_year("%Y-%m-%d %H:%M:%S %z "@)) by {
        reveal_strlit("%Y-%m-%d %H:%M:%S %z ");
        lemma_year_at("%Y-%m-%d %H:%M:%S %z "@, 0);
    }
    assert(spec_dt_pattern_has_year("%Y-%m-%d %H:%M:%S%z "@)) by {
        reveal_strlit("%Y-%m-%d %H:%M:%S%z ");
        lemma_year_at("%Y-%m-%d %H:%M:%S%z "@, 0);
    }
    assert(spec_dt_pattern_has_year("%Y-%m-%dT%H:%M:%S %z "@)) by {
        reveal_strlit("%Y-%m-%dT%H:%M:%S %z ");
        lemma_year_at("%Y-%m-%dT%H:%M:%S %z "@, 0);
    }
    assert(spec_dt_pattern_has_year("%Y-%m-%dT%H:%M:%S%z "@)) by {
        reveal_strlit("%Y-%m-%dT%H:%M:%S%z ");
        lemma_year_at("%Y-%m-%dT%H:%M:%S%z "@, 0);
    }
    assert(spec_dt_pattern_has_year("%Y-%m-%d %H:%M:%S %Z "@)) by {
        reveal_strlit("%Y-%m-%d %H:%M:%S %Z ");
        lemma_year_at("%Y-%m-%d %H:%M:%S %Z "@, 0);
    }
    assert(spec_dt_pattern_has_year("%Y-%m-%d %H:%M:%S%Z "@)) by {
        reveal_strlit("%Y-%m-%d %H:%M:%S%Z ");
        lemma_year_at("%Y-%m-%d %H:%M:%S%Z "@, 0);
    }
    assert(spec_dt_pattern_has_year("%Y-%m-%dT%H:%M:%S %Z "@)) by {
        reveal_strlit("%Y-%m-%dT%H:%M:%S %Z ");
        lemma_year_at("%Y-%m-%dT%H:%M:%S %Z "@, 0);
    }
    assert(spec_dt_pattern_has_year("%Y-%m-%dT%H:%M:%S%Z "@)) by {
        reveal_strlit("%Y-%m-%dT%H:%M:%S%Z ");
        lemma_year_at("%Y-%m-%dT%H:%M:%S%Z "@, 0);
    }
    assert(spec_dt_pattern_has_year("%Y-%m-%d %H:%M:%S %:z "@)) by {
        reveal_strlit("%Y-%m-%d %H:%M:%S %:z ");
        lemma_year_at("%Y-%m-%d %H:%M:%S %:z "@, 0);
    }
    assert(spec_dt_pattern_has_year("%Y-%m-%d %H:%M:%S%:z "@)) by {
        reveal_strlit("%Y-%m-%d %H:%M:%S%:z ");
        lemma_year_at("%Y-%m-%d %H:%M:%S%:z "@, 0);
    }
    assert(spec_dt_pattern_has_year("%Y-%m-%dT%H:%M:%S %:z "@)) by {
        reveal_strlit("%Y-%m-%dT%H:%M:%S %:z ");
        lemma_year_at("%Y-%m-%dT%H:%M:%S %:z "@, 0);
    }
    assert(spec_dt_pattern_has_year("%Y-%m-%dT%H:%M:%S%:z "@)) by {
        reveal_strlit("%Y-%m-%dT%H:%M:%S%:z ");
        lemma_year_at("%Y-%m-%dT%H:%M:%S%:z "@, 0);
    }
    assert(spec_dt_pattern_has_year("%Y-%m-%d %H:%M:%S%.3f%z "@)) by {
        reveal_strlit("%Y-%m-%d %H:%M:%S%.3f%z ");
        lemma_year_at("%Y-%m-%d %H:%M:%S%.3f%z "@, 0);
    }
    assert(spec_dt_pattern_has_year("%Y-%m-%d %H:%M:%S%.3f%:z "@)) by {
        reveal_strlit("%Y-%m-%d %H:%M:%S%.3f%:z ");
        lemma_year_at("%Y-%m-%d %H:%M:%S%.3f%:z "@, 0);
    }
    assert(spec_dt_pattern_has_year("%Y-%m-%d %H:%M:%S%.3f %z "@)) by {
        reveal_strlit("%Y-%m-%d %H:%M:%S%.3f %z ");
        lemma_year_at("%Y-%m-%d %H:%M:%S%.3f %z "@, 0);
    }
    assert(spec_dt_pattern_has_year("%Y-%m-%d %H:%M:%S%.3f %:z "@)) by {
        reveal_strlit("%Y-%m-%d %H:%M:%S%.3f %:z ");
        lemma_year_at("%Y-%m-%d %H:%M:%S%.3f %:z "@, 0);
    }
    assert(spec_dt_pattern_has_year("%Y-%m-%d %H:%M:%S%.3f %Z "@)) by {
        reveal_strlit("%Y-%m-%d %H:%M:%S%.3f %Z ");
        lemma_year_at("%Y-%m-%d %H:%M:%S%.3f %Z "@, 0);
    }
    assert(spec_dt_pattern_has_year("%Y-%m-%dT%H:%M:%S%.3f%z "@)) by {
        reveal_strlit("%Y-%m-%dT%H:%M:%S%.3f%z ");
        lemma_year_at("%Y-%m-%dT%H:%M:%S%.3f%z "@, 0);
    }
    assert(spec_dt_pattern_has_year("%Y-%m-%dT%H:%M:%S%.3f%:z "@)) by {
        reveal_strlit("%Y-%m-%dT%H:%M:%S%.3f%:z ");
        lemma_year_at("%Y-%m-%dT%H:%M:%S%.3f%:z "@, 0);
    }
    assert(spec_dt_pattern_has_year("%Y-%m-%dT%H:%M:%S%.3f %z "@)) by {
        reveal_strlit("%Y-%m-%dT%H:%M:%S%.3f %z ");
        lemma_year_at("%Y-%m-%dT%H:%M:%S%.3f %z "@, 0);
    }
    assert(spec_dt_pattern_has_year("%Y-%m-%dT%H:%M:%S%.3f %:z "@)) by {
        reveal_strlit("%Y-%m-%dT%H:%M:%S%.3f %:z ");
        lemma_year_at("%Y-%m-%dT%H:%M:%S%.3f %:z "@, 0);
    }
    assert(spec_dt_pattern_has_year("%Y-%m-%dT%H:%M:%S%.3f %Z "@)) by {
        reveal_strlit("%Y-%m-%dT%H:%M:%S%.3f %Z ");
        lemma_year_at("%Y-%m-%dT%H:%M:%S%.3f %Z "@, 0);
    }
    assert(spec_dt_pattern_has_year("%Y-%m-%d %H:%M:%S%.6f%z "@)) by {
        reveal_strlit("%Y-%m-%d %H:%M:%S%.6f%z ");
        lemma_year_at("%Y-%m-%d %H:%M:%S%.6f%z "@, 0);
    }
    assert(spec_dt_pattern_has_year("%Y-%m-%d %H:%M:%S%.6f %z "@)) by {
        reveal_strlit("%Y-%m-%d %H:%M:%S%.6f %z ");
        lemma_year_at("%Y-%m-%d %H:%M:%S%.6f %z "@, 0);
    }
    assert(spec_dt_pattern_has_year("%Y-%m-%d %H:%M:%S%.6f%:z "@)) by {
        reveal_strlit("%Y-%m-%d %H:%M:%S%.6f%:z ");
        lemma_year_at("%Y-%m-%d %H:%M:%S%.6f%:z "@, 0);
    }
    assert(spec_dt_pattern_has_year("%Y-%m-%d %H:%M:%S%.6f %:z "@)) by {
        reveal_strlit("%Y-%m-%d %H:%M:%S%.6f %:z ");
        lemma_year_at("%Y-%m-%d %H:%M:%S%.6f %:z "@, 0);
    }
    assert(spec_dt_pattern_has_year("%Y-%m-%d %H:%M:%S%.6f %Z "@)) by {
        reveal_strlit("%Y-%m-%d %H:%M:%S%.6f %Z ");
        lemma_year_at("%Y-%m-%d %H:%M:%S%.6f %Z "@, 0);
    }
    assert(spec_dt_pattern_has_year("%Y-%m-%dT%H:%M:%S%.6f%z "@)) by {
        reveal_strlit("%Y-%m-%dT%H:%M:%S%.6f%z ");
        lemma_year_at("%Y-%m-%dT%H:%M:%S%.6f%z "@, 0);
    }
    assert(spec_dt_pattern_has_year("%Y-%m-%dT%H:%M:%S%.6f %z "@)) by {
        reveal_strlit("%Y-%m-%dT%H:%M:%S%.6f %z ");
        lemma_year_at("%Y-%m-%dT%H:%M:%S%.6f %z "@, 0);
    }
    assert(spec_dt_pattern_has_year("%Y-%m-%dT%H:%M:%S%.6f%:z "@)) by {
        reveal_strlit("%Y-%m-%dT%H:%M:%S%.6f%:z ");
        lemma_year_at("%Y-%m-%dT%H:%M:%S%.6f%:z "@, 0);
    }
    assert(spec_dt_pattern_has_year("%Y-%m-%dT%H:%M:%S%.6f %:z "@)) by {
        reveal_strlit("%Y-%m-%dT%H:%M:%S%.6f %:z ");
        lemma_year_at("%Y-%m-%dT%H:%M:%S%.6f %:z "@, 0);
    }
    assert(spec_dt_pattern_has_year("%Y-%m-%dT%H:%M:%S%.6f %Z "@)) by {
        reveal_strlit("%Y-%m-%dT%H:%M:%S%.6f %Z ");
        lemma_year_at("%Y-%m-%dT%H:%M:%S%.6f %Z "@, 0);
    }
    assert(spec_dt_pattern_has_year("%Y%m%dT%H%M%S %z "@)) by {
        reveal_strlit("%Y%m%dT%H%M%S %z ");
        lemma_year_at("%Y%m%dT%H%M%S %z "@, 0);
    }
    assert(spec_dt_pattern_has_year("%Y%m%dT%H%M%S %:z "@)) by {
        reveal_strlit("%Y%m%dT%H%M%S %:z ");
        lemma_year_at("%Y%m%dT%H%M%S %:z "@, 0);
    }
    assert(spec_dt_pattern_has_year("%Y%m%dT%H%M%S %Z "@)) by {
        reveal_strlit("%Y%m%dT%H%M%S %Z ");
        lemma_year_at("%Y%m%dT%H%M%S %Z "@, 0);
    }
    assert(spec_dt_pattern_has_year("%Y-%m-%dT%H:%M:%S%.3f%Z "@)) by {
        reveal_strlit("%Y-%m-%dT%H:%M:%S%.3f%Z ");
        lemma_year_at("%Y-%m-%dT%H:%M:%S%.3f%Z "@, 0);
    }
    assert(spec_dt_pattern_has_year("%Y-%m-%dT%H:%M:%S%.3f-"@)) by {
        reveal_strlit("%Y-%m-%dT%H:%M:%S%.3f-");
        lemma_year_at("%Y-%m-%dT%H:%M:%S%.3f-"@, 0);
    }
    assert(spec_dt_pattern_has_year("%Y-%m-%d %H:%M:%S%.6f-"@)) by {
        reveal_strlit("%Y-%m-%d %H:%M:%S%.6f-");
        lemma_year_at("%Y-%m-%d %H:%M:%S%.6f-"@, 0);
    }
    assert(spec_dt_pattern_has_year("[%Y%m%d-%H:%M:%S]"@)) by {
        reveal_strlit("[%Y%m%d-%H:%M:%S]");
        lemma_year_at("[%Y%m%d-%H:%M:%S]"@, 1);
    }
    assert(spec_dt_pattern_has_year(" %Y-%m-%d %H:%M:%S: "@)) by {
        reveal_strlit(" %Y-%m-%d %H:%M:%S: ");
        lemma_year_at(" %Y-%m-%d %H:%M:%S: "@, 1);
    }
    assert(spec_dt_pattern_has_year("[%Y-%m-%d %H:%M:%S,%3f] "@)) by {
        reveal_strlit("[%Y-%m-%d %H:%M:%S,%3f] ");
        lemma_year_at("[%Y-%m-%d %H:%M:%S,%3f] "@, 1);
    }
    assert(spec_dt_pattern_has_year("[%Y-%m-%d %H:%M:%S,%3f]"@)) by {
        reveal_strlit("[%Y-%m-%d %H:%M:%S,%3f]");
        lemma_year_at("[%Y-%m-%d %H:%M:%S,%3f]"@, 1);
    }
    assert(spec_dt_pattern_has_year("%a %b %d %H:%M:%S %Y "@)) by {
        reveal_strlit("%a %b %d %H:%M:%S %Y ");
        lemma_year_at("%a %b %d %H:%M:%S %Y "@, 18);
    }
    assert(spec_dt_pattern_has_year("%a %b %d %H:%M:%S %Y"@)) by {
        reveal_strlit("%a %b %d %H:%M:%S %Y");
        lemma_year_at("%a %b %d %H:%M:%S %Y"@, 18);
    }
    assert(spec_dt_pattern_has_year("%Y-%m-%d %H:%M:%S%.3f "@)) by {
        reveal_strlit("%Y-%m-%d %H:%M:%S%.3f ");
        lemma_year_at("%Y-%m-%d %H:%M:%S%.3f "@, 0);
    }
    assert(spec_dt_pattern_has_year("%Y-%m-%d %H:%M:%S "@)) by {
        reveal_strlit("%Y-%m-%d %H:%M:%S ");
        lemma_year_at("%Y-%m-%d %H:%M:%S "@, 0);
    }
    assert(spec_dt_pattern_has_year("%Y-%m-%d %H:%M:%S"@)) by {
        reveal_strlit("%Y-%m-%d %H:%M:%S");
        lemma_year_at("%Y-%m-%d %H:%M:%S"@, 0);
    }
    assert(spec_dt_pattern_has_year("%Y-%m-%dT%H:%M:%S "@)) by {
        reveal_strlit("%Y-%m-%dT%H:%M:%S ");
        lemma_year_at("%Y-%m-%dT%H:%M:%S "@, 0);
    }
    assert(spec_dt_pattern_has_year("%Y-%m-%dT%H:%M:%S"@)) by {
        reveal_strlit("%Y-%m-%dT%H:%M:%S");
        lemma_year_at("%Y-%m-%dT%H:%M:%S"@, 0);
    }
    assert(spec_dt_pattern_has_year("%Y%m%d %H%M%S "@)) by {
        reveal_strlit("%Y%m%d %H%M%S ");
        lemma_year_at("%Y%m%d %H%M%S "@, 0);
    }
    assert(spec_dt_pattern_has_year("%Y%m%dT%H%M%S "@)) by {
        reveal_strlit("%Y%m%dT%H%M%S ");
        lemma_year_at("%Y%m%dT%H%M%S "@, 0);
    }
    assert(spec_dt_pattern_has_year("%Y%m%dT%H%M%S"@)) by {
        reveal_strlit("%Y%m%dT%H%M%S");
        lemma_year_at("%Y%m%dT%H%M%S"@, 0);
    }
    assert(spec_dt_pattern_has_year(" %a %b %d %H:%M:%S %Y:"@)) by {
        reveal_strlit(" %a %b %d %H:%M:%S %Y:");
        lemma_year_at(" %a %b %d %H:%M:%S %Y:"@, 19);
    }
    assert(spec_dt_pattern_has_year(" %a %b %d %H:%M:%S %Y "@)) by {
        reveal_strlit(" %a %b %d %H:%M:%S %Y ");
        lemma_year_at(" %a %b %d %H:%M:%S %Y "@, 19);
    }
    assert(spec_dt_pattern_has_year(" %a %b %d %Y %H:%M:%S "@)) by {
        reveal_strlit(" %a %b %d %Y %H:%M:%S ");
        lemma_year_at(" %a %b %d %Y %H:%M:%S "@, 10);
    }
    assert(spec_dt_pattern_has_year("] %Y-%m-%dT%H:%M:%S "@)) by {
        reveal_strlit("] %Y-%m-%dT%H:%M:%S ");
        lemma_year_at("] %Y-%m-%dT%H:%M:%S "@, 2);
    }
    assert(spec_dt_pattern_has_year("] %Y-%m-%d %H:%M:%S "@)) by {
        reveal_strlit("] %Y-%m-%d %H:%M:%S ");
        lemma_year_at("] %Y-%m-%d %H:%M:%S "@, 2);
    }
    let b = builtin_datetime_patterns();
    assert forall|k: int| 0 <= k < b.len() implies (#[trigger] b[k]).1 == spec_dt_pattern_has_year(b[k].0@) by {
        if k == 0 {
            assert(b[0].0 == "[%Y/%m/%d %H:%M:%S%.6f," && b[0].1 == true);
        } else if k == 1 {
            assert(b[1].0 == "[%Y/%m/%d %H:%M:%S%.6f]" && b[1].1 == true);
        } else if k == 2 {
            assert(b[2].0 == "%Y-%m-%d %H:%M:%S %z " && b[2].1 == true);
        } else if k == 3 {
            assert(b[3].0 == "%Y-%m-%d %H:%M:%S%z " && b[3].1 == true);
        } else if k == 4 {
            assert(b[4].0 == "%Y-%m-%dT%H:%M:%S %z " && b[4].1 == true);
        } else if k == 5 {
            assert(b[5].0 == "%Y-%m-%dT%H:%M:%S%z " && b[5].1 == true);
        } else if k == 6 {
            assert(b[6].0 == "%Y-%m-%d %H:%M:%S %Z " && b[6].1 == true);
        } else if k == 7 {
            assert(b[7].0 == "%Y-%m-%d %H:%M:%S%Z " && b[7].1 == true);
        } else if k == 8 {
            assert(b[8].0 == "%Y-%m-%dT%H:%M:%S %Z " && b[8].1 == true);
        } else if k == 9 {
            assert(b[9].0 == "%Y-%m-%dT%H:%M:%S%Z " && b[9].1 == true);
        } else if k == 10 {
            assert(b[10].0 == "%Y-%m-%d %H:%M:%S %:z " && b[10].1 == true);
        } else if k == 11 {
            assert(b[11].0 == "%Y-%m-%d %H:%M:%S%:z " && b[11].1 == true);
        } else if k == 12 {
            assert(b[12].0 == "%Y-%m-%dT%H:%M:%S %:z " && b[12].1 == true);
        } else if k == 13 {
            assert(b[13].0 == "%Y-%m-%dT%H:%M:%S%:z " && b[13].1 == true);
        } else if k == 14 {
            assert(b[14].0 == "%Y-%m-%d %H:%M:%S%.3f%z " && b[14].1 == true);
        } else if k == 15 {
            assert(b[15].0 == "%Y-%m-%d %H:%M:%S%.3f%:z " && b[15].1 == true);
        } else if k == 16 {
            assert(b[16].0 == "%Y-%m-%d %H:%M:%S%.3f %z " && b[16].1 == true);
        } else if k == 17 {
            assert(b[17].0 == "%Y-%m-%d %H:%M:%S%.3f %:z " && b[17].1 == true);
        } else if k == 18 {
            assert(b[18].0 == "%Y-%m-%d %H:%M:%S%.3f %Z " && b[18].1 == true);
        } else if k == 19 {
            assert(b[19].0 == "%Y-%m-%dT%H:%M:%S%.3f%z " && b[19].1 == true);
        } else if k == 20 {
            assert(b[20].0 == "%Y-%m-%dT%H:%M:%S%.3f%:z " && b[20].1 == true);
        } else if k == 21 {
            assert(b[21].0 == "%Y-%m-%dT%H:%M:%S%.3f %z " && b[21].1 == true);
        } else if k == 22 {
            assert(b[22].0 == "%Y-%m-%dT%H:%M:%S%.3f %:z " && b[22].1 == true);
        } else if k == 23 {
            assert(b[23].0 == "%Y-%m-%dT%H:%M:%S%.3f %Z " && b[23].1 == true);
        } else if k == 24 {
            assert(b[24].0 == "%Y-%m-%d %H:%M:%S%.6f%z " && b[24].1 == true);
        } else if k == 25 {
            assert(b[25].0 == "%Y-%m-%d %H:%M:%S%.6f %z " && b[25].1 == true);
        } else if k == 26 {
            assert(b[26].0 == "%Y-%m-%d %H:%M:%S%.6f%:z " && b[26].1 == true);
        } else if k == 27 {
            assert(b[27].0 == "%Y-%m-%d %H:%M:%S%.6f %:z " && b[27].1 == true);
        } else if k == 28 {
            assert(b[28].0 == "%Y-%m-%d %H:%M:%S%.6f %Z " && b[28].1 == true);
        } else if k == 29 {
            assert(b[29].0 == "%Y-%m-%dT%H:%M:%S%.6f%z " && b[29].1 == true);
        } else if k == 30 {
            assert(b[30].0 == "%Y-%m-%dT%H:%M:%S%.6f %z " && b[30].1 == true);
        } else if k == 31 {
            assert(b[31].0 == "%Y-%m-%dT%H:%M:%S%.6f%:z " && b[31].1 == true);
        } else if k == 32 {
            assert(b[32].0 == "%Y-%m-%dT%H:%M:%S%.6f %:z " && b[32].1 == true);
        } else if k == 33 {
            assert(b[33].0 == "%Y-%m-%dT%H:%M:%S%.6f %Z " && b[33].1 == true);
        } else if k == 34 {
            assert(b[34].0 == "%Y%m%dT%H%M%S %z " && b[34].1 == true);
        } else if k == 35 {
            assert(b[35].0 == "%Y%m%dT%H%M%S %:z " && b[35].1 == true);
        } else if k == 36 {
            assert(b[36].0 == "%Y%m%dT%H%M%S %Z " && b[36].1 == true);
        } else if k == 37 {
            assert(b[37].0 == "%Y-%m-%dT%H:%M:%S%.3f%z " && b[37].1 == true);
        } else if k == 38 {
            assert(b[38].0 == "%Y-%m-%dT%H:%M:%S%.3f%Z " && b[38].1 == true);
        } else if k == 39 {
            assert(b[39].0 == "%Y-%m-%dT%H:%M:%S%.3f-" && b[39].1 == true);
        } else if k == 40 {
            assert(b[40].0 == "%Y-%m-%d %H:%M:%S%.6f-" && b[40].1 == true);
        } else if k == 41 {
            assert(b[41].0 == "[%Y%m%d-%H:%M:%S]" && b[41].1 == true);
        } else if k == 42 {
            assert(b[42].0 == " %Y-%m-%d %H:%M:%S: " && b[42].1 == true);
        } else if k == 43 {
            assert(b[43].0 == "[%Y-%m-%d %H:%M:%S,%3f] " && b[43].1 == true);
        } else if k == 44 {
            assert(b[44].0 == "[%Y-%m-%d %H:%M:%S,%3f]" && b[44].1 == true);
        } else if k == 45 {
            assert(b[45].0 == "%a %b %d %H:%M:%S %Y " && b[45].1 == true);
        } else if k == 46 {
            assert(b[46].0 == "%a %b %d %H:%M:%S %Y" && b[46].1 == true);
        } else if k == 47 {
            assert(b[47].0 == "%Y-%m-%d %H:%M:%S%.3f " && b[47].1 == true);
        } else if k == 48 {
            assert(b[48].0 == "%Y-%m-%d %H:%M:%S%.3f " && b[48].1 == true);
        } else if k == 49 {
            assert(b[49].0 == "%Y-%m-%d %H:%M:%S%.3f " && b[49].1 == true);
        } else if k == 50 {
            assert(b[50].0 == "%Y-%m-%d %H:%M:%S%.3f " && b[50].1 == true);
        } else if k == 51 {
            assert(b[51].0 == "%Y-%m-%d %H:%M:%S%.3f " && b[51].1 == true);
        } else if k == 52 {
            assert(b[52].0 == "%Y-%m-%d %H:%M:%S%.3f " && b[52].1 == true);
        } else if k == 53 {
            assert(b[53].0 == "%Y-%m-%d %H:%M:%S%.3f " && b[53].1 == true);
        } else if k == 54 {
            assert(b[54].0 == "%Y-%m-%d %H:%M:%S%.3f " && b[54].1 == true);
        } else if k == 55 {
            assert(b[55].0 == "%Y-%m-%d %H:%M:%S%.3f " && b[55].1 == true);
        } else if k == 56 {
            assert(b[56].0 == "%Y-%m-%d %H:%M:%S%.3f " && b[56].1 == true);
        } else if k == 57 {
            assert(b[57].0 == "%Y-%m-%d %H:%M:%S%.3f " && b[57].1 == true);
        } else if k == 58 {
            assert(b[58].0 == "%Y-%m-%d %H:%M:%S " && b[58].1 == true);
        } else if k == 59 {
            assert(b[59].0 == "%Y-%m-%d %H:%M:%S " && b[59].1 == true);
        } else if k == 60 {
            assert(b[60].0 == "%Y-%m-%d %H:%M:%S " && b[60].1 == true);
        } else if k == 61 {
            assert(b[61].0 == "%Y-%m-%d %H:%M:%S " && b[61].1 == true);
        } else if k == 62 {
            assert(b[62].0 == "%Y-%m-%d %H:%M:%S " && b[62].1 == true);
        } else if k == 63 {
            assert(b[63].0 == "%Y-%m-%d %H:%M:%S " && b[63].1 == true);
        } else if k == 64 {
            assert(b[64].0 == "%Y-%m-%d %H:%M:%S " && b[64].1 == true);
        } else if k == 65 {
            assert(b[65].0 == "%Y-%m-%d %H:%M:%S " && b[65].1 == true);
        } else if k == 66 {
            assert(b[66].0 == "%Y-%m-%d %H:%M:%S " && b[66].1 == true);
        } else if k == 67 {
            assert(b[67].0 == "%Y-%m-%d %H:%M:%S " && b[67].1 == true);
        } else if k == 68 {
            assert(b[68].0 == "%Y-%m-%d %H:%M:%S " && b[68].1 == true);
        } else if k == 69 {
            assert(b[69].0 == "%Y-%m-%d %H:%M:%S" && b[69].1 == true);
        } else if k == 70 {
            assert(b[70].0 == "%Y-%m-%d %H:%M:%S" && b[70].1 == true);
        } else if k == 71 {
            assert(b[71].0 == "%Y-%m-%d %H:%M:%S" && b[71].1 == true);
        } else if k == 72 {
            assert(b[72].0 == "%Y-%m-%d %H:%M:%S" && b[72].1 == true);
        } else if k == 73 {
            assert(b[73].0 == "%Y-%m-%d %H:%M:%S" && b[73].1 == true);
        } else if k == 74 {
            assert(b[74].0 == "%Y-%m-%d %H:%M:%S" && b[74].1 == true);
        } else if k == 75 {
            assert(b[75].0 == "%Y-%m-%d %H:%M:%S" && b[75].1 == true);
        } else if k == 76 {
            assert(b[76].0 == "%Y-%m-%d %H:%M:%S" && b[76].1 == true);
        } else if k == 77 {
            assert(b[77].0 == "%Y-%m-%d %H:%M:%S" && b[77].1 == true);
        } else if k == 78 {
            assert(b[78].0 == "%Y-%m-%d %H:%M:%S" && b[78].1 == true);
        } else if k == 79 {
            assert(b[79].0 == "%Y-%m-%d %H:%M:%S" && b[79].1 == true);
        } else if k == 80 {
            assert(b[80].0 == "%Y-%m-%dT%H:%M:%S " && b[80].1 == true);
        } else if k == 81 {
            assert(b[81].0 == "%Y-%m-%dT%H:%M:%S" && b[81].1 == true);
        } else if k == 82 {
            assert(b[82].0 == "%Y%m%d %H%M%S " && b[82].1 == true);
        } else if k == 83 {
            assert(b[83].0 == "%Y%m%dT%H%M%S " && b[83].1 == true);
        } else if k == 84 {
            assert(b[84].0 == "%Y%m%dT%H%M%S" && b[84].1 == true);
        } else if k == 85 {
            assert(b[85].0 == " %a %b %d %H:%M:%S %Y:" && b[85].1 == true);
        } else if k == 86 {
            assert(b[86].0 == " %a %b %d %H:%M:%S %Y:" && b[86].1 == true);
        } else if k == 87 {
            assert(b[87].0 == " %a %b %d %H:%M:%S %Y:" && b[87].1 == true);
        } else if k == 88 {
            assert(b[88].0 == " %a %b %d %H:%M:%S %Y:" && b[88].1 == true);
        } else if k == 89 {
            assert(b[89].0 == " %a %b %d %H:%M:%S %Y " && b[89].1 == true);
        } else if k == 90 {
            assert(b[90].0 == " %a %b %d %H:%M:%S %Y " && b[90].1 == true);
        } else if k == 91 {
            assert(b[91].0 == " %a %b %d %H:%M:%S %Y " && b[91].1 == true);
        } else if k == 92 {
            assert(b[92].0 == " %a %b %d %H:%M:%S %Y " && b[92].1 == true);
        } else if k == 93 {
            assert(b[93].0 == " %a %b %d %Y %H:%M:%S " && b[93].1 == true);
        } else if k == 94 {
            assert(b[94].0 == " %a %b %d %Y %H:%M:%S " && b[94].1 == true);
        } else if k == 95 {
            assert(b[95].0 == " %a %b %d %Y %H:%M:%S " && b[95].1 == true);
        } else if k == 96 {
            assert(b[96].0 == " %a %b %d %Y %H:%M:%S " && b[96].1 == true);
        } else if k == 97 {
            assert(b[97].0 == "] %Y-%m-%dT%H:%M:%S " && b[97].1 == true);
        } else if k == 98 {
            assert(b[98].0 == "] %Y-%m-%dT%H:%M:%S " && b[98].1 == true);
        } else if k == 99 {
            assert(b[99].0 == "] %Y-%m-%dT%H:%M:%S " && b[99].1 == true);
        } else if k == 100 {
            assert(b[100].0 == "] %Y-%m-%dT%H:%M:%S " && b[100].1 == true);
        } else if k == 101 {
            assert(b[101].0 == "] %Y-%m-%d %H:%M:%S " && b[101].1 == true);
        } else if k == 102 {
            assert(b[102].0 == "] %Y-%m-%d %H:%M:%S " && b[102].1 == true);
        } else if k == 103 {
            assert(b[103].0 == "] %Y-%m-%d %H:%M:%S " && b[103].1 == true);
        } else if k == 104 {
            assert(b[104].0 == "] %Y-%m-%d %H:%M:%S " && b[104].1 == true);
        }
    }
}

/// A pattern with a timezone keeps the offset written in the string: what
/// `str_datetime` finds is the instant that chrono's `DateTime::parse_from_str`
/// reads, with the written offset, whatever offset the reader was given; two calls
/// that differ only in the given offset give the same result.
pub proof fn law_str_datetime_keeps_written_offset(dts: Seq<char>, pattern: Seq<char>, a: TzOffset, b: TzOffset)
    ensures
        spec_str_datetime(dts, pattern, true, a) == spec_str_datetime(dts, pattern, true, b),
        spec_str_datetime(dts, pattern, true, a) matches Some(d) ==> chrono_parse_with_tz(dts, pattern) == Some(d@),
{
}

/// A built-in pattern with a timezone finds in a line the instant with the offset
/// written in the line: the result does not depend on the reader's offset, and a
/// datetime found is what chrono's `DateTime::parse_from_str` reads from the
/// pattern's slice of the line.
pub proof fn law_dtpd_result_keeps_written_offset(bytes: Seq<u8>, d: DateTime_Parse_Data, a: TzOffset, b: TzOffset)
    requires
        d.tz,
    ensures
        dtpd_result(bytes, d, a) == dtpd_result(bytes, d, b),
        dtpd_result(bytes, d, a) matches Some(t) ==> exists|s: Seq<char>| spec_u8_to_str(dtpd_slice(bytes, d)) == Some(s)
            && #[trigger] chrono_parse_with_tz(s, d.pattern@) == Some(t@),
{
    if dtpd_result(bytes, d, a) is Some {
        let s = spec_u8_to_str(dtpd_slice(bytes, d))->0;
        assert(chrono_parse_with_tz(s, d.pattern@) == Some(dtpd_result(bytes, d, a)->0@));
    }
}

/// A sysline's datetime is one that a built-in pattern finds in its first line; where
/// that pattern has a timezone, it is the instant written in the line, the same
/// whatever offset the reader was given.
pub proof fn law_sysline_dt_from_builtin(s: Sysline, data: Seq<u8>, active: Seq<DateTime_Parse_Data>, tz: TzOffset, other: TzOffset)
    requires
        whole_sysline(s, data, active, tz),
    ensures
        exists|d: DateTime_Parse_Data| builtin_dtpds().contains(d) && #[trigger] dtpd_result(s.lines@[0].bytes(), d, tz) == s.dt
            && (d.tz ==> dtpd_result(s.lines@[0].bytes(), d, other) == s.dt),
{
    let d = choose|d: DateTime_Parse_Data| #[trigger] dtpd_result(s.lines@[0].bytes(), d, tz) == s.dt && builtin_dtpds().contains(d);
    if d.tz {
        law_dtpd_result_keeps_written_offset(s.lines@[0].bytes(), d, tz, other);
    }
}

/// No timezone specifier (`%Z`, `%z`, `%:z`, `%#z`) from index `j` of `p` on.
pub open spec fn no_tz_from(p: Seq<char>, j: int) -> bool
    decreases p.len() - j,
{
    if j < 0 || j + 1 >= p.len() {
        true
    } else {
        !(p[j] == '%' && (p[j + 1] == 'Z' || p[j + 1] == 'z'
            || ((p[j + 1] == ':' || p[j + 1] == '#') && j + 2 < p.len() && p[j + 2] == 'z')))
            && no_tz_from(p, j + 1)
    }
}

/// A pattern that holds `%Z` or `%z` at `i` has a timezone.
proof fn lemma_tz_at(p: Seq<char>, i: int)
    requires
        0 <= i,
        i + 1 < p.len(),
        p[i] == '%',
        p[i + 1] == 'Z' || p[i + 1] == 'z',
    ensures
        spec_dt_pattern_has_tz(p),
{
    if p[i + 1] == 'Z' {
        assert(p.subrange(i, i + 2) =~= seq!['%', 'Z']);
        assert(seq_has_at(p, seq!['%', 'Z'], i));
    } else {
        assert(p.subrange(i, i + 2) =~= seq!['%', 'z']);
        assert(seq_has_at(p, seq!['%', 'z'], i));
    }
}

/// A pattern that holds `%:z` or `%#z` at `i` has a timezone.
proof fn lemma_tz3_at(p: Seq<char>, i: int)
    requires
        0 <= i,
        i + 2 < p.len(),
        p[i] == '%',
        p[i + 1] == ':' || p[i + 1] == '#',
        p[i + 2] == 'z',
    ensures
        spec_dt_pattern_has_tz(p),
{
    if p[i + 1] == ':' {
        assert(p.subrange(i, i + 3) =~= seq!['%', ':', 'z']);
        assert(seq_has_at(p, seq!['%', ':', 'z'], i));
    } else {
        assert(p.subrange(i, i + 3) =~= seq!['%', '#', 'z']);
        assert(seq_has_at(p, seq!['%', '#', 'z'], i));
    }
}

/// Where no timezone specifier begins from index `j` on, none of them is held at or
/// after `j`.
proof fn lemma_no_tz_from(p: Seq<char>, j: int, i: int)
    requires
        0 <= j <= i,
        no_tz_from(p, j),
    ensures
        !seq_has_at(p, seq!['%', 'Z'], i),
        !seq_has_at(p, seq!['%', 'z'], i),
        !seq_has_at(p, seq!['%', ':', 'z'], i),
        !seq_has_at(p, seq!['%', '#', 'z'], i),
    decreases i - j,
{
    if seq_has_at(p, seq!['%', 'Z'], i) || seq_has_at(p, seq!['%', 'z'], i)
        || seq_has_at(p, seq!['%', ':', 'z'], i) || seq_has_at(p, seq!['%', '#', 'z'], i) {
        if j < i {
            lemma_no_tz_from(p, j + 1, i);
        } else {
            if seq_has_at(p, seq!['%', 'Z'], i) || seq_has_at(p, seq!['%', 'z'], i) {
                assert(p.subrange(i, i + 2)[0] == p[i]);
                assert(p.subrange(i, i + 2)[1] == p[i + 1]);
            } else {
                assert(p.subrange(i, i + 3)[0] == p[i]);
                assert(p.subrange(i, i + 3)[1] == p[i + 1]);
                assert(p.subrange(i, i + 3)[2] == p[i + 2]);
            }
        }
    }
}

/// A pattern with no timezone specifier has no timezone.
proof fn lemma_no_tz(p: Seq<char>)
    requires
        no_tz_from(p, 0),
    ensures
        !spec_dt_pattern_has_tz(p),
{
    let s1 = seq!['%', 'Z'];
    assert forall|i: int| !#[trigger] seq_has_at(p, s1, i) by {
        if 0 <= i { lemma_no_tz_from(p, 0, i); }
    }
    let s2 = seq!['%', 'z'];
    assert forall|i: int| !#[trigger] seq_has_at(p, s2, i) by {
        if 0 <= i { lemma_no_tz_from(p, 0, i); }
    }
    let s3 = seq!['%', ':', 'z'];
    assert forall|i: int| !#[trigger] seq_has_at(p, s3, i) by {
        if 0 <= i { lemma_no_tz_from(p, 0, i); }
    }
    let s4 = seq!['%', '#', 'z'];
    assert forall|i: int| !#[trigger] seq_has_at(p, s4, i) by {
        if 0 <= i { lemma_no_tz_from(p, 0, i); }
    }
}

/// Every built-in datetime pattern's timezone flag says whether its pattern holds
/// `%Z`, `%z`, `%:z` or `%#z` (`dt_pattern_has_tz`): the patterns read with the offset
/// written in the line are exactly those that hold a timezone specifier.
pub proof fn law_builtin_tz_flags()
    ensures
        forall|k: int| 0 <= k < builtin_datetime_patterns().len() ==>
            (#[trigger] builtin_datetime_patterns()[k]).2 == spec_dt_pattern_has_tz(builtin_datetime_patterns()[k].0@),
{
    assert(!spec_dt_pattern_has_tz("[%Y/%m/%d %H:%M:%S%.6f,"@)) by {
        reveal_strlit("[%Y/%m/%d %H:%M:%S%.6f,");
        reveal_with_fuel(no_tz_from, 24);
        lemma_no_tz("[%Y/%m/%d %H:%M:%S%.6f,"@);
    }
    assert(!spec_dt_pattern_has_tz("[%Y/%m/%d %H:%M:%S%.6f]"@)) by {
        reveal_strlit("[%Y/%m/%d %H:%M:%S%.6f]");
        reveal_with_fuel(no_tz_from, 24);
        lemma_no_tz("[%Y/%m/%d %H:%M:%S%.6f]"@);
    }
    assert(spec_dt_pattern_has_tz("%Y-%m-%d %H:%M:%S %z "@)) by {
        reveal_strlit("%Y-%m-%d %H:%M:%S %z ");
        lemma_tz_at("%Y-%m-%d %H:%M:%S %z "@, 18);
    }
    assert(spec_dt_pattern_has_tz("%Y-%m-%d %H:%M:%S%z "@)) by {
        reveal_strlit("%Y-%m-%d %H:%M:%S%z ");
        lemma_tz_at("%Y-%m-%d %H:%M:%S%z "@, 17);
    }
    assert(spec_dt_pattern_has_tz("%Y-%m-%dT%H:%M:%S %z "@)) by {
        reveal_strlit("%Y-%m-%dT%H:%M:%S %z ");
        lemma_tz_at("%Y-%m-%dT%H:%M:%S %z "@, 18);
    }
    assert(spec_dt_pattern_has_tz("%Y-%m-%dT%H:%M:%S%z "@)) by {
        reveal_strlit("%Y-%m-%dT%H:%M:%S%z ");
        lemma_tz_at("%Y-%m-%dT%H:%M:%S%z "@, 17);
    }
    assert(spec_dt_pattern_has_tz("%Y-%m-%d %H:%M:%S %Z "@)) by {
        reveal_strlit("%Y-%m-%d %H:%M:%S %Z ");
        lemma_tz_at("%Y-%m-%d %H:%M:%S %Z "@, 18);
    }
    assert(spec_dt_pattern_has_tz("%Y-%m-%d %H:%M:%S%Z "@)) by {
        reveal_strlit("%Y-%m-%d %H:%M:%S%Z ");
        lemma_tz_at("%Y-%m-%d %H:%M:%S%Z "@, 17);
    }
    assert(spec_dt_pattern_has_tz("%Y-%m-%dT%H:%M:%S %Z "@)) by {
        reveal_strlit("%Y-%m-%dT%H:%M:%S %Z ");
        lemma_tz_at("%Y-%m-%dT%H:%M:%S %Z "@, 18);
    }
    assert(spec_dt_pattern_has_tz("%Y-%m-%dT%H:%M:%S%Z "@)) by {
        reveal_strlit("%Y-%m-%dT%H:%M:%S%Z ");
        lemma_tz_at("%Y-%m-%dT%H:%M:%S%Z "@, 17);
    }
    assert(spec_dt_pattern_has_tz("%Y-%m-%d %H:%M:%S %:z "@)) by {
        reveal_strlit("%Y-%m-%d %H:%M:%S %:z ");
        lemma_tz3_at("%Y-%m-%d %H:%M:%S %:z "@, 18);
    }
    assert(spec_dt_pattern_has_tz("%Y-%m-%d %H:%M:%S%:z "@)) by {
        reveal_strlit("%Y-%m-%d %H:%M:%S%:z ");
        lemma_tz3_at("%Y-%m-%d %H:%M:%S%:z "@, 17);
    }
    assert(spec_dt_pattern_has_tz("%Y-%m-%dT%H:%M:%S %:z "@)) by {
        reveal_strlit("%Y-%m-%dT%H:%M:%S %:z ");
        lemma_tz3_at("%Y-%m-%dT%H:%M:%S %:z "@, 18);
    }
    assert(spec_dt_pattern_has_tz("%Y-%m-%dT%H:%M:%S%:z "@)) by {
        reveal_strlit("%Y-%m-%dT%H:%M:%S%:z ");
        lemma_tz3_at("%Y-%m-%dT%H:%M:%S%:z "@, 17);
    }
    assert(spec_dt_pattern_has_tz("%Y-%m-%d %H:%M:%S%.3f%z "@)) by {
        reveal_strlit("%Y-%m-%d %H:%M:%S%.3f%z ");
        lemma_tz_at("%Y-%m-%d %H:%M:%S%.3f%z "@, 21);
    }
    assert(spec_dt_pattern_has_tz("%Y-%m-%d %H:%M:%S%.3f%:z "@)) by {
        reveal_strlit("%Y-%m-%d %H:%M:%S%.3f%:z ");
        lemma_tz3_at("%Y-%m-%d %H:%M:%S%.3f%:z "@, 21);
    }
    assert(spec_dt_pattern_has_tz("%Y-%m-%d %H:%M:%S%.3f %z "@)) by {
        reveal_strlit("%Y-%m-%d %H:%M:%S%.3f %z ");
        lemma_tz_at("%Y-%m-%d %H:%M:%S%.3f %z "@, 22);
    }
    assert(spec_dt_pattern_has_tz("%Y-%m-%d %H:%M:%S%.3f %:z "@)) by {
        reveal_strlit("%Y-%m-%d %H:%M:%S%.3f %:z ");
        lemma_tz3_at("%Y-%m-%d %H:%M:%S%.3f %:z "@, 22);
    }
    assert(spec_dt_pattern_has_tz("%Y-%m-%d %H:%M:%S%.3f %Z "@)) by {
        reveal_strlit("%Y-%m-%d %H:%M:%S%.3f %Z ");
        lemma_tz_at("%Y-%m-%d %H:%M:%S%.3f %Z "@, 22);
    }
    assert(spec_dt_pattern_has_tz("%Y-%m-%dT%H:%M:%S%.3f%z "@)) by {
        reveal_strlit("%Y-%m-%dT%H:%M:%S%.3f%z ");
        lemma_tz_at("%Y-%m-%dT%H:%M:%S%.3f%z "@, 21);
    }
    assert(spec_dt_pattern_has_tz("%Y-%m-%dT%H:%M:%S%.3f%:z "@)) by {
        reveal_strlit("%Y-%m-%dT%H:%M:%S%.3f%:z ");
        lemma_tz3_at("%Y-%m-%dT%H:%M:%S%.3f%:z "@, 21);
    }
    assert(spec_dt_pattern_has_tz("%Y-%m-%dT%H:%M:%S%.3f %z "@)) by {
        reveal_strlit("%Y-%m-%dT%H:%M:%S%.3f %z ");
        lemma_tz_at("%Y-%m-%dT%H:%M:%S%.3f %z "@, 22);
    }
    assert(spec_dt_pattern_has_tz("%Y-%m-%dT%H:%M:%S%.3f %:z "@)) by {
        reveal_strlit("%Y-%m-%dT%H:%M:%S%.3f %:z ");
        lemma_tz3_at("%Y-%m-%dT%H:%M:%S%.3f %:z "@, 22);
    }
    assert(spec_dt_pattern_has_tz("%Y-%m-%dT%H:%M:%S%.3f %Z "@)) by {
        reveal_strlit("%Y-%m-%dT%H:%M:%S%.3f %Z ");
        lemma_tz_at("%Y-%m-%dT%H:%M:%S%.3f %Z "@, 22);
    }
    assert(spec_dt_pattern_has_tz("%Y-%m-%d %H:%M:%S%.6f%z "@)) by {
        reveal_strlit("%Y-%m-%d %H:%M:%S%.6f%z ");
        lemma_tz_at("%Y-%m-%d %H:%M:%S%.6f%z "@, 21);
    }
    assert(spec_dt_pattern_has_tz("%Y-%m-%d %H:%M:%S%.6f %z "@)) by {
        reveal_strlit("%Y-%m-%d %H:%M:%S%.6f %z ");
        lemma_tz_at("%Y-%m-%d %H:%M:%S%.6f %z "@, 22);
    }
    assert(spec_dt_pattern_has_tz("%Y-%m-%d %H:%M:%S%.6f%:z "@)) by {
        reveal_strlit("%Y-%m-%d %H:%M:%S%.6f%:z ");
        lemma_tz3_at("%Y-%m-%d %H:%M:%S%.6f%:z "@, 21);
    }
    assert(spec_dt_pattern_has_tz("%Y-%m-%d %H:%M:%S%.6f %:z "@)) by {
        reveal_strlit("%Y-%m-%d %H:%M:%S%.6f %:z ");
        lemma_tz3_at("%Y-%m-%d %H:%M:%S%.6f %:z "@, 22);
    }
    assert(spec_dt_pattern_has_tz("%Y-%m-%d %H:%M:%S%.6f %Z "@)) by {
        reveal_strlit("%Y-%m-%d %H:%M:%S%.6f %Z ");
        lemma_tz_at("%Y-%m-%d %H:%M:%S%.6f %Z "@, 22);
    }
    assert(spec_dt_pattern_has_tz("%Y-%m-%dT%H:%M:%S%.6f%z "@)) by {
        reveal_strlit("%Y-%m-%dT%H:%M:%S%.6f%z ");
        lemma_tz_at("%Y-%m-%dT%H:%M:%S%.6f%z "@, 21);
    }
    assert(spec_dt_pattern_has_tz("%Y-%m-%dT%H:%M:%S%.6f %z "@)) by {
        reveal_strlit("%Y-%m-%dT%H:%M:%S%.6f %z ");
        lemma_tz_at("%Y-%m-%dT%H:%M:%S%.6f %z "@, 22);
    }
    assert(spec_dt_pattern_has_tz("%Y-%m-%dT%H:%M:%S%.6f%:z "@)) by {
        reveal_strlit("%Y-%m-%dT%H:%M:%S%.6f%:z ");
        lemma_tz3_at("%Y-%m-%dT%H:%M:%S%.6f%:z "@, 21);
    }
    assert(spec_dt_pattern_has_tz("%Y-%m-%dT%H:%M:%S%.6f %:z "@)) by {
        reveal_strlit("%Y-%m-%dT%H:%M:%S%.6f %:z ");
        lemma_tz3_at("%Y-%m-%dT%H:%M:%S%.6f %:z "@, 22);
    }
    assert(spec_dt_pattern_has_tz("%Y-%m-%dT%H:%M:%S%.6f %Z "@)) by {
        reveal_strlit("%Y-%m-%dT%H:%M:%S%.6f %Z ");
        lemma_tz_at("%Y-%m-%dT%H:%M:%S%.6f %Z "@, 22);
    }
    assert(spec_dt_pattern_has_tz("%Y%m%dT%H%M%S %z "@)) by {
        reveal_strlit("%Y%m%dT%H%M%S %z ");
        lemma_tz_at("%Y%m%dT%H%M%S %z "@, 14);
    }
    assert(spec_dt_pattern_has_tz("%Y%m%dT%H%M%S %:z "@)) by {
        reveal_strlit("%Y%m%dT%H%M%S %:z ");
        lemma_tz3_at("%Y%m%dT%H%M%S %:z "@, 14);
    }
    assert(spec_dt_pattern_has_tz("%Y%m%dT%H%M%S %Z "@)) by {
        reveal_strlit("%Y%m%dT%H%M%S %Z ");
        lemma_tz_at("%Y%m%dT%H%M%S %Z "@, 14);
    }
    assert(spec_dt_pattern_has_tz("%Y-%m-%dT%H:%M:%S%.3f%Z "@)) by {
        reveal_strlit("%Y-%m-%dT%H:%M:%S%.3f%Z ");
        lemma_tz_at("%Y-%m-%dT%H:%M:%S%.3f%Z "@, 21);
    }
    assert(!spec_dt_pattern_has_tz("%Y-%m-%dT%H:%M:%S%.3f-"@)) by {
        reveal_strlit("%Y-%m-%dT%H:%M:%S%.3f-");
        reveal_with_fuel(no_tz_from, 23);
        lemma_no_tz("%Y-%m-%dT%H:%M:%S%.3f-"@);
    }
    assert(!spec_dt_pattern_has_tz("%Y-%m-%d %H:%M:%S%.6f-"@)) by {
        reveal_strlit("%Y-%m-%d %H:%M:%S%.6f-");
        reveal_with_fuel(no_tz_from, 23);
        lemma_no_tz("%Y-%m-%d %H:%M:%S%.6f-"@);
    }
    assert(!spec_dt_pattern_has_tz("[%Y%m%d-%H:%M:%S]"@)) by {
        reveal_strlit("[%Y%m%d-%H:%M:%S]");
        reveal_with_fuel(no_tz_from, 18);
        lemma_no_tz("[%Y%m%d-%H:%M:%S]"@);
    }
    assert(!spec_dt_pattern_has_tz(" %Y-%m-%d %H:%M:%S: "@)) by {
        reveal_strlit(" %Y-%m-%d %H:%M:%S: ");
        reveal_with_fuel(no_tz_from, 21);
        lemma_no_tz(" %Y-%m-%d %H:%M:%S: "@);
    }
    assert(!spec_dt_pattern_has_tz("[%Y-%m-%d %H:%M:%S,%3f] "@)) by {
        reveal_strlit("[%Y-%m-%d %H:%M:%S,%3f] ");
        reveal_with_fuel(no_tz_from, 25);
        lemma_no_tz("[%Y-%m-%d %H:%M:%S,%3f] "@);
    }
    assert(!spec_dt_pattern_has_tz("[%Y-%m-%d %H:%M:%S,%3f]"@)) by {
        reveal_strlit("[%Y-%m-%d %H:%M:%S,%3f]");
        reveal_with_fuel(no_tz_from, 24);
        lemma_no_tz("[%Y-%m-%d %H:%M:%S,%3f]"@);
    }
    assert(!spec_dt_pattern_has_tz("%a %b %d %H:%M:%S %Y "@)) by {
        reveal_strlit("%a %b %d %H:%M:%S %Y ");
        reveal_with_fuel(no_tz_from, 22);
        lemma_no_tz("%a %b %d %H:%M:%S %Y "@);
    }
    assert(!spec_dt_pattern_has_tz("%a %b %d %H:%M:%S %Y"@)) by {
        reveal_strlit("%a %b %d %H:%M:%S %Y");
        reveal_with_fuel(no_tz_from, 21);
        lemma_no_tz("%a %b %d %H:%M:%S %Y"@);
    }
    assert(!spec_dt_pattern_has_tz("%Y-%m-%d %H:%M:%S%.3f "@)) by {
        reveal_strlit("%Y-%m-%d %H:%M:%S%.3f ");
        reveal_with_fuel(no_tz_from, 23);
        lemma_no_tz("%Y-%m-%d %H:%M:%S%.3f "@);
    }
    assert(!spec_dt_pattern_has_tz("%Y-%m-%d %H:%M:%S "@)) by {
        reveal_strlit("%Y-%m-%d %H:%M:%S ");
        reveal_with_fuel(no_tz_from, 19);
        lemma_no_tz("%Y-%m-%d %H:%M:%S "@);
    }
    assert(!spec_dt_pattern_has_tz("%Y-%m-%d %H:%M:%S"@)) by {
        reveal_strlit("%Y-%m-%d %H:%M:%S");
        reveal_with_fuel(no_tz_from, 18);
        lemma_no_tz("%Y-%m-%d %H:%M:%S"@);
    }
    assert(!spec_dt_pattern_has_tz("%Y-%m-%dT%H:%M:%S "@)) by {
        reveal_strlit("%Y-%m-%dT%H:%M:%S ");
        reveal_with_fuel(no_tz_from, 19);
        lemma_no_tz("%Y-%m-%dT%H:%M:%S "@);
    }
    assert(!spec_dt_pattern_has_tz("%Y-%m-%dT%H:%M:%S"@)) by {
        reveal_strlit("%Y-%m-%dT%H:%M:%S");
        reveal_with_fuel(no_tz_from, 18);
        lemma_no_tz("%Y-%m-%dT%H:%M:%S"@);
    }
    assert(!spec_dt_pattern_has_tz("%Y%m%d %H%M%S "@)) by {
        reveal_strlit("%Y%m%d %H%M%S ");
        reveal_with_fuel(no_tz_from, 15);
        lemma_no_tz("%Y%m%d %H%M%S "@);
    }
    assert(!spec_dt_pattern_has_tz("%Y%m%dT%H%M%S "@)) by {
        reveal_strlit("%Y%m%dT%H%M%S ");
        reveal_with_fuel(no_tz_from, 15);
        lemma_no_tz("%Y%m%dT%H%M%S "@);
    }
    assert(!spec_dt_pattern_has_tz("%Y%m%dT%H%M%S"@)) by {
        reveal_strlit("%Y%m%dT%H%M%S");
        reveal_with_fuel(no_tz_from, 14);
        lemma_no_tz("%Y%m%dT%H%M%S"@);
    }
    assert(!spec_dt_pattern_has_tz(" %a %b %d %H:%M:%S %Y:"@)) by {
        reveal_strlit(" %a %b %d %H:%M:%S %Y:");
        reveal_with_fuel(no_tz_from, 23);
        lemma_no_tz(" %a %b %d %H:%M:%S %Y:"@);
    }
    assert(!spec_dt_pattern_has_tz(" %a %b %d %H:%M:%S %Y "@)) by {
        reveal_strlit(" %a %b %d %H:%M:%S %Y ");
        reveal_with_fuel(no_tz_from, 23);
        lemma_no_tz(" %a %b %d %H:%M:%S %Y "@);
    }
    assert(!spec_dt_pattern_has_tz(" %a %b %d %Y %H:%M:%S "@)) by {
        reveal_strlit(" %a %b %d %Y %H:%M:%S ");
        reveal_with_fuel(no_tz_from, 23);
        lemma_no_tz(" %a %b %d %Y %H:%M:%S "@);
    }
    assert(!spec_dt_pattern_has_tz("] %Y-%m-%dT%H:%M:%S "@)) by {
        reveal_strlit("] %Y-%m-%dT%H:%M:%S ");
        reveal_with_fuel(no_tz_from, 21);
        lemma_no_tz("] %Y-%m-%dT%H:%M:%S "@);
    }
    assert(!spec_dt_pattern_has_tz("] %Y-%m-%d %H:%M:%S "@)) by {
        reveal_strlit("] %Y-%m-%d %H:%M:%S ");
        reveal_with_fuel(no_tz_from, 21);
        lemma_no_tz("] %Y-%m-%d %H:%M:%S "@);
    }
    let b = builtin_datetime_patterns();
    assert forall|k: int| 0 <= k < b.len() implies (#[trigger] b[k]).2 == spec_dt_pattern_has_tz(b[k].0@) by {
        if k == 0 {
            assert(b[0].0 == "[%Y/%m/%d %H:%M:%S%.6f," && b[0].2 == false);
        } else if k == 1 {
            assert(b[1].0 == "[%Y/%m/%d %H:%M:%S%.6f]" && b[1].2 == false);
        } else if k == 2 {
            assert(b[2].0 == "%Y-%m-%d %H:%M:%S %z " && b[2].2 == true);
        } else if k == 3 {
            assert(b[3].0 == "%Y-%m-%d %H:%M:%S%z " && b[3].2 == true);
        } else if k == 4 {
            assert(b[4].0 == "%Y-%m-%dT%H:%M:%S %z " && b[4].2 == true);
        } else if k == 5 {
            assert(b[5].0 == "%Y-%m-%dT%H:%M:%S%z " && b[5].2 == true);
        } else if k == 6 {
            assert(b[6].0 == "%Y-%m-%d %H:%M:%S %Z " && b[6].2 == true);
        } else if k == 7 {
            assert(b[7].0 == "%Y-%m-%d %H:%M:%S%Z " && b[7].2 == true);
        } else if k == 8 {
            assert(b[8].0 == "%Y-%m-%dT%H:%M:%S %Z " && b[8].2 == true);
        } else if k == 9 {
            assert(b[9].0 == "%Y-%m-%dT%H:%M:%S%Z " && b[9].2 == true);
        } else if k == 10 {
            assert(b[10].0 == "%Y-%m-%d %H:%M:%S %:z " && b[10].2 == true);
        } else if k == 11 {
            assert(b[11].0 == "%Y-%m-%d %H:%M:%S%:z " && b[11].2 == true);
        } else if k == 12 {
            assert(b[12].0 == "%Y-%m-%dT%H:%M:%S %:z " && b[12].2 == true);
        } else if k == 13 {
            assert(b[13].0 == "%Y-%m-%dT%H:%M:%S%:z " && b[13].2 == true);
        } else if k == 14 {
            assert(b[14].0 == "%Y-%m-%d %H:%M:%S%.3f%z " && b[14].2 == true);
        } else if k == 15 {
            assert(b[15].0 == "%Y-%m-%d %H:%M:%S%.3f%:z " && b[15].2 == true);
        } else if k == 16 {
            assert(b[16].0 == "%Y-%m-%d %H:%M:%S%.3f %z " && b[16].2 == true);
        } else if k == 17 {
            assert(b[17].0 == "%Y-%m-%d %H:%M:%S%.3f %:z " && b[17].2 == true);
        } else if k == 18 {
            assert(b[18].0 == "%Y-%m-%d %H:%M:%S%.3f %Z " && b[18].2 == true);
        } else if k == 19 {
            assert(b[19].0 == "%Y-%m-%dT%H:%M:%S%.3f%z " && b[19].2 == true);
        } else if k == 20 {
            assert(b[20].0 == "%Y-%m-%dT%H:%M:%S%.3f%:z " && b[20].2 == true);
        } else if k == 21 {
            assert(b[21].0 == "%Y-%m-%dT%H:%M:%S%.3f %z " && b[21].2 == true);
        } else if k == 22 {
            assert(b[22].0 == "%Y-%m-%dT%H:%M:%S%.3f %:z " && b[22].2 == true);
        } else if k == 23 {
            assert(b[23].0 == "%Y-%m-%dT%H:%M:%S%.3f %Z " && b[23].2 == true);
        } else if k == 24 {
            assert(b[24].0 == "%Y-%m-%d %H:%M:%S%.6f%z " && b[24].2 == true);
        } else if k == 25 {
            assert(b[25].0 == "%Y-%m-%d %H:%M:%S%.6f %z " && b[25].2 == true);
        } else if k == 26 {
            assert(b[26].0 == "%Y-%m-%d %H:%M:%S%.6f%:z " && b[26].2 == true);
        } else if k == 27 {
            assert(b[27].0 == "%Y-%m-%d %H:%M:%S%.6f %:z " && b[27].2 == true);
        } else if k == 28 {
            assert(b[28].0 == "%Y-%m-%d %H:%M:%S%.6f %Z " && b[28].2 == true);
        } else if k == 29 {
            assert(b[29].0 == "%Y-%m-%dT%H:%M:%S%.6f%z " && b[29].2 == true);
        } else if k == 30 {
            assert(b[30].0 == "%Y-%m-%dT%H:%M:%S%.6f %z " && b[30].2 == true);
        } else if k == 31 {
            assert(b[31].0 == "%Y-%m-%dT%H:%M:%S%.6f%:z " && b[31].2 == true);
        } else if k == 32 {
            assert(b[32].0 == "%Y-%m-%dT%H:%M:%S%.6f %:z " && b[32].2 == true);
        } else if k == 33 {
            assert(b[33].0 == "%Y-%m-%dT%H:%M:%S%.6f %Z " && b[33].2 == true);
        } else if k == 34 {
            assert(b[34].0 == "%Y%m%dT%H%M%S %z " && b[34].2 == true);
        } else if k == 35 {
            assert(b[35].0 == "%Y%m%dT%H%M%S %:z " && b[35].2 == true);
        } else if k == 36 {
            assert(b[36].0 == "%Y%m%dT%H%M%S %Z " && b[36].2 == true);
        } else if k == 37 {
            assert(b[37].0 == "%Y-%m-%dT%H:%M:%S%.3f%z " && b[37].2 == true);
        } else if k == 38 {
            assert(b[38].0 == "%Y-%m-%dT%H:%M:%S%.3f%Z " && b[38].2 == true);
        } else if k == 39 {
            assert(b[39].0 == "%Y-%m-%dT%H:%M:%S%.3f-" && b[39].2 == false);
        } else if k == 40 {
            assert(b[40].0 == "%Y-%m-%d %H:%M:%S%.6f-" && b[40].2 == false);
        } else if k == 41 {
            assert(b[41].0 == "[%Y%m%d-%H:%M:%S]" && b[41].2 == false);
        } else if k == 42 {
            assert(b[42].0 == " %Y-%m-%d %H:%M:%S: " && b[42].2 == false);
        } else if k == 43 {
            assert(b[43].0 == "[%Y-%m-%d %H:%M:%S,%3f] " && b[43].2 == false);
        } else if k == 44 {
            assert(b[44].0 == "[%Y-%m-%d %H:%M:%S,%3f]" && b[44].2 == false);
        } else if k == 45 {
            assert(b[45].0 == "%a %b %d %H:%M:%S %Y " && b[45].2 == false);
        } else if k == 46 {
            assert(b[46].0 == "%a %b %d %H:%M:%S %Y" && b[46].2 == false);
        } else if k == 47 {
            assert(b[47].0 == "%Y-%m-%d %H:%M:%S%.3f " && b[47].2 == false);
        } else if k == 48 {
            assert(b[48].0 == "%Y-%m-%d %H:%M:%S%.3f " && b[48].2 == false);
        } else if k == 49 {
            assert(b[49].0 == "%Y-%m-%d %H:%M:%S%.3f " && b[49].2 == false);
        } else if k == 50 {
            assert(b[50].0 == "%Y-%m-%d %H:%M:%S%.3f " && b[50].2 == false);
        } else if k == 51 {
            assert(b[51].0 == "%Y-%m-%d %H:%M:%S%.3f " && b[51].2 == false);
        } else if k == 52 {
            assert(b[52].0 == "%Y-%m-%d %H:%M:%S%.3f " && b[52].2 == false);
        } else if k == 53 {
            assert(b[53].0 == "%Y-%m-%d %H:%M:%S%.3f " && b[53].2 == false);
        } else if k == 54 {
            assert(b[54].0 == "%Y-%m-%d %H:%M:%S%.3f " && b[54].2 == false);
        } else if k == 55 {
            assert(b[55].0 == "%Y-%m-%d %H:%M:%S%.3f " && b[55].2 == false);
        } else if k == 56 {
            assert(b[56].0 == "%Y-%m-%d %H:%M:%S%.3f " && b[56].2 == false);
        } else if k == 57 {
            assert(b[57].0 == "%Y-%m-%d %H:%M:%S%.3f " && b[57].2 == false);
        } else if k == 58 {
            assert(b[58].0 == "%Y-%m-%d %H:%M:%S " && b[58].2 == false);
        } else if k == 59 {
            assert(b[59].0 == "%Y-%m-%d %H:%M:%S " && b[59].2 == false);
        } else if k == 60 {
            assert(b[60].0 == "%Y-%m-%d %H:%M:%S " && b[60].2 == false);
        } else if k == 61 {
            assert(b[61].0 == "%Y-%m-%d %H:%M:%S " && b[61].2 == false);
        } else if k == 62 {
            assert(b[62].0 == "%Y-%m-%d %H:%M:%S " && b[62].2 == false);
        } else if k == 63 {
            assert(b[63].0 == "%Y-%m-%d %H:%M:%S " && b[63].2 == false);
        } else if k == 64 {
            assert(b[64].0 == "%Y-%m-%d %H:%M:%S " && b[64].2 == false);
        } else if k == 65 {
            assert(b[65].0 == "%Y-%m-%d %H:%M:%S " && b[65].2 == false);
        } else if k == 66 {
            assert(b[66].0 == "%Y-%m-%d %H:%M:%S " && b[66].2 == false);
        } else if k == 67 {
            assert(b[67].0 == "%Y-%m-%d %H:%M:%S " && b[67].2 == false);
        } else if k == 68 {
            assert(b[68].0 == "%Y-%m-%d %H:%M:%S " && b[68].2 == false);
        } else if k == 69 {
            assert(b[69].0 == "%Y-%m-%d %H:%M:%S" && b[69].2 == false);
        } else if k == 70 {
            assert(b[70].0 == "%Y-%m-%d %H:%M:%S" && b[70].2 == false);
        } else if k == 71 {
            assert(b[71].0 == "%Y-%m-%d %H:%M:%S" && b[71].2 == false);
        } else if k == 72 {
            assert(b[72].0 == "%Y-%m-%d %H:%M:%S" && b[72].2 == false);
        } else if k == 73 {
            assert(b[73].0 == "%Y-%m-%d %H:%M:%S" && b[73].2 == false);
        } else if k == 74 {
            assert(b[74].0 == "%Y-%m-%d %H:%M:%S" && b[74].2 == false);
        } else if k == 75 {
            assert(b[75].0 == "%Y-%m-%d %H:%M:%S" && b[75].2 == false);
        } else if k == 76 {
            assert(b[76].0 == "%Y-%m-%d %H:%M:%S" && b[76].2 == false);
        } else if k == 77 {
            assert(b[77].0 == "%Y-%m-%d %H:%M:%S" && b[77].2 == false);
        } else if k == 78 {
            assert(b[78].0 == "%Y-%m-%d %H:%M:%S" && b[78].2 == false);
        } else if k == 79 {
            assert(b[79].0 == "%Y-%m-%d %H:%M:%S" && b[79].2 == false);
        } else if k == 80 {
            assert(b[80].0 == "%Y-%m-%dT%H:%M:%S " && b[80].2 == false);
        } else if k == 81 {
            assert(b[81].0 == "%Y-%m-%dT%H:%M:%S" && b[81].2 == false);
        } else if k == 82 {
            assert(b[82].0 == "%Y%m%d %H%M%S " && b[82].2 == false);
        } else if k == 83 {
            assert(b[83].0 == "%Y%m%dT%H%M%S " && b[83].2 == false);
        } else if k == 84 {
            assert(b[84].0 == "%Y%m%dT%H%M%S" && b[84].2 == false);
        } else if k == 85 {
            assert(b[85].0 == " %a %b %d %H:%M:%S %Y:" && b[85].2 == false);
        } else if k == 86 {
            assert(b[86].0 == " %a %b %d %H:%M:%S %Y:" && b[86].2 == false);
        } else if k == 87 {
            assert(b[87].0 == " %a %b %d %H:%M:%S %Y:" && b[87].2 == false);
        } else if k == 88 {
            assert(b[88].0 == " %a %b %d %H:%M:%S %Y:" && b[88].2 == false);
        } else if k == 89 {
            assert(b[89].0 == " %a %b %d %H:%M:%S %Y " && b[89].2 == false);
        } else if k == 90 {
            assert(b[90].0 == " %a %b %d %H:%M:%S %Y " && b[90].2 == false);
        } else if k == 91 {
            assert(b[91].0 == " %a %b %d %H:%M:%S %Y " && b[91].2 == false);
        } else if k == 92 {
            assert(b[92].0 == " %a %b %d %H:%M:%S %Y " && b[92].2 == false);
        } else if k == 93 {
            assert(b[93].0 == " %a %b %d %Y %H:%M:%S " && b[93].2 == false);
        } else if k == 94 {
            assert(b[94].0 == " %a %b %d %Y %H:%M:%S " && b[94].2 == false);
        } else if k == 95 {
            assert(b[95].0 == " %a %b %d %Y %H:%M:%S " && b[95].2 == false);
        } else if k == 96 {
            assert(b[96].0 == " %a %b %d %Y %H:%M:%S " && b[96].2 == false);
        } else if k == 97 {
            assert(b[97].0 == "] %Y-%m-%dT%H:%M:%S " && b[97].2 == false);
        } else if k == 98 {
            assert(b[98].0 == "] %Y-%m-%dT%H:%M:%S " && b[98].2 == false);
        } else if k == 99 {
            assert(b[99].0 == "] %Y-%m-%dT%H:%M:%S " && b[99].2 == false);
        } else if k == 100 {
            assert(b[100].0 == "] %Y-%m-%dT%H:%M:%S " && b[100].2 == false);
        } else if k == 101 {
            assert(b[101].0 == "] %Y-%m-%d %H:%M:%S " && b[101].2 == false);
        } else if k == 102 {
            assert(b[102].0 == "] %Y-%m-%d %H:%M:%S " && b[102].2 == false);
        } else if k == 103 {
            assert(b[103].0 == "] %Y-%m-%d %H:%M:%S " && b[103].2 == false);
        } else if k == 104 {
            assert(b[104].0 == "] %Y-%m-%d %H:%M:%S " && b[104].2 == false);
        }
    }
}

} // verus!
