//! A `Sysline`: a line that begins with a datetime, followed by the lines up to
//! the next such line.
use vstd::prelude::*;
use crate::common::{FileOffset, string_push};
use crate::datetime::{LineIndex, DateTimeL_Opt, DateTime_Parse_Data, TzOffset, spec_str_datetime, spec_u8_to_str, spec_slice_contains_X_2};
use crate::blockreader::BlockOffset;
use crate::linereader::{Line, LineP, line_at, parts_string, byte_noraw};

verus! {

/// The bytes of a line that pattern `d` is given: `[d.sib, d.sie)`.
pub open spec fn dtpd_slice(bytes: Seq<u8>, d: DateTime_Parse_Data) -> Seq<u8> {
    bytes.subrange(d.sib as int, d.sie as int)
}

/// The datetime that pattern `d` finds in a line of `bytes`, read in `tz` where the
/// pattern has no timezone: none where the line is too short for the pattern, where
/// a pattern with a year has no `1` or `2` in its slice (a quick check), where the
/// slice is not ASCII or Latin-1 UTF-8, or where chrono finds no datetime.
pub open spec fn dtpd_result(bytes: Seq<u8>, d: DateTime_Parse_Data, tz: TzOffset) -> DateTimeL_Opt {
    if bytes.len() < d.sie || d.sie < d.sib {
        None
    } else if d.year && !spec_slice_contains_X_2(dtpd_slice(bytes, d), seq![0x31u8, 0x32u8]) {
        None
    } else {
        match spec_u8_to_str(dtpd_slice(bytes, d)) {
            Some(s) => spec_str_datetime(s, d.pattern@, d.tz, tz),
            None => None,
        }
    }
}

/// The first of the patterns `pd[i..]` that finds a datetime in `bytes`: its index
/// and the datetime.
pub open spec fn first_match(bytes: Seq<u8>, pd: Seq<DateTime_Parse_Data>, tz: TzOffset, i: int) -> Option<(int, crate::datetime::DateTimeL)>
    decreases pd.len() - i,
{
    if i < 0 || i >= pd.len() {
        None
    } else {
        match dtpd_result(bytes, pd[i], tz) {
            Some(dt) => Some((i, dt)),
            None => first_match(bytes, pd, tz, i + 1),
        }
    }
}

/// A sysline: lines of a file, the first holding a datetime.
pub struct Sysline {
    /// the lines, in order
    pub lines: Vec<LineP>,
    /// index into the first line where the datetime begins
    pub dt_beg: LineIndex,
    /// index into the first line one past where the datetime ends
    pub dt_end: LineIndex,
    /// the datetime
    pub dt: DateTimeL_Opt,
}

/// A pointer to a sysline.
pub type SyslineP = std::sync::Arc<Sysline>;

/// The lines follow one another in the file: each begins just after the one before ends.
pub open spec fn lines_consecutive(lines: Seq<LineP>) -> bool {
    forall|i: int| 0 <= i < lines.len() - 1 ==> #[trigger] lines[i + 1].spec_begin() == lines[i].spec_end() + 1
}

/// The chars of the lines' `to_String`s, one after another.
pub open spec fn lines_string(lines: Seq<LineP>) -> Seq<char>
    decreases lines.len(),
{
    if lines.len() == 0 {
        Seq::empty()
    } else {
        lines_string(lines.drop_last()) + parts_string(lines.last().lineparts@)
    }
}

/// The lines' bytes as printable chars (`byte_noraw`), one after another.
pub open spec fn lines_string_noraw(lines: Seq<LineP>) -> Seq<char>
    decreases lines.len(),
{
    if lines.len() == 0 {
        Seq::empty()
    } else {
        lines_string_noraw(lines.drop_last()) + lines.last().bytes().map_values(|b: u8| byte_noraw(b))
    }
}

/// Lines of `data` that follow one another: each lies between the first's start and
/// the last's end.
pub proof fn lemma_lines_span(lines: Seq<LineP>, data: Seq<u8>, i: int)
    requires
        0 <= i < lines.len(),
        forall|k: int| 0 <= k < lines.len() ==> line_at(data, *#[trigger] lines[k]),
        lines_consecutive(lines),
    ensures
        lines[0].spec_begin() <= lines[i].spec_begin() <= lines[i].spec_end() <= lines.last().spec_end(),
    decreases lines.len(),
{
    assert(line_at(data, *lines[i]));
    lines[i].lemma_span();
    let n = lines.len();
    if n > 1 {
        let p = lines.drop_last();
        assert forall|k: int| 0 <= k < p.len() implies line_at(data, *#[trigger] p[k]) by {
            assert(p[k] == lines[k]);
        }
        assert(lines_consecutive(p)) by {
            assert forall|k: int| 0 <= k < p.len() - 1 implies #[trigger] p[k + 1].spec_begin() == p[k].spec_end() + 1 by {
                assert(p[k] == lines[k]);
                assert(p[k + 1] == lines[k + 1]);
            }
        }
        let j = n - 2;
        assert(lines[j + 1].spec_begin() == lines[j].spec_end() + 1);
        assert(line_at(data, *lines[n - 1]));
        lines[n - 1].lemma_span();
        if i < n - 1 {
            lemma_lines_span(p, data, i);
            lemma_lines_span(p, data, j);
            assert(p[i] == lines[i]);
            assert(p[0] == lines[0]);
            assert(p.last() == lines[j]);
        } else {
            lemma_lines_span(p, data, 0);
            lemma_lines_span(p, data, j);
            assert(p[0] == lines[0]);
            assert(p.last() == lines[j]);
        }
    }
}

impl Sysline {
    /// The sysline is lines of `data` that follow one another, the first holding the
    /// datetime `dt` that some pattern finds in it (at `[dt_beg, dt_end)`), read in `tz`.
    pub open spec fn ok(&self, data: Seq<u8>, tz: TzOffset) -> bool {
        &&& self.lines@.len() > 0
        &&& forall|i: int| 0 <= i < self.lines@.len() ==> line_at(data, *#[trigger] self.lines@[i])
        &&& lines_consecutive(self.lines@)
        &&& self.dt is Some
        &&& exists|d: DateTime_Parse_Data| #[trigger] dtpd_result(self.lines@[0].bytes(), d, tz) == self.dt
            && self.dt_beg == d.siba && self.dt_end == d.siea
    }

    /// The file offset at which the sysline begins.
    pub open spec fn spec_begin(&self) -> int {
        self.lines@[0].spec_begin()
    }

    /// The file offset of the sysline's last byte.
    pub open spec fn spec_end(&self) -> int {
        self.lines@.last().spec_end()
    }

    /// A sysline of lines that follow one another begins before it ends, and each
    /// of its lines lies within it.
    pub proof fn lemma_span(&self, data: Seq<u8>, tz: TzOffset)
        requires
            self.ok(data, tz),
        ensures
            self.spec_begin() <= self.spec_end(),
            forall|i: int| 0 <= i < self.lines@.len() ==> self.spec_begin() <= #[trigger] self.lines@[i].spec_begin() <= self.lines@[i].spec_end() <= self.spec_end(),
    {
        assert forall|i: int| 0 <= i < self.lines@.len() implies self.spec_begin() <= #[trigger] self.lines@[i].spec_begin() <= self.lines@[i].spec_end() <= self.spec_end() by {
            lemma_lines_span(self.lines@, data, i);
        }
        lemma_lines_span(self.lines@, data, 0);
    }

    /// A sysline with no lines and no datetime.
    pub fn new() -> (r: Sysline)
        ensures
            r.lines@.len() == 0,
            r.dt is None,
    {
        Sysline { lines: Vec::new(), dt_beg: 0, dt_end: 0, dt: None }
    }

    /// Adds a line at the end.
    pub fn push(&mut self, linep: LineP)
        ensures
            final(self).lines@ == old(self).lines@.push(linep),
            final(self).dt == old(self).dt,
            final(self).dt_beg == old(self).dt_beg,
            final(self).dt_end == old(self).dt_end,
    {
        self.lines.push(linep);
    }

    /// The file offset at which the sysline begins.
    pub fn fileoffset_begin(&self) -> (r: FileOffset)
        requires
            self.lines@.len() > 0,
            self.lines@[0].wf(),
        ensures
            r == self.spec_begin(),
    {
        self.lines[0].fileoffset_begin()
    }

    /// The file offset of the sysline's last byte.
    pub fn fileoffset_end(&self) -> (r: FileOffset)
        requires
            self.lines@.len() > 0,
            self.lines@.last().wf(),
        ensures
            r == self.spec_end(),
    {
        self.lines[self.lines.len() - 1].fileoffset_end()
    }

    /// The file offset just past the sysline.
    pub fn fileoffset_next(&self) -> (r: FileOffset)
        requires
            self.lines@.len() > 0,
            self.lines@.last().wf(),
            self.spec_end() < u64::MAX,
        ensures
            r == self.spec_end() + 1,
    {
        self.fileoffset_end() + 1
    }

    /// The length of the sysline in bytes.
    pub fn len(&self) -> (r: usize)
        requires
            self.lines@.len() > 0,
            self.lines@[0].wf(),
            self.lines@.last().wf(),
            self.spec_begin() <= self.spec_end(),
            self.spec_end() - self.spec_begin() < usize::MAX,
        ensures
            r == self.spec_end() - self.spec_begin() + 1,
    {
        (self.fileoffset_end() - self.fileoffset_begin() + 1) as usize
    }

    /// The count of lines.
    pub fn count_lines(&self) -> (r: u64)
        ensures
            r == self.lines@.len(),
    {
        self.lines.len() as u64
    }

    /// The block offset of the sysline's first byte.
    pub fn blockoffset_first(&self) -> (r: BlockOffset)
        requires
            self.lines@.len() > 0,
            self.lines@[0].wf(),
        ensures
            r == self.lines@[0].lineparts@[0].blockoffset,
    {
        self.lines[0].lineparts[0].blockoffset
    }

    /// The block offset of the sysline's last byte.
    pub fn blockoffset_last(&self) -> (r: BlockOffset)
        requires
            self.lines@.len() > 0,
            self.lines@.last().wf(),
        ensures
            r == self.lines@.last().lineparts@.last().blockoffset,
    {
        let l = &self.lines[self.lines.len() - 1];
        l.lineparts[l.lineparts.len() - 1].blockoffset
    }

    /// The sysline as a `String`: the lines' `to_String`s, one after another.
    pub fn to_String(&self) -> (r: String)
        requires
            forall|i: int| 0 <= i < self.lines@.len() ==> (#[trigger] self.lines@[i]).wf(),
        ensures
            r@ == lines_string(self.lines@),
    {
        let mut s = String::new();
        let mut i: usize = 0;
        while i < self.lines.len()
            invariant
                i <= self.lines@.len(),
                forall|k: int| 0 <= k < self.lines@.len() ==> (#[trigger] self.lines@[k]).wf(),
                s@ == lines_string(self.lines@.take(i as int)),
            decreases self.lines@.len() - i,
        {
            proof {
                assert(self.lines@.take(i + 1).drop_last() =~= self.lines@.take(i as int));
                assert(self.lines@[i as int].wf());
            }
            let ls = self.lines[i].to_String();
            s.append(ls.as_str());
            i += 1;
        }
        proof {
            assert(self.lines@.take(self.lines@.len() as int) =~= self.lines@);
        }
        s
    }

    /// The sysline as a `String` of printable chars.
    pub fn to_String_noraw(&self) -> (r: String)
        requires
            forall|i: int| 0 <= i < self.lines@.len() ==> (#[trigger] self.lines@[i]).wf(),
        ensures
            r@ == lines_string_noraw(self.lines@),
    {
        let mut s = String::new();
        let mut i: usize = 0;
        while i < self.lines.len()
            invariant
                i <= self.lines@.len(),
                forall|k: int| 0 <= k < self.lines@.len() ==> (#[trigger] self.lines@[k]).wf(),
                s@ == lines_string_noraw(self.lines@.take(i as int)),
            decreases self.lines@.len() - i,
        {
            proof {
                assert(self.lines@.take(i + 1).drop_last() =~= self.lines@.take(i as int));
                assert(self.lines@[i as int].wf());
            }
            let ls = self.lines[i].to_String_noraw();
            s.append(ls.as_str());
            i += 1;
        }
        proof {
            assert(self.lines@.take(self.lines@.len() as int) =~= self.lines@);
        }
        s
    }
}

} // verus!
