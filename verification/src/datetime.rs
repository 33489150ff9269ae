//! Datetimes, datetime patterns, and datetime filters.
//!
//! A datetime is held as the instant it names (seconds and nanoseconds since the
//! Unix epoch, in UTC) with the offset from UTC that it was written in.
//! Datetime strings are parsed by the `chrono` crate.
use vstd::prelude::*;
use vstd::utf8::*;

verus! {

/// An offset into a `Line`.
pub type LineIndex = usize;

/// Offset from UTC in seconds (east of UTC is positive).
pub type TzOffset = i32;

/// Is `tz` an offset that a `chrono::FixedOffset` can hold?
pub open spec fn tz_offset_ok(tz: TzOffset) -> bool {
    -86400 < tz < 86400
}

/// A datetime with a fixed offset from UTC; the model of `chrono::DateTime<FixedOffset>`.
#[derive(Clone, Copy, Debug)]
pub struct DateTimeL {
    /// seconds since the Unix epoch (UTC)
    pub secs: i64,
    /// nanoseconds within the second
    pub nsecs: u32,
    /// offset from UTC in seconds, east positive
    pub offset: i32,
}

pub type DateTimeL_Opt = Option<DateTimeL>;

/// `a` is strictly before `b` (instants are compared; offsets are ignored).
pub open spec fn dt_before(a: DateTimeL, b: DateTimeL) -> bool {
    a.secs < b.secs || (a.secs == b.secs && a.nsecs < b.nsecs)
}

/// `a` and `b` name the same instant.
pub open spec fn dt_same(a: DateTimeL, b: DateTimeL) -> bool {
    a.secs == b.secs && a.nsecs == b.nsecs
}

impl DateTimeL {
    /// Is `self` strictly before `other`?
    pub fn lt(&self, other: &DateTimeL) -> (r: bool)
        ensures
            r == dt_before(*self, *other),
    {
        self.secs < other.secs || (self.secs == other.secs && self.nsecs < other.nsecs)
    }

    /// Do `self` and `other` name the same instant?
    pub fn same_instant(&self, other: &DateTimeL) -> (r: bool)
        ensures
            r == dt_same(*self, *other),
    {
        self.secs == other.secs && self.nsecs == other.nsecs
    }
}

/// Result of comparing one datetime to one datetime filter.
#[derive(Debug, PartialEq, Eq, Structural)]
pub enum Result_Filter_DateTime1 {
    Pass,
    OccursAtOrAfter,
    OccursBefore,
}

impl Result_Filter_DateTime1 {
    /// Is the result `OccursAtOrAfter`?
    pub fn is_after(&self) -> (r: bool)
        ensures
            r == (*self is OccursAtOrAfter),
    {
        matches!(*self, Result_Filter_DateTime1::OccursAtOrAfter)
    }

    /// Is the result `OccursBefore`?
    pub fn is_before(&self) -> (r: bool)
        ensures
            r == (*self is OccursBefore),
    {
        matches!(*self, Result_Filter_DateTime1::OccursBefore)
    }
}

/// Result of comparing one datetime to two datetime filters `(after, before)`.
#[derive(Debug, PartialEq, Eq, Structural)]
pub enum Result_Filter_DateTime2 {
    /// pass
    InRange,
    /// fail
    BeforeRange,
    /// fail
    AfterRange,
}

impl Result_Filter_DateTime2 {
    pub fn is_pass(&self) -> (r: bool)
        ensures
            r == (*self is InRange),
    {
        matches!(*self, Result_Filter_DateTime2::InRange)
    }

    pub fn is_fail(&self) -> (r: bool)
        ensures
            r == (*self is AfterRange || *self is BeforeRange),
    {
        matches!(*self, Result_Filter_DateTime2::AfterRange | Result_Filter_DateTime2::BeforeRange)
    }
}

/// The comparison of `dt` to one filter.
pub open spec fn spec_dt_after_or_before(dt: DateTimeL, dt_filter: DateTimeL_Opt) -> Result_Filter_DateTime1 {
    match dt_filter {
        None => Result_Filter_DateTime1::Pass,
        Some(f) => if dt_before(dt, f) {
            Result_Filter_DateTime1::OccursBefore
        } else {
            Result_Filter_DateTime1::OccursAtOrAfter
        },
    }
}

/// If `dt` is at or after `dt_filter` then `OccursAtOrAfter`,
/// if `dt` is before `dt_filter` then `OccursBefore`,
/// and `Pass` when there is no filter.
pub fn dt_after_or_before(dt: &DateTimeL, dt_filter: &DateTimeL_Opt) -> (r: Result_Filter_DateTime1)
    ensures
        r == spec_dt_after_or_before(*dt, *dt_filter),
{
    match dt_filter {
        None => Result_Filter_DateTime1::Pass,
        Some(dt_a) => {
            if dt.lt(dt_a) {
                Result_Filter_DateTime1::OccursBefore
            } else {
                Result_Filter_DateTime1::OccursAtOrAfter
            }
        },
    }
}

/// The filters are usable together: the "after" filter is not later than the "before" filter.
pub open spec fn filters_ordered(after: DateTimeL_Opt, before: DateTimeL_Opt) -> bool {
    (after is Some && before is Some) ==> !dt_before(before.unwrap(), after.unwrap())
}

/// The comparison of `dt` to two filters; both comparisons are inclusive.
pub open spec fn spec_dt_pass_filters(dt: DateTimeL, after: DateTimeL_Opt, before: DateTimeL_Opt) -> Result_Filter_DateTime2 {
    if after is Some && dt_before(dt, after.unwrap()) {
        Result_Filter_DateTime2::BeforeRange
    } else if before is Some && dt_before(before.unwrap(), dt) {
        Result_Filter_DateTime2::AfterRange
    } else {
        Result_Filter_DateTime2::InRange
    }
}

/// Is `dt` between the filters? Passing means `after <= dt <= before` for the
/// filters that are given; no filters always pass.
pub fn dt_pass_filters(
    dt: &DateTimeL,
    dt_filter_after: &DateTimeL_Opt,
    dt_filter_before: &DateTimeL_Opt,
) -> (r: Result_Filter_DateTime2)
    requires
        filters_ordered(*dt_filter_after, *dt_filter_before),
    ensures
        r == spec_dt_pass_filters(*dt, *dt_filter_after, *dt_filter_before),
{
    match (dt_filter_after, dt_filter_before) {
        (None, None) => Result_Filter_DateTime2::InRange,
        (Some(da), Some(db)) => {
            if dt.lt(da) {
                Result_Filter_DateTime2::BeforeRange
            } else if db.lt(dt) {
                Result_Filter_DateTime2::AfterRange
            } else {
                Result_Filter_DateTime2::InRange
            }
        },
        (Some(da), None) => {
            if dt.lt(da) {
                Result_Filter_DateTime2::BeforeRange
            } else {
                Result_Filter_DateTime2::InRange
            }
        },
        (None, Some(db)) => {
            if db.lt(dt) {
                Result_Filter_DateTime2::AfterRange
            } else {
                Result_Filter_DateTime2::InRange
            }
        },
    }
}

// ---------------------------------------------------------------------------------------
// datetime patterns
// ---------------------------------------------------------------------------------------

/// Does `s` hold `sub` starting at index `i`?
pub open spec fn seq_has_at<A>(s: Seq<A>, sub: Seq<A>, i: int) -> bool {
    0 <= i && i + sub.len() <= s.len() && s.subrange(i, i + sub.len()) == sub
}

/// Does `s` hold `sub` somewhere?
pub open spec fn seq_contains_seq<A>(s: Seq<A>, sub: Seq<A>) -> bool {
    exists|i: int| seq_has_at(s, sub, i)
}

/// Does the string hold `sub` starting at char index `i`? (exec helper)
fn str_has_at(s: &str, len: usize, sub: &str, sublen: usize, i: usize) -> (r: bool)
    requires
        len == s@.len(),
        sublen == sub@.len(),
        i <= len,
    ensures
        r == seq_has_at(s@, sub@, i as int),
{
    if sublen > len - i {
        return false;
    }
    let mut j: usize = 0;
    while j < sublen
        invariant
            len == s@.len(),
            sublen == sub@.len(),
            i + sublen <= len,
            j <= sublen,
            forall|k: int| 0 <= k < j ==> s@[i + k] == sub@[k],
        decreases sublen - j,
    {
        if s.get_char(i + j) != sub.get_char(j) {
            assert(s@.subrange(i as int, i + sub@.len())[j as int] != sub@[j as int]);
            return false;
        }
        j += 1;
    }
    assert(s@.subrange(i as int, i + sub@.len()) =~= sub@);
    true
}

/// Does `s` contain `sub`?
pub fn str_contains(s: &str, sub: &str) -> (r: bool)
    ensures
        r == seq_contains_seq(s@, sub@),
{
    let len = s.unicode_len();
    let sublen = sub.unicode_len();
    let mut i: usize = 0;
    while i < len
        invariant
            len == s@.len(),
            sublen == sub@.len(),
            i <= len,
            forall|k: int| 0 <= k < i ==> !seq_has_at(s@, sub@, k),
        decreases len - i,
    {
        if str_has_at(s, len, sub, sublen, i) {
            return true;
        }
        i += 1;
    }
    let r = str_has_at(s, len, sub, sublen, len);
    assert forall|k: int| !r implies !seq_has_at(s@, sub@, k) by {
        if 0 <= k && k + sub@.len() <= s@.len() {
            assert(k <= len);
        }
    }
    r
}

/// The timezone specifiers of a chrono strftime pattern.
pub open spec fn spec_dt_pattern_has_tz(p: Seq<char>) -> bool {
    seq_contains_seq(p, seq!['%', 'Z'])
    || seq_contains_seq(p, seq!['%', 'z'])
    || seq_contains_seq(p, seq!['%', ':', 'z'])
    || seq_contains_seq(p, seq!['%', '#', 'z'])
}

/// The year specifiers of a chrono strftime pattern.
pub open spec fn spec_dt_pattern_has_year(p: Seq<char>) -> bool {
    seq_contains_seq(p, seq!['%', 'Y']) || seq_contains_seq(p, seq!['%', 'y'])
}

/// Does the chrono datetime pattern have a timezone (`%Z`, `%z`, `%:z`, `%#z`)?
pub fn dt_pattern_has_tz(pattern: &str) -> (r: bool)
    ensures
        r == spec_dt_pattern_has_tz(pattern@),
{
    proof {
        reveal_strlit("%Z");
        reveal_strlit("%z");
        reveal_strlit("%:z");
        reveal_strlit("%#z");
    }
    let a = str_contains(pattern, "%Z");
    let b = str_contains(pattern, "%z");
    let c = str_contains(pattern, "%:z");
    let d = str_contains(pattern, "%#z");
    assert("%Z"@ =~= seq!['%', 'Z']);
    assert("%z"@ =~= seq!['%', 'z']);
    assert("%:z"@ =~= seq!['%', ':', 'z']);
    assert("%#z"@ =~= seq!['%', '#', 'z']);
    a || b || c || d
}

/// Does the chrono datetime pattern have a year (`%Y`, `%y`)?
pub fn dt_pattern_has_year(pattern: &str) -> (r: bool)
    ensures
        r == spec_dt_pattern_has_year(pattern@),
{
    proof {
        reveal_strlit("%Y");
        reveal_strlit("%y");
    }
    let a = str_contains(pattern, "%Y");
    let b = str_contains(pattern, "%y");
    assert("%Y"@ =~= seq!['%', 'Y']);
    assert("%y"@ =~= seq!['%', 'y']);
    a || b
}


// ---------------------------------------------------------------------------------------
// matching of leading and trailing whitespace of a datetime string and its pattern
// ---------------------------------------------------------------------------------------

/// Whitespace classes: 1 space, 2 tab, 3 line end (`\n` or `\r`); 0 is not whitespace.
pub open spec fn ws_class(c: char) -> int {
    if c == ' ' {
        1
    } else if c == '\t' {
        2
    } else if c == '\n' || c == '\r' {
        3
    } else {
        0
    }
}

/// Count of the chars of `s` in whitespace class `k`.
pub open spec fn count_class(s: Seq<char>, k: int) -> nat
    decreases s.len(),
{
    if s.len() == 0 {
        0
    } else {
        count_class(s.drop_last(), k) + if ws_class(s.last()) == k { 1nat } else { 0nat }
    }
}

/// `n` is the length of the longest prefix of `s` made of whitespace.
pub open spec fn is_lead_ws(s: Seq<char>, n: int) -> bool {
    &&& 0 <= n <= s.len()
    &&& forall|k: int| 0 <= k < n ==> ws_class(#[trigger] s[k]) != 0
    &&& n < s.len() ==> ws_class(s[n]) == 0
}

/// `n` is the length of the longest suffix of `s` made of whitespace.
pub open spec fn is_trail_ws(s: Seq<char>, n: int) -> bool {
    &&& 0 <= n <= s.len()
    &&& forall|k: int| s.len() - n <= k < s.len() ==> ws_class(#[trigger] s[k]) != 0
    &&& n < s.len() ==> ws_class(s[s.len() - n - 1]) == 0
}

/// Length of the leading whitespace of `s`.
pub open spec fn lead_ws(s: Seq<char>) -> int {
    choose|n: int| is_lead_ws(s, n)
}

/// Length of the trailing whitespace of `s`.
pub open spec fn trail_ws(s: Seq<char>) -> int {
    choose|n: int| is_trail_ws(s, n)
}

/// The same count of each whitespace class in `a` and `b`.
pub open spec fn same_class_counts(a: Seq<char>, b: Seq<char>) -> bool {
    &&& count_class(a, 1) == count_class(b, 1)
    &&& count_class(a, 2) == count_class(b, 2)
    &&& count_class(a, 3) == count_class(b, 3)
}

/// The trailing whitespace that is compared: none where `s` is all whitespace.
pub open spec fn trail_ws_compared(s: Seq<char>) -> Seq<char> {
    if lead_ws(s) < s.len() {
        s.subrange(s.len() - trail_ws(s), s.len() as int)
    } else {
        Seq::empty()
    }
}

/// `value` and `pattern` begin with the same counts of spaces, tabs and line
/// ends, and end with the same counts of them.
pub open spec fn spec_workaround_Issue660(value: Seq<char>, pattern: Seq<char>) -> bool {
    &&& same_class_counts(value.take(lead_ws(value)), pattern.take(lead_ws(pattern)))
    &&& same_class_counts(trail_ws_compared(value), trail_ws_compared(pattern))
}

proof fn lemma_lead_ws_unique(s: Seq<char>, n: int)
    requires
        is_lead_ws(s, n),
    ensures
        lead_ws(s) == n,
{
    let m = lead_ws(s);
    assert(is_lead_ws(s, m));
    if m < n {
        assert(ws_class(s[m]) != 0);
    } else if n < m {
        assert(ws_class(s[n]) != 0);
    }
}

proof fn lemma_trail_ws_unique(s: Seq<char>, n: int)
    requires
        is_trail_ws(s, n),
    ensures
        trail_ws(s) == n,
{
    let m = trail_ws(s);
    assert(is_trail_ws(s, m));
    if m < n {
        assert(ws_class(s[s.len() - m - 1]) != 0);
    } else if n < m {
        assert(ws_class(s[s.len() - n - 1]) != 0);
    }
}

proof fn lemma_count_class_prepend(c: char, s: Seq<char>, k: int)
    ensures
        count_class(seq![c] + s, k) == count_class(s, k) + if ws_class(c) == k { 1nat } else { 0nat },
    decreases s.len(),
{
    let t = seq![c] + s;
    if s.len() > 0 {
        assert(t.drop_last() =~= seq![c] + s.drop_last());
        assert(t.last() == s.last());
        lemma_count_class_prepend(c, s.drop_last(), k);
        assert(count_class(t, k) == count_class(t.drop_last(), k) + if ws_class(t.last()) == k { 1nat } else { 0nat });
    } else {
        assert(t.drop_last() =~= Seq::<char>::empty());
        assert(s =~= Seq::<char>::empty());
        assert(t.last() == c);
        assert(count_class(t, k) == count_class(t.drop_last(), k) + if ws_class(t.last()) == k { 1nat } else { 0nat });
    }
}

/// Counts of the leading whitespace of `s` by class.
fn lead_ws_counts(s: &str, len: usize) -> (r: (usize, usize, usize, usize))
    requires
        len == s@.len(),
    ensures
        r.3 == lead_ws(s@),
        r.0 == count_class(s@.take(r.3 as int), 1),
        r.1 == count_class(s@.take(r.3 as int), 2),
        r.2 == count_class(s@.take(r.3 as int), 3),
{
    let mut sc: usize = 0;
    let mut tc: usize = 0;
    let mut ec: usize = 0;
    let mut i: usize = 0;
    while i < len
        invariant
            len == s@.len(),
            i <= len,
            forall|k: int| 0 <= k < i ==> ws_class(#[trigger] s@[k]) != 0,
            sc == count_class(s@.take(i as int), 1),
            tc == count_class(s@.take(i as int), 2),
            ec == count_class(s@.take(i as int), 3),
            sc + tc + ec == i,
        ensures
            i <= len,
            forall|k: int| 0 <= k < i ==> ws_class(#[trigger] s@[k]) != 0,
            i < len ==> ws_class(s@[i as int]) == 0,
            sc == count_class(s@.take(i as int), 1),
            tc == count_class(s@.take(i as int), 2),
            ec == count_class(s@.take(i as int), 3),
        decreases len - i,
    {
        let c = s.get_char(i);
        if !(c == ' ' || c == '\t' || c == '\n' || c == '\r') {
            break;
        }
        assert(s@.take(i + 1).drop_last() =~= s@.take(i as int));
        if c == ' ' {
            sc = sc + 1;
        } else if c == '\t' {
            tc = tc + 1;
        } else {
            ec = ec + 1;
        }
        i += 1;
    }
    proof {
        lemma_lead_ws_unique(s@, i as int);
    }
    (sc, tc, ec, i)
}

/// Counts of the trailing whitespace of `s` by class.
fn trail_ws_counts(s: &str, len: usize) -> (r: (usize, usize, usize, usize))
    requires
        len == s@.len(),
    ensures
        r.3 == trail_ws(s@),
        r.0 == count_class(s@.subrange(len - r.3, len as int), 1),
        r.1 == count_class(s@.subrange(len - r.3, len as int), 2),
        r.2 == count_class(s@.subrange(len - r.3, len as int), 3),
{
    let mut sc: usize = 0;
    let mut tc: usize = 0;
    let mut ec: usize = 0;
    let mut j: usize = len;
    while j > 0
        invariant
            len == s@.len(),
            j <= len,
            forall|k: int| j <= k < len ==> ws_class(#[trigger] s@[k]) != 0,
            sc == count_class(s@.subrange(j as int, len as int), 1),
            tc == count_class(s@.subrange(j as int, len as int), 2),
            ec == count_class(s@.subrange(j as int, len as int), 3),
            sc + tc + ec == len - j,
        ensures
            j <= len,
            forall|k: int| j <= k < len ==> ws_class(#[trigger] s@[k]) != 0,
            j > 0 ==> ws_class(s@[j - 1]) == 0,
            sc == count_class(s@.subrange(j as int, len as int), 1),
            tc == count_class(s@.subrange(j as int, len as int), 2),
            ec == count_class(s@.subrange(j as int, len as int), 3),
        decreases j,
    {
        let c = s.get_char(j - 1);
        if !(c == ' ' || c == '\t' || c == '\n' || c == '\r') {
            break;
        }
        proof {
            let ghost sub = s@.subrange(j as int, len as int);
            assert(s@.subrange(j - 1, len as int) =~= seq![c] + sub);
            lemma_count_class_prepend(c, sub, 1);
            lemma_count_class_prepend(c, sub, 2);
            lemma_count_class_prepend(c, sub, 3);
        }
        if c == ' ' {
            sc = sc + 1;
        } else if c == '\t' {
            tc = tc + 1;
        } else {
            ec = ec + 1;
        }
        j -= 1;
    }
    proof {
        lemma_trail_ws_unique(s@, (len - j) as int);
    }
    (sc, tc, ec, len - j)
}

/// Workaround for chrono Issue #660: do the leading whitespace of `value` and
/// `pattern` have the same counts of spaces, tabs and line ends, and likewise
/// their trailing whitespace?
pub fn datetime_from_str_workaround_Issue660(value: &str, pattern: &str) -> (r: bool)
    ensures
        r == spec_workaround_Issue660(value@, pattern@),
{
    let vlen = value.unicode_len();
    let plen = pattern.unicode_len();
    let (v_sc, v_tc, v_ec, v_lead) = lead_ws_counts(value, vlen);
    let (p_sc, p_tc, p_ec, p_lead) = lead_ws_counts(pattern, plen);
    if v_sc != p_sc || v_tc != p_tc || v_ec != p_ec {
        return false;
    }
    let (v_sc, v_tc, v_ec) = if v_lead < vlen {
        let (a, b, c, _n) = trail_ws_counts(value, vlen);
        (a, b, c)
    } else {
        assert(trail_ws_compared(value@) =~= Seq::<char>::empty());
        (0, 0, 0)
    };
    let (p_sc, p_tc, p_ec) = if p_lead < plen {
        let (a, b, c, _n) = trail_ws_counts(pattern, plen);
        (a, b, c)
    } else {
        assert(trail_ws_compared(pattern@) =~= Seq::<char>::empty());
        (0, 0, 0)
    };
    v_sc == p_sc && v_tc == p_tc && v_ec == p_ec
}


// ---------------------------------------------------------------------------------------
// parsing datetime strings (chrono)
// ---------------------------------------------------------------------------------------

impl View for DateTimeL {
    type V = (i64, u32, i32);

    open spec fn view(&self) -> (i64, u32, i32) {
        (self.secs, self.nsecs, self.offset)
    }
}

/// The datetime that a `(secs, nsecs, offset)` triple names.
pub open spec fn dt_of(t: (i64, u32, i32)) -> DateTimeL {
    DateTimeL { secs: t.0, nsecs: t.1, offset: t.2 }
}

/// What `chrono::DateTime::parse_from_str(s, fmt)` gives: the instant, its
/// subsecond nanoseconds and the offset written in `s`; `None` on a parse error.
pub uninterp spec fn chrono_parse_with_tz(s: Seq<char>, fmt: Seq<char>) -> Option<(i64, u32, i32)>;

/// What `chrono::NaiveDateTime::parse_from_str(s, fmt)` gives, as the seconds and
/// nanoseconds of that wall-clock time read as UTC; `None` on a parse error.
pub uninterp spec fn chrono_parse_naive(s: Seq<char>, fmt: Seq<char>) -> Option<(i64, u32)>;

/// What `chrono::FixedOffset::from_local_datetime(..).earliest()` gives for the
/// wall-clock time `(secs, nsecs)` (read as UTC) in the offset `offset`.
pub uninterp spec fn chrono_from_local(secs: i64, nsecs: u32, offset: i32) -> Option<(i64, u32, i32)>;

/// Calls `chrono::DateTime::parse_from_str`. Its result is named
/// `chrono_parse_with_tz` of the two strings; nothing more is claimed of it.
#[verifier::external_body]
fn chrono_parse_from_str_tz(s: &str, fmt: &str) -> (r: Option<DateTimeL>)
    ensures
        match r {
            Some(d) => chrono_parse_with_tz(s@, fmt@) == Some(d@),
            None => chrono_parse_with_tz(s@, fmt@) is None,
        },
{
    match chrono::DateTime::parse_from_str(s, fmt) {
        Ok(dt) => Some(DateTimeL {
            secs: dt.timestamp(),
            nsecs: dt.timestamp_subsec_nanos(),
            offset: dt.offset().local_minus_utc(),
        }),
        Err(_) => None,
    }
}

/// Calls `chrono::NaiveDateTime::parse_from_str`. Its result is named
/// `chrono_parse_naive` of the two strings; nothing more is claimed of it.
#[verifier::external_body]
fn chrono_parse_from_str_naive(s: &str, fmt: &str) -> (r: Option<(i64, u32)>)
    ensures
        r == chrono_parse_naive(s@, fmt@),
{
    match chrono::NaiveDateTime::parse_from_str(s, fmt) {
        Ok(n) => Some((n.and_utc().timestamp(), n.and_utc().timestamp_subsec_nanos())),
        Err(_) => None,
    }
}

/// Calls `chrono::TimeZone::from_local_datetime` of the `FixedOffset` `offset` on the
/// wall-clock time `(secs, nsecs)`, then `earliest()`. Its result is named
/// `chrono_from_local`; chrono's source shows that a found datetime is the wall-clock
/// time less the offset, with the same nanoseconds and that offset. When it is
/// `None` (out of chrono's range) is not stated.
#[verifier::external_body]
fn chrono_fixed_offset_from_local(secs: i64, nsecs: u32, offset: i32) -> (r: Option<DateTimeL>)
    requires
        tz_offset_ok(offset),
    ensures
        match r {
            Some(d) => chrono_from_local(secs, nsecs, offset) == Some(d@),
            None => chrono_from_local(secs, nsecs, offset) is None,
        },
        r matches Some(d) ==> d.secs == secs - offset && d.nsecs == nsecs && d.offset == offset,
{
    let naive = chrono::DateTime::from_timestamp(secs, nsecs)?.naive_utc();
    let tz = chrono::FixedOffset::east_opt(offset)?;
    match chrono::TimeZone::from_local_datetime(&tz, &naive).earliest() {
        Some(dt) => Some(DateTimeL {
            secs: dt.timestamp(),
            nsecs: dt.timestamp_subsec_nanos(),
            offset: dt.offset().local_minus_utc(),
        }),
        None => None,
    }
}

/// The datetime that `str_datetime` finds in `dts` with `pattern`.
pub open spec fn spec_str_datetime(dts: Seq<char>, pattern: Seq<char>, patt_has_tz: bool, tz_offset: TzOffset) -> DateTimeL_Opt {
    if patt_has_tz {
        match chrono_parse_with_tz(dts, pattern) {
            Some(t) => if spec_workaround_Issue660(dts, pattern) { Some(dt_of(t)) } else { None },
            None => None,
        }
    } else {
        match chrono_parse_naive(dts, pattern) {
            Some(n) => if !spec_workaround_Issue660(dts, pattern) {
                None
            } else {
                match chrono_from_local(n.0, n.1, tz_offset) {
                    Some(t) => Some(dt_of(t)),
                    None => None,
                }
            },
            None => None,
        }
    }
}

/// Parse the datetime string `dts` with the chrono strftime `pattern`.
/// A pattern with a timezone takes the offset written in `dts`; otherwise the
/// datetime is read in `tz_offset`, which is then its offset. Leading and trailing whitespace of `dts` and
/// `pattern` must agree (`datetime_from_str_workaround_Issue660`).
pub fn str_datetime(dts: &str, pattern: &str, patt_has_tz: bool, tz_offset: TzOffset) -> (r: DateTimeL_Opt)
    requires
        tz_offset_ok(tz_offset),
    ensures
        r == spec_str_datetime(dts@, pattern@, patt_has_tz, tz_offset),
        !patt_has_tz ==> (r matches Some(d) ==> d.offset == tz_offset),
        patt_has_tz ==> (r matches Some(d) ==> chrono_parse_with_tz(dts@, pattern@) == Some(d@)),
        patt_has_tz ==> (r is Some <==> (chrono_parse_with_tz(dts@, pattern@) is Some && spec_workaround_Issue660(dts@, pattern@))),
{
    if patt_has_tz {
        match chrono_parse_from_str_tz(dts, pattern) {
            Some(val) => {
                if !datetime_from_str_workaround_Issue660(dts, pattern) {
                    return None;
                }
                return Some(val);
            },
            None => {
                return None;
            },
        }
    }
    let dt_naive = match chrono_parse_from_str_naive(dts, pattern) {
        Some(val) => {
            if !datetime_from_str_workaround_Issue660(dts, pattern) {
                return None;
            }
            val
        },
        None => {
            return None;
        },
    };
    chrono_fixed_offset_from_local(dt_naive.0, dt_naive.1, tz_offset)
}

// ---------------------------------------------------------------------------------------
// bytes to str
// ---------------------------------------------------------------------------------------

/// The length of the longest prefix of `b` that is UTF-8 holding only code points
/// up to U+00FF (ASCII bytes, and `0xC2`/`0xC3` each followed by a continuation byte).
pub open spec fn latin1_up_to(b: Seq<u8>) -> nat
    decreases b.len(),
{
    if b.len() == 0 {
        0
    } else if b[0] < 0x80 {
        1 + latin1_up_to(b.drop_first())
    } else if (b[0] == 0xC2 || b[0] == 0xC3) && b.len() >= 2 && 0x80 <= b[1] < 0xC0 {
        2 + latin1_up_to(b.subrange(2, b.len() as int))
    } else {
        0
    }
}

/// Calls `encoding_rs::mem::utf8_latin1_up_to`, whose source returns the index of the
/// first byte that does not begin a Latin1 UTF-8 sequence (as `latin1_up_to` states).
#[verifier::external_body]
fn encoding_utf8_latin1_up_to(b: &[u8]) -> (r: usize)
    ensures
        r == latin1_up_to(b@),
{
    encoding_rs::mem::utf8_latin1_up_to(b)
}

/// Calls `std::str::from_utf8`: a `str` exactly when the bytes are UTF-8, holding
/// the chars that they encode.
#[verifier::external_body]
fn std_str_from_utf8(b: &[u8]) -> (r: Option<&str>)
    ensures
        r is Some <==> valid_utf8(b@),
        r matches Some(s) ==> s@ == decode_utf8(b@),
{
    std::str::from_utf8(b).ok()
}

/// All bytes are ASCII.
pub open spec fn all_ascii(b: Seq<u8>) -> bool {
    forall|i: int| 0 <= i < b.len() ==> #[trigger] b[i] < 0x80
}

/// What `u8_to_str` gives: the decoded chars of ASCII or Latin1 UTF-8 bytes.
pub open spec fn spec_u8_to_str(b: Seq<u8>) -> Option<Seq<char>> {
    if (all_ascii(b) || latin1_up_to(b) == b.len()) && valid_utf8(b) {
        Some(decode_utf8(b))
    } else {
        None
    }
}

/// Decode bytes to a `str` where they are ASCII, or UTF-8 with only code points up to U+00FF.
pub fn u8_to_str(slice_: &[u8]) -> (r: Option<&str>)
    ensures
        match r {
            Some(s) => spec_u8_to_str(slice_@) == Some(s@),
            None => spec_u8_to_str(slice_@) is None,
        },
{
    let len = slice_.len();
    let mut ascii = true;
    let mut i: usize = 0;
    while i < len
        invariant
            len == slice_@.len(),
            i <= len,
            ascii == (forall|k: int| 0 <= k < i ==> #[trigger] slice_@[k] < 0x80),
        decreases len - i,
    {
        if slice_[i] >= 0x80 {
            ascii = false;
        }
        i += 1;
    }
    if !ascii {
        let va = encoding_utf8_latin1_up_to(slice_);
        if va != len {
            return None;
        }
    }
    std_str_from_utf8(slice_)
}

// ---------------------------------------------------------------------------------------
// quick byte checks
// ---------------------------------------------------------------------------------------

/// What `slice_contains_X_2` finds: one of the two bytes somewhere in the slice.
pub open spec fn spec_slice_contains_X_2(s: Seq<u8>, search: Seq<u8>) -> bool {
    exists|i: int| 0 <= i < s.len() && (s[i] == search[0] || s[i] == search[1])
}

/// Does `slice_` contain either byte of `search`?
pub fn slice_contains_X_2(slice_: &[u8], search: &[u8; 2]) -> (r: bool)
    ensures
        r == spec_slice_contains_X_2(slice_@, search@),
{
    let len = slice_.len();
    let n: usize = len;
    let a = search[0];
    let b = search[1];
    let mut i: usize = 0;
    while i < n
        invariant
            len == slice_@.len(),
            n == len,
            a == search@[0],
            b == search@[1],
            i <= n,
            forall|k: int| 0 <= k < i ==> !(slice_@[k] == a || slice_@[k] == b),
        decreases n - i,
    {
        if slice_[i] == a || slice_[i] == b {
            return true;
        }
        i += 1;
    }
    false
}


// ---------------------------------------------------------------------------------------
// built-in datetime patterns
// ---------------------------------------------------------------------------------------

/// A datetime pattern and where to look for it in a line:
/// `[sib, sie)` is the slice of the line given to the parser,
/// `[siba, siea)` is the part of that slice which is only the datetime.
#[derive(Clone, Copy, Debug)]
pub struct DateTime_Parse_Data {
    /// chrono strftime pattern
    pub pattern: &'static str,
    /// does the pattern have a year? (`%Y`, `%y`)
    pub year: bool,
    /// does the pattern have a timezone? (`%z`, `%Z`, ...)
    pub tz: bool,
    /// slice index begin of entire pattern
    pub sib: LineIndex,
    /// slice index end of entire pattern
    pub sie: LineIndex,
    /// slice index begin of only the datetime portion
    pub siba: LineIndex,
    /// slice index end of only the datetime portion
    pub siea: LineIndex,
}

/// Pattern, has year?, has timezone?, sib, sie, siba, siea.
pub type DateTime_Parse_Data_str = (&'static str, bool, bool, LineIndex, LineIndex, LineIndex, LineIndex);

pub type DateTime_Parse_Datas_vec = Vec<DateTime_Parse_Data>;

pub open spec fn spec_dtpd_of(t: DateTime_Parse_Data_str) -> DateTime_Parse_Data {
    DateTime_Parse_Data { pattern: t.0, year: t.1, tz: t.2, sib: t.3, sie: t.4, siba: t.5, siea: t.6 }
}

/// The parse data of a pattern tuple.
pub fn DateTime_Parse_Data_str_to_DateTime_Parse_Data(dtpds: &DateTime_Parse_Data_str) -> (r: DateTime_Parse_Data)
    ensures
        r == spec_dtpd_of(*dtpds),
{
    DateTime_Parse_Data {
        pattern: dtpds.0,
        year: dtpds.1,
        tz: dtpds.2,
        sib: dtpds.3,
        sie: dtpds.4,
        siba: dtpds.5,
        siea: dtpds.6,
    }
}

/// Count of built-in datetime patterns.
pub const DATETIME_PARSE_DATAS_LEN: usize = 105;

/// The built-in datetime patterns, in the order they are tried: pattern, has year?,
/// has timezone?, and the offsets `sib`, `sie`, `siba`, `siea`.
pub open spec fn builtin_datetime_patterns() -> Seq<DateTime_Parse_Data_str> {
    seq![
        ("[%Y/%m/%d %H:%M:%S%.6f,", true, false, 0, 28, 1, 27),
        ("[%Y/%m/%d %H:%M:%S%.6f]", true, false, 0, 28, 1, 27),
        ("%Y-%m-%d %H:%M:%S %z ", true, true, 0, 26, 0, 25),
        ("%Y-%m-%d %H:%M:%S%z ", true, true, 0, 25, 0, 24),
        ("%Y-%m-%dT%H:%M:%S %z ", true, true, 0, 26, 0, 25),
        ("%Y-%m-%dT%H:%M:%S%z ", true, true, 0, 25, 0, 24),
        ("%Y-%m-%d %H:%M:%S %Z ", true, true, 0, 25, 0, 24),
        ("%Y-%m-%d %H:%M:%S%Z ", true, true, 0, 24, 0, 23),
        ("%Y-%m-%dT%H:%M:%S %Z ", true, true, 0, 25, 0, 24),
        ("%Y-%m-%dT%H:%M:%S%Z ", true, true, 0, 24, 0, 23),
        ("%Y-%m-%d %H:%M:%S %:z ", true, true, 0, 27, 0, 26),
        ("%Y-%m-%d %H:%M:%S%:z ", true, true, 0, 26, 0, 25),
        ("%Y-%m-%dT%H:%M:%S %:z ", true, true, 0, 27, 0, 26),
        ("%Y-%m-%dT%H:%M:%S%:z ", true, true, 0, 26, 0, 25),
        ("%Y-%m-%d %H:%M:%S%.3f%z ", true, true, 0, 29, 0, 28),
        ("%Y-%m-%d %H:%M:%S%.3f%:z ", true, true, 0, 30, 0, 29),
        ("%Y-%m-%d %H:%M:%S%.3f %z ", true, true, 0, 30, 0, 29),
        ("%Y-%m-%d %H:%M:%S%.3f %:z ", true, true, 0, 31, 0, 30),
        ("%Y-%m-%d %H:%M:%S%.3f %Z ", true, true, 0, 29, 0, 28),
        ("%Y-%m-%dT%H:%M:%S%.3f%z ", true, true, 0, 29, 0, 28),
        ("%Y-%m-%dT%H:%M:%S%.3f%:z ", true, true, 0, 30, 0, 29),
        ("%Y-%m-%dT%H:%M:%S%.3f %z ", true, true, 0, 30, 0, 29),
        ("%Y-%m-%dT%H:%M:%S%.3f %:z ", true, true, 0, 31, 0, 30),
        ("%Y-%m-%dT%H:%M:%S%.3f %Z ", true, true, 0, 29, 0, 28),
        ("%Y-%m-%d %H:%M:%S%.6f%z ", true, true, 0, 32, 0, 31),
        ("%Y-%m-%d %H:%M:%S%.6f %z ", true, true, 0, 33, 0, 32),
        ("%Y-%m-%d %H:%M:%S%.6f%:z ", true, true, 0, 33, 0, 32),
        ("%Y-%m-%d %H:%M:%S%.6f %:z ", true, true, 0, 34, 0, 33),
        ("%Y-%m-%d %H:%M:%S%.6f %Z ", true, true, 0, 32, 0, 31),
        ("%Y-%m-%dT%H:%M:%S%.6f%z ", true, true, 0, 32, 0, 31),
        ("%Y-%m-%dT%H:%M:%S%.6f %z ", true, true, 0, 33, 0, 32),
        ("%Y-%m-%dT%H:%M:%S%.6f%:z ", true, true, 0, 33, 0, 32),
        ("%Y-%m-%dT%H:%M:%S%.6f %:z ", true, true, 0, 34, 0, 33),
        ("%Y-%m-%dT%H:%M:%S%.6f %Z ", true, true, 0, 32, 0, 31),
        ("%Y%m%dT%H%M%S %z ", true, true, 0, 22, 0, 21),
        ("%Y%m%dT%H%M%S %:z ", true, true, 0, 23, 0, 22),
        ("%Y%m%dT%H%M%S %Z ", true, true, 0, 22, 0, 21),
        ("%Y-%m-%dT%H:%M:%S%.3f%z ", true, true, 0, 30, 0, 29),
        ("%Y-%m-%dT%H:%M:%S%.3f%Z ", true, true, 0, 30, 0, 29),
        ("%Y-%m-%dT%H:%M:%S%.3f-", true, false, 0, 24, 0, 23),
        ("%Y-%m-%d %H:%M:%S%.6f-", true, false, 0, 27, 0, 26),
        ("[%Y%m%d-%H:%M:%S]", true, false, 0, 19, 1, 18),
        (" %Y-%m-%d %H:%M:%S: ", true, false, 19, 41, 20, 39),
        ("[%Y-%m-%d %H:%M:%S,%3f] ", true, false, 0, 26, 1, 24),
        ("[%Y-%m-%d %H:%M:%S,%3f]", true, false, 0, 25, 1, 24),
        ("%a %b %d %H:%M:%S %Y ", true, false, 0, 25, 0, 24),
        ("%a %b %d %H:%M:%S %Y", true, false, 0, 24, 0, 24),
        ("%Y-%m-%d %H:%M:%S%.3f ", true, false, 0, 24, 0, 23),
        ("%Y-%m-%d %H:%M:%S%.3f ", true, false, 1, 25, 1, 24),
        ("%Y-%m-%d %H:%M:%S%.3f ", true, false, 2, 26, 2, 25),
        ("%Y-%m-%d %H:%M:%S%.3f ", true, false, 3, 27, 3, 26),
        ("%Y-%m-%d %H:%M:%S%.3f ", true, false, 4, 28, 4, 27),
        ("%Y-%m-%d %H:%M:%S%.3f ", true, false, 5, 29, 5, 28),
        ("%Y-%m-%d %H:%M:%S%.3f ", true, false, 6, 30, 6, 29),
        ("%Y-%m-%d %H:%M:%S%.3f ", true, false, 7, 31, 7, 30),
        ("%Y-%m-%d %H:%M:%S%.3f ", true, false, 8, 32, 8, 31),
        ("%Y-%m-%d %H:%M:%S%.3f ", true, false, 9, 33, 9, 32),
        ("%Y-%m-%d %H:%M:%S%.3f ", true, false, 10, 34, 10, 33),
        ("%Y-%m-%d %H:%M:%S ", true, false, 0, 20, 0, 19),
        ("%Y-%m-%d %H:%M:%S ", true, false, 1, 21, 1, 20),
        ("%Y-%m-%d %H:%M:%S ", true, false, 2, 22, 2, 21),
        ("%Y-%m-%d %H:%M:%S ", true, false, 3, 23, 3, 22),
        ("%Y-%m-%d %H:%M:%S ", true, false, 4, 24, 4, 23),
        ("%Y-%m-%d %H:%M:%S ", true, false, 5, 25, 5, 24),
        ("%Y-%m-%d %H:%M:%S ", true, false, 6, 26, 6, 25),
        ("%Y-%m-%d %H:%M:%S ", true, false, 7, 27, 7, 26),
        ("%Y-%m-%d %H:%M:%S ", true, false, 8, 28, 8, 27),
        ("%Y-%m-%d %H:%M:%S ", true, false, 9, 29, 9, 28),
        ("%Y-%m-%d %H:%M:%S ", true, false, 10, 30, 10, 29),
        ("%Y-%m-%d %H:%M:%S", true, false, 0, 19, 0, 19),
        ("%Y-%m-%d %H:%M:%S", true, false, 1, 20, 1, 20),
        ("%Y-%m-%d %H:%M:%S", true, false, 2, 21, 2, 21),
        ("%Y-%m-%d %H:%M:%S", true, false, 3, 22, 3, 22),
        ("%Y-%m-%d %H:%M:%S", true, false, 4, 23, 4, 23),
        ("%Y-%m-%d %H:%M:%S", true, false, 5, 24, 5, 24),
        ("%Y-%m-%d %H:%M:%S", true, false, 6, 25, 6, 25),
        ("%Y-%m-%d %H:%M:%S", true, false, 7, 26, 7, 26),
        ("%Y-%m-%d %H:%M:%S", true, false, 8, 27, 8, 27),
        ("%Y-%m-%d %H:%M:%S", true, false, 9, 28, 9, 28),
        ("%Y-%m-%d %H:%M:%S", true, false, 10, 29, 10, 29),
        ("%Y-%m-%dT%H:%M:%S ", true, false, 0, 20, 0, 19),
        ("%Y-%m-%dT%H:%M:%S", true, false, 0, 19, 0, 19),
        ("%Y%m%d %H%M%S ", true, false, 0, 16, 0, 15),
        ("%Y%m%dT%H%M%S ", true, false, 0, 16, 0, 15),
        ("%Y%m%dT%H%M%S", true, false, 0, 15, 0, 15),
        (" %a %b %d %H:%M:%S %Y:", true, false, 22, 47, 22, 46),
        (" %a %b %d %H:%M:%S %Y:", true, false, 23, 48, 23, 47),
        (" %a %b %d %H:%M:%S %Y:", true, false, 24, 49, 24, 48),
        (" %a %b %d %H:%M:%S %Y:", true, false, 25, 50, 25, 49),
        (" %a %b %d %H:%M:%S %Y ", true, false, 5, 31, 6, 30),
        (" %a %b %d %H:%M:%S %Y ", true, false, 6, 32, 7, 31),
        (" %a %b %d %H:%M:%S %Y ", true, false, 7, 33, 8, 32),
        (" %a %b %d %H:%M:%S %Y ", true, false, 8, 34, 9, 33),
        (" %a %b %d %Y %H:%M:%S ", true, false, 5, 31, 6, 30),
        (" %a %b %d %Y %H:%M:%S ", true, false, 6, 32, 7, 31),
        (" %a %b %d %Y %H:%M:%S ", true, false, 7, 33, 8, 32),
        (" %a %b %d %Y %H:%M:%S ", true, false, 8, 34, 9, 33),
        ("] %Y-%m-%dT%H:%M:%S ", true, false, 5, 27, 7, 26),
        ("] %Y-%m-%dT%H:%M:%S ", true, false, 6, 28, 8, 27),
        ("] %Y-%m-%dT%H:%M:%S ", true, false, 7, 29, 9, 28),
        ("] %Y-%m-%dT%H:%M:%S ", true, false, 8, 30, 10, 29),
        ("] %Y-%m-%d %H:%M:%S ", true, false, 5, 27, 7, 26),
        ("] %Y-%m-%d %H:%M:%S ", true, false, 6, 28, 8, 27),
        ("] %Y-%m-%d %H:%M:%S ", true, false, 7, 29, 9, 28),
        ("] %Y-%m-%d %H:%M:%S ", true, false, 8, 30, 10, 29)
    ]
}

/// The built-in datetime patterns, in the order they are tried.
/// Offsets are `[X, Y)`, e.g. in `"[2000-01-01 00:00:00]"` the pattern may
/// begin at `"["` while the datetime begins at `"2"`.
pub fn DATETIME_PARSE_DATAS() -> (v: Vec<DateTime_Parse_Data_str>)
    ensures
        v.len() == DATETIME_PARSE_DATAS_LEN,
        v@ == builtin_datetime_patterns(),
{
    let v: Vec<DateTime_Parse_Data_str> = vec![
        ("[%Y/%m/%d %H:%M:%S%.6f,", true, false, 0, 28, 1, 27),
        ("[%Y/%m/%d %H:%M:%S%.6f]", true, false, 0, 28, 1, 27),
        ("%Y-%m-%d %H:%M:%S %z ", true, true, 0, 26, 0, 25),
        ("%Y-%m-%d %H:%M:%S%z ", true, true, 0, 25, 0, 24),
        ("%Y-%m-%dT%H:%M:%S %z ", true, true, 0, 26, 0, 25),
        ("%Y-%m-%dT%H:%M:%S%z ", true, true, 0, 25, 0, 24),
        ("%Y-%m-%d %H:%M:%S %Z ", true, true, 0, 25, 0, 24),
        ("%Y-%m-%d %H:%M:%S%Z ", true, true, 0, 24, 0, 23),
        ("%Y-%m-%dT%H:%M:%S %Z ", true, true, 0, 25, 0, 24),
        ("%Y-%m-%dT%H:%M:%S%Z ", true, true, 0, 24, 0, 23),
        ("%Y-%m-%d %H:%M:%S %:z ", true, true, 0, 27, 0, 26),
        ("%Y-%m-%d %H:%M:%S%:z ", true, true, 0, 26, 0, 25),
        ("%Y-%m-%dT%H:%M:%S %:z ", true, true, 0, 27, 0, 26),
        ("%Y-%m-%dT%H:%M:%S%:z ", true, true, 0, 26, 0, 25),
        ("%Y-%m-%d %H:%M:%S%.3f%z ", true, true, 0, 29, 0, 28),
        ("%Y-%m-%d %H:%M:%S%.3f%:z ", true, true, 0, 30, 0, 29),
        ("%Y-%m-%d %H:%M:%S%.3f %z ", true, true, 0, 30, 0, 29),
        ("%Y-%m-%d %H:%M:%S%.3f %:z ", true, true, 0, 31, 0, 30),
        ("%Y-%m-%d %H:%M:%S%.3f %Z ", true, true, 0, 29, 0, 28),
        ("%Y-%m-%dT%H:%M:%S%.3f%z ", true, true, 0, 29, 0, 28),
        ("%Y-%m-%dT%H:%M:%S%.3f%:z ", true, true, 0, 30, 0, 29),
        ("%Y-%m-%dT%H:%M:%S%.3f %z ", true, true, 0, 30, 0, 29),
        ("%Y-%m-%dT%H:%M:%S%.3f %:z ", true, true, 0, 31, 0, 30),
        ("%Y-%m-%dT%H:%M:%S%.3f %Z ", true, true, 0, 29, 0, 28),
        ("%Y-%m-%d %H:%M:%S%.6f%z ", true, true, 0, 32, 0, 31),
        ("%Y-%m-%d %H:%M:%S%.6f %z ", true, true, 0, 33, 0, 32),
        ("%Y-%m-%d %H:%M:%S%.6f%:z ", true, true, 0, 33, 0, 32),
        ("%Y-%m-%d %H:%M:%S%.6f %:z ", true, true, 0, 34, 0, 33),
        ("%Y-%m-%d %H:%M:%S%.6f %Z ", true, true, 0, 32, 0, 31),
        ("%Y-%m-%dT%H:%M:%S%.6f%z ", true, true, 0, 32, 0, 31),
        ("%Y-%m-%dT%H:%M:%S%.6f %z ", true, true, 0, 33, 0, 32),
        ("%Y-%m-%dT%H:%M:%S%.6f%:z ", true, true, 0, 33, 0, 32),
        ("%Y-%m-%dT%H:%M:%S%.6f %:z ", true, true, 0, 34, 0, 33),
        ("%Y-%m-%dT%H:%M:%S%.6f %Z ", true, true, 0, 32, 0, 31),
        ("%Y%m%dT%H%M%S %z ", true, true, 0, 22, 0, 21),
        ("%Y%m%dT%H%M%S %:z ", true, true, 0, 23, 0, 22),
        ("%Y%m%dT%H%M%S %Z ", true, true, 0, 22, 0, 21),
        ("%Y-%m-%dT%H:%M:%S%.3f%z ", true, true, 0, 30, 0, 29),
        ("%Y-%m-%dT%H:%M:%S%.3f%Z ", true, true, 0, 30, 0, 29),
        ("%Y-%m-%dT%H:%M:%S%.3f-", true, false, 0, 24, 0, 23),
        ("%Y-%m-%d %H:%M:%S%.6f-", true, false, 0, 27, 0, 26),
        ("[%Y%m%d-%H:%M:%S]", true, false, 0, 19, 1, 18),
        (" %Y-%m-%d %H:%M:%S: ", true, false, 19, 41, 20, 39),
        ("[%Y-%m-%d %H:%M:%S,%3f] ", true, false, 0, 26, 1, 24),
        ("[%Y-%m-%d %H:%M:%S,%3f]", true, false, 0, 25, 1, 24),
        ("%a %b %d %H:%M:%S %Y ", true, false, 0, 25, 0, 24),
        ("%a %b %d %H:%M:%S %Y", true, false, 0, 24, 0, 24),
        ("%Y-%m-%d %H:%M:%S%.3f ", true, false, 0, 24, 0, 23),
        ("%Y-%m-%d %H:%M:%S%.3f ", true, false, 1, 25, 1, 24),
        ("%Y-%m-%d %H:%M:%S%.3f ", true, false, 2, 26, 2, 25),
        ("%Y-%m-%d %H:%M:%S%.3f ", true, false, 3, 27, 3, 26),
        ("%Y-%m-%d %H:%M:%S%.3f ", true, false, 4, 28, 4, 27),
        ("%Y-%m-%d %H:%M:%S%.3f ", true, false, 5, 29, 5, 28),
        ("%Y-%m-%d %H:%M:%S%.3f ", true, false, 6, 30, 6, 29),
        ("%Y-%m-%d %H:%M:%S%.3f ", true, false, 7, 31, 7, 30),
        ("%Y-%m-%d %H:%M:%S%.3f ", true, false, 8, 32, 8, 31),
        ("%Y-%m-%d %H:%M:%S%.3f ", true, false, 9, 33, 9, 32),
        ("%Y-%m-%d %H:%M:%S%.3f ", true, false, 10, 34, 10, 33),
        ("%Y-%m-%d %H:%M:%S ", true, false, 0, 20, 0, 19),
        ("%Y-%m-%d %H:%M:%S ", true, false, 1, 21, 1, 20),
        ("%Y-%m-%d %H:%M:%S ", true, false, 2, 22, 2, 21),
        ("%Y-%m-%d %H:%M:%S ", true, false, 3, 23, 3, 22),
        ("%Y-%m-%d %H:%M:%S ", true, false, 4, 24, 4, 23),
        ("%Y-%m-%d %H:%M:%S ", true, false, 5, 25, 5, 24),
        ("%Y-%m-%d %H:%M:%S ", true, false, 6, 26, 6, 25),
        ("%Y-%m-%d %H:%M:%S ", true, false, 7, 27, 7, 26),
        ("%Y-%m-%d %H:%M:%S ", true, false, 8, 28, 8, 27),
        ("%Y-%m-%d %H:%M:%S ", true, false, 9, 29, 9, 28),
        ("%Y-%m-%d %H:%M:%S ", true, false, 10, 30, 10, 29),
        ("%Y-%m-%d %H:%M:%S", true, false, 0, 19, 0, 19),
        ("%Y-%m-%d %H:%M:%S", true, false, 1, 20, 1, 20),
        ("%Y-%m-%d %H:%M:%S", true, false, 2, 21, 2, 21),
        ("%Y-%m-%d %H:%M:%S", true, false, 3, 22, 3, 22),
        ("%Y-%m-%d %H:%M:%S", true, false, 4, 23, 4, 23),
        ("%Y-%m-%d %H:%M:%S", true, false, 5, 24, 5, 24),
        ("%Y-%m-%d %H:%M:%S", true, false, 6, 25, 6, 25),
        ("%Y-%m-%d %H:%M:%S", true, false, 7, 26, 7, 26),
        ("%Y-%m-%d %H:%M:%S", true, false, 8, 27, 8, 27),
        ("%Y-%m-%d %H:%M:%S", true, false, 9, 28, 9, 28),
        ("%Y-%m-%d %H:%M:%S", true, false, 10, 29, 10, 29),
        ("%Y-%m-%dT%H:%M:%S ", true, false, 0, 20, 0, 19),
        ("%Y-%m-%dT%H:%M:%S", true, false, 0, 19, 0, 19),
        ("%Y%m%d %H%M%S ", true, false, 0, 16, 0, 15),
        ("%Y%m%dT%H%M%S ", true, false, 0, 16, 0, 15),
        ("%Y%m%dT%H%M%S", true, false, 0, 15, 0, 15),
        (" %a %b %d %H:%M:%S %Y:", true, false, 22, 47, 22, 46),
        (" %a %b %d %H:%M:%S %Y:", true, false, 23, 48, 23, 47),
        (" %a %b %d %H:%M:%S %Y:", true, false, 24, 49, 24, 48),
        (" %a %b %d %H:%M:%S %Y:", true, false, 25, 50, 25, 49),
        (" %a %b %d %H:%M:%S %Y ", true, false, 5, 31, 6, 30),
        (" %a %b %d %H:%M:%S %Y ", true, false, 6, 32, 7, 31),
        (" %a %b %d %H:%M:%S %Y ", true, false, 7, 33, 8, 32),
        (" %a %b %d %H:%M:%S %Y ", true, false, 8, 34, 9, 33),
        (" %a %b %d %Y %H:%M:%S ", true, false, 5, 31, 6, 30),
        (" %a %b %d %Y %H:%M:%S ", true, false, 6, 32, 7, 31),
        (" %a %b %d %Y %H:%M:%S ", true, false, 7, 33, 8, 32),
        (" %a %b %d %Y %H:%M:%S ", true, false, 8, 34, 9, 33),
        ("] %Y-%m-%dT%H:%M:%S ", true, false, 5, 27, 7, 26),
        ("] %Y-%m-%dT%H:%M:%S ", true, false, 6, 28, 8, 27),
        ("] %Y-%m-%dT%H:%M:%S ", true, false, 7, 29, 9, 28),
        ("] %Y-%m-%dT%H:%M:%S ", true, false, 8, 30, 10, 29),
        ("] %Y-%m-%d %H:%M:%S ", true, false, 5, 27, 7, 26),
        ("] %Y-%m-%d %H:%M:%S ", true, false, 6, 28, 8, 27),
        ("] %Y-%m-%d %H:%M:%S ", true, false, 7, 29, 9, 28),
        ("] %Y-%m-%d %H:%M:%S ", true, false, 8, 30, 10, 29),
    ];
    v
}

/// The built-in datetime patterns as `DateTime_Parse_Data`, in the order they are tried.
pub open spec fn builtin_dtpds() -> Seq<DateTime_Parse_Data> {
    Seq::new(DATETIME_PARSE_DATAS_LEN as nat, |k: int| spec_dtpd_of(builtin_datetime_patterns()[k]))
}

/// The built-in datetime patterns as `DateTime_Parse_Data`.
pub fn DATETIME_PARSE_DATAS_VEC() -> (v: DateTime_Parse_Datas_vec)
    ensures
        v.len() == DATETIME_PARSE_DATAS_LEN,
        forall|k: int| 0 <= k < v.len() ==> v@[k] == spec_dtpd_of(#[trigger] builtin_datetime_patterns()[k]),
        v@ == builtin_dtpds(),
{
    let strs = DATETIME_PARSE_DATAS();
    let mut v: DateTime_Parse_Datas_vec = Vec::new();
    let mut i: usize = 0;
    while i < strs.len()
        invariant
            strs.len() == DATETIME_PARSE_DATAS_LEN,
            strs@ == builtin_datetime_patterns(),
            i <= strs.len(),
            v.len() == i,
            forall|k: int| 0 <= k < i ==> v@[k] == spec_dtpd_of(#[trigger] strs@[k]),
        decreases strs.len() - i,
    {
        v.push(DateTime_Parse_Data_str_to_DateTime_Parse_Data(&strs[i]));
        i += 1;
    }
    assert(v@ =~= builtin_dtpds());
    v
}

/// Every built-in pattern's slice ends at index 2 or later, so a line in which one
/// finds a datetime has at least two bytes.
pub proof fn lemma_builtin_sie()
    ensures
        forall|d: DateTime_Parse_Data| #[trigger] builtin_dtpds().contains(d) ==> d.sie >= 2,
{
    let b = builtin_datetime_patterns();
    assert forall|k: int| 0 <= k < b.len() implies (#[trigger] b[k]).4 >= 2 by {
        if k == 0 {
            assert(b[0].4 == 28);
        } else if k == 1 {
            assert(b[1].4 == 28);
        } else if k == 2 {
            assert(b[2].4 == 26);
        } else if k == 3 {
            assert(b[3].4 == 25);
        } else if k == 4 {
            assert(b[4].4 == 26);
        } else if k == 5 {
            assert(b[5].4 == 25);
        } else if k == 6 {
            assert(b[6].4 == 25);
        } else if k == 7 {
            assert(b[7].4 == 24);
        } else if k == 8 {
            assert(b[8].4 == 25);
        } else if k == 9 {
            assert(b[9].4 == 24);
        } else if k == 10 {
            assert(b[10].4 == 27);
        } else if k == 11 {
            assert(b[11].4 == 26);
        } else if k == 12 {
            assert(b[12].4 == 27);
        } else if k == 13 {
            assert(b[13].4 == 26);
        } else if k == 14 {
            assert(b[14].4 == 29);
        } else if k == 15 {
            assert(b[15].4 == 30);
        } else if k == 16 {
            assert(b[16].4 == 30);
        } else if k == 17 {
            assert(b[17].4 == 31);
        } else if k == 18 {
            assert(b[18].4 == 29);
        } else if k == 19 {
            assert(b[19].4 == 29);
        } else if k == 20 {
            assert(b[20].4 == 30);
        } else if k == 21 {
            assert(b[21].4 == 30);
        } else if k == 22 {
            assert(b[22].4 == 31);
        } else if k == 23 {
            assert(b[23].4 == 29);
        } else if k == 24 {
            assert(b[24].4 == 32);
        } else if k == 25 {
            assert(b[25].4 == 33);
        } else if k == 26 {
            assert(b[26].4 == 33);
        } else if k == 27 {
            assert(b[27].4 == 34);
        } else if k == 28 {
            assert(b[28].4 == 32);
        } else if k == 29 {
            assert(b[29].4 == 32);
        } else if k == 30 {
            assert(b[30].4 == 33);
        } else if k == 31 {
            assert(b[31].4 == 33);
        } else if k == 32 {
            assert(b[32].4 == 34);
        } else if k == 33 {
            assert(b[33].4 == 32);
        } else if k == 34 {
            assert(b[34].4 == 22);
        } else if k == 35 {
            assert(b[35].4 == 23);
        } else if k == 36 {
            assert(b[36].4 == 22);
        } else if k == 37 {
            assert(b[37].4 == 30);
        } else if k == 38 {
            assert(b[38].4 == 30);
        } else if k == 39 {
            assert(b[39].4 == 24);
        } else if k == 40 {
            assert(b[40].4 == 27);
        } else if k == 41 {
            assert(b[41].4 == 19);
        } else if k == 42 {
            assert(b[42].4 == 41);
        } else if k == 43 {
            assert(b[43].4 == 26);
        } else if k == 44 {
            assert(b[44].4 == 25);
        } else if k == 45 {
            assert(b[45].4 == 25);
        } else if k == 46 {
            assert(b[46].4 == 24);
        } else if k == 47 {
            assert(b[47].4 == 24);
        } else if k == 48 {
            assert(b[48].4 == 25);
        } else if k == 49 {
            assert(b[49].4 == 26);
        } else if k == 50 {
            assert(b[50].4 == 27);
        } else if k == 51 {
            assert(b[51].4 == 28);
        } else if k == 52 {
            assert(b[52].4 == 29);
        } else if k == 53 {
            assert(b[53].4 == 30);
        } else if k == 54 {
            assert(b[54].4 == 31);
        } else if k == 55 {
            assert(b[55].4 == 32);
        } else if k == 56 {
            assert(b[56].4 == 33);
        } else if k == 57 {
            assert(b[57].4 == 34);
        } else if k == 58 {
            assert(b[58].4 == 20);
        } else if k == 59 {
            assert(b[59].4 == 21);
        } else if k == 60 {
            assert(b[60].4 == 22);
        } else if k == 61 {
            assert(b[61].4 == 23);
        } else if k == 62 {
            assert(b[62].4 == 24);
        } else if k == 63 {
            assert(b[63].4 == 25);
        } else if k == 64 {
            assert(b[64].4 == 26);
        } else if k == 65 {
            assert(b[65].4 == 27);
        } else if k == 66 {
            assert(b[66].4 == 28);
        } else if k == 67 {
            assert(b[67].4 == 29);
        } else if k == 68 {
            assert(b[68].4 == 30);
        } else if k == 69 {
            assert(b[69].4 == 19);
        } else if k == 70 {
            assert(b[70].4 == 20);
        } else if k == 71 {
            assert(b[71].4 == 21);
        } else if k == 72 {
            assert(b[72].4 == 22);
        } else if k == 73 {
            assert(b[73].4 == 23);
        } else if k == 74 {
            assert(b[74].4 == 24);
        } else if k == 75 {
            assert(b[75].4 == 25);
        } else if k == 76 {
            assert(b[76].4 == 26);
        } else if k == 77 {
            assert(b[77].4 == 27);
        } else if k == 78 {
            assert(b[78].4 == 28);
        } else if k == 79 {
            assert(b[79].4 == 29);
        } else if k == 80 {
            assert(b[80].4 == 20);
        } else if k == 81 {
            assert(b[81].4 == 19);
        } else if k == 82 {
            assert(b[82].4 == 16);
        } else if k == 83 {
            assert(b[83].4 == 16);
        } else if k == 84 {
            assert(b[84].4 == 15);
        } else if k == 85 {
            assert(b[85].4 == 47);
        } else if k == 86 {
            assert(b[86].4 == 48);
        } else if k == 87 {
            assert(b[87].4 == 49);
        } else if k == 88 {
            assert(b[88].4 == 50);
        } else if k == 89 {
            assert(b[89].4 == 31);
        } else if k == 90 {
            assert(b[90].4 == 32);
        } else if k == 91 {
            assert(b[91].4 == 33);
        } else if k == 92 {
            assert(b[92].4 == 34);
        } else if k == 93 {
            assert(b[93].4 == 31);
        } else if k == 94 {
            assert(b[94].4 == 32);
        } else if k == 95 {
            assert(b[95].4 == 33);
        } else if k == 96 {
            assert(b[96].4 == 34);
        } else if k == 97 {
            assert(b[97].4 == 27);
        } else if k == 98 {
            assert(b[98].4 == 28);
        } else if k == 99 {
            assert(b[99].4 == 29);
        } else if k == 100 {
            assert(b[100].4 == 30);
        } else if k == 101 {
            assert(b[101].4 == 27);
        } else if k == 102 {
            assert(b[102].4 == 28);
        } else if k == 103 {
            assert(b[103].4 == 29);
        } else if k == 104 {
            assert(b[104].4 == 30);
        }
    }
    assert forall|d: DateTime_Parse_Data| #[trigger] builtin_dtpds().contains(d) implies d.sie >= 2 by {
        let k = choose|k: int| 0 <= k < builtin_dtpds().len() && builtin_dtpds()[k] == d;
        assert(b[k].4 >= 2);
    }
}

} // verus!
