//! Rotation schedules and the decisions of a rolling-file log sink.
//!
//! The sink itself (files, directories, the subscriber) lives outside the
//! verified core; what is verified here is everything it decides: the
//! calendar arithmetic that yields the next rollover instant
//! ([`Rotation::next_date`]), whether a writer must roll over now
//! ([`should_rollover`]), which log files an enforced limit prunes
//! ([`files_to_prune`]), the archive name a rolled file gets
//! ([`join_date`]), and the builder that accumulates the sink's
//! configuration.

use vstd::multiset::Multiset;
use vstd::prelude::*;

verus! {

/// A point in civil time with a fixed UTC offset: what the rotation logic
/// reads of a date-time value.
#[derive(Debug, Clone, Copy, PartialEq, Eq, Structural)]
pub struct DateTime {
    /// Calendar year, `-9999..=9999`.
    pub year: i32,
    /// Calendar month, `1..=12`.
    pub month: u8,
    /// Day of month, `1..=` the month's length.
    pub day: u8,
    /// Hour of day, `0..=23`.
    pub hour: u8,
    /// Minute, `0..=59`.
    pub minute: u8,
    /// Second, `0..=59`.
    pub second: u8,
    /// Nanoseconds within the second.
    pub nanosecond: u32,
    /// UTC offset in seconds, carried along unchanged.
    pub offset_seconds: i32,
}

/// Whether `year` is a leap year in the proleptic Gregorian calendar.
pub open spec fn is_leap_year(year: int) -> bool {
    (year % 4 == 0 && year % 100 != 0) || year % 400 == 0
}

/// Days in a month of the proleptic Gregorian calendar.
pub open spec fn days_in_month_spec(year: int, month: int) -> int {
    if month == 2 {
        if is_leap_year(year) {
            29
        } else {
            28
        }
    } else if month == 4 || month == 6 || month == 9 || month == 11 {
        30
    } else {
        31
    }
}

/// Days in a month of the proleptic Gregorian calendar.
pub fn days_in_month(year: i32, month: u8) -> (d: u8)
    ensures
        d == days_in_month_spec(year as int, month as int),
{
    if month == 2 {
        if (year % 4 == 0 && year % 100 != 0) || year % 400 == 0 {
            29
        } else {
            28
        }
    } else if month == 4 || month == 6 || month == 9 || month == 11 {
        30
    } else {
        31
    }
}

impl DateTime {
    /// Well-formedness: every field within its calendar range.
    pub open spec fn wf(self) -> bool {
        &&& -9999 <= self.year <= 9999
        &&& 1 <= self.month <= 12
        &&& 1 <= self.day <= days_in_month_spec(self.year as int, self.month as int)
        &&& self.hour < 24
        &&& self.minute < 60
        &&& self.second < 60
        &&& self.nanosecond < 1_000_000_000
    }
}

/// Strict "earlier than" on date-times with equal offsets: lexicographic on
/// the civil fields.
pub open spec fn dt_lt(a: DateTime, b: DateTime) -> bool {
    if a.year != b.year {
        a.year < b.year
    } else if a.month != b.month {
        a.month < b.month
    } else if a.day != b.day {
        a.day < b.day
    } else if a.hour != b.hour {
        a.hour < b.hour
    } else if a.minute != b.minute {
        a.minute < b.minute
    } else if a.second != b.second {
        a.second < b.second
    } else {
        a.nanosecond < b.nanosecond
    }
}

/// "No later than" on date-times, comparing the civil fields only.
pub open spec fn dt_le(a: DateTime, b: DateTime) -> bool {
    !dt_lt(b, a)
}

/// Whether `a` is no later than `b`.
pub fn dt_le_exec(a: &DateTime, b: &DateTime) -> (r: bool)
    ensures
        r == dt_le(*a, *b),
{
    if a.year != b.year {
        a.year < b.year
    } else if a.month != b.month {
        a.month < b.month
    } else if a.day != b.day {
        a.day < b.day
    } else if a.hour != b.hour {
        a.hour < b.hour
    } else if a.minute != b.minute {
        a.minute < b.minute
    } else if a.second != b.second {
        a.second < b.second
    } else {
        a.nanosecond <= b.nanosecond
    }
}

/// The day after, rolling month and year as needed; the time of day is
/// untouched.
pub open spec fn next_day_spec(dt: DateTime) -> DateTime {
    if dt.day < days_in_month_spec(dt.year as int, dt.month as int) {
        DateTime { day: (dt.day + 1) as u8, ..dt }
    } else if dt.month < 12 {
        DateTime { month: (dt.month + 1) as u8, day: 1, ..dt }
    } else {
        DateTime { year: (dt.year + 1) as i32, month: 1, day: 1, ..dt }
    }
}

/// Midnight of the following day.
pub open spec fn next_midnight_spec(dt: DateTime) -> DateTime {
    next_day_spec(DateTime { hour: 0, minute: 0, second: 0, nanosecond: 0, ..dt })
}

/// The next full hour after `dt`'s hour (minute, second and nanosecond
/// dropped), rolling into the following day when needed.
pub open spec fn next_hour_spec(dt: DateTime) -> DateTime {
    let z = DateTime { minute: 0, second: 0, nanosecond: 0, ..dt };
    if z.hour < 23 {
        DateTime { hour: (z.hour + 1) as u8, ..z }
    } else {
        next_day_spec(DateTime { hour: 0, ..z })
    }
}

/// The next full minute after `dt`'s minute (second and nanosecond
/// dropped), rolling into the following hour when needed.
pub open spec fn next_minute_spec(dt: DateTime) -> DateTime {
    let z = DateTime { second: 0, nanosecond: 0, ..dt };
    if z.minute < 59 {
        DateTime { minute: (z.minute + 1) as u8, ..z }
    } else {
        next_hour_spec(z)
    }
}

/// Midnight on the first day of the following month.
pub open spec fn next_month_spec(dt: DateTime) -> DateTime {
    let z = DateTime { hour: 0, minute: 0, second: 0, nanosecond: 0, day: 1, ..dt };
    if z.month < 12 {
        DateTime { month: (z.month + 1) as u8, ..z }
    } else {
        DateTime { year: (z.year + 1) as i32, month: 1, ..z }
    }
}

/// How often a rolling-file sink starts a new file.
#[allow(non_camel_case_types)]
#[derive(Clone, Copy, Eq, PartialEq, Structural, Debug)]
pub enum Rotation {
    /// A new file every minute.
    MINUTELY,
    /// A new file every hour.
    HOURLY,
    /// A new file every day.
    DAILY,
    /// A new file every month.
    MONTHLY,
    /// One file, never rotated.
    NEVER,
}

/// The instant the current file of a rotation, created at `dt`, must be
/// replaced: the start of the next minute, hour, day or month — or nothing,
/// for a rotation that never rolls.
pub open spec fn next_date_spec(r: Rotation, dt: DateTime) -> Option<DateTime> {
    match r {
        Rotation::MINUTELY => Some(next_minute_spec(dt)),
        Rotation::HOURLY => Some(next_hour_spec(dt)),
        Rotation::DAILY => Some(next_midnight_spec(dt)),
        Rotation::MONTHLY => Some(next_month_spec(dt)),
        Rotation::NEVER => None,
    }
}

/// The format of the date label appended to a rolled file's name.
pub open spec fn date_format_spec(r: Rotation) -> Seq<char> {
    match r {
        Rotation::MINUTELY => "[year]-[month]-[day]-[hour]-[minute]"@,
        Rotation::HOURLY => "[year]-[month]-[day]-[hour]"@,
        Rotation::DAILY => "[year]-[month]-[day]"@,
        Rotation::MONTHLY => "[year]-[month]"@,
        Rotation::NEVER => "[year]-[month]-[day]"@,
    }
}

impl Rotation {
    /// The instant the current file, created at `current_date`, must be
    /// replaced; `None` for [`Rotation::NEVER`]. The instant is a
    /// well-formed date-time strictly after `current_date`.
    pub fn next_date(&self, current_date: &DateTime) -> (r: Option<DateTime>)
        requires
            current_date.wf(),
            current_date.year < 9999,
        ensures
            r == next_date_spec(*self, *current_date),
            match r {
                Some(d) => d.wf() && dt_lt(*current_date, d) && d.offset_seconds
                    == current_date.offset_seconds,
                None => *self == Rotation::NEVER,
            },
    {
        match self {
            Rotation::MINUTELY => {
                let z = DateTime { second: 0, nanosecond: 0, ..*current_date };
                if z.minute < 59 {
                    Some(DateTime { minute: z.minute + 1, ..z })
                } else {
                    Some(Self::hour_after(z))
                }
            },
            Rotation::HOURLY => {
                let z = DateTime { minute: 0, second: 0, nanosecond: 0, ..*current_date };
                Some(Self::hour_after(z))
            },
            Rotation::DAILY => {
                let z = DateTime {
                    hour: 0,
                    minute: 0,
                    second: 0,
                    nanosecond: 0,
                    ..*current_date
                };
                Some(Self::day_after(z))
            },
            Rotation::MONTHLY => {
                let z = DateTime {
                    hour: 0,
                    minute: 0,
                    second: 0,
                    nanosecond: 0,
                    day: 1,
                    ..*current_date
                };
                if z.month < 12 {
                    Some(DateTime { month: z.month + 1, ..z })
                } else {
                    Some(DateTime { year: z.year + 1, month: 1, ..z })
                }
            },
            Rotation::NEVER => None,
        }
    }

    /// The start of the hour after `z`, which must sit at a full minute.
    fn hour_after(z: DateTime) -> (r: DateTime)
        requires
            z.wf(),
            z.year < 9999,
        ensures
            r == next_hour_spec(z),
            r.wf(),
            dt_lt(z, r) || (z.minute == 0 && z.second == 0 && z.nanosecond == 0 && dt_le(z, r)),
            dt_lt(DateTime { minute: 0, second: 0, nanosecond: 0, ..z }, r),
            r.offset_seconds == z.offset_seconds,
    {
        if z.hour < 23 {
            DateTime { hour: z.hour + 1, minute: 0, second: 0, nanosecond: 0, ..z }
        } else {
            Self::day_after(DateTime { hour: 0, minute: 0, second: 0, nanosecond: 0, ..z })
        }
    }

    /// The same time of day on the day after `z`.
    fn day_after(z: DateTime) -> (r: DateTime)
        requires
            z.wf(),
            z.year < 9999,
        ensures
            r == next_day_spec(z),
            r.wf(),
            r.hour == z.hour && r.minute == z.minute && r.second == z.second && r.nanosecond
                == z.nanosecond,
            dt_lt(DateTime { hour: 0, minute: 0, second: 0, nanosecond: 0, ..z }, r),
            r.offset_seconds == z.offset_seconds,
    {
        let dim: u8 = days_in_month(z.year, z.month);
        if z.day < dim {
            DateTime { day: z.day + 1, ..z }
        } else if z.month < 12 {
            DateTime { month: z.month + 1, day: 1, ..z }
        } else {
            DateTime { year: z.year + 1, month: 1, day: 1, ..z }
        }
    }

    /// The date-label format for this rotation, as a format string of the
    /// `time` crate.
    pub fn date_format(&self) -> (r: String)
        ensures
            r@ == date_format_spec(*self),
    {
        match self {
            Rotation::MINUTELY => "[year]-[month]-[day]-[hour]-[minute]".to_owned(),
            Rotation::HOURLY => "[year]-[month]-[day]-[hour]".to_owned(),
            Rotation::DAILY => "[year]-[month]-[day]".to_owned(),
            Rotation::MONTHLY => "[year]-[month]".to_owned(),
            Rotation::NEVER => "[year]-[month]-[day]".to_owned(),
        }
    }
}

/// Whether the writer created at `crate_time` must roll over at `now`:
/// exactly when its rotation's next-date instant has been reached.
pub fn should_rollover(rotation: &Rotation, crate_time: &DateTime, now: &DateTime) -> (b: bool)
    requires
        crate_time.wf(),
        crate_time.year < 9999,
    ensures
        b == match next_date_spec(*rotation, *crate_time) {
            Some(t) => dt_le(t, *now),
            None => false,
        },
{
    match rotation.next_date(crate_time) {
        Some(t) => dt_le_exec(&t, now),
        None => false,
    }
}

} // verus!

verus! {

/// Configuration a rolling-file sink is built from.
#[derive(Debug)]
pub struct Builder {
    /// How often a new file is started.
    pub rotation: Rotation,
    /// Base name of the log file.
    pub prefix: String,
    /// Upper bound on the number of kept log files, if one is enforced.
    pub max_files: Option<usize>,
    /// Per-target filters: events for a target go to the named file instead
    /// of the default one.
    pub filters: Option<Vec<(String, String)>>,
}

/// Effect of adding the filter `target -> filename` to a filter list: the
/// first entry for the same target is replaced, otherwise the pair is
/// appended.
pub open spec fn filter_spec(s: Seq<(String, String)>, target: String, filename: String) -> Seq<
    (String, String),
>
    decreases s.len(),
{
    if s.len() == 0 {
        seq![(target, filename)]
    } else if s[0].0@ == target@ {
        s.update(0, (target, filename))
    } else {
        seq![s[0]] + filter_spec(s.drop_first(), target, filename)
    }
}

/// When no entry matches the target, adding a filter appends it.
proof fn lemma_filter_spec_missing(s: Seq<(String, String)>, target: String, filename: String)
    requires
        forall|j: int| 0 <= j < s.len() ==> (#[trigger] s[j]).0@ != target@,
    ensures
        filter_spec(s, target, filename) == s.push((target, filename)),
    decreases s.len(),
{
    if s.len() == 0 {
        assert(filter_spec(s, target, filename) =~= s.push((target, filename)));
    } else {
        lemma_filter_spec_missing(s.drop_first(), target, filename);
        assert(filter_spec(s, target, filename) =~= s.push((target, filename)));
    }
}

/// When entry `i` is the first to match the target, adding a filter
/// replaces exactly that entry.
proof fn lemma_filter_spec_found(
    s: Seq<(String, String)>,
    i: int,
    target: String,
    filename: String,
)
    requires
        0 <= i < s.len(),
        s[i].0@ == target@,
        forall|j: int| 0 <= j < i ==> (#[trigger] s[j]).0@ != target@,
    ensures
        filter_spec(s, target, filename) == s.update(i, (target, filename)),
    decreases s.len(),
{
    if i == 0 {
    } else {
        lemma_filter_spec_found(s.drop_first(), i - 1, target, filename);
        assert(filter_spec(s, target, filename) =~= s.update(i, (target, filename)));
    }
}

impl Builder {
    /// A builder with the defaults: never rotate, empty file name, no file
    /// limit, no filters.
    pub fn new() -> (r: Self)
        ensures
            r.rotation == Rotation::NEVER,
            r.prefix@ == Seq::<char>::empty(),
            r.max_files is None,
            r.filters is None,
    {
        Builder { rotation: Rotation::NEVER, prefix: String::new(), max_files: None, filters: None }
    }

    /// Sets the rotation schedule.
    pub fn rotation(self, rotation: Rotation) -> (r: Self)
        ensures
            (r == Builder { rotation, ..self }),
    {
        Builder { rotation, ..self }
    }

    /// Sets the log file's base name.
    pub fn filename(self, prefix: String) -> (r: Self)
        ensures
            (r == Builder { prefix, ..self }),
    {
        Builder { prefix, ..self }
    }

    /// Routes events for `target` into `filename` instead of the default
    /// file, replacing an earlier filter for the same target.
    #[verifier::loop_isolation(false)]
    pub fn filter(self, target: String, filename: String) -> (r: Self)
        ensures
            r.rotation == self.rotation,
            r.prefix == self.prefix,
            r.max_files == self.max_files,
            match r.filters {
                Some(f) => f@ == filter_spec(
                    match self.filters {
                        Some(g) => g@,
                        None => Seq::empty(),
                    },
                    target,
                    filename,
                ),
                None => false,
            },
    {
        let mut filters: Vec<(String, String)> = match self.filters {
            Some(f) => f,
            None => Vec::new(),
        };
        let ghost entry = filters@;
        let n: usize = filters.len();
        let mut i: usize = 0;
        while i < n
            invariant
                n == filters@.len(),
                filters@ == entry,
                i <= n,
                forall|j: int| 0 <= j < i ==> (#[trigger] filters@[j]).0@ != target@,
            decreases n - i,
        {
            if filters[i].0 == target {
                proof {
                    lemma_filter_spec_found(filters@, i as int, target, filename);
                }
                filters.set(i, (target, filename));
                return Builder { filters: Some(filters), ..self };
            }
            i = i + 1;
        }
        proof {
            lemma_filter_spec_missing(filters@, target, filename);
        }
        filters.push((target, filename));
        Builder { filters: Some(filters), ..self }
    }

    /// Keeps at most `n` log files, deleting the oldest ones at rollover.
    pub fn max_log_files(self, n: usize) -> (r: Self)
        ensures
            (r == Builder { max_files: Some(n), ..self }),
    {
        Builder { max_files: Some(n), ..self }
    }

    /// The writers the sink is built with: the default one under the log
    /// file's base name, then one per filter, in filter order.
    pub fn writer_names(&self) -> (r: Vec<(String, String)>)
        ensures
            r@.len() == 1 + match self.filters {
                Some(f) => f@.len() as int,
                None => 0int,
            },
            r@[0].0@ == "default"@,
            r@[0].1 == self.prefix,
            match self.filters {
                Some(f) => forall|j: int| 0 <= j < f@.len() ==> r@[j + 1] == f@[j],
                None => true,
            },
    {
        let mut r: Vec<(String, String)> = Vec::new();
        r.push(("default".to_owned(), self.prefix.clone()));
        match &self.filters {
            Some(f) => {
                let n: usize = f.len();
                let mut i: usize = 0;
                while i < n
                    invariant
                        n == f@.len(),
                        i <= n,
                        r@.len() == 1 + i,
                        r@[0].0@ == "default"@,
                        r@[0].1 == self.prefix,
                        forall|j: int| 0 <= j < i ==> r@[j + 1] == f@[j],
                    decreases n - i,
                {
                    let k: String = f[i].0.clone();
                    let v: String = f[i].1.clone();
                    proof {
                        assert(((k, v)) == f@[i as int]);
                    }
                    r.push((k, v));
                    i = i + 1;
                }
            },
            None => {},
        }
        r
    }
}

impl Default for Builder {
    /// Same as [`Builder::new`].
    fn default() -> (r: Self)
        ensures
            r.rotation == Rotation::NEVER,
            r.prefix@ == Seq::<char>::empty(),
            r.max_files is None,
            r.filters is None,
    {
        Builder::new()
    }
}

/// Failure to set a rolling-file sink up, with the step that failed and the
/// originating OS error code where one exists.
#[derive(Debug, Clone, Copy, PartialEq, Eq)]
pub struct InitError {
    /// The step that failed.
    pub context: &'static str,
    /// The OS error code, if the failure came from an OS call.
    pub code: Option<i32>,
}

impl InitError {
    /// An error for the step named by `context`.
    pub fn new(context: &'static str, code: Option<i32>) -> (r: Self)
        ensures
            r.context == context,
            r.code == code,
    {
        InitError { context, code }
    }
}

} // verus!

verus! {

/// Whether the files are ordered by creation time, oldest first.
pub open spec fn sorted_by_created(s: Seq<(String, u64)>) -> bool {
    forall|i: int, j: int| 0 <= i < j < s.len() ==> (#[trigger] s[i]).1 <= (#[trigger] s[j]).1
}

/// Orders files by their creation time, oldest first: the result is sorted
/// and holds exactly the given files.
#[verifier::loop_isolation(false)]
pub fn sort_by_created(files: Vec<(String, u64)>) -> (r: Vec<(String, u64)>)
    ensures
        r@.len() == files@.len(),
        sorted_by_created(r@),
        r@.to_multiset() == files@.to_multiset(),
{
    broadcast use
        vstd::seq_lib::to_multiset_insert,
        vstd::seq_lib::to_multiset_remove,
        vstd::seq_lib::group_to_multiset_ensures,
        vstd::multiset::group_multiset_axioms,
        vstd::multiset::lemma_multiset_empty_len;

    let mut out: Vec<(String, u64)> = Vec::new();
    let mut rest = files;
    proof {
        assert(out@.to_multiset().len() == 0);
        assert(out@.to_multiset() =~= Multiset::<(String, u64)>::empty());
    }
    while rest.len() > 0
        invariant
            sorted_by_created(out@),
            out@.len() + rest@.len() == files@.len(),
            out@.to_multiset().add(rest@.to_multiset()) == files@.to_multiset(),
        decreases rest@.len(),
    {
        let ghost rest0 = rest@;
        let ghost out0 = out@;
        let x: (String, u64) = rest.remove(0);
        let mut k: usize = 0;
        while k < out.len() && out[k].1 <= x.1
            invariant
                k <= out@.len(),
                forall|j: int| 0 <= j < k ==> (#[trigger] out@[j]).1 <= x.1,
            decreases out@.len() - k,
        {
            k = k + 1;
        }
        out.insert(k, x);
        proof {
            assert forall|i: int, j: int| 0 <= i < j < out@.len() implies (#[trigger] out@[i]).1
                <= (#[trigger] out@[j]).1 by {
                if i < k && j > k {
                    assert(out0[i] == out@[i]);
                    assert(out0[j - 1] == out@[j]);
                } else if i == k && j > k {
                    assert(out0[j - 1] == out@[j]);
                    assert(out0[k as int].1 > x.1);
                }
            }
            assert(out@.to_multiset().add(rest@.to_multiset()) =~= files@.to_multiset());
        }
    }
    out
}

/// The log files an enforced `max_files` limit deletes when a new file is
/// about to be created: none when fewer than `max_files` files exist, else
/// the oldest ones, so that `max_files - 1` files remain. Each entry of
/// `files` is a file name and its creation time.
pub fn files_to_prune(files: Vec<(String, u64)>, max_files: usize) -> (r: Vec<String>)
    requires
        max_files >= 1,
    ensures
        files@.len() < max_files ==> r@.len() == 0,
        files@.len() >= max_files ==> ({
            exists|sorted: Seq<(String, u64)>|
                {
                    &&& #[trigger] sorted.to_multiset() == files@.to_multiset()
                    &&& sorted.len() == files@.len()
                    &&& sorted_by_created(sorted)
                    &&& r@.len() == files@.len() - (max_files - 1)
                    &&& forall|j: int| 0 <= j < r@.len() ==> #[trigger] r@[j] == sorted[j].0
                }
        }),
{
    if files.len() < max_files {
        return Vec::new();
    }
    let sorted: Vec<(String, u64)> = sort_by_created(files);
    let ghost sorted0 = sorted@;
    let count: usize = sorted.len() - (max_files - 1);
    let mut r: Vec<String> = Vec::new();
    let mut i: usize = 0;
    while i < count
        invariant
            count <= sorted@.len(),
            sorted@ == sorted0,
            i <= count,
            r@.len() == i,
            forall|j: int| 0 <= j < i ==> #[trigger] r@[j] == sorted@[j].0,
        decreases count - i,
    {
        let name: String = sorted[i].0.clone();
        proof {
            assert(name == sorted@[i as int].0);
        }
        r.push(name);
        i = i + 1;
    }
    proof {
        assert(sorted0.to_multiset() == files@.to_multiset() && sorted0.len() == files@.len()
            && sorted_by_created(sorted0) && r@.len() == files@.len() - (max_files - 1) && forall|
            j: int,
        | 0 <= j < r@.len() ==> #[trigger] r@[j] == sorted0[j].0);
    }
    r
}

/// The label a rolled file's archive name carries: what the `time` crate's
/// formatter produces from the given pattern and date-time fields.
pub uninterp spec fn date_label(
    pattern: Seq<char>,
    year: int,
    month: int,
    day: int,
    hour: int,
    minute: int,
) -> Seq<char>;

/// Whether `p` is one of the five rotation date formats.
pub open spec fn is_rotation_pattern(p: Seq<char>) -> bool {
    ||| p == "[year]-[month]-[day]-[hour]-[minute]"@
    ||| p == "[year]-[month]-[day]-[hour]"@
    ||| p == "[year]-[month]-[day]"@
    ||| p == "[year]-[month]"@
}

/// Relies on the `time` crate's format-description parser and formatter:
/// for the fixed rotation patterns and a valid calendar date the calls
/// cannot fail, and the label is a pure function of the pattern and the
/// field values.
#[verifier::external_body]
fn format_date(pattern: &str, year: i32, month: u8, day: u8, hour: u8, minute: u8) -> (r: String)
    requires
        is_rotation_pattern(pattern@),
        -9999 <= year <= 9999,
        1 <= month <= 12,
        1 <= day <= days_in_month_spec(year as int, month as int),
        hour < 24,
        minute < 60,
    ensures
        r@ == date_label(pattern@, year as int, month as int, day as int, hour as int, minute as int),
{
    let items = time::format_description::parse(pattern).expect("the rotation patterns are valid");
    let m = time::Month::try_from(month).expect("month is in range");
    let date = time::Date::from_calendar_date(year, m, day).expect("the date is valid");
    let tod = time::Time::from_hms(hour, minute, 0).expect("the time of day is valid");
    time::PrimitiveDateTime::new(date, tod).format(&items).expect(
        "formatting a plain date-time with a date-time pattern does not fail",
    )
}

/// The archive name of a rolled log file: the file name, a dot, and the
/// creation date formatted per the rotation's date format.
pub fn join_date(filename: &str, rotation: &Rotation, date: &DateTime) -> (r: String)
    requires
        date.wf(),
    ensures
        r@ == filename@ + "."@ + date_label(
            date_format_spec(*rotation),
            date.year as int,
            date.month as int,
            date.day as int,
            date.hour as int,
            date.minute as int,
        ),
{
    let pattern: String = rotation.date_format();
    let label: String = format_date(
        pattern.as_str(),
        date.year,
        date.month,
        date.day,
        date.hour,
        date.minute,
    );
    let mut r: String = filename.to_owned();
    r.append(".");
    r.append(label.as_str());
    r
}

} // verus!
