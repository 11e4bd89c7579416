use std::time::SystemTime;
use vstd::prelude::*;

use crate::chars::{is_blank, is_blank_chars, chars_of, string_of};

verus! {

/// A point in time as the standard library keeps it; opaque to proofs.
#[verifier::external_type_specification]
#[verifier::external_body]
pub struct ExSystemTime(SystemTime);

/// `SystemTime` is `Copy`: its `clone` returns the same moment.
pub assume_specification[ <SystemTime as Clone>::clone ](t: &SystemTime) -> (r: SystemTime)
    ensures
        r == *t,
;

/// How serious a status message is.
#[derive(Clone, Copy, Debug, PartialEq, Eq, Structural)]
pub enum StatusLevel {
    Info,
    Warn,
    Debug,
    Error,
}

/// The upper-case tag shown for a level.
pub open spec fn level_label(level: StatusLevel) -> Seq<char> {
    match level {
        StatusLevel::Info => "INFO"@,
        StatusLevel::Warn => "WARN"@,
        StatusLevel::Debug => "DEBUG"@,
        StatusLevel::Error => "ERROR"@,
    }
}

impl StatusLevel {
    pub fn label(self) -> (r: &'static str)
        ensures
            r@ == level_label(self),
    {
        match self {
            StatusLevel::Info => "INFO",
            StatusLevel::Warn => "WARN",
            StatusLevel::Debug => "DEBUG",
            StatusLevel::Error => "ERROR",
        }
    }
}

/// Which levels the status history shows.
#[derive(Clone, Copy, Debug, PartialEq, Eq, Structural)]
pub enum StatusHistoryFilter {
    All,
    Info,
    Warn,
    Debug,
    Error,
}

/// The title-case name of a history filter.
pub open spec fn filter_label(filter: StatusHistoryFilter) -> Seq<char> {
    match filter {
        StatusHistoryFilter::All => "All"@,
        StatusHistoryFilter::Info => "Info"@,
        StatusHistoryFilter::Warn => "Warn"@,
        StatusHistoryFilter::Debug => "Debug"@,
        StatusHistoryFilter::Error => "Error"@,
    }
}

/// A filter lets a level through when it is `All` or names that level.
pub open spec fn filter_admits(filter: StatusHistoryFilter, level: StatusLevel) -> bool {
    match filter {
        StatusHistoryFilter::All => true,
        StatusHistoryFilter::Info => level == StatusLevel::Info,
        StatusHistoryFilter::Warn => level == StatusLevel::Warn,
        StatusHistoryFilter::Debug => level == StatusLevel::Debug,
        StatusHistoryFilter::Error => level == StatusLevel::Error,
    }
}

impl StatusHistoryFilter {
    pub fn label(self) -> (r: &'static str)
        ensures
            r@ == filter_label(self),
    {
        match self {
            StatusHistoryFilter::All => "All",
            StatusHistoryFilter::Info => "Info",
            StatusHistoryFilter::Warn => "Warn",
            StatusHistoryFilter::Debug => "Debug",
            StatusHistoryFilter::Error => "Error",
        }
    }

    pub fn matches(self, level: StatusLevel) -> (b: bool)
        ensures
            b == filter_admits(self, level),
    {
        match self {
            StatusHistoryFilter::All => true,
            StatusHistoryFilter::Info => level == StatusLevel::Info,
            StatusHistoryFilter::Warn => level == StatusLevel::Warn,
            StatusHistoryFilter::Debug => level == StatusLevel::Debug,
            StatusHistoryFilter::Error => level == StatusLevel::Error,
        }
    }
}

/// One status message with the moment it was recorded.
#[derive(Clone, Debug)]
pub struct StatusEvent {
    pub level: StatusLevel,
    pub summary: String,
    pub detail: Option<String>,
    pub recorded_at: SystemTime,
    /// The same moment in whole Unix seconds (rounded down), read once when
    /// the event is made; none when they do not fit an `i64`.
    pub recorded_unix: Option<i64>,
    pub show_modal: bool,
}

/// The detail worth showing: present and not blank.
pub open spec fn shown_detail(detail: Option<String>) -> Option<Seq<char>> {
    match detail {
        Some(d) => if is_blank(d@) {
            None
        } else {
            Some(d@)
        },
        None => None,
    }
}

/// The full description of an event, given its formatted timestamp: one line for
/// the time, the level and the summary, then a blank line, `Detail:` and the
/// detail when there is one worth showing.
pub open spec fn full_text_spec(e: StatusEvent, timestamp: Seq<char>) -> Seq<char> {
    let head = "Time: "@ + timestamp + "\n"@ + "Level: "@ + level_label(e.level) + "\n"@
        + "Summary: "@ + e.summary@;
    match shown_detail(e.detail) {
        Some(d) => head + "\n"@ + "\n"@ + "Detail:"@ + "\n"@ + d,
        None => head,
    }
}

/// Line breaks turned into spaces.
pub open spec fn flatten_lines(s: Seq<char>) -> Seq<char> {
    s.map_values(|c: char| if c == '\n' { ' ' } else { c })
}

/// The one-line history entry of an event, given its formatted time of day.
pub open spec fn history_preview_spec(e: StatusEvent, time: Seq<char>) -> Seq<char> {
    let head = time + " ["@ + level_label(e.level) + "] "@ + e.summary@;
    match shown_detail(e.detail) {
        Some(d) => head + " | "@ + flatten_lines(d),
        None => head,
    }
}

/// `SystemTime::now`.
#[verifier::external_body]
pub(crate) fn system_time_now() -> SystemTime {
    SystemTime::now()
}

/// `SystemTime::duration_since`, in whole seconds; `None` when `earlier` is the
/// later of the two. Nothing is stated of the value: both times are opaque.
#[verifier::external_body]
fn whole_seconds_between(later: SystemTime, earlier: SystemTime) -> Option<u64> {
    later.duration_since(earlier).ok().map(|elapsed| elapsed.as_secs())
}

/// `time::UtcOffset::current_local_offset`, in seconds east of UTC, or UTC when
/// the local offset cannot be determined. It depends on the machine's time zone,
/// so only the range of a `UtcOffset` is stated.
#[verifier::external_body]
fn local_offset_seconds() -> (r: i32)
    ensures
        -93600 < r < 93600,
{
    time::UtcOffset::current_local_offset().unwrap_or(time::UtcOffset::UTC).whole_seconds()
}

/// `SystemTime::duration_since(UNIX_EPOCH)`: for a time not before the epoch,
/// the time since it (`Ok`), else the time until it (`Err`, from the error's
/// `duration`), each as whole seconds and the nanoseconds beyond them. Nothing
/// is stated of the seconds: the time is opaque.
#[verifier::external_body]
fn since_unix_epoch(value: SystemTime) -> (r: Result<(u64, u32), (u64, u32)>)
    ensures
        match r {
            Ok((_, nanos)) => nanos < 1_000_000_000,
            Err((_, nanos)) => nanos < 1_000_000_000,
        },
{
    match value.duration_since(SystemTime::UNIX_EPOCH) {
        Ok(d) => Ok((d.as_secs(), d.subsec_nanos())),
        Err(e) => Err((e.duration().as_secs(), e.duration().subsec_nanos())),
    }
}

/// The whole Unix seconds of a moment given as the time since (`Ok`) or until
/// (`Err`) the epoch: the seconds since it, or the negated seconds until it
/// rounded down to a whole second; `None` when that does not fit an `i64`.
pub open spec fn unix_seconds_spec(since: Result<(u64, u32), (u64, u32)>) -> Option<i64> {
    match since {
        Ok((secs, _)) => if secs <= i64::MAX {
            Some(secs as i64)
        } else {
            None
        },
        Err((secs, nanos)) => {
            let down = -(secs as int) - (if nanos > 0 { 1int } else { 0int });
            if down >= i64::MIN {
                Some(down as i64)
            } else {
                None
            }
        },
    }
}

/// The whole Unix seconds of a moment given as the time since or until the
/// epoch (see `unix_seconds_spec`).
pub fn unix_seconds_from(since: Result<(u64, u32), (u64, u32)>) -> (r: Option<i64>)
    ensures
        r == unix_seconds_spec(since),
{
    match since {
        Ok((secs, _)) => if secs <= 9_223_372_036_854_775_807u64 {
            Some(secs as i64)
        } else {
            None
        },
        Err((secs, nanos)) => {
            if secs < 9_223_372_036_854_775_808u64 {
                let neg: i64 = -(secs as i64);
                if nanos > 0 {
                    Some(neg - 1)
                } else {
                    Some(neg)
                }
            } else if secs == 9_223_372_036_854_775_808u64 && nanos == 0 {
                Some(-9_223_372_036_854_775_807i64 - 1)
            } else {
                None
            }
        },
    }
}

/// The whole Unix seconds of a moment, rounded down; `None` when they do not
/// fit an `i64`.
pub fn unix_seconds_of(value: SystemTime) -> (r: Option<i64>)
    ensures
        exists|since: Result<(u64, u32), (u64, u32)>| r == #[trigger] unix_seconds_spec(since),
{
    let since = since_unix_epoch(value);
    unix_seconds_from(since)
}

/// What `time::OffsetDateTime::format` writes for the moment `unix_seconds` seen
/// at a UTC offset, with a format description in version-1 syntax; `None` when the
/// offset, the moment or the description is out of range or invalid. The other
/// calls of `format_unix_time` only build `format`'s arguments from these plain
/// values (`parse_borrowed`, `from_whole_seconds`, `from_unix_timestamp`,
/// `checked_to_offset`), each failing only on an out-of-range or invalid one.
pub uninterp spec fn formatted_unix_time(
    unix_seconds: int,
    offset_seconds: int,
    pattern: Seq<char>,
) -> Option<Seq<char>>;

/// Formats a moment with `time::OffsetDateTime::format`.
#[verifier::external_body]
fn format_unix_time(unix_seconds: i64, offset_seconds: i32, pattern: &str) -> (r: Option<String>)
    ensures
        match r {
            Some(s) => formatted_unix_time(unix_seconds as int, offset_seconds as int, pattern@)
                == Some(s@),
            None => formatted_unix_time(unix_seconds as int, offset_seconds as int, pattern@)
                is None,
        },
{
    let items = time::format_description::parse_borrowed::<1>(pattern).ok()?;
    let offset = time::UtcOffset::from_whole_seconds(offset_seconds).ok()?;
    let moment = time::OffsetDateTime::from_unix_timestamp(unix_seconds).ok()?;
    moment.checked_to_offset(offset)?.format(items.as_slice()).ok()
}

/// The text shown for a moment: formatted at the given offset, or else in UTC, or
/// else nothing.
pub open spec fn time_text(unix_seconds: int, offset_seconds: int, pattern: Seq<char>) -> Seq<char> {
    match formatted_unix_time(unix_seconds, offset_seconds, pattern) {
        Some(s) => s,
        None => match formatted_unix_time(unix_seconds, 0, pattern) {
            Some(s) => s,
            None => Seq::empty(),
        },
    }
}

/// Formats a moment at a UTC offset, falling back to UTC and then to the empty
/// text when formatting fails.
pub fn format_time_in_offset(unix_seconds: i64, offset_seconds: i32, pattern: &str) -> (r: String)
    ensures
        r@ == time_text(unix_seconds as int, offset_seconds as int, pattern@),
{
    match format_unix_time(unix_seconds, offset_seconds, pattern) {
        Some(s) => s,
        None => match format_unix_time(unix_seconds, 0, pattern) {
            Some(s) => s,
            None => String::new(),
        },
    }
}

/// The clock-time pattern of status lines.
pub open spec fn time_only_pattern() -> Seq<char> {
    "[hour]:[minute]:[second]"@
}

/// The date-and-time pattern of status details.
pub open spec fn timestamp_pattern() -> Seq<char> {
    "[year]-[month]-[day] [hour]:[minute]:[second]"@
}

/// Whether an offset is one `time` can give for the local zone.
pub open spec fn local_offset_range(offset_seconds: int) -> bool {
    -93600 < offset_seconds < 93600
}

/// The local time of day of a moment given in Unix seconds, `HH:MM:SS`. Only
/// the machine's UTC offset is left open.
pub fn format_status_time_only(unix_seconds: i64) -> (r: String)
    ensures
        exists|offset_seconds: int|
            local_offset_range(offset_seconds) && r@ == #[trigger] time_text(
                unix_seconds as int,
                offset_seconds,
                time_only_pattern(),
            ),
{
    let offset = local_offset_seconds();
    let r = format_time_in_offset(unix_seconds, offset, "[hour]:[minute]:[second]");
    assert(r@ == time_text(unix_seconds as int, offset as int, time_only_pattern()));
    r
}

/// The local date and time of a moment given in Unix seconds,
/// `YYYY-MM-DD HH:MM:SS`. Only the machine's UTC offset is left open.
pub fn format_status_timestamp(unix_seconds: i64) -> (r: String)
    ensures
        exists|offset_seconds: int|
            local_offset_range(offset_seconds) && r@ == #[trigger] time_text(
                unix_seconds as int,
                offset_seconds,
                timestamp_pattern(),
            ),
{
    let offset = local_offset_seconds();
    let r = format_time_in_offset(unix_seconds, offset, "[year]-[month]-[day] [hour]:[minute]:[second]");
    assert(r@ == time_text(unix_seconds as int, offset as int, timestamp_pattern()));
    r
}

/// Status messages fade after this many seconds.
pub const STATUS_STALE_SECONDS: u64 = 3;

/// A status is stale once at least three whole seconds have passed since it was
/// recorded; a time in the future counts as no time passed.
pub fn is_stale_elapsed(elapsed_seconds: Option<u64>) -> (b: bool)
    ensures
        b == match elapsed_seconds {
            Some(s) => s >= STATUS_STALE_SECONDS,
            None => false,
        },
{
    match elapsed_seconds {
        Some(s) => s >= STATUS_STALE_SECONDS,
        None => false,
    }
}

/// Whether a status recorded at `value` has gone stale by now.
pub fn is_status_stale(value: SystemTime) -> (b: bool)
    ensures
        exists|elapsed: Option<u64>| b == #[trigger] is_stale_elapsed_spec(elapsed),
{
    let now = system_time_now();
    let elapsed = whole_seconds_between(now, value);
    let b = is_stale_elapsed(elapsed);
    assert(b == is_stale_elapsed_spec(elapsed));
    b
}

/// The staleness rule of `is_stale_elapsed`.
pub open spec fn is_stale_elapsed_spec(elapsed_seconds: Option<u64>) -> bool {
    match elapsed_seconds {
        Some(s) => s >= STATUS_STALE_SECONDS,
        None => false,
    }
}

/// `detail` when it is present and not blank.
fn detail_worth_showing(detail: &Option<String>) -> (r: Option<&String>)
    ensures
        match r {
            Some(d) => shown_detail(*detail) == Some(d@),
            None => shown_detail(*detail) is None,
        },
{
    match detail {
        Some(d) => {
            let cs = chars_of(d.as_str());
            if is_blank_chars(&cs) {
                None
            } else {
                Some(d)
            }
        },
        None => None,
    }
}

/// Line breaks of a text turned into spaces.
fn flatten_line_breaks(s: &str) -> (r: String)
    ensures
        r@ == flatten_lines(s@),
{
    let cs = chars_of(s);
    let mut out: Vec<char> = Vec::new();
    let mut i: usize = 0;
    while i < cs.len()
        invariant
            i <= cs.len(),
            out@ == flatten_lines(cs@.subrange(0, i as int)),
        decreases cs.len() - i,
    {
        let c = cs[i];
        out.push(if c == '\n' { ' ' } else { c });
        i = i + 1;
        proof {
            assert(out@ =~= flatten_lines(cs@.subrange(0, i as int)));
        }
    }
    proof {
        assert(cs@.subrange(0, cs.len() as int) =~= cs@);
    }
    string_of(out.as_slice())
}

impl StatusEvent {
    /// An informational message.
    pub fn info(summary: &str) -> (e: StatusEvent)
        ensures
            e.level == StatusLevel::Info,
            e.summary@ == summary@,
            e.detail is None,
            !e.show_modal,
    {
        Self::new(StatusLevel::Info, summary, None, false)
    }

    /// A warning.
    pub fn warn(summary: &str) -> (e: StatusEvent)
        ensures
            e.level == StatusLevel::Warn,
            e.summary@ == summary@,
            e.detail is None,
            !e.show_modal,
    {
        Self::new(StatusLevel::Warn, summary, None, false)
    }

    /// An informational message with a detail.
    pub fn info_detail(summary: &str, detail: &str) -> (e: StatusEvent)
        ensures
            e.level == StatusLevel::Info,
            e.summary@ == summary@,
            e.detail matches Some(d) && d@ == detail@,
            !e.show_modal,
    {
        Self::new(StatusLevel::Info, summary, Some(detail.to_owned()), false)
    }

    /// A debugging message.
    pub fn debug(summary: &str) -> (e: StatusEvent)
        ensures
            e.level == StatusLevel::Debug,
            e.summary@ == summary@,
            e.detail is None,
            !e.show_modal,
    {
        Self::new(StatusLevel::Debug, summary, None, false)
    }

    /// An error with a detail; errors open the status window.
    pub fn error_detail(summary: &str, detail: &str) -> (e: StatusEvent)
        ensures
            e.level == StatusLevel::Error,
            e.summary@ == summary@,
            e.detail matches Some(d) && d@ == detail@,
            e.show_modal,
    {
        Self::new(StatusLevel::Error, summary, Some(detail.to_owned()), true)
    }

    fn new(level: StatusLevel, summary: &str, detail: Option<String>, show_modal: bool) -> (e:
        StatusEvent)
        ensures
            e.level == level,
            e.summary@ == summary@,
            e.detail == detail,
            e.show_modal == show_modal,
    {
        let recorded_at = system_time_now();
        StatusEvent {
            level,
            summary: summary.to_owned(),
            detail,
            recorded_at,
            recorded_unix: unix_seconds_of(recorded_at),
            show_modal,
        }
    }

    /// The full description, with the given formatted timestamp.
    pub fn full_text_at(&self, timestamp: &str) -> (r: String)
        ensures
            r@ == full_text_spec(*self, timestamp@),
    {
        let mut r = String::new();
        r.append("Time: ");
        r.append(timestamp);
        r.append("\n");
        r.append("Level: ");
        r.append(self.level.label());
        r.append("\n");
        r.append("Summary: ");
        r.append(self.summary.as_str());
        match detail_worth_showing(&self.detail) {
            Some(d) => {
                r.append("\n");
                r.append("\n");
                r.append("Detail:");
                r.append("\n");
                r.append(d.as_str());
            },
            None => {},
        }
        r
    }

    /// The full description, stamped with the local date and time it was
    /// recorded (no stamp when its Unix seconds do not fit an `i64`).
    pub fn full_text(&self) -> (r: String)
        ensures
            match self.recorded_unix {
                Some(u) => exists|offset_seconds: int|
                    local_offset_range(offset_seconds) && r@ == full_text_spec(
                        *self,
                        #[trigger] time_text(u as int, offset_seconds, timestamp_pattern()),
                    ),
                None => r@ == full_text_spec(*self, Seq::empty()),
            },
    {
        match self.recorded_unix {
            Some(u) => {
                let stamp = format_status_timestamp(u);
                self.full_text_at(stamp.as_str())
            },
            None => {
                proof {
                    reveal_strlit("");
                }
                self.full_text_at("")
            },
        }
    }

    /// The one-line history entry, with the given formatted time of day.
    pub fn history_preview_at(&self, time: &str) -> (r: String)
        ensures
            r@ == history_preview_spec(*self, time@),
    {
        let mut r = String::new();
        r.append(time);
        r.append(" [");
        r.append(self.level.label());
        r.append("] ");
        r.append(self.summary.as_str());
        match detail_worth_showing(&self.detail) {
            Some(d) => {
                let flat = flatten_line_breaks(d.as_str());
                r.append(" | ");
                r.append(flat.as_str());
            },
            None => {},
        }
        r
    }

    /// The one-line history entry, stamped with the local time of day it was
    /// recorded (no stamp when its Unix seconds do not fit an `i64`).
    pub fn history_preview(&self) -> (r: String)
        ensures
            match self.recorded_unix {
                Some(u) => exists|offset_seconds: int|
                    local_offset_range(offset_seconds) && r@ == history_preview_spec(
                        *self,
                        #[trigger] time_text(u as int, offset_seconds, time_only_pattern()),
                    ),
                None => r@ == history_preview_spec(*self, Seq::empty()),
            },
    {
        match self.recorded_unix {
            Some(u) => {
                let time = format_status_time_only(u);
                self.history_preview_at(time.as_str())
            },
            None => {
                proof {
                    reveal_strlit("");
                }
                self.history_preview_at("")
            },
        }
    }
}

/// A status fades once three whole seconds have passed since it was recorded,
/// and not before; one recorded in the future never fades.
pub proof fn law_status_fades_after_three_seconds(s: u64)
    ensures
        is_stale_elapsed_spec(Some(s)) <==> s >= 3,
        !is_stale_elapsed_spec(None),
{
}

} // verus!
