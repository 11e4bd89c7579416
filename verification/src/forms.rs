use std::time::SystemTime;
use vstd::prelude::*;

use crate::chars::{chars_of, chars_equal, decimal, decimal_chars, string_of};
use crate::status::system_time_now;
use crate::text::seconds_since;

verus! {

/// The main tabs of the browser.
#[derive(Clone, Copy, Debug, PartialEq, Eq, Structural)]
pub enum MainTab {
    Models,
    SavedModels,
    Images,
    SavedImages,
    Downloads,
    Settings,
}

/// What the keyboard is driving.
#[derive(Clone, Copy, Debug, PartialEq, Eq, Structural)]
pub enum AppMode {
    Browsing,
    SearchForm,
    SearchImages,
    SearchSavedModels,
    SearchSavedImages,
    BookmarkPathPrompt,
}

/// Whether a path prompt exports or imports bookmarks.
#[derive(Clone, Copy, Debug, PartialEq, Eq, Structural)]
pub enum BookmarkPathAction {
    Export,
    Import,
}

/// Which search a saved template restores.
#[derive(Clone, Copy, Debug, PartialEq, Eq, Structural)]
pub enum SearchTemplateKind {
    Model,
    Image,
}

/// The columns of the tag viewer.
#[derive(Clone, Copy, Debug, PartialEq, Eq, Structural)]
pub enum TagViewerColumn {
    Include,
    Current,
    Exclude,
}

/// A one-line quick search, or the full filter builder.
#[derive(Clone, Copy, Debug, PartialEq, Eq, Structural)]
pub enum SearchFormMode {
    Quick,
    Builder,
}

/// The boxes of the model search form.
#[derive(Clone, Copy, Debug, PartialEq, Eq, Structural)]
pub enum SearchFormSection {
    Query,
    Sort,
    Period,
    Type,
    Tag,
    BaseModel,
}

/// The boxes of the image search form.
#[derive(Clone, Copy, Debug, PartialEq, Eq, Structural)]
pub enum ImageSearchFormSection {
    Query,
    Sort,
    Period,
    MediaType,
    Tag,
    BaseModel,
    AspectRatio,
}

/// How far back a search looks.
#[derive(Clone, Copy, Debug, PartialEq, Eq, Structural)]
pub enum SearchPeriod {
    AllTime,
    Year,
    Month,
    Week,
    Day,
}

/// The name of a period.
pub open spec fn period_label(p: SearchPeriod) -> Seq<char> {
    match p {
        SearchPeriod::AllTime => "AllTime"@,
        SearchPeriod::Year => "Year"@,
        SearchPeriod::Month => "Month"@,
        SearchPeriod::Week => "Week"@,
        SearchPeriod::Day => "Day"@,
    }
}

impl SearchPeriod {
    /// Every period, longest first.
    pub fn all() -> (r: Vec<SearchPeriod>)
        ensures
            r@ == seq![
                SearchPeriod::AllTime,
                SearchPeriod::Year,
                SearchPeriod::Month,
                SearchPeriod::Week,
                SearchPeriod::Day,
            ],
    {
        let mut r: Vec<SearchPeriod> = Vec::new();
        r.push(SearchPeriod::AllTime);
        r.push(SearchPeriod::Year);
        r.push(SearchPeriod::Month);
        r.push(SearchPeriod::Week);
        r.push(SearchPeriod::Day);
        assert(r@ =~= seq![
            SearchPeriod::AllTime,
            SearchPeriod::Year,
            SearchPeriod::Month,
            SearchPeriod::Week,
            SearchPeriod::Day,
        ]);
        r
    }

    pub fn label(&self) -> (r: &'static str)
        ensures
            r@ == period_label(*self),
    {
        match self {
            SearchPeriod::AllTime => "AllTime",
            SearchPeriod::Year => "Year",
            SearchPeriod::Month => "Month",
            SearchPeriod::Week => "Week",
            SearchPeriod::Day => "Day",
        }
    }
}

/// The settings tab: which field has focus and the text being typed.
pub struct SettingsFormState {
    pub editing: bool,
    pub focused_field: usize,
    pub input_buffer: String,
}

impl SettingsFormState {
    pub fn new() -> (s: SettingsFormState)
        ensures
            !s.editing,
            s.focused_field == 0,
            s.input_buffer@.len() == 0,
    {
        SettingsFormState { editing: false, focused_field: 0, input_buffer: String::new() }
    }
}

/// The length in seconds of a period named by its label; none for `AllTime`
/// and unknown names.
pub open spec fn period_seconds(label: Seq<char>) -> Option<int> {
    if label == "Day"@ {
        Some(24int * 60 * 60)
    } else if label == "Week"@ {
        Some(7int * 24 * 60 * 60)
    } else if label == "Month"@ {
        Some(30int * 24 * 60 * 60)
    } else if label == "Year"@ {
        Some(365int * 24 * 60 * 60)
    } else {
        None
    }
}

/// The `created_at` filter of a period ending at `now`: `<start>-<now>` in Unix
/// seconds, the start clamped at zero.
pub open spec fn created_at_window(label: Seq<char>, now: nat) -> Option<Seq<char>> {
    match period_seconds(label) {
        Some(w) => {
            let start = if now >= w {
                (now - w) as nat
            } else {
                0
            };
            Some(decimal(start) + "-"@ + decimal(now))
        },
        None => None,
    }
}

/// The `created_at` filter of a period ending at the given moment.
pub fn created_at_window_at(period: &str, now: u64) -> (r: Option<String>)
    ensures
        match created_at_window(period@, now as nat) {
            Some(w) => r matches Some(s) && s@ == w,
            None => r is None,
        },
{
    let p = chars_of(period);
    let window: u64 = if chars_equal(&p, "Day") {
        24 * 60 * 60
    } else if chars_equal(&p, "Week") {
        7 * 24 * 60 * 60
    } else if chars_equal(&p, "Month") {
        30 * 24 * 60 * 60
    } else if chars_equal(&p, "Year") {
        365 * 24 * 60 * 60
    } else {
        return None;
    };
    let start = if now >= window {
        now - window
    } else {
        0
    };
    let mut r = string_of(decimal_chars(start).as_slice());
    r.append("-");
    r.append(string_of(decimal_chars(now).as_slice()).as_str());
    Some(r)
}

/// `SystemTime::UNIX_EPOCH`.
#[verifier::external_body]
pub(crate) fn unix_epoch() -> SystemTime {
    SystemTime::UNIX_EPOCH
}

/// The `created_at` filter of a period ending now.
pub fn period_to_created_at(period: &str) -> (r: Option<String>)
    ensures
        exists|now: nat| #[trigger] created_at_window(period@, now) == match r {
            Some(s) => Some(s@),
            None => None,
        },
{
    let now = seconds_since(system_time_now(), unix_epoch());
    let r = created_at_window_at(period, now);
    assert(created_at_window(period@, now as nat) == match r {
        Some(s) => Some(s@),
        None => None::<Seq<char>>,
    });
    r
}

/// The window of a period in seconds, for the periods that have one.
pub open spec fn period_window(p: SearchPeriod) -> Option<int> {
    match p {
        SearchPeriod::Day => Some(24int * 60 * 60),
        SearchPeriod::Week => Some(7int * 24 * 60 * 60),
        SearchPeriod::Month => Some(30int * 24 * 60 * 60),
        SearchPeriod::Year => Some(365int * 24 * 60 * 60),
        SearchPeriod::AllTime => None,
    }
}

/// A saved model passes a period filter when there is no filter, the period is
/// all time, its newest version has no time, or that time is within the period
/// before `now` (the window start saturating at the smallest `i64`).
pub open spec fn within_period(last_version_at: Option<i64>, period: Option<SearchPeriod>, now: i64) -> bool {
    match (period, last_version_at) {
        (Some(p), Some(ts)) => match period_window(p) {
            Some(w) => ts >= if now - w < i64::MIN { i64::MIN as int } else { now - w },
            None => true,
        },
        _ => true,
    }
}

/// Whether a saved model passes a period filter at the given moment.
pub fn liked_model_within_period(last_version_at: Option<i64>, period: Option<SearchPeriod>, now: i64) -> (b: bool)
    ensures
        b == within_period(last_version_at, period, now),
{
    let p = match period {
        Some(p) => p,
        None => return true,
    };
    let ts = match last_version_at {
        Some(ts) => ts,
        None => return true,
    };
    let window: i64 = match p {
        SearchPeriod::Day => 24 * 60 * 60,
        SearchPeriod::Week => 7 * 24 * 60 * 60,
        SearchPeriod::Month => 30 * 24 * 60 * 60,
        SearchPeriod::Year => 365 * 24 * 60 * 60,
        SearchPeriod::AllTime => return true,
    };
    let start = if now >= i64::MIN + window {
        now - window
    } else {
        i64::MIN
    };
    ts >= start
}

/// Whether a saved model, whose newest version appeared at `last_version_at`
/// (Unix seconds), passes a period filter now.
pub fn liked_model_matches_period(last_version_at: Option<i64>, period: Option<SearchPeriod>) -> (b: bool)
    ensures
        exists|now: i64| b == #[trigger] within_period(last_version_at, period, now),
{
    let now = seconds_since(system_time_now(), unix_epoch());
    let now_signed: i64 = if now > i64::MAX as u64 {
        i64::MAX
    } else {
        now as i64
    };
    let b = liked_model_within_period(last_version_at, period, now_signed);
    assert(b == within_period(last_version_at, period, now_signed));
    b
}

/// The `created_at` window of a period is as long as the period: one day is
/// 86400 seconds, a week 604800, a month (thirty days) 2592000 and a year
/// (365 days) 31536000; once that much time has passed since the epoch the
/// window is `<now minus that>-<now>`, and before it starts at zero. `AllTime`
/// has no window.
pub proof fn law_created_at_window_spans_its_period(now: nat)
    ensures
        created_at_window("Day"@, now) == Some(
            decimal(if now >= 86400 { (now - 86400) as nat } else { 0 }) + "-"@ + decimal(now),
        ),
        created_at_window("Week"@, now) == Some(
            decimal(if now >= 604800 { (now - 604800) as nat } else { 0 }) + "-"@ + decimal(now),
        ),
        created_at_window("Month"@, now) == Some(
            decimal(if now >= 2592000 { (now - 2592000) as nat } else { 0 }) + "-"@ + decimal(now),
        ),
        created_at_window("Year"@, now) == Some(
            decimal(if now >= 31536000 { (now - 31536000) as nat } else { 0 }) + "-"@ + decimal(now),
        ),
        created_at_window("AllTime"@, now) is None,
{
    reveal_strlit("Day");
    reveal_strlit("Week");
    reveal_strlit("Month");
    reveal_strlit("Year");
    reveal_strlit("AllTime");
    assert("Week"@[0] != "Day"@[0]);
    assert("Month"@[0] != "Day"@[0] && "Month"@[0] != "Week"@[0]);
    assert("Year"@[0] != "Day"@[0] && "Year"@[0] != "Week"@[0] && "Year"@[0] != "Month"@[0]);
    assert("AllTime"@[0] != "Day"@[0] && "AllTime"@[0] != "Week"@[0] && "AllTime"@[0] != "Month"@[0]
        && "AllTime"@[0] != "Year"@[0]);
}

/// A saved model passes a period filter exactly when its newest version
/// appeared no longer ago than the period: 86400 seconds for a day, 604800 for
/// a week, 2592000 for a month, 31536000 for a year (when that start is a
/// representable time); all time lets every model pass.
pub proof fn law_period_filter_spans_its_period(ts: i64, now: i64)
    requires
        now >= i64::MIN + 31536000,
    ensures
        within_period(Some(ts), Some(SearchPeriod::Day), now) <==> ts >= now - 86400,
        within_period(Some(ts), Some(SearchPeriod::Week), now) <==> ts >= now - 604800,
        within_period(Some(ts), Some(SearchPeriod::Month), now) <==> ts >= now - 2592000,
        within_period(Some(ts), Some(SearchPeriod::Year), now) <==> ts >= now - 31536000,
        within_period(Some(ts), Some(SearchPeriod::AllTime), now),
{
}

/// The period a search form names and the period filter of saved models agree:
/// the window of a period's label spans exactly the period's length.
pub proof fn law_period_label_window_agree(p: SearchPeriod, now: nat)
    ensures
        created_at_window(period_label(p), now) == match period_window(p) {
            Some(w) => Some(
                decimal(if now >= w { (now - w) as nat } else { 0 }) + "-"@ + decimal(now),
            ),
            None => None,
        },
{
    law_created_at_window_spans_its_period(now);
}

} // verus!
