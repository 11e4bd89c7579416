use std::time::SystemTime;
use vstd::prelude::*;

use crate::chars::{is_blank, is_blank_chars, chars_of};
use crate::downloads::{
    DownloadHistoryEntry, DownloadKey, DownloadTracker, InterruptedDownloadSession,
};
use crate::forms::{AppMode, MainTab, SettingsFormState};
use crate::status::{
    StatusEvent, StatusHistoryFilter, StatusLevel, filter_admits, system_time_now, unix_seconds_of,
};

verus! {

/// Status history keeps at most this many entries, newest first.
pub const STATUS_HISTORY_LIMIT: usize = 200;

/// The state behind the status line and the status history window, and the
/// download bookkeeping of the browser.
pub struct App {
    pub status: String,
    pub status_detail: Option<String>,
    pub status_level: StatusLevel,
    pub status_recorded_at: SystemTime,
    pub last_error: Option<String>,
    pub show_status_modal: bool,
    pub show_status_history_modal: bool,
    pub status_history: Vec<StatusEvent>,
    pub selected_status_history_index: usize,
    pub status_history_filter: StatusHistoryFilter,
    pub active_downloads: Vec<DownloadTracker>,
    pub active_download_order: Vec<DownloadKey>,
    pub selected_download_index: usize,
    pub selected_history_index: usize,
    pub download_history: Vec<DownloadHistoryEntry>,
    pub interrupted_download_sessions: Vec<InterruptedDownloadSession>,
    pub show_resume_download_modal: bool,
    pub show_exit_confirm_modal: bool,
    pub active_tab: MainTab,
    pub mode: AppMode,
    pub settings_form: SettingsFormState,
    pub show_help_modal: bool,
    pub show_image_prompt_modal: bool,
    pub show_image_tags_modal: bool,
    pub show_image_model_detail_modal: bool,
    pub show_like_confirm_modal: bool,
    pub image_prompt_scroll: u16,
    pub image_tags_scroll: u16,
}

/// The text of an optional string.
pub open spec fn opt_view(s: Option<String>) -> Option<Seq<char>> {
    match s {
        Some(v) => Some(v@),
        None => None,
    }
}

/// Two events say the same thing: same level, summary and detail.
pub open spec fn same_status(a: StatusEvent, b: StatusEvent) -> bool {
    &&& a.level == b.level
    &&& a.summary@ == b.summary@
    &&& opt_view(a.detail) == opt_view(b.detail)
}

/// The history entries a filter lets through, in history order.
pub open spec fn visible_history(h: Seq<StatusEvent>, f: StatusHistoryFilter) -> Seq<StatusEvent>
    decreases h.len(),
{
    if h.len() == 0 {
        Seq::empty()
    } else {
        let rest = visible_history(h.drop_last(), f);
        if filter_admits(f, h.last().level) {
            rest.push(h.last())
        } else {
            rest
        }
    }
}

/// An index moved back into `0..len`, or 0 for an empty list.
pub open spec fn clamp_index(i: int, len: int) -> int {
    if len <= 0 {
        0
    } else if i >= len {
        len - 1
    } else {
        i
    }
}

/// The history after an event is recorded: the event goes first unless it says
/// the same as the newest entry, and the oldest entries past the limit drop off.
pub open spec fn history_after(h: Seq<StatusEvent>, e: StatusEvent) -> Seq<StatusEvent> {
    if h.len() > 0 && same_status(h[0], e) {
        h
    } else {
        let grown = seq![e] + h;
        if grown.len() > STATUS_HISTORY_LIMIT {
            grown.take(STATUS_HISTORY_LIMIT as int)
        } else {
            grown
        }
    }
}

/// The error remembered for an event: its detail, else its summary, for errors.
pub open spec fn error_of(e: StatusEvent) -> Option<Seq<char>> {
    if e.level == StatusLevel::Error {
        match e.detail {
            Some(d) => Some(d@),
            None => Some(e.summary@),
        }
    } else {
        None
    }
}

fn clone_opt_string(s: &Option<String>) -> (r: Option<String>)
    ensures
        opt_view(r) == opt_view(*s),
{
    match s {
        Some(v) => Some(v.clone()),
        None => None,
    }
}

fn opt_string_eq(a: &Option<String>, b: &Option<String>) -> (r: bool)
    ensures
        r == (opt_view(*a) == opt_view(*b)),
{
    match (a, b) {
        (Some(x), Some(y)) => x.eq(y),
        (None, None) => true,
        _ => false,
    }
}

fn same_status_exec(a: &StatusEvent, b: &StatusEvent) -> (r: bool)
    ensures
        r == same_status(*a, *b),
{
    a.level == b.level && a.summary == b.summary && opt_string_eq(&a.detail, &b.detail)
}

/// `after` is `before` with the event `e` applied to the status line and the
/// history, the history selection clamped to the filtered history, and the
/// filter and the history window left as they were.
pub open spec fn status_applied(before: App, after: App, e: StatusEvent) -> bool {
    &&& after.status@ == e.summary@
    &&& opt_view(after.status_detail) == opt_view(e.detail)
    &&& after.status_level == e.level
    &&& after.status_recorded_at == e.recorded_at
    &&& opt_view(after.last_error) == error_of(e)
    &&& after.show_status_modal == e.show_modal
    &&& after.status_history@ == history_after(before.status_history@, e)
    &&& after.status_history_filter == before.status_history_filter
    &&& after.show_status_history_modal == before.show_status_history_modal
    &&& same_download_state(before, after)
    &&& after.selected_status_history_index == clamp_index(
        before.selected_status_history_index as int,
        visible_history(after.status_history@, after.status_history_filter).len() as int,
    )
}

/// The level, summary and detail of an event.
pub open spec fn event_says(
    e: StatusEvent,
    level: StatusLevel,
    summary: Seq<char>,
    detail: Option<Seq<char>>,
    show_modal: bool,
) -> bool {
    &&& e.level == level
    &&& e.summary@ == summary
    &&& opt_view(e.detail) == detail
    &&& e.show_modal == show_modal
}

proof fn lemma_visible_history_len(h: Seq<StatusEvent>, f: StatusHistoryFilter)
    ensures
        visible_history(h, f).len() <= h.len(),
    decreases h.len(),
{
    if h.len() > 0 {
        lemma_visible_history_len(h.drop_last(), f);
    }
}

impl App {
    /// The history entries the current filter shows, newest first.
    pub fn filtered_status_history(&self) -> (r: Vec<&StatusEvent>)
        ensures
            r@.len() == visible_history(self.status_history@, self.status_history_filter).len(),
            forall|i: int|
                0 <= i < r@.len() ==> *r@[i] == visible_history(
                    self.status_history@,
                    self.status_history_filter,
                )[i],
    {
        let ghost h = self.status_history@;
        let ghost f = self.status_history_filter;
        let mut r: Vec<&StatusEvent> = Vec::new();
        let mut i: usize = 0;
        while i < self.status_history.len()
            invariant
                h == self.status_history@,
                f == self.status_history_filter,
                i <= h.len(),
                r@.len() == visible_history(h.subrange(0, i as int), f).len(),
                forall|k: int|
                    0 <= k < r@.len() ==> *r@[k] == visible_history(h.subrange(0, i as int), f)[k],
            decreases h.len() - i,
        {
            let e = &self.status_history[i];
            proof {
                assert(h.subrange(0, i + 1).drop_last() =~= h.subrange(0, i as int));
                assert(h.subrange(0, i + 1).last() == h[i as int]);
            }
            if self.status_history_filter.matches(e.level) {
                r.push(e);
            }
            i = i + 1;
        }
        proof {
            assert(h.subrange(0, h.len() as int) =~= h);
        }
        r
    }

    /// The highlighted entry of the filtered history.
    pub fn selected_status_history_entry(&self) -> (r: Option<&StatusEvent>)
        ensures
            ({
                let v = visible_history(self.status_history@, self.status_history_filter);
                match r {
                    Some(e) => self.selected_status_history_index < v.len()
                        && *e == v[self.selected_status_history_index as int],
                    None => self.selected_status_history_index >= v.len(),
                }
            }),
    {
        let visible = self.filtered_status_history();
        if self.selected_status_history_index < visible.len() {
            Some(visible[self.selected_status_history_index])
        } else {
            None
        }
    }

    /// Moves the history selection back into the filtered history.
    pub fn clamp_selected_status_history_index(&mut self)
        ensures
            final(self).selected_status_history_index == clamp_index(
                old(self).selected_status_history_index as int,
                visible_history(old(self).status_history@, old(self).status_history_filter).len()
                    as int,
            ),
            final(self).status_history == old(self).status_history,
            final(self).status_history_filter == old(self).status_history_filter,
            final(self).status == old(self).status,
            final(self).status_detail == old(self).status_detail,
            final(self).last_error == old(self).last_error,
            final(self).status_level == old(self).status_level,
            final(self).status_recorded_at == old(self).status_recorded_at,
            final(self).show_status_modal == old(self).show_status_modal,
            final(self).show_status_history_modal == old(self).show_status_history_modal,
            same_download_state(*old(self), *final(self)),
    {
        let len = self.filtered_status_history().len();
        if len == 0 {
            self.selected_status_history_index = 0;
        } else if self.selected_status_history_index >= len {
            self.selected_status_history_index = len - 1;
        }
    }
}

impl App {
    /// Shows an event in the status line and records it at the top of the
    /// history, unless the newest entry already says the same.
    #[verifier::rlimit(30)]
    pub fn apply_status(&mut self, event: StatusEvent)
        ensures
            status_applied(*old(self), *final(self), event),
    {
        let is_duplicate = self.status_history.len() > 0 && same_status_exec(
            &self.status_history[0],
            &event,
        );
        self.status = event.summary.clone();
        self.status_detail = clone_opt_string(&event.detail);
        self.status_level = event.level;
        self.status_recorded_at = event.recorded_at;
        self.last_error = if event.level == StatusLevel::Error {
            match &event.detail {
                Some(d) => Some(d.clone()),
                None => Some(event.summary.clone()),
            }
        } else {
            None
        };
        self.show_status_modal = event.show_modal;
        let ghost h = self.status_history@;
        if !is_duplicate {
            self.status_history.insert(0, event);
            assert(self.status_history@ =~= seq![event] + h);
            if self.status_history.len() > STATUS_HISTORY_LIMIT {
                self.status_history.truncate(STATUS_HISTORY_LIMIT);
            }
        }
        self.clamp_selected_status_history_index();
    }

    /// Records an informational message.
    pub fn set_status(&mut self, summary: &str)
        ensures
            exists|e: StatusEvent|
                event_says(e, StatusLevel::Info, summary@, None, false) && #[trigger] status_applied(
                    *old(self),
                    *final(self),
                    e,
                ),
    {
        let e = StatusEvent::info(summary);
        let ghost g = e;
        self.apply_status(e);
        assert(status_applied(*old(self), *self, g));
    }

    /// Records an informational message with a detail.
    pub fn set_status_detail(&mut self, summary: &str, detail: &str)
        ensures
            exists|e: StatusEvent|
                event_says(e, StatusLevel::Info, summary@, Some(detail@), false)
                    && #[trigger] status_applied(*old(self), *final(self), e),
    {
        let e = StatusEvent::info_detail(summary, detail);
        let ghost g = e;
        self.apply_status(e);
        assert(status_applied(*old(self), *self, g));
    }

    /// Records a warning.
    pub fn set_warn(&mut self, summary: &str)
        ensures
            exists|e: StatusEvent|
                event_says(e, StatusLevel::Warn, summary@, None, false) && #[trigger] status_applied(
                    *old(self),
                    *final(self),
                    e,
                ),
    {
        let e = StatusEvent::warn(summary);
        let ghost g = e;
        self.apply_status(e);
        assert(status_applied(*old(self), *self, g));
    }

    /// Records an error with a detail; the status window opens.
    pub fn set_error(&mut self, summary: &str, detail: &str)
        ensures
            exists|e: StatusEvent|
                event_says(e, StatusLevel::Error, summary@, Some(detail@), true)
                    && #[trigger] status_applied(*old(self), *final(self), e),
    {
        let e = StatusEvent::error_detail(summary, detail);
        let ghost g = e;
        self.apply_status(e);
        assert(status_applied(*old(self), *self, g));
    }
}

/// The level the status line stands for: an error while one is remembered.
pub open spec fn synced_level(app: App) -> StatusLevel {
    if app.last_error is Some {
        StatusLevel::Error
    } else {
        app.status_level
    }
}

/// The detail the status line stands for: for errors the remembered error, else
/// the status detail.
pub open spec fn synced_detail(app: App) -> Option<Seq<char>> {
    if synced_level(app) == StatusLevel::Error {
        match app.last_error {
            Some(e) => Some(e@),
            None => opt_view(app.status_detail),
        }
    } else {
        opt_view(app.status_detail)
    }
}

/// The status line says something the newest history entry does not.
pub open spec fn status_line_unrecorded(app: App) -> bool {
    &&& !is_blank(app.status@)
    &&& (app.status_history@.len() == 0 || !(app.status_history@[0].level == synced_level(app)
        && app.status_history@[0].summary@ == app.status@ && opt_view(
        app.status_history@[0].detail,
    ) == synced_detail(app)))
}

/// The history selection is a position in the filtered history, or 0 when that
/// is empty.
pub open spec fn selection_in_bounds(app: App) -> bool {
    let len = visible_history(app.status_history@, app.status_history_filter).len();
    if len == 0 {
        app.selected_status_history_index == 0
    } else {
        app.selected_status_history_index < len
    }
}

/// Everything but the history selection and the history window flag is the same.
pub open spec fn same_status_state(a: App, b: App) -> bool {
    &&& a.status == b.status
    &&& a.status_detail == b.status_detail
    &&& a.status_level == b.status_level
    &&& a.status_recorded_at == b.status_recorded_at
    &&& a.last_error == b.last_error
    &&& a.show_status_modal == b.show_status_modal
    &&& a.status_history == b.status_history
    &&& a.status_history_filter == b.status_history_filter
    &&& same_download_state(a, b)
}

/// The status line, the status history and its window are the same.
pub open spec fn same_status_fields(a: App, b: App) -> bool {
    &&& a.status == b.status
    &&& a.status_detail == b.status_detail
    &&& a.status_level == b.status_level
    &&& a.status_recorded_at == b.status_recorded_at
    &&& a.last_error == b.last_error
    &&& a.show_status_modal == b.show_status_modal
    &&& a.show_status_history_modal == b.show_status_history_modal
    &&& a.status_history == b.status_history
    &&& a.selected_status_history_index == b.selected_status_history_index
    &&& a.status_history_filter == b.status_history_filter
}

/// The tab, the input mode, the settings form and the other windows are the same.
pub open spec fn same_screen(a: App, b: App) -> bool {
    &&& a.active_tab == b.active_tab
    &&& a.mode == b.mode
    &&& a.settings_form == b.settings_form
    &&& a.show_help_modal == b.show_help_modal
    &&& a.show_image_prompt_modal == b.show_image_prompt_modal
    &&& a.show_image_tags_modal == b.show_image_tags_modal
    &&& a.show_image_model_detail_modal == b.show_image_model_detail_modal
    &&& a.show_like_confirm_modal == b.show_like_confirm_modal
    &&& a.image_prompt_scroll == b.image_prompt_scroll
    &&& a.image_tags_scroll == b.image_tags_scroll
}

/// The download bookkeeping (and the rest of the screen) is the same.
pub open spec fn same_download_state(a: App, b: App) -> bool {
    &&& same_screen(a, b)
    &&& a.active_downloads == b.active_downloads
    &&& a.active_download_order == b.active_download_order
    &&& a.selected_download_index == b.selected_download_index
    &&& a.selected_history_index == b.selected_history_index
    &&& a.download_history == b.download_history
    &&& a.interrupted_download_sessions == b.interrupted_download_sessions
    &&& a.show_resume_download_modal == b.show_resume_download_modal
    &&& a.show_exit_confirm_modal == b.show_exit_confirm_modal
}

impl App {
    /// Records the status line in the history when it says something new: the
    /// level is an error while an error is remembered, and the detail is then the
    /// remembered error.
    pub fn sync_status_history_from_fields(&mut self)
        ensures
            status_line_unrecorded(*old(self)) ==> exists|e: StatusEvent|
                event_says(
                    e,
                    synced_level(*old(self)),
                    old(self).status@,
                    synced_detail(*old(self)),
                    old(self).show_status_modal,
                ) && #[trigger] status_applied(*old(self), *final(self), e),
            !status_line_unrecorded(*old(self)) ==> *final(self) == *old(self),
    {
        let level = if self.last_error.is_some() {
            StatusLevel::Error
        } else {
            self.status_level
        };
        let detail = if level == StatusLevel::Error {
            match &self.last_error {
                Some(e) => Some(e.clone()),
                None => clone_opt_string(&self.status_detail),
            }
        } else {
            clone_opt_string(&self.status_detail)
        };
        let differs = if self.status_history.len() > 0 {
            let first = &self.status_history[0];
            !(first.level == level && first.summary == self.status && opt_string_eq(
                &first.detail,
                &detail,
            ))
        } else {
            true
        };
        let status_chars = chars_of(self.status.as_str());
        if !differs || is_blank_chars(&status_chars) {
            return;
        }
        let recorded_at = system_time_now();
        let e = StatusEvent {
            level,
            summary: self.status.clone(),
            detail,
            recorded_at,
            recorded_unix: unix_seconds_of(recorded_at),
            show_modal: self.show_status_modal,
        };
        let ghost g = e;
        self.apply_status(e);
        assert(status_applied(*old(self), *self, g));
    }

    /// Opens the history window with the newest visible entry selected.
    pub fn begin_status_history_modal(&mut self)
        ensures
            final(self).show_status_history_modal,
            final(self).selected_status_history_index == 0,
            same_status_state(*old(self), *final(self)),
    {
        self.show_status_history_modal = true;
        self.selected_status_history_index = 0;
        self.clamp_selected_status_history_index();
    }

    /// Closes the history window.
    pub fn close_status_history_modal(&mut self)
        ensures
            !final(self).show_status_history_modal,
            final(self).selected_status_history_index == old(self).selected_status_history_index,
            same_status_state(*old(self), *final(self)),
    {
        self.show_status_history_modal = false;
    }

    /// Moves the history selection one entry down, stopping at the last one.
    pub fn select_next_status_history(&mut self)
        ensures
            final(self).selected_status_history_index == if old(self).selected_status_history_index + 1 < visible_history(
                old(self).status_history@,
                old(self).status_history_filter,
            ).len() {
                old(self).selected_status_history_index + 1
            } else {
                old(self).selected_status_history_index as int
            },
            final(self).show_status_history_modal == old(self).show_status_history_modal,
            same_status_state(*old(self), *final(self)),
    {
        let len = self.filtered_status_history().len();
        if self.selected_status_history_index < len && self.selected_status_history_index + 1
            < len {
            self.selected_status_history_index = self.selected_status_history_index + 1;
        }
    }

    /// Moves the history selection one entry up, stopping at the first one.
    pub fn select_previous_status_history(&mut self)
        ensures
            final(self).selected_status_history_index == if old(self).selected_status_history_index > 0 {
                old(self).selected_status_history_index - 1
            } else {
                0
            },
            final(self).show_status_history_modal == old(self).show_status_history_modal,
            same_status_state(*old(self), *final(self)),
    {
        if self.selected_status_history_index > 0 {
            self.selected_status_history_index = self.selected_status_history_index - 1;
        }
    }

    /// Selects the newest visible entry.
    pub fn select_first_status_history(&mut self)
        ensures
            final(self).selected_status_history_index == 0,
            final(self).show_status_history_modal == old(self).show_status_history_modal,
            same_status_state(*old(self), *final(self)),
    {
        self.selected_status_history_index = 0;
    }

    /// Selects the oldest visible entry, when there is one.
    pub fn select_last_status_history(&mut self)
        ensures
            ({
                let len = visible_history(
                    old(self).status_history@,
                    old(self).status_history_filter,
                ).len();
                final(self).selected_status_history_index == if len > 0 {
                    len - 1
                } else {
                    old(self).selected_status_history_index as int
                }
            }),
            final(self).show_status_history_modal == old(self).show_status_history_modal,
            same_status_state(*old(self), *final(self)),
    {
        let len = self.filtered_status_history().len();
        if len > 0 {
            self.selected_status_history_index = len - 1;
        }
    }

    /// Shows only the levels a filter lets through, with the newest selected.
    pub fn set_status_history_filter(&mut self, filter: StatusHistoryFilter)
        ensures
            final(self).status_history_filter == filter,
            final(self).selected_status_history_index == 0,
            final(self).status_history == old(self).status_history,
            final(self).status == old(self).status,
            final(self).status_detail == old(self).status_detail,
            final(self).status_level == old(self).status_level,
            final(self).status_recorded_at == old(self).status_recorded_at,
            final(self).last_error == old(self).last_error,
            final(self).show_status_modal == old(self).show_status_modal,
            final(self).show_status_history_modal == old(self).show_status_history_modal,
            same_download_state(*old(self), *final(self)),
    {
        self.status_history_filter = filter;
        self.selected_status_history_index = 0;
        self.clamp_selected_status_history_index();
    }
}

/// After any status is recorded, the newest history entry says what it said.
pub proof fn law_newest_entry_is_last_status(h: Seq<StatusEvent>, e: StatusEvent)
    ensures
        history_after(h, e).len() > 0,
        same_status(history_after(h, e)[0], e),
{
}

/// Recording the same status twice in a row leaves one history entry for it.
pub proof fn law_repeated_status_recorded_once(h: Seq<StatusEvent>, e: StatusEvent, again: StatusEvent)
    requires
        same_status(e, again),
    ensures
        history_after(history_after(h, e), again) == history_after(h, e),
{
}

/// The history never grows past its limit.
pub proof fn law_history_stays_bounded(h: Seq<StatusEvent>, e: StatusEvent)
    requires
        h.len() <= STATUS_HISTORY_LIMIT,
    ensures
        history_after(h, e).len() <= STATUS_HISTORY_LIMIT,
{
}

/// Recording a new status keeps the older entries, in order, behind it.
pub proof fn law_new_status_pushes_older_entries_down(h: Seq<StatusEvent>, e: StatusEvent, i: int)
    requires
        !(h.len() > 0 && same_status(h[0], e)),
        0 <= i < h.len(),
        i + 1 < STATUS_HISTORY_LIMIT,
    ensures
        history_after(h, e)[i + 1] == h[i],
{
}

/// Whatever status is recorded, the history selection ends up in bounds.
pub proof fn law_recorded_status_keeps_selection_in_bounds(before: App, after: App, e: StatusEvent)
    requires
        status_applied(before, after, e),
    ensures
        selection_in_bounds(after),
{
}

/// Clamping puts the history selection in bounds.
pub proof fn law_clamped_selection_in_bounds(i: int, len: int)
    requires
        0 <= i,
        0 <= len,
    ensures
        len == 0 ==> clamp_index(i, len) == 0,
        len > 0 ==> 0 <= clamp_index(i, len) < len,
        0 <= i < len ==> clamp_index(i, len) == i,
{
}

/// The status history holds at most two hundred entries: once full, a new
/// status goes first and the oldest entry drops off.
pub proof fn law_status_history_keeps_two_hundred(h: Seq<StatusEvent>, e: StatusEvent)
    requires
        h.len() <= 200,
    ensures
        history_after(h, e).len() <= 200,
        h.len() == 200 && !same_status(h[0], e) ==> history_after(h, e) == seq![e] + h.take(199),
        h.len() < 200 && (h.len() == 0 || !same_status(h[0], e)) ==> history_after(h, e) == seq![e] + h,
{
    if h.len() == 200 && !same_status(h[0], e) {
        assert((seq![e] + h).take(200) =~= seq![e] + h.take(199));
    }
}

} // verus!
