use std::time::SystemTime;
use vstd::prelude::*;

use crate::app::{App, clamp_index, status_applied, event_says};
use crate::chars::{decimal, decimal_chars, string_of};
use crate::downloads::{
    DownloadHistoryStatus, DownloadKey, DownloadState, DownloadTracker, InterruptedDownloadSession,
    NewDownloadHistoryEntry, capped_history, stamped,
};
use crate::status::{StatusEvent, StatusLevel, system_time_now};

verus! {

/// Two keys name the same download.
pub open spec fn same_key(a: DownloadKey, b: DownloadKey) -> bool {
    &&& a.model_id == b.model_id
    &&& a.version_id == b.version_id
    &&& a.filename@ == b.filename@
}

/// The first position of a tracker for the key.
pub open spec fn tracker_position(list: Seq<DownloadTracker>, key: DownloadKey) -> Option<int>
    decreases list.len(),
{
    if list.len() == 0 {
        None
    } else {
        match tracker_position(list.drop_last(), key) {
            Some(p) => Some(p),
            None => if same_key(list.last().key, key) {
                Some(list.len() - 1)
            } else {
                None
            },
        }
    }
}

/// The download order without the key.
pub open spec fn order_without(order: Seq<DownloadKey>, key: DownloadKey) -> Seq<DownloadKey>
    decreases order.len(),
{
    if order.len() == 0 {
        Seq::empty()
    } else {
        let rest = order_without(order.drop_last(), key);
        if same_key(order.last(), key) {
            rest
        } else {
            rest.push(order.last())
        }
    }
}

/// The key is in the download order.
pub open spec fn order_has(order: Seq<DownloadKey>, key: DownloadKey) -> bool {
    exists|j: int| 0 <= j < order.len() && same_key(#[trigger] order[j], key)
}

fn keys_equal(a: &DownloadKey, b: &DownloadKey) -> (r: bool)
    ensures
        r == same_key(*a, *b),
{
    a.model_id == b.model_id && a.version_id == b.version_id && a.filename == b.filename
}

pub(crate) fn find_tracker(list: &Vec<DownloadTracker>, key: &DownloadKey) -> (r: Option<usize>)
    ensures
        match tracker_position(list@, *key) {
            Some(p) => r matches Some(i) && i as int == p,
            None => r is None,
        },
        r matches Some(i) ==> i < list@.len(),
{
    let mut i: usize = 0;
    while i < list.len()
        invariant
            i <= list@.len(),
            tracker_position(list@.subrange(0, i as int), *key) is None,
        decreases list@.len() - i,
    {
        proof {
            assert(list@.subrange(0, i + 1).drop_last() =~= list@.subrange(0, i as int));
        }
        if keys_equal(&list[i].key, key) {
            proof {
                lemma_tracker_position_prefix(list@, *key, i as int + 1);
            }
            return Some(i);
        }
        i = i + 1;
    }
    proof {
        assert(list@.subrange(0, list@.len() as int) =~= list@);
    }
    None
}

proof fn lemma_tracker_position_prefix(list: Seq<DownloadTracker>, key: DownloadKey, n: int)
    requires
        0 < n <= list.len(),
        tracker_position(list.subrange(0, n), key) is Some,
    ensures
        tracker_position(list, key) == tracker_position(list.subrange(0, n), key),
    decreases list.len() - n,
{
    if n < list.len() {
        assert(list.subrange(0, n + 1).drop_last() =~= list.subrange(0, n));
        lemma_tracker_position_prefix(list, key, n + 1);
    } else {
        assert(list.subrange(0, n) =~= list);
    }
}

fn order_contains(order: &Vec<DownloadKey>, key: &DownloadKey) -> (r: bool)
    ensures
        r == order_has(order@, *key),
{
    let mut j: usize = 0;
    while j < order.len()
        invariant
            j <= order@.len(),
            forall|k: int| 0 <= k < j ==> !same_key(#[trigger] order@[k], *key),
        decreases order@.len() - j,
    {
        if keys_equal(&order[j], key) {
            return true;
        }
        j = j + 1;
    }
    false
}

fn remove_from_order(order: &mut Vec<DownloadKey>, key: &DownloadKey)
    ensures
        final(order)@ == order_without(old(order)@, *key),
{
    let mut kept: Vec<DownloadKey> = Vec::new();
    let mut i: usize = 0;
    while i < order.len()
        invariant
            i <= order@.len(),
            order@ == old(order)@,
            kept@ == order_without(order@.subrange(0, i as int), *key),
        decreases order@.len() - i,
    {
        proof {
            assert(order@.subrange(0, i + 1).drop_last() =~= order@.subrange(0, i as int));
        }
        if !keys_equal(&order[i], key) {
            kept.push(order[i].clone());
        }
        i = i + 1;
    }
    proof {
        assert(order@.subrange(0, order@.len() as int) =~= order@);
    }
    *order = kept;
}

/// `Download <verb>: <filename>`.
pub open spec fn download_message(verb: Seq<char>, filename: Seq<char>) -> Seq<char> {
    "Download "@ + verb + ": "@ + filename
}

fn download_text(verb: &str, filename: &str) -> (r: String)
    ensures
        r@ == download_message(verb@, filename@),
{
    let mut r = String::new();
    r.append("Download ");
    r.append(verb);
    r.append(": ");
    r.append(filename);
    r
}

impl App {
    /// The exit confirmation, with the number of downloads in progress in the
    /// status line.
    pub fn begin_exit_confirm_modal(&mut self)
        ensures
            final(self).show_exit_confirm_modal,
            final(self).status@ == "Active downloads detected ("@ + decimal(
                old(self).active_downloads@.len(),
            ) + "). Confirm exit: [Y] Save and exit, [D] Delete and exit, [N] Cancel."@,
            final(self).download_history == old(self).download_history,
            final(self).status_history == old(self).status_history,
            final(self).active_downloads == old(self).active_downloads,
    {
        self.show_exit_confirm_modal = true;
        let count = decimal_chars(self.active_downloads.len() as u64);
        let count_text = string_of(count.as_slice());
        let mut status = String::new();
        status.append("Active downloads detected (");
        status.append(count_text.as_str());
        status.append("). Confirm exit: [Y] Save and exit, [D] Delete and exit, [N] Cancel.");
        self.status = status;
    }

    /// A download started: it joins the download order once, its tracker starts
    /// at zero bytes and running, and the status line says so.
    pub fn on_download_started(
        &mut self,
        key: DownloadKey,
        model_name: String,
        total_bytes: u64,
        file_path: Option<String>,
    )
        ensures
            order_has(final(self).active_download_order@, key),
            order_has(old(self).active_download_order@, key) ==> final(self).active_download_order
                == old(self).active_download_order,
            !order_has(old(self).active_download_order@, key) ==> final(self).active_download_order@
                == old(self).active_download_order@.push(key),
            ({
                let t = DownloadTracker {
                    key: key,
                    filename: key.filename,
                    downloaded_bytes: 0,
                    total_bytes: total_bytes,
                    file_path: file_path,
                    model_name: model_name,
                    version_id: key.version_id,
                    state: DownloadState::Running,
                };
                match tracker_position(old(self).active_downloads@, key) {
                    Some(p) => final(self).active_downloads@ == old(self).active_downloads@.update(p, t),
                    None => final(self).active_downloads@ == old(self).active_downloads@.push(t),
                }
            }),
            final(self).status_level == StatusLevel::Info,
            final(self).download_history == old(self).download_history,
    {
        if !order_contains(&self.active_download_order, &key) {
            self.active_download_order.push(key.clone());
            assert(same_key(self.active_download_order@[self.active_download_order@.len() - 1], key));
        }
        let tracker = DownloadTracker {
            filename: key.filename.clone(),
            downloaded_bytes: 0,
            total_bytes,
            file_path,
            model_name,
            version_id: key.version_id,
            state: DownloadState::Running,
            key: key.clone(),
        };
        let model_text = string_of(decimal_chars(key.model_id).as_slice());
        let version_text = string_of(decimal_chars(key.version_id).as_slice());
        match find_tracker(&self.active_downloads, &key) {
            Some(i) => {
                self.active_downloads.set(i, tracker);
            },
            None => {
                self.active_downloads.push(tracker);
            },
        }
        let mut message = String::new();
        message.append("Download started for model ");
        message.append(model_text.as_str());
        message.append(" (");
        message.append(version_text.as_str());
        message.append(")");
        self.set_status(message.as_str());
    }

    /// Progress of a download: its tracker, when there is one, takes the byte
    /// counts.
    pub fn on_download_progress(&mut self, key: &DownloadKey, downloaded_bytes: u64, total_bytes: u64)
        ensures
            match tracker_position(old(self).active_downloads@, *key) {
                Some(p) => final(self).active_downloads@ == old(self).active_downloads@.update(
                    p,
                    DownloadTracker {
                        downloaded_bytes: downloaded_bytes,
                        total_bytes: total_bytes,
                        ..old(self).active_downloads@[p]
                    },
                ),
                None => final(self).active_downloads == old(self).active_downloads,
            },
            final(self).active_download_order == old(self).active_download_order,
            final(self).status == old(self).status,
            final(self).download_history == old(self).download_history,
    {
        match find_tracker(&self.active_downloads, key) {
            Some(i) => {
                let t = &self.active_downloads[i];
                let updated = DownloadTracker {
                    key: t.key.clone(),
                    filename: t.filename.clone(),
                    downloaded_bytes,
                    total_bytes,
                    file_path: match &t.file_path {
                        Some(p) => Some(p.clone()),
                        None => None,
                    },
                    model_name: t.model_name.clone(),
                    version_id: t.version_id,
                    state: t.state,
                };
                self.active_downloads.set(i, updated);
            },
            None => {},
        }
    }

    /// A download paused or resumed: its tracker, when there is one, takes the
    /// state and the status line names the file.
    pub fn on_download_state(&mut self, key: &DownloadKey, state: DownloadState)
        ensures
            match tracker_position(old(self).active_downloads@, *key) {
                Some(p) => {
                    &&& final(self).active_downloads@ == old(self).active_downloads@.update(
                        p,
                        DownloadTracker { state: state, ..old(self).active_downloads@[p] },
                    )
                    &&& final(self).status@ == download_message(
                        if state == DownloadState::Paused {
                            "paused"@
                        } else {
                            "resumed"@
                        },
                        old(self).active_downloads@[p].filename@,
                    )
                },
                None => final(self).active_downloads == old(self).active_downloads && final(self).status
                    == old(self).status,
            },
            final(self).active_download_order == old(self).active_download_order,
            final(self).download_history == old(self).download_history,
    {
        match find_tracker(&self.active_downloads, key) {
            Some(i) => {
                let t = &self.active_downloads[i];
                let filename = t.filename.clone();
                let updated = DownloadTracker {
                    key: t.key.clone(),
                    filename: t.filename.clone(),
                    downloaded_bytes: t.downloaded_bytes,
                    total_bytes: t.total_bytes,
                    file_path: match &t.file_path {
                        Some(p) => Some(p.clone()),
                        None => None,
                    },
                    model_name: t.model_name.clone(),
                    version_id: t.version_id,
                    state,
                };
                self.active_downloads.set(i, updated);
                let verb = match state {
                    DownloadState::Paused => "paused",
                    DownloadState::Running => "resumed",
                };
                let message = download_text(verb, filename.as_str());
                self.set_status(message.as_str());
            },
            None => {},
        }
    }
}

/// How a download ended.
pub enum DownloadEnd {
    Completed,
    Failed(String),
    Cancelled,
}

/// The history status recorded for an ending.
pub open spec fn end_status(end: DownloadEnd) -> DownloadHistoryStatus {
    match end {
        DownloadEnd::Completed => DownloadHistoryStatus::Completed,
        DownloadEnd::Failed(reason) => DownloadHistoryStatus::Failed(reason),
        DownloadEnd::Cancelled => DownloadHistoryStatus::Cancelled,
    }
}

/// The history line recorded for a download that ended.
pub open spec fn ended_entry(key: DownloadKey, t: DownloadTracker, end: DownloadEnd) -> NewDownloadHistoryEntry {
    NewDownloadHistoryEntry {
        model_id: key.model_id,
        version_id: t.version_id,
        filename: t.filename,
        model_name: t.model_name,
        file_path: t.file_path,
        downloaded_bytes: t.downloaded_bytes,
        total_bytes: t.total_bytes,
        status: end_status(end),
    }
}

/// What the status line says when a download ends.
pub open spec fn end_says(e: StatusEvent, key: DownloadKey, end: DownloadEnd) -> bool {
    match end {
        DownloadEnd::Completed => event_says(e, StatusLevel::Info, download_message("complete"@, key.filename@), None, false),
        DownloadEnd::Failed(reason) => event_says(e, StatusLevel::Error, download_message("failed"@, reason@), Some(reason@), true),
        DownloadEnd::Cancelled => event_says(e, StatusLevel::Info, download_message("cancelled"@, key.filename@), None, false),
    }
}

/// The positions of the trackers of the first `n` keys of the order that have one.
pub open spec fn tracked_positions(order: Seq<DownloadKey>, list: Seq<DownloadTracker>, n: int) -> Seq<int>
    decreases n,
{
    if n <= 0 {
        Seq::empty()
    } else {
        let rest = tracked_positions(order, list, n - 1);
        match tracker_position(list, order[n - 1]) {
            Some(p) => rest.push(p),
            None => rest,
        }
    }
}

/// The session saved for a download in progress.
pub open spec fn session_of_tracker(s: InterruptedDownloadSession, key: DownloadKey, t: DownloadTracker) -> bool {
    &&& s.model_id == key.model_id
    &&& s.version_id == t.version_id
    &&& s.filename@ == t.filename@
    &&& s.model_name@ == t.model_name@
    &&& s.file_path == t.file_path
    &&& s.downloaded_bytes == t.downloaded_bytes
    &&& s.total_bytes == t.total_bytes
}

/// The sessions saved for the downloads in progress: one per download in the
/// download order that has a tracker, in that order.
pub open spec fn sessions_from_active(a: App, r: Seq<InterruptedDownloadSession>) -> bool {
    let pos = tracked_positions(a.active_download_order@, a.active_downloads@, a.active_download_order@.len() as int);
    &&& r.len() == pos.len()
    &&& forall|k: int| 0 <= k < r.len() ==> {
        let p = pos[k];
        &&& 0 <= p < a.active_downloads@.len()
        &&& session_of_tracker(#[trigger] r[k], a.active_downloads@[p].key, a.active_downloads@[p])
    }
}

/// The download key a session was saved under.
pub open spec fn session_key(s: InterruptedDownloadSession) -> DownloadKey {
    DownloadKey { model_id: s.model_id, version_id: s.version_id, filename: s.filename }
}

impl App {
    /// The key of the download in progress a session stands for, when it is
    /// still tracked.
    pub fn active_download_key_for_session(&self, session: &InterruptedDownloadSession) -> (r: Option<DownloadKey>)
        ensures
            match tracker_position(self.active_downloads@, session_key(*session)) {
                Some(_) => r == Some(session_key(*session)),
                None => r is None,
            },
    {
        let key = DownloadKey {
            model_id: session.model_id,
            version_id: session.version_id,
            filename: session.filename.clone(),
        };
        match find_tracker(&self.active_downloads, &key) {
            Some(_) => Some(key),
            None => None,
        }
    }

    /// A download ended: its tracker, when there is one, leaves the active list
    /// and becomes the newest history line; the key leaves the download order;
    /// both selections are moved back into bounds; and the status line says how
    /// it ended (an error, with the reason as detail, when it failed).
    pub fn on_download_finished(&mut self, key: &DownloadKey, end: DownloadEnd)
        ensures
            match tracker_position(old(self).active_downloads@, *key) {
                Some(p) => {
                    &&& final(self).active_downloads@ == old(self).active_downloads@.remove(p)
                    &&& exists|t: SystemTime| final(self).download_history@ == capped_history(
                        old(self).download_history@.push(
                            #[trigger] stamped(ended_entry(*key, old(self).active_downloads@[p], end), t),
                        ),
                    )
                },
                None => {
                    &&& final(self).active_downloads == old(self).active_downloads
                    &&& final(self).download_history == old(self).download_history
                },
            },
            final(self).active_download_order@ == order_without(old(self).active_download_order@, *key),
            final(self).selected_download_index == clamp_index(
                old(self).selected_download_index as int,
                final(self).active_download_order@.len() as int,
            ),
            final(self).download_history@.len() == 0 ==> final(self).selected_history_index == 0,
            final(self).download_history@.len() > 0 ==> final(self).selected_history_index
                < final(self).download_history@.len(),
            exists|e: StatusEvent| #[trigger] end_says(e, *key, end) && final(self).status@ == e.summary@,
    {
        let ended_status = match &end {
            DownloadEnd::Completed => DownloadHistoryStatus::Completed,
            DownloadEnd::Failed(reason) => DownloadHistoryStatus::Failed(reason.clone()),
            DownloadEnd::Cancelled => DownloadHistoryStatus::Cancelled,
        };
        assert(ended_status == end_status(end));
        match find_tracker(&self.active_downloads, key) {
            Some(i) => {
                let tracker = self.active_downloads.remove(i);
                self.push_download_history(
                    NewDownloadHistoryEntry {
                        model_id: key.model_id,
                        version_id: tracker.version_id,
                        filename: tracker.filename,
                        model_name: tracker.model_name,
                        file_path: tracker.file_path,
                        downloaded_bytes: tracker.downloaded_bytes,
                        total_bytes: tracker.total_bytes,
                        status: ended_status,
                    },
                );
            },
            None => {},
        }
        let ghost active = self.active_downloads;
        let ghost history = self.download_history;
        remove_from_order(&mut self.active_download_order, key);
        self.clamp_selected_download_index();
        self.clamp_selected_history_index();
        let ghost idx = self.selected_download_index;
        let ghost pre = *self;
        match &end {
            DownloadEnd::Completed => {
                let message = download_text("complete", key.filename.as_str());
                self.set_status(message.as_str());
                proof {
                    let e = choose|e: StatusEvent|
                        event_says(e, StatusLevel::Info, message@, None, false) && #[trigger] status_applied(pre, *self, e);
                    assert(end_says(e, *key, end));
                }
            },
            DownloadEnd::Failed(reason) => {
                let message = download_text("failed", reason.as_str());
                self.set_error(message.as_str(), reason.as_str());
                proof {
                    let e = choose|e: StatusEvent|
                        event_says(e, StatusLevel::Error, message@, Some(reason@), true) && #[trigger] status_applied(pre, *self, e);
                    assert(end_says(e, *key, end));
                }
            },
            DownloadEnd::Cancelled => {
                let message = download_text("cancelled", key.filename.as_str());
                self.set_status(message.as_str());
                proof {
                    let e = choose|e: StatusEvent|
                        event_says(e, StatusLevel::Info, message@, None, false) && #[trigger] status_applied(pre, *self, e);
                    assert(end_says(e, *key, end));
                }
            },
        }
        assert(self.active_downloads == active);
        assert(self.download_history == history);
        assert(self.selected_download_index == idx);
    }

    /// The downloads in progress as sessions to resume later, in download order,
    /// each stamped now.
    pub fn collect_interrupt_sessions_from_active(&self) -> (r: Vec<InterruptedDownloadSession>)
        ensures
            sessions_from_active(*self, r@),
    {
        let order = &self.active_download_order;
        let list = &self.active_downloads;
        let mut r: Vec<InterruptedDownloadSession> = Vec::new();
        let mut i: usize = 0;
        while i < order.len()
            invariant
                i <= order@.len(),
                order@ == self.active_download_order@,
                list@ == self.active_downloads@,
                r@.len() == tracked_positions(order@, list@, i as int).len(),
                forall|k: int| 0 <= k < r@.len() ==> 0 <= #[trigger] tracked_positions(order@, list@, i as int)[k] < list@.len(),
                forall|k: int| 0 <= k < r@.len() ==> session_of_tracker(#[trigger] r@[k], list@[tracked_positions(order@, list@, i as int)[k]].key, list@[tracked_positions(order@, list@, i as int)[k]]),
            decreases order@.len() - i,
        {
            let ghost before = r@;
            let ghost step = tracker_position(list@, order@[i as int]);
            assert(tracked_positions(order@, list@, i + 1) == match step {
                Some(p) => tracked_positions(order@, list@, i as int).push(p),
                None => tracked_positions(order@, list@, i as int),
            });
            match find_tracker(list, &order[i]) {
                Some(p) => {
                    let t = &list[p];
                    proof {
                        lemma_tracker_position_key(list@, order@[i as int]);
                    }
                    let session = InterruptedDownloadSession {
                        model_id: t.key.model_id,
                        version_id: t.version_id,
                        filename: t.filename.clone(),
                        model_name: t.model_name.clone(),
                        file_path: match &t.file_path {
                            Some(f) => Some(f.clone()),
                            None => None,
                        },
                        downloaded_bytes: t.downloaded_bytes,
                        total_bytes: t.total_bytes,
                        created_at: system_time_now(),
                    };
                    assert(session_of_tracker(session, list@[p as int].key, list@[p as int]));
                    r.push(session);
                    assert(r@[before.len() as int] == session);
                    assert(tracked_positions(order@, list@, i + 1)[before.len() as int] == p as int);
                },
                None => {},
            }
            i = i + 1;
            proof {
                let pos = tracked_positions(order@, list@, i as int);
                lemma_tracker_position_key(list@, order@[i - 1]);
                assert forall|k: int| 0 <= k < r@.len() implies {
                    let p = pos[k];
                    &&& 0 <= p < list@.len()
                    &&& session_of_tracker(#[trigger] r@[k], list@[p].key, list@[p])
                } by {
                    if k < before.len() {
                        assert(r@[k] == before[k]);
                        assert(pos[k] == tracked_positions(order@, list@, i - 1)[k]);
                    }
                }
            }
        }
        r
    }
}

proof fn lemma_tracker_position_key(list: Seq<DownloadTracker>, key: DownloadKey)
    ensures
        tracker_position(list, key) matches Some(p) ==> 0 <= p < list.len() && same_key(list[p].key, key),
    decreases list.len(),
{
    if list.len() > 0 {
        lemma_tracker_position_key(list.drop_last(), key);
    }
}

} // verus!
