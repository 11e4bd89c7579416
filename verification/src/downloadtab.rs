use vstd::prelude::*;

use crate::active::{find_tracker, tracker_position};
use crate::app::App;
use crate::chars::{decimal, decimal_chars, string_of};
use crate::downloads::{
    history_position, kept_entries, path_exists, DownloadHistoryEntry, DownloadKey, DownloadState,
};

verus! {

/// The key of the download a history entry was written for.
pub open spec fn entry_key(e: DownloadHistoryEntry) -> DownloadKey {
    DownloadKey { model_id: e.model_id, version_id: e.version_id, filename: e.filename }
}

/// The selection of the Downloads tab stepped forward or back: through the
/// running downloads when there are some, else through the history; it stops
/// at either end.
pub open spec fn downloads_stepped(a: App, forward: bool) -> App {
    if a.active_downloads@.len() == 0 {
        App {
            selected_history_index: if forward {
                if a.selected_history_index + 1 < a.download_history@.len() {
                    (a.selected_history_index + 1) as usize
                } else {
                    a.selected_history_index
                }
            } else if a.selected_history_index > 0 {
                (a.selected_history_index - 1) as usize
            } else {
                0
            },
            ..a
        }
    } else {
        App {
            selected_download_index: if forward {
                if a.selected_download_index + 1 < a.active_download_order@.len() {
                    (a.selected_download_index + 1) as usize
                } else {
                    a.selected_download_index
                }
            } else if a.selected_download_index > 0 {
                (a.selected_download_index - 1) as usize
            } else {
                0
            },
            ..a
        }
    }
}

/// The settings tab's focus stepped forward or back among its thirteen fields.
pub open spec fn settings_stepped(a: App, forward: bool) -> App {
    let f = a.settings_form.focused_field;
    App {
        settings_form: crate::forms::SettingsFormState {
            focused_field: if forward {
                if f < 12 { (f + 1) as usize } else { f }
            } else if f > 0 {
                (f - 1) as usize
            } else {
                f
            },
            ..a.settings_form
        },
        ..a
    }
}

/// What was removed from the history, and the download it cancels.
pub open spec fn history_removed(a: App, b: App, p: int) -> bool {
    &&& b.download_history@ == a.download_history@.remove(p)
    &&& b.selected_history_index == crate::app::clamp_index(
        a.selected_history_index as int,
        a.download_history@.len() - 1,
    )
    &&& b == (App {
        status: b.status,
        last_error: b.last_error,
        show_status_modal: b.show_status_modal,
        download_history: b.download_history,
        selected_history_index: b.selected_history_index,
        ..a
    })
}

/// The key of a running download for an entry, when it is tracked.
pub open spec fn active_key_for(a: App, e: DownloadHistoryEntry) -> Option<DownloadKey> {
    match tracker_position(a.active_downloads@, entry_key(e)) {
        Some(_) => Some(entry_key(e)),
        None => None,
    }
}

/// How deleting a history entry's file went.
pub enum FileDeleteOutcome {
    Deleted,
    NoPath,
    /// The file was not there; the system's message.
    NotFound(String),
    /// The file could not be deleted; the system's message.
    Failed(String),
}

/// What the status line says of a file deletion.
pub open spec fn deletion_text(model_name: Seq<char>, outcome: FileDeleteOutcome) -> Seq<char> {
    match outcome {
        FileDeleteOutcome::Deleted => "Deleted history and file for "@ + model_name,
        FileDeleteOutcome::NoPath => "No file path recorded for "@ + model_name,
        FileDeleteOutcome::NotFound(_) => "No file found for "@ + model_name,
        FileDeleteOutcome::Failed(e) => "Failed to delete file for "@ + model_name + ": "@ + e@,
    }
}

fn deletion_message(model_name: &str, outcome: &FileDeleteOutcome) -> (r: String)
    ensures
        r@ == deletion_text(model_name@, *outcome),
{
    let (lead, detail): (&str, Option<&str>) = match outcome {
        FileDeleteOutcome::Deleted => ("Deleted history and file for ", None),
        FileDeleteOutcome::NoPath => ("No file path recorded for ", None),
        FileDeleteOutcome::NotFound(_) => ("No file found for ", None),
        FileDeleteOutcome::Failed(e) => ("Failed to delete file for ", Some(e.as_str())),
    };
    let mut t = String::from_str(lead);
    t.append(model_name);
    if let Some(d) = detail {
        t.append(": ");
        t.append(d);
    }
    t
}

impl App {
    /// Steps the Downloads tab's selection (see `downloads_stepped`).
    pub fn step_download_selection(&mut self, forward: bool)
        ensures
            *final(self) == downloads_stepped(*old(self), forward),
    {
        if self.active_downloads.len() == 0 {
            if forward {
                if self.download_history.len() > 0 && self.selected_history_index < self.download_history.len() - 1 {
                    self.selected_history_index = self.selected_history_index + 1;
                }
            } else if self.selected_history_index > 0 {
                self.selected_history_index = self.selected_history_index - 1;
            }
        } else if forward {
            if self.active_download_order.len() > 0 && self.selected_download_index
                < self.active_download_order.len() - 1 {
                self.selected_download_index = self.selected_download_index + 1;
            }
        } else if self.selected_download_index > 0 {
            self.selected_download_index = self.selected_download_index - 1;
        }
    }

    /// Steps the settings tab's focus (see `settings_stepped`).
    pub fn step_settings_field(&mut self, forward: bool)
        ensures
            *final(self) == settings_stepped(*old(self), forward),
    {
        if forward {
            if self.settings_form.focused_field < 12 {
                self.settings_form.focused_field = self.settings_form.focused_field + 1;
            }
        } else if self.settings_form.focused_field > 0 {
            self.settings_form.focused_field = self.settings_form.focused_field - 1;
        }
    }

    /// The key of the running download a history entry stands for, when it is
    /// still tracked.
    pub fn active_download_key_for_history_entry(&self, entry: &DownloadHistoryEntry) -> (r: Option<DownloadKey>)
        ensures
            r == active_key_for(*self, *entry),
    {
        let key = DownloadKey {
            model_id: entry.model_id,
            version_id: entry.version_id,
            filename: entry.filename.clone(),
        };
        match find_tracker(&self.active_downloads, &key) {
            Some(_) => Some(key),
            None => None,
        }
    }

    /// Deletes the selected history entry; hands back the running download it
    /// stands for, which the caller cancels. The status line says what
    /// happened.
    pub fn delete_selected_history(&mut self) -> (r: Option<DownloadKey>)
        ensures
            match history_position(old(self).download_history@.len() as int, old(self).selected_history_index as int) {
                Some(p) => {
                    let e = old(self).download_history@[p];
                    &&& history_removed(*old(self), *final(self), p)
                    &&& final(self).last_error == old(self).last_error
                    &&& final(self).show_status_modal == old(self).show_status_modal
                    &&& r == active_key_for(*old(self), e)
                    &&& final(self).status@ == if r is Some {
                        "Deleted history for "@ + e.model_name@ + " and cancelled active download"@
                    } else {
                        "Deleted history for "@ + e.model_name@
                    }
                },
                None => {
                    &&& r is None
                    &&& *final(self) == (App { status: final(self).status, ..*old(self) })
                    &&& final(self).status@ == "No download history selected"@
                },
            },
    {
        let ghost a = *self;
        match self.remove_selected_history() {
            Some(removed) => {
                let ghost p = history_position(a.download_history@.len() as int, a.selected_history_index as int)->0;
                assert(removed == a.download_history@[p]);
                assert(self.active_downloads == a.active_downloads);
                let key = self.active_download_key_for_history_entry(&removed);
                let mut text = String::from_str("Deleted history for ");
                text.append(removed.model_name.as_str());
                if key.is_some() {
                    text.append(" and cancelled active download");
                }
                self.status = text;
                assert(history_removed(a, *self, p));
                key
            },
            None => {
                self.status = String::from_str("No download history selected");
                None
            },
        }
    }

    /// Takes the selected history entry out so that its file can be deleted;
    /// hands back the entry and the running download it stands for (which the
    /// caller cancels). When nothing is selected the status line says so.
    pub fn take_selected_history_for_deletion(&mut self) -> (r: Option<(DownloadHistoryEntry, Option<DownloadKey>)>)
        ensures
            match history_position(old(self).download_history@.len() as int, old(self).selected_history_index as int) {
                Some(p) => {
                    &&& history_removed(*old(self), *final(self), p)
                    &&& final(self).status == old(self).status
                    &&& final(self).last_error == old(self).last_error
                    &&& final(self).show_status_modal == old(self).show_status_modal
                    &&& r == Some((old(self).download_history@[p], active_key_for(*old(self), old(self).download_history@[p])))
                },
                None => {
                    &&& r is None
                    &&& *final(self) == (App { status: final(self).status, ..*old(self) })
                    &&& final(self).status@ == "No download history selected"@
                },
            },
    {
        let ghost a = *self;
        match self.remove_selected_history() {
            Some(removed) => {
                let ghost p = history_position(a.download_history@.len() as int, a.selected_history_index as int)->0;
                assert(self.active_downloads == a.active_downloads);
                let key = self.active_download_key_for_history_entry(&removed);
                assert(history_removed(a, *self, p));
                Some((removed, key))
            },
            None => {
                self.status = String::from_str("No download history selected");
                None
            },
        }
    }

    /// Says how deleting a removed entry's file went: the error is remembered
    /// (and the status window opened) when the file was missing or could not
    /// be deleted, else forgotten; the status line names the model, and adds
    /// that its download was cancelled when it was running.
    pub fn note_history_file_deletion(&mut self, model_name: &str, outcome: FileDeleteOutcome, cancelled: bool)
        ensures
            final(self).status@ == if cancelled {
                deletion_text(model_name@, outcome) + " (and cancelled active download)"@
            } else {
                deletion_text(model_name@, outcome)
            },
            match outcome {
                FileDeleteOutcome::NotFound(e) => final(self).last_error == Some(e) && final(self).show_status_modal,
                FileDeleteOutcome::Failed(e) => final(self).last_error == Some(e) && final(self).show_status_modal,
                _ => final(self).last_error is None && final(self).show_status_modal == old(self).show_status_modal,
            },
            *final(self) == (App {
                status: final(self).status,
                last_error: final(self).last_error,
                show_status_modal: final(self).show_status_modal,
                ..*old(self)
            }),
    {
        let mut text = deletion_message(model_name, &outcome);
        if cancelled {
            text.append(" (and cancelled active download)");
        }
        match outcome {
            FileDeleteOutcome::NotFound(e) => {
                self.last_error = Some(e);
                self.show_status_modal = true;
            },
            FileDeleteOutcome::Failed(e) => {
                self.last_error = Some(e);
                self.show_status_modal = true;
            },
            _ => {
                self.last_error = None;
            },
        }
        self.status = text;
    }

    /// The selected running download and whether it is running or held, which
    /// tells the caller to pause or to resume it.
    pub fn selected_download_to_toggle(&mut self) -> (r: Option<(DownloadKey, DownloadState)>)
        ensures
            final(self).selected_download_index == crate::app::clamp_index(
                old(self).selected_download_index as int,
                old(self).active_download_order@.len() as int,
            ),
            *final(self) == (App { selected_download_index: final(self).selected_download_index, ..*old(self) }),
            match r {
                Some((k, st)) => {
                    &&& old(self).active_download_order@.len() > 0
                    &&& k == old(self).active_download_order@[final(self).selected_download_index as int]
                    &&& tracker_position(old(self).active_downloads@, k) matches Some(p)
                    &&& st == old(self).active_downloads@[p].state
                },
                None => old(self).active_download_order@.len() == 0 || (old(self).active_download_order@.len() > 0
                    && tracker_position(
                    old(self).active_downloads@,
                    old(self).active_download_order@[final(self).selected_download_index as int],
                ) is None),
            },
    {
        let n = self.active_download_order.len();
        if n == 0 {
            self.selected_download_index = 0;
            return None;
        }
        if self.selected_download_index >= n {
            self.selected_download_index = n - 1;
        }
        let key = self.active_download_order[self.selected_download_index].clone();
        match find_tracker(&self.active_downloads, &key) {
            Some(i) => {
                let st = self.active_downloads[i].state;
                Some((key, st))
            },
            None => None,
        }
    }
}

/// A paused download to pick up again from its history entry.
pub struct ResumeRequest {
    pub model_id: u64,
    pub version_id: u64,
    pub file_path: Option<String>,
    pub downloaded_bytes: u64,
    pub total_bytes: u64,
}

/// `Resuming <model> (v<version>)...`.
pub open spec fn resuming_text(e: DownloadHistoryEntry) -> Seq<char> {
    "Resuming "@ + e.model_name@ + " (v"@ + decimal(e.version_id as nat) + ")..."@
}

impl App {
    /// Resumes the selected history entry's download: not when it is
    /// complete, already running, or has no file path, nor when its partial
    /// file is gone (the error is then remembered and the status window
    /// opened). With a worker to send it to, the entry's download is handed
    /// back, the model version's history entries are removed, and the status
    /// line says so; without one nothing more happens. The file's presence is
    /// read from the disk, so which of the last two outcomes comes is not
    /// stated.
    #[verifier::rlimit(50)]
    pub fn resume_selected_history(&mut self, worker_ready: bool) -> (r: Option<ResumeRequest>)
        ensures
            match history_position(old(self).download_history@.len() as int, old(self).selected_history_index as int) {
                Some(p) => {
                    let e = old(self).download_history@[p];
                    if e.total_bytes > 0 && e.downloaded_bytes >= e.total_bytes {
                        r is None && *final(self) == (App { status: final(self).status, ..*old(self) })
                            && final(self).status@ == "Selected item already complete."@
                    } else if active_key_for(*old(self), e) is Some {
                        r is None && *final(self) == (App { status: final(self).status, ..*old(self) })
                            && final(self).status@ == "Download already active for selected model."@
                    } else if e.file_path is None {
                        r is None && *final(self) == (App { status: final(self).status, ..*old(self) })
                            && final(self).status@ == "Selected history has no file path."@
                    } else {
                        ||| {
                            &&& r is None
                            &&& *final(self) == (App {
                                status: final(self).status,
                                last_error: final(self).last_error,
                                show_status_modal: true,
                                ..*old(self)
                            })
                            &&& final(self).last_error matches Some(m) && m@ == "Missing partial file"@
                            &&& final(self).status@ == "Cannot resume: partial file not found."@
                        }
                        ||| {
                            &&& !worker_ready
                            &&& r is None
                            &&& *final(self) == *old(self)
                        }
                        ||| {
                            &&& worker_ready
                            &&& r matches Some(q) && q.model_id == e.model_id && q.version_id == e.version_id
                                && q.file_path == e.file_path && q.downloaded_bytes == e.downloaded_bytes
                                && q.total_bytes == e.total_bytes
                            &&& final(self).download_history@ == kept_entries(
                                old(self).download_history@,
                                e.model_id,
                                e.version_id,
                                false,
                            )
                            &&& final(self).status@ == resuming_text(e)
                        }
                    }
                },
                None => r is None && *final(self) == (App { status: final(self).status, ..*old(self) })
                    && final(self).status@ == "No download history selected"@,
            },
    {
        let idx = match self.selected_history_entry_index() {
            Some(i) => i,
            None => {
                self.status = String::from_str("No download history selected");
                return None;
            },
        };
        let total = self.download_history[idx].total_bytes;
        if total > 0 && self.download_history[idx].downloaded_bytes >= total {
            self.status = String::from_str("Selected item already complete.");
            return None;
        }
        if self.active_download_key_for_history_entry(&self.download_history[idx]).is_some() {
            self.status = String::from_str("Download already active for selected model.");
            return None;
        }
        let has_file = match &self.download_history[idx].file_path {
            Some(path) => path_exists(path.as_str()),
            None => {
                self.status = String::from_str("Selected history has no file path.");
                return None;
            },
        };
        if !has_file {
            self.last_error = Some(String::from_str("Missing partial file"));
            self.show_status_modal = true;
            self.status = String::from_str("Cannot resume: partial file not found.");
            return None;
        }
        if !worker_ready {
            return None;
        }
        let entry = &self.download_history[idx];
        let request = ResumeRequest {
            model_id: entry.model_id,
            version_id: entry.version_id,
            file_path: match &entry.file_path {
                Some(p) => Some(p.clone()),
                None => None,
            },
            downloaded_bytes: entry.downloaded_bytes,
            total_bytes: entry.total_bytes,
        };
        let mut text = String::from_str("Resuming ");
        text.append(entry.model_name.as_str());
        text.append(" (v");
        text.append(string_of(decimal_chars(entry.version_id).as_slice()).as_str());
        text.append(")...");
        let model_id = entry.model_id;
        let version_id = entry.version_id;
        self.remove_history_for_session(model_id, version_id);
        self.status = text;
        Some(request)
    }
}

} // verus!
