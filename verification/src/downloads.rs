use std::time::SystemTime;
use vstd::prelude::*;

use crate::app::{App, clamp_index, same_screen, same_status_fields};
use crate::forms::{AppMode, MainTab, SettingsFormState};
use crate::status::{StatusEvent, StatusHistoryFilter, StatusLevel, system_time_now};

verus! {

/// Download history keeps at most this many entries, oldest first.
pub const DOWNLOAD_HISTORY_LIMIT: usize = 200;

/// Identifies one file download of one model version.
#[derive(Debug, PartialEq, Eq, Hash)]
pub struct DownloadKey {
    pub model_id: u64,
    pub version_id: u64,
    pub filename: String,
}

impl Clone for DownloadKey {
    fn clone(&self) -> (r: Self)
        ensures
            r == *self,
    {
        DownloadKey { model_id: self.model_id, version_id: self.version_id, filename: self.filename.clone() }
    }
}

impl DownloadKey {
    pub fn new(model_id: u64, version_id: u64, filename: &str) -> (k: DownloadKey)
        ensures
            k.model_id == model_id,
            k.version_id == version_id,
            k.filename@ == filename@,
    {
        DownloadKey { model_id, version_id, filename: filename.to_owned() }
    }
}

/// Whether a download is transferring or held.
#[derive(Clone, Copy, Debug, PartialEq, Eq, Structural)]
pub enum DownloadState {
    Running,
    Paused,
}

/// How a download ended, or that it was paused.
#[derive(Clone, Debug)]
pub enum DownloadHistoryStatus {
    Completed,
    Failed(String),
    Paused,
    Cancelled,
}

/// One line of the download history. The percentage shown for an entry is
/// `downloaded_bytes` out of `total_bytes`.
#[derive(Clone, Debug)]
pub struct DownloadHistoryEntry {
    pub model_id: u64,
    pub version_id: u64,
    pub filename: String,
    pub model_name: String,
    pub file_path: Option<String>,
    pub downloaded_bytes: u64,
    pub total_bytes: u64,
    pub status: DownloadHistoryStatus,
    pub created_at: SystemTime,
}

/// A history line before it is stamped with the time it is recorded.
pub struct NewDownloadHistoryEntry {
    pub model_id: u64,
    pub version_id: u64,
    pub filename: String,
    pub model_name: String,
    pub file_path: Option<String>,
    pub downloaded_bytes: u64,
    pub total_bytes: u64,
    pub status: DownloadHistoryStatus,
}

/// A partly downloaded file that can be resumed.
#[derive(Debug)]
pub struct InterruptedDownloadSession {
    pub model_id: u64,
    pub version_id: u64,
    pub filename: String,
    pub model_name: String,
    pub file_path: Option<String>,
    pub downloaded_bytes: u64,
    pub total_bytes: u64,
    pub created_at: SystemTime,
}

/// A download in progress. The share already transferred, as a percentage, is
/// kept by the screen that draws it.
#[derive(Clone, Debug)]
pub struct DownloadTracker {
    pub key: DownloadKey,
    pub filename: String,
    pub downloaded_bytes: u64,
    pub total_bytes: u64,
    pub file_path: Option<String>,
    pub model_name: String,
    pub version_id: u64,
    pub state: DownloadState,
}

impl Clone for InterruptedDownloadSession {
    fn clone(&self) -> (r: Self)
        ensures
            r == *self,
    {
        InterruptedDownloadSession {
            model_id: self.model_id,
            version_id: self.version_id,
            filename: self.filename.clone(),
            model_name: self.model_name.clone(),
            file_path: clone_opt_text(&self.file_path),
            downloaded_bytes: self.downloaded_bytes,
            total_bytes: self.total_bytes,
            created_at: self.created_at,
        }
    }
}

/// The text of an optional string.
pub open spec fn opt_text(s: Option<String>) -> Option<Seq<char>> {
    match s {
        Some(v) => Some(v@),
        None => None,
    }
}

/// The entry is a pause record.
pub open spec fn is_paused(e: DownloadHistoryEntry) -> bool {
    e.status is Paused
}

/// A paused entry can be resumed when some bytes arrived, not all of a known
/// total did, and its partial file is still on disk (`file_exists`).
pub open spec fn resumable(e: DownloadHistoryEntry, file_exists: bool) -> bool {
    &&& is_paused(e)
    &&& e.downloaded_bytes != 0
    &&& !(e.total_bytes != 0 && e.downloaded_bytes >= e.total_bytes)
    &&& e.file_path is Some
    &&& file_exists
}

/// The same model version and partial file.
pub open spec fn same_session_file(a: DownloadHistoryEntry, b: DownloadHistoryEntry) -> bool {
    &&& a.model_id == b.model_id
    &&& a.version_id == b.version_id
    &&& opt_text(a.file_path) == opt_text(b.file_path)
}

/// Entry `i` is the newest resumable record of its partial file.
pub open spec fn newest_resumable(h: Seq<DownloadHistoryEntry>, exists: Seq<bool>, i: int) -> bool {
    &&& resumable(h[i], exists[i])
    &&& forall|j: int|
        i < j < h.len() && #[trigger] resumable(h[j], exists[j]) ==> !same_session_file(h[j], h[i])
}

/// The session resumed from a history entry.
pub open spec fn session_from(s: InterruptedDownloadSession, e: DownloadHistoryEntry) -> bool {
    &&& s.model_id == e.model_id
    &&& s.version_id == e.version_id
    &&& s.filename@ == e.filename@
    &&& s.model_name@ == e.model_name@
    &&& opt_text(s.file_path) == opt_text(e.file_path)
    &&& s.downloaded_bytes == e.downloaded_bytes
    &&& s.total_bytes == e.total_bytes
    &&& s.created_at == e.created_at
}

/// The positions among the first `n` entries that are the newest resumable record
/// of their partial file, in history order.
pub open spec fn resumable_positions(h: Seq<DownloadHistoryEntry>, exists: Seq<bool>, n: int) -> Seq<
    int,
>
    decreases n,
{
    if n <= 0 {
        Seq::empty()
    } else {
        let rest = resumable_positions(h, exists, n - 1);
        if newest_resumable(h, exists, n - 1) {
            rest.push(n - 1)
        } else {
            rest
        }
    }
}

fn clone_opt_text(s: &Option<String>) -> (r: Option<String>)
    ensures
        r == *s,
{
    match s {
        Some(v) => Some(v.clone()),
        None => None,
    }
}

fn opt_text_eq(a: &Option<String>, b: &Option<String>) -> (r: bool)
    ensures
        r == (opt_text(*a) == opt_text(*b)),
{
    match (a, b) {
        (Some(x), Some(y)) => x.eq(y),
        (None, None) => true,
        _ => false,
    }
}

/// Whether a file is on disk (`Path::exists`). The answer depends on the disk,
/// so nothing is stated of it.
#[verifier::external_body]
pub(crate) fn path_exists(path: &str) -> bool {
    std::path::Path::new(path).exists()
}

fn is_resumable(e: &DownloadHistoryEntry, file_exists: bool) -> (r: bool)
    ensures
        r == resumable(*e, file_exists),
{
    let paused = match e.status {
        DownloadHistoryStatus::Paused => true,
        _ => false,
    };
    paused && e.downloaded_bytes != 0 && !(e.total_bytes != 0 && e.downloaded_bytes
        >= e.total_bytes) && e.file_path.is_some() && file_exists
}

fn session_of(e: &DownloadHistoryEntry) -> (s: InterruptedDownloadSession)
    ensures
        session_from(s, *e),
{
    InterruptedDownloadSession {
        model_id: e.model_id,
        version_id: e.version_id,
        filename: e.filename.clone(),
        model_name: e.model_name.clone(),
        file_path: clone_opt_text(&e.file_path),
        downloaded_bytes: e.downloaded_bytes,
        total_bytes: e.total_bytes,
        created_at: e.created_at,
    }
}

/// Some entry after `i` is a resumable record of the same partial file.
fn resumed_later(history: &[DownloadHistoryEntry], file_exists: &[bool], i: usize) -> (r: bool)
    requires
        file_exists@.len() == history@.len(),
        i < history@.len(),
    ensures
        r == exists|m: int|
            i < m < history@.len() && #[trigger] resumable(history@[m], file_exists@[m])
                && same_session_file(history@[m], history@[i as int]),
{
    let n = history.len();
    let e = &history[i];
    let mut j: usize = i + 1;
    while j < n
        invariant
            n == history@.len(),
            file_exists@.len() == n,
            i < j <= n,
            *e == history@[i as int],
            forall|m: int|
                i < m < j ==> !(#[trigger] resumable(history@[m], file_exists@[m])
                    && same_session_file(history@[m], history@[i as int])),
        decreases n - j,
    {
        let other = &history[j];
        if is_resumable(other, file_exists[j]) && other.model_id == e.model_id && other.version_id
            == e.version_id && opt_text_eq(&other.file_path, &e.file_path) {
            return true;
        }
        j = j + 1;
    }
    false
}

/// The sessions that can be resumed from the history, given for each entry
/// whether its partial file is on disk: one per partial file, taken from its
/// newest resumable record, in history order.
pub fn paused_sessions_in_history(history: &[DownloadHistoryEntry], file_exists: &[bool]) -> (r: Vec<
    InterruptedDownloadSession,
>)
    requires
        file_exists@.len() == history@.len(),
    ensures
        ({
            let pos = resumable_positions(history@, file_exists@, history@.len() as int);
            &&& r@.len() == pos.len()
            &&& forall|k: int| 0 <= k < r@.len() ==> session_from(#[trigger] r@[k], history@[pos[k]])
        }),
{
    let n = history.len();
    let mut r: Vec<InterruptedDownloadSession> = Vec::new();
    let mut i: usize = 0;
    while i < n
        invariant
            n == history@.len(),
            file_exists@.len() == n,
            i <= n,
            ({
                let pos = resumable_positions(history@, file_exists@, i as int);
                &&& r@.len() == pos.len()
                &&& forall|k: int|
                    0 <= k < r@.len() ==> session_from(#[trigger] r@[k], history@[pos[k]])
            }),
        decreases n - i,
    {
        let e = &history[i];
        let newest = is_resumable(e, file_exists[i]) && !resumed_later(history, file_exists, i);
        let ghost before = r@;
        if newest {
            r.push(session_of(e));
        }
        i = i + 1;
        proof {
            let pos = resumable_positions(history@, file_exists@, i as int);
            assert(newest == newest_resumable(history@, file_exists@, i - 1));
            assert forall|k: int| 0 <= k < r@.len() implies session_from(
                #[trigger] r@[k],
                history@[pos[k]],
            ) by {
                if k < before.len() {
                    assert(r@[k] == before[k]);
                }
            }
        }
    }
    r
}

/// The sessions in `r` are the ones `paused_sessions_in_history` finds when
/// `file_exists` tells which partial files are on disk.
pub open spec fn sessions_found(
    r: Seq<InterruptedDownloadSession>,
    history: Seq<DownloadHistoryEntry>,
    file_exists: Seq<bool>,
) -> bool {
    let pos = resumable_positions(history, file_exists, history.len() as int);
    &&& file_exists.len() == history.len()
    &&& r.len() == pos.len()
    &&& forall|k: int| 0 <= k < r.len() ==> session_from(#[trigger] r[k], history[pos[k]])
}

/// The partial file to look for on disk for a history entry: its file when
/// the entry would be resumable with the file there, else none.
pub open spec fn probe_target(e: DownloadHistoryEntry) -> Option<Seq<char>> {
    if resumable(e, true) {
        match e.file_path {
            Some(p) => Some(p@),
            None => None,
        }
    } else {
        None
    }
}

/// For each history entry, the partial file whose presence on disk decides
/// whether it can be resumed (see `probe_target`).
pub fn resume_probe_paths(history: &[DownloadHistoryEntry]) -> (r: Vec<Option<String>>)
    ensures
        r@.len() == history@.len(),
        forall|i: int| 0 <= i < r@.len() ==> opt_text(#[trigger] r@[i]) == probe_target(history@[i]),
{
    let n = history.len();
    let mut r: Vec<Option<String>> = Vec::new();
    let mut i: usize = 0;
    while i < n
        invariant
            n == history@.len(),
            i <= n,
            r@.len() == i,
            forall|k: int| 0 <= k < i ==> opt_text(#[trigger] r@[k]) == probe_target(history@[k]),
        decreases n - i,
    {
        let e = &history[i];
        let target = match &e.file_path {
            Some(p) => if is_resumable(e, true) {
                Some(p.clone())
            } else {
                None
            },
            None => None,
        };
        r.push(target);
        i = i + 1;
    }
    r
}

/// The sessions that can be resumed from the download history: one per partial
/// file still on disk, from its newest resumable pause record, oldest first.
/// Which files are on disk is read from the disk: each entry's probe target
/// (see `resume_probe_paths`) is looked for, and an entry without one counts
/// as having no file.
pub fn collect_paused_sessions_from_history(history: &[DownloadHistoryEntry]) -> (r: Vec<
    InterruptedDownloadSession,
>)
    ensures
        exists|file_exists: Seq<bool>|
            #[trigger] sessions_found(r@, history@, file_exists) && forall|i: int|
                0 <= i < history@.len() && probe_target(history@[i]) is None ==> !file_exists[i],
{
    let probes = resume_probe_paths(history);
    let n = probes.len();
    let mut flags: Vec<bool> = Vec::new();
    let mut i: usize = 0;
    while i < n
        invariant
            n == probes@.len(),
            n == history@.len(),
            i <= n,
            flags@.len() == i,
            forall|k: int| 0 <= k < probes@.len() ==> opt_text(#[trigger] probes@[k]) == probe_target(history@[k]),
            forall|k: int| 0 <= k < i && probe_target(history@[k]) is None ==> !flags@[k],
        decreases n - i,
    {
        let on_disk = match &probes[i] {
            Some(p) => path_exists(p.as_str()),
            None => false,
        };
        proof {
            assert(opt_text(probes@[i as int]) == probe_target(history@[i as int]));
        }
        flags.push(on_disk);
        i = i + 1;
    }
    let r = paused_sessions_in_history(history, flags.as_slice());
    assert(sessions_found(r@, history@, flags@));
    r
}

/// The positions found are increasing, below `n`, and each is the newest
/// resumable record of its file.
pub proof fn lemma_resumable_positions(h: Seq<DownloadHistoryEntry>, exists: Seq<bool>, n: int)
    requires
        0 <= n <= h.len(),
    ensures
        ({
            let pos = resumable_positions(h, exists, n);
            &&& forall|k: int| 0 <= k < pos.len() ==> 0 <= #[trigger] pos[k] < n
            &&& forall|k: int| 0 <= k < pos.len() ==> newest_resumable(h, exists, #[trigger] pos[k])
            &&& forall|a: int, b: int| 0 <= a < b < pos.len() ==> #[trigger] pos[a] < #[trigger] pos[b]
        }),
    decreases n,
{
    if n > 0 {
        lemma_resumable_positions(h, exists, n - 1);
        let rest = resumable_positions(h, exists, n - 1);
        let pos = resumable_positions(h, exists, n);
        if newest_resumable(h, exists, n - 1) {
            assert(pos == rest.push(n - 1));
            assert forall|k: int| 0 <= k < rest.len() implies pos[k] == rest[k] by {}
            assert(pos[rest.len() as int] == n - 1);
        } else {
            assert(pos == rest);
        }
    }
}

/// No two resumable sessions found in the history are for the same partial file.
pub proof fn law_resumed_sessions_are_distinct(
    r: Seq<InterruptedDownloadSession>,
    history: Seq<DownloadHistoryEntry>,
    file_exists: Seq<bool>,
    a: int,
    b: int,
)
    requires
        sessions_found(r, history, file_exists),
        0 <= a < b < r.len(),
    ensures
        !(r[a].model_id == r[b].model_id && r[a].version_id == r[b].version_id && opt_text(
            r[a].file_path,
        ) == opt_text(r[b].file_path)),
{
    let pos = resumable_positions(history, file_exists, history.len() as int);
    lemma_resumable_positions(history, file_exists, history.len() as int);
    assert(session_from(r[a], history[pos[a]]));
    assert(session_from(r[b], history[pos[b]]));
    assert(pos[a] < pos[b]);
    assert(newest_resumable(history, file_exists, pos[a]));
    assert(newest_resumable(history, file_exists, pos[b]));
}

/// Every session found comes from a resumable pause record whose file is on disk.
pub proof fn law_resumed_sessions_are_resumable(
    r: Seq<InterruptedDownloadSession>,
    history: Seq<DownloadHistoryEntry>,
    file_exists: Seq<bool>,
    k: int,
)
    requires
        sessions_found(r, history, file_exists),
        0 <= k < r.len(),
    ensures
        r[k].downloaded_bytes != 0,
        !(r[k].total_bytes != 0 && r[k].downloaded_bytes >= r[k].total_bytes),
        r[k].file_path is Some,
{
    let pos = resumable_positions(history, file_exists, history.len() as int);
    lemma_resumable_positions(history, file_exists, history.len() as int);
    assert(session_from(r[k], history[pos[k]]));
    assert(newest_resumable(history, file_exists, pos[k]));
}

/// The newest `DOWNLOAD_HISTORY_LIMIT` entries.
pub open spec fn capped_history(h: Seq<DownloadHistoryEntry>) -> Seq<DownloadHistoryEntry> {
    if h.len() > DOWNLOAD_HISTORY_LIMIT {
        h.subrange(h.len() - DOWNLOAD_HISTORY_LIMIT, h.len() as int)
    } else {
        h
    }
}

/// Drops the oldest entries past the history limit.
pub fn keep_recent_history(history: &mut Vec<DownloadHistoryEntry>) -> (dropped: bool)
    ensures
        final(history)@ == capped_history(old(history)@),
        dropped == (old(history)@.len() > DOWNLOAD_HISTORY_LIMIT),
{
    let n = history.len();
    if n > DOWNLOAD_HISTORY_LIMIT {
        let extra = n - DOWNLOAD_HISTORY_LIMIT;
        let kept = history.split_off(extra);
        *history = kept;
        true
    } else {
        false
    }
}

/// An entry that the given filter removes: same model version, and a pause record
/// when `paused_only`.
pub open spec fn drops_entry(e: DownloadHistoryEntry, model_id: u64, version_id: u64, paused_only: bool) -> bool {
    &&& e.model_id == model_id
    &&& e.version_id == version_id
    &&& (paused_only ==> is_paused(e))
}

/// The history without the entries `drops_entry` removes, order kept.
pub open spec fn kept_entries(
    h: Seq<DownloadHistoryEntry>,
    model_id: u64,
    version_id: u64,
    paused_only: bool,
) -> Seq<DownloadHistoryEntry>
    decreases h.len(),
{
    if h.len() == 0 {
        Seq::empty()
    } else {
        let rest = kept_entries(h.drop_last(), model_id, version_id, paused_only);
        if drops_entry(h.last(), model_id, version_id, paused_only) {
            rest
        } else {
            rest.push(h.last())
        }
    }
}

proof fn lemma_kept_entries_push(
    h: Seq<DownloadHistoryEntry>,
    e: DownloadHistoryEntry,
    model_id: u64,
    version_id: u64,
    paused_only: bool,
)
    ensures
        kept_entries(h.push(e), model_id, version_id, paused_only) == if drops_entry(
            e,
            model_id,
            version_id,
            paused_only,
        ) {
            kept_entries(h, model_id, version_id, paused_only)
        } else {
            kept_entries(h, model_id, version_id, paused_only).push(e)
        },
{
    assert(h.push(e).drop_last() =~= h);
}

/// Removes the entries of a model version (only its pause records when
/// `paused_only`) and says how many went.
fn remove_entries_of(
    history: &mut Vec<DownloadHistoryEntry>,
    model_id: u64,
    version_id: u64,
    paused_only: bool,
) -> (removed: usize)
    ensures
        final(history)@ == kept_entries(old(history)@, model_id, version_id, paused_only),
        removed == old(history)@.len() - final(history)@.len(),
{
    let ghost orig = history@;
    let ghost n = orig.len();
    let start_len = history.len();
    let mut i: usize = 0;
    let mut k: usize = 0;
    while i < history.len()
        invariant
            n == orig.len(),
            start_len == n,
            i <= k <= n,
            i <= history@.len(),
            history@.len() - i == n - k,
            history@.subrange(0, i as int) == kept_entries(
                orig.subrange(0, k as int),
                model_id,
                version_id,
                paused_only,
            ),
            history@.subrange(i as int, history@.len() as int) == orig.subrange(k as int, n as int),
        decreases history@.len() - i,
    {
        let ghost before = history@;
        assert(before[i as int] == orig[k as int]) by {
            assert(before.subrange(i as int, before.len() as int)[0] == before[i as int]);
        }
        proof {
            lemma_kept_entries_push(orig.subrange(0, k as int), orig[k as int], model_id, version_id, paused_only);
            assert(orig.subrange(0, k + 1) =~= orig.subrange(0, k as int).push(orig[k as int]));
        }
        let e = &history[i];
        let paused = match e.status {
            DownloadHistoryStatus::Paused => true,
            _ => false,
        };
        if e.model_id == model_id && e.version_id == version_id && (!paused_only || paused) {
            history.remove(i);
            proof {
                assert(history@.subrange(0, i as int) =~= before.subrange(0, i as int));
                assert(history@.subrange(i as int, history@.len() as int) =~= before.subrange(
                    i + 1,
                    before.len() as int,
                ));
                assert(orig.subrange(k + 1, n as int) =~= orig.subrange(k as int, n as int).subrange(1, n - k));
                assert(before.subrange(i + 1, before.len() as int) =~= before.subrange(i as int, before.len() as int).subrange(1, n - k));
            }
        } else {
            i = i + 1;
            proof {
                assert(history@.subrange(0, i as int) =~= before.subrange(0, i - 1).push(before[i - 1]));
                assert(history@.subrange(i as int, history@.len() as int) =~= before.subrange(
                    i - 1,
                    before.len() as int,
                ).subrange(1, n - k));
                assert(orig.subrange(k + 1, n as int) =~= orig.subrange(k as int, n as int).subrange(1, n - k));
            }
        }
        k = k + 1;
    }
    proof {
        assert(orig.subrange(0, n as int) =~= orig);
        assert(history@.subrange(0, i as int) =~= history@);
    }
    start_len - history.len()
}

/// A history line stamped with the time it was recorded.
pub open spec fn stamped(n: NewDownloadHistoryEntry, t: SystemTime) -> DownloadHistoryEntry {
    DownloadHistoryEntry {
        model_id: n.model_id,
        version_id: n.version_id,
        filename: n.filename,
        model_name: n.model_name,
        file_path: n.file_path,
        downloaded_bytes: n.downloaded_bytes,
        total_bytes: n.total_bytes,
        status: n.status,
        created_at: t,
    }
}

/// The pause record of an interrupted session.
pub open spec fn pause_record(s: InterruptedDownloadSession) -> DownloadHistoryEntry {
    DownloadHistoryEntry {
        model_id: s.model_id,
        version_id: s.version_id,
        filename: s.filename,
        model_name: s.model_name,
        file_path: s.file_path,
        downloaded_bytes: s.downloaded_bytes,
        total_bytes: s.total_bytes,
        status: DownloadHistoryStatus::Paused,
        created_at: s.created_at,
    }
}

/// The history after an entry is added: earlier pause records of its model
/// version go, it goes last, and the oldest entries past the limit drop off.
pub open spec fn upserted(h: Seq<DownloadHistoryEntry>, e: DownloadHistoryEntry) -> Seq<
    DownloadHistoryEntry,
> {
    capped_history(kept_entries(h, e.model_id, e.version_id, true).push(e))
}

/// The history position shown for a selection counted from the newest entry.
pub open spec fn history_position(len: int, selected: int) -> Option<int> {
    if len == 0 {
        None
    } else {
        Some(len - 1 - if selected < len - 1 { selected } else { len - 1 })
    }
}

/// The selection after the history changed to `new_len` entries: moved back
/// into bounds when entries were dropped for the limit, else kept.
pub open spec fn selection_after_trim(old_selected: int, dropped: bool, new_len: int) -> int {
    if dropped {
        clamp_index(old_selected, new_len)
    } else {
        old_selected
    }
}

/// Only the download history and its selection changed.
pub open spec fn only_history_changed(a: App, b: App) -> bool {
    &&& same_status_fields(a, b)
    &&& same_screen(a, b)
    &&& a.active_downloads == b.active_downloads
    &&& a.active_download_order == b.active_download_order
    &&& a.selected_download_index == b.selected_download_index
    &&& a.interrupted_download_sessions == b.interrupted_download_sessions
    &&& a.show_resume_download_modal == b.show_resume_download_modal
    &&& a.show_exit_confirm_modal == b.show_exit_confirm_modal
}

fn pause_record_of(s: &InterruptedDownloadSession) -> (e: DownloadHistoryEntry)
    ensures
        e == pause_record(*s),
{
    DownloadHistoryEntry {
        model_id: s.model_id,
        version_id: s.version_id,
        filename: s.filename.clone(),
        model_name: s.model_name.clone(),
        file_path: clone_opt_text(&s.file_path),
        downloaded_bytes: s.downloaded_bytes,
        total_bytes: s.total_bytes,
        status: DownloadHistoryStatus::Paused,
        created_at: s.created_at,
    }
}

impl App {
    /// Moves the history selection back into the history.
    pub fn clamp_selected_history_index(&mut self)
        ensures
            final(self).selected_history_index == clamp_index(
                old(self).selected_history_index as int,
                old(self).download_history@.len() as int,
            ),
            final(self).download_history == old(self).download_history,
            only_history_changed(*old(self), *final(self)),
    {
        if self.download_history.len() == 0 {
            self.selected_history_index = 0;
        } else if self.selected_history_index >= self.download_history.len() {
            self.selected_history_index = self.download_history.len() - 1;
        }
    }

    /// Moves the active-download selection back into the list of downloads.
    pub fn clamp_selected_download_index(&mut self)
        ensures
            final(self).selected_download_index == clamp_index(
                old(self).selected_download_index as int,
                old(self).active_download_order@.len() as int,
            ),
            same_status_fields(*old(self), *final(self)),
            final(self).active_download_order == old(self).active_download_order,
            final(self).active_downloads == old(self).active_downloads,
            final(self).download_history == old(self).download_history,
            final(self).selected_history_index == old(self).selected_history_index,
    {
        if self.active_download_order.len() == 0 {
            self.selected_download_index = 0;
        } else if self.selected_download_index >= self.active_download_order.len() {
            self.selected_download_index = self.active_download_order.len() - 1;
        }
    }

    /// Selects the next active download, stopping at the last one.
    pub fn select_next_download(&mut self)
        ensures
            final(self).selected_download_index == if old(self).selected_download_index + 1 < old(self).active_download_order@.len() {
                old(self).selected_download_index + 1
            } else {
                old(self).selected_download_index as int
            },
            final(self).active_download_order == old(self).active_download_order,
            final(self).download_history == old(self).download_history,
    {
        if self.active_download_order.len() > 0 && self.selected_download_index
            < self.active_download_order.len() - 1 {
            self.selected_download_index = self.selected_download_index + 1;
        }
    }

    /// Selects the previous active download, stopping at the first one.
    pub fn select_previous_download(&mut self)
        ensures
            final(self).selected_download_index == if old(self).selected_download_index > 0 {
                old(self).selected_download_index - 1
            } else {
                0
            },
            final(self).active_download_order == old(self).active_download_order,
    {
        if self.selected_download_index > 0 {
            self.selected_download_index = self.selected_download_index - 1;
        }
    }

    /// Selects the next (older) history entry, stopping at the oldest.
    pub fn select_next_history(&mut self)
        ensures
            final(self).selected_history_index == if old(self).selected_history_index + 1 < old(self).download_history@.len() {
                old(self).selected_history_index + 1
            } else {
                old(self).selected_history_index as int
            },
            final(self).download_history == old(self).download_history,
    {
        if self.download_history.len() > 0 && self.selected_history_index
            < self.download_history.len() - 1 {
            self.selected_history_index = self.selected_history_index + 1;
        }
    }

    /// Selects the previous (newer) history entry, stopping at the newest.
    pub fn select_previous_history(&mut self)
        ensures
            final(self).selected_history_index == if old(self).selected_history_index > 0 {
                old(self).selected_history_index - 1
            } else {
                0
            },
            final(self).download_history == old(self).download_history,
    {
        if self.selected_history_index > 0 {
            self.selected_history_index = self.selected_history_index - 1;
        }
    }

    /// The selected active download, after moving the selection into bounds.
    pub fn selected_download_id(&mut self) -> (r: Option<DownloadKey>)
        ensures
            final(self).selected_download_index == clamp_index(
                old(self).selected_download_index as int,
                old(self).active_download_order@.len() as int,
            ),
            final(self).active_download_order == old(self).active_download_order,
            match r {
                Some(k) => final(self).selected_download_index < final(self).active_download_order@.len() && k == final(self).active_download_order@[final(self).selected_download_index as int],
                None => old(self).active_download_order@.len() == 0,
            },
    {
        self.clamp_selected_download_index();
        if self.active_download_order.len() == 0 {
            return None;
        }
        Some(self.active_download_order[self.selected_download_index].clone())
    }

    /// The history position of the selection, which counts from the newest entry.
    pub fn selected_history_entry_index(&self) -> (r: Option<usize>)
        ensures
            match history_position(
                self.download_history@.len() as int,
                self.selected_history_index as int,
            ) {
                Some(p) => r matches Some(i) && i as int == p,
                None => r is None,
            },
            r matches Some(i) ==> i < self.download_history@.len(),
    {
        let len = self.download_history.len();
        if len == 0 {
            return None;
        }
        let idx = if self.selected_history_index < len - 1 {
            self.selected_history_index
        } else {
            len - 1
        };
        Some(len - 1 - idx)
    }

    /// The selected history entry.
    pub fn selected_download_history_entry(&self) -> (r: Option<&DownloadHistoryEntry>)
        ensures
            match history_position(
                self.download_history@.len() as int,
                self.selected_history_index as int,
            ) {
                Some(p) => r matches Some(e) && *e == self.download_history@[p],
                None => r is None,
            },
    {
        match self.selected_history_entry_index() {
            Some(idx) => Some(&self.download_history[idx]),
            None => None,
        }
    }

    /// Removes the selected history entry and hands it back; the caller saves
    /// the history.
    pub fn remove_selected_history(&mut self) -> (r: Option<DownloadHistoryEntry>)
        ensures
            match history_position(
                old(self).download_history@.len() as int,
                old(self).selected_history_index as int,
            ) {
                Some(p) => {
                    &&& r == Some(old(self).download_history@[p])
                    &&& final(self).download_history@ == old(self).download_history@.remove(p)
                    &&& final(self).selected_history_index == clamp_index(
                        old(self).selected_history_index as int,
                        old(self).download_history@.len() - 1,
                    )
                },
                None => r is None && *final(self) == *old(self),
            },
            only_history_changed(*old(self), *final(self)),
    {
        match self.selected_history_entry_index() {
            Some(idx) => {
                let removed = self.download_history.remove(idx);
                self.clamp_selected_history_index();
                Some(removed)
            },
            None => None,
        }
    }

    /// Records a finished, failed, cancelled or paused download as the newest
    /// history entry, stamped now; the oldest entries past the limit drop off.
    /// The caller saves the history.
    pub fn push_download_history(&mut self, entry: NewDownloadHistoryEntry)
        ensures
            exists|t: SystemTime|
                final(self).download_history@ == capped_history(
                    old(self).download_history@.push(#[trigger] stamped(entry, t)),
                ),
            final(self).selected_history_index == selection_after_trim(
                old(self).selected_history_index as int,
                old(self).download_history@.len() + 1 > DOWNLOAD_HISTORY_LIMIT,
                final(self).download_history@.len() as int,
            ),
            only_history_changed(*old(self), *final(self)),
    {
        let created_at = system_time_now();
        let ghost e = stamped(entry, created_at);
        self.download_history.push(
            DownloadHistoryEntry {
                model_id: entry.model_id,
                version_id: entry.version_id,
                filename: entry.filename,
                model_name: entry.model_name,
                file_path: entry.file_path,
                downloaded_bytes: entry.downloaded_bytes,
                total_bytes: entry.total_bytes,
                status: entry.status,
                created_at,
            },
        );
        let dropped = keep_recent_history(&mut self.download_history);
        if dropped {
            self.clamp_selected_history_index();
        }
        assert(self.download_history@ == capped_history(old(self).download_history@.push(e)));
    }

    /// Adds an entry as the newest one after dropping the pause records of its
    /// model version; the oldest entries past the limit drop off. The caller
    /// saves the history.
    pub fn upsert_download_history(&mut self, entry: DownloadHistoryEntry)
        ensures
            final(self).download_history@ == upserted(old(self).download_history@, entry),
            final(self).selected_history_index == selection_after_trim(
                old(self).selected_history_index as int,
                kept_entries(old(self).download_history@, entry.model_id, entry.version_id, true).len()
                    + 1 > DOWNLOAD_HISTORY_LIMIT,
                final(self).download_history@.len() as int,
            ),
            only_history_changed(*old(self), *final(self)),
    {
        remove_entries_of(&mut self.download_history, entry.model_id, entry.version_id, true);
        self.download_history.push(entry);
        let dropped = keep_recent_history(&mut self.download_history);
        if dropped {
            self.clamp_selected_history_index();
        }
    }

    /// Records an interrupted session as a pause record of its model version.
    pub fn record_interrupted_session_to_history(&mut self, session: &InterruptedDownloadSession)
        ensures
            final(self).download_history@ == upserted(
                old(self).download_history@,
                pause_record(*session),
            ),
            final(self).selected_history_index == selection_after_trim(
                old(self).selected_history_index as int,
                kept_entries(old(self).download_history@, session.model_id, session.version_id, true).len()
                    + 1 > DOWNLOAD_HISTORY_LIMIT,
                final(self).download_history@.len() as int,
            ),
            only_history_changed(*old(self), *final(self)),
    {
        let entry = pause_record_of(session);
        self.upsert_download_history(entry);
    }

    /// Removes every history entry of a model version and says how many went;
    /// the caller saves the history when some did.
    pub fn remove_history_for_session(&mut self, model_id: u64, version_id: u64) -> (removed: usize)
        ensures
            final(self).download_history@ == kept_entries(
                old(self).download_history@,
                model_id,
                version_id,
                false,
            ),
            removed == old(self).download_history@.len() - final(self).download_history@.len(),
            final(self).selected_history_index == if removed > 0 {
                clamp_index(
                    old(self).selected_history_index as int,
                    final(self).download_history@.len() as int,
                )
            } else {
                old(self).selected_history_index as int
            },
            only_history_changed(*old(self), *final(self)),
    {
        let removed = remove_entries_of(&mut self.download_history, model_id, version_id, false);
        if removed > 0 {
            self.clamp_selected_history_index();
        }
        removed
    }

    /// Hides the resume prompt.
    pub fn cancel_resume_download_modal(&mut self)
        ensures
            !final(self).show_resume_download_modal,
            final(self).interrupted_download_sessions == old(self).interrupted_download_sessions,
            final(self).download_history == old(self).download_history,
    {
        self.show_resume_download_modal = false;
    }

    /// Forgets the interrupted sessions and hides the resume prompt; the caller
    /// saves the (now empty) session list.
    pub fn clear_interrupted_download_sessions(&mut self)
        ensures
            final(self).interrupted_download_sessions@.len() == 0,
            !final(self).show_resume_download_modal,
            final(self).download_history == old(self).download_history,
    {
        self.interrupted_download_sessions.clear();
        self.show_resume_download_modal = false;
    }

    /// Hides the exit confirmation.
    pub fn cancel_exit_confirm_modal(&mut self)
        ensures
            !final(self).show_exit_confirm_modal,
            final(self).download_history == old(self).download_history,
    {
        self.show_exit_confirm_modal = false;
    }

    /// Whether some download is in progress.
    pub fn has_active_download(&self) -> (b: bool)
        ensures
            b == (self.active_downloads@.len() > 0),
    {
        self.active_downloads.len() > 0
    }
}

/// The history never holds more than its limit after an entry is added.
pub proof fn law_history_bounded_after_upsert(h: Seq<DownloadHistoryEntry>, e: DownloadHistoryEntry)
    ensures
        upserted(h, e).len() <= DOWNLOAD_HISTORY_LIMIT,
        upserted(h, e).len() > 0,
        upserted(h, e).last() == e,
{
    lemma_kept_entries_len(h, e.model_id, e.version_id, true);
}

/// After an entry is added, it is the only pause record of its model version
/// when it is one, and every other entry of the history was there before.
pub proof fn law_upsert_leaves_one_pause_record(
    h: Seq<DownloadHistoryEntry>,
    e: DownloadHistoryEntry,
    i: int,
)
    requires
        0 <= i < upserted(h, e).len() - 1,
    ensures
        !drops_entry(upserted(h, e)[i], e.model_id, e.version_id, true),
        h.contains(upserted(h, e)[i]),
{
    let kept = kept_entries(h, e.model_id, e.version_id, true);
    lemma_kept_entries_len(h, e.model_id, e.version_id, true);
    lemma_kept_entries_members(h, e.model_id, e.version_id, true);
    let grown = kept.push(e);
    if grown.len() > DOWNLOAD_HISTORY_LIMIT {
        let off = grown.len() - DOWNLOAD_HISTORY_LIMIT;
        assert(upserted(h, e)[i] == grown[i + off]);
        assert(kept[i + off] == grown[i + off]);
    } else {
        assert(upserted(h, e)[i] == kept[i]);
    }
}

/// After the entries of a model version are removed, none is left and all the
/// others are kept.
pub proof fn law_removed_session_leaves_no_entry(
    h: Seq<DownloadHistoryEntry>,
    model_id: u64,
    version_id: u64,
    i: int,
)
    requires
        0 <= i < kept_entries(h, model_id, version_id, false).len(),
    ensures
        !drops_entry(kept_entries(h, model_id, version_id, false)[i], model_id, version_id, false),
        h.contains(kept_entries(h, model_id, version_id, false)[i]),
{
    lemma_kept_entries_members(h, model_id, version_id, false);
}

proof fn lemma_kept_entries_len(h: Seq<DownloadHistoryEntry>, model_id: u64, version_id: u64, paused_only: bool)
    ensures
        kept_entries(h, model_id, version_id, paused_only).len() <= h.len(),
    decreases h.len(),
{
    if h.len() > 0 {
        lemma_kept_entries_len(h.drop_last(), model_id, version_id, paused_only);
    }
}

proof fn lemma_kept_entries_members(
    h: Seq<DownloadHistoryEntry>,
    model_id: u64,
    version_id: u64,
    paused_only: bool,
)
    ensures
        forall|i: int|
            0 <= i < kept_entries(h, model_id, version_id, paused_only).len() ==> {
                let x = #[trigger] kept_entries(h, model_id, version_id, paused_only)[i];
                &&& !drops_entry(x, model_id, version_id, paused_only)
                &&& h.contains(x)
            },
    decreases h.len(),
{
    if h.len() > 0 {
        let t = h.drop_last();
        lemma_kept_entries_members(t, model_id, version_id, paused_only);
        let rest = kept_entries(t, model_id, version_id, paused_only);
        assert forall|i: int|
            0 <= i < kept_entries(h, model_id, version_id, paused_only).len() implies {
            let x = #[trigger] kept_entries(h, model_id, version_id, paused_only)[i];
            &&& !drops_entry(x, model_id, version_id, paused_only)
            &&& h.contains(x)
        } by {
            let x = kept_entries(h, model_id, version_id, paused_only)[i];
            if i < rest.len() {
                assert(x == rest[i]);
                assert(t.contains(x));
                let j = choose|j: int| 0 <= j < t.len() && t[j] == x;
                assert(h[j] == x);
            } else {
                assert(x == h.last());
                assert(h[h.len() - 1] == x);
            }
        }
    }
}

/// Some session in the list is for the same model version.
pub open spec fn has_session_for(list: Seq<InterruptedDownloadSession>, s: InterruptedDownloadSession) -> bool {
    exists|j: int|
        0 <= j < list.len() && #[trigger] list[j].model_id == s.model_id && list[j].version_id
            == s.version_id
}

/// The loaded sessions followed by the first `n` found ones whose model version
/// is not already listed.
pub open spec fn merged_sessions(
    loaded: Seq<InterruptedDownloadSession>,
    found: Seq<InterruptedDownloadSession>,
    n: int,
) -> Seq<InterruptedDownloadSession>
    decreases n,
{
    if n <= 0 {
        loaded
    } else {
        let m = merged_sessions(loaded, found, n - 1);
        if has_session_for(m, found[n - 1]) {
            m
        } else {
            m.push(found[n - 1])
        }
    }
}

fn lists_session_for(list: &Vec<InterruptedDownloadSession>, s: &InterruptedDownloadSession) -> (r: bool)
    ensures
        r == has_session_for(list@, *s),
{
    let mut j: usize = 0;
    while j < list.len()
        invariant
            j <= list@.len(),
            forall|k: int|
                0 <= k < j ==> !(#[trigger] list@[k].model_id == s.model_id && list@[k].version_id
                    == s.version_id),
        decreases list@.len() - j,
    {
        if list[j].model_id == s.model_id && list[j].version_id == s.version_id {
            return true;
        }
        j = j + 1;
    }
    false
}

/// The sessions to offer for resuming: the saved ones, then the ones found in
/// the history for model versions not saved.
pub fn merge_interrupted_sessions(
    loaded: Vec<InterruptedDownloadSession>,
    found: &Vec<InterruptedDownloadSession>,
) -> (r: Vec<InterruptedDownloadSession>)
    ensures
        r@ == merged_sessions(loaded@, found@, found@.len() as int),
{
    let mut r = loaded;
    let ghost l = r@;
    let mut i: usize = 0;
    while i < found.len()
        invariant
            i <= found@.len(),
            r@ == merged_sessions(l, found@, i as int),
        decreases found@.len() - i,
    {
        let s = &found[i];
        if !lists_session_for(&r, s) {
            r.push(s.clone());
        }
        i = i + 1;
    }
    r
}

/// Some pause record in the history is for the session's model version.
pub open spec fn has_pause_record(h: Seq<DownloadHistoryEntry>, s: InterruptedDownloadSession) -> bool {
    exists|j: int|
        0 <= j < h.len() && #[trigger] h[j].model_id == s.model_id && h[j].version_id
            == s.version_id && is_paused(h[j])
}

/// The history after the first `n` sessions without a pause record get one.
pub open spec fn sessions_recorded(
    h: Seq<DownloadHistoryEntry>,
    sessions: Seq<InterruptedDownloadSession>,
    n: int,
) -> Seq<DownloadHistoryEntry>
    decreases n,
{
    if n <= 0 {
        h
    } else {
        let before = sessions_recorded(h, sessions, n - 1);
        if has_pause_record(before, sessions[n - 1]) {
            before
        } else {
            upserted(before, pause_record(sessions[n - 1]))
        }
    }
}

fn history_has_pause_record(h: &Vec<DownloadHistoryEntry>, s: &InterruptedDownloadSession) -> (r: bool)
    ensures
        r == has_pause_record(h@, *s),
{
    let mut j: usize = 0;
    while j < h.len()
        invariant
            j <= h@.len(),
            forall|k: int|
                0 <= k < j ==> !(#[trigger] h@[k].model_id == s.model_id && h@[k].version_id
                    == s.version_id && is_paused(h@[k])),
        decreases h@.len() - j,
    {
        let e = &h[j];
        let paused = match e.status {
            DownloadHistoryStatus::Paused => true,
            _ => false,
        };
        if e.model_id == s.model_id && e.version_id == s.version_id && paused {
            return true;
        }
        j = j + 1;
    }
    false
}

/// The state at start-up, from the saved download history and interrupted
/// sessions: an "Initializing App..." message in the status line and history;
/// the sessions to offer for resuming are the saved ones and those found in the
/// history, and the resume prompt shows when there are any; every such session
/// without a pause record gets one in the history.
pub open spec fn started_from(
    app: App,
    history: Seq<DownloadHistoryEntry>,
    loaded: Seq<InterruptedDownloadSession>,
    found: Seq<InterruptedDownloadSession>,
) -> bool {
    let sessions = merged_sessions(loaded, found, found.len() as int);
    &&& app.status@ == "Initializing App..."@
    &&& app.status_history@.len() == 1
    &&& app.status_history@[0].summary@ == "Initializing App..."@
    &&& app.status_history@[0].level == StatusLevel::Info
    &&& app.status_detail is None
    &&& app.last_error is None
    &&& app.selected_status_history_index == 0
    &&& app.status_history_filter == StatusHistoryFilter::All
    &&& !app.show_status_modal
    &&& !app.show_status_history_modal
    &&& app.interrupted_download_sessions@ == sessions
    &&& app.show_resume_download_modal == (sessions.len() > 0)
    &&& app.download_history@ == sessions_recorded(history, sessions, sessions.len() as int)
    &&& app.active_downloads@.len() == 0
    &&& app.active_download_order@.len() == 0
    &&& app.selected_download_index == 0
    &&& app.selected_history_index == 0
    &&& !app.show_exit_confirm_modal
    &&& app.active_tab == MainTab::Models
    &&& app.mode == AppMode::Browsing
    &&& !app.settings_form.editing
    &&& !app.show_help_modal
    &&& !app.show_image_prompt_modal
    &&& !app.show_image_tags_modal
    &&& !app.show_image_model_detail_modal
    &&& !app.show_like_confirm_modal
    &&& app.image_prompt_scroll == 0
    &&& app.image_tags_scroll == 0
}

impl App {
    /// The state at start-up from the saved download history (already cut to
    /// its limit) and the saved interrupted sessions.
    pub fn new(
        download_history: Vec<DownloadHistoryEntry>,
        loaded_sessions: Vec<InterruptedDownloadSession>,
    ) -> (app: App)
        ensures
            exists|found: Seq<InterruptedDownloadSession>, file_exists: Seq<bool>|
                #[trigger] sessions_found(found, download_history@, file_exists) && started_from(
                    app,
                    download_history@,
                    loaded_sessions@,
                    found,
                ),
    {
        let found = collect_paused_sessions_from_history(download_history.as_slice());
        let ghost fe = choose|file_exists: Seq<bool>| sessions_found(found@, download_history@, file_exists);
        let sessions = merge_interrupted_sessions(loaded_sessions, &found);
        let show_resume_download_modal = sessions.len() > 0;
        let initial = StatusEvent::info("Initializing App...");
        let status = initial.summary.clone();
        let recorded_at = initial.recorded_at;
        let mut status_history: Vec<StatusEvent> = Vec::new();
        status_history.push(initial);
        let mut app = App {
            status,
            status_detail: None,
            status_level: StatusLevel::Info,
            status_recorded_at: recorded_at,
            last_error: None,
            show_status_modal: false,
            show_status_history_modal: false,
            status_history,
            selected_status_history_index: 0,
            status_history_filter: StatusHistoryFilter::All,
            active_downloads: Vec::new(),
            active_download_order: Vec::new(),
            selected_download_index: 0,
            selected_history_index: 0,
            download_history,
            interrupted_download_sessions: sessions,
            show_resume_download_modal,
            show_exit_confirm_modal: false,
            active_tab: MainTab::Models,
            mode: AppMode::Browsing,
            settings_form: SettingsFormState::new(),
            show_help_modal: false,
            show_image_prompt_modal: false,
            show_image_tags_modal: false,
            show_image_model_detail_modal: false,
            show_like_confirm_modal: false,
            image_prompt_scroll: 0,
            image_tags_scroll: 0,
        };
        let ghost h0 = app.download_history@;
        let ghost ss = app.interrupted_download_sessions@;
        let n = app.interrupted_download_sessions.len();
        let mut i: usize = 0;
        while i < n
            invariant
                n == ss.len(),
                i <= n,
                app.interrupted_download_sessions@ == ss,
                app.download_history@ == sessions_recorded(h0, ss, i as int),
                app.selected_history_index == 0,
                app.status@ == "Initializing App..."@,
                app.status_history@.len() == 1,
                app.status_history@[0].summary@ == "Initializing App..."@,
                app.status_history@[0].level == StatusLevel::Info,
                app.status_detail is None,
                app.last_error is None,
                app.selected_status_history_index == 0,
                app.status_history_filter == StatusHistoryFilter::All,
                !app.show_status_modal,
                !app.show_status_history_modal,
                app.show_resume_download_modal == (ss.len() > 0),
                app.active_downloads@.len() == 0,
                app.active_download_order@.len() == 0,
                app.selected_download_index == 0,
                !app.show_exit_confirm_modal,
                app.active_tab == MainTab::Models,
                app.mode == AppMode::Browsing,
                !app.settings_form.editing,
                !app.show_help_modal,
                !app.show_image_prompt_modal,
                !app.show_image_tags_modal,
                !app.show_image_model_detail_modal,
                !app.show_like_confirm_modal,
                app.image_prompt_scroll == 0,
                app.image_tags_scroll == 0,
            decreases n - i,
        {
            let session = app.interrupted_download_sessions[i].clone();
            if !history_has_pause_record(&app.download_history, &session) {
                app.record_interrupted_session_to_history(&session);
            }
            i = i + 1;
        }
        assert(started_from(app, download_history@, loaded_sessions@, found@));
        app
    }
}

/// The download history keeps its newest two hundred entries, in order: a
/// longer history loses its oldest entries down to two hundred, a shorter one
/// stays as it is; after an entry is added it holds at most two hundred.
pub proof fn law_history_keeps_newest_two_hundred(h: Seq<DownloadHistoryEntry>, e: DownloadHistoryEntry)
    ensures
        h.len() > 200 ==> capped_history(h) == h.subrange(h.len() - 200, h.len() as int),
        h.len() <= 200 ==> capped_history(h) == h,
        capped_history(h).len() == if h.len() > 200 { 200 } else { h.len() },
        upserted(h, e).len() <= 200,
{
    law_history_bounded_after_upsert(h, e);
}

} // verus!
