use vstd::prelude::*;

use crate::app::{event_says, status_applied, App};
use crate::chars::{chars_of, decimal, decimal_chars, string_of, trim, trim_chars};
use crate::forms::{AppMode, BookmarkPathAction};
use crate::keys::KeyCode;
use crate::searchform::{pop_char, push_char};
use crate::models::{MediaDelivery, ModelHit};
use crate::savedmodels::{clamped_selection, first_of_each, refreshed, LikedFilter, LikedModels};
use crate::status::{StatusEvent, StatusLevel};

verus! {

/// The prompt for the file that saved models are exported to or imported
/// from: what it is for, the path being typed, and the file chosen last.
pub struct LikedPathPrompt {
    pub action: Option<BookmarkPathAction>,
    pub draft: String,
    pub file_path: Option<String>,
}

/// The text of an optional path.
pub open spec fn path_view(p: Option<String>) -> Option<Seq<char>> {
    match p {
        Some(s) => Some(s@),
        None => None,
    }
}

/// The file in use: the one chosen last, else the configured default.
pub open spec fn effective_path(chosen: Option<String>, default_path: Option<Seq<char>>) -> Option<Seq<char>> {
    match chosen {
        Some(s) => Some(s@),
        None => default_path,
    }
}

/// The file a confirmed prompt acts on: the typed path, trimmed, unless blank,
/// else the file in use.
pub open spec fn prompt_target(draft: Seq<char>, chosen: Option<String>, default_path: Option<Seq<char>>) -> Option<
    Seq<char>,
> {
    if trim(draft).len() > 0 {
        Some(trim(draft))
    } else {
        effective_path(chosen, default_path)
    }
}

/// The status a change was shown with.
pub open spec fn says(a: App, b: App, level: StatusLevel, summary: Seq<char>, detail: Option<Seq<char>>, modal: bool) -> bool {
    exists|e: StatusEvent| event_says(e, level, summary, detail, modal) && #[trigger] status_applied(a, b, e)
}

fn opt_str_view(p: Option<&str>) -> (r: Option<String>)
    ensures
        path_view(r) == match p {
            Some(s) => Some(s@),
            None => None,
        },
{
    match p {
        Some(s) => Some(String::from_str(s)),
        None => None,
    }
}

impl LikedPathPrompt {
    /// No prompt open and no file chosen.
    pub fn new() -> (p: LikedPathPrompt)
        ensures
            p.action is None,
            p.draft@.len() == 0,
            p.file_path is None,
    {
        LikedPathPrompt { action: None, draft: String::new(), file_path: None }
    }

    /// The file in use: the one chosen last, else the configured default.
    pub fn effective_liked_model_file_path(&self, default_path: Option<&str>) -> (r: Option<String>)
        ensures
            path_view(r) == effective_path(self.file_path, match default_path {
                Some(s) => Some(s@),
                None => None,
            }),
    {
        match &self.file_path {
            Some(p) => Some(p.clone()),
            None => opt_str_view(default_path),
        }
    }

    /// Remembers the file chosen.
    pub fn set_liked_model_file_path(&mut self, path: String)
        ensures
            *final(self) == (LikedPathPrompt { file_path: Some(path), ..*old(self) }),
    {
        self.file_path = Some(path);
    }

    /// Whether the open prompt is for an export.
    pub fn is_liked_model_export_prompt(&self) -> (b: bool)
        ensures
            b == (self.action == Some(BookmarkPathAction::Export)),
    {
        match self.action {
            Some(BookmarkPathAction::Export) => true,
            _ => false,
        }
    }
}

impl App {
    fn begin_liked_path_prompt(&mut self, p: &mut LikedPathPrompt, action: BookmarkPathAction, default_path: Option<&str>)
        ensures
            final(p).draft@ == match effective_path(old(p).file_path, match default_path {
                Some(s) => Some(s@),
                None => None,
            }) {
                Some(s) => s,
                None => Seq::empty(),
            },
            final(p).action == Some(action),
            final(p).file_path == old(p).file_path,
            says(
                *old(self),
                App { mode: old(self).mode, ..*final(self) },
                StatusLevel::Info,
                if action == BookmarkPathAction::Export {
                    "Liked export path. Enter to confirm, Esc to cancel."@
                } else {
                    "Liked import path. Enter to confirm, Esc to cancel."@
                },
                None,
                false,
            ),
            final(self).mode == AppMode::BookmarkPathPrompt,
    {
        p.draft = match p.effective_liked_model_file_path(default_path) {
            Some(s) => s,
            None => String::new(),
        };
        p.action = Some(action);
        let ghost before = *self;
        match action {
            BookmarkPathAction::Export => self.set_status("Liked export path. Enter to confirm, Esc to cancel."),
            BookmarkPathAction::Import => self.set_status("Liked import path. Enter to confirm, Esc to cancel."),
        }
        let ghost shown = *self;
        self.mode = AppMode::BookmarkPathPrompt;
        assert(App { mode: before.mode, ..*self } == shown);
    }

    /// Opens the prompt for the file to export saved models to, filled with
    /// the file in use.
    pub fn begin_liked_model_export_prompt(&mut self, p: &mut LikedPathPrompt, default_path: Option<&str>)
        ensures
            final(p).draft@ == match effective_path(old(p).file_path, match default_path {
                Some(s) => Some(s@),
                None => None,
            }) {
                Some(s) => s,
                None => Seq::empty(),
            },
            final(p).action == Some(BookmarkPathAction::Export),
            final(p).file_path == old(p).file_path,
            says(
                *old(self),
                App { mode: old(self).mode, ..*final(self) },
                StatusLevel::Info,
                "Liked export path. Enter to confirm, Esc to cancel."@,
                None,
                false,
            ),
            final(self).mode == AppMode::BookmarkPathPrompt,
    {
        self.begin_liked_path_prompt(p, BookmarkPathAction::Export, default_path);
    }

    /// Opens the prompt for the file to import saved models from, filled with
    /// the file in use.
    pub fn begin_liked_model_import_prompt(&mut self, p: &mut LikedPathPrompt, default_path: Option<&str>)
        ensures
            final(p).draft@ == match effective_path(old(p).file_path, match default_path {
                Some(s) => Some(s@),
                None => None,
            }) {
                Some(s) => s,
                None => Seq::empty(),
            },
            final(p).action == Some(BookmarkPathAction::Import),
            final(p).file_path == old(p).file_path,
            says(
                *old(self),
                App { mode: old(self).mode, ..*final(self) },
                StatusLevel::Info,
                "Liked import path. Enter to confirm, Esc to cancel."@,
                None,
                false,
            ),
            final(self).mode == AppMode::BookmarkPathPrompt,
    {
        self.begin_liked_path_prompt(p, BookmarkPathAction::Import, default_path);
    }

    /// Closes the prompt without acting, saying so.
    pub fn cancel_liked_model_path_prompt(&mut self, p: &mut LikedPathPrompt)
        ensures
            *final(p) == (LikedPathPrompt { action: None, ..*old(p) }),
            final(self).mode == AppMode::Browsing,
            says(
                *old(self),
                App { mode: old(self).mode, ..*final(self) },
                StatusLevel::Info,
                "Liked path input cancelled."@,
                None,
                false,
            ),
    {
        p.action = None;
        let ghost before = *self;
        self.set_status("Liked path input cancelled.");
        let ghost shown = *self;
        self.mode = AppMode::Browsing;
        assert(App { mode: before.mode, ..*self } == shown);
    }

    /// Confirms the prompt: it closes, and the export or import it was for is
    /// handed back with its file — the typed path, trimmed, else the file in
    /// use — which becomes the file chosen. Without a file, a warning says so;
    /// without an open prompt nothing more happens.
    pub fn apply_liked_model_path_prompt(&mut self, p: &mut LikedPathPrompt, default_path: Option<&str>) -> (r: Option<
        (BookmarkPathAction, String),
    >)
        ensures
            final(self).mode == AppMode::Browsing,
            final(p).action is None,
            final(p).draft == old(p).draft,
            ({
                let target = prompt_target(old(p).draft@, old(p).file_path, match default_path {
                    Some(s) => Some(s@),
                    None => None,
                });
                match old(p).action {
                    None => r is None && final(p).file_path == old(p).file_path && *final(self) == (App {
                        mode: AppMode::Browsing,
                        ..*old(self)
                    }),
                    Some(action) => match target {
                        None => {
                            &&& r is None
                            &&& final(p).file_path == old(p).file_path
                            &&& says(
                                App { mode: AppMode::Browsing, ..*old(self) },
                                *final(self),
                                StatusLevel::Warn,
                                "No liked model file path configured."@,
                                None,
                                false,
                            )
                        },
                        Some(t) => {
                            &&& r matches Some((a, path)) && a == action && path@ == t
                            &&& path_view(final(p).file_path) == Some(t)
                            &&& *final(self) == (App { mode: AppMode::Browsing, ..*old(self) })
                        },
                    },
                }
            }),
    {
        let action = match p.action {
            Some(a) => a,
            None => {
                self.mode = AppMode::Browsing;
                return None;
            },
        };
        p.action = None;
        self.mode = AppMode::Browsing;
        let trimmed = trim_chars(&chars_of(p.draft.as_str()));
        let target = if trimmed.len() > 0 {
            Some(string_of(trimmed.as_slice()))
        } else {
            p.effective_liked_model_file_path(default_path)
        };
        match target {
            None => {
                self.set_warn("No liked model file path configured.");
                None
            },
            Some(t) => {
                p.set_liked_model_file_path(t.clone());
                Some((action, t))
            },
        }
    }

    /// Says how exporting `count` saved models to a file went: an error opens
    /// the status window.
    pub fn note_liked_export(&mut self, count: usize, path: &str, error: Option<&str>)
        ensures
            match error {
                Some(e) => says(*old(self), *final(self), StatusLevel::Error, "Failed to export liked models"@, Some(e@), true),
                None => says(
                    *old(self),
                    *final(self),
                    StatusLevel::Info,
                    "Exported "@ + decimal(count as nat) + " liked models"@,
                    Some("Destination: "@ + path@),
                    false,
                ),
            },
    {
        match error {
            Some(e) => self.set_error("Failed to export liked models", e),
            None => {
                let mut summary = String::from_str("Exported ");
                summary.append(string_of(decimal_chars(count as u64).as_slice()).as_str());
                summary.append(" liked models");
                let mut detail = String::from_str("Destination: ");
                detail.append(path);
                self.set_status_detail(summary.as_str(), detail.as_str());
            },
        }
    }

    /// Adds the saved models read from a file: those of an id already saved
    /// are left out, the list is shown again and its selection kept on it, and
    /// the status line says how many were new; a warning when the file held
    /// none. Hands back whether the saved models are to be written back.
    pub fn import_liked_models(
        &mut self,
        liked: &mut LikedModels,
        imported: Vec<ModelHit>,
        f: &LikedFilter,
        delivery: &MediaDelivery,
    ) -> (changed: bool)
        ensures
            changed == (imported@.len() > 0),
            imported@.len() == 0 ==> *final(liked) == *old(liked) && says(
                *old(self),
                *final(self),
                StatusLevel::Warn,
                "No liked models found in import file."@,
                None,
                false,
            ),
            imported@.len() > 0 ==> {
                let all = first_of_each(old(liked).liked_models@ + imported@);
                let before = old(liked).liked_models@.len();
                &&& final(liked).liked_models@ == all
                &&& refreshed(
                    LikedModels { liked_models: final(liked).liked_models, ..*old(liked) },
                    *final(liked),
                    *f,
                    delivery.base_url@,
                    delivery.namespace@,
                )
                &&& final(liked).selected == clamped_selection(
                    old(liked).selected,
                    final(liked).visible_liked_models_cache@.len(),
                )
                &&& final(liked).pending_liked_model_remove_id == old(liked).pending_liked_model_remove_id
                &&& if all.len() > before {
                    says(
                        *old(self),
                        *final(self),
                        StatusLevel::Info,
                        "Imported "@ + decimal((all.len() - before) as nat) + " new liked model(s)."@,
                        None,
                        false,
                    )
                } else {
                    says(*old(self), *final(self), StatusLevel::Info, "Import completed, no new liked models."@, None, false)
                }
            },
    {
        if imported.len() == 0 {
            self.set_warn("No liked models found in import file.");
            return false;
        }
        let before = liked.liked_models.len();
        let mut incoming = imported;
        liked.liked_models.append(&mut incoming);
        liked.deduplicate_liked_models();
        liked.refresh_visible_liked_models_cache(f, delivery);
        liked.clamp_liked_model_selection();
        let after = liked.liked_models.len();
        if after > before {
            let mut text = String::from_str("Imported ");
            text.append(string_of(decimal_chars((after - before) as u64).as_slice()).as_str());
            text.append(" new liked model(s).");
            self.set_status(text.as_str());
        } else {
            self.set_status("Import completed, no new liked models.");
        }
        true
    }
}

impl App {
    /// A key in the path prompt: Esc cancels it, Enter confirms it (handing
    /// back what to do, see `apply_liked_model_path_prompt`), a character is
    /// typed and Backspace removes the last one.
    pub fn handle_liked_path_prompt_key(
        &mut self,
        p: &mut LikedPathPrompt,
        code: KeyCode,
        default_path: Option<&str>,
    ) -> (r: Option<(BookmarkPathAction, String)>)
        ensures
            match code {
                KeyCode::Char(c) => r is None && *final(self) == *old(self) && final(p).draft@ == old(p).draft@.push(c)
                    && final(p).action == old(p).action && final(p).file_path == old(p).file_path,
                KeyCode::Backspace => r is None && *final(self) == *old(self) && final(p).draft@ == (if old(p).draft@.len()
                    > 0 {
                    old(p).draft@.drop_last()
                } else {
                    old(p).draft@
                }) && final(p).action == old(p).action && final(p).file_path == old(p).file_path,
                KeyCode::Esc => r is None && *final(p) == (LikedPathPrompt { action: None, ..*old(p) })
                    && final(self).mode == AppMode::Browsing && says(
                    *old(self),
                    App { mode: old(self).mode, ..*final(self) },
                    StatusLevel::Info,
                    "Liked path input cancelled."@,
                    None,
                    false,
                ),
                KeyCode::Enter => final(self).mode == AppMode::Browsing && final(p).action is None && match old(p).action {
                    None => r is None,
                    Some(action) => match prompt_target(old(p).draft@, old(p).file_path, match default_path {
                        Some(s) => Some(s@),
                        None => None,
                    }) {
                        None => r is None,
                        Some(t) => r matches Some((a, path)) && a == action && path@ == t,
                    },
                },
                _ => r is None && *final(self) == *old(self) && *final(p) == *old(p),
            },
    {
        match code {
            KeyCode::Esc => {
                self.cancel_liked_model_path_prompt(p);
                None
            },
            KeyCode::Enter => self.apply_liked_model_path_prompt(p, default_path),
            KeyCode::Char(c) => {
                p.draft = push_char(&p.draft, c);
                None
            },
            KeyCode::Backspace => {
                p.draft = pop_char(&p.draft);
                None
            },
            _ => None,
        }
    }
}

} // verus!
