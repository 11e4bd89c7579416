use vstd::prelude::*;

use crate::app::App;
use crate::chars::{decimal, decimal_chars, string_of};
use crate::forms::MainTab;
use crate::image::ParsedUsedModel;
use crate::searchform::ImageSearchFormState;

verus! {

/// The settings as the editor shows them: the values of the configuration
/// that its fields edit.
pub struct SettingsValues {
    pub api_key: Option<String>,
    pub comfyui_path: Option<String>,
    pub liked_model_file_path: Option<String>,
    pub model_search_cache_path: Option<String>,
    pub model_search_cache_ttl_hours: u64,
    pub image_cache_path: Option<String>,
    pub image_search_cache_ttl_minutes: u64,
    pub image_detail_cache_ttl_minutes: u64,
    pub image_cache_ttl_minutes: u64,
    pub download_history_file_path: Option<String>,
}

/// An optional text, empty when absent.
pub open spec fn or_empty(s: Option<String>) -> Seq<char> {
    match s {
        Some(v) => v@,
        None => Seq::empty(),
    }
}

/// The text a settings field starts editing from.
pub open spec fn field_text(field: usize, v: SettingsValues) -> Seq<char> {
    if field == 0 {
        or_empty(v.api_key)
    } else if field == 1 {
        or_empty(v.comfyui_path)
    } else if field == 2 {
        or_empty(v.liked_model_file_path)
    } else if field == 3 {
        or_empty(v.model_search_cache_path)
    } else if field == 5 {
        or_empty(v.image_cache_path)
    } else if field == 6 {
        decimal(v.image_search_cache_ttl_minutes as nat)
    } else if field == 7 {
        decimal(v.image_detail_cache_ttl_minutes as nat)
    } else if field == 8 {
        decimal(v.image_cache_ttl_minutes as nat)
    } else if field == 11 {
        or_empty(v.download_history_file_path)
    } else if field == 9 || field == 10 || field == 12 {
        Seq::empty()
    } else {
        decimal(v.model_search_cache_ttl_hours as nat)
    }
}

/// What Enter does on the settings tab.
#[derive(Clone, Copy, Debug, PartialEq, Eq, Structural)]
pub enum SettingsEnter {
    /// Move to the next media quality and save the configuration.
    NextMediaQuality,
    /// Toggle debug logging and save the configuration.
    ToggleDebugLogging,
    /// Clear every cache.
    ClearCaches,
    /// The field is being edited.
    Editing,
}

fn text_or_empty(s: &Option<String>) -> (r: String)
    ensures
        r@ == or_empty(*s),
{
    match s {
        Some(v) => v.clone(),
        None => String::new(),
    }
}

fn number_text(n: u64) -> (r: String)
    ensures
        r@ == decimal(n as nat),
{
    string_of(decimal_chars(n).as_slice())
}

impl App {
    /// Enter on the settings tab: field 9 and 10 ask for the media quality to
    /// move on or debug logging to toggle; field 12 clears the caches, saying
    /// so; any other field starts being edited from its current value.
    pub fn enter_settings_field(&mut self, values: &SettingsValues) -> (r: SettingsEnter)
        ensures
            ({
                let field = old(self).settings_form.focused_field;
                if field == 9 {
                    r == SettingsEnter::NextMediaQuality && *final(self) == *old(self)
                } else if field == 10 {
                    r == SettingsEnter::ToggleDebugLogging && *final(self) == *old(self)
                } else if field == 12 {
                    &&& r == SettingsEnter::ClearCaches
                    &&& final(self).status@ == "Clearing cache storage..."@
                    &&& *final(self) == (App { status: final(self).status, ..*old(self) })
                } else {
                    &&& r == SettingsEnter::Editing
                    &&& final(self).settings_form.editing
                    &&& final(self).settings_form.input_buffer@ == field_text(field, *values)
                    &&& final(self).settings_form.focused_field == field
                    &&& *final(self) == (App { settings_form: final(self).settings_form, ..*old(self) })
                }
            }),
    {
        let field = self.settings_form.focused_field;
        if field == 9 {
            return SettingsEnter::NextMediaQuality;
        }
        if field == 10 {
            return SettingsEnter::ToggleDebugLogging;
        }
        if field == 12 {
            self.status = String::from_str("Clearing cache storage...");
            return SettingsEnter::ClearCaches;
        }
        let text = if field == 0 {
            text_or_empty(&values.api_key)
        } else if field == 1 {
            text_or_empty(&values.comfyui_path)
        } else if field == 2 {
            text_or_empty(&values.liked_model_file_path)
        } else if field == 3 {
            text_or_empty(&values.model_search_cache_path)
        } else if field == 5 {
            text_or_empty(&values.image_cache_path)
        } else if field == 6 {
            number_text(values.image_search_cache_ttl_minutes)
        } else if field == 7 {
            number_text(values.image_detail_cache_ttl_minutes)
        } else if field == 8 {
            number_text(values.image_cache_ttl_minutes)
        } else if field == 11 {
            text_or_empty(&values.download_history_file_path)
        } else {
            number_text(values.model_search_cache_ttl_hours)
        };
        self.settings_form.editing = true;
        self.settings_form.input_buffer = text;
        SettingsEnter::Editing
    }

    /// The configuration was saved after a quick setting changed, or failed
    /// to be: a failure is remembered and the status window opened; on success
    /// the remembered error is forgotten when `forget_error` (the media
    /// quality) and kept otherwise (debug logging).
    pub fn note_quick_setting_saved(&mut self, error: Option<&str>, forget_error: bool)
        ensures
            match error {
                Some(e) => {
                    &&& final(self).last_error matches Some(x) && x@ == "Failed to save config: "@ + e@
                    &&& *final(self) == (App {
                        last_error: final(self).last_error,
                        show_status_modal: true,
                        ..*old(self)
                    })
                },
                None => *final(self) == (App {
                    last_error: if forget_error { None } else { old(self).last_error },
                    ..*old(self)
                }),
            },
    {
        match error {
            Some(e) => {
                let mut text = String::from_str("Failed to save config: ");
                text.append(e);
                self.last_error = Some(text);
                self.show_status_modal = true;
            },
            None => {
                if forget_error {
                    self.last_error = None;
                }
            },
        }
    }

    /// Enter on a model the selected image used: a model that can be opened
    /// opens its detail window and is handed back to be fetched (its id, its
    /// version, and the name to search it by — its query name, else its
    /// label), the status line naming it; one without an id says so. Nothing
    /// happens for one that cannot be opened.
    pub fn open_image_used_model(&mut self, m: &ParsedUsedModel) -> (r: Option<(u64, Option<u64>, String)>)
        ensures
            !m.navigable ==> r is None && *final(self) == *old(self),
            m.navigable && m.model_id is None ==> r is None && final(self).status@
                == "Selected model item has no model id."@ && *final(self) == (App {
                status: final(self).status,
                ..*old(self)
            }),
            m.navigable && m.model_id is Some ==> {
                &&& r matches Some((id, version, name)) && id == m.model_id->0 && version == m.version_id
                    && name@ == match m.query_name {
                    Some(q) => q@,
                    None => m.label@,
                }
                &&& final(self).status@ == "Opening model details: "@ + m.label@
                &&& *final(self) == (App {
                    status: final(self).status,
                    show_image_model_detail_modal: true,
                    ..*old(self)
                })
            },
    {
        if !m.navigable {
            return None;
        }
        match m.model_id {
            Some(id) => {
                self.show_image_model_detail_modal = true;
                let name = match &m.query_name {
                    Some(q) => q.clone(),
                    None => m.label.clone(),
                };
                let mut text = String::from_str("Opening model details: ");
                text.append(m.label.as_str());
                self.status = text;
                Some((id, m.version_id, name))
            },
            None => {
                self.status = String::from_str("Selected model item has no model id.");
                None
            },
        }
    }

    /// Enter on a model: with a version to open, the image search is linked to
    /// it and the images tab shown — with a worker to ask, the status line
    /// says the images are being opened, and true is handed back for the
    /// caller to start the image feed over; without a version the status line
    /// says so.
    pub fn open_images_for_version<S, M, B, A>(
        &mut self,
        form: &mut ImageSearchFormState<S, M, B, A>,
        version_id: Option<u64>,
        worker_ready: bool,
    ) -> (started: bool)
        ensures
            match version_id {
                Some(v) => {
                    &&& *final(form) == (ImageSearchFormState { linked_model_version_id: Some(v), ..*old(form) })
                    &&& started == worker_ready
                    &&& final(self).active_tab == MainTab::Images
                    &&& if worker_ready {
                        &&& final(self).status@ == "Opening images for model version "@ + decimal(v as nat) + "..."@
                        &&& *final(self) == (App {
                            active_tab: MainTab::Images,
                            status: final(self).status,
                            ..*old(self)
                        })
                    } else {
                        *final(self) == (App { active_tab: MainTab::Images, ..*old(self) })
                    }
                },
                None => {
                    &&& !started
                    &&& *final(form) == *old(form)
                    &&& final(self).status@ == "Selected model has no model version id to open images."@
                    &&& *final(self) == (App { status: final(self).status, ..*old(self) })
                },
            },
    {
        match version_id {
            Some(v) => {
                form.linked_model_version_id = Some(v);
                self.active_tab = MainTab::Images;
                if worker_ready {
                    let mut text = String::from_str("Opening images for model version ");
                    text.append(number_text(v).as_str());
                    text.append("...");
                    self.status = text;
                }
                worker_ready
            },
            None => {
                self.status = String::from_str("Selected model has no model version id to open images.");
                false
            },
        }
    }
}

} // verus!
