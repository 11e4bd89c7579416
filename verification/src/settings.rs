use vstd::prelude::*;

use crate::app::App;
use crate::chars::{chars_of, is_blank, is_blank_chars, string_of, trim, trim_chars};
use crate::keys::KeyCode;
use crate::searchform::{pop_char, push_char};

verus! {

/// The value of a run of decimal digits.
pub open spec fn digits_value(d: Seq<char>) -> nat
    decreases d.len(),
{
    if d.len() == 0 {
        0
    } else {
        digits_value(d.drop_last()) * 10 + ((d.last() as u32) - ('0' as u32)) as nat
    }
}

/// A decimal digit.
pub open spec fn is_digit(c: char) -> bool {
    '0' <= c && c <= '9'
}

/// A text without its leading `+`, if it has one.
pub open spec fn unsigned_part(s: Seq<char>) -> Seq<char> {
    if s.len() > 0 && s[0] == '+' { s.drop_first() } else { s }
}

/// Every character is a decimal digit.
pub open spec fn all_digits(d: Seq<char>) -> bool {
    forall|i: int| 0 <= i < d.len() ==> is_digit(#[trigger] d[i])
}

/// What `str::parse::<u64>` gives: an optional `+`, then one or more decimal
/// digits whose value fits in a `u64`; none otherwise.
pub open spec fn parsed_u64(s: Seq<char>) -> Option<u64> {
    let d = unsigned_part(s);
    if d.len() == 0 || !all_digits(d) {
        None
    } else if digits_value(d) <= u64::MAX {
        Some(digits_value(d) as u64)
    } else {
        None
    }
}

proof fn lemma_digits_value_grows(d: Seq<char>, k: int)
    requires
        0 <= k <= d.len(),
        forall|i: int| 0 <= i < d.len() ==> is_digit(#[trigger] d[i]),
    ensures
        digits_value(d.subrange(0, k)) <= digits_value(d),
    decreases d.len() - k,
{
    if k < d.len() {
        lemma_digits_value_grows(d, k + 1);
        assert(d.subrange(0, k + 1).drop_last() =~= d.subrange(0, k));
    } else {
        assert(d.subrange(0, k) =~= d);
    }
}

/// Parses a whole number as `str::parse::<u64>` does.
pub fn parse_u64(s: &Vec<char>) -> (r: Option<u64>)
    ensures
        r == parsed_u64(s@),
{
    let start: usize = if s.len() > 0 && s[0] == '+' {
        1
    } else {
        0
    };
    let ghost d = unsigned_part(s@);
    assert(d =~= s@.subrange(start as int, s@.len() as int));
    if start == s.len() {
        return None;
    }
    let mut i: usize = start;
    while i < s.len()
        invariant
            start <= i <= s@.len(),
            d =~= s@.subrange(start as int, s@.len() as int),
            d == unsigned_part(s@),
            forall|k: int| 0 <= k < i - start ==> is_digit(#[trigger] d[k]),
        decreases s@.len() - i,
    {
        if !('0' <= s[i] && s[i] <= '9') {
            assert(d[i - start] == s@[i as int]);
            assert(!is_digit(d[i - start]));
            assert(!all_digits(d));
            return None;
        }
        i = i + 1;
    }
    let mut v: u64 = 0;
    let mut j: usize = start;
    while j < s.len()
        invariant
            start <= j <= s@.len(),
            d =~= s@.subrange(start as int, s@.len() as int),
            d == unsigned_part(s@),
            forall|k: int| 0 <= k < d.len() ==> is_digit(#[trigger] d[k]),
            v == digits_value(d.subrange(0, j - start)),
        decreases s@.len() - j,
    {
        assert(s@[j as int] == d[j - start]);
        assert(is_digit(s@[j as int]));
        let digit: u64 = ((s[j] as u32) - ('0' as u32)) as u64;
        proof {
            assert(d.subrange(0, j - start + 1).drop_last() =~= d.subrange(0, j - start));
            assert(d.subrange(0, j - start + 1).last() == s@[j as int]);
        }
        if v > (u64::MAX - digit) / 10 {
            proof {
                lemma_digits_value_grows(d, j - start + 1);
                assert(digits_value(d.subrange(0, j - start + 1)) > u64::MAX) by (nonlinear_arith)
                    requires
                        v > (u64::MAX - digit) / 10,
                        digits_value(d.subrange(0, j - start + 1)) == v * 10 + digit,
                        digit <= 9,
                ;
                assert(digits_value(d) > u64::MAX);

            }
            return None;
        }
        assert(v * 10 + digit <= u64::MAX) by (nonlinear_arith)
            requires
                v <= (u64::MAX - digit) / 10,
                digit <= 9,
        ;
        v = v * 10 + digit;
        j = j + 1;
    }
    assert(d.subrange(0, d.len() as int) =~= d);
    Some(v)
}

/// A change to the settings that the Enter key asks for, for the caller to
/// make to the configuration and save.
pub enum SettingsChange {
    ApiKey(Option<String>),
    ComfyuiPath(Option<String>),
    LikedModelFile(Option<String>),
    ModelSearchCacheDir(Option<String>),
    ModelSearchCacheTtlHours(u64),
    ImageCacheDir(Option<String>),
    ImageSearchCacheTtlMinutes(u64),
    ImageDetailCacheTtlMinutes(u64),
    ImageCacheTtlMinutes(u64),
    NextMediaQuality,
    ToggleDebugLogging,
    DownloadHistoryFile(Option<String>),
    /// The field has no setting; the configuration is saved as it is.
    Unchanged,
}

/// What a key in the settings editor leaves to the caller.
pub enum SettingsStep {
    Nothing,
    /// Clear every cache.
    ClearCaches,
    /// Check the ComfyUI path with the configuration; on success apply it
    /// and save.
    CheckComfyuiPath(String),
    /// Apply the change and save the configuration.
    Save(SettingsChange),
}

/// The buffer as a path setting: none when it is empty.
pub open spec fn path_setting(buffer: Seq<char>) -> Option<Seq<char>> {
    if buffer.len() == 0 { None } else { Some(buffer) }
}

/// A positive number of hours or minutes.
pub open spec fn positive(buffer: Seq<char>) -> Option<u64> {
    match parsed_u64(trim(buffer)) {
        Some(v) => if v > 0 { Some(v) } else { None },
        None => None,
    }
}

/// The text of an optional setting.
pub open spec fn opt_setting(s: Option<String>) -> Option<Seq<char>> {
    match s {
        Some(v) => Some(v@),
        None => None,
    }
}

/// A number setting the buffer does not hold: the error to remember and the
/// status line to show.
pub open spec fn invalid_number(field: usize) -> Option<(Seq<char>, Seq<char>)> {
    if field == 4 {
        Some(("Cache TTL must be a positive integer"@, "Invalid cache TTL value"@))
    } else if field == 6 {
        Some(("Image search cache TTL must be a positive integer"@, "Invalid image search cache TTL value"@))
    } else if field == 7 {
        Some(("Image detail cache TTL must be a positive integer"@, "Invalid image detail cache TTL value"@))
    } else {
        Some(("Image cache TTL must be a non-negative integer"@, "Invalid image cache TTL value"@))
    }
}

/// What Enter asks for on a settings field, given its buffer: field 12 clears
/// the caches; 0 sets the API key; 1 the ComfyUI path (to be checked, unless
/// blank); 2 the liked-model file; 3 the search cache folder; 4 its lifetime
/// in hours; 5 the image cache folder; 6, 7 and 8 lifetimes in minutes (8 may
/// be zero); 9 moves to the next media quality; 10 toggles debug logging; 11
/// sets the download history file. Empty buffers clear path settings. None
/// when a number does not parse.
pub open spec fn enter_step_ok(field: usize, buffer: Seq<char>, step: SettingsStep) -> bool {
    if field == 12 {
        step is ClearCaches
    } else if field == 1 {
        if is_blank(buffer) {
            step matches SettingsStep::Save(SettingsChange::ComfyuiPath(p)) && p is None
        } else {
            step matches SettingsStep::CheckComfyuiPath(p) && p@ == trim(buffer)
        }
    } else {
        step matches SettingsStep::Save(c) && match c {
            SettingsChange::ApiKey(v) => field == 0 && opt_setting(v) == path_setting(buffer),
            SettingsChange::LikedModelFile(v) => field == 2 && opt_setting(v) == path_setting(buffer),
            SettingsChange::ModelSearchCacheDir(v) => field == 3 && opt_setting(v) == path_setting(buffer),
            SettingsChange::ModelSearchCacheTtlHours(v) => field == 4 && positive(buffer) == Some(v),
            SettingsChange::ImageCacheDir(v) => field == 5 && opt_setting(v) == path_setting(buffer),
            SettingsChange::ImageSearchCacheTtlMinutes(v) => field == 6 && positive(buffer) == Some(v),
            SettingsChange::ImageDetailCacheTtlMinutes(v) => field == 7 && positive(buffer) == Some(v),
            SettingsChange::ImageCacheTtlMinutes(v) => field == 8 && parsed_u64(trim(buffer)) == Some(v),
            SettingsChange::NextMediaQuality => field == 9,
            SettingsChange::ToggleDebugLogging => field == 10,
            SettingsChange::DownloadHistoryFile(v) => field == 11 && opt_setting(v) == path_setting(buffer),
            SettingsChange::Unchanged => field > 12,
            _ => false,
        }
    }
}

/// The number on a field does not parse (or is zero where it must be positive).
pub open spec fn number_rejected(field: usize, buffer: Seq<char>) -> bool {
    ||| (field == 4 || field == 6 || field == 7) && positive(buffer) is None
    ||| field == 8 && parsed_u64(trim(buffer)) is None
}

fn buffer_setting(buffer: &String) -> (r: Option<String>)
    ensures
        opt_setting(r) == path_setting(buffer@),
{
    if chars_of(buffer.as_str()).len() == 0 {
        None
    } else {
        Some(buffer.clone())
    }
}

fn positive_number(buffer: &String) -> (r: Option<u64>)
    ensures
        r == positive(buffer@),
{
    match parse_u64(&trim_chars(&chars_of(buffer.as_str()))) {
        Some(v) => if v > 0 {
            Some(v)
        } else {
            None
        },
        None => None,
    }
}

impl App {
    /// Handles a key while a settings field is being edited: Escape stops
    /// editing; a character or Backspace edits the buffer; Enter asks for the
    /// field's change (see `enter_step_ok`), saying `Clearing cache
    /// storage...` for field 12, or, when a number does not parse, remembers
    /// the error, opens the status window and keeps editing.
    pub fn handle_settings_edit_key(&mut self, code: KeyCode) -> (r: SettingsStep)
        ensures
            match code {
                KeyCode::Esc => r is Nothing && *final(self) == (App {
                    settings_form: crate::forms::SettingsFormState { editing: false, ..old(self).settings_form },
                    ..*old(self)
                }),
                KeyCode::Char(c) => r is Nothing && *final(self) == (App {
                    settings_form: crate::forms::SettingsFormState {
                        input_buffer: final(self).settings_form.input_buffer,
                        ..old(self).settings_form
                    },
                    ..*old(self)
                }) && final(self).settings_form.input_buffer@ == old(self).settings_form.input_buffer@.push(c),
                KeyCode::Backspace => r is Nothing && *final(self) == (App {
                    settings_form: crate::forms::SettingsFormState {
                        input_buffer: final(self).settings_form.input_buffer,
                        ..old(self).settings_form
                    },
                    ..*old(self)
                }) && final(self).settings_form.input_buffer@ == if old(self).settings_form.input_buffer@.len() > 0 {
                    old(self).settings_form.input_buffer@.drop_last()
                } else {
                    old(self).settings_form.input_buffer@
                },
                KeyCode::Enter => {
                    let field = old(self).settings_form.focused_field;
                    let buffer = old(self).settings_form.input_buffer@;
                    if number_rejected(field, buffer) {
                        &&& r is Nothing
                        &&& invalid_number(field) matches Some((e, s)) && final(self).last_error matches Some(x)
                            && x@ == e && final(self).status@ == s
                        &&& *final(self) == (App {
                            last_error: final(self).last_error,
                            status: final(self).status,
                            show_status_modal: true,
                            ..*old(self)
                        })
                    } else {
                        &&& enter_step_ok(field, buffer, r)
                        &&& if field == 12 {
                            final(self).status@ == "Clearing cache storage..."@ && *final(self) == (App {
                                status: final(self).status,
                                ..*old(self)
                            })
                        } else {
                            *final(self) == *old(self)
                        }
                    }
                },
                _ => r is Nothing && *final(self) == *old(self),
            },
    {
        match code {
            KeyCode::Esc => {
                self.settings_form.editing = false;
                SettingsStep::Nothing
            },
            KeyCode::Char(c) => {
                self.settings_form.input_buffer = push_char(&self.settings_form.input_buffer, c);
                SettingsStep::Nothing
            },
            KeyCode::Backspace => {
                self.settings_form.input_buffer = pop_char(&self.settings_form.input_buffer);
                SettingsStep::Nothing
            },
            KeyCode::Enter => self.settings_enter(),
            _ => SettingsStep::Nothing,
        }
    }

    fn settings_enter(&mut self) -> (r: SettingsStep)
        ensures
            ({
                let field = old(self).settings_form.focused_field;
                let buffer = old(self).settings_form.input_buffer@;
                if number_rejected(field, buffer) {
                    &&& r is Nothing
                    &&& invalid_number(field) matches Some((e, s)) && final(self).last_error matches Some(x) && x@
                        == e && final(self).status@ == s
                    &&& *final(self) == (App {
                        last_error: final(self).last_error,
                        status: final(self).status,
                        show_status_modal: true,
                        ..*old(self)
                    })
                } else {
                    &&& enter_step_ok(field, buffer, r)
                    &&& if field == 12 {
                        final(self).status@ == "Clearing cache storage..."@ && *final(self) == (App {
                            status: final(self).status,
                            ..*old(self)
                        })
                    } else {
                        *final(self) == *old(self)
                    }
                }
            }),
    {
        let field = self.settings_form.focused_field;
        let buffer = &self.settings_form.input_buffer;
        if field == 12 {
            self.status = String::from_str("Clearing cache storage...");
            return SettingsStep::ClearCaches;
        }
        if field == 1 {
            let t = trim_chars(&chars_of(buffer.as_str()));
            if is_blank_chars(&chars_of(buffer.as_str())) {
                return SettingsStep::Save(SettingsChange::ComfyuiPath(None));
            }
            return SettingsStep::CheckComfyuiPath(string_of(t.as_slice()));
        }
        if field == 4 || field == 6 || field == 7 {
            match positive_number(buffer) {
                Some(v) => {
                    return SettingsStep::Save(
                        if field == 4 {
                            SettingsChange::ModelSearchCacheTtlHours(v)
                        } else if field == 6 {
                            SettingsChange::ImageSearchCacheTtlMinutes(v)
                        } else {
                            SettingsChange::ImageDetailCacheTtlMinutes(v)
                        },
                    );
                },
                None => {
                    let (e, s) = if field == 4 {
                        ("Cache TTL must be a positive integer", "Invalid cache TTL value")
                    } else if field == 6 {
                        (
                            "Image search cache TTL must be a positive integer",
                            "Invalid image search cache TTL value",
                        )
                    } else {
                        (
                            "Image detail cache TTL must be a positive integer",
                            "Invalid image detail cache TTL value",
                        )
                    };
                    self.last_error = Some(String::from_str(e));
                    self.show_status_modal = true;
                    self.status = String::from_str(s);
                    return SettingsStep::Nothing;
                },
            }
        }
        if field == 8 {
            match parse_u64(&trim_chars(&chars_of(buffer.as_str()))) {
                Some(v) => {
                    return SettingsStep::Save(SettingsChange::ImageCacheTtlMinutes(v));
                },
                None => {
                    self.last_error = Some(String::from_str("Image cache TTL must be a non-negative integer"));
                    self.show_status_modal = true;
                    self.status = String::from_str("Invalid image cache TTL value");
                    return SettingsStep::Nothing;
                },
            }
        }
        let change = if field == 0 {
            SettingsChange::ApiKey(buffer_setting(buffer))
        } else if field == 2 {
            SettingsChange::LikedModelFile(buffer_setting(buffer))
        } else if field == 3 {
            SettingsChange::ModelSearchCacheDir(buffer_setting(buffer))
        } else if field == 5 {
            SettingsChange::ImageCacheDir(buffer_setting(buffer))
        } else if field == 9 {
            SettingsChange::NextMediaQuality
        } else if field == 10 {
            SettingsChange::ToggleDebugLogging
        } else if field == 11 {
            SettingsChange::DownloadHistoryFile(buffer_setting(buffer))
        } else {
            SettingsChange::Unchanged
        };
        SettingsStep::Save(change)
    }

    /// The ComfyUI path was refused by the configuration: the reason is
    /// remembered, the status window opened, and editing goes on.
    pub fn note_invalid_comfyui_path(&mut self, reason: &str)
        ensures
            final(self).last_error matches Some(x) && x@ == reason@,
            final(self).status@ == "Invalid ComfyUI path"@,
            *final(self) == (App {
                last_error: final(self).last_error,
                status: final(self).status,
                show_status_modal: true,
                ..*old(self)
            }),
    {
        self.last_error = Some(String::from_str(reason));
        self.show_status_modal = true;
        self.status = String::from_str("Invalid ComfyUI path");
    }

    /// The configuration was saved, or failed to be: on success the error is
    /// forgotten, the status window closed and the status line says where it
    /// was saved; on failure the error is remembered and the window opened.
    /// Either way editing stops.
    pub fn finish_settings_save(&mut self, error: Option<&str>)
        ensures
            match error {
                Some(e) => {
                    &&& final(self).last_error matches Some(x) && x@ == "Failed to save config: "@ + e@
                    &&& *final(self) == (App {
                        last_error: final(self).last_error,
                        show_status_modal: true,
                        settings_form: crate::forms::SettingsFormState { editing: false, ..old(self).settings_form },
                        ..*old(self)
                    })
                },
                None => {
                    &&& final(self).status@ == "Settings saved to config.json"@
                    &&& *final(self) == (App {
                        last_error: None,
                        show_status_modal: false,
                        status: final(self).status,
                        settings_form: crate::forms::SettingsFormState { editing: false, ..old(self).settings_form },
                        ..*old(self)
                    })
                },
            },
    {
        match error {
            Some(e) => {
                let mut text = String::from_str("Failed to save config: ");
                text.append(e);
                self.last_error = Some(text);
                self.show_status_modal = true;
            },
            None => {
                self.last_error = None;
                self.show_status_modal = false;
                self.status = String::from_str("Settings saved to config.json");
            },
        }
        self.settings_form.editing = false;
    }
}

} // verus!
