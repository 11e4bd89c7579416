use vstd::prelude::*;

use crate::app::App;
use crate::chars::chars_of;
use crate::sorting::{lemma_text_lt_total, lemma_text_lt_trans, text_less, text_lt};
use crate::forms::{AppMode, ImageSearchFormSection, SearchFormMode, SearchTemplateKind};
use crate::image::same_chars;
use crate::keys::KeyCode;
use crate::searchform::{
    back, cursor_back, cursor_on, pop_char, push_char, templates_opened, FormKey, ImageSearchFormState,
};
use crate::tags::{accept_image_tag_suggestion, accepted_query};
use crate::templates::SearchTemplates;

verus! {

/// The box after another in the image filter builder, wrapping round.
pub open spec fn next_image_section(s: ImageSearchFormSection) -> ImageSearchFormSection {
    match s {
        ImageSearchFormSection::Query => ImageSearchFormSection::Sort,
        ImageSearchFormSection::Sort => ImageSearchFormSection::Period,
        ImageSearchFormSection::Period => ImageSearchFormSection::MediaType,
        ImageSearchFormSection::MediaType => ImageSearchFormSection::Tag,
        ImageSearchFormSection::Tag => ImageSearchFormSection::BaseModel,
        ImageSearchFormSection::BaseModel => ImageSearchFormSection::AspectRatio,
        ImageSearchFormSection::AspectRatio => ImageSearchFormSection::Query,
    }
}

/// The box before another in the image filter builder, wrapping round.
pub open spec fn previous_image_section(s: ImageSearchFormSection) -> ImageSearchFormSection {
    match s {
        ImageSearchFormSection::Query => ImageSearchFormSection::AspectRatio,
        ImageSearchFormSection::Sort => ImageSearchFormSection::Query,
        ImageSearchFormSection::Period => ImageSearchFormSection::Sort,
        ImageSearchFormSection::MediaType => ImageSearchFormSection::Period,
        ImageSearchFormSection::Tag => ImageSearchFormSection::MediaType,
        ImageSearchFormSection::BaseModel => ImageSearchFormSection::Tag,
        ImageSearchFormSection::AspectRatio => ImageSearchFormSection::BaseModel,
    }
}

/// The image form's boxes that take typed text.
pub open spec fn is_image_text_section(s: ImageSearchFormSection) -> bool {
    s == ImageSearchFormSection::Query || s == ImageSearchFormSection::Tag
}

/// The values the search sends for each option of the image form's lists, in
/// the lists' order.
pub struct ImageOptionKeys {
    pub media_types: Vec<String>,
    pub base_models: Vec<String>,
    pub aspect_ratios: Vec<String>,
}

/// The keys name every option of the form's lists.
pub open spec fn keys_fit<S, M, B, A>(f: ImageSearchFormState<S, M, B, A>, k: ImageOptionKeys) -> bool {
    &&& k.media_types@.len() == f.media_type_options@.len()
    &&& k.base_models@.len() == f.base_options@.len()
    &&& k.aspect_ratios@.len() == f.aspect_ratio_options@.len()
}

/// A key on the cursor's right moves a cursor whose list must not be empty
/// (it wraps with a remainder).
pub open spec fn image_right_ok<S, M, B, A>(f: ImageSearchFormState<S, M, B, A>, code: KeyCode) -> bool {
    code == KeyCode::Right && f.mode == SearchFormMode::Builder ==> match f.focused_section {
        ImageSearchFormSection::Sort => f.sort_options@.len() > 0 && f.selected_sort < usize::MAX,
        ImageSearchFormSection::Period => f.periods@.len() > 0 && f.selected_period < usize::MAX,
        ImageSearchFormSection::MediaType => f.media_type_options@.len() > 0 && f.media_type_cursor < usize::MAX,
        ImageSearchFormSection::BaseModel => f.base_options@.len() > 0 && f.base_cursor < usize::MAX,
        ImageSearchFormSection::AspectRatio => f.aspect_ratio_options@.len() > 0 && f.aspect_ratio_cursor
            < usize::MAX,
        _ => true,
    }
}

/// The texts of a list of strings.
pub open spec fn text_views(v: Seq<String>) -> Seq<Seq<char>> {
    v.map_values(|s: String| s@)
}

/// The texts other than `key`, in order.
pub open spec fn without_text(s: Seq<Seq<char>>, key: Seq<char>) -> Seq<Seq<char>>
    decreases s.len(),
{
    if s.len() == 0 {
        s
    } else if s.last() == key {
        without_text(s.drop_last(), key)
    } else {
        without_text(s.drop_last(), key).push(s.last())
    }
}

/// A value put into a list of values after every one that does not sort
/// after it, so that a sorted list stays sorted.
pub open spec fn inserted_text(chosen: Seq<Seq<char>>, key: Seq<char>) -> Seq<Seq<char>>
    decreases chosen.len(),
{
    if chosen.len() == 0 {
        seq![key]
    } else if text_lt(key, chosen.last()) {
        inserted_text(chosen.drop_last(), key).push(chosen.last())
    } else {
        chosen.push(key)
    }
}

/// Values in strictly ascending order, as a sorted set of strings keeps them.
pub open spec fn texts_ascending(s: Seq<Seq<char>>) -> bool {
    forall|i: int, j: int| 0 <= i < j < s.len() ==> text_lt(#[trigger] s[i], #[trigger] s[j])
}

/// A value toggled in a set of chosen values kept sorted: taken out when
/// chosen, else put in its place.
pub open spec fn toggled_text(chosen: Seq<Seq<char>>, key: Seq<char>) -> Seq<Seq<char>> {
    if chosen.contains(key) {
        without_text(chosen, key)
    } else {
        inserted_text(chosen, key)
    }
}

/// What a key does to the image search form, and what the form answers.
pub open spec fn image_key_effect<S, M, B, A>(
    a: ImageSearchFormState<S, M, B, A>,
    b: ImageSearchFormState<S, M, B, A>,
    code: KeyCode,
    keys: ImageOptionKeys,
    r: FormKey,
) -> bool {
    let builder = a.mode == SearchFormMode::Builder;
    if is_image_text_section(a.focused_section) && code is Char {
        let c = code->Char_0;
        &&& r == FormKey::Handled
        &&& if a.focused_section == ImageSearchFormSection::Query {
            b == (ImageSearchFormState { query: b.query, ..a }) && b.query@ == a.query@.push(c)
        } else {
            b == (ImageSearchFormState { tag_query: b.tag_query, ..a }) && b.tag_query@ == a.tag_query@.push(c)
        }
    } else if is_image_text_section(a.focused_section) && code == KeyCode::Backspace {
        &&& r == FormKey::Handled
        &&& if a.focused_section == ImageSearchFormSection::Query {
            b == (ImageSearchFormState { query: b.query, ..a }) && b.query@ == if a.query@.len() > 0 {
                a.query@.drop_last()
            } else {
                a.query@
            }
        } else {
            b == (ImageSearchFormState { tag_query: b.tag_query, ..a }) && b.tag_query@ == if a.tag_query@.len()
                > 0 {
                a.tag_query@.drop_last()
            } else {
                a.tag_query@
            }
        }
    } else {
        match code {
            KeyCode::Esc => b == a && r == FormKey::Escape,
            KeyCode::Enter => b == a && r == FormKey::Enter,
            KeyCode::Char('T') => b == a && r == FormKey::Templates,
            KeyCode::Up => r == FormKey::Handled && b == if builder {
                ImageSearchFormState { focused_section: previous_image_section(a.focused_section), ..a }
            } else {
                a
            },
            KeyCode::Down => r == FormKey::Handled && b == if builder {
                ImageSearchFormState { focused_section: next_image_section(a.focused_section), ..a }
            } else {
                a
            },
            KeyCode::Left => r == FormKey::Handled && b == if !builder {
                a
            } else {
                match a.focused_section {
                    ImageSearchFormSection::Sort => ImageSearchFormState {
                        selected_sort: cursor_back(a.selected_sort, a.sort_options@.len()),
                        ..a
                    },
                    ImageSearchFormSection::Period => ImageSearchFormState {
                        selected_period: cursor_back(a.selected_period, a.periods@.len()),
                        ..a
                    },
                    ImageSearchFormSection::MediaType => ImageSearchFormState {
                        media_type_cursor: cursor_back(a.media_type_cursor, a.media_type_options@.len()),
                        ..a
                    },
                    ImageSearchFormSection::BaseModel => ImageSearchFormState {
                        base_cursor: cursor_back(a.base_cursor, a.base_options@.len()),
                        ..a
                    },
                    ImageSearchFormSection::AspectRatio => ImageSearchFormState {
                        aspect_ratio_cursor: cursor_back(a.aspect_ratio_cursor, a.aspect_ratio_options@.len()),
                        ..a
                    },
                    _ => a,
                }
            },
            KeyCode::Right => b == if !builder {
                a
            } else {
                match a.focused_section {
                    ImageSearchFormSection::Sort => ImageSearchFormState {
                        selected_sort: cursor_on(a.selected_sort, a.sort_options@.len()),
                        ..a
                    },
                    ImageSearchFormSection::Period => ImageSearchFormState {
                        selected_period: cursor_on(a.selected_period, a.periods@.len()),
                        ..a
                    },
                    ImageSearchFormSection::MediaType => ImageSearchFormState {
                        media_type_cursor: cursor_on(a.media_type_cursor, a.media_type_options@.len()),
                        ..a
                    },
                    ImageSearchFormSection::BaseModel => ImageSearchFormState {
                        base_cursor: cursor_on(a.base_cursor, a.base_options@.len()),
                        ..a
                    },
                    ImageSearchFormSection::AspectRatio => ImageSearchFormState {
                        aspect_ratio_cursor: cursor_on(a.aspect_ratio_cursor, a.aspect_ratio_options@.len()),
                        ..a
                    },
                    _ => a,
                }
            } && r == if builder && a.focused_section == ImageSearchFormSection::Tag {
                FormKey::CompleteTag
            } else {
                FormKey::Handled
            },
            KeyCode::Char('f') => r == FormKey::Handled && b == (ImageSearchFormState {
                mode: SearchFormMode::Builder,
                focused_section: if a.focused_section == ImageSearchFormSection::Query {
                    ImageSearchFormSection::Sort
                } else {
                    a.focused_section
                },
                ..a
            }),
            KeyCode::Char(' ') => r == FormKey::Handled && if builder && a.focused_section
                == ImageSearchFormSection::MediaType && a.media_type_cursor < a.media_type_options@.len() {
                &&& b == (ImageSearchFormState { selected_media_types: b.selected_media_types, ..a })
                &&& text_views(b.selected_media_types@) == toggled_text(
                    text_views(a.selected_media_types@),
                    keys.media_types@[a.media_type_cursor as int]@,
                )
            } else if builder && a.focused_section == ImageSearchFormSection::BaseModel && a.base_cursor
                < a.base_options@.len() {
                &&& b == (ImageSearchFormState { selected_base_models: b.selected_base_models, ..a })
                &&& text_views(b.selected_base_models@) == toggled_text(
                    text_views(a.selected_base_models@),
                    keys.base_models@[a.base_cursor as int]@,
                )
            } else if builder && a.focused_section == ImageSearchFormSection::AspectRatio
                && a.aspect_ratio_cursor < a.aspect_ratio_options@.len() {
                &&& b == (ImageSearchFormState { selected_aspect_ratios: b.selected_aspect_ratios, ..a })
                &&& text_views(b.selected_aspect_ratios@) == toggled_text(
                    text_views(a.selected_aspect_ratios@),
                    keys.aspect_ratios@[a.aspect_ratio_cursor as int]@,
                )
            } else {
                b == a
            },
            _ => b == a && r == FormKey::Ignored,
        }
    }
}

/// A set of chosen values with one value toggled.
fn toggle_text(chosen: &Vec<String>, key: &String) -> (r: Vec<String>)
    ensures
        text_views(r@) == toggled_text(text_views(chosen@), key@),
{
    let k = chars_of(key.as_str());
    let mut out: Vec<String> = Vec::new();
    let mut found = false;
    let mut i: usize = 0;
    while i < chosen.len()
        invariant
            i <= chosen@.len(),
            k@ == key@,
            found == text_views(chosen@.subrange(0, i as int)).contains(key@),
            text_views(out@) == without_text(text_views(chosen@.subrange(0, i as int)), key@),
        decreases chosen@.len() - i,
    {
        let ghost prev = text_views(chosen@.subrange(0, i as int));
        let ghost next = text_views(chosen@.subrange(0, i + 1));
        assert(next.drop_last() =~= prev);
        assert(next.last() == chosen@[i as int]@);
        let same = same_chars(&chars_of(chosen[i].as_str()), &k);
        let ghost before = out@;
        if same {
            found = true;
            assert(next.contains(key@)) by {
                assert(next[i as int] == key@);
            }
        } else {
            out.push(chosen[i].clone());
            assert(text_views(out@) =~= text_views(before).push(chosen@[i as int]@));
            assert(next.contains(key@) == prev.contains(key@)) by {
                if next.contains(key@) {
                    let j = choose|j: int| 0 <= j < next.len() && next[j] == key@;
                    if j < i {
                        assert(prev[j] == next[j]);
                    }
                }
                if prev.contains(key@) {
                    let j = choose|j: int| 0 <= j < prev.len() && prev[j] == key@;
                    assert(next[j] == prev[j]);
                }
            }
        }
        i = i + 1;
    }
    assert(chosen@.subrange(0, chosen@.len() as int) =~= chosen@);
    if found {
        out
    } else {
        proof {
            assert(chosen@.subrange(0, chosen@.len() as int) =~= chosen@);
        }
        insert_text(chosen, chosen.len(), key)
    }
}

fn insert_text(chosen: &Vec<String>, n: usize, key: &String) -> (r: Vec<String>)
    requires
        n <= chosen@.len(),
    ensures
        text_views(r@) == inserted_text(text_views(chosen@.subrange(0, n as int)), key@),
    decreases n,
{
    let ghost pre = text_views(chosen@.subrange(0, n as int));
    if n == 0 {
        let r = vec![key.clone()];
        assert(text_views(r@) =~= seq![key@]);
        return r;
    }
    proof {
        assert(pre.drop_last() =~= text_views(chosen@.subrange(0, n - 1)));
        assert(pre.last() == chosen@[n - 1]@);
    }
    if text_less(&chars_of(key.as_str()), &chars_of(chosen[n - 1].as_str())) {
        let mut r = insert_text(chosen, n - 1, key);
        let ghost before = text_views(r@);
        r.push(chosen[n - 1].clone());
        assert(text_views(r@) =~= before.push(chosen@[n - 1]@));
        r
    } else {
        let mut r: Vec<String> = Vec::new();
        let mut i: usize = 0;
        while i < n
            invariant
                n <= chosen@.len(),
                i <= n,
                text_views(r@) == text_views(chosen@.subrange(0, i as int)),
            decreases n - i,
        {
            let ghost before = text_views(r@);
            r.push(chosen[i].clone());
            assert(text_views(r@) =~= before.push(chosen@[i as int]@));
            assert(text_views(chosen@.subrange(0, i + 1)) =~= text_views(chosen@.subrange(0, i as int)).push(chosen@[i as int]@));
            i = i + 1;
        }
        let ghost before = text_views(r@);
        r.push(key.clone());
        assert(text_views(r@) =~= before.push(key@));
        r
    }
}

proof fn lemma_without_absent(s: Seq<Seq<char>>, key: Seq<char>)
    requires
        !s.contains(key),
    ensures
        without_text(s, key) == s,
    decreases s.len(),
{
    if s.len() > 0 {
        assert(!s.drop_last().contains(key)) by {
            if s.drop_last().contains(key) {
                let j = choose|j: int| 0 <= j < s.drop_last().len() && s.drop_last()[j] == key;
                assert(s[j] == key);
            }
        }
        lemma_without_absent(s.drop_last(), key);
        assert(s.last() != key) by {
            assert(s[s.len() - 1] == s.last());
        }
        assert(s.drop_last().push(s.last()) =~= s);
    }
}

impl<S, M, B, A> ImageSearchFormState<S, M, B, A> {
    /// Handles a key in the image search form (see `image_key_effect`).
    pub fn handle_key(&mut self, code: KeyCode, keys: &ImageOptionKeys) -> (r: FormKey)
        requires
            image_right_ok(*old(self), code),
            keys_fit(*old(self), *keys),
        ensures
            image_key_effect(*old(self), *final(self), code, *keys, r),
    {
        let builder = self.mode == SearchFormMode::Builder;
        let typing = self.focused_section == ImageSearchFormSection::Query || self.focused_section
            == ImageSearchFormSection::Tag;
        if typing {
            match code {
                KeyCode::Char(c) => {
                    if self.focused_section == ImageSearchFormSection::Query {
                        self.query = push_char(&self.query, c);
                    } else {
                        self.tag_query = push_char(&self.tag_query, c);
                    }
                    return FormKey::Handled;
                },
                KeyCode::Backspace => {
                    if self.focused_section == ImageSearchFormSection::Query {
                        self.query = pop_char(&self.query);
                    } else {
                        self.tag_query = pop_char(&self.tag_query);
                    }
                    return FormKey::Handled;
                },
                _ => {},
            }
        }
        match code {
            KeyCode::Esc => FormKey::Escape,
            KeyCode::Enter => FormKey::Enter,
            KeyCode::Char('T') => FormKey::Templates,
            KeyCode::Up => {
                if builder {
                    self.focused_section = match self.focused_section {
                        ImageSearchFormSection::Query => ImageSearchFormSection::AspectRatio,
                        ImageSearchFormSection::Sort => ImageSearchFormSection::Query,
                        ImageSearchFormSection::Period => ImageSearchFormSection::Sort,
                        ImageSearchFormSection::MediaType => ImageSearchFormSection::Period,
                        ImageSearchFormSection::Tag => ImageSearchFormSection::MediaType,
                        ImageSearchFormSection::BaseModel => ImageSearchFormSection::Tag,
                        ImageSearchFormSection::AspectRatio => ImageSearchFormSection::BaseModel,
                    };
                }
                FormKey::Handled
            },
            KeyCode::Down => {
                if builder {
                    self.focused_section = match self.focused_section {
                        ImageSearchFormSection::Query => ImageSearchFormSection::Sort,
                        ImageSearchFormSection::Sort => ImageSearchFormSection::Period,
                        ImageSearchFormSection::Period => ImageSearchFormSection::MediaType,
                        ImageSearchFormSection::MediaType => ImageSearchFormSection::Tag,
                        ImageSearchFormSection::Tag => ImageSearchFormSection::BaseModel,
                        ImageSearchFormSection::BaseModel => ImageSearchFormSection::AspectRatio,
                        ImageSearchFormSection::AspectRatio => ImageSearchFormSection::Query,
                    };
                }
                FormKey::Handled
            },
            KeyCode::Left => {
                if builder {
                    match self.focused_section {
                        ImageSearchFormSection::Sort => {
                            self.selected_sort = back(self.selected_sort, self.sort_options.len());
                        },
                        ImageSearchFormSection::Period => {
                            self.selected_period = back(self.selected_period, self.periods.len());
                        },
                        ImageSearchFormSection::MediaType => {
                            self.media_type_cursor = back(self.media_type_cursor, self.media_type_options.len());
                        },
                        ImageSearchFormSection::BaseModel => {
                            self.base_cursor = back(self.base_cursor, self.base_options.len());
                        },
                        ImageSearchFormSection::AspectRatio => {
                            self.aspect_ratio_cursor = back(
                                self.aspect_ratio_cursor,
                                self.aspect_ratio_options.len(),
                            );
                        },
                        _ => {},
                    }
                }
                FormKey::Handled
            },
            KeyCode::Right => {
                if builder {
                    match self.focused_section {
                        ImageSearchFormSection::Sort => {
                            self.selected_sort = (self.selected_sort + 1) % self.sort_options.len();
                        },
                        ImageSearchFormSection::Period => {
                            self.selected_period = (self.selected_period + 1) % self.periods.len();
                        },
                        ImageSearchFormSection::MediaType => {
                            self.media_type_cursor = (self.media_type_cursor + 1) % self.media_type_options.len();
                        },
                        ImageSearchFormSection::BaseModel => {
                            self.base_cursor = (self.base_cursor + 1) % self.base_options.len();
                        },
                        ImageSearchFormSection::AspectRatio => {
                            self.aspect_ratio_cursor = (self.aspect_ratio_cursor + 1)
                                % self.aspect_ratio_options.len();
                        },
                        ImageSearchFormSection::Tag => {
                            return FormKey::CompleteTag;
                        },
                        _ => {},
                    }
                }
                FormKey::Handled
            },
            KeyCode::Char('f') => {
                self.begin_builder();
                FormKey::Handled
            },
            KeyCode::Char(' ') => {
                if builder {
                    if self.focused_section == ImageSearchFormSection::MediaType && self.media_type_cursor
                        < self.media_type_options.len() {
                        self.selected_media_types = toggle_text(
                            &self.selected_media_types,
                            &keys.media_types[self.media_type_cursor],
                        );
                    } else if self.focused_section == ImageSearchFormSection::BaseModel && self.base_cursor
                        < self.base_options.len() {
                        self.selected_base_models = toggle_text(
                            &self.selected_base_models,
                            &keys.base_models[self.base_cursor],
                        );
                    } else if self.focused_section == ImageSearchFormSection::AspectRatio
                        && self.aspect_ratio_cursor < self.aspect_ratio_options.len() {
                        self.selected_aspect_ratios = toggle_text(
                            &self.selected_aspect_ratios,
                            &keys.aspect_ratios[self.aspect_ratio_cursor],
                        );
                    }
                }
                FormKey::Handled
            },
            _ => FormKey::Ignored,
        }
    }
}

/// What a key in the image search form leaves to the caller.
#[derive(Clone, Copy, Debug, PartialEq, Eq, Structural)]
pub enum ImageSearchWork {
    Nothing,
    /// Start the image feed over with the search the form describes.
    RunImageSearch,
}

impl App {
    /// Handles a key while the image search form is open: the form takes it
    /// (see `image_key_effect`); Escape and Enter go back to browsing and leave
    /// the new image search for the caller to run; `T` opens the image
    /// templates; Right on the tag box completes the tag being typed from the
    /// catalog, saying so in the status line when it did.
    pub fn handle_image_search_key<S, M, B, A, TM, TI>(
        &mut self,
        form: &mut ImageSearchFormState<S, M, B, A>,
        templates: &mut SearchTemplates<TM, TI>,
        catalog: &Vec<String>,
        keys: &ImageOptionKeys,
        code: KeyCode,
    ) -> (r: (FormKey, ImageSearchWork))
        requires
            image_right_ok(*old(form), code),
            keys_fit(*old(form), *keys),
        ensures
            r.0 == FormKey::CompleteTag ==> {
                &&& image_key_effect(*old(form), ImageSearchFormState { tag_query: old(form).tag_query, ..*final(form) }, code, *keys, r.0)
                &&& match accepted_query(catalog@, old(form).tag_query@) {
                    Some(q) => final(form).tag_query@ == q && final(self).status@ == "Accepted image tag suggestion."@
                        && *final(self) == (App { status: final(self).status, ..*old(self) }),
                    None => final(form).tag_query@ == old(form).tag_query@ && *final(self) == *old(self),
                }
                &&& *final(templates) == *old(templates)
                &&& r.1 == ImageSearchWork::Nothing
            },
            r.0 != FormKey::CompleteTag ==> image_key_effect(*old(form), *final(form), code, *keys, r.0),
            match r.0 {
                FormKey::Escape | FormKey::Enter => {
                    &&& *final(self) == (App { mode: AppMode::Browsing, ..*old(self) })
                    &&& *final(templates) == *old(templates)
                    &&& r.1 == ImageSearchWork::RunImageSearch
                },
                FormKey::Templates => {
                    &&& templates_opened(*old(self), *final(self), *old(templates), *final(templates), SearchTemplateKind::Image)
                    &&& r.1 == ImageSearchWork::Nothing
                },
                FormKey::CompleteTag => true,
                _ => {
                    &&& *final(self) == *old(self)
                    &&& *final(templates) == *old(templates)
                    &&& r.1 == ImageSearchWork::Nothing
                },
            },
    {
        let k = form.handle_key(code, keys);
        match k {
            FormKey::Escape | FormKey::Enter => {
                self.mode = AppMode::Browsing;
                (k, ImageSearchWork::RunImageSearch)
            },
            FormKey::Templates => {
                let n = templates.open_search_template_modal(SearchTemplateKind::Image);
                self.apply_notice(&n);
                (k, ImageSearchWork::Nothing)
            },
            FormKey::CompleteTag => {
                let ghost before = *form;
                if accept_image_tag_suggestion(&mut form.tag_query, catalog.as_slice()) {
                    self.status = String::from_str("Accepted image tag suggestion.");
                }
                assert(ImageSearchFormState { tag_query: before.tag_query, ..*form } == before);
                (k, ImageSearchWork::Nothing)
            },
            _ => (k, ImageSearchWork::Nothing),
        }
    }
}

/// Choosing a value that was not chosen, then choosing it again, leaves the
/// choices as they were.
pub proof fn law_toggle_twice_restores(chosen: Seq<Seq<char>>, key: Seq<char>)
    requires
        !chosen.contains(key),
    ensures
        toggled_text(toggled_text(chosen, key), key) == chosen,
{
    lemma_inserted_text(chosen, key);
    lemma_without_inserted(chosen, key);
}

proof fn lemma_without_inserted(chosen: Seq<Seq<char>>, key: Seq<char>)
    requires
        !chosen.contains(key),
    ensures
        without_text(inserted_text(chosen, key), key) == chosen,
    decreases chosen.len(),
{
    if chosen.len() == 0 {
        let one = seq![key];
        assert(one.drop_last() =~= Seq::<Seq<char>>::empty());
        assert(one.last() == key);
        assert(without_text(one, key) == without_text(one.drop_last(), key));
    } else {
        let init = chosen.drop_last();
        assert(!init.contains(key)) by {
            if init.contains(key) {
                let j = choose|j: int| 0 <= j < init.len() && init[j] == key;
                assert(chosen[j] == key);
            }
        }
        assert(chosen.last() != key) by {
            assert(chosen[chosen.len() - 1] == chosen.last());
        }
        if text_lt(key, chosen.last()) {
            lemma_without_inserted(init, key);
            let r = inserted_text(init, key).push(chosen.last());
            assert(r.drop_last() =~= inserted_text(init, key));
            assert(r.last() == chosen.last());
            assert(without_text(r, key) == without_text(inserted_text(init, key), key).push(chosen.last()));
        } else {
            lemma_without_absent(chosen, key);
            let r = chosen.push(key);
            assert(r.drop_last() =~= chosen);
            assert(r.last() == key);
            assert(without_text(r, key) == without_text(chosen, key));
        }
        assert(init.push(chosen.last()) =~= chosen);
    }
}

proof fn lemma_inserted_text(chosen: Seq<Seq<char>>, key: Seq<char>)
    ensures
        inserted_text(chosen, key).len() == chosen.len() + 1,
        inserted_text(chosen, key).contains(key),
        forall|k: int| 0 <= k < inserted_text(chosen, key).len() ==> (#[trigger] inserted_text(chosen, key)[k] == key
            || chosen.contains(inserted_text(chosen, key)[k])),
        texts_ascending(chosen) && !chosen.contains(key) ==> texts_ascending(inserted_text(chosen, key)),
    decreases chosen.len(),
{
    let r = inserted_text(chosen, key);
    if chosen.len() == 0 {
        assert(r[0] == key);
    } else if text_lt(key, chosen.last()) {
        let init = chosen.drop_last();
        let last = chosen.last();
        lemma_inserted_text(init, key);
        let inner = inserted_text(init, key);
        assert(r == inner.push(last));
        assert(r.contains(key)) by {
            let m = choose|m: int| 0 <= m < inner.len() && inner[m] == key;
            assert(r[m] == inner[m]);
        }
        assert forall|k: int| 0 <= k < r.len() implies (#[trigger] r[k] == key || chosen.contains(r[k])) by {
            if k == r.len() - 1 {
                assert(chosen[chosen.len() - 1] == last);
            } else {
                assert(r[k] == inner[k]);
                if inner[k] != key {
                    let m = choose|m: int| 0 <= m < init.len() && init[m] == inner[k];
                    assert(chosen[m] == init[m]);
                }
            }
        }
        if texts_ascending(chosen) && !chosen.contains(key) {
            assert(texts_ascending(init)) by {
                assert forall|i: int, j: int| 0 <= i < j < init.len() implies text_lt(#[trigger] init[i], #[trigger] init[j]) by {
                    assert(init[i] == chosen[i] && init[j] == chosen[j]);
                }
            }
            assert(!init.contains(key)) by {
                if init.contains(key) {
                    let j = choose|j: int| 0 <= j < init.len() && init[j] == key;
                    assert(chosen[j] == key);
                }
            }
            assert forall|i: int, j: int| 0 <= i < j < r.len() implies text_lt(#[trigger] r[i], #[trigger] r[j]) by {
                if j == r.len() - 1 {
                    assert(r[i] == inner[i]);
                    if inner[i] != key {
                        let m = choose|m: int| 0 <= m < init.len() && init[m] == inner[i];
                        assert(chosen[m] == init[m]);
                        assert(text_lt(chosen[m], chosen[chosen.len() - 1]));
                    }
                } else {
                    assert(r[i] == inner[i] && r[j] == inner[j]);
                }
            }
        }
    } else {
        assert(r == chosen.push(key));
        assert(r[r.len() - 1] == key);
        assert forall|k: int| 0 <= k < r.len() implies (#[trigger] r[k] == key || chosen.contains(r[k])) by {
            if k < chosen.len() {
                assert(r[k] == chosen[k]);
            }
        }
        if texts_ascending(chosen) && !chosen.contains(key) {
            let last = chosen.last();
            assert(last != key) by {
                assert(chosen[chosen.len() - 1] == last);
            }
            lemma_text_lt_total(key, last);
            assert forall|i: int, j: int| 0 <= i < j < r.len() implies text_lt(#[trigger] r[i], #[trigger] r[j]) by {
                if j == r.len() - 1 {
                    assert(r[i] == chosen[i]);
                    if i < chosen.len() - 1 {
                        assert(text_lt(chosen[i], chosen[chosen.len() - 1]));
                        lemma_text_lt_trans(chosen[i], last, key);
                    }
                } else {
                    assert(r[i] == chosen[i] && r[j] == chosen[j]);
                }
            }
        }
    }
}

proof fn lemma_without_text_ascending(s: Seq<Seq<char>>, key: Seq<char>)
    requires
        texts_ascending(s),
    ensures
        texts_ascending(without_text(s, key)),
        !without_text(s, key).contains(key),
        forall|k: int| 0 <= k < without_text(s, key).len() ==> s.contains(#[trigger] without_text(s, key)[k]),
    decreases s.len(),
{
    if s.len() > 0 {
        let init = s.drop_last();
        let last = s.last();
        assert forall|i: int, j: int| 0 <= i < j < init.len() implies text_lt(#[trigger] init[i], #[trigger] init[j]) by {
            assert(init[i] == s[i] && init[j] == s[j]);
        }
        lemma_without_text_ascending(init, key);
        let w = without_text(init, key);
        let r = without_text(s, key);
        assert forall|k: int| 0 <= k < w.len() implies text_lt(#[trigger] w[k], last) && s.contains(w[k]) by {
            let m = choose|m: int| 0 <= m < init.len() && init[m] == w[k];
            assert(s[m] == init[m]);
            assert(text_lt(s[m], s[s.len() - 1]));
        }
        if last != key {
            assert(r == w.push(last));
            assert forall|i: int, j: int| 0 <= i < j < r.len() implies text_lt(#[trigger] r[i], #[trigger] r[j]) by {
                assert(r[i] == w[i]);
                if j < w.len() {
                    assert(r[j] == w[j]);
                }
            }
            assert(!r.contains(key)) by {
                if r.contains(key) {
                    let m = choose|m: int| 0 <= m < r.len() && r[m] == key;
                    if m < w.len() {
                        assert(w[m] == r[m]);
                    }
                }
            }
            assert forall|k: int| 0 <= k < r.len() implies s.contains(#[trigger] r[k]) by {
                if k < w.len() {
                    assert(r[k] == w[k]);
                } else {
                    assert(s[s.len() - 1] == last);
                }
            }
        }
    }
}

/// Toggling a value keeps the chosen values in strictly ascending order, as
/// the sorted set of choices is kept.
pub proof fn law_toggled_text_stays_ascending(chosen: Seq<Seq<char>>, key: Seq<char>)
    requires
        texts_ascending(chosen),
    ensures
        texts_ascending(toggled_text(chosen, key)),
        toggled_text(chosen, key).contains(key) == !chosen.contains(key),
{
    if chosen.contains(key) {
        lemma_without_text_ascending(chosen, key);
    } else {
        lemma_inserted_text(chosen, key);
    }
}

} // verus!
