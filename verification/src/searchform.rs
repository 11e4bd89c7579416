use vstd::prelude::*;

use crate::chars::{chars_of, decimal, decimal_chars, string_of, trim, trim_chars};
use crate::forms::{created_at_window, period_label, period_to_created_at};
use crate::tags::{comma_pieces, query_tags, split_on_char, trimmed_tags};
use crate::forms::{ImageSearchFormSection, SearchFormMode, SearchFormSection, SearchPeriod};
use crate::app::App;
use crate::forms::{AppMode, SearchTemplateKind};
use crate::keys::{notice_shown, KeyCode};
use crate::status::StatusLevel;
use crate::templates::{clamped, same_lists, shown_len, SearchTemplates};

verus! {

/// The model search form: the query, the filter builder's boxes and the
/// option lists they pick from. A chosen type or base model is kept as its
/// position in its option list; the positions are kept in strictly ascending
/// order (see `law_toggled_stays_ascending`), the option lists being in the
/// order their values sort in.
pub struct SearchFormState<S, T, B> {
    pub query: String,
    pub mode: SearchFormMode,
    pub focused_section: SearchFormSection,
    pub sort_options: Vec<S>,
    pub selected_sort: usize,
    pub type_options: Vec<T>,
    pub type_cursor: usize,
    pub selected_types: Vec<usize>,
    pub tag_query: String,
    pub base_options: Vec<B>,
    pub base_cursor: usize,
    pub selected_base_models: Vec<usize>,
    pub periods: Vec<SearchPeriod>,
    pub selected_period: usize,
}

/// The box after another in the filter builder, wrapping round.
pub open spec fn next_section(s: SearchFormSection) -> SearchFormSection {
    match s {
        SearchFormSection::Query => SearchFormSection::Sort,
        SearchFormSection::Sort => SearchFormSection::Period,
        SearchFormSection::Period => SearchFormSection::Type,
        SearchFormSection::Type => SearchFormSection::Tag,
        SearchFormSection::Tag => SearchFormSection::BaseModel,
        SearchFormSection::BaseModel => SearchFormSection::Query,
    }
}

/// The box before another in the filter builder, wrapping round.
pub open spec fn previous_section(s: SearchFormSection) -> SearchFormSection {
    match s {
        SearchFormSection::Query => SearchFormSection::BaseModel,
        SearchFormSection::Sort => SearchFormSection::Query,
        SearchFormSection::Period => SearchFormSection::Sort,
        SearchFormSection::Type => SearchFormSection::Period,
        SearchFormSection::Tag => SearchFormSection::Type,
        SearchFormSection::BaseModel => SearchFormSection::Tag,
    }
}

/// A cursor moved back one place, wrapping to the last of `len`.
pub open spec fn cursor_back(i: usize, len: nat) -> usize {
    if i > 0 {
        (i - 1) as usize
    } else if len > 0 {
        (len - 1) as usize
    } else {
        0
    }
}

/// A cursor moved on one place, wrapping to the first of `len`.
pub open spec fn cursor_on(i: usize, len: nat) -> usize {
    ((i + 1) % (len as int)) as usize
}

/// The positions other than `p`, in order.
pub open spec fn without_position(s: Seq<usize>, p: usize) -> Seq<usize>
    decreases s.len(),
{
    if s.len() == 0 {
        s
    } else if s.last() == p {
        without_position(s.drop_last(), p)
    } else {
        without_position(s.drop_last(), p).push(s.last())
    }
}

/// A position put into a list of positions after every one not above it, so
/// that an ascending list stays ascending.
pub open spec fn inserted_ascending(chosen: Seq<usize>, p: usize) -> Seq<usize>
    decreases chosen.len(),
{
    if chosen.len() == 0 {
        seq![p]
    } else if p < chosen.last() {
        inserted_ascending(chosen.drop_last(), p).push(chosen.last())
    } else {
        chosen.push(p)
    }
}

/// Positions in strictly ascending order, as a sorted set keeps them.
pub open spec fn strictly_ascending(s: Seq<usize>) -> bool {
    forall|i: int, j: int| 0 <= i < j < s.len() ==> #[trigger] s[i] < #[trigger] s[j]
}

/// A choice toggled in a set of positions kept in ascending order: taken
/// out when chosen, else put in its place.
pub open spec fn toggled(chosen: Seq<usize>, p: usize) -> Seq<usize> {
    if chosen.contains(p) {
        without_position(chosen, p)
    } else {
        inserted_ascending(chosen, p)
    }
}

/// What a key asks of the screen that shows a search form.
#[derive(Clone, Copy, Debug, PartialEq, Eq, Structural)]
pub enum FormKey {
    /// The form took the key.
    Handled,
    /// Escape: leave the form.
    Escape,
    /// Enter: run the search.
    Enter,
    /// `T`: open the saved templates.
    Templates,
    /// Right on the tag box of the image form: complete the tag being typed.
    CompleteTag,
    /// The form does nothing with the key.
    Ignored,
}

/// The sections whose box takes typed text.
pub open spec fn is_text_section(s: SearchFormSection) -> bool {
    s == SearchFormSection::Query || s == SearchFormSection::Tag
}

/// A key on the cursor's right moves a cursor whose list must not be empty
/// (it wraps with a remainder).
pub open spec fn right_ok<S, T, B>(f: SearchFormState<S, T, B>, code: KeyCode) -> bool {
    code == KeyCode::Right && f.mode == SearchFormMode::Builder ==> match f.focused_section {
        SearchFormSection::Sort => f.sort_options@.len() > 0 && f.selected_sort < usize::MAX,
        SearchFormSection::Period => f.periods@.len() > 0 && f.selected_period < usize::MAX,
        SearchFormSection::Type => f.type_options@.len() > 0 && f.type_cursor < usize::MAX,
        SearchFormSection::BaseModel => f.base_options@.len() > 0 && f.base_cursor < usize::MAX,
        _ => true,
    }
}

/// What a key does to the model search form (see `FormKey` for what it asks
/// of the screen): typed text goes into the query or tag box that has focus
/// and Backspace takes the last character back; Up and Down move between the
/// builder's boxes, Left and Right move the sort, period, type or base model
/// cursor round its list, and Space toggles the type or base model under the
/// cursor (all in the builder only); `f` opens the builder.
pub open spec fn form_key_effect<S, T, B>(a: SearchFormState<S, T, B>, b: SearchFormState<S, T, B>, code: KeyCode, r: FormKey) -> bool {
    let builder = a.mode == SearchFormMode::Builder;
    if is_text_section(a.focused_section) && code is Char {
        let c = code->Char_0;
        &&& r == FormKey::Handled
        &&& if a.focused_section == SearchFormSection::Query {
            b == (SearchFormState { query: b.query, ..a }) && b.query@ == a.query@.push(c)
        } else {
            b == (SearchFormState { tag_query: b.tag_query, ..a }) && b.tag_query@ == a.tag_query@.push(c)
        }
    } else if is_text_section(a.focused_section) && code == KeyCode::Backspace {
        &&& r == FormKey::Handled
        &&& if a.focused_section == SearchFormSection::Query {
            b == (SearchFormState { query: b.query, ..a }) && b.query@ == if a.query@.len() > 0 {
                a.query@.drop_last()
            } else {
                a.query@
            }
        } else {
            b == (SearchFormState { tag_query: b.tag_query, ..a }) && b.tag_query@ == if a.tag_query@.len() > 0 {
                a.tag_query@.drop_last()
            } else {
                a.tag_query@
            }
        }
    } else {
        match code {
            KeyCode::Esc => b == a && r == FormKey::Escape,
            KeyCode::Enter => b == a && r == FormKey::Enter,
            KeyCode::Char('T') => b == a && r == FormKey::Templates,
            KeyCode::Up => r == FormKey::Handled && b == if builder {
                SearchFormState { focused_section: previous_section(a.focused_section), ..a }
            } else {
                a
            },
            KeyCode::Down => r == FormKey::Handled && b == if builder {
                SearchFormState { focused_section: next_section(a.focused_section), ..a }
            } else {
                a
            },
            KeyCode::Left => r == FormKey::Handled && b == if !builder {
                a
            } else {
                match a.focused_section {
                    SearchFormSection::Sort => SearchFormState { selected_sort: cursor_back(a.selected_sort, a.sort_options@.len()), ..a },
                    SearchFormSection::Period => SearchFormState { selected_period: cursor_back(a.selected_period, a.periods@.len()), ..a },
                    SearchFormSection::Type => SearchFormState { type_cursor: cursor_back(a.type_cursor, a.type_options@.len()), ..a },
                    SearchFormSection::BaseModel => SearchFormState { base_cursor: cursor_back(a.base_cursor, a.base_options@.len()), ..a },
                    _ => a,
                }
            },
            KeyCode::Right => r == FormKey::Handled && b == if !builder {
                a
            } else {
                match a.focused_section {
                    SearchFormSection::Sort => SearchFormState { selected_sort: cursor_on(a.selected_sort, a.sort_options@.len()), ..a },
                    SearchFormSection::Period => SearchFormState { selected_period: cursor_on(a.selected_period, a.periods@.len()), ..a },
                    SearchFormSection::Type => SearchFormState { type_cursor: cursor_on(a.type_cursor, a.type_options@.len()), ..a },
                    SearchFormSection::BaseModel => SearchFormState { base_cursor: cursor_on(a.base_cursor, a.base_options@.len()), ..a },
                    _ => a,
                }
            },
            KeyCode::Char('f') => r == FormKey::Handled && b == (SearchFormState {
                mode: SearchFormMode::Builder,
                focused_section: if a.focused_section == SearchFormSection::Query {
                    SearchFormSection::Sort
                } else {
                    a.focused_section
                },
                ..a
            }),
            KeyCode::Char(' ') => {
                &&& r == FormKey::Handled
                &&& if builder && a.focused_section == SearchFormSection::Type && a.type_cursor < a.type_options@.len() {
                    b == (SearchFormState { selected_types: b.selected_types, ..a }) && b.selected_types@ == toggled(a.selected_types@, a.type_cursor)
                } else if builder && a.focused_section == SearchFormSection::BaseModel && a.base_cursor < a.base_options@.len() {
                    b == (SearchFormState { selected_base_models: b.selected_base_models, ..a }) && b.selected_base_models@ == toggled(a.selected_base_models@, a.base_cursor)
                } else {
                    b == a
                }
            },
            _ => b == a && r == FormKey::Ignored,
        }
    }
}

pub(crate) fn push_char(s: &String, c: char) -> (r: String)
    ensures
        r@ == s@.push(c),
{
    let mut cs = chars_of(s.as_str());
    cs.push(c);
    string_of(cs.as_slice())
}

pub(crate) fn pop_char(s: &String) -> (r: String)
    ensures
        r@ == if s@.len() > 0 {
            s@.drop_last()
        } else {
            s@
        },
{
    let mut cs = chars_of(s.as_str());
    cs.pop();
    string_of(cs.as_slice())
}

fn insert_ascending(chosen: &Vec<usize>, n: usize, p: usize) -> (r: Vec<usize>)
    requires
        n <= chosen@.len(),
    ensures
        r@ == inserted_ascending(chosen@.subrange(0, n as int), p),
    decreases n,
{
    let ghost pre = chosen@.subrange(0, n as int);
    if n == 0 {
        return vec![p];
    }
    proof {
        assert(pre.drop_last() =~= chosen@.subrange(0, n - 1));
        assert(pre.last() == chosen@[n - 1]);
    }
    if p < chosen[n - 1] {
        let mut r = insert_ascending(chosen, n - 1, p);
        r.push(chosen[n - 1]);
        r
    } else {
        let mut r: Vec<usize> = Vec::new();
        let mut i: usize = 0;
        while i < n
            invariant
                n <= chosen@.len(),
                i <= n,
                r@ == chosen@.subrange(0, i as int),
            decreases n - i,
        {
            r.push(chosen[i]);
            assert(r@ =~= chosen@.subrange(0, i + 1));
            i = i + 1;
        }
        r.push(p);
        r
    }
}

fn toggle_position(chosen: &Vec<usize>, p: usize) -> (r: Vec<usize>)
    ensures
        r@ == toggled(chosen@, p),
{
    let mut found = false;
    let mut i: usize = 0;
    while i < chosen.len()
        invariant
            i <= chosen@.len(),
            found == exists|j: int| 0 <= j < i && chosen@[j] == p,
        decreases chosen@.len() - i,
    {
        if chosen[i] == p {
            found = true;
        }
        i = i + 1;
    }
    if !found {
        proof {
            assert(chosen@.subrange(0, chosen@.len() as int) =~= chosen@);
        }
        return insert_ascending(chosen, chosen.len(), p);
    }
    let mut r: Vec<usize> = Vec::new();
    let mut k: usize = 0;
    proof {
        assert(chosen@.subrange(0, 0) =~= Seq::<usize>::empty());
    }
    while k < chosen.len()
        invariant
            k <= chosen@.len(),
            r@ == without_position(chosen@.subrange(0, k as int), p),
        decreases chosen@.len() - k,
    {
        proof {
            let s = chosen@.subrange(0, k + 1);
            assert(s.drop_last() =~= chosen@.subrange(0, k as int));
            assert(s.last() == chosen@[k as int]);
        }
        if chosen[k] != p {
            r.push(chosen[k]);
        }
        k = k + 1;
    }
    assert(chosen@.subrange(0, chosen@.len() as int) =~= chosen@);
    r
}

impl<S, T, B> SearchFormState<S, T, B> {
    /// A fresh form in quick-search mode over the given option lists, the
    /// sort at `default_sort` (relevance), every period offered, nothing
    /// chosen.
    pub fn new(sort_options: Vec<S>, default_sort: usize, type_options: Vec<T>, base_options: Vec<B>) -> (f: Self)
        ensures
            f.query@.len() == 0,
            f.mode == SearchFormMode::Quick,
            f.focused_section == SearchFormSection::Query,
            f.sort_options == sort_options,
            f.selected_sort == default_sort,
            f.type_options == type_options,
            f.type_cursor == 0,
            f.selected_types@.len() == 0,
            f.tag_query@.len() == 0,
            f.base_options == base_options,
            f.base_cursor == 0,
            f.selected_base_models@.len() == 0,
            f.periods@ == seq![
                SearchPeriod::AllTime,
                SearchPeriod::Year,
                SearchPeriod::Month,
                SearchPeriod::Week,
                SearchPeriod::Day,
            ],
            f.selected_period == 0,
    {
        SearchFormState {
            query: String::new(),
            mode: SearchFormMode::Quick,
            focused_section: SearchFormSection::Query,
            sort_options,
            selected_sort: default_sort,
            type_options,
            type_cursor: 0,
            selected_types: Vec::new(),
            tag_query: String::new(),
            base_options,
            base_cursor: 0,
            selected_base_models: Vec::new(),
            periods: SearchPeriod::all(),
            selected_period: 0,
        }
    }

    /// Switches to the one-line quick search, focused on the query.
    pub fn begin_quick_search(&mut self)
        ensures
            *final(self) == (SearchFormState {
                mode: SearchFormMode::Quick,
                focused_section: SearchFormSection::Query,
                ..*old(self)
            }),
    {
        self.mode = SearchFormMode::Quick;
        self.focused_section = SearchFormSection::Query;
    }

    /// Opens the filter builder, moving focus off the query box.
    pub fn begin_builder(&mut self)
        ensures
            *final(self) == (SearchFormState {
                mode: SearchFormMode::Builder,
                focused_section: if old(self).focused_section == SearchFormSection::Query {
                    SearchFormSection::Sort
                } else {
                    old(self).focused_section
                },
                ..*old(self)
            }),
    {
        self.mode = SearchFormMode::Builder;
        if self.focused_section == SearchFormSection::Query {
            self.focused_section = SearchFormSection::Sort;
        }
    }
}


impl<S, T, B> SearchFormState<S, T, B> {
    /// Handles a key in the model search form (see `form_key_effect`).
    pub fn handle_key(&mut self, code: KeyCode) -> (r: FormKey)
        requires
            right_ok(*old(self), code),
        ensures
            form_key_effect(*old(self), *final(self), code, r),
    {
        let builder = self.mode == SearchFormMode::Builder;
        let typing = self.focused_section == SearchFormSection::Query || self.focused_section
            == SearchFormSection::Tag;
        if typing {
            match code {
                KeyCode::Char(c) => {
                    if self.focused_section == SearchFormSection::Query {
                        self.query = push_char(&self.query, c);
                    } else {
                        self.tag_query = push_char(&self.tag_query, c);
                    }
                    return FormKey::Handled;
                },
                KeyCode::Backspace => {
                    if self.focused_section == SearchFormSection::Query {
                        self.query = pop_char(&self.query);
                    } else {
                        self.tag_query = pop_char(&self.tag_query);
                    }
                    return FormKey::Handled;
                },
                _ => {},
            }
        }
        match code {
            KeyCode::Esc => FormKey::Escape,
            KeyCode::Enter => FormKey::Enter,
            KeyCode::Char('T') => FormKey::Templates,
            KeyCode::Up => {
                if builder {
                    self.focused_section = match self.focused_section {
                        SearchFormSection::Query => SearchFormSection::BaseModel,
                        SearchFormSection::Sort => SearchFormSection::Query,
                        SearchFormSection::Period => SearchFormSection::Sort,
                        SearchFormSection::Type => SearchFormSection::Period,
                        SearchFormSection::Tag => SearchFormSection::Type,
                        SearchFormSection::BaseModel => SearchFormSection::Tag,
                    };
                }
                FormKey::Handled
            },
            KeyCode::Down => {
                if builder {
                    self.focused_section = match self.focused_section {
                        SearchFormSection::Query => SearchFormSection::Sort,
                        SearchFormSection::Sort => SearchFormSection::Period,
                        SearchFormSection::Period => SearchFormSection::Type,
                        SearchFormSection::Type => SearchFormSection::Tag,
                        SearchFormSection::Tag => SearchFormSection::BaseModel,
                        SearchFormSection::BaseModel => SearchFormSection::Query,
                    };
                }
                FormKey::Handled
            },
            KeyCode::Left => {
                if builder {
                    match self.focused_section {
                        SearchFormSection::Sort => {
                            self.selected_sort = back(self.selected_sort, self.sort_options.len());
                        },
                        SearchFormSection::Period => {
                            self.selected_period = back(self.selected_period, self.periods.len());
                        },
                        SearchFormSection::Type => {
                            self.type_cursor = back(self.type_cursor, self.type_options.len());
                        },
                        SearchFormSection::BaseModel => {
                            self.base_cursor = back(self.base_cursor, self.base_options.len());
                        },
                        _ => {},
                    }
                }
                FormKey::Handled
            },
            KeyCode::Right => {
                if builder {
                    match self.focused_section {
                        SearchFormSection::Sort => {
                            self.selected_sort = (self.selected_sort + 1) % self.sort_options.len();
                        },
                        SearchFormSection::Period => {
                            self.selected_period = (self.selected_period + 1) % self.periods.len();
                        },
                        SearchFormSection::Type => {
                            self.type_cursor = (self.type_cursor + 1) % self.type_options.len();
                        },
                        SearchFormSection::BaseModel => {
                            self.base_cursor = (self.base_cursor + 1) % self.base_options.len();
                        },
                        _ => {},
                    }
                }
                FormKey::Handled
            },
            KeyCode::Char('f') => {
                self.begin_builder();
                FormKey::Handled
            },
            KeyCode::Char(' ') => {
                if builder {
                    if self.focused_section == SearchFormSection::Type && self.type_cursor
                        < self.type_options.len() {
                        self.selected_types = toggle_position(&self.selected_types, self.type_cursor);
                    } else if self.focused_section == SearchFormSection::BaseModel && self.base_cursor
                        < self.base_options.len() {
                        self.selected_base_models = toggle_position(
                            &self.selected_base_models,
                            self.base_cursor,
                        );
                    }
                }
                FormKey::Handled
            },
            _ => FormKey::Ignored,
        }
    }
}

pub(crate) fn back(i: usize, len: usize) -> (r: usize)
    ensures
        r == cursor_back(i, len as nat),
{
    if i > 0 {
        i - 1
    } else if len > 0 {
        len - 1
    } else {
        0
    }
}


/// What a key in a search form leaves to the caller.
#[derive(Clone, Copy, Debug, PartialEq, Eq, Structural)]
pub enum SearchWork {
    Nothing,
    /// Run the model search the form describes.
    RunModelSearch,
    /// Apply the liked-model filter the form describes.
    ApplyLikedQuery,
}

/// The template window opened on a kind, its notice shown.
pub open spec fn templates_opened<M, I>(
    a: App,
    b: App,
    ta: SearchTemplates<M, I>,
    tb: SearchTemplates<M, I>,
    kind: SearchTemplateKind,
) -> bool {
    &&& tb.show_search_template_modal
    &&& tb.search_template_kind == kind
    &&& !tb.search_template_name_editing
    &&& tb.search_template_name_draft@.len() == 0
    &&& tb.selected_search_template_index == clamped(ta.selected_search_template_index as int, shown_len(tb))
    &&& same_lists(ta, tb)
    &&& notice_shown(
        a,
        b,
        StatusLevel::Info,
        match kind {
            SearchTemplateKind::Model => "Model search templates opened"@,
            SearchTemplateKind::Image => "Image search templates opened"@,
        },
    )
}

/// `Searching for models: '<query>'...`.
pub open spec fn searching_models_text(query: Seq<char>) -> Seq<char> {
    "Searching for models: '"@ + query + "'..."@
}

impl App {
    /// Handles a key while the model search form is open: the form takes it
    /// (see `form_key_effect`); Escape and Enter go back to browsing and leave
    /// the search for the caller to run; `T` opens the model templates.
    pub fn handle_model_search_key<S, T, B, M, I>(
        &mut self,
        form: &mut SearchFormState<S, T, B>,
        templates: &mut SearchTemplates<M, I>,
        code: KeyCode,
    ) -> (r: (FormKey, SearchWork))
        requires
            right_ok(*old(form), code),
        ensures
            form_key_effect(*old(form), *final(form), code, r.0),
            match r.0 {
                FormKey::Escape | FormKey::Enter => {
                    &&& *final(self) == (App { mode: AppMode::Browsing, ..*old(self) })
                    &&& *final(templates) == *old(templates)
                    &&& r.1 == SearchWork::RunModelSearch
                },
                FormKey::Templates => {
                    &&& templates_opened(*old(self), *final(self), *old(templates), *final(templates), SearchTemplateKind::Model)
                    &&& r.1 == SearchWork::Nothing
                },
                _ => {
                    &&& *final(self) == *old(self)
                    &&& *final(templates) == *old(templates)
                    &&& r.1 == SearchWork::Nothing
                },
            },
    {
        let k = form.handle_key(code);
        match k {
            FormKey::Escape | FormKey::Enter => {
                self.mode = AppMode::Browsing;
                (k, SearchWork::RunModelSearch)
            },
            FormKey::Templates => {
                let n = templates.open_search_template_modal(SearchTemplateKind::Model);
                self.apply_notice(&n);
                (k, SearchWork::Nothing)
            },
            _ => (k, SearchWork::Nothing),
        }
    }

    /// Handles a key while the liked-model filter form is open: the form
    /// takes it; Escape and Enter leave the filter for the caller to apply.
    pub fn handle_liked_search_key<S, T, B>(&mut self, form: &mut SearchFormState<S, T, B>, code: KeyCode) -> (r: (FormKey, SearchWork))
        requires
            right_ok(*old(form), code),
        ensures
            form_key_effect(*old(form), *final(form), code, r.0),
            *final(self) == *old(self),
            r.1 == if r.0 == FormKey::Escape || r.0 == FormKey::Enter {
                SearchWork::ApplyLikedQuery
            } else {
                SearchWork::Nothing
            },
    {
        let k = form.handle_key(code);
        if k == FormKey::Escape || k == FormKey::Enter {
            (k, SearchWork::ApplyLikedQuery)
        } else {
            (k, SearchWork::Nothing)
        }
    }

    /// The status line says a model search is under way.
    pub fn note_model_search_started(&mut self, query: &str)
        ensures
            final(self).status@ == searching_models_text(query@),
            *final(self) == (App { status: final(self).status, ..*old(self) }),
    {
        let mut text = String::new();
        text.append("Searching for models: '");
        text.append(query);
        text.append("'...");
        self.status = text;
    }
}


/// What a search asks for, from a form: the query, when not blank; the tags
/// of the tag box; the sort, types and base models as positions in their
/// option lists; the `created_at` window of the period; and the page size.
pub struct SearchPlan {
    pub query: Option<String>,
    pub sort_position: usize,
    pub tags: Vec<String>,
    pub type_positions: Vec<usize>,
    pub base_positions: Vec<usize>,
    pub created_at: Option<String>,
    pub limit: u32,
}

/// The query of a search: the trimmed text, when it is not empty.
pub open spec fn plan_query(q: Seq<char>) -> Option<Seq<char>> {
    if trim(q).len() > 0 {
        Some(trim(q))
    } else {
        None
    }
}

fn strings_of(v: &Vec<Vec<char>>) -> (r: Vec<String>)
    ensures
        r@.map_values(|s: String| s@) == v@.map_values(|c: Vec<char>| c@),
{
    let mut r: Vec<String> = Vec::new();
    let mut i: usize = 0;
    while i < v.len()
        invariant
            i <= v@.len(),
            r@.map_values(|s: String| s@) == v@.subrange(0, i as int).map_values(|c: Vec<char>| c@),
        decreases v@.len() - i,
    {
        let ghost before = r@.map_values(|s: String| s@);
        r.push(string_of(v[i].as_slice()));
        assert(r@.map_values(|s: String| s@) =~= before.push(v@[i as int]@));
        assert(v@.subrange(0, i + 1).map_values(|c: Vec<char>| c@) =~= v@.subrange(0, i as int).map_values(|c: Vec<char>| c@).push(v@[i as int]@));
        i = i + 1;
    }
    assert(v@.subrange(0, v@.len() as int) =~= v@);
    r
}

/// The tags of a comma-separated tag box, trimmed, the empty ones left out.
pub fn tag_list(tag_query: &str) -> (r: Vec<String>)
    ensures
        r@.map_values(|s: String| s@) == query_tags(comma_pieces(tag_query@)),
{
    let pieces = split_on_char(&chars_of(tag_query), ',');
    strings_of(&trimmed_tags(&pieces))
}

fn plan_query_exec(q: &str) -> (r: Option<String>)
    ensures
        match r {
            Some(s) => plan_query(q@) == Some(s@),
            None => plan_query(q@) is None,
        },
{
    let t = trim_chars(&chars_of(q));
    if t.len() > 0 {
        Some(string_of(t.as_slice()))
    } else {
        None
    }
}

impl<S, T, B> SearchFormState<S, T, B> {
    /// The search the form describes; the `created_at` window ends now.
    pub fn build_options(&self) -> (p: SearchPlan)
        ensures
            match p.query {
                Some(s) => plan_query(self.query@) == Some(s@),
                None => plan_query(self.query@) is None,
            },
            p.sort_position == self.selected_sort,
            p.tags@.map_values(|s: String| s@) == query_tags(comma_pieces(self.tag_query@)),
            p.type_positions@ == self.selected_types@,
            p.base_positions@ == self.selected_base_models@,
            self.selected_period < self.periods@.len() ==> exists|now: nat| #[trigger] created_at_window(period_label(self.periods@[self.selected_period as int]), now) == match p.created_at {
                Some(s) => Some(s@),
                None => None,
            },
            self.selected_period >= self.periods@.len() ==> p.created_at is None,
            p.limit == 50,
    {
        let created_at = if self.selected_period < self.periods.len() {
            period_to_created_at(self.periods[self.selected_period].label())
        } else {
            None
        };
        SearchPlan {
            query: plan_query_exec(self.query.as_str()),
            sort_position: self.selected_sort,
            tags: tag_list(self.tag_query.as_str()),
            type_positions: self.selected_types.clone(),
            base_positions: self.selected_base_models.clone(),
            created_at,
            limit: 50,
        }
    }
}

/// What an image search asks for, from the image form: the query, sort,
/// tags, `created_at` window and page size as for models; the chosen media
/// types, base models and aspect ratios by their query values; and extra
/// query parameters as name and value.
pub struct ImageSearchPlan {
    pub query: Option<String>,
    pub sort_position: usize,
    pub media_types: Vec<String>,
    pub tags: Vec<String>,
    pub base_models: Vec<String>,
    pub aspect_ratios: Vec<String>,
    pub created_at: Option<String>,
    pub limit: u32,
    pub extras: Vec<(String, String)>,
}

fn copy_strings(v: &Vec<String>) -> (r: Vec<String>)
    ensures
        r@ == v@,
{
    let mut r: Vec<String> = Vec::new();
    let mut i: usize = 0;
    while i < v.len()
        invariant
            i <= v@.len(),
            r@ == v@.subrange(0, i as int),
        decreases v@.len() - i,
    {
        r.push(v[i].clone());
        assert(r@ =~= v@.subrange(0, i + 1));
        i = i + 1;
    }
    assert(v@.subrange(0, v@.len() as int) =~= v@);
    r
}

/// The image search form: the query, the filter builder's boxes and the
/// option lists they pick from; chosen media types, base models and aspect
/// ratios are kept by their query values, in strictly ascending order (see
/// `law_toggled_text_stays_ascending`).
pub struct ImageSearchFormState<S, M, B, A> {
    pub query: String,
    pub mode: SearchFormMode,
    pub focused_section: ImageSearchFormSection,
    pub sort_options: Vec<S>,
    pub selected_sort: usize,
    pub periods: Vec<SearchPeriod>,
    pub selected_period: usize,
    pub media_type_options: Vec<M>,
    pub media_type_cursor: usize,
    pub selected_media_types: Vec<String>,
    pub tag_query: String,
    pub base_options: Vec<B>,
    pub base_cursor: usize,
    pub selected_base_models: Vec<String>,
    pub aspect_ratio_options: Vec<A>,
    pub aspect_ratio_cursor: usize,
    pub selected_aspect_ratios: Vec<String>,
    pub linked_model_version_id: Option<u64>,
}

impl<S, M, B, A> ImageSearchFormState<S, M, B, A> {
    /// A fresh form in quick-search mode over the given option lists, with
    /// only the media type `default_media_type` (images) chosen.
    pub fn new(
        sort_options: Vec<S>,
        media_type_options: Vec<M>,
        default_media_type: String,
        base_options: Vec<B>,
        aspect_ratio_options: Vec<A>,
    ) -> (f: Self)
        ensures
            f.query@.len() == 0,
            f.mode == SearchFormMode::Quick,
            f.focused_section == ImageSearchFormSection::Query,
            f.sort_options == sort_options,
            f.selected_sort == 0,
            f.periods@ == seq![
                SearchPeriod::AllTime,
                SearchPeriod::Year,
                SearchPeriod::Month,
                SearchPeriod::Week,
                SearchPeriod::Day,
            ],
            f.selected_period == 0,
            f.media_type_options == media_type_options,
            f.media_type_cursor == 0,
            f.selected_media_types@ == seq![default_media_type],
            f.tag_query@.len() == 0,
            f.base_options == base_options,
            f.base_cursor == 0,
            f.selected_base_models@.len() == 0,
            f.aspect_ratio_options == aspect_ratio_options,
            f.aspect_ratio_cursor == 0,
            f.selected_aspect_ratios@.len() == 0,
            f.linked_model_version_id is None,
    {
        let mut media: Vec<String> = Vec::new();
        media.push(default_media_type);
        ImageSearchFormState {
            query: String::new(),
            mode: SearchFormMode::Quick,
            focused_section: ImageSearchFormSection::Query,
            sort_options,
            selected_sort: 0,
            periods: SearchPeriod::all(),
            selected_period: 0,
            media_type_options,
            media_type_cursor: 0,
            selected_media_types: media,
            tag_query: String::new(),
            base_options,
            base_cursor: 0,
            selected_base_models: Vec::new(),
            aspect_ratio_options,
            aspect_ratio_cursor: 0,
            selected_aspect_ratios: Vec::new(),
            linked_model_version_id: None,
        }
    }

    /// Switches to the one-line quick search, focused on the query.
    pub fn begin_quick_search(&mut self)
        ensures
            *final(self) == (ImageSearchFormState {
                mode: SearchFormMode::Quick,
                focused_section: ImageSearchFormSection::Query,
                ..*old(self)
            }),
    {
        self.mode = SearchFormMode::Quick;
        self.focused_section = ImageSearchFormSection::Query;
    }

    /// Opens the filter builder, moving focus off the query box.
    pub fn begin_builder(&mut self)
        ensures
            *final(self) == (ImageSearchFormState {
                mode: SearchFormMode::Builder,
                focused_section: if old(self).focused_section == ImageSearchFormSection::Query {
                    ImageSearchFormSection::Sort
                } else {
                    old(self).focused_section
                },
                ..*old(self)
            }),
    {
        self.mode = SearchFormMode::Builder;
        if self.focused_section == ImageSearchFormSection::Query {
            self.focused_section = ImageSearchFormSection::Sort;
        }
    }

    /// The image search the form describes: as the model search, with the
    /// chosen media types, base models and aspect ratios by their query
    /// values, and a linked model version sent as the extra parameter
    /// `modelVersionId`; the `created_at` window ends now.
    pub fn build_options(&self) -> (p: ImageSearchPlan)
        ensures
            match p.query {
                Some(s) => plan_query(self.query@) == Some(s@),
                None => plan_query(self.query@) is None,
            },
            p.sort_position == self.selected_sort,
            p.media_types@ == self.selected_media_types@,
            p.tags@.map_values(|s: String| s@) == query_tags(comma_pieces(self.tag_query@)),
            p.base_models@ == self.selected_base_models@,
            p.aspect_ratios@ == self.selected_aspect_ratios@,
            self.selected_period < self.periods@.len() ==> exists|now: nat| #[trigger] created_at_window(period_label(self.periods@[self.selected_period as int]), now) == match p.created_at {
                Some(s) => Some(s@),
                None => None,
            },
            self.selected_period >= self.periods@.len() ==> p.created_at is None,
            p.limit == 50,
            match self.linked_model_version_id {
                Some(id) => p.extras@.len() == 1 && p.extras@[0].0@ == "modelVersionId"@
                    && p.extras@[0].1@ == decimal(id as nat),
                None => p.extras@.len() == 0,
            },
    {
        let created_at = if self.selected_period < self.periods.len() {
            period_to_created_at(self.periods[self.selected_period].label())
        } else {
            None
        };
        let mut extras: Vec<(String, String)> = Vec::new();
        match self.linked_model_version_id {
            Some(id) => {
                extras.push((String::from_str("modelVersionId"), string_of(decimal_chars(id).as_slice())));
            },
            None => {},
        }
        ImageSearchPlan {
            query: plan_query_exec(self.query.as_str()),
            sort_position: self.selected_sort,
            media_types: copy_strings(&self.selected_media_types),
            tags: tag_list(self.tag_query.as_str()),
            base_models: copy_strings(&self.selected_base_models),
            aspect_ratios: copy_strings(&self.selected_aspect_ratios),
            created_at,
            limit: 50,
            extras,
        }
    }

    /// Links the search to one model version.
    pub fn set_linked_model_version(&mut self, version_id: Option<u64>)
        ensures
            *final(self) == (ImageSearchFormState { linked_model_version_id: version_id, ..*old(self) }),
    {
        self.linked_model_version_id = version_id;
    }
}

proof fn lemma_inserted_ascending(chosen: Seq<usize>, p: usize)
    requires
        strictly_ascending(chosen),
        !chosen.contains(p),
    ensures
        strictly_ascending(inserted_ascending(chosen, p)),
        inserted_ascending(chosen, p).len() == chosen.len() + 1,
        forall|k: int| 0 <= k < inserted_ascending(chosen, p).len() ==> (#[trigger] inserted_ascending(chosen, p)[k]
            == p || chosen.contains(inserted_ascending(chosen, p)[k])),
        inserted_ascending(chosen, p).contains(p),
        forall|k: int| 0 <= k < chosen.len() ==> inserted_ascending(chosen, p).contains(#[trigger] chosen[k]),
    decreases chosen.len(),
{
    let r = inserted_ascending(chosen, p);
    if chosen.len() == 0 {
        assert(r[0] == p);
    } else if p < chosen.last() {
        let init = chosen.drop_last();
        let last = chosen.last();
        assert(!init.contains(p)) by {
            if init.contains(p) {
                let j = choose|j: int| 0 <= j < init.len() && init[j] == p;
                assert(chosen[j] == p);
            }
        }
        assert forall|i: int, j: int| 0 <= i < j < init.len() implies #[trigger] init[i] < #[trigger] init[j] by {
            assert(init[i] == chosen[i] && init[j] == chosen[j]);
        }
        lemma_inserted_ascending(init, p);
        let inner = inserted_ascending(init, p);
        assert(r == inner.push(last));
        assert forall|i: int, j: int| 0 <= i < j < r.len() implies #[trigger] r[i] < #[trigger] r[j] by {
            if j == r.len() - 1 {
                assert(r[i] == inner[i]);
                if inner[i] != p {
                    let m = choose|m: int| 0 <= m < init.len() && init[m] == inner[i];
                    assert(chosen[m] == init[m]);
                    assert(chosen[m] < chosen[chosen.len() - 1]);
                }
            } else {
                assert(r[i] == inner[i] && r[j] == inner[j]);
            }
        }
        assert forall|k: int| 0 <= k < r.len() implies (#[trigger] r[k] == p || chosen.contains(r[k])) by {
            if k == r.len() - 1 {
                assert(chosen[chosen.len() - 1] == last);
            } else {
                assert(r[k] == inner[k]);
                if inner[k] != p {
                    let m = choose|m: int| 0 <= m < init.len() && init[m] == inner[k];
                    assert(chosen[m] == init[m]);
                }
            }
        }
        assert(r.contains(p)) by {
            let m = choose|m: int| 0 <= m < inner.len() && inner[m] == p;
            assert(r[m] == inner[m]);
        }
        assert forall|k: int| 0 <= k < chosen.len() implies r.contains(#[trigger] chosen[k]) by {
            if k == chosen.len() - 1 {
                assert(r[r.len() - 1] == last);
            } else {
                assert(init[k] == chosen[k]);
                assert(inner.contains(init[k]));
                let m = choose|m: int| 0 <= m < inner.len() && inner[m] == init[k];
                assert(r[m] == inner[m]);
            }
        }
    } else {
        assert(r == chosen.push(p));
        assert forall|i: int, j: int| 0 <= i < j < r.len() implies #[trigger] r[i] < #[trigger] r[j] by {
            if j == r.len() - 1 {
                assert(r[i] == chosen[i]);
                assert(r[j] == p);
                if i < chosen.len() - 1 {
                    assert(chosen[i] < chosen[chosen.len() - 1]);
                }
                assert(chosen[i] != p);
            } else {
                assert(r[i] == chosen[i] && r[j] == chosen[j]);
            }
        }
        assert(r[r.len() - 1] == p);
        assert forall|k: int| 0 <= k < r.len() implies (#[trigger] r[k] == p || chosen.contains(r[k])) by {
            if k < chosen.len() {
                assert(r[k] == chosen[k]);
            }
        }
        assert forall|k: int| 0 <= k < chosen.len() implies r.contains(#[trigger] chosen[k]) by {
            assert(r[k] == chosen[k]);
        }
    }
}

proof fn lemma_without_position(chosen: Seq<usize>, p: usize)
    requires
        strictly_ascending(chosen),
    ensures
        strictly_ascending(without_position(chosen, p)),
        !without_position(chosen, p).contains(p),
        forall|k: int|
            0 <= k < without_position(chosen, p).len() ==> chosen.contains(#[trigger] without_position(chosen, p)[k]),
    decreases chosen.len(),
{
    if chosen.len() > 0 {
        let init = chosen.drop_last();
        let last = chosen.last();
        assert forall|i: int, j: int| 0 <= i < j < init.len() implies #[trigger] init[i] < #[trigger] init[j] by {
            assert(init[i] == chosen[i] && init[j] == chosen[j]);
        }
        lemma_without_position(init, p);
        let w = without_position(init, p);
        let r = without_position(chosen, p);
        assert forall|k: int| 0 <= k < w.len() implies #[trigger] w[k] < last && chosen.contains(w[k]) by {
            let m = choose|m: int| 0 <= m < init.len() && init[m] == w[k];
            assert(chosen[m] == init[m]);
            assert(chosen[m] < chosen[chosen.len() - 1]);
        }
        if last != p {
            assert(r == w.push(last));
            assert forall|i: int, j: int| 0 <= i < j < r.len() implies #[trigger] r[i] < #[trigger] r[j] by {
                assert(r[i] == w[i]);
                if j < w.len() {
                    assert(r[j] == w[j]);
                }
            }
            assert(!r.contains(p)) by {
                if r.contains(p) {
                    let m = choose|m: int| 0 <= m < r.len() && r[m] == p;
                    if m < w.len() {
                        assert(w[m] == r[m]);
                    }
                }
            }
            assert forall|k: int| 0 <= k < r.len() implies chosen.contains(#[trigger] r[k]) by {
                if k < w.len() {
                    assert(r[k] == w[k]);
                } else {
                    assert(chosen[chosen.len() - 1] == last);
                }
            }
        }
    }
}

/// Toggling a choice keeps the chosen positions strictly ascending, as the
/// sorted set of choices is kept.
pub proof fn law_toggled_stays_ascending(chosen: Seq<usize>, p: usize)
    requires
        strictly_ascending(chosen),
    ensures
        strictly_ascending(toggled(chosen, p)),
        toggled(chosen, p).contains(p) == !chosen.contains(p),
{
    if chosen.contains(p) {
        lemma_without_position(chosen, p);
    } else {
        lemma_inserted_ascending(chosen, p);
    }
}

proof fn lemma_without_absent_position(s: Seq<usize>, p: usize)
    requires
        !s.contains(p),
    ensures
        without_position(s, p) == s,
    decreases s.len(),
{
    if s.len() > 0 {
        assert(!s.drop_last().contains(p)) by {
            if s.drop_last().contains(p) {
                let j = choose|j: int| 0 <= j < s.drop_last().len() && s.drop_last()[j] == p;
                assert(s[j] == p);
            }
        }
        lemma_without_absent_position(s.drop_last(), p);
        assert(s.last() != p) by {
            assert(s[s.len() - 1] == s.last());
        }
        assert(s.drop_last().push(s.last()) =~= s);
    }
}

proof fn lemma_without_inserted_position(chosen: Seq<usize>, p: usize)
    requires
        !chosen.contains(p),
    ensures
        without_position(inserted_ascending(chosen, p), p) == chosen,
    decreases chosen.len(),
{
    if chosen.len() == 0 {
        let one = seq![p];
        assert(one.drop_last() =~= Seq::<usize>::empty());
        assert(one.last() == p);
        assert(without_position(one, p) == without_position(one.drop_last(), p));
        assert(inserted_ascending(chosen, p) == one);
    } else {
        let init = chosen.drop_last();
        assert(!init.contains(p)) by {
            if init.contains(p) {
                let j = choose|j: int| 0 <= j < init.len() && init[j] == p;
                assert(chosen[j] == p);
            }
        }
        assert(chosen.last() != p) by {
            assert(chosen[chosen.len() - 1] == chosen.last());
        }
        if p < chosen.last() {
            lemma_without_inserted_position(init, p);
            let r = inserted_ascending(init, p).push(chosen.last());
            assert(r.drop_last() =~= inserted_ascending(init, p));
            assert(r.last() == chosen.last());
            assert(inserted_ascending(chosen, p) == r);
            assert(without_position(r, p) == without_position(inserted_ascending(init, p), p).push(chosen.last()));
        } else {
            lemma_without_absent_position(chosen, p);
            let r = chosen.push(p);
            assert(r.drop_last() =~= chosen);
            assert(r.last() == p);
            assert(inserted_ascending(chosen, p) == r);
            assert(without_position(r, p) == without_position(chosen, p));
        }
        assert(init.push(chosen.last()) =~= chosen);
    }
}

proof fn lemma_inserted_without_position(chosen: Seq<usize>, p: usize)
    requires
        strictly_ascending(chosen),
        chosen.contains(p),
    ensures
        inserted_ascending(without_position(chosen, p), p) == chosen,
    decreases chosen.len(),
{
    let init = chosen.drop_last();
    let last = chosen.last();
    assert(strictly_ascending(init)) by {
        assert forall|i: int, j: int| 0 <= i < j < init.len() implies #[trigger] init[i] < #[trigger] init[j] by {
            assert(init[i] == chosen[i] && init[j] == chosen[j]);
        }
    }
    assert(init.push(last) =~= chosen);
    if last == p {
        assert(!init.contains(p)) by {
            if init.contains(p) {
                let j = choose|j: int| 0 <= j < init.len() && init[j] == p;
                assert(chosen[j] < chosen[chosen.len() - 1]);
            }
        }
        lemma_without_absent_position(init, p);
        if init.len() > 0 {
            assert(init.last() == chosen[chosen.len() - 2]);
            assert(chosen[chosen.len() - 2] < chosen[chosen.len() - 1]);
        } else {
            assert(chosen =~= seq![p]);
        }
    } else {
        let k = choose|k: int| 0 <= k < chosen.len() && chosen[k] == p;
        assert(k < chosen.len() - 1);
        assert(init[k] == p);
        assert(p < last) by {
            assert(chosen[k] < chosen[chosen.len() - 1]);
        }
        lemma_inserted_without_position(init, p);
        let w = without_position(init, p);
        assert(without_position(chosen, p) == w.push(last));
        assert(w.push(last).drop_last() =~= w);
        assert(w.push(last).last() == last);
    }
}

/// Space on the same type or base model twice leaves the choices as they were,
/// and Left undoes Right (and Right undoes Left) on a cursor within its list.
pub proof fn law_form_steps_undo(chosen: Seq<usize>, p: usize, i: usize, len: nat)
    requires
        strictly_ascending(chosen),
    ensures
        toggled(toggled(chosen, p), p) == chosen,
        i < len && len <= usize::MAX ==> cursor_back(cursor_on(i, len), len) == i && cursor_on(cursor_back(i, len), len)
            == i && cursor_on(i, len) < len && cursor_back(i, len) < len,
{
    law_toggled_stays_ascending(chosen, p);
    if i < len && len <= usize::MAX {
        vstd::arithmetic::div_mod::lemma_mod_self_0(len as int);
        if i + 1 < len {
            vstd::arithmetic::div_mod::lemma_small_mod((i + 1) as nat, len);
        }
        if i > 0 {
            vstd::arithmetic::div_mod::lemma_small_mod(i as nat, len);
        }
    }
    if chosen.contains(p) {
        lemma_without_position(chosen, p);
        lemma_inserted_without_position(chosen, p);
    } else {
        lemma_without_inserted_position(chosen, p);
    }
}

} // verus!
