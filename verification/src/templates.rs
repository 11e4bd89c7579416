use vstd::prelude::*;

use crate::chars::{ascii_lower_chars, ascii_lower_seq, chars_of, string_of, trim, trim_chars};
use crate::forms::SearchTemplateKind;
use crate::image::same_chars;
use crate::sorting::{
    law_stable_sorted_keys_ascend, lemma_stable_sorted_entries, pairs_view, sort_by_text_key,
    stable_sorted, text_lt,
};
use crate::status::StatusLevel;
use crate::text::{to_lowercase, unicode_lowercase};

verus! {

/// A saved model search under a name.
pub struct ModelSearchTemplate<S> {
    pub name: String,
    pub state: S,
}

/// A saved image search under a name.
pub struct ImageSearchTemplate<S> {
    pub name: String,
    pub state: S,
}

/// Every saved search, as written to the template file.
pub struct SearchTemplateStore<M, I> {
    pub model_templates: Vec<ModelSearchTemplate<M>>,
    pub image_templates: Vec<ImageSearchTemplate<I>>,
}

/// A message for the status line.
pub struct Notice {
    pub level: StatusLevel,
    pub text: String,
}

/// The template window: the saved searches, which list it shows, the
/// selection and the name being typed.
pub struct SearchTemplates<M, I> {
    pub model_search_templates: Vec<ModelSearchTemplate<M>>,
    pub image_search_templates: Vec<ImageSearchTemplate<I>>,
    pub show_search_template_modal: bool,
    pub search_template_kind: SearchTemplateKind,
    pub selected_search_template_index: usize,
    pub search_template_name_draft: String,
    pub search_template_name_editing: bool,
}

/// The number of templates of the kind shown.
pub open spec fn shown_len<M, I>(t: SearchTemplates<M, I>) -> int {
    match t.search_template_kind {
        SearchTemplateKind::Model => t.model_search_templates@.len() as int,
        SearchTemplateKind::Image => t.image_search_templates@.len() as int,
    }
}

/// An index moved back into `0..len`, or 0 for an empty list.
pub open spec fn clamped(i: int, len: int) -> int {
    if len <= 0 {
        0
    } else if i >= len {
        len - 1
    } else {
        i
    }
}

/// The saved searches are the same.
pub open spec fn same_lists<M, I>(a: SearchTemplates<M, I>, b: SearchTemplates<M, I>) -> bool {
    &&& a.model_search_templates == b.model_search_templates
    &&& a.image_search_templates == b.image_search_templates
}

/// Names compared without ASCII case, as `eq_ignore_ascii_case` does.
pub open spec fn same_name(a: Seq<char>, b: Seq<char>) -> bool {
    ascii_lower_seq(a) == ascii_lower_seq(b)
}

/// Model templates keyed by their lower-case name.
pub open spec fn keyed_models<M>(s: Seq<ModelSearchTemplate<M>>) -> Seq<(ModelSearchTemplate<M>, Seq<char>)> {
    s.map_values(|t: ModelSearchTemplate<M>| (t, unicode_lowercase(t.name@)))
}

/// Image templates keyed by their lower-case name.
pub open spec fn keyed_images<I>(s: Seq<ImageSearchTemplate<I>>) -> Seq<(ImageSearchTemplate<I>, Seq<char>)> {
    s.map_values(|t: ImageSearchTemplate<I>| (t, unicode_lowercase(t.name@)))
}

/// The entries of keyed pairs.
pub open spec fn unkeyed<T>(s: Seq<(T, Seq<char>)>) -> Seq<T> {
    s.map_values(|p: (T, Seq<char>)| p.0)
}

/// The first template whose name matches without ASCII case.
pub open spec fn name_match_index(names: Seq<Seq<char>>, name: Seq<char>) -> Option<int> {
    if exists|i: int| 0 <= i < names.len() && same_name(#[trigger] names[i], name) {
        Some(choose|i: int| 0 <= i < names.len() && same_name(#[trigger] names[i], name) && forall|j: int| 0 <= j < i ==> !same_name(#[trigger] names[j], name))
    } else {
        None
    }
}

/// The template list after saving under a name: a template whose name matches
/// it without ASCII case takes the name and the state, else the new template
/// goes last.
pub open spec fn saved_list<T>(list: Seq<T>, names: Seq<Seq<char>>, name: Seq<char>, t: T) -> Seq<T> {
    match name_match_index(names, name) {
        Some(i) => list.update(i, t),
        None => list.push(t),
    }
}

fn reverse_vec<T>(v: Vec<T>) -> (r: Vec<T>)
    ensures
        r@ == v@.reverse(),
{
    let mut src = v;
    let ghost orig = src@;
    let mut r: Vec<T> = Vec::new();
    while src.len() > 0
        invariant
            src@ == orig.subrange(0, src@.len() as int),
            r@ == orig.subrange(src@.len() as int, orig.len() as int).reverse(),
            src@.len() <= orig.len(),
        decreases src@.len(),
    {
        let ghost before = src@.len();
        let x = src.pop().unwrap();
        r.push(x);
        proof {
            assert(src@ =~= orig.subrange(0, src@.len() as int));
            assert(r@ =~= orig.subrange(src@.len() as int, orig.len() as int).reverse());
        }
    }
    proof {
        assert(orig.subrange(0, orig.len() as int) =~= orig);
    }
    r
}

fn model_keyed<M>(list: Vec<ModelSearchTemplate<M>>) -> (r: Vec<(ModelSearchTemplate<M>, Vec<char>)>)
    ensures
        pairs_view(r@) == keyed_models(list@),
{
    let ghost orig = list@;
    let mut rev = reverse_vec(list);
    let mut r: Vec<(ModelSearchTemplate<M>, Vec<char>)> = Vec::new();
    while rev.len() > 0
        invariant
            rev@.len() <= orig.len(),
            rev@ == orig.subrange(r@.len() as int, orig.len() as int).reverse(),
            r@.len() + rev@.len() == orig.len(),
            pairs_view(r@) == keyed_models(orig.subrange(0, r@.len() as int)),
        decreases rev@.len(),
    {
        let t = rev.pop().unwrap();
        let key = chars_of(to_lowercase(t.name.as_str()).as_str());
        let ghost k = r@.len();
        assert(t == orig[k as int]) by {
            assert(orig.subrange(k as int, orig.len() as int).reverse().last() == orig[k as int]);
        }
        let ghost before = r@;
        let ghost kv = key@;
        assert(kv == unicode_lowercase(orig[k as int].name@));
        r.push((t, key));
        proof {
            assert(rev@ =~= orig.subrange(r@.len() as int, orig.len() as int).reverse());
            assert(pairs_view(r@) =~= pairs_view(before).push((orig[k as int], kv)));
            assert(orig.subrange(0, k as int + 1) =~= orig.subrange(0, k as int).push(orig[k as int]));
            assert(keyed_models(orig.subrange(0, k as int + 1)) =~= keyed_models(orig.subrange(0, k as int)).push((orig[k as int], kv)));
        }
    }
    proof {
        assert(orig.subrange(0, orig.len() as int) =~= orig);
    }
    r
}

fn image_keyed<I>(list: Vec<ImageSearchTemplate<I>>) -> (r: Vec<(ImageSearchTemplate<I>, Vec<char>)>)
    ensures
        pairs_view(r@) == keyed_images(list@),
{
    let ghost orig = list@;
    let mut rev = reverse_vec(list);
    let mut r: Vec<(ImageSearchTemplate<I>, Vec<char>)> = Vec::new();
    while rev.len() > 0
        invariant
            rev@.len() <= orig.len(),
            rev@ == orig.subrange(r@.len() as int, orig.len() as int).reverse(),
            r@.len() + rev@.len() == orig.len(),
            pairs_view(r@) == keyed_images(orig.subrange(0, r@.len() as int)),
        decreases rev@.len(),
    {
        let t = rev.pop().unwrap();
        let key = chars_of(to_lowercase(t.name.as_str()).as_str());
        let ghost k = r@.len();
        assert(t == orig[k as int]) by {
            assert(orig.subrange(k as int, orig.len() as int).reverse().last() == orig[k as int]);
        }
        let ghost before = r@;
        let ghost kv = key@;
        assert(kv == unicode_lowercase(orig[k as int].name@));
        r.push((t, key));
        proof {
            assert(rev@ =~= orig.subrange(r@.len() as int, orig.len() as int).reverse());
            assert(pairs_view(r@) =~= pairs_view(before).push((orig[k as int], kv)));
            assert(orig.subrange(0, k as int + 1) =~= orig.subrange(0, k as int).push(orig[k as int]));
            assert(keyed_images(orig.subrange(0, k as int + 1)) =~= keyed_images(orig.subrange(0, k as int)).push((orig[k as int], kv)));
        }
    }
    proof {
        assert(orig.subrange(0, orig.len() as int) =~= orig);
    }
    r
}

fn unkey<T>(pairs: Vec<(T, Vec<char>)>) -> (r: Vec<T>)
    ensures
        r@ == unkeyed(pairs_view(pairs@)),
{
    let ghost orig = pairs_view(pairs@);
    let mut rev = reverse_vec(pairs);
    let mut r: Vec<T> = Vec::new();
    while rev.len() > 0
        invariant
            rev@.len() <= orig.len(),
            pairs_view(rev@) == orig.subrange(r@.len() as int, orig.len() as int).reverse(),
            r@.len() + rev@.len() == orig.len(),
            r@ == unkeyed(orig.subrange(0, r@.len() as int)),
        decreases rev@.len(),
    {
        let ghost k = r@.len();
        let ghost rv = pairs_view(rev@);
        let p = rev.pop().unwrap();
        proof {
            assert(rv.last() == (p.0, p.1@));
            assert(orig.subrange(k as int, orig.len() as int).reverse().last() == orig[k as int]);
            assert(pairs_view(rev@) =~= rv.drop_last());
        }
        r.push(p.0);
        proof {
            assert(pairs_view(rev@) =~= orig.subrange(r@.len() as int, orig.len() as int).reverse());
            assert(r@ =~= unkeyed(orig.subrange(0, r@.len() as int)));
        }
    }
    proof {
        assert(orig.subrange(0, orig.len() as int) =~= orig);
    }
    r
}

/// The names of model templates.
pub open spec fn model_names<M>(s: Seq<ModelSearchTemplate<M>>) -> Seq<Seq<char>> {
    s.map_values(|t: ModelSearchTemplate<M>| t.name@)
}

/// The names of image templates.
pub open spec fn image_names<I>(s: Seq<ImageSearchTemplate<I>>) -> Seq<Seq<char>> {
    s.map_values(|t: ImageSearchTemplate<I>| t.name@)
}

proof fn lemma_name_match_at(names: Seq<Seq<char>>, name: Seq<char>, i: int)
    requires
        0 <= i < names.len(),
        same_name(names[i], name),
        forall|j: int| 0 <= j < i ==> !same_name(#[trigger] names[j], name),
    ensures
        name_match_index(names, name) == Some(i),
{
    let c = choose|c: int| 0 <= c < names.len() && same_name(#[trigger] names[c], name) && forall|j: int| 0 <= j < c ==> !same_name(#[trigger] names[j], name);
    if c < i {
        assert(!same_name(names[c], name));
    } else if c > i {
        assert(!same_name(names[i], name));
    }
}

fn find_name(names: &Vec<Vec<char>>, name: &Vec<char>) -> (r: Option<usize>)
    ensures
        match r {
            Some(i) => i < names@.len() && name_match_index(seq_views(names@), name@) == Some(i as int),
            None => name_match_index(seq_views(names@), name@) is None,
        },
{
    let ghost v = seq_views(names@);
    let mut i: usize = 0;
    while i < names.len()
        invariant
            i <= names@.len(),
            v == seq_views(names@),
            forall|j: int| 0 <= j < i ==> !same_name(#[trigger] v[j], name@),
        decreases names@.len() - i,
    {
        assert(v[i as int] == names@[i as int]@);
        let a = ascii_lower_chars(&names[i]);
        let b = ascii_lower_chars(name);
        if same_chars(&a, &b) {
            proof {
                lemma_name_match_at(v, name@, i as int);
            }
            return Some(i);
        }
        i = i + 1;
    }
    proof {
        assert forall|j: int| 0 <= j < v.len() implies !same_name(#[trigger] v[j], name@) by {}
    }
    None
}

/// The texts of character vectors.
pub open spec fn seq_views(s: Seq<Vec<char>>) -> Seq<Seq<char>> {
    s.map_values(|v: Vec<char>| v@)
}

/// `Saved template "<name>"`.
pub open spec fn saved_message(name: Seq<char>) -> Seq<char> {
    "Saved template "@ + "\""@ + name + "\""@
}

/// `Deleted template "<name>"`.
pub open spec fn deleted_message(name: Seq<char>) -> Seq<char> {
    "Deleted template "@ + "\""@ + name + "\""@
}

fn quoted_message(prefix: &str, name: &str) -> (r: String)
    ensures
        r@ == prefix@ + "\""@ + name@ + "\""@,
{
    let mut r = String::new();
    r.append(prefix);
    r.append("\"");
    r.append(name);
    r.append("\"");
    r
}

fn notice(level: StatusLevel, text: &str) -> (n: Notice)
    ensures
        n.level == level,
        n.text@ == text@,
{
    Notice { level, text: text.to_owned() }
}

impl<M, I> SearchTemplates<M, I> {
    /// The template window, closed, over the saved searches of a store.
    pub fn new(store: SearchTemplateStore<M, I>) -> (t: SearchTemplates<M, I>)
        ensures
            t.model_search_templates == store.model_templates,
            t.image_search_templates == store.image_templates,
            !t.show_search_template_modal,
            t.search_template_kind == SearchTemplateKind::Model,
            t.selected_search_template_index == 0,
            t.search_template_name_draft@.len() == 0,
            !t.search_template_name_editing,
    {
        SearchTemplates {
            model_search_templates: store.model_templates,
            image_search_templates: store.image_templates,
            show_search_template_modal: false,
            search_template_kind: SearchTemplateKind::Model,
            selected_search_template_index: 0,
            search_template_name_draft: String::new(),
            search_template_name_editing: false,
        }
    }

    /// Moves the selection back into the list shown.
    pub fn clamp_search_template_selection(&mut self)
        ensures
            final(self).selected_search_template_index == clamped(
                old(self).selected_search_template_index as int,
                shown_len(*old(self)),
            ),
            same_lists(*old(self), *final(self)),
            final(self).search_template_kind == old(self).search_template_kind,
            final(self).show_search_template_modal == old(self).show_search_template_modal,
            final(self).search_template_name_draft == old(self).search_template_name_draft,
            final(self).search_template_name_editing == old(self).search_template_name_editing,
    {
        let len = match self.search_template_kind {
            SearchTemplateKind::Model => self.model_search_templates.len(),
            SearchTemplateKind::Image => self.image_search_templates.len(),
        };
        if len == 0 {
            self.selected_search_template_index = 0;
        } else if self.selected_search_template_index >= len {
            self.selected_search_template_index = len - 1;
        }
    }

    /// Opens the window on the templates of a kind, not typing a name.
    pub fn open_search_template_modal(&mut self, kind: SearchTemplateKind) -> (n: Notice)
        ensures
            final(self).show_search_template_modal,
            final(self).search_template_kind == kind,
            !final(self).search_template_name_editing,
            final(self).search_template_name_draft@.len() == 0,
            final(self).selected_search_template_index == clamped(
                old(self).selected_search_template_index as int,
                shown_len(*final(self)),
            ),
            same_lists(*old(self), *final(self)),
            n.level == StatusLevel::Info,
            n.text@ == match kind {
                SearchTemplateKind::Model => "Model search templates opened"@,
                SearchTemplateKind::Image => "Image search templates opened"@,
            },
    {
        self.show_search_template_modal = true;
        self.search_template_kind = kind;
        self.search_template_name_editing = false;
        self.search_template_name_draft = String::new();
        self.clamp_search_template_selection();
        match kind {
            SearchTemplateKind::Model => notice(StatusLevel::Info, "Model search templates opened"),
            SearchTemplateKind::Image => notice(StatusLevel::Info, "Image search templates opened"),
        }
    }

    /// Closes the window and drops the name being typed.
    pub fn close_search_template_modal(&mut self)
        ensures
            !final(self).show_search_template_modal,
            !final(self).search_template_name_editing,
            final(self).search_template_name_draft@.len() == 0,
            final(self).selected_search_template_index == old(self).selected_search_template_index,
            final(self).search_template_kind == old(self).search_template_kind,
            same_lists(*old(self), *final(self)),
    {
        self.show_search_template_modal = false;
        self.search_template_name_editing = false;
        self.search_template_name_draft = String::new();
    }

    /// Starts typing a name for the current search.
    pub fn begin_search_template_save(&mut self) -> (n: Notice)
        ensures
            final(self).search_template_name_editing,
            final(self).search_template_name_draft@.len() == 0,
            final(self).selected_search_template_index == old(self).selected_search_template_index,
            final(self).search_template_kind == old(self).search_template_kind,
            final(self).show_search_template_modal == old(self).show_search_template_modal,
            same_lists(*old(self), *final(self)),
            n.level == StatusLevel::Info,
            n.text@ == "Type a template name and press Enter to save"@,
    {
        self.search_template_name_editing = true;
        self.search_template_name_draft = String::new();
        notice(StatusLevel::Info, "Type a template name and press Enter to save")
    }

    /// Selects the next template, stopping at the last one.
    pub fn select_next_search_template(&mut self)
        ensures
            final(self).selected_search_template_index == if old(self).selected_search_template_index + 1 < shown_len(*old(self)) {
                old(self).selected_search_template_index + 1
            } else {
                old(self).selected_search_template_index as int
            },
            same_lists(*old(self), *final(self)),
            final(self).search_template_kind == old(self).search_template_kind,
            final(self).show_search_template_modal == old(self).show_search_template_modal,
            final(self).search_template_name_editing == old(self).search_template_name_editing,
            final(self).search_template_name_draft == old(self).search_template_name_draft,
    {
        let len = match self.search_template_kind {
            SearchTemplateKind::Model => self.model_search_templates.len(),
            SearchTemplateKind::Image => self.image_search_templates.len(),
        };
        if len > 0 && self.selected_search_template_index < len - 1 {
            self.selected_search_template_index = self.selected_search_template_index + 1;
        }
    }

    /// Selects the previous template, stopping at the first one.
    pub fn select_previous_search_template(&mut self)
        ensures
            final(self).selected_search_template_index == if old(self).selected_search_template_index > 0 {
                old(self).selected_search_template_index - 1
            } else {
                0
            },
            same_lists(*old(self), *final(self)),
            final(self).search_template_kind == old(self).search_template_kind,
            final(self).show_search_template_modal == old(self).show_search_template_modal,
            final(self).search_template_name_editing == old(self).search_template_name_editing,
            final(self).search_template_name_draft == old(self).search_template_name_draft,
    {
        if self.selected_search_template_index > 0 {
            self.selected_search_template_index = self.selected_search_template_index - 1;
        }
    }

    /// The names of the templates shown, in order.
    pub fn search_template_names(&self) -> (r: Vec<String>)
        ensures
            r@.len() == shown_len(*self),
            forall|i: int| 0 <= i < r@.len() ==> (#[trigger] r@[i])@ == match self.search_template_kind {
                SearchTemplateKind::Model => self.model_search_templates@[i].name@,
                SearchTemplateKind::Image => self.image_search_templates@[i].name@,
            },
    {
        let mut r: Vec<String> = Vec::new();
        match self.search_template_kind {
            SearchTemplateKind::Model => {
                let mut i: usize = 0;
                while i < self.model_search_templates.len()
                    invariant
                        i <= self.model_search_templates@.len(),
                        self.search_template_kind == SearchTemplateKind::Model,
                        r@.len() == i,
                        forall|j: int| 0 <= j < i ==> (#[trigger] r@[j])@ == self.model_search_templates@[j].name@,
                    decreases self.model_search_templates@.len() - i,
                {
                    r.push(self.model_search_templates[i].name.clone());
                    i = i + 1;
                }
            },
            SearchTemplateKind::Image => {
                let mut i: usize = 0;
                while i < self.image_search_templates.len()
                    invariant
                        i <= self.image_search_templates@.len(),
                        self.search_template_kind == SearchTemplateKind::Image,
                        r@.len() == i,
                        forall|j: int| 0 <= j < i ==> (#[trigger] r@[j])@ == self.image_search_templates@[j].name@,
                    decreases self.image_search_templates@.len() - i,
                {
                    r.push(self.image_search_templates[i].name.clone());
                    i = i + 1;
                }
            },
        }
        r
    }

    /// Saves the current search under the trimmed name being typed: a template
    /// of the kind shown whose name matches without ASCII case is replaced,
    /// else the new one is added; the list is sorted by lower-case name and the
    /// name entry ends. A blank name saves nothing. The caller writes the
    /// templates to disk.
    pub fn save_current_search_template(&mut self, model_state: M, image_state: I) -> (n: Notice)
        ensures
            ({
                let name = trim(old(self).search_template_name_draft@);
                if name.len() == 0 {
                    &&& n.level == StatusLevel::Warn
                    &&& n.text@ == "Template name cannot be empty."@
                    &&& *final(self) == *old(self)
                } else {
                    &&& n.level == StatusLevel::Info
                    &&& n.text@ == saved_message(name)
                    &&& !final(self).search_template_name_editing
                    &&& final(self).search_template_name_draft@.len() == 0
                    &&& final(self).search_template_kind == old(self).search_template_kind
                    &&& final(self).show_search_template_modal == old(self).show_search_template_modal
                    &&& final(self).selected_search_template_index == clamped(old(self).selected_search_template_index as int, shown_len(*final(self)))
                    &&& match old(self).search_template_kind {
                        SearchTemplateKind::Model => {
                            &&& final(self).image_search_templates == old(self).image_search_templates
                            &&& exists|t: ModelSearchTemplate<M>| t.name@ == name && t.state == model_state
                                && final(self).model_search_templates@ == unkeyed(stable_sorted(keyed_models(
                                    #[trigger] saved_list(old(self).model_search_templates@, model_names(old(self).model_search_templates@), name, t),
                                )))
                        },
                        SearchTemplateKind::Image => {
                            &&& final(self).model_search_templates == old(self).model_search_templates
                            &&& exists|t: ImageSearchTemplate<I>| t.name@ == name && t.state == image_state
                                && final(self).image_search_templates@ == unkeyed(stable_sorted(keyed_images(
                                    #[trigger] saved_list(old(self).image_search_templates@, image_names(old(self).image_search_templates@), name, t),
                                )))
                        },
                    }
                }
            }),
    {
        let draft = chars_of(self.search_template_name_draft.as_str());
        let name = trim_chars(&draft);
        if name.len() == 0 {
            return notice(StatusLevel::Warn, "Template name cannot be empty.");
        }
        let name_text = string_of(name.as_slice());
        match self.search_template_kind {
            SearchTemplateKind::Model => {
                let mut list: Vec<ModelSearchTemplate<M>> = Vec::new();
                std::mem::swap(&mut list, &mut self.model_search_templates);
                let ghost old_list = list@;
                let mut names: Vec<Vec<char>> = Vec::new();
                let mut i: usize = 0;
                while i < list.len()
                    invariant
                        i <= list@.len(),
                        names@.len() == i,
                        forall|j: int| 0 <= j < i ==> (#[trigger] names@[j])@ == list@[j].name@,
                    decreases list@.len() - i,
                {
                    names.push(chars_of(list[i].name.as_str()));
                    i = i + 1;
                }
                assert(seq_views(names@) =~= model_names(list@));
                let t = ModelSearchTemplate { name: name_text.clone(), state: model_state };
                let ghost tg = t;
                match find_name(&names, &name) {
                    Some(idx) => {
                        list.set(idx, t);
                    },
                    None => {
                        list.push(t);
                    },
                }
                assert(list@ == saved_list(old_list, model_names(old_list), name@, tg));
                let mut keyed = model_keyed(list);
                sort_by_text_key(&mut keyed);
                self.model_search_templates = unkey(keyed);
            },
            SearchTemplateKind::Image => {
                let mut list: Vec<ImageSearchTemplate<I>> = Vec::new();
                std::mem::swap(&mut list, &mut self.image_search_templates);
                let ghost old_list = list@;
                let mut names: Vec<Vec<char>> = Vec::new();
                let mut i: usize = 0;
                while i < list.len()
                    invariant
                        i <= list@.len(),
                        names@.len() == i,
                        forall|j: int| 0 <= j < i ==> (#[trigger] names@[j])@ == list@[j].name@,
                    decreases list@.len() - i,
                {
                    names.push(chars_of(list[i].name.as_str()));
                    i = i + 1;
                }
                assert(seq_views(names@) =~= image_names(list@));
                let t = ImageSearchTemplate { name: name_text.clone(), state: image_state };
                let ghost tg = t;
                match find_name(&names, &name) {
                    Some(idx) => {
                        list.set(idx, t);
                    },
                    None => {
                        list.push(t);
                    },
                }
                assert(list@ == saved_list(old_list, image_names(old_list), name@, tg));
                let mut keyed = image_keyed(list);
                sort_by_text_key(&mut keyed);
                self.image_search_templates = unkey(keyed);
            },
        }
        self.search_template_name_editing = false;
        self.search_template_name_draft = String::new();
        self.clamp_search_template_selection();
        let text = quoted_message("Saved template ", name_text.as_str());
        Notice { level: StatusLevel::Info, text }
    }

    /// Deletes the selected template of the kind shown. The caller writes the
    /// templates to disk.
    pub fn delete_selected_search_template(&mut self) -> (n: Notice)
        requires
            shown_len(*old(self)) == 0 || old(self).selected_search_template_index < shown_len(*old(self)),
        ensures
            shown_len(*old(self)) == 0 ==> n.level == StatusLevel::Warn && n.text@ == "No template selected."@ && *final(self) == *old(self),
            shown_len(*old(self)) > 0 ==> {
                let i = old(self).selected_search_template_index as int;
                &&& n.level == StatusLevel::Info
                &&& match old(self).search_template_kind {
                    SearchTemplateKind::Model => {
                        &&& final(self).model_search_templates@ == old(self).model_search_templates@.remove(i)
                        &&& final(self).image_search_templates == old(self).image_search_templates
                        &&& n.text@ == deleted_message(old(self).model_search_templates@[i].name@)
                    },
                    SearchTemplateKind::Image => {
                        &&& final(self).image_search_templates@ == old(self).image_search_templates@.remove(i)
                        &&& final(self).model_search_templates == old(self).model_search_templates
                        &&& n.text@ == deleted_message(old(self).image_search_templates@[i].name@)
                    },
                }
                &&& final(self).selected_search_template_index == clamped(i, shown_len(*old(self)) - 1)
                &&& final(self).search_template_kind == old(self).search_template_kind
                &&& final(self).show_search_template_modal == old(self).show_search_template_modal
                &&& final(self).search_template_name_editing == old(self).search_template_name_editing
                &&& final(self).search_template_name_draft == old(self).search_template_name_draft
            },
    {
        let removed = match self.search_template_kind {
            SearchTemplateKind::Model => {
                if self.model_search_templates.len() == 0 {
                    None
                } else {
                    Some(self.model_search_templates.remove(self.selected_search_template_index).name)
                }
            },
            SearchTemplateKind::Image => {
                if self.image_search_templates.len() == 0 {
                    None
                } else {
                    Some(self.image_search_templates.remove(self.selected_search_template_index).name)
                }
            },
        };
        match removed {
            Some(name) => {
                self.clamp_search_template_selection();
                let text = quoted_message("Deleted template ", name.as_str());
                Notice { level: StatusLevel::Info, text }
            },
            None => notice(StatusLevel::Warn, "No template selected."),
        }
    }

    /// Picks the selected template of the kind shown to load and closes the
    /// window; says so when none is selected.
    pub fn load_selected_search_template(&mut self) -> (r: Result<usize, Notice>)
        ensures
            old(self).selected_search_template_index < shown_len(*old(self)) ==> {
                &&& r == Ok::<usize, Notice>(old(self).selected_search_template_index)
                &&& !final(self).show_search_template_modal
                &&& !final(self).search_template_name_editing
                &&& final(self).search_template_name_draft@.len() == 0
                &&& same_lists(*old(self), *final(self))
                &&& final(self).search_template_kind == old(self).search_template_kind
                &&& final(self).selected_search_template_index == old(self).selected_search_template_index
            },
            old(self).selected_search_template_index >= shown_len(*old(self)) ==> {
                &&& r matches Err(n) && n.level == StatusLevel::Warn && n.text@ == match old(self).search_template_kind {
                    SearchTemplateKind::Model => "No model template selected."@,
                    SearchTemplateKind::Image => "No image template selected."@,
                }
                &&& *final(self) == *old(self)
            },
    {
        let len = match self.search_template_kind {
            SearchTemplateKind::Model => self.model_search_templates.len(),
            SearchTemplateKind::Image => self.image_search_templates.len(),
        };
        if self.selected_search_template_index < len {
            let idx = self.selected_search_template_index;
            self.close_search_template_modal();
            Ok(idx)
        } else {
            match self.search_template_kind {
                SearchTemplateKind::Model => Err(notice(StatusLevel::Warn, "No model template selected.")),
                SearchTemplateKind::Image => Err(notice(StatusLevel::Warn, "No image template selected.")),
            }
        }
    }
}


/// After a save, the model templates are in ascending order of lower-case
/// name.
pub proof fn law_saved_model_templates_sorted<M>(list: Seq<ModelSearchTemplate<M>>)
    ensures
        forall|i: int, j: int| 0 <= i < j < unkeyed(stable_sorted(keyed_models(list))).len() ==> !text_lt(
            unicode_lowercase((#[trigger] unkeyed(stable_sorted(keyed_models(list)))[j]).name@),
            unicode_lowercase((#[trigger] unkeyed(stable_sorted(keyed_models(list)))[i]).name@),
        ),
{
    let keyed = keyed_models(list);
    let sorted = stable_sorted(keyed);
    law_stable_sorted_keys_ascend(keyed);
    lemma_stable_sorted_entries(keyed);
    assert forall|k: int| 0 <= k < sorted.len() implies (#[trigger] sorted[k]).1 == unicode_lowercase(sorted[k].0.name@) by {
        let m = choose|m: int| 0 <= m < keyed.len() && sorted[k] == keyed[m];
    }
    let out = unkeyed(sorted);
    assert forall|i: int, j: int| 0 <= i < j < out.len() implies !text_lt(
        unicode_lowercase((#[trigger] out[j]).name@),
        unicode_lowercase((#[trigger] out[i]).name@),
    ) by {
        assert(out[i] == sorted[i].0 && out[j] == sorted[j].0);
        assert(!text_lt(sorted[j].1, sorted[i].1));
    }
}

/// After a save, the image templates are in ascending order of lower-case
/// name.
pub proof fn law_saved_image_templates_sorted<I>(list: Seq<ImageSearchTemplate<I>>)
    ensures
        forall|i: int, j: int| 0 <= i < j < unkeyed(stable_sorted(keyed_images(list))).len() ==> !text_lt(
            unicode_lowercase((#[trigger] unkeyed(stable_sorted(keyed_images(list)))[j]).name@),
            unicode_lowercase((#[trigger] unkeyed(stable_sorted(keyed_images(list)))[i]).name@),
        ),
{
    let keyed = keyed_images(list);
    let sorted = stable_sorted(keyed);
    law_stable_sorted_keys_ascend(keyed);
    lemma_stable_sorted_entries(keyed);
    assert forall|k: int| 0 <= k < sorted.len() implies (#[trigger] sorted[k]).1 == unicode_lowercase(sorted[k].0.name@) by {
        let m = choose|m: int| 0 <= m < keyed.len() && sorted[k] == keyed[m];
    }
    let out = unkeyed(sorted);
    assert forall|i: int, j: int| 0 <= i < j < out.len() implies !text_lt(
        unicode_lowercase((#[trigger] out[j]).name@),
        unicode_lowercase((#[trigger] out[i]).name@),
    ) by {
        assert(out[i] == sorted[i].0 && out[j] == sorted[j].0);
        assert(!text_lt(sorted[j].1, sorted[i].1));
    }
}

} // verus!
