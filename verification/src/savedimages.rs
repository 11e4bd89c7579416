use vstd::prelude::*;

use crate::app::{event_says, status_applied, App};
use crate::chars::{ascii_lower_chars, ascii_lower_seq, chars_of, decimal, decimal_chars, string_of, trim, trim_chars};
use crate::forms::{AppMode, MainTab};
use crate::keys::KeyCode;
use crate::searchform::{pop_char, push_char};
use crate::status::{StatusEvent, StatusLevel};
use crate::text::{contains_seq, find_char, lemma_first_occurrence_found};

verus! {

/// A saved image: what the filter reads of it (its id, its author, its base
/// model, and its metadata written out as JSON text), and the image itself.
pub struct SavedImage<T> {
    pub id: u64,
    pub username: Option<String>,
    pub base_model: Option<String>,
    pub metadata_text: Option<String>,
    pub item: T,
}

/// The saved images, the list shown of them (as positions into them), its
/// selection, the filter text in force and the one being typed.
pub struct SavedImages<T> {
    pub image_bookmarks: Vec<SavedImage<T>>,
    pub visible_image_bookmarks_cache: Vec<usize>,
    pub selected_image_bookmark_index: usize,
    pub image_bookmark_query: String,
    pub image_bookmark_query_draft: String,
}

/// An optional text, empty when absent.
pub open spec fn text_or_empty(s: Option<String>) -> Seq<char> {
    match s {
        Some(v) => v@,
        None => Seq::empty(),
    }
}

/// The filter a query stands for: trimmed and in ASCII lower case.
pub open spec fn image_query(q: Seq<char>) -> Seq<char> {
    ascii_lower_seq(trim(q))
}

/// Whether a saved image passes a filter (already trimmed and lowered): any
/// image passes an empty one; else the filter occurs in its id, or, in lower
/// case, in its author, its base model or its metadata text.
pub open spec fn image_passes<T>(img: SavedImage<T>, q: Seq<char>) -> bool {
    q.len() == 0 || contains_seq(decimal(img.id as nat), q) || contains_seq(
        ascii_lower_seq(text_or_empty(img.username)),
        q,
    ) || contains_seq(ascii_lower_seq(text_or_empty(img.base_model)), q) || match img.metadata_text {
        Some(t) => contains_seq(ascii_lower_seq(t@), q),
        None => false,
    }
}

/// The positions of the first `n` saved images that pass a filter, in order.
pub open spec fn passing_images<T>(s: Seq<SavedImage<T>>, q: Seq<char>, n: nat) -> Seq<usize>
    decreases n,
{
    if n == 0 {
        Seq::empty()
    } else {
        let before = passing_images(s, q, (n - 1) as nat);
        if image_passes(s[n - 1], q) {
            before.push((n - 1) as usize)
        } else {
            before
        }
    }
}

/// Whether a list holds an image with the given id.
pub open spec fn has_image_id<T>(s: Seq<SavedImage<T>>, id: u64) -> bool {
    exists|i: int| 0 <= i < s.len() && #[trigger] s[i].id == id
}

/// The first saved image of each id, in order.
pub open spec fn first_image_of_each<T>(s: Seq<SavedImage<T>>) -> Seq<SavedImage<T>>
    decreases s.len(),
{
    if s.len() == 0 {
        s
    } else {
        let r = first_image_of_each(s.drop_last());
        if has_image_id(r, s.last().id) {
            r
        } else {
            r.push(s.last())
        }
    }
}

/// The saved images other than those with the given id, in order.
pub open spec fn without_image_id<T>(s: Seq<SavedImage<T>>, id: u64) -> Seq<SavedImage<T>> {
    s.filter(|x: SavedImage<T>| x.id != id)
}

/// A selection kept within a list of `len`: the first for an empty list, the
/// last entry when past its end.
pub open spec fn clamped_index(i: usize, len: nat) -> usize {
    if len == 0 {
        0
    } else if i >= len {
        (len - 1) as usize
    } else {
        i
    }
}

/// The status a change was shown with.
pub open spec fn says_info(a: App, b: App, summary: Seq<char>) -> bool {
    exists|e: StatusEvent| event_says(e, StatusLevel::Info, summary, None, false) && #[trigger] status_applied(a, b, e)
}

fn occurs(s: &Vec<char>, q: &Vec<char>) -> (b: bool)
    ensures
        b == contains_seq(s@, q@),
{
    let r = find_char(s.as_slice(), q.as_slice());
    proof {
        lemma_first_occurrence_found(s@, q@);
    }
    r.is_some()
}

fn occurs_lower(s: &Option<String>, q: &Vec<char>) -> (b: bool)
    ensures
        b == contains_seq(ascii_lower_seq(text_or_empty(*s)), q@),
{
    match s {
        Some(v) => occurs(&ascii_lower_chars(&chars_of(v.as_str())), q),
        None => {
            let empty: Vec<char> = Vec::new();
            assert(ascii_lower_seq(Seq::<char>::empty()) =~= Seq::<char>::empty());
            assert(empty@ =~= ascii_lower_seq(text_or_empty(*s)));
            occurs(&empty, q)
        },
    }
}

/// Whether a saved image passes a filter already trimmed and lowered.
pub fn image_matches_query<T>(img: &SavedImage<T>, q: &Vec<char>) -> (b: bool)
    ensures
        b == image_passes(*img, q@),
{
    if q.len() == 0 {
        return true;
    }
    if occurs(&decimal_chars(img.id), q) {
        return true;
    }
    if occurs_lower(&img.username, q) {
        return true;
    }
    if occurs_lower(&img.base_model, q) {
        return true;
    }
    match &img.metadata_text {
        Some(t) => occurs(&ascii_lower_chars(&chars_of(t.as_str())), q),
        None => false,
    }
}

fn find_image<T>(s: &Vec<SavedImage<T>>, id: u64) -> (b: bool)
    ensures
        b == has_image_id(s@, id),
{
    let mut i: usize = 0;
    while i < s.len()
        invariant
            i <= s@.len(),
            forall|k: int| 0 <= k < i ==> s@[k].id != id,
        decreases s@.len() - i,
    {
        if s[i].id == id {
            assert(s@[i as int].id == id);
            return true;
        }
        i = i + 1;
    }
    false
}

impl<T> SavedImages<T> {
    /// The saved images as loaded, all shown, the first selected, no filter.
    pub fn new(image_bookmarks: Vec<SavedImage<T>>) -> (s: Self)
        ensures
            s.image_bookmarks@ == image_bookmarks@,
            s.visible_image_bookmarks_cache@ == passing_images(image_bookmarks@, Seq::empty(), image_bookmarks@.len()),
            s.selected_image_bookmark_index == 0,
            s.image_bookmark_query@.len() == 0,
            s.image_bookmark_query_draft@.len() == 0,
    {
        let mut s = SavedImages {
            image_bookmarks,
            visible_image_bookmarks_cache: Vec::new(),
            selected_image_bookmark_index: 0,
            image_bookmark_query: String::new(),
            image_bookmark_query_draft: String::new(),
        };
        s.refresh_visible_image_bookmarks_cache();
        proof {
            assert(trim(Seq::<char>::empty()) =~= Seq::<char>::empty()) by {
                reveal_with_fuel(crate::chars::strip_start, 1);
                reveal_with_fuel(crate::chars::strip_end, 1);
            }
            assert(image_query(s.image_bookmark_query@) =~= Seq::<char>::empty());
        }
        s
    }

    /// Works out again which saved images the list shows: those passing the
    /// filter in force, in order.
    pub fn refresh_visible_image_bookmarks_cache(&mut self)
        ensures
            final(self).visible_image_bookmarks_cache@ == passing_images(
                old(self).image_bookmarks@,
                image_query(old(self).image_bookmark_query@),
                old(self).image_bookmarks@.len(),
            ),
            final(self).image_bookmarks == old(self).image_bookmarks,
            final(self).selected_image_bookmark_index == old(self).selected_image_bookmark_index,
            final(self).image_bookmark_query == old(self).image_bookmark_query,
            final(self).image_bookmark_query_draft == old(self).image_bookmark_query_draft,
    {
        let q = ascii_lower_chars(&trim_chars(&chars_of(self.image_bookmark_query.as_str())));
        let mut out: Vec<usize> = Vec::new();
        let mut i: usize = 0;
        while i < self.image_bookmarks.len()
            invariant
                i <= self.image_bookmarks@.len(),
                q@ == image_query(self.image_bookmark_query@),
                out@ == passing_images(self.image_bookmarks@, q@, i as nat),
            decreases self.image_bookmarks@.len() - i,
        {
            if image_matches_query(&self.image_bookmarks[i], &q) {
                out.push(i);
            }
            i = i + 1;
        }
        self.visible_image_bookmarks_cache = out;
    }

    /// Keeps the selection within the shown list.
    pub fn clamp_image_bookmark_selection(&mut self)
        ensures
            final(self).selected_image_bookmark_index == clamped_index(
                old(self).selected_image_bookmark_index,
                old(self).visible_image_bookmarks_cache@.len(),
            ),
            final(self).image_bookmarks == old(self).image_bookmarks,
            final(self).visible_image_bookmarks_cache == old(self).visible_image_bookmarks_cache,
            final(self).image_bookmark_query == old(self).image_bookmark_query,
            final(self).image_bookmark_query_draft == old(self).image_bookmark_query_draft,
    {
        let n = self.visible_image_bookmarks_cache.len();
        if n == 0 {
            self.selected_image_bookmark_index = 0;
        } else if self.selected_image_bookmark_index >= n {
            self.selected_image_bookmark_index = n - 1;
        }
    }

    /// Whether an image with the id is saved.
    pub fn is_image_bookmarked(&self, image_id: u64) -> (b: bool)
        ensures
            b == has_image_id(self.image_bookmarks@, image_id),
    {
        find_image(&self.image_bookmarks, image_id)
    }

    /// Keeps the first saved image of each id.
    pub fn deduplicate_image_bookmarks(&mut self)
        ensures
            final(self).image_bookmarks@ == first_image_of_each(old(self).image_bookmarks@),
            final(self).visible_image_bookmarks_cache == old(self).visible_image_bookmarks_cache,
            final(self).selected_image_bookmark_index == old(self).selected_image_bookmark_index,
            final(self).image_bookmark_query == old(self).image_bookmark_query,
            final(self).image_bookmark_query_draft == old(self).image_bookmark_query_draft,
    {
        let mut rest: Vec<SavedImage<T>> = Vec::new();
        std::mem::swap(&mut rest, &mut self.image_bookmarks);
        let ghost all = rest@;
        let ghost mut i: int = 0;
        while rest.len() > 0
            invariant
                0 <= i <= all.len(),
                rest@ == all.subrange(i, all.len() as int),
                self.image_bookmarks@ == first_image_of_each(all.subrange(0, i)),
                self.visible_image_bookmarks_cache == old(self).visible_image_bookmarks_cache,
                self.selected_image_bookmark_index == old(self).selected_image_bookmark_index,
                self.image_bookmark_query == old(self).image_bookmark_query,
                self.image_bookmark_query_draft == old(self).image_bookmark_query_draft,
            decreases rest@.len(),
        {
            let m = rest.remove(0);
            proof {
                assert(all.subrange(0, i + 1).drop_last() =~= all.subrange(0, i));
                assert(all.subrange(0, i + 1).last() == m);
            }
            if !find_image(&self.image_bookmarks, m.id) {
                self.image_bookmarks.push(m);
            }
            proof {
                i = i + 1;
                assert(rest@ =~= all.subrange(i, all.len() as int));
            }
        }
        proof {
            assert(all.subrange(0, i) =~= all);
        }
    }

    fn remove_image_id(&mut self, id: u64)
        ensures
            final(self).image_bookmarks@ == without_image_id(old(self).image_bookmarks@, id),
            final(self).visible_image_bookmarks_cache == old(self).visible_image_bookmarks_cache,
            final(self).selected_image_bookmark_index == old(self).selected_image_bookmark_index,
            final(self).image_bookmark_query == old(self).image_bookmark_query,
            final(self).image_bookmark_query_draft == old(self).image_bookmark_query_draft,
    {
        let mut rest: Vec<SavedImage<T>> = Vec::new();
        std::mem::swap(&mut rest, &mut self.image_bookmarks);
        let ghost all = rest@;
        let ghost keep = |x: SavedImage<T>| x.id != id;
        let ghost mut i: int = 0;
        proof {
            reveal(Seq::filter);
        }
        while rest.len() > 0
            invariant
                0 <= i <= all.len(),
                rest@ == all.subrange(i, all.len() as int),
                self.image_bookmarks@ == all.subrange(0, i).filter(keep),
                keep == (|x: SavedImage<T>| x.id != id),
                self.visible_image_bookmarks_cache == old(self).visible_image_bookmarks_cache,
                self.selected_image_bookmark_index == old(self).selected_image_bookmark_index,
                self.image_bookmark_query == old(self).image_bookmark_query,
                self.image_bookmark_query_draft == old(self).image_bookmark_query_draft,
            decreases rest@.len(),
        {
            let m = rest.remove(0);
            proof {
                reveal(Seq::filter);
                assert(all.subrange(0, i + 1).drop_last() =~= all.subrange(0, i));
                assert(all.subrange(0, i + 1).last() == m);
            }
            if m.id != id {
                self.image_bookmarks.push(m);
            }
            proof {
                i = i + 1;
                assert(rest@ =~= all.subrange(i, all.len() as int));
            }
        }
        proof {
            assert(all.subrange(0, i) =~= all);
        }
    }
}

impl App {
    /// Saves the image, or forgets it when saved, saying which; the saved
    /// images keep one of each id and are shown again, the selection kept on
    /// the list on the saved-images tab. They are then to be written back.
    pub fn toggle_bookmark_for_selected_image<T>(&mut self, saved: &mut SavedImages<T>, image: SavedImage<T>)
        ensures
            ({
                let id = image.id;
                let was = has_image_id(old(saved).image_bookmarks@, id);
                let changed = if was {
                    without_image_id(old(saved).image_bookmarks@, id)
                } else {
                    old(saved).image_bookmarks@.push(image)
                };
                &&& final(saved).image_bookmarks@ == first_image_of_each(changed)
                &&& final(saved).visible_image_bookmarks_cache@ == passing_images(
                    final(saved).image_bookmarks@,
                    image_query(old(saved).image_bookmark_query@),
                    final(saved).image_bookmarks@.len(),
                )
                &&& final(saved).selected_image_bookmark_index == if old(self).active_tab == MainTab::SavedImages {
                    clamped_index(old(saved).selected_image_bookmark_index, final(saved).visible_image_bookmarks_cache@.len())
                } else {
                    old(saved).selected_image_bookmark_index
                }
                &&& final(saved).image_bookmark_query == old(saved).image_bookmark_query
                &&& final(saved).image_bookmark_query_draft == old(saved).image_bookmark_query_draft
                &&& says_info(
                    *old(self),
                    *final(self),
                    if was {
                        "Removed image bookmark: "@ + decimal(id as nat)
                    } else {
                        "Added image bookmark: "@ + decimal(id as nat)
                    },
                )
            }),
    {
        let id = image.id;
        let mut text;
        if saved.is_image_bookmarked(id) {
            saved.remove_image_id(id);
            text = String::from_str("Removed image bookmark: ");
        } else {
            saved.image_bookmarks.push(image);
            text = String::from_str("Added image bookmark: ");
        }
        text.append(string_of(decimal_chars(id).as_slice()).as_str());
        self.set_status(text.as_str());
        saved.deduplicate_image_bookmarks();
        saved.refresh_visible_image_bookmarks_cache();
        if self.active_tab == MainTab::SavedImages {
            saved.clamp_image_bookmark_selection();
        }
    }

    /// Opens the filter prompt for saved images, starting from the filter in
    /// force.
    pub fn begin_image_bookmark_search<T>(&mut self, saved: &mut SavedImages<T>)
        ensures
            final(saved).image_bookmark_query_draft@ == old(saved).image_bookmark_query@,
            final(saved).image_bookmarks == old(saved).image_bookmarks,
            final(saved).visible_image_bookmarks_cache == old(saved).visible_image_bookmarks_cache,
            final(saved).selected_image_bookmark_index == old(saved).selected_image_bookmark_index,
            final(saved).image_bookmark_query == old(saved).image_bookmark_query,
            final(self).mode == AppMode::SearchSavedImages,
            says_info(
                *old(self),
                App { mode: old(self).mode, ..*final(self) },
                "Search image bookmarks. Enter apply, Esc cancel"@,
            ),
    {
        saved.image_bookmark_query_draft = saved.image_bookmark_query.clone();
        let ghost before = *self;
        self.set_status("Search image bookmarks. Enter apply, Esc cancel");
        let ghost shown = *self;
        self.mode = AppMode::SearchSavedImages;
        assert(App { mode: before.mode, ..*self } == shown);
    }

    /// Applies the filter being typed: the list is shown again, the selection
    /// kept on it, and the status line names the filter (`<all>` for none).
    pub fn apply_image_bookmark_query<T>(&mut self, saved: &mut SavedImages<T>)
        ensures
            final(saved).image_bookmark_query@ == old(saved).image_bookmark_query_draft@,
            final(saved).image_bookmark_query_draft == old(saved).image_bookmark_query_draft,
            final(saved).image_bookmarks == old(saved).image_bookmarks,
            final(saved).visible_image_bookmarks_cache@ == passing_images(
                old(saved).image_bookmarks@,
                image_query(old(saved).image_bookmark_query_draft@),
                old(saved).image_bookmarks@.len(),
            ),
            final(saved).selected_image_bookmark_index == clamped_index(
                old(saved).selected_image_bookmark_index,
                final(saved).visible_image_bookmarks_cache@.len(),
            ),
            final(self).mode == AppMode::Browsing,
            says_info(
                *old(self),
                App { mode: old(self).mode, ..*final(self) },
                "Image bookmark query applied: "@ + if old(saved).image_bookmark_query_draft@.len() == 0 {
                    "<all>"@
                } else {
                    old(saved).image_bookmark_query_draft@
                },
            ),
    {
        saved.image_bookmark_query = saved.image_bookmark_query_draft.clone();
        saved.refresh_visible_image_bookmarks_cache();
        saved.clamp_image_bookmark_selection();
        let mut text = String::from_str("Image bookmark query applied: ");
        if chars_of(saved.image_bookmark_query.as_str()).len() == 0 {
            text.append("<all>");
        } else {
            text.append(saved.image_bookmark_query.as_str());
        }
        let ghost before = *self;
        self.set_status(text.as_str());
        let ghost shown = *self;
        self.mode = AppMode::Browsing;
        assert(App { mode: before.mode, ..*self } == shown);
    }

    /// Closes the filter prompt, dropping what was typed, saying so.
    pub fn cancel_image_bookmark_search<T>(&mut self, saved: &mut SavedImages<T>)
        ensures
            final(saved).image_bookmark_query_draft@ == old(saved).image_bookmark_query@,
            final(saved).image_bookmarks == old(saved).image_bookmarks,
            final(saved).visible_image_bookmarks_cache == old(saved).visible_image_bookmarks_cache,
            final(saved).selected_image_bookmark_index == old(saved).selected_image_bookmark_index,
            final(saved).image_bookmark_query == old(saved).image_bookmark_query,
            final(self).mode == AppMode::Browsing,
            says_info(*old(self), App { mode: old(self).mode, ..*final(self) }, "Image bookmark search cancelled."@),
    {
        saved.image_bookmark_query_draft = saved.image_bookmark_query.clone();
        let ghost before = *self;
        self.set_status("Image bookmark search cancelled.");
        let ghost shown = *self;
        self.mode = AppMode::Browsing;
        assert(App { mode: before.mode, ..*self } == shown);
    }
}

impl App {
    /// A key in the saved images' filter prompt: Esc and Enter both apply
    /// the filter typed (see `apply_image_bookmark_query`), a character is
    /// typed and Backspace removes the last one.
    pub fn handle_image_liked_search_key<T>(&mut self, saved: &mut SavedImages<T>, code: KeyCode)
        ensures
            match code {
                KeyCode::Char(c) => *final(self) == *old(self) && final(saved).image_bookmark_query_draft@ == old(
                    saved,
                ).image_bookmark_query_draft@.push(c) && final(saved).image_bookmarks == old(saved).image_bookmarks
                    && final(saved).visible_image_bookmarks_cache == old(saved).visible_image_bookmarks_cache
                    && final(saved).selected_image_bookmark_index == old(saved).selected_image_bookmark_index
                    && final(saved).image_bookmark_query == old(saved).image_bookmark_query,
                KeyCode::Backspace => *final(self) == *old(self) && final(saved).image_bookmark_query_draft@ == (if old(
                    saved,
                ).image_bookmark_query_draft@.len() > 0 {
                    old(saved).image_bookmark_query_draft@.drop_last()
                } else {
                    old(saved).image_bookmark_query_draft@
                }) && final(saved).image_bookmarks == old(saved).image_bookmarks
                    && final(saved).visible_image_bookmarks_cache == old(saved).visible_image_bookmarks_cache
                    && final(saved).selected_image_bookmark_index == old(saved).selected_image_bookmark_index
                    && final(saved).image_bookmark_query == old(saved).image_bookmark_query,
                KeyCode::Esc | KeyCode::Enter => {
                    &&& final(saved).image_bookmark_query@ == old(saved).image_bookmark_query_draft@
                    &&& final(saved).image_bookmarks == old(saved).image_bookmarks
                    &&& final(saved).visible_image_bookmarks_cache@ == passing_images(
                        old(saved).image_bookmarks@,
                        image_query(old(saved).image_bookmark_query_draft@),
                        old(saved).image_bookmarks@.len(),
                    )
                    &&& final(saved).selected_image_bookmark_index == clamped_index(
                        old(saved).selected_image_bookmark_index,
                        final(saved).visible_image_bookmarks_cache@.len(),
                    )
                    &&& final(self).mode == AppMode::Browsing
                },
                _ => *final(self) == *old(self) && *final(saved) == *old(saved),
            },
    {
        match code {
            KeyCode::Esc | KeyCode::Enter => self.apply_image_bookmark_query(saved),
            KeyCode::Char(c) => {
                saved.image_bookmark_query_draft = push_char(&saved.image_bookmark_query_draft, c);
            },
            KeyCode::Backspace => {
                saved.image_bookmark_query_draft = pop_char(&saved.image_bookmark_query_draft);
            },
            _ => {},
        }
    }
}

/// Saving an image and then forgetting it leaves the saved images as they
/// were, when its id was not saved and no id was saved twice.
pub proof fn law_save_then_forget_restores<T>(s: Seq<SavedImage<T>>, image: SavedImage<T>)
    requires
        !has_image_id(s, image.id),
        first_image_of_each(s) == s,
    ensures
        ({
            let saved = first_image_of_each(s.push(image));
            first_image_of_each(without_image_id(saved, image.id)) == s
        }),
{
    reveal(Seq::filter);
    let saved = first_image_of_each(s.push(image));
    assert(s.push(image).drop_last() =~= s);
    assert(saved == s.push(image));
    lemma_without_absent(s, image.id);
    assert(s.push(image).drop_last() =~= s);
    assert(without_image_id(s.push(image), image.id) == without_image_id(s, image.id));
}

proof fn lemma_without_absent<T>(s: Seq<SavedImage<T>>, id: u64)
    requires
        !has_image_id(s, id),
    ensures
        without_image_id(s, id) == s,
    decreases s.len(),
{
    reveal(Seq::filter);
    if s.len() > 0 {
        assert(!has_image_id(s.drop_last(), id)) by {
            if has_image_id(s.drop_last(), id) {
                let k = choose|k: int| 0 <= k < s.drop_last().len() && s.drop_last()[k].id == id;
                assert(s[k].id == id);
            }
        }
        lemma_without_absent(s.drop_last(), id);
        assert(s.last().id != id) by {
            assert(s[s.len() - 1].id == s.last().id);
        }
        assert(s.drop_last().push(s.last()) =~= s);
    }
}

} // verus!
