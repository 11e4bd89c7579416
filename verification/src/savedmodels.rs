use vstd::prelude::*;

use crate::chars::{ascii_lower_chars, ascii_lower_seq, chars_of, string_of, trim, trim_chars};
use crate::forms::{liked_model_within_period, within_period, SearchPeriod};
use crate::liked::{
    key_greater, key_gt, liked_model_matches_base_model, liked_model_matches_query, liked_model_matches_type,
    model_sort_key, passes_names, passes_query, sort_key, FilterName, ModelSearchSortBy,
};
use crate::metadata::opt_text;
use crate::models::{default_base_model_text, model_name, model_name_text, MediaDelivery, ModelHit};
use crate::app::App;
use crate::forms::MainTab;
use crate::keys::notice_shown;
use crate::status::StatusLevel;
use crate::templates::Notice;

verus! {

/// What the saved-model list is filtered and ordered by: the text typed (used
/// trimmed and in lower case), the chosen types and base models by name, the
/// period and the moment it is measured from, and the order.
pub struct LikedFilter {
    pub query: String,
    pub types: Vec<FilterName>,
    pub base_models: Vec<FilterName>,
    pub period: Option<SearchPeriod>,
    pub now: i64,
    pub sort: ModelSearchSortBy,
}

/// The text filter as it is matched: trimmed, in lower case.
pub open spec fn filter_query(f: LikedFilter) -> Seq<char> {
    ascii_lower_seq(trim(f.query@))
}

/// A saved model passes every part of the filter.
pub open spec fn passes_filter(m: ModelHit, f: LikedFilter, base: Seq<char>, namespace: Seq<char>) -> bool {
    &&& passes_query(m, filter_query(f))
    &&& passes_names(opt_text(m.model_type), f.types@)
    &&& passes_names(default_base_model_text(m, base, namespace), f.base_models@)
    &&& within_period(m.last_version_at_unix, f.period, f.now)
}

/// The positions among the first `k` saved models that pass the filter, in order.
pub open spec fn passing_positions(
    ms: Seq<ModelHit>,
    k: int,
    f: LikedFilter,
    base: Seq<char>,
    namespace: Seq<char>,
) -> Seq<usize>
    decreases k,
{
    if k <= 0 {
        Seq::empty()
    } else {
        let r = passing_positions(ms, k - 1, f, base, namespace);
        if passes_filter(ms[k - 1], f, base, namespace) {
            r.push((k - 1) as usize)
        } else {
            r
        }
    }
}

/// A position inserted into positions ordered from most to least by their
/// model's key: after every position whose key is not below its own.
pub open spec fn insert_position(sorted: Seq<usize>, p: usize, ms: Seq<ModelHit>, by: ModelSearchSortBy) -> Seq<usize>
    decreases sorted.len(),
{
    if sorted.len() == 0 {
        seq![p]
    } else if key_gt(sort_key(ms[p as int], by), sort_key(ms[sorted.last() as int], by)) {
        insert_position(sorted.drop_last(), p, ms, by).push(sorted.last())
    } else {
        sorted.push(p)
    }
}

/// Positions stably ordered from most to least by their model's key.
pub open spec fn sorted_positions(s: Seq<usize>, ms: Seq<ModelHit>, by: ModelSearchSortBy) -> Seq<usize>
    decreases s.len(),
{
    if s.len() == 0 {
        s
    } else {
        insert_position(sorted_positions(s.drop_last(), ms, by), s.last(), ms, by)
    }
}

/// The saved models the list shows, as positions: those passing the filter,
/// in the filter's order (as saved for relevance and custom orders).
pub open spec fn shown_positions(ms: Seq<ModelHit>, f: LikedFilter, base: Seq<char>, namespace: Seq<char>) -> Seq<usize> {
    let ps = passing_positions(ms, ms.len() as int, f, base, namespace);
    match f.sort {
        ModelSearchSortBy::Relevance => ps,
        ModelSearchSortBy::Custom(_) => ps,
        _ => sorted_positions(ps, ms, f.sort),
    }
}

proof fn lemma_insert_position_at(sorted: Seq<usize>, x: usize, ms: Seq<ModelHit>, by: ModelSearchSortBy, p: int)
    requires
        0 <= p <= sorted.len(),
        p == 0 || !key_gt(sort_key(ms[x as int], by), sort_key(ms[sorted[p - 1] as int], by)),
        forall|k: int| p <= k < sorted.len() ==> key_gt(sort_key(ms[x as int], by), sort_key(ms[#[trigger] sorted[k] as int], by)),
    ensures
        insert_position(sorted, x, ms, by) == sorted.subrange(0, p).push(x) + sorted.subrange(p, sorted.len() as int),
    decreases sorted.len() - p,
{
    if sorted.len() == 0 {
        assert(sorted.subrange(0, p).push(x) + sorted.subrange(p, sorted.len() as int) =~= seq![x]);
    } else if p == sorted.len() {
        assert(sorted.subrange(0, p) =~= sorted);
        assert(sorted.subrange(0, p).push(x) + sorted.subrange(p, sorted.len() as int) =~= sorted.push(x));
    } else {
        let init = sorted.drop_last();
        assert(key_gt(sort_key(ms[x as int], by), sort_key(ms[sorted[sorted.len() - 1] as int], by)));
        assert forall|k: int| p <= k < init.len() implies key_gt(
            sort_key(ms[x as int], by),
            sort_key(ms[#[trigger] init[k] as int], by),
        ) by {
            assert(init[k] == sorted[k]);
        }
        if p > 0 {
            assert(init[p - 1] == sorted[p - 1]);
        }
        lemma_insert_position_at(init, x, ms, by, p);
        assert((init.subrange(0, p).push(x) + init.subrange(p, init.len() as int)).push(sorted.last())
            =~= sorted.subrange(0, p).push(x) + sorted.subrange(p, sorted.len() as int));
    }
}

fn sort_positions(items: &mut Vec<usize>, ms: &Vec<ModelHit>, by: &ModelSearchSortBy)
    requires
        forall|k: int| 0 <= k < old(items)@.len() ==> #[trigger] old(items)@[k] < ms@.len(),
    ensures
        final(items)@ == sorted_positions(old(items)@, ms@, *by),
{
    let ghost orig = items@;
    let n = items.len();
    let mut i: usize = 0;
    while i < n
        invariant
            n == items@.len(),
            i <= n,
            orig.len() == n,
            forall|k: int| 0 <= k < n ==> #[trigger] orig[k] < ms@.len(),
            forall|k: int| 0 <= k < n ==> #[trigger] items@[k] < ms@.len(),
            items@.subrange(0, i as int) == sorted_positions(orig.subrange(0, i as int), ms@, *by),
            items@.subrange(i as int, n as int) == orig.subrange(i as int, n as int),
        decreases n - i,
    {
        let ghost before = items@;
        let x = items.remove(i);
        assert(x == before[i as int]);
        let ghost sorted = before.subrange(0, i as int);
        assert(items@.subrange(0, i as int) =~= sorted);
        let kx = model_sort_key(&ms[x], by);
        let mut p: usize = i;
        while p > 0 && key_greater(kx, model_sort_key(&ms[items[p - 1]], by))
            invariant
                p <= i,
                i < n,
                items@.len() == n - 1,
                kx == sort_key(ms@[x as int], *by),
                items@.subrange(0, i as int) == sorted,
                forall|k: int| 0 <= k < n - 1 ==> #[trigger] items@[k] < ms@.len(),
                forall|k: int| p <= k < i ==> key_gt(kx, sort_key(ms@[#[trigger] sorted[k] as int], *by)),
            decreases p,
        {
            assert(sorted[p - 1] == items@[p - 1]);
            p = p - 1;
        }
        proof {
            if p > 0 {
                assert(sorted[p - 1] == items@[p - 1]);
            }
            lemma_insert_position_at(sorted, x, ms@, *by, p as int);
            assert(orig.subrange(0, i + 1).drop_last() =~= orig.subrange(0, i as int));
            assert(orig.subrange(0, i + 1).last() == orig[i as int]);
            assert(before.subrange(i as int, n as int)[0] == before[i as int]);
        }
        items.insert(p, x);
        proof {
            let after = items@;
            assert(after.subrange(0, i + 1) =~= sorted.subrange(0, p as int).push(x) + sorted.subrange(p as int, i as int));
            assert(after.subrange(i + 1, n as int) =~= before.subrange(i + 1, n as int));
            assert(before.subrange(i + 1, n as int) =~= orig.subrange(i + 1, n as int)) by {
                assert(before.subrange(i as int, n as int) == orig.subrange(i as int, n as int));
                assert forall|k: int| 0 <= k < n - i - 1 implies #[trigger] before.subrange(i + 1, n as int)[k]
                    == orig.subrange(i + 1, n as int)[k] by {
                    assert(before.subrange(i as int, n as int)[k + 1] == orig.subrange(i as int, n as int)[k + 1]);
                }
            }
            assert forall|k: int| 0 <= k < n implies #[trigger] items@[k] < ms@.len() by {
                if k < p {
                    assert(items@[k] == before.remove(i as int)[k]);
                } else if k > p {
                    assert(items@[k] == before.remove(i as int)[k - 1]);
                }
            }
        }
        i = i + 1;
    }
    proof {
        assert(items@.subrange(0, n as int) =~= items@);
        assert(orig.subrange(0, n as int) =~= orig);
    }
}

fn passes(m: &ModelHit, query: &str, f: &LikedFilter, delivery: &MediaDelivery) -> (b: bool)
    requires
        query@ == filter_query(*f),
    ensures
        b == passes_filter(*m, *f, delivery.base_url@, delivery.namespace@),
{
    liked_model_matches_query(m, query) && liked_model_matches_type(m, &f.types)
        && liked_model_matches_base_model(m, &f.base_models, delivery) && liked_model_within_period(
        m.last_version_at_unix,
        f.period,
        f.now,
    )
}

/// The positions of the saved models the list shows (see `shown_positions`).
pub fn visible_liked_positions(ms: &Vec<ModelHit>, f: &LikedFilter, delivery: &MediaDelivery) -> (r: Vec<usize>)
    ensures
        r@ == shown_positions(ms@, *f, delivery.base_url@, delivery.namespace@),
        forall|k: int| 0 <= k < r@.len() ==> #[trigger] r@[k] < ms@.len(),
{
    let ghost base = delivery.base_url@;
    let ghost ns = delivery.namespace@;
    let q = string_of(ascii_lower_chars(&trim_chars(&chars_of(f.query.as_str()))).as_slice());
    let mut out: Vec<usize> = Vec::new();
    let mut i: usize = 0;
    while i < ms.len()
        invariant
            i <= ms@.len(),
            base == delivery.base_url@,
            ns == delivery.namespace@,
            q@ == filter_query(*f),
            out@ == passing_positions(ms@, i as int, *f, base, ns),
            forall|k: int| 0 <= k < out@.len() ==> #[trigger] out@[k] < i,
        decreases ms@.len() - i,
    {
        if passes(&ms[i], q.as_str(), f, delivery) {
            out.push(i);
        }
        i = i + 1;
    }
    match &f.sort {
        ModelSearchSortBy::Relevance => {},
        ModelSearchSortBy::Custom(_) => {},
        _ => {
            let ghost before = out@;
            sort_positions(&mut out, ms, &f.sort);
            proof {
                lemma_sorted_positions_in(before, ms@, f.sort);
            }
        },
    }
    out
}

proof fn lemma_insert_position_in(s: Seq<usize>, x: usize, ms: Seq<ModelHit>, by: ModelSearchSortBy, bound: int)
    requires
        x < bound,
        forall|k: int| 0 <= k < s.len() ==> #[trigger] s[k] < bound,
    ensures
        forall|k: int| 0 <= k < insert_position(s, x, ms, by).len() ==> #[trigger] insert_position(s, x, ms, by)[k]
            < bound,
        insert_position(s, x, ms, by).len() == s.len() + 1,
    decreases s.len(),
{
    if s.len() > 0 && key_gt(sort_key(ms[x as int], by), sort_key(ms[s.last() as int], by)) {
        let init = s.drop_last();
        assert forall|k: int| 0 <= k < init.len() implies #[trigger] init[k] < bound by {
            assert(init[k] == s[k]);
        }
        lemma_insert_position_in(init, x, ms, by, bound);
        let r = insert_position(s, x, ms, by);
        assert forall|k: int| 0 <= k < r.len() implies #[trigger] r[k] < bound by {
            if k == r.len() - 1 {
                assert(r[k] == s[s.len() - 1]);
            }
        }
    }
}

proof fn lemma_sorted_positions_in(s: Seq<usize>, ms: Seq<ModelHit>, by: ModelSearchSortBy)
    requires
        forall|k: int| 0 <= k < s.len() ==> #[trigger] s[k] < ms.len(),
    ensures
        forall|k: int| 0 <= k < sorted_positions(s, ms, by).len() ==> #[trigger] sorted_positions(s, ms, by)[k]
            < ms.len(),
        sorted_positions(s, ms, by).len() == s.len(),
    decreases s.len(),
{
    if s.len() > 0 {
        let init = s.drop_last();
        assert forall|k: int| 0 <= k < init.len() implies #[trigger] init[k] < ms.len() by {
            assert(init[k] == s[k]);
        }
        lemma_sorted_positions_in(init, ms, by);
        assert(s[s.len() - 1] < ms.len());
        lemma_insert_position_in(sorted_positions(init, ms, by), s.last(), ms, by, ms.len() as int);
    }
}

/// The saved models, the list shown of them (as positions into them), the
/// list's selection, and the model waiting to be removed.
pub struct LikedModels {
    pub liked_models: Vec<ModelHit>,
    pub visible_liked_models_cache: Vec<usize>,
    pub selected: Option<usize>,
    pub pending_liked_model_remove_id: Option<u64>,
}

/// Every shown position names a saved model.
pub open spec fn positions_fit(l: LikedModels) -> bool {
    forall|k: int| 0 <= k < l.visible_liked_models_cache@.len() ==> #[trigger] l.visible_liked_models_cache@[k]
        < l.liked_models@.len()
}

/// The saved models other than those with the given id, in order.
pub open spec fn without_id(s: Seq<ModelHit>, id: u64) -> Seq<ModelHit>
    decreases s.len(),
{
    if s.len() == 0 {
        s
    } else if s.last().id == id {
        without_id(s.drop_last(), id)
    } else {
        without_id(s.drop_last(), id).push(s.last())
    }
}

/// Some saved model has the id.
pub open spec fn has_id(s: Seq<ModelHit>, id: u64) -> bool {
    exists|i: int| 0 <= i < s.len() && #[trigger] s[i].id == id
}

/// The first saved model of each id, in order.
pub open spec fn first_of_each(s: Seq<ModelHit>) -> Seq<ModelHit>
    decreases s.len(),
{
    if s.len() == 0 {
        s
    } else {
        let r = first_of_each(s.drop_last());
        if has_id(r, s.last().id) {
            r
        } else {
            r.push(s.last())
        }
    }
}

/// The selection moved back onto the list: none for an empty list; the last
/// entry when it was past the end; else as it was.
pub open spec fn clamped_selection(selected: Option<usize>, len: nat) -> Option<usize> {
    if len == 0 {
        None
    } else if (match selected {
        Some(i) => i,
        None => 0,
    }) >= len {
        Some((len - 1) as usize)
    } else {
        selected
    }
}

/// The list shown again, as the filter says.
pub open spec fn refreshed(a: LikedModels, b: LikedModels, f: LikedFilter, base: Seq<char>, namespace: Seq<char>) -> bool {
    &&& b.liked_models == a.liked_models
    &&& b.visible_liked_models_cache@ == shown_positions(a.liked_models@, f, base, namespace)
    &&& positions_fit(b)
}

fn find_id(s: &Vec<ModelHit>, id: u64) -> (r: Option<usize>)
    ensures
        match r {
            Some(i) => i < s@.len() && s@[i as int].id == id && forall|k: int| 0 <= k < i ==> s@[k].id != id,
            None => !has_id(s@, id),
        },
{
    let mut i: usize = 0;
    while i < s.len()
        invariant
            i <= s@.len(),
            forall|k: int| 0 <= k < i ==> s@[k].id != id,
        decreases s@.len() - i,
    {
        if s[i].id == id {
            return Some(i);
        }
        i = i + 1;
    }
    None
}

impl LikedModels {
    /// The saved models, none shown yet, nothing selected.
    pub fn new(liked_models: Vec<ModelHit>) -> (l: LikedModels)
        ensures
            l.liked_models == liked_models,
            l.visible_liked_models_cache@.len() == 0,
            l.selected is None,
            l.pending_liked_model_remove_id is None,
    {
        LikedModels {
            liked_models,
            visible_liked_models_cache: Vec::new(),
            selected: None,
            pending_liked_model_remove_id: None,
        }
    }

    /// Works out again which saved models the list shows (see `shown_positions`).
    pub fn refresh_visible_liked_models_cache(&mut self, f: &LikedFilter, delivery: &MediaDelivery)
        ensures
            refreshed(*old(self), *final(self), *f, delivery.base_url@, delivery.namespace@),
            final(self).selected == old(self).selected,
            final(self).pending_liked_model_remove_id == old(self).pending_liked_model_remove_id,
    {
        self.visible_liked_models_cache = visible_liked_positions(&self.liked_models, f, delivery);
    }

    /// The saved models the list shows, in order.
    pub fn visible_liked_models(&self) -> (r: Vec<&ModelHit>)
        requires
            positions_fit(*self),
        ensures
            r@.len() == self.visible_liked_models_cache@.len(),
            forall|i: int| 0 <= i < r@.len() ==> *r@[i] == self.liked_models@[#[trigger] self.visible_liked_models_cache@[i] as int],
    {
        let mut out: Vec<&ModelHit> = Vec::new();
        let mut i: usize = 0;
        while i < self.visible_liked_models_cache.len()
            invariant
                positions_fit(*self),
                i <= self.visible_liked_models_cache@.len(),
                out@.len() == i,
                forall|k: int| 0 <= k < i ==> *out@[k] == self.liked_models@[#[trigger] self.visible_liked_models_cache@[k] as int],
            decreases self.visible_liked_models_cache@.len() - i,
        {
            let p = self.visible_liked_models_cache[i];
            out.push(&self.liked_models[p]);
            i = i + 1;
        }
        out
    }

    /// Moves the selection back onto the shown list (see `clamped_selection`).
    pub fn clamp_liked_model_selection(&mut self)
        ensures
            final(self).selected == clamped_selection(old(self).selected, old(self).visible_liked_models_cache@.len()),
            final(self).liked_models == old(self).liked_models,
            final(self).visible_liked_models_cache == old(self).visible_liked_models_cache,
            final(self).pending_liked_model_remove_id == old(self).pending_liked_model_remove_id,
    {
        let n = self.visible_liked_models_cache.len();
        if n == 0 {
            self.selected = None;
            return;
        }
        let current = match self.selected {
            Some(i) => i,
            None => 0,
        };
        if current >= n {
            self.selected = Some(n - 1);
        }
    }

    /// Whether a model with the id is saved.
    pub fn is_model_liked(&self, model_id: u64) -> (b: bool)
        ensures
            b == has_id(self.liked_models@, model_id),
    {
        find_id(&self.liked_models, model_id).is_some()
    }

    /// Keeps the first saved model of each id.
    pub fn deduplicate_liked_models(&mut self)
        ensures
            final(self).liked_models@ == first_of_each(old(self).liked_models@),
            final(self).selected == old(self).selected,
            final(self).visible_liked_models_cache == old(self).visible_liked_models_cache,
            final(self).pending_liked_model_remove_id == old(self).pending_liked_model_remove_id,
    {
        let mut rest: Vec<ModelHit> = Vec::new();
        std::mem::swap(&mut rest, &mut self.liked_models);
        let ghost all = rest@;
        let n = rest.len();
        let mut i: usize = 0;
        assert(all.subrange(0, 0) =~= Seq::<ModelHit>::empty());
        while i < n
            invariant
                n == all.len(),
                i <= n,
                rest@ == all.subrange(i as int, n as int),
                self.liked_models@ == first_of_each(all.subrange(0, i as int)),
                self.selected == old(self).selected,
                self.visible_liked_models_cache == old(self).visible_liked_models_cache,
                self.pending_liked_model_remove_id == old(self).pending_liked_model_remove_id,
            decreases n - i,
        {
            let ghost before = rest@;
            let m = rest.remove(0);
            assert(m == all[i as int]) by {
                assert(before[0] == all[i as int]);
            }
            assert(rest@ =~= all.subrange(i + 1, n as int));
            assert(all.subrange(0, i + 1).drop_last() =~= all.subrange(0, i as int));
            if find_id(&self.liked_models, m.id).is_none() {
                self.liked_models.push(m);
            }
            i = i + 1;
        }
        assert(all.subrange(0, n as int) =~= all);
    }

    fn remove_id(&mut self, id: u64)
        ensures
            final(self).liked_models@ == without_id(old(self).liked_models@, id),
            final(self).selected == old(self).selected,
            final(self).visible_liked_models_cache == old(self).visible_liked_models_cache,
            final(self).pending_liked_model_remove_id == old(self).pending_liked_model_remove_id,
    {
        let mut rest: Vec<ModelHit> = Vec::new();
        std::mem::swap(&mut rest, &mut self.liked_models);
        let ghost all = rest@;
        let n = rest.len();
        let mut i: usize = 0;
        assert(all.subrange(0, 0) =~= Seq::<ModelHit>::empty());
        while i < n
            invariant
                n == all.len(),
                i <= n,
                rest@ == all.subrange(i as int, n as int),
                self.liked_models@ == without_id(all.subrange(0, i as int), id),
                self.selected == old(self).selected,
                self.visible_liked_models_cache == old(self).visible_liked_models_cache,
                self.pending_liked_model_remove_id == old(self).pending_liked_model_remove_id,
            decreases n - i,
        {
            let ghost before = rest@;
            let m = rest.remove(0);
            assert(m == all[i as int]) by {
                assert(before[0] == all[i as int]);
            }
            assert(rest@ =~= all.subrange(i + 1, n as int));
            assert(all.subrange(0, i + 1).drop_last() =~= all.subrange(0, i as int));
            if m.id != id {
                self.liked_models.push(m);
            }
            i = i + 1;
        }
        assert(all.subrange(0, n as int) =~= all);
    }

    /// Saves a model, or takes it out of the saved models when one of its id
    /// is saved; keeps the first of each id; shows the list again; and, on the
    /// saved-models tab, moves the selection back onto it. The notice names
    /// the model; the caller saves the list.
    pub fn toggle_like_for_selected_model(
        &mut self,
        model: ModelHit,
        f: &LikedFilter,
        delivery: &MediaDelivery,
        on_saved_tab: bool,
    ) -> (n: Notice)
        ensures
            final(self).liked_models@ == first_of_each(
                if has_id(old(self).liked_models@, model.id) {
                    without_id(old(self).liked_models@, model.id)
                } else {
                    old(self).liked_models@.push(model)
                },
            ),
            final(self).visible_liked_models_cache@ == shown_positions(
                final(self).liked_models@,
                *f,
                delivery.base_url@,
                delivery.namespace@,
            ),
            positions_fit(*final(self)),
            final(self).selected == if on_saved_tab {
                clamped_selection(old(self).selected, final(self).visible_liked_models_cache@.len())
            } else {
                old(self).selected
            },
            final(self).pending_liked_model_remove_id == old(self).pending_liked_model_remove_id,
            n.level == StatusLevel::Info,
            n.text@ == if has_id(old(self).liked_models@, model.id) {
                "Removed liked: "@ + model_name_text(model)
            } else {
                "Added liked: "@ + model_name_text(model)
            },
    {
        let name = model_name(&model);
        let mut text;
        if self.is_model_liked(model.id) {
            self.remove_id(model.id);
            text = String::from_str("Removed liked: ");
        } else {
            self.liked_models.push(model);
            text = String::from_str("Added liked: ");
        }
        text.append(name.as_str());
        self.deduplicate_liked_models();
        self.refresh_visible_liked_models_cache(f, delivery);
        if on_saved_tab {
            self.clamp_liked_model_selection();
        }
        Notice { level: StatusLevel::Info, text }
    }

    /// Takes out the saved model waiting to be removed, if any: the list is
    /// shown again and its selection moved back onto it, and the notice says
    /// it went (a warning when it was already gone). Nothing is waiting after.
    /// None when nothing was waiting.
    pub fn confirm_remove_selected_like(&mut self, f: &LikedFilter, delivery: &MediaDelivery) -> (n: Option<Notice>)
        ensures
            final(self).pending_liked_model_remove_id is None,
            match old(self).pending_liked_model_remove_id {
                None => n is None && final(self).liked_models == old(self).liked_models
                    && final(self).visible_liked_models_cache == old(self).visible_liked_models_cache
                    && final(self).selected == old(self).selected,
                Some(id) => if has_id(old(self).liked_models@, id) {
                    let p = choose|p: int| 0 <= p < old(self).liked_models@.len() && old(self).liked_models@[p].id == id
                        && forall|k: int| 0 <= k < p ==> old(self).liked_models@[k].id != id;
                    &&& final(self).liked_models@ == old(self).liked_models@.remove(p)
                    &&& final(self).visible_liked_models_cache@ == shown_positions(
                        final(self).liked_models@,
                        *f,
                        delivery.base_url@,
                        delivery.namespace@,
                    )
                    &&& positions_fit(*final(self))
                    &&& final(self).selected == clamped_selection(
                        old(self).selected,
                        final(self).visible_liked_models_cache@.len(),
                    )
                    &&& n matches Some(x) && x.level == StatusLevel::Info && x.text@ == "Removed liked: "@
                        + model_name_text(old(self).liked_models@[p])
                } else {
                    &&& n matches Some(x) && x.level == StatusLevel::Warn && x.text@ == "Liked already removed."@
                    &&& final(self).liked_models == old(self).liked_models
                    &&& final(self).visible_liked_models_cache == old(self).visible_liked_models_cache
                    &&& final(self).selected == old(self).selected
                },
            },
    {
        let id = match self.pending_liked_model_remove_id {
            Some(id) => id,
            None => return None,
        };
        self.pending_liked_model_remove_id = None;
        match find_id(&self.liked_models, id) {
            Some(pos) => {
                let ghost old_models = self.liked_models@;
                proof {
                    let c = choose|p: int| 0 <= p < old_models.len() && old_models[p].id == id && forall|k: int|
                        0 <= k < p ==> old_models[k].id != id;
                    assert(0 <= pos < old_models.len() && old_models[pos as int].id == id && forall|k: int|
                        0 <= k < pos ==> old_models[k].id != id);
                    if c < pos {
                        assert(old_models[c].id != id);
                    } else if c > pos {
                        assert(old_models[pos as int].id != id);
                    }
                }
                let name = model_name(&self.liked_models[pos]);
                self.liked_models.remove(pos);
                self.refresh_visible_liked_models_cache(f, delivery);
                self.clamp_liked_model_selection();
                let mut text = String::from_str("Removed liked: ");
                text.append(name.as_str());
                Some(Notice { level: StatusLevel::Info, text })
            },
            None => Some(Notice { level: StatusLevel::Warn, text: String::from_str("Liked already removed.") }),
        }
    }

    /// The saved model under the list's selection (the first when nothing is
    /// selected), if the list shows one there.
    pub fn selected_liked_model(&self) -> (r: Option<&ModelHit>)
        requires
            positions_fit(*self),
        ensures
            ({
                let i = match self.selected {
                    Some(i) => i,
                    None => 0,
                };
                if i < self.visible_liked_models_cache@.len() {
                    r matches Some(m) && *m == self.liked_models@[self.visible_liked_models_cache@[i as int] as int]
                } else {
                    r is None
                }
            }),
    {
        let i = match self.selected {
            Some(i) => i,
            None => 0,
        };
        if i < self.visible_liked_models_cache.len() {
            Some(&self.liked_models[self.visible_liked_models_cache[i]])
        } else {
            None
        }
    }

    /// Applies the filter: the list is shown again, its selection moved back
    /// onto it, and the notice says which text filters it (`<all>` for none).
    pub fn apply_liked_model_query(&mut self, f: &LikedFilter, delivery: &MediaDelivery) -> (n: Notice)
        ensures
            refreshed(*old(self), *final(self), *f, delivery.base_url@, delivery.namespace@),
            final(self).selected == clamped_selection(old(self).selected, final(self).visible_liked_models_cache@.len()),
            final(self).pending_liked_model_remove_id == old(self).pending_liked_model_remove_id,
            n.level == StatusLevel::Info,
            n.text@ == "Liked filter applied: "@ + if f.query@.len() == 0 {
                "<all>"@
            } else {
                f.query@
            },
    {
        self.refresh_visible_liked_models_cache(f, delivery);
        self.clamp_liked_model_selection();
        let mut text = String::from_str("Liked filter applied: ");
        if chars_of(f.query.as_str()).len() == 0 {
            text.append("<all>");
        } else {
            text.append(f.query.as_str());
        }
        Notice { level: StatusLevel::Info, text }
    }
}

impl App {
    /// Asks to confirm removing the selected saved model, on the saved-models
    /// tab: the model waits and the confirmation window opens; a warning when
    /// no model is selected. Elsewhere nothing happens.
    pub fn request_liked_model_remove_selected(&mut self, liked: &mut LikedModels)
        requires
            positions_fit(*old(liked)),
        ensures
            old(self).active_tab != MainTab::SavedModels ==> *final(self) == *old(self) && *final(liked) == *old(liked),
            old(self).active_tab == MainTab::SavedModels ==> {
                let i = match old(liked).selected {
                    Some(i) => i,
                    None => 0,
                };
                if i < old(liked).visible_liked_models_cache@.len() {
                    &&& final(liked).pending_liked_model_remove_id == Some(
                        old(liked).liked_models@[old(liked).visible_liked_models_cache@[i as int] as int].id,
                    )
                    &&& *final(self) == (App { show_like_confirm_modal: true, ..*old(self) })
                    &&& *final(liked) == (LikedModels {
                        pending_liked_model_remove_id: final(liked).pending_liked_model_remove_id,
                        ..*old(liked)
                    })
                } else {
                    &&& notice_shown(*old(self), *final(self), StatusLevel::Warn, "No liked model selected"@)
                    &&& *final(liked) == *old(liked)
                }
            },
    {
        if self.active_tab != MainTab::SavedModels {
            return;
        }
        let id = match liked.selected_liked_model() {
            Some(m) => Some(m.id),
            None => None,
        };
        match id {
            Some(id) => {
                liked.pending_liked_model_remove_id = Some(id);
                self.show_like_confirm_modal = true;
            },
            None => {
                self.set_warn("No liked model selected");
            },
        }
    }

    /// Closes the removal confirmation, nothing waiting any more.
    pub fn cancel_like_remove(&mut self, liked: &mut LikedModels)
        ensures
            *final(self) == (App { show_like_confirm_modal: false, ..*old(self) }),
            *final(liked) == (LikedModels { pending_liked_model_remove_id: None, ..*old(liked) }),
    {
        self.show_like_confirm_modal = false;
        liked.pending_liked_model_remove_id = None;
    }
}

proof fn lemma_passing_positions(ms: Seq<ModelHit>, k: int, f: LikedFilter, base: Seq<char>, namespace: Seq<char>)
    requires
        0 <= k <= ms.len(),
        ms.len() <= usize::MAX,
    ensures
        forall|i: int| 0 <= i < passing_positions(ms, k, f, base, namespace).len() ==> {
            let p = #[trigger] passing_positions(ms, k, f, base, namespace)[i];
            p < k && passes_filter(ms[p as int], f, base, namespace)
        },
        forall|i: int, j: int| 0 <= i < j < passing_positions(ms, k, f, base, namespace).len() ==> #[trigger] passing_positions(
            ms,
            k,
            f,
            base,
            namespace,
        )[i] < #[trigger] passing_positions(ms, k, f, base, namespace)[j],
    decreases k,
{
    if k > 0 {
        lemma_passing_positions(ms, k - 1, f, base, namespace);
        let r = passing_positions(ms, k - 1, f, base, namespace);
        let full = passing_positions(ms, k, f, base, namespace);
        assert forall|i: int| 0 <= i < full.len() implies {
            let p = #[trigger] full[i];
            p < k && passes_filter(ms[p as int], f, base, namespace)
        } by {
            if i < r.len() {
                assert(full[i] == r[i]);
            }
        }
        assert forall|i: int, j: int| 0 <= i < j < full.len() implies #[trigger] full[i] < #[trigger] full[j] by {
            if j < r.len() {
                assert(full[i] == r[i] && full[j] == r[j]);
            } else {
                assert(full[i] == r[i]);
            }
        }
    }
}

proof fn lemma_insert_position_elements(s: Seq<usize>, x: usize, ms: Seq<ModelHit>, by: ModelSearchSortBy)
    ensures
        insert_position(s, x, ms, by).to_multiset() =~= s.to_multiset().insert(x),
    decreases s.len(),
{
    if s.len() == 0 {
        vstd::seq_lib::to_multiset_build(s, x);
        assert(s.push(x) =~= seq![x]);
    } else if key_gt(sort_key(ms[x as int], by), sort_key(ms[s.last() as int], by)) {
        let init = s.drop_last();
        lemma_insert_position_elements(init, x, ms, by);
        vstd::seq_lib::to_multiset_build(insert_position(init, x, ms, by), s.last());
        vstd::seq_lib::to_multiset_build(init, s.last());
        assert(init.push(s.last()) =~= s);
    } else {
        vstd::seq_lib::to_multiset_build(s, x);
    }
}

proof fn lemma_sorted_positions_elements(s: Seq<usize>, ms: Seq<ModelHit>, by: ModelSearchSortBy)
    ensures
        sorted_positions(s, ms, by).to_multiset() =~= s.to_multiset(),
    decreases s.len(),
{
    if s.len() > 0 {
        let init = s.drop_last();
        lemma_sorted_positions_elements(init, ms, by);
        lemma_insert_position_elements(sorted_positions(init, ms, by), s.last(), ms, by);
        vstd::seq_lib::to_multiset_build(init, s.last());
        assert(init.push(s.last()) =~= s);
    }
}

/// The saved-model list shows only models that pass the filter, and none
/// twice.
pub proof fn law_shown_models_pass_once(ms: Seq<ModelHit>, f: LikedFilter, base: Seq<char>, namespace: Seq<char>)
    requires
        ms.len() <= usize::MAX,
    ensures
        forall|i: int| 0 <= i < shown_positions(ms, f, base, namespace).len() ==> {
            let p = #[trigger] shown_positions(ms, f, base, namespace)[i];
            p < ms.len() && passes_filter(ms[p as int], f, base, namespace)
        },
        shown_positions(ms, f, base, namespace).no_duplicates(),
{
    let ps = passing_positions(ms, ms.len() as int, f, base, namespace);
    lemma_passing_positions(ms, ms.len() as int, f, base, namespace);
    assert(ps.no_duplicates()) by {
        assert forall|i: int, j: int| 0 <= i < ps.len() && 0 <= j < ps.len() && i != j implies ps[i] != ps[j] by {
            if i < j {
                assert(ps[i] < ps[j]);
            } else {
                assert(ps[j] < ps[i]);
            }
        }
    }
    let r = shown_positions(ms, f, base, namespace);
    if r != ps {
        lemma_sorted_positions_elements(ps, ms, f.sort);
        assert forall|i: int| 0 <= i < r.len() implies {
            let p = #[trigger] r[i];
            p < ms.len() && passes_filter(ms[p as int], f, base, namespace)
        } by {
            assert(r.to_multiset().count(r[i]) > 0) by {
                r.to_multiset_ensures();
                assert(r.contains(r[i]));
            }
            ps.to_multiset_ensures();
            assert(ps.contains(r[i]));
            let j = choose|j: int| 0 <= j < ps.len() && ps[j] == r[i];
            assert(ps[j] == r[i]);
        }
        ps.lemma_multiset_has_no_duplicates();
        r.lemma_multiset_has_no_duplicates_conv();
    }
}

proof fn lemma_has_id_push(t: Seq<ModelHit>, x: ModelHit, id: u64)
    ensures
        has_id(t.push(x), id) == (has_id(t, id) || x.id == id),
{
    let t2 = t.push(x);
    if has_id(t, id) {
        let i = choose|i: int| 0 <= i < t.len() && #[trigger] t[i].id == id;
        assert(t2[i] == t[i]);
    }
    if x.id == id {
        assert(t2[t.len() as int].id == id);
    }
    if has_id(t2, id) {
        let i = choose|i: int| 0 <= i < t2.len() && #[trigger] t2[i].id == id;
        if i < t.len() {
            assert(t2[i] == t[i]);
        }
    }
}

proof fn lemma_first_of_each_has(s: Seq<ModelHit>, id: u64)
    ensures
        has_id(first_of_each(s), id) == has_id(s, id),
    decreases s.len(),
{
    if s.len() > 0 {
        let init = s.drop_last();
        lemma_first_of_each_has(init, id);
        let r = first_of_each(init);
        assert(init.push(s.last()) =~= s);
        lemma_has_id_push(init, s.last(), id);
        lemma_has_id_push(r, s.last(), id);
        if has_id(r, s.last().id) && s.last().id == id {
            assert(has_id(r, id));
        }
    }
}

proof fn lemma_without_id(s: Seq<ModelHit>, id: u64)
    ensures
        !has_id(without_id(s, id), id),
    decreases s.len(),
{
    if s.len() > 0 {
        lemma_without_id(s.drop_last(), id);
        let r = without_id(s.drop_last(), id);
        if s.last().id != id {
            let r2 = r.push(s.last());
            assert forall|i: int| 0 <= i < r2.len() implies #[trigger] r2[i].id != id by {
                if i < r.len() {
                    assert(r2[i] == r[i]);
                }
            }
        }
    }
}

/// Saved models are kept one of each id.
pub proof fn law_saved_ids_distinct(s: Seq<ModelHit>)
    ensures
        forall|i: int, j: int| 0 <= i < j < first_of_each(s).len() ==> #[trigger] first_of_each(s)[i].id
            != #[trigger] first_of_each(s)[j].id,
    decreases s.len(),
{
    if s.len() > 0 {
        let init = s.drop_last();
        law_saved_ids_distinct(init);
        let r = first_of_each(init);
        if !has_id(r, s.last().id) {
            let r2 = r.push(s.last());
            assert forall|i: int, j: int| 0 <= i < j < r2.len() implies #[trigger] r2[i].id != #[trigger] r2[j].id by {
                if j == r.len() {
                    assert(r2[i] == r[i]);
                    if r[i].id == s.last().id {
                        assert(has_id(r, s.last().id));
                    }
                } else {
                    assert(r2[i] == r[i] && r2[j] == r[j]);
                }
            }
        }
    }
}

/// Liking a model that is not saved saves it; liking a saved one takes it
/// out.
pub proof fn law_toggle_flips_saved(s: Seq<ModelHit>, m: ModelHit)
    ensures
        has_id(
            first_of_each(
                if has_id(s, m.id) {
                    without_id(s, m.id)
                } else {
                    s.push(m)
                },
            ),
            m.id,
        ) == !has_id(s, m.id),
{
    if has_id(s, m.id) {
        lemma_without_id(s, m.id);
        lemma_first_of_each_has(without_id(s, m.id), m.id);
    } else {
        let t = s.push(m);
        assert(t[s.len() as int].id == m.id);
        lemma_first_of_each_has(t, m.id);
    }
}

} // verus!
