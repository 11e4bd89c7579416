use vstd::prelude::*;

use crate::chars::{ascii_lower_chars, ascii_lower_seq, chars_of};
use crate::image::same_chars;
use crate::metadata::opt_text;
use crate::models::{
    default_base_model, default_base_model_text, metrics_of, model_metrics, model_name, model_name_text, MediaDelivery,
    ModelHit,
};
use crate::text::{contains_seq, find_char, lemma_first_occurrence_found, occurs_at};

verus! {

/// A filter choice as the search names it: by the value it sends and by the
/// label it shows.
pub struct FilterName {
    pub query_value: String,
    pub label: String,
}

/// The lower-cased text is one of the choice's names, lower-cased.
pub open spec fn names_match(t: Seq<char>, f: FilterName) -> bool {
    t == ascii_lower_seq(f.query_value@) || t == ascii_lower_seq(f.label@)
}

/// A value passes a filter: nothing is chosen, or the value is there and,
/// lower-cased, names one of the choices.
pub open spec fn passes_names(value: Option<Seq<char>>, chosen: Seq<FilterName>) -> bool {
    chosen.len() == 0 || (value is Some && exists|i: int|
        0 <= i < chosen.len() && names_match(ascii_lower_seq(value->0), #[trigger] chosen[i]))
}

/// A saved model passes the text filter: the query (already lower case) is
/// empty or occurs in the model's lower-cased name.
pub open spec fn passes_query(m: ModelHit, query: Seq<char>) -> bool {
    query.len() == 0 || contains_seq(ascii_lower_seq(model_name_text(m)), query)
}

/// Whether a saved model passes the text filter.
pub fn liked_model_matches_query(model: &ModelHit, query: &str) -> (b: bool)
    ensures
        b == passes_query(*model, query@),
{
    let q = chars_of(query);
    if q.len() == 0 {
        return true;
    }
    let name = ascii_lower_chars(&chars_of(model_name(model).as_str()));
    let found = find_char(name.as_slice(), q.as_slice());
    proof {
        lemma_first_occurrence_found(name@, q@);
    }
    found.is_some()
}

fn passes_chosen(value: &Option<String>, chosen: &Vec<FilterName>) -> (b: bool)
    ensures
        b == passes_names(opt_text(*value), chosen@),
{
    if chosen.len() == 0 {
        return true;
    }
    let v = match value {
        Some(v) => v,
        None => return false,
    };
    let t = ascii_lower_chars(&chars_of(v.as_str()));
    assert(opt_text(*value) == Some(v@));
    let mut i: usize = 0;
    while i < chosen.len()
        invariant
            i <= chosen@.len(),
            t@ == ascii_lower_seq(v@),
            opt_text(*value) == Some(v@),
            forall|k: int| 0 <= k < i ==> !names_match(t@, #[trigger] chosen@[k]),
        decreases chosen@.len() - i,
    {
        let q = ascii_lower_chars(&chars_of(chosen[i].query_value.as_str()));
        let l = ascii_lower_chars(&chars_of(chosen[i].label.as_str()));
        if same_chars(&t, &q) || same_chars(&t, &l) {
            assert(names_match(ascii_lower_seq(opt_text(*value)->0), chosen@[i as int]));
            return true;
        }
        i = i + 1;
    }
    false
}

/// Whether a saved model's type is one of the chosen types (any, when none
/// is chosen).
pub fn liked_model_matches_type(model: &ModelHit, selected_types: &Vec<FilterName>) -> (b: bool)
    ensures
        b == passes_names(opt_text(model.model_type), selected_types@),
{
    passes_chosen(&model.model_type, selected_types)
}

/// Whether a saved model's base model is one of the chosen base models (any,
/// when none is chosen).
pub fn liked_model_matches_base_model(
    model: &ModelHit,
    selected_base_models: &Vec<FilterName>,
    delivery: &MediaDelivery,
) -> (b: bool)
    ensures
        b == passes_names(
            default_base_model_text(*model, delivery.base_url@, delivery.namespace@),
            selected_base_models@,
        ),
{
    if selected_base_models.len() == 0 {
        return true;
    }
    let base = default_base_model(model, delivery);
    passes_chosen(&base, selected_base_models)
}

/// The orders a list of saved models can be shown in.
pub enum ModelSearchSortBy {
    Relevance,
    HighestRated,
    MostDownloaded,
    MostLiked,
    MostDiscussed,
    MostCollected,
    MostBuzz,
    Newest,
    Custom(String),
}

/// Where a rating's `f64` bit pattern stands in the total order of `f64`
/// values (as `f64::total_cmp` orders them), as an unsigned number.
pub open spec fn rating_order(bits: u64) -> u64 {
    if bits >= 0x8000_0000_0000_0000u64 {
        !bits
    } else {
        bits | 0x8000_0000_0000_0000u64
    }
}

/// A signed time as an unsigned number in the same order.
pub open spec fn time_order(t: i64) -> u64 {
    (t + 0x8000_0000_0000_0000int) as u64
}

/// What a saved model is ordered by, most first: a pair compared first by its
/// first part, then by its second.
pub open spec fn sort_key(m: ModelHit, by: ModelSearchSortBy) -> (u64, u64) {
    let s = metrics_of(m.metrics);
    match by {
        ModelSearchSortBy::HighestRated => (rating_order(s.rating_bits), s.rating_count),
        ModelSearchSortBy::MostDownloaded => (s.download_count, 0),
        ModelSearchSortBy::MostLiked => (s.favorite_count, s.thumbs_up_count),
        ModelSearchSortBy::MostDiscussed => (s.comment_count, 0),
        ModelSearchSortBy::MostCollected => (s.collected_count, 0),
        ModelSearchSortBy::MostBuzz => (s.tipped_amount_count, 0),
        ModelSearchSortBy::Newest => (
            time_order(
                match m.last_version_at_unix {
                    Some(t) => t,
                    None => 0,
                },
            ),
            0,
        ),
        _ => (0, 0),
    }
}

/// `a` comes before `b` in an order from most to least.
pub open spec fn key_gt(a: (u64, u64), b: (u64, u64)) -> bool {
    a.0 > b.0 || (a.0 == b.0 && a.1 > b.1)
}

/// `x` inserted into a list ordered from most to least: after every model
/// whose key is not below its own, so that equal keys keep their order.
pub open spec fn insert_desc(sorted: Seq<ModelHit>, x: ModelHit, by: ModelSearchSortBy) -> Seq<ModelHit>
    decreases sorted.len(),
{
    if sorted.len() == 0 {
        seq![x]
    } else if key_gt(sort_key(x, by), sort_key(sorted.last(), by)) {
        insert_desc(sorted.drop_last(), x, by).push(sorted.last())
    } else {
        sorted.push(x)
    }
}

/// The models stably ordered from most to least by their key.
pub open spec fn sorted_desc(s: Seq<ModelHit>, by: ModelSearchSortBy) -> Seq<ModelHit>
    decreases s.len(),
{
    if s.len() == 0 {
        s
    } else {
        insert_desc(sorted_desc(s.drop_last(), by), s.last(), by)
    }
}

/// Saved models in the chosen order: as they are for relevance and for a
/// custom order, else stably from most to least.
pub open spec fn sorted_liked(s: Seq<ModelHit>, by: ModelSearchSortBy) -> Seq<ModelHit> {
    match by {
        ModelSearchSortBy::Relevance => s,
        ModelSearchSortBy::Custom(_) => s,
        _ => sorted_desc(s, by),
    }
}

pub(crate) fn model_sort_key(m: &ModelHit, by: &ModelSearchSortBy) -> (r: (u64, u64))
    ensures
        r == sort_key(*m, *by),
{
    let s = model_metrics(m);
    match by {
        ModelSearchSortBy::HighestRated => {
            let bits = s.rating_bits;
            let o = if bits >= 0x8000_0000_0000_0000u64 {
                !bits
            } else {
                bits | 0x8000_0000_0000_0000u64
            };
            (o, s.rating_count)
        },
        ModelSearchSortBy::MostDownloaded => (s.download_count, 0),
        ModelSearchSortBy::MostLiked => (s.favorite_count, s.thumbs_up_count),
        ModelSearchSortBy::MostDiscussed => (s.comment_count, 0),
        ModelSearchSortBy::MostCollected => (s.collected_count, 0),
        ModelSearchSortBy::MostBuzz => (s.tipped_amount_count, 0),
        ModelSearchSortBy::Newest => {
            let t: i64 = match m.last_version_at_unix {
                Some(t) => t,
                None => 0,
            };
            let o: u64 = if t >= 0 {
                (t as u64) + 0x8000_0000_0000_0000u64
            } else {
                (t + 0x7FFF_FFFF_FFFF_FFFFi64 + 1) as u64
            };
            (o, 0)
        },
        _ => (0, 0),
    }
}

pub(crate) fn key_greater(a: (u64, u64), b: (u64, u64)) -> (r: bool)
    ensures
        r == key_gt(a, b),
{
    a.0 > b.0 || (a.0 == b.0 && a.1 > b.1)
}

/// Inserting where the backward scan stops: after `p` models, before the
/// rest, which all come after `x`.
proof fn lemma_insert_desc_at(sorted: Seq<ModelHit>, x: ModelHit, by: ModelSearchSortBy, p: int)
    requires
        0 <= p <= sorted.len(),
        p == 0 || !key_gt(sort_key(x, by), sort_key(sorted[p - 1], by)),
        forall|k: int| p <= k < sorted.len() ==> key_gt(sort_key(x, by), sort_key(#[trigger] sorted[k], by)),
    ensures
        insert_desc(sorted, x, by) == sorted.subrange(0, p).push(x) + sorted.subrange(p, sorted.len() as int),
    decreases sorted.len() - p,
{
    if sorted.len() == 0 {
        assert(sorted.subrange(0, p).push(x) + sorted.subrange(p, sorted.len() as int) =~= seq![x]);
    } else if p == sorted.len() {
        assert(sorted.subrange(0, p) =~= sorted);
        assert(sorted.subrange(0, p).push(x) + sorted.subrange(p, sorted.len() as int) =~= sorted.push(x));
    } else {
        let init = sorted.drop_last();
        assert(key_gt(sort_key(x, by), sort_key(sorted[sorted.len() - 1], by)));
        assert forall|k: int| p <= k < init.len() implies key_gt(sort_key(x, by), sort_key(#[trigger] init[k], by)) by {
            assert(init[k] == sorted[k]);
        }
        if p > 0 {
            assert(init[p - 1] == sorted[p - 1]);
        }
        lemma_insert_desc_at(init, x, by, p);
        assert((init.subrange(0, p).push(x) + init.subrange(p, init.len() as int)).push(sorted.last())
            =~= sorted.subrange(0, p).push(x) + sorted.subrange(p, sorted.len() as int));
    }
}

fn sort_desc(items: &mut Vec<ModelHit>, by: &ModelSearchSortBy)
    ensures
        final(items)@ == sorted_desc(old(items)@, *by),
{
    let ghost orig = items@;
    let n = items.len();
    let mut i: usize = 0;
    while i < n
        invariant
            n == items@.len(),
            i <= n,
            orig.len() == n,
            items@.subrange(0, i as int) == sorted_desc(orig.subrange(0, i as int), *by),
            items@.subrange(i as int, n as int) == orig.subrange(i as int, n as int),
        decreases n - i,
    {
        let ghost before = items@;
        let x = items.remove(i);
        let ghost sorted = before.subrange(0, i as int);
        assert(items@.subrange(0, i as int) =~= sorted);
        let kx = model_sort_key(&x, by);
        let mut p: usize = i;
        while p > 0 && key_greater(kx, model_sort_key(&items[p - 1], by))
            invariant
                p <= i,
                i < n,
                items@.len() == n - 1,
                kx == sort_key(x, *by),
                items@.subrange(0, i as int) == sorted,
                forall|k: int| p <= k < i ==> key_gt(kx, sort_key(#[trigger] sorted[k], *by)),
            decreases p,
        {
            assert(sorted[p - 1] == items@[p - 1]);
            p = p - 1;
        }
        proof {
            if p > 0 {
                assert(sorted[p - 1] == items@[p - 1]);
            }
            lemma_insert_desc_at(sorted, x, *by, p as int);
            assert(orig.subrange(0, i + 1).drop_last() =~= orig.subrange(0, i as int));
            assert(orig.subrange(0, i + 1).last() == orig[i as int]);
            assert(before.subrange(i as int, n as int)[0] == before[i as int]);
        }
        items.insert(p, x);
        proof {
            let after = items@;
            assert(after.subrange(0, i + 1) =~= sorted.subrange(0, p as int).push(x) + sorted.subrange(p as int, i as int));
            assert(after.subrange(i + 1, n as int) =~= before.subrange(i + 1, n as int));
            assert(before.subrange(i + 1, n as int) =~= orig.subrange(i + 1, n as int)) by {
                assert(before.subrange(i as int, n as int) == orig.subrange(i as int, n as int));
                assert forall|k: int| 0 <= k < n - i - 1 implies #[trigger] before.subrange(i + 1, n as int)[k]
                    == orig.subrange(i + 1, n as int)[k] by {
                    assert(before.subrange(i as int, n as int)[k + 1] == orig.subrange(i as int, n as int)[k + 1]);
                }
            }
        }
        i = i + 1;
    }
    proof {
        assert(items@.subrange(0, n as int) =~= items@);
        assert(orig.subrange(0, n as int) =~= orig);
    }
}

/// Orders saved models: kept as they are for relevance and for a custom order;
/// else stably from most to least by rating (then number of ratings),
/// downloads, favorites (then thumbs up), comments, collections, tips, or by
/// newest version (a model without a date counts as the epoch).
pub fn sort_liked_models(items: &mut Vec<ModelHit>, sort_by: &ModelSearchSortBy)
    ensures
        final(items)@ == sorted_liked(old(items)@, *sort_by),
{
    match sort_by {
        ModelSearchSortBy::Relevance => {},
        ModelSearchSortBy::Custom(_) => {},
        _ => sort_desc(items, sort_by),
    }
}

/// No model in the list ranks above one before it.
pub open spec fn ranked_desc(r: Seq<ModelHit>, by: ModelSearchSortBy) -> bool {
    forall|i: int, j: int| 0 <= i < j < r.len() ==> !key_gt(sort_key(#[trigger] r[j], by), sort_key(#[trigger] r[i], by))
}

proof fn lemma_insert_desc_elements(s: Seq<ModelHit>, x: ModelHit, by: ModelSearchSortBy)
    ensures
        insert_desc(s, x, by).len() == s.len() + 1,
        forall|i: int| 0 <= i < insert_desc(s, x, by).len() ==> #[trigger] insert_desc(s, x, by)[i] == x
            || s.contains(insert_desc(s, x, by)[i]),
    decreases s.len(),
{
    if s.len() > 0 && key_gt(sort_key(x, by), sort_key(s.last(), by)) {
        let init = s.drop_last();
        lemma_insert_desc_elements(init, x, by);
        let r = insert_desc(s, x, by);
        assert forall|i: int| 0 <= i < r.len() implies #[trigger] r[i] == x || s.contains(r[i]) by {
            if i < r.len() - 1 {
                let r0 = insert_desc(init, x, by);
                assert(r[i] == r0[i]);
                if r0[i] != x {
                    let k = choose|k: int| 0 <= k < init.len() && init[k] == r0[i];
                    assert(s[k] == init[k]);
                }
            } else {
                assert(s[s.len() - 1] == r[i]);
            }
        }
    } else if s.len() > 0 {
        let r = insert_desc(s, x, by);
        assert forall|i: int| 0 <= i < r.len() implies #[trigger] r[i] == x || s.contains(r[i]) by {
            if i < s.len() {
                assert(r[i] == s[i]);
            }
        }
    }
}

proof fn lemma_insert_desc_ranked(s: Seq<ModelHit>, x: ModelHit, by: ModelSearchSortBy)
    requires
        ranked_desc(s, by),
    ensures
        ranked_desc(insert_desc(s, x, by), by),
        insert_desc(s, x, by).to_multiset() =~= s.to_multiset().insert(x),
    decreases s.len(),
{
    if s.len() == 0 {
        vstd::seq_lib::to_multiset_build(s, x);
        assert(s.push(x) =~= seq![x]);
    } else if key_gt(sort_key(x, by), sort_key(s.last(), by)) {
        let init = s.drop_last();
        let last = s.last();
        assert(ranked_desc(init, by)) by {
            assert forall|i: int, j: int| 0 <= i < j < init.len() implies !key_gt(
                sort_key(#[trigger] init[j], by),
                sort_key(#[trigger] init[i], by),
            ) by {
                assert(init[i] == s[i] && init[j] == s[j]);
            }
        }
        lemma_insert_desc_ranked(init, x, by);
        lemma_insert_desc_elements(init, x, by);
        let r0 = insert_desc(init, x, by);
        let r = r0.push(last);
        assert forall|i: int, j: int| 0 <= i < j < r.len() implies !key_gt(
            sort_key(#[trigger] r[j], by),
            sort_key(#[trigger] r[i], by),
        ) by {
            if j < r.len() - 1 {
                assert(r[i] == r0[i] && r[j] == r0[j]);
            } else {
                assert(r[i] == r0[i]);
                assert(r0[i] == x || init.contains(r0[i]));
                if r0[i] != x {
                    let k = choose|k: int| 0 <= k < init.len() && init[k] == r0[i];
                    assert(s[k] == init[k]);
                    assert(s[s.len() - 1] == last);
                }
            }
        }
        vstd::seq_lib::to_multiset_build(r0, last);
        vstd::seq_lib::to_multiset_build(init, last);
        assert(init.push(last) =~= s);
        assert(r.to_multiset() =~= s.to_multiset().insert(x));
    } else {
        let r = s.push(x);
        assert forall|i: int, j: int| 0 <= i < j < r.len() implies !key_gt(
            sort_key(#[trigger] r[j], by),
            sort_key(#[trigger] r[i], by),
        ) by {
            if j < s.len() {
                assert(r[i] == s[i] && r[j] == s[j]);
            } else {
                assert(r[i] == s[i]);
                if i < s.len() - 1 {
                    assert(!key_gt(sort_key(s[s.len() - 1], by), sort_key(s[i], by)));
                }
            }
        }
        vstd::seq_lib::to_multiset_build(s, x);
    }
}

proof fn lemma_sorted_desc(s: Seq<ModelHit>, by: ModelSearchSortBy)
    ensures
        ranked_desc(sorted_desc(s, by), by),
        sorted_desc(s, by).to_multiset() =~= s.to_multiset(),
    decreases s.len(),
{
    if s.len() > 0 {
        let init = s.drop_last();
        lemma_sorted_desc(init, by);
        lemma_insert_desc_ranked(sorted_desc(init, by), s.last(), by);
        vstd::seq_lib::to_multiset_build(init, s.last());
        assert(init.push(s.last()) =~= s);
    }
}

/// Ordering saved models keeps exactly the models it was given; and, for an
/// order other than relevance or a custom one, no model ends up after one that
/// ranks below it.
pub proof fn law_liked_order_keeps_models_and_ranks(s: Seq<ModelHit>, by: ModelSearchSortBy)
    ensures
        sorted_liked(s, by).to_multiset() =~= s.to_multiset(),
        !(by is Relevance) && !(by is Custom) ==> ranked_desc(sorted_liked(s, by), by),
{
    lemma_sorted_desc(s, by);
}

/// Each order ranks saved models by its own counter: under most discussed the
/// comment counts never rise down the list, under most downloaded the
/// downloads, under most collected the collections, under most buzz the tips;
/// under most liked the favorites never rise, and among equal favorites the
/// thumbs up never rise; under newest the newest-version times never rise (a
/// model without one counting as the epoch); and under highest rated, between
/// two ratings that are not negative, the rating never rises, and among equal
/// ratings the number of ratings never rises.
pub proof fn law_liked_order_follows_its_counter(s: Seq<ModelHit>, by: ModelSearchSortBy, i: int, j: int)
    requires
        0 <= i < j < s.len(),
    ensures
        ({
            let r = sorted_liked(s, by);
            let a = metrics_of(r[i].metrics);
            let b = metrics_of(r[j].metrics);
            &&& by is MostDiscussed ==> a.comment_count >= b.comment_count
            &&& by is MostDownloaded ==> a.download_count >= b.download_count
            &&& by is MostCollected ==> a.collected_count >= b.collected_count
            &&& by is MostBuzz ==> a.tipped_amount_count >= b.tipped_amount_count
            &&& by is MostLiked ==> a.favorite_count >= b.favorite_count
            &&& by is MostLiked && a.favorite_count == b.favorite_count ==> a.thumbs_up_count
                >= b.thumbs_up_count
            &&& by is Newest ==> match (r[i].last_version_at_unix, r[j].last_version_at_unix) {
                (Some(x), Some(y)) => x >= y,
                (Some(x), None) => x >= 0,
                (None, Some(y)) => 0 >= y,
                (None, None) => true,
            }
            &&& by is HighestRated && a.rating_bits < 0x8000_0000_0000_0000u64 && b.rating_bits
                < 0x8000_0000_0000_0000u64 ==> a.rating_bits >= b.rating_bits
            &&& by is HighestRated && a.rating_bits == b.rating_bits ==> a.rating_count >= b.rating_count
        }),
{
    lemma_sorted_desc(s, by);
    let r = sorted_liked(s, by);
    assert(r.len() == s.len()) by {
        law_liked_order_keeps_models_and_ranks(s, by);
        assert(r.to_multiset().len() == s.to_multiset().len());
        r.to_multiset_ensures();
        s.to_multiset_ensures();
    }
    if !(by is Relevance) && !(by is Custom) {
        assert(!key_gt(sort_key(r[j], by), sort_key(r[i], by)));
        let a = metrics_of(r[i].metrics);
        let b = metrics_of(r[j].metrics);
        if by is Newest {
            let x: i64 = match r[i].last_version_at_unix {
                Some(t) => t,
                None => 0,
            };
            let y: i64 = match r[j].last_version_at_unix {
                Some(t) => t,
                None => 0,
            };
            assert(time_order(x) >= time_order(y));
            assert(x >= y);
        }
        if by is HighestRated {
            let p = a.rating_bits;
            let q = b.rating_bits;
            assert(rating_order(p) >= rating_order(q));
            assert(p < 0x8000_0000_0000_0000u64 && q < 0x8000_0000_0000_0000u64 && (p
                | 0x8000_0000_0000_0000u64) >= (q | 0x8000_0000_0000_0000u64) ==> p >= q) by (bit_vector);
        }
    }
}

/// The saved-model filters ignore ASCII case and let everything through when
/// nothing is asked: an empty query passes every model, a model is found by its
/// own name in any case and by any piece of it, a filter with no choices passes
/// every value, a value passes a choice whose label or query value it names in
/// any case, and a model without the value passes no filter with choices.
pub proof fn law_liked_filters_ignore_case(
    m: ModelHit,
    i: int,
    j: int,
    value: Option<Seq<char>>,
    f: FilterName,
    chosen: Seq<FilterName>,
)
    ensures
        passes_query(m, Seq::empty()),
        0 <= i <= j <= model_name_text(m).len() ==> passes_query(
            m,
            ascii_lower_seq(model_name_text(m).subrange(i, j)),
        ),
        passes_names(value, Seq::empty()),
        value matches Some(v) && (ascii_lower_seq(v) == ascii_lower_seq(f.label@) || ascii_lower_seq(v)
            == ascii_lower_seq(f.query_value@)) ==> passes_names(value, seq![f]),
        value is None && chosen.len() > 0 ==> !passes_names(value, chosen),
{
    if 0 <= i <= j <= model_name_text(m).len() {
        let lower = ascii_lower_seq(model_name_text(m));
        let pat = ascii_lower_seq(model_name_text(m).subrange(i, j));
        assert(lower.subrange(i, i + pat.len()) =~= pat);
        assert(occurs_at(lower, pat, i));
    }
    if value is Some && (ascii_lower_seq(value->0) == ascii_lower_seq(f.label@) || ascii_lower_seq(value->0)
        == ascii_lower_seq(f.query_value@)) {
        assert(names_match(ascii_lower_seq(value->0), seq![f][0]));
    }
}

/// Ordering is stable and does nothing to a list already in order: a list in
/// which no model ranks above one before it (in particular one whose models all
/// rank the same) comes back as it was.
pub proof fn law_liked_order_keeps_ordered_lists(s: Seq<ModelHit>, by: ModelSearchSortBy)
    requires
        ranked_desc(s, by),
    ensures
        sorted_liked(s, by) == s,
    decreases s.len(),
{
    if s.len() > 0 && !(by is Relevance) && !(by is Custom) {
        let init = s.drop_last();
        assert(ranked_desc(init, by)) by {
            assert forall|i: int, j: int| 0 <= i < j < init.len() implies !key_gt(
                sort_key(#[trigger] init[j], by),
                sort_key(#[trigger] init[i], by),
            ) by {
                assert(init[i] == s[i] && init[j] == s[j]);
            }
        }
        law_liked_order_keeps_ordered_lists(init, by);
        if init.len() > 0 {
            assert(init.last() == s[s.len() - 2]);
            assert(!key_gt(sort_key(s[s.len() - 1], by), sort_key(s[s.len() - 2], by)));
        }
        assert(init.push(s.last()) =~= s);
    }
}

} // verus!
