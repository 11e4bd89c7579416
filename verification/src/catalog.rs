use vstd::prelude::*;

use crate::chars::{chars_of, string_of, trim, trim_chars};
use crate::sorting::{
    law_stable_sorted_keys_ascend, lemma_stable_sorted_entries, pairs_view,
    sort_by_text_key, stable_sorted, text_lt,
};
use crate::text::{to_lowercase, unicode_lowercase};

verus! {

/// Some entry of the list has the key.
pub open spec fn has_key<T>(s: Seq<(T, Seq<char>)>, key: Seq<char>) -> bool {
    exists|j: int| 0 <= j < s.len() && (#[trigger] s[j]).1 == key
}

/// The entries whose key no earlier entry has, in order.
pub open spec fn first_by_key<T>(s: Seq<(T, Seq<char>)>) -> Seq<(T, Seq<char>)>
    decreases s.len(),
{
    if s.len() == 0 {
        s
    } else {
        let kept = first_by_key(s.drop_last());
        if has_key(kept, s.last().1) {
            kept
        } else {
            kept.push(s.last())
        }
    }
}

/// The tags as written to the catalog file, each with its key: trimmed, the
/// blank ones left out, keyed by their lower-case text.
pub open spec fn trimmed_tags(tags: Seq<String>) -> Seq<(Seq<char>, Seq<char>)>
    decreases tags.len(),
{
    if tags.len() == 0 {
        Seq::empty()
    } else {
        let rest = trimmed_tags(tags.drop_last());
        let t = trim(tags.last()@);
        if t.len() == 0 {
            rest
        } else {
            rest.push((t, unicode_lowercase(t)))
        }
    }
}

/// The texts of keyed entries.
pub open spec fn texts<K>(s: Seq<(Seq<char>, K)>) -> Seq<Seq<char>> {
    s.map_values(|p: (Seq<char>, K)| p.0)
}

/// The tag catalog as it is saved: tags trimmed, blank ones dropped, a tag
/// whose lower-case text came earlier dropped, sorted by lower-case text.
pub open spec fn saved_tag_catalog(tags: Seq<String>) -> Seq<Seq<char>> {
    texts(stable_sorted(first_by_key(trimmed_tags(tags))))
}

fn list_has_key(list: &Vec<(String, Vec<char>)>, key: &Vec<char>) -> (r: bool)
    ensures
        r == has_key(text_pairs(list@), key@),
{
    let mut j: usize = 0;
    while j < list.len()
        invariant
            j <= list@.len(),
            forall|k: int| 0 <= k < j ==> (#[trigger] list@[k]).1@ != key@,
        decreases list@.len() - j,
    {
        if crate::image::same_chars(&list[j].1, key) {
            assert(text_pairs(list@)[j as int].1 == key@);
            return true;
        }
        j = j + 1;
    }
    proof {
        let v = text_pairs(list@);
        assert forall|k: int| 0 <= k < v.len() implies (#[trigger] v[k]).1 != key@ by {
            assert(v[k].1 == list@[k].1@);
        }
    }
    false
}

/// Strings with their keys, as text.
pub open spec fn text_pairs(s: Seq<(String, Vec<char>)>) -> Seq<(Seq<char>, Seq<char>)> {
    s.map_values(|p: (String, Vec<char>)| (p.0@, p.1@))
}

pub(crate) proof fn lemma_text_pairs_sorted(s: Seq<(String, Vec<char>)>)
    ensures
        text_pairs(s) == texts_of_pairs(pairs_view(s)),
{
    assert(text_pairs(s) =~= texts_of_pairs(pairs_view(s)));
}

/// Keyed strings with the strings as text.
pub open spec fn texts_of_pairs(s: Seq<(String, Seq<char>)>) -> Seq<(Seq<char>, Seq<char>)> {
    s.map_values(|p: (String, Seq<char>)| (p.0@, p.1))
}

/// Sorting commutes with viewing the strings as text.
pub(crate) proof fn lemma_sort_texts(s: Seq<(String, Seq<char>)>)
    ensures
        texts_of_pairs(stable_sorted(s)) == stable_sorted(texts_of_pairs(s)),
    decreases s.len(),
{
    if s.len() > 0 {
        lemma_sort_texts(s.drop_last());
        assert(texts_of_pairs(s).drop_last() =~= texts_of_pairs(s.drop_last()));
        lemma_insert_texts(stable_sorted(s.drop_last()), s.last());
    }
}

proof fn lemma_insert_texts(sorted: Seq<(String, Seq<char>)>, x: (String, Seq<char>))
    ensures
        texts_of_pairs(crate::sorting::insert_sorted(sorted, x)) == crate::sorting::insert_sorted(
            texts_of_pairs(sorted),
            (x.0@, x.1),
        ),
    decreases sorted.len(),
{
    if sorted.len() == 0 {
        assert(texts_of_pairs(seq![x]) =~= seq![(x.0@, x.1)]);
    } else {
        assert(texts_of_pairs(sorted).drop_last() =~= texts_of_pairs(sorted.drop_last()));
        if text_lt(x.1, sorted.last().1) {
            lemma_insert_texts(sorted.drop_last(), x);
            assert(texts_of_pairs(crate::sorting::insert_sorted(sorted.drop_last(), x).push(sorted.last()))
                =~= texts_of_pairs(crate::sorting::insert_sorted(sorted.drop_last(), x)).push((sorted.last().0@, sorted.last().1)));
        } else {
            assert(texts_of_pairs(sorted.push(x)) =~= texts_of_pairs(sorted).push((x.0@, x.1)));
        }
    }
}

/// The tag catalog as it is saved.
pub fn normalize_tags_for_saving(tags: &[String]) -> (r: Vec<String>)
    ensures
        r@.len() == saved_tag_catalog(tags@).len(),
        forall|k: int| 0 <= k < r@.len() ==> (#[trigger] r@[k])@ == saved_tag_catalog(tags@)[k],
{
    let mut kept: Vec<(String, Vec<char>)> = Vec::new();
    let mut i: usize = 0;
    while i < tags.len()
        invariant
            i <= tags@.len(),
            text_pairs(kept@) == first_by_key(trimmed_tags(tags@.subrange(0, i as int))),
        decreases tags@.len() - i,
    {
        proof {
            assert(tags@.subrange(0, i + 1).drop_last() =~= tags@.subrange(0, i as int));
            assert(tags@.subrange(0, i + 1).last() == tags@[i as int]);
        }
        let t = trim_chars(&chars_of(tags[i].as_str()));
        let ghost prefix = tags@.subrange(0, i + 1);
        let ghost old_kept = text_pairs(kept@);
        assert(trimmed_tags(prefix) == if t@.len() == 0 {
            trimmed_tags(tags@.subrange(0, i as int))
        } else {
            trimmed_tags(tags@.subrange(0, i as int)).push((t@, unicode_lowercase(t@)))
        });
        if t.len() > 0 {
            let text = string_of(t.as_slice());
            let key = chars_of(to_lowercase(text.as_str()).as_str());
            let present = list_has_key(&kept, &key);
            let ghost tt = trimmed_tags(tags@.subrange(0, i as int));
            assert(tt.push((t@, key@)).drop_last() =~= tt);
            assert(first_by_key(trimmed_tags(prefix)) == if present {
                old_kept
            } else {
                old_kept.push((t@, key@))
            });
            if !present {
                let ghost before = kept@;
                kept.push((text, key));
                proof {
                    assert(text_pairs(kept@) =~= text_pairs(before).push((t@, key@)));
                }
            }
        }
        i = i + 1;
    }
    proof {
        assert(tags@.subrange(0, tags@.len() as int) =~= tags@);
    }
    let ghost unsorted = kept@;
    sort_by_text_key(&mut kept);
    proof {
        lemma_text_pairs_sorted(kept@);
        lemma_text_pairs_sorted(unsorted);
        lemma_sort_texts(pairs_view(unsorted));
    }
    let mut r: Vec<String> = Vec::new();
    let mut k: usize = 0;
    while k < kept.len()
        invariant
            k <= kept@.len(),
            r@.len() == k,
            forall|m: int| 0 <= m < k ==> (#[trigger] r@[m])@ == kept@[m].0@,
        decreases kept@.len() - k,
    {
        r.push(kept[k].0.clone());
        k = k + 1;
    }
    proof {
        let sorted = text_pairs(kept@);
        assert(sorted == stable_sorted(first_by_key(trimmed_tags(tags@))));
        assert forall|m: int| 0 <= m < r@.len() implies (#[trigger] r@[m])@ == saved_tag_catalog(tags@)[m] by {
            assert(sorted[m].0 == kept@[m].0@);
        }
    }
    r
}

/// The tags read from the catalog file, each keyed by its trimmed lower-case
/// text, those with an empty key left out.
pub open spec fn keyed_loaded_tags(tags: Seq<String>) -> Seq<(Seq<char>, Seq<char>)>
    decreases tags.len(),
{
    if tags.len() == 0 {
        Seq::empty()
    } else {
        let rest = keyed_loaded_tags(tags.drop_last());
        let key = unicode_lowercase(trim(tags.last()@));
        if key.len() == 0 {
            rest
        } else {
            rest.push((tags.last()@, key))
        }
    }
}

/// Entries keyed again by their lower-case text.
pub open spec fn rekeyed(s: Seq<(Seq<char>, Seq<char>)>) -> Seq<(Seq<char>, Seq<char>)> {
    s.map_values(|p: (Seq<char>, Seq<char>)| (p.0, unicode_lowercase(p.0)))
}

/// The tag catalog as it is loaded: tags kept as written, except those blank
/// once trimmed and those whose trimmed lower-case text came earlier; sorted by
/// lower-case text.
pub open spec fn loaded_tag_catalog(tags: Seq<String>) -> Seq<Seq<char>> {
    texts(stable_sorted(rekeyed(first_by_key(keyed_loaded_tags(tags)))))
}

/// The tag catalog as it is loaded.
pub fn normalize_loaded_tags(tags: &[String]) -> (r: Vec<String>)
    ensures
        r@.len() == loaded_tag_catalog(tags@).len(),
        forall|k: int| 0 <= k < r@.len() ==> (#[trigger] r@[k])@ == loaded_tag_catalog(tags@)[k],
{
    let mut kept: Vec<(String, Vec<char>)> = Vec::new();
    let mut i: usize = 0;
    while i < tags.len()
        invariant
            i <= tags@.len(),
            text_pairs(kept@) == first_by_key(keyed_loaded_tags(tags@.subrange(0, i as int))),
        decreases tags@.len() - i,
    {
        proof {
            assert(tags@.subrange(0, i + 1).drop_last() =~= tags@.subrange(0, i as int));
            assert(tags@.subrange(0, i + 1).last() == tags@[i as int]);
        }
        let t = trim_chars(&chars_of(tags[i].as_str()));
        let key = chars_of(to_lowercase(string_of(t.as_slice()).as_str()).as_str());
        let ghost prefix = tags@.subrange(0, i + 1);
        let ghost old_kept = text_pairs(kept@);
        let ghost tt = keyed_loaded_tags(tags@.subrange(0, i as int));
        assert(keyed_loaded_tags(prefix) == if key@.len() == 0 {
            tt
        } else {
            tt.push((tags@[i as int]@, key@))
        });
        if key.len() > 0 {
            let present = list_has_key(&kept, &key);
            assert(tt.push((tags@[i as int]@, key@)).drop_last() =~= tt);
            assert(first_by_key(keyed_loaded_tags(prefix)) == if present {
                old_kept
            } else {
                old_kept.push((tags@[i as int]@, key@))
            });
            if !present {
                let ghost before = kept@;
                kept.push((tags[i].clone(), key));
                proof {
                    assert(text_pairs(kept@) =~= text_pairs(before).push((tags@[i as int]@, key@)));
                }
            }
        }
        i = i + 1;
    }
    proof {
        assert(tags@.subrange(0, tags@.len() as int) =~= tags@);
    }
    let ghost deduped = text_pairs(kept@);
    let mut sortable: Vec<(String, Vec<char>)> = Vec::new();
    let mut j: usize = 0;
    while j < kept.len()
        invariant
            j <= kept@.len(),
            deduped == text_pairs(kept@),
            text_pairs(sortable@) == rekeyed(deduped.subrange(0, j as int)),
        decreases kept@.len() - j,
    {
        let text = kept[j].0.clone();
        let key = chars_of(to_lowercase(text.as_str()).as_str());
        let ghost before = sortable@;
        assert(deduped[j as int].0 == text@);
        assert(deduped.subrange(0, j + 1) =~= deduped.subrange(0, j as int).push(deduped[j as int]));
        sortable.push((text, key));
        j = j + 1;
        proof {
            assert(text_pairs(sortable@) =~= text_pairs(before).push((deduped[j - 1].0, key@)));
            assert(rekeyed(deduped.subrange(0, j as int)) =~= rekeyed(deduped.subrange(0, j - 1)).push((deduped[j - 1].0, unicode_lowercase(deduped[j - 1].0))));
        }
    }
    proof {
        assert(deduped.subrange(0, kept@.len() as int) =~= deduped);
    }
    let ghost unsorted = sortable@;
    sort_by_text_key(&mut sortable);
    proof {
        lemma_text_pairs_sorted(sortable@);
        lemma_text_pairs_sorted(unsorted);
        lemma_sort_texts(pairs_view(unsorted));
    }
    let mut r: Vec<String> = Vec::new();
    let mut k: usize = 0;
    while k < sortable.len()
        invariant
            k <= sortable@.len(),
            r@.len() == k,
            forall|m: int| 0 <= m < k ==> (#[trigger] r@[m])@ == sortable@[m].0@,
        decreases sortable@.len() - k,
    {
        r.push(sortable[k].0.clone());
        k = k + 1;
    }
    proof {
        let sorted = text_pairs(sortable@);
        assert forall|m: int| 0 <= m < r@.len() implies (#[trigger] r@[m])@ == loaded_tag_catalog(tags@)[m] by {
            assert(sorted[m].0 == sortable@[m].0@);
        }
    }
    r
}


/// Some item of the list has the id.
pub open spec fn has_id<T>(s: Seq<(u64, T)>, id: u64) -> bool {
    exists|j: int| 0 <= j < s.len() && (#[trigger] s[j]).0 == id
}

/// The items whose id no earlier item has, in order.
pub open spec fn first_by_id<T>(s: Seq<(u64, T)>) -> Seq<(u64, T)>
    decreases s.len(),
{
    if s.len() == 0 {
        s
    } else {
        let kept = first_by_id(s.drop_last());
        if has_id(kept, s.last().0) {
            kept
        } else {
            kept.push(s.last())
        }
    }
}

fn ids_contain<T>(list: &Vec<(u64, T)>, id: u64) -> (r: bool)
    ensures
        r == has_id(list@, id),
{
    let mut j: usize = 0;
    while j < list.len()
        invariant
            j <= list@.len(),
            forall|k: int| 0 <= k < j ==> (#[trigger] list@[k]).0 != id,
        decreases list@.len() - j,
    {
        if list[j].0 == id {
            return true;
        }
        j = j + 1;
    }
    false
}

/// Keeps the first item of each id, in order: saved bookmarks are read and
/// written this way, each model or image paired with its id.
pub fn keep_first_by_id<T>(items: Vec<(u64, T)>) -> (r: Vec<(u64, T)>)
    ensures
        r@ == first_by_id(items@),
{
    let ghost orig = items@;
    assert(orig.len() == items.len());
    let mut rest = items;
    let mut kept: Vec<(u64, T)> = Vec::new();
    let mut i: usize = 0;
    assert(orig.subrange(0, 0) =~= Seq::<(u64, T)>::empty());
    assert(orig.subrange(0, orig.len() as int) =~= orig);
    while rest.len() > 0
        invariant
            i + rest@.len() == orig.len(),
            orig.len() <= usize::MAX,
            rest@ == orig.subrange(i as int, orig.len() as int),
            kept@ == first_by_id(orig.subrange(0, i as int)),
        decreases rest@.len(),
    {
        let item = rest.remove(0);
        proof {
            assert(orig.subrange(0, i + 1).drop_last() =~= orig.subrange(0, i as int));
            assert(orig.subrange(0, i + 1).last() == item);
            assert(rest@ =~= orig.subrange(i + 1, orig.len() as int));
        }
        if !ids_contain(&kept, item.0) {
            kept.push(item);
        }
        i = i + 1;
    }
    assert(orig.subrange(0, i as int) =~= orig);
    kept
}

/// After keeping the first item of each id, no id appears twice, and every id
/// of the input is still there.
pub proof fn law_first_by_id_keeps_each_id_once<T>(s: Seq<(u64, T)>)
    ensures
        forall|i: int, j: int| 0 <= i < j < first_by_id(s).len() ==> (#[trigger] first_by_id(s)[i]).0
            != (#[trigger] first_by_id(s)[j]).0,
        forall|k: int| 0 <= k < s.len() ==> has_id(first_by_id(s), (#[trigger] s[k]).0),
    decreases s.len(),
{
    if s.len() > 0 {
        law_first_by_id_keeps_each_id_once(s.drop_last());
        let kept = first_by_id(s.drop_last());
        assert forall|k: int| 0 <= k < s.len() implies has_id(first_by_id(s), (#[trigger] s[k]).0) by {
            if k < s.len() - 1 {
                assert(s[k] == s.drop_last()[k]);
                let j = choose|j: int| 0 <= j < kept.len() && (#[trigger] kept[j]).0 == s[k].0;
                if !has_id(kept, s.last().0) {
                    assert(first_by_id(s)[j] == kept[j]);
                }
            } else if !has_id(kept, s.last().0) {
                assert(first_by_id(s)[kept.len() as int] == s.last());
            }
        }
    }
}


proof fn lemma_trimmed_tags_keyed(tags: Seq<String>)
    ensures
        forall|k: int| 0 <= k < trimmed_tags(tags).len() ==> (#[trigger] trimmed_tags(tags)[k]).1
            == unicode_lowercase(trimmed_tags(tags)[k].0),
    decreases tags.len(),
{
    if tags.len() > 0 {
        lemma_trimmed_tags_keyed(tags.drop_last());
        let rest = trimmed_tags(tags.drop_last());
        let r = trimmed_tags(tags);
        assert forall|k: int| 0 <= k < r.len() implies (#[trigger] r[k]).1 == unicode_lowercase(r[k].0) by {
            if k < rest.len() {
                assert(r[k] == rest[k]);
            }
        }
    }
}

proof fn lemma_first_by_key_entries<T>(s: Seq<(T, Seq<char>)>)
    ensures
        forall|k: int| 0 <= k < first_by_key(s).len() ==> exists|m: int| 0 <= m < s.len() && #[trigger] first_by_key(s)[k] == s[m],
    decreases s.len(),
{
    if s.len() > 0 {
        lemma_first_by_key_entries(s.drop_last());
        let kept = first_by_key(s.drop_last());
        let r = first_by_key(s);
        assert forall|k: int| 0 <= k < r.len() implies exists|m: int| 0 <= m < s.len() && #[trigger] r[k] == s[m] by {
            if k < kept.len() {
                assert(r[k] == kept[k]);
                let m = choose|m: int| 0 <= m < s.drop_last().len() && kept[k] == s.drop_last()[m];
                assert(s.drop_last()[m] == s[m]);
            } else {
                assert(r[k] == s[s.len() - 1]);
            }
        }
    }
}

/// The tag catalog as saved is in ascending order of lower-case text.
pub proof fn law_saved_catalog_sorted(tags: Seq<String>)
    ensures
        forall|i: int, j: int| 0 <= i < j < saved_tag_catalog(tags).len() ==> !text_lt(
            unicode_lowercase(#[trigger] saved_tag_catalog(tags)[j]),
            unicode_lowercase(#[trigger] saved_tag_catalog(tags)[i]),
        ),
{
    let u = first_by_key(trimmed_tags(tags));
    let sorted = stable_sorted(u);
    law_stable_sorted_keys_ascend(u);
    lemma_stable_sorted_entries(u);
    lemma_first_by_key_entries(trimmed_tags(tags));
    lemma_trimmed_tags_keyed(tags);
    assert forall|k: int| 0 <= k < sorted.len() implies (#[trigger] sorted[k]).1 == unicode_lowercase(sorted[k].0) by {
        let m = choose|m: int| 0 <= m < u.len() && sorted[k] == u[m];
        let n = choose|n: int| 0 <= n < trimmed_tags(tags).len() && u[m] == trimmed_tags(tags)[n];
    }
    let cat = saved_tag_catalog(tags);
    assert forall|i: int, j: int| 0 <= i < j < cat.len() implies !text_lt(
        unicode_lowercase(#[trigger] cat[j]),
        unicode_lowercase(#[trigger] cat[i]),
    ) by {
        assert(cat[i] == sorted[i].0 && cat[j] == sorted[j].0);
        assert(!text_lt(sorted[j].1, sorted[i].1));
    }
}

} // verus!
