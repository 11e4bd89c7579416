use vstd::prelude::*;

use crate::catalog::{first_by_key, lemma_sort_texts, lemma_text_pairs_sorted, text_pairs, texts};
use crate::image::{image_tags, shown_tags, ImageHit};
use crate::sorting::{
    lemma_stable_sorted_entries, lemma_stable_sorted_multiset, lemma_text_lt_asym, lemma_text_lt_total,
    law_stable_sorted_keys_ascend, pairs_view, sort_by_text_key, stable_sorted, text_lt,
};
use crate::chars::{
    ascii_lower_chars, ascii_lower_seq, chars_of, is_blank, is_blank_chars, is_stripped,
    is_white_space_char, lemma_trim_end_at, strip_end, string_of, trim, trim_chars,
};
use crate::image::same_chars;
use crate::text::{contains_seq, find_char, lemma_first_occurrence_found, to_lowercase, unicode_lowercase};

verus! {

/// The pieces of a text between separators, as `str::split` gives them.
pub open spec fn split_on(s: Seq<char>, sep: char) -> Seq<Seq<char>>
    decreases s.len(),
{
    if s.len() == 0 {
        seq![seq![]]
    } else {
        let r = split_on(s.drop_last(), sep);
        if s.last() == sep {
            r.push(seq![])
        } else {
            r.update(r.len() - 1, r.last().push(s.last()))
        }
    }
}

/// The pieces of a text between commas, as `str::split(',')` gives them.
pub open spec fn comma_pieces(s: Seq<char>) -> Seq<Seq<char>> {
    split_on(s, ',')
}

pub(crate) proof fn lemma_split_on_len(s: Seq<char>, sep: char)
    ensures
        split_on(s, sep).len() >= 1,
    decreases s.len(),
{
    if s.len() > 0 {
        lemma_split_on_len(s.drop_last(), sep);
    }
}

/// The tag being typed: the last piece of the query, trimmed, in lower case.
pub open spec fn typed_prefix(query: Seq<char>) -> Seq<char> {
    unicode_lowercase(trim(comma_pieces(query).last()))
}

/// The tags already in the query: its pieces trimmed, the empty ones left out.
pub open spec fn query_tags(pieces: Seq<Seq<char>>) -> Seq<Seq<char>>
    decreases pieces.len(),
{
    if pieces.len() == 0 {
        seq![]
    } else {
        let r = query_tags(pieces.drop_last());
        let t = trim(pieces.last());
        if t.len() > 0 {
            r.push(t)
        } else {
            r
        }
    }
}

/// A tag, in lower case, is already in the query.
pub open spec fn is_chosen(query: Seq<char>, key: Seq<char>) -> bool {
    let tags = query_tags(comma_pieces(query));
    exists|i: int| 0 <= i < tags.len() && unicode_lowercase(#[trigger] tags[i]) == key
}

/// `p` starts `s`.
pub open spec fn starts_with(s: Seq<char>, p: Seq<char>) -> bool {
    p.len() <= s.len() && s.subrange(0, p.len() as int) == p
}

/// The catalog tags offered first: in catalog order, those not in the query
/// whose lower case starts with the tag being typed (all, while nothing is
/// typed), at most `limit`.
pub open spec fn prefix_matches(catalog: Seq<String>, query: Seq<char>, limit: nat) -> Seq<Seq<char>>
    decreases catalog.len(),
{
    if catalog.len() == 0 {
        seq![]
    } else {
        let r = prefix_matches(catalog.drop_last(), query, limit);
        let t = catalog.last()@;
        let k = unicode_lowercase(t);
        let p = typed_prefix(query);
        if r.len() < limit && !is_chosen(query, k) && (p.len() == 0 || starts_with(k, p)) {
            r.push(t)
        } else {
            r
        }
    }
}

/// Two names are the same ignoring ASCII case.
pub open spec fn same_ignoring_case(a: Seq<char>, b: Seq<char>) -> bool {
    ascii_lower_seq(a) == ascii_lower_seq(b)
}

/// The offers after adding, in catalog order and up to `limit`, the tags not
/// in the query whose lower case contains the tag being typed, skipping those
/// already offered (ignoring ASCII case).
pub open spec fn infix_matches(offered: Seq<Seq<char>>, catalog: Seq<String>, query: Seq<char>, limit: nat) -> Seq<Seq<char>>
    decreases catalog.len(),
{
    if catalog.len() == 0 {
        offered
    } else {
        let r = infix_matches(offered, catalog.drop_last(), query, limit);
        let t = catalog.last()@;
        let k = unicode_lowercase(t);
        if r.len() < limit && !is_chosen(query, k) && contains_seq(k, typed_prefix(query)) && !(exists|j: int|
            0 <= j < r.len() && same_ignoring_case(#[trigger] r[j], t)) {
            r.push(t)
        } else {
            r
        }
    }
}

/// The tags offered for the tag being typed: those starting with it, then,
/// when there is room and something is typed, those containing it.
pub open spec fn tag_suggestions(catalog: Seq<String>, query: Seq<char>, limit: nat) -> Seq<Seq<char>> {
    if limit == 0 {
        seq![]
    } else {
        let first = prefix_matches(catalog, query, limit);
        if first.len() >= limit || typed_prefix(query).len() == 0 {
            first
        } else {
            infix_matches(first, catalog, query, limit)
        }
    }
}

pub(crate) fn split_on_char(s: &Vec<char>, sep: char) -> (r: Vec<Vec<char>>)
    ensures
        r@.map_values(|v: Vec<char>| v@) == split_on(s@, sep),
{
    let mut r: Vec<Vec<char>> = Vec::new();
    r.push(Vec::new());
    let mut i: usize = 0;
    assert(r@.map_values(|v: Vec<char>| v@) =~= split_on(s@.subrange(0, 0), sep));
    while i < s.len()
        invariant
            i <= s@.len(),
            r@.len() >= 1,
            r@.map_values(|v: Vec<char>| v@) == split_on(s@.subrange(0, i as int), sep),
        decreases s@.len() - i,
    {
        let ghost before = r@.map_values(|v: Vec<char>| v@);
        proof {
            assert(s@.subrange(0, i + 1).drop_last() =~= s@.subrange(0, i as int));
            assert(s@.subrange(0, i + 1).last() == s@[i as int]);
        }
        if s[i] == sep {
            r.push(Vec::new());
            assert(r@.map_values(|v: Vec<char>| v@) =~= before.push(seq![]));
        } else {
            let mut piece = r.pop().unwrap();
            piece.push(s[i]);
            r.push(piece);
            assert(r@.map_values(|v: Vec<char>| v@) =~= before.update(
                before.len() - 1,
                before.last().push(s@[i as int]),
            ));
        }
        i = i + 1;
    }
    assert(s@.subrange(0, s@.len() as int) =~= s@);
    r
}

pub(crate) fn trimmed_tags(pieces: &Vec<Vec<char>>) -> (r: Vec<Vec<char>>)
    ensures
        r@.map_values(|v: Vec<char>| v@) == query_tags(pieces@.map_values(|v: Vec<char>| v@)),
{
    let ghost ps = pieces@.map_values(|v: Vec<char>| v@);
    let mut r: Vec<Vec<char>> = Vec::new();
    let mut i: usize = 0;
    while i < pieces.len()
        invariant
            i <= pieces@.len(),
            ps == pieces@.map_values(|v: Vec<char>| v@),
            r@.map_values(|v: Vec<char>| v@) == query_tags(ps.subrange(0, i as int)),
        decreases pieces@.len() - i,
    {
        proof {
            assert(ps.subrange(0, i + 1).drop_last() =~= ps.subrange(0, i as int));
            assert(ps.subrange(0, i + 1).last() == pieces@[i as int]@);
        }
        let ghost before = r@.map_values(|v: Vec<char>| v@);
        let t = trim_chars(&pieces[i]);
        if t.len() > 0 {
            r.push(t);
            assert(r@.map_values(|v: Vec<char>| v@) =~= before.push(r@.last()@));
        }
        i = i + 1;
    }
    assert(ps.subrange(0, pieces@.len() as int) =~= ps);
    r
}

fn lower(s: &Vec<char>) -> (r: Vec<char>)
    ensures
        r@ == unicode_lowercase(s@),
{
    let text = string_of(s.as_slice());
    chars_of(to_lowercase(text.as_str()).as_str())
}

fn lowered_all(tags: &Vec<Vec<char>>) -> (r: Vec<Vec<char>>)
    ensures
        r@.len() == tags@.len(),
        forall|i: int| 0 <= i < r@.len() ==> (#[trigger] r@[i])@ == unicode_lowercase(tags@[i]@),
{
    let mut r: Vec<Vec<char>> = Vec::new();
    let mut i: usize = 0;
    while i < tags.len()
        invariant
            i <= tags@.len(),
            r@.len() == i,
            forall|j: int| 0 <= j < i ==> (#[trigger] r@[j])@ == unicode_lowercase(tags@[j]@),
        decreases tags@.len() - i,
    {
        r.push(lower(&tags[i]));
        i = i + 1;
    }
    r
}

fn any_same(keys: &Vec<Vec<char>>, key: &Vec<char>) -> (r: bool)
    ensures
        r == exists|i: int| 0 <= i < keys@.len() && (#[trigger] keys@[i])@ == key@,
{
    let mut i: usize = 0;
    while i < keys.len()
        invariant
            i <= keys@.len(),
            forall|j: int| 0 <= j < i ==> (#[trigger] keys@[j])@ != key@,
        decreases keys@.len() - i,
    {
        if same_chars(&keys[i], key) {
            return true;
        }
        i = i + 1;
    }
    false
}

fn starts_with_chars(s: &Vec<char>, p: &Vec<char>) -> (r: bool)
    ensures
        r == starts_with(s@, p@),
{
    if p.len() > s.len() {
        return false;
    }
    let mut i: usize = 0;
    while i < p.len()
        invariant
            p@.len() <= s@.len(),
            i <= p@.len(),
            forall|k: int| 0 <= k < i ==> s@[k] == p@[k],
        decreases p@.len() - i,
    {
        if s[i] != p[i] {
            assert(s@.subrange(0, p@.len() as int)[i as int] != p@[i as int]);
            return false;
        }
        i = i + 1;
    }
    assert(s@.subrange(0, p@.len() as int) =~= p@);
    true
}

fn offered_already(offers: &Vec<String>, tag: &str) -> (r: bool)
    ensures
        r == exists|j: int| 0 <= j < offers@.len() && same_ignoring_case(#[trigger] offers@[j]@, tag@),
{
    let key = ascii_lower_chars(&chars_of(tag));
    let mut j: usize = 0;
    while j < offers.len()
        invariant
            j <= offers@.len(),
            key@ == ascii_lower_seq(tag@),
            forall|k: int| 0 <= k < j ==> !same_ignoring_case(#[trigger] offers@[k]@, tag@),
        decreases offers@.len() - j,
    {
        let other = ascii_lower_chars(&chars_of(offers[j].as_str()));
        if same_chars(&other, &key) {
            return true;
        }
        j = j + 1;
    }
    false
}

/// The tags to offer while a tag is typed in a comma-separated query.
pub fn image_tag_suggestions(catalog: &[String], tag_query: &str, limit: usize) -> (r: Vec<String>)
    ensures
        r@.map_values(|s: String| s@) == tag_suggestions(catalog@, tag_query@, limit as nat),
{
    if limit == 0 {
        let r: Vec<String> = Vec::new();
        assert(r@.map_values(|s: String| s@) =~= seq![]);
        return r;
    }
    let q = chars_of(tag_query);
    let pieces = split_on_char(&q, ',');
    proof {
        lemma_split_on_len(q@, ',');
    }
    let last = trim_chars(&pieces[pieces.len() - 1]);
    let prefix = lower(&last);
    let tags = trimmed_tags(&pieces);
    let chosen = lowered_all(&tags);
    let ghost query = tag_query@;
    assert(prefix@ == typed_prefix(query));
    let mut r: Vec<String> = Vec::new();
    let mut i: usize = 0;
    while i < catalog.len()
        invariant
            i <= catalog@.len(),
            prefix@ == typed_prefix(query),
            chosen@.len() == query_tags(comma_pieces(query)).len(),
            forall|j: int| 0 <= j < chosen@.len() ==> (#[trigger] chosen@[j])@ == unicode_lowercase(query_tags(comma_pieces(query))[j]),
            r@.map_values(|s: String| s@) == prefix_matches(catalog@.subrange(0, i as int), query, limit as nat),
        decreases catalog@.len() - i,
    {
        proof {
            assert(catalog@.subrange(0, i + 1).drop_last() =~= catalog@.subrange(0, i as int));
            assert(catalog@.subrange(0, i + 1).last() == catalog@[i as int]);
        }
        let ghost before = r@.map_values(|s: String| s@);
        let key = lower(&chars_of(catalog[i].as_str()));
        let picked = any_same(&chosen, &key);
        proof {
            let tags_v = query_tags(comma_pieces(query));
            if picked {
                let j = choose|j: int| 0 <= j < chosen@.len() && (#[trigger] chosen@[j])@ == key@;
                assert(unicode_lowercase(tags_v[j]) == key@);
            } else {
                assert forall|j: int| 0 <= j < tags_v.len() implies unicode_lowercase(#[trigger] tags_v[j]) != key@ by {
                    assert(chosen@[j]@ == unicode_lowercase(tags_v[j]));
                }
            }
        }
        if r.len() < limit && !picked && (prefix.len() == 0 || starts_with_chars(&key, &prefix)) {
            r.push(catalog[i].clone());
            assert(r@.map_values(|s: String| s@) =~= before.push(catalog@[i as int]@));
        }
        i = i + 1;
    }
    assert(catalog@.subrange(0, catalog@.len() as int) =~= catalog@);
    if r.len() >= limit || prefix.len() == 0 {
        return r;
    }
    let ghost first = r@.map_values(|s: String| s@);
    let mut i: usize = 0;
    while i < catalog.len()
        invariant
            i <= catalog@.len(),
            prefix@ == typed_prefix(query),
            chosen@.len() == query_tags(comma_pieces(query)).len(),
            forall|j: int| 0 <= j < chosen@.len() ==> (#[trigger] chosen@[j])@ == unicode_lowercase(query_tags(comma_pieces(query))[j]),
            r@.map_values(|s: String| s@) == infix_matches(first, catalog@.subrange(0, i as int), query, limit as nat),
        decreases catalog@.len() - i,
    {
        proof {
            assert(catalog@.subrange(0, i + 1).drop_last() =~= catalog@.subrange(0, i as int));
            assert(catalog@.subrange(0, i + 1).last() == catalog@[i as int]);
        }
        let ghost before = r@.map_values(|s: String| s@);
        let key = lower(&chars_of(catalog[i].as_str()));
        let picked = any_same(&chosen, &key);
        proof {
            let tags_v = query_tags(comma_pieces(query));
            if picked {
                let j = choose|j: int| 0 <= j < chosen@.len() && (#[trigger] chosen@[j])@ == key@;
                assert(unicode_lowercase(tags_v[j]) == key@);
            } else {
                assert forall|j: int| 0 <= j < tags_v.len() implies unicode_lowercase(#[trigger] tags_v[j]) != key@ by {
                    assert(chosen@[j]@ == unicode_lowercase(tags_v[j]));
                }
            }
        }
        let found = find_char(key.as_slice(), prefix.as_slice());
        proof {
            lemma_first_occurrence_found(key@, prefix@);
        }
        let seen = offered_already(&r, catalog[i].as_str());
        proof {
            if seen {
                let j = choose|j: int| 0 <= j < r@.len() && same_ignoring_case(#[trigger] r@[j]@, catalog@[i as int]@);
                assert(before[j] == r@[j]@);
            } else {
                assert forall|j: int| 0 <= j < before.len() implies !same_ignoring_case(#[trigger] before[j], catalog@[i as int]@) by {
                    assert(before[j] == r@[j]@);
                }
            }
        }
        if r.len() < limit && !picked && found.is_some() && !seen {
            r.push(catalog[i].clone());
            assert(r@.map_values(|s: String| s@) =~= before.push(catalog@[i as int]@));
        }
        i = i + 1;
    }
    r
}


/// The query ends with a comma, trailing white space aside.
pub open spec fn ends_with_comma(query: Seq<char>) -> bool {
    let t = strip_end(query, false);
    t.len() > 0 && t.last() == ','
}

/// Tags each keyed by their lower case.
pub open spec fn keyed_lower(tags: Seq<Seq<char>>) -> Seq<(Seq<char>, Seq<char>)> {
    tags.map_values(|t: Seq<char>| (t, unicode_lowercase(t)))
}

/// Texts joined with a separator.
pub open spec fn joined(parts: Seq<Seq<char>>, sep: Seq<char>) -> Seq<char>
    decreases parts.len(),
{
    if parts.len() == 0 {
        seq![]
    } else if parts.len() == 1 {
        parts[0]
    } else {
        joined(parts.drop_last(), sep) + sep + parts.last()
    }
}

/// The query once the first offer is taken: the offer is added after a
/// trailing comma or to an empty query, else it replaces the tag being typed;
/// a tag whose lower case came earlier is dropped; the tags are joined with
/// `, `. None when nothing is offered.
pub open spec fn accepted_query(catalog: Seq<String>, query: Seq<char>) -> Option<Seq<char>> {
    let offers = tag_suggestions(catalog, query, 1);
    if offers.len() == 0 {
        None
    } else {
        let tags = query_tags(comma_pieces(query));
        let with = if is_blank(query) || ends_with_comma(query) || tags.len() == 0 {
            tags.push(offers[0])
        } else {
            tags.update(tags.len() - 1, offers[0])
        };
        Some(joined(texts(first_by_key(keyed_lower(with))), ", "@))
    }
}

fn ends_with_comma_chars(q: &Vec<char>) -> (r: bool)
    ensures
        r == ends_with_comma(q@),
{
    let mut j: usize = q.len();
    while j > 0 && is_white_space_char(q[j - 1])
        invariant
            j <= q@.len(),
            forall|k: int| j <= k < q@.len() ==> is_stripped(#[trigger] q@[k], false),
        decreases j,
    {
        j = j - 1;
    }
    proof {
        lemma_trim_end_at(q@, j as int, false);
    }
    j > 0 && q[j - 1] == ','
}

fn join_with_comma(parts: &Vec<Vec<char>>) -> (r: Vec<char>)
    ensures
        r@ == joined(parts@.map_values(|v: Vec<char>| v@), ", "@),
{
    let ghost ps = parts@.map_values(|v: Vec<char>| v@);
    let mut r: Vec<char> = Vec::new();
    let mut i: usize = 0;
    proof {
        reveal_strlit(", ");
    }
    while i < parts.len()
        invariant
            i <= parts@.len(),
            ps == parts@.map_values(|v: Vec<char>| v@),
            r@ == joined(ps.subrange(0, i as int), ", "@),
        decreases parts@.len() - i,
    {
        proof {
            assert(ps.subrange(0, i + 1).drop_last() =~= ps.subrange(0, i as int));
            assert(ps.subrange(0, i + 1).last() == parts@[i as int]@);
        }
        let ghost prev = r@;
        proof {
            reveal_strlit(", ");
        }
        if i > 0 {
            r.push(',');
            r.push(' ');
            assert(r@ =~= prev + ", "@);
        }
        let ghost mid = r@;
        let mut k: usize = 0;
        while k < parts[i].len()
            invariant
                k <= parts@[i as int]@.len(),
                i < parts@.len(),
                r@ == mid + parts@[i as int]@.subrange(0, k as int),
            decreases parts@[i as int]@.len() - k,
        {
            r.push(parts[i][k]);
            k = k + 1;
            assert(r@ =~= mid + parts@[i as int]@.subrange(0, k as int));
        }
        assert(parts@[i as int]@.subrange(0, parts@[i as int]@.len() as int) =~= parts@[i as int]@);
        proof {
            if i == 0 {
                assert(mid =~= seq![]);
                assert(r@ =~= ps.subrange(0, 1)[0]);
            } else {
                assert(mid =~= joined(ps.subrange(0, i as int), ", "@) + ", "@);
            }
        }
        i = i + 1;
    }
    assert(ps.subrange(0, parts@.len() as int) =~= ps);
    r
}

/// Puts the first offer into the tag query (see `accepted_query`); false,
/// with the query unchanged, when nothing is offered.
pub fn accept_image_tag_suggestion(tag_query: &mut String, catalog: &[String]) -> (accepted: bool)
    ensures
        match accepted_query(catalog@, old(tag_query)@) {
            Some(q) => accepted && final(tag_query)@ == q,
            None => !accepted && final(tag_query)@ == old(tag_query)@,
        },
{
    let offers = image_tag_suggestions(catalog, tag_query.as_str(), 1);
    if offers.len() == 0 {
        return false;
    }
    assert(offers@.map_values(|s: String| s@)[0] == offers@[0]@);
    let q = chars_of(tag_query.as_str());
    let pieces = split_on_char(&q, ',');
    let mut tags = trimmed_tags(&pieces);
    let offer = chars_of(offers[0].as_str());
    let ghost tv = tags@.map_values(|v: Vec<char>| v@);
    if is_blank_chars(&q) || ends_with_comma_chars(&q) || tags.len() == 0 {
        tags.push(offer);
        assert(tags@.map_values(|v: Vec<char>| v@) =~= tv.push(offers@[0]@));
    } else {
        let n = tags.len() - 1;
        tags.set(n, offer);
        assert(tags@.map_values(|v: Vec<char>| v@) =~= tv.update(tv.len() - 1, offers@[0]@));
    }
    let ghost with = tags@.map_values(|v: Vec<char>| v@);
    let mut kept: Vec<(Vec<char>, Vec<char>)> = Vec::new();
    let mut i: usize = 0;
    while i < tags.len()
        invariant
            i <= tags@.len(),
            with == tags@.map_values(|v: Vec<char>| v@),
            kept@.map_values(|p: (Vec<char>, Vec<char>)| (p.0@, p.1@)) == first_by_key(keyed_lower(with.subrange(0, i as int))),
        decreases tags@.len() - i,
    {
        let ghost before = kept@.map_values(|p: (Vec<char>, Vec<char>)| (p.0@, p.1@));
        proof {
            assert(keyed_lower(with.subrange(0, i + 1)).drop_last() =~= keyed_lower(with.subrange(0, i as int)));
            assert(keyed_lower(with.subrange(0, i + 1)).last() == (with[i as int], unicode_lowercase(with[i as int])));
        }
        let key = lower(&tags[i]);
        let mut present = false;
        let mut j: usize = 0;
        while j < kept.len()
            invariant
                j <= kept@.len(),
                before == kept@.map_values(|p: (Vec<char>, Vec<char>)| (p.0@, p.1@)),
                present == exists|m: int| 0 <= m < j && (#[trigger] kept@[m]).1@ == key@,
            decreases kept@.len() - j,
        {
            if same_chars(&kept[j].1, &key) {
                present = true;
            }
            j = j + 1;
        }
        proof {
            if present {
                let m = choose|m: int| 0 <= m < kept@.len() && (#[trigger] kept@[m]).1@ == key@;
                assert(before[m].1 == key@);
            } else {
                assert forall|m: int| 0 <= m < before.len() implies (#[trigger] before[m]).1 != key@ by {
                    assert(before[m].1 == kept@[m].1@);
                }
            }
        }
        if !present {
            let t = tags[i].clone();
            kept.push((t, key));
            assert(kept@.map_values(|p: (Vec<char>, Vec<char>)| (p.0@, p.1@)) =~= before.push((with[i as int], unicode_lowercase(with[i as int]))));
        }
        i = i + 1;
    }
    assert(with.subrange(0, tags@.len() as int) =~= with);
    let mut parts: Vec<Vec<char>> = Vec::new();
    let mut k: usize = 0;
    let ghost kv = kept@.map_values(|p: (Vec<char>, Vec<char>)| (p.0@, p.1@));
    while k < kept.len()
        invariant
            k <= kept@.len(),
            kv == kept@.map_values(|p: (Vec<char>, Vec<char>)| (p.0@, p.1@)),
            parts@.map_values(|v: Vec<char>| v@) == texts(kv).subrange(0, k as int),
        decreases kept@.len() - k,
    {
        let ghost before = parts@.map_values(|v: Vec<char>| v@);
        parts.push(kept[k].0.clone());
        assert(parts@.map_values(|v: Vec<char>| v@) =~= before.push(kv[k as int].0));
        k = k + 1;
        assert(texts(kv).subrange(0, k as int) =~= texts(kv).subrange(0, k - 1).push(kv[k - 1].0));
    }
    assert(texts(kv).subrange(0, kept@.len() as int) =~= texts(kv));
    let joined_text = join_with_comma(&parts);
    *tag_query = string_of(joined_text.as_slice());
    true
}


/// The trimmed tags of a run of images, image after image.
pub open spec fn hit_tags(hits: Seq<ImageHit>) -> Seq<Seq<char>>
    decreases hits.len(),
{
    if hits.len() == 0 {
        seq![]
    } else {
        hit_tags(hits.drop_last()) + shown_tags(hits.last().tag_names@).map_values(|t: Seq<char>| trim(t))
    }
}

/// A tag list grown, in order, by each tag whose lower case it does not hold
/// yet.
pub open spec fn grown(list: Seq<Seq<char>>, new_tags: Seq<Seq<char>>) -> Seq<Seq<char>>
    decreases new_tags.len(),
{
    if new_tags.len() == 0 {
        list
    } else {
        let l = grown(list, new_tags.drop_last());
        let t = new_tags.last();
        if exists|i: int| 0 <= i < l.len() && unicode_lowercase(#[trigger] l[i]) == unicode_lowercase(t) {
            l
        } else {
            l.push(t)
        }
    }
}

/// The tag catalog after the tags of some images are merged in: unchanged
/// when they bring no new tag (in lower case); else grown by the new ones and
/// sorted by lower case.
pub open spec fn merged_catalog(catalog: Seq<String>, hits: Seq<ImageHit>) -> Seq<Seq<char>> {
    let base = catalog.map_values(|s: String| s@);
    let g = grown(base, hit_tags(hits));
    if g.len() == base.len() {
        base
    } else {
        texts(stable_sorted(keyed_lower(g)))
    }
}

fn collect_hit_tags(hits: &[ImageHit]) -> (r: Vec<Vec<char>>)
    ensures
        r@.map_values(|v: Vec<char>| v@) == hit_tags(hits@),
{
    let mut r: Vec<Vec<char>> = Vec::new();
    let mut i: usize = 0;
    while i < hits.len()
        invariant
            i <= hits@.len(),
            r@.map_values(|v: Vec<char>| v@) == hit_tags(hits@.subrange(0, i as int)),
        decreases hits@.len() - i,
    {
        proof {
            assert(hits@.subrange(0, i + 1).drop_last() =~= hits@.subrange(0, i as int));
            assert(hits@.subrange(0, i + 1).last() == hits@[i as int]);
        }
        let tags = image_tags(&hits[i]);
        let ghost start = r@.map_values(|v: Vec<char>| v@);
        let ghost shown = shown_tags(hits@[i as int].tag_names@);
        let mut k: usize = 0;
        while k < tags.len()
            invariant
                k <= tags@.len(),
                tags@.map_values(|s: String| s@) == shown,
                r@.map_values(|v: Vec<char>| v@) == start + shown.map_values(|t: Seq<char>| trim(t)).subrange(0, k as int),
            decreases tags@.len() - k,
        {
            let ghost before = r@.map_values(|v: Vec<char>| v@);
            let ghost m = shown.map_values(|t: Seq<char>| trim(t));
            assert(shown[k as int] == tags@.map_values(|s: String| s@)[k as int]);
            let t = trim_chars(&chars_of(tags[k].as_str()));
            assert(t@ == m[k as int]);
            r.push(t);
            assert(r@.map_values(|v: Vec<char>| v@) =~= before.push(m[k as int]));
            assert(m.subrange(0, k + 1) =~= m.subrange(0, k as int).push(m[k as int]));
            k = k + 1;
            assert(r@.map_values(|v: Vec<char>| v@) =~= start + m.subrange(0, k as int));
        }
        assert(shown.map_values(|t: Seq<char>| trim(t)).subrange(0, tags@.len() as int) =~= shown.map_values(|t: Seq<char>| trim(t)));
        i = i + 1;
    }
    assert(hits@.subrange(0, hits@.len() as int) =~= hits@);
    r
}

/// Merges the tags of some images into the tag catalog (see
/// `merged_catalog`); says whether it changed, for the caller to save it.
pub fn merge_image_tag_catalog_from_hits(catalog: &mut Vec<String>, hits: &[ImageHit]) -> (changed: bool)
    ensures
        final(catalog)@.map_values(|s: String| s@) == merged_catalog(old(catalog)@, hits@),
        changed == (grown(old(catalog)@.map_values(|s: String| s@), hit_tags(hits@)).len() != old(catalog)@.len()),
{
    let ghost base = catalog@.map_values(|s: String| s@);
    let new_tags = collect_hit_tags(hits);
    let ghost nt = new_tags@.map_values(|v: Vec<char>| v@);
    let mut list: Vec<(String, Vec<char>)> = Vec::new();
    let mut i: usize = 0;
    while i < catalog.len()
        invariant
            i <= catalog@.len(),
            base == catalog@.map_values(|s: String| s@),
            text_pairs(list@) == keyed_lower(base.subrange(0, i as int)),
        decreases catalog@.len() - i,
    {
        let ghost before = text_pairs(list@);
        let key = lower(&chars_of(catalog[i].as_str()));
        assert(base[i as int] == catalog@[i as int]@);
        list.push((catalog[i].clone(), key));
        assert(text_pairs(list@) =~= before.push((base[i as int], unicode_lowercase(base[i as int]))));
        assert(base.subrange(0, i + 1) =~= base.subrange(0, i as int).push(base[i as int]));
        i = i + 1;
        assert(text_pairs(list@) =~= keyed_lower(base.subrange(0, i as int)));
    }
    assert(base.subrange(0, catalog@.len() as int) =~= base);
    let mut j: usize = 0;
    assert(nt.subrange(0, 0) =~= Seq::<Seq<char>>::empty());
    while j < new_tags.len()
        invariant
            j <= new_tags@.len(),
            nt == new_tags@.map_values(|v: Vec<char>| v@),
            text_pairs(list@) == keyed_lower(grown(base, nt.subrange(0, j as int))),
        decreases new_tags@.len() - j,
    {
        proof {
            assert(nt.subrange(0, j + 1).drop_last() =~= nt.subrange(0, j as int));
            assert(nt.subrange(0, j + 1).last() == new_tags@[j as int]@);
        }
        let ghost l = grown(base, nt.subrange(0, j as int));
        let ghost before = text_pairs(list@);
        assert(before == keyed_lower(l));
        assert(keyed_lower(l).len() == l.len());
        let key = lower(&new_tags[j]);
        let mut present = false;
        let mut m: usize = 0;
        while m < list.len()
            invariant
                m <= list@.len(),
                before == text_pairs(list@),
                present == exists|x: int| 0 <= x < m && (#[trigger] list@[x]).1@ == key@,
            decreases list@.len() - m,
        {
            if same_chars(&list[m].1, &key) {
                present = true;
            }
            m = m + 1;
        }
        proof {
            if present {
                let x = choose|x: int| 0 <= x < list@.len() && (#[trigger] list@[x]).1@ == key@;
                assert(before[x] == (l[x], unicode_lowercase(l[x])));
                assert(unicode_lowercase(l[x]) == unicode_lowercase(nt[j as int]));
            } else {
                assert forall|x: int| 0 <= x < l.len() implies unicode_lowercase(#[trigger] l[x]) != unicode_lowercase(nt[j as int]) by {
                    assert(before[x] == (l[x], unicode_lowercase(l[x])));
                    assert(before[x].1 == list@[x].1@);
                }
            }
        }
        if !present {
            let text = string_of(new_tags[j].as_slice());
            assert(text@ == nt[j as int]);
            list.push((text, key));
            assert(text_pairs(list@) =~= before.push((nt[j as int], unicode_lowercase(nt[j as int]))));
            assert(keyed_lower(l.push(nt[j as int])) =~= keyed_lower(l).push((nt[j as int], unicode_lowercase(nt[j as int]))));
        }
        j = j + 1;
    }
    assert(nt.subrange(0, new_tags@.len() as int) =~= nt);
    let ghost g = grown(base, nt);
    assert(keyed_lower(g).len() == g.len());
    if list.len() == catalog.len() {
        return false;
    }
    let ghost unsorted = list@;
    sort_by_text_key(&mut list);
    proof {
        lemma_text_pairs_sorted(list@);
        lemma_text_pairs_sorted(unsorted);
        lemma_sort_texts(pairs_view(unsorted));
    }
    let mut out: Vec<String> = Vec::new();
    let mut k: usize = 0;
    let ghost sorted = text_pairs(list@);
    while k < list.len()
        invariant
            k <= list@.len(),
            sorted == text_pairs(list@),
            out@.map_values(|s: String| s@) == texts(sorted).subrange(0, k as int),
        decreases list@.len() - k,
    {
        let ghost before = out@.map_values(|s: String| s@);
        assert(sorted[k as int].0 == list@[k as int].0@);
        out.push(list[k].0.clone());
        assert(out@.map_values(|s: String| s@) =~= before.push(texts(sorted)[k as int]));
        assert(texts(sorted).subrange(0, k + 1) =~= texts(sorted).subrange(0, k as int).push(texts(sorted)[k as int]));
        k = k + 1;
        assert(out@.map_values(|s: String| s@) =~= texts(sorted).subrange(0, k as int));
    }
    assert(texts(sorted).subrange(0, list@.len() as int) =~= texts(sorted));
    *catalog = out;
    true
}


proof fn lemma_prefix_matches(catalog: Seq<String>, query: Seq<char>, limit: nat)
    ensures
        prefix_matches(catalog, query, limit).len() <= limit,
        forall|i: int| 0 <= i < prefix_matches(catalog, query, limit).len() ==> !is_chosen(
            query,
            unicode_lowercase(#[trigger] prefix_matches(catalog, query, limit)[i]),
        ),
    decreases catalog.len(),
{
    if catalog.len() > 0 {
        lemma_prefix_matches(catalog.drop_last(), query, limit);
    }
}

proof fn lemma_infix_matches(offered: Seq<Seq<char>>, catalog: Seq<String>, query: Seq<char>, limit: nat)
    requires
        offered.len() <= limit,
        forall|i: int| 0 <= i < offered.len() ==> !is_chosen(query, unicode_lowercase(#[trigger] offered[i])),
    ensures
        infix_matches(offered, catalog, query, limit).len() <= limit,
        forall|i: int| 0 <= i < infix_matches(offered, catalog, query, limit).len() ==> !is_chosen(
            query,
            unicode_lowercase(#[trigger] infix_matches(offered, catalog, query, limit)[i]),
        ),
    decreases catalog.len(),
{
    if catalog.len() > 0 {
        lemma_infix_matches(offered, catalog.drop_last(), query, limit);
    }
}

/// No more tags are offered than asked for, and none already in the query.
pub proof fn law_suggestions_bounded_and_new(catalog: Seq<String>, query: Seq<char>, limit: nat)
    ensures
        tag_suggestions(catalog, query, limit).len() <= limit,
        forall|i: int| 0 <= i < tag_suggestions(catalog, query, limit).len() ==> !is_chosen(
            query,
            unicode_lowercase(#[trigger] tag_suggestions(catalog, query, limit)[i]),
        ),
{
    lemma_prefix_matches(catalog, query, limit);
    lemma_infix_matches(prefix_matches(catalog, query, limit), catalog, query, limit);
}

/// Growing a tag list keeps what it held, in order, at its front.
pub proof fn law_grown_keeps_list(list: Seq<Seq<char>>, new_tags: Seq<Seq<char>>)
    ensures
        grown(list, new_tags).len() >= list.len(),
        grown(list, new_tags).subrange(0, list.len() as int) == list,
    decreases new_tags.len(),
{
    if new_tags.len() > 0 {
        law_grown_keeps_list(list, new_tags.drop_last());
        let l = grown(list, new_tags.drop_last());
        assert(l.push(new_tags.last()).subrange(0, list.len() as int) =~= l.subrange(0, list.len() as int));
    }
}

/// Tags in strictly ascending order of their lower case: sorted by it, and no
/// two with the same lower case.
pub open spec fn sorted_unique_by_lower(tags: Seq<Seq<char>>) -> bool {
    forall|i: int, j: int|
        0 <= i < j < tags.len() ==> text_lt(unicode_lowercase(#[trigger] tags[i]), unicode_lowercase(#[trigger] tags[j]))
}

/// No two tags with the same lower case.
pub open spec fn lower_distinct(tags: Seq<Seq<char>>) -> bool {
    forall|i: int, j: int|
        0 <= i < j < tags.len() ==> unicode_lowercase(#[trigger] tags[i]) != unicode_lowercase(#[trigger] tags[j])
}

/// Some tag of the list has the lower case of `t`.
pub open spec fn has_lower(tags: Seq<Seq<char>>, t: Seq<char>) -> bool {
    exists|i: int| 0 <= i < tags.len() && unicode_lowercase(#[trigger] tags[i]) == unicode_lowercase(t)
}

proof fn lemma_grown_facts(list: Seq<Seq<char>>, nt: Seq<Seq<char>>)
    requires
        lower_distinct(list),
    ensures
        lower_distinct(grown(list, nt)),
        forall|i: int| 0 <= i < grown(list, nt).len() ==> list.contains(#[trigger] grown(list, nt)[i]) || nt.contains(
            grown(list, nt)[i],
        ),
        forall|k: int| 0 <= k < nt.len() ==> has_lower(grown(list, nt), #[trigger] nt[k]),
    decreases nt.len(),
{
    if nt.len() > 0 {
        let prev = nt.drop_last();
        lemma_grown_facts(list, prev);
        let l = grown(list, prev);
        let t = nt.last();
        let g = grown(list, nt);
        assert forall|i: int| 0 <= i < g.len() implies list.contains(#[trigger] g[i]) || nt.contains(g[i]) by {
            if i < l.len() {
                assert(g[i] == l[i]);
                if prev.contains(l[i]) {
                    let k = choose|k: int| 0 <= k < prev.len() && prev[k] == l[i];
                    assert(nt[k] == prev[k]);
                }
            } else {
                assert(g[i] == t);
                assert(nt[nt.len() - 1] == t);
            }
        }
        assert forall|k: int| 0 <= k < nt.len() implies has_lower(g, #[trigger] nt[k]) by {
            if k < prev.len() {
                assert(prev[k] == nt[k]);
                assert(has_lower(l, prev[k]));
                let w = choose|w: int| 0 <= w < l.len() && unicode_lowercase(#[trigger] l[w]) == unicode_lowercase(prev[k]);
                assert(g[w] == l[w]);
            } else {
                assert(nt[k] == t);
                if exists|i: int| 0 <= i < l.len() && unicode_lowercase(#[trigger] l[i]) == unicode_lowercase(t) {
                    let w = choose|w: int| 0 <= w < l.len() && unicode_lowercase(#[trigger] l[w]) == unicode_lowercase(t);
                    assert(g[w] == l[w]);
                } else {
                    assert(g[l.len() as int] == t);
                }
            }
        }
        assert forall|i: int, j: int| 0 <= i < j < g.len() implies unicode_lowercase(#[trigger] g[i]) != unicode_lowercase(
            #[trigger] g[j],
        ) by {
            if j < l.len() {
                assert(g[i] == l[i] && g[j] == l[j]);
            } else {
                assert(g[i] == l[i]);
                assert(g[j] == t);
            }
        }
    }
}

/// Merging the tags of some images into a tag catalog kept in strictly
/// ascending order of lower case keeps it so; every tag it held stays; every
/// tag of the images has one of the same lower case in it; every tag in it was
/// in the catalog or among the images' tags; and when no new tag came, the
/// catalog is unchanged.
pub proof fn law_merged_catalog_sorted_and_complete(catalog: Seq<String>, hits: Seq<ImageHit>)
    requires
        sorted_unique_by_lower(catalog.map_values(|s: String| s@)),
    ensures
        sorted_unique_by_lower(merged_catalog(catalog, hits)),
        forall|i: int| 0 <= i < catalog.len() ==> merged_catalog(catalog, hits).contains(#[trigger] catalog[i]@),
        forall|k: int| 0 <= k < hit_tags(hits).len() ==> has_lower(merged_catalog(catalog, hits), #[trigger] hit_tags(hits)[k]),
        forall|i: int| 0 <= i < merged_catalog(catalog, hits).len() ==> catalog.map_values(|s: String| s@).contains(
            #[trigger] merged_catalog(catalog, hits)[i],
        ) || hit_tags(hits).contains(merged_catalog(catalog, hits)[i]),
        grown(catalog.map_values(|s: String| s@), hit_tags(hits)).len() == catalog.len() ==> merged_catalog(catalog, hits)
            == catalog.map_values(|s: String| s@),
{
    broadcast use vstd::seq_lib::group_to_multiset_ensures;

    let base = catalog.map_values(|s: String| s@);
    let nt = hit_tags(hits);
    assert(lower_distinct(base)) by {
        assert forall|i: int, j: int| 0 <= i < j < base.len() implies unicode_lowercase(#[trigger] base[i])
            != unicode_lowercase(#[trigger] base[j]) by {
            if unicode_lowercase(base[i]) == unicode_lowercase(base[j]) {
                lemma_text_lt_asym(unicode_lowercase(base[i]), unicode_lowercase(base[j]));
            }
        }
    }
    lemma_grown_facts(base, nt);
    law_grown_keeps_list(base, nt);
    let g = grown(base, nt);
    let m = merged_catalog(catalog, hits);
    if g.len() == base.len() {
        assert(g =~= base) by {
            assert(g.subrange(0, base.len() as int) == base);
        }
        assert forall|i: int| 0 <= i < catalog.len() implies m.contains(#[trigger] catalog[i]@) by {
            assert(m[i] == catalog[i]@);
        }
        assert forall|k: int| 0 <= k < nt.len() implies has_lower(m, #[trigger] nt[k]) by {
            assert(has_lower(g, nt[k]));
        }
        return;
    }
    let kg = keyed_lower(g);
    let out = stable_sorted(kg);
    assert(m == texts(out));
    lemma_stable_sorted_multiset(kg);
    lemma_stable_sorted_entries(kg);
    law_stable_sorted_keys_ascend(kg);
    assert(kg.no_duplicates()) by {
        assert forall|i: int, j: int| 0 <= i < kg.len() && 0 <= j < kg.len() && i != j implies kg[i] != kg[j] by {
            if i < j {
                assert(unicode_lowercase(g[i]) != unicode_lowercase(g[j]));
            } else {
                assert(unicode_lowercase(g[j]) != unicode_lowercase(g[i]));
            }
        }
    }
    kg.lemma_multiset_has_no_duplicates();
    assert forall|x: (Seq<char>, Seq<char>)| out.to_multiset().contains(x) implies out.to_multiset().count(x) == 1 by {
        assert(kg.to_multiset().contains(x));
    }
    out.lemma_multiset_has_no_duplicates_conv();
    // Each shown entry is a tag with its lower case.
    assert forall|p: int| 0 <= p < out.len() implies (#[trigger] out[p]).1 == unicode_lowercase(out[p].0) && exists|q: int|
        0 <= q < g.len() && out[p].0 == g[q] by {
        let q = choose|q: int| 0 <= q < kg.len() && out[p] == kg[q];
        assert(kg[q] == (g[q], unicode_lowercase(g[q])));
    }
    // Sorted, no two alike.
    assert forall|i: int, j: int| 0 <= i < j < m.len() implies text_lt(
        unicode_lowercase(#[trigger] m[i]),
        unicode_lowercase(#[trigger] m[j]),
    ) by {
        assert(m[i] == out[i].0 && m[j] == out[j].0);
        assert(out[i].1 == unicode_lowercase(out[i].0));
        assert(out[j].1 == unicode_lowercase(out[j].0));
        let qi = choose|q: int| 0 <= q < kg.len() && out[i] == kg[q];
        let qj = choose|q: int| 0 <= q < kg.len() && out[j] == kg[q];
        if out[i].1 == out[j].1 {
            if qi != qj {
                if qi < qj {
                    assert(unicode_lowercase(g[qi]) != unicode_lowercase(g[qj]));
                } else {
                    assert(unicode_lowercase(g[qj]) != unicode_lowercase(g[qi]));
                }
            }
            assert(out[i] == out[j]);
        }
        assert(!text_lt(out[j].1, out[i].1));
        lemma_text_lt_total(out[i].1, out[j].1);
    }
    // Entries of `g` show up in the result.
    assert forall|q: int| 0 <= q < g.len() implies m.contains(#[trigger] g[q]) by {
        assert(kg[q] == (g[q], unicode_lowercase(g[q])));
        assert(kg.contains(kg[q]));
        assert(kg.to_multiset().count(kg[q]) > 0);
        assert(out.to_multiset().count(kg[q]) > 0);
        assert(out.contains(kg[q]));
        let p = choose|p: int| 0 <= p < out.len() && out[p] == kg[q];
        assert(m[p] == g[q]);
    }
    assert forall|i: int| 0 <= i < catalog.len() implies m.contains(#[trigger] catalog[i]@) by {
        assert(g.subrange(0, base.len() as int)[i] == base[i]);
        assert(g[i] == base[i]);
        assert(m.contains(g[i]));
    }
    assert forall|k: int| 0 <= k < nt.len() implies has_lower(m, #[trigger] nt[k]) by {
        assert(has_lower(g, nt[k]));
        let w = choose|w: int| 0 <= w < g.len() && unicode_lowercase(#[trigger] g[w]) == unicode_lowercase(nt[k]);
        assert(m.contains(g[w]));
        let p = choose|p: int| 0 <= p < m.len() && m[p] == g[w];
        assert(unicode_lowercase(m[p]) == unicode_lowercase(nt[k]));
    }
    assert forall|i: int| 0 <= i < m.len() implies base.contains(#[trigger] m[i]) || nt.contains(m[i]) by {
        assert(m[i] == out[i].0);
        let q = choose|q: int| 0 <= q < g.len() && out[i].0 == g[q];
        assert(base.contains(g[q]) || nt.contains(g[q]));
    }
}

/// Pieces put back together with the separator between each two.
pub open spec fn joined_with(pieces: Seq<Seq<char>>, sep: char) -> Seq<char>
    decreases pieces.len(),
{
    if pieces.len() <= 1 {
        if pieces.len() == 1 {
            pieces[0]
        } else {
            seq![]
        }
    } else {
        joined_with(pieces.drop_last(), sep) + seq![sep] + pieces.last()
    }
}

proof fn lemma_joined_grow_last(r: Seq<Seq<char>>, sep: char, c: char)
    requires
        r.len() >= 1,
    ensures
        joined_with(r.update(r.len() - 1, r.last().push(c)), sep) == joined_with(r, sep).push(c),
{
    let u = r.update(r.len() - 1, r.last().push(c));
    if r.len() == 1 {
        assert(u[0] == r[0].push(c));
    } else {
        assert(u.drop_last() =~= r.drop_last());
        assert(u.last() == r.last().push(c));
        assert(joined_with(r.drop_last(), sep) + seq![sep] + r.last().push(c) =~= (joined_with(r.drop_last(), sep)
            + seq![sep] + r.last()).push(c));
    }
}

/// Splitting a text at a separator loses nothing and adds nothing: the pieces
/// hold no separator, there is one more piece than separators in the text, and
/// putting the pieces back together with the separator gives the text again.
pub proof fn law_split_then_join_restores(s: Seq<char>, sep: char)
    ensures
        joined_with(split_on(s, sep), sep) == s,
        forall|i: int| 0 <= i < split_on(s, sep).len() ==> !(#[trigger] split_on(s, sep)[i]).contains(sep),
        split_on(s, sep).len() == s.filter(|c: char| c == sep).len() + 1,
    decreases s.len(),
{
    reveal(Seq::filter);
    if s.len() == 0 {
        assert(s.filter(|c: char| c == sep) =~= Seq::<char>::empty());
    } else {
        let init = s.drop_last();
        law_split_then_join_restores(init, sep);
        lemma_split_on_len(init, sep);
        let r = split_on(init, sep);
        assert(s.filter(|c: char| c == sep) == if s.last() == sep {
            init.filter(|c: char| c == sep).push(s.last())
        } else {
            init.filter(|c: char| c == sep)
        });
        if s.last() == sep {
            let p = r.push(seq![]);
            assert(p.drop_last() =~= r);
            assert(joined_with(p, sep) =~= init + seq![sep] + Seq::<char>::empty());
            assert(init + seq![sep] + Seq::<char>::empty() =~= s);
            assert forall|i: int| 0 <= i < p.len() implies !(#[trigger] p[i]).contains(sep) by {
                if i < r.len() {
                    assert(p[i] == r[i]);
                } else {
                    assert(p[i] =~= Seq::<char>::empty());
                }
            }
        } else {
            let u = r.update(r.len() - 1, r.last().push(s.last()));
            lemma_joined_grow_last(r, sep, s.last());
            assert(init.push(s.last()) =~= s);
            assert forall|i: int| 0 <= i < u.len() implies !(#[trigger] u[i]).contains(sep) by {
                if i < r.len() - 1 {
                    assert(u[i] == r[i]);
                } else {
                    let x = r.last();
                    assert(!r[r.len() - 1].contains(sep));
                    assert(u[i] == x.push(s.last()));
                    if x.push(s.last()).contains(sep) {
                        let k = choose|k: int| 0 <= k < x.push(s.last()).len() && x.push(s.last())[k] == sep;
                        if k < x.len() {
                            assert(x[k] == sep);
                        }
                    }
                }
            }
        }
    }
}

} // verus!
