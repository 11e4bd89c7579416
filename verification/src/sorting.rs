use vstd::prelude::*;

verus! {

/// `a` sorts before `b` as strings do: by code point, a proper prefix first.
pub open spec fn text_lt(a: Seq<char>, b: Seq<char>) -> bool
    decreases a.len(),
{
    if a.len() == 0 {
        b.len() > 0
    } else if b.len() == 0 {
        false
    } else if a[0] != b[0] {
        a[0] < b[0]
    } else {
        text_lt(a.drop_first(), b.drop_first())
    }
}

/// Whether `a` sorts before `b`.
pub fn text_less(a: &Vec<char>, b: &Vec<char>) -> (r: bool)
    ensures
        r == text_lt(a@, b@),
{
    let mut i: usize = 0;
    proof {
        assert(a@.subrange(0, a@.len() as int) =~= a@);
        assert(b@.subrange(0, b@.len() as int) =~= b@);
    }
    while i < a.len() && i < b.len()
        invariant
            i <= a@.len(),
            i <= b@.len(),
            a@.subrange(0, i as int) == b@.subrange(0, i as int),
            text_lt(a@, b@) == text_lt(a@.subrange(i as int, a@.len() as int), b@.subrange(i as int, b@.len() as int)),
        decreases a@.len() - i,
    {
        if a[i] != b[i] {
            proof {
                let sa = a@.subrange(i as int, a@.len() as int);
                let sb = b@.subrange(i as int, b@.len() as int);
                assert(sa[0] == a@[i as int]);
                assert(sb[0] == b@[i as int]);
            }
            return a[i] < b[i];
        }
        proof {
            let sa = a@.subrange(i as int, a@.len() as int);
            let sb = b@.subrange(i as int, b@.len() as int);
            assert(sa.drop_first() =~= a@.subrange(i + 1, a@.len() as int));
            assert(sb.drop_first() =~= b@.subrange(i + 1, b@.len() as int));
            assert(a@.subrange(0, i + 1) =~= a@.subrange(0, i as int).push(a@[i as int]));
            assert(b@.subrange(0, i + 1) =~= b@.subrange(0, i as int).push(b@[i as int]));
        }
        i = i + 1;
    }
    proof {
        let sa = a@.subrange(i as int, a@.len() as int);
        let sb = b@.subrange(i as int, b@.len() as int);
        if i == a@.len() {
            assert(sa.len() == 0);
        } else {
            assert(sb.len() == 0);
        }
    }
    i == a.len() && i < b.len()
}

/// `x` inserted into a list sorted by key: after every entry whose key does not
/// sort after its own, so that equal keys keep their order.
pub open spec fn insert_sorted<T>(sorted: Seq<(T, Seq<char>)>, x: (T, Seq<char>)) -> Seq<(T, Seq<char>)>
    decreases sorted.len(),
{
    if sorted.len() == 0 {
        seq![x]
    } else if text_lt(x.1, sorted.last().1) {
        insert_sorted(sorted.drop_last(), x).push(sorted.last())
    } else {
        sorted.push(x)
    }
}

/// The entries stably sorted by key, as `sort_by_key` leaves them.
pub open spec fn stable_sorted<T>(s: Seq<(T, Seq<char>)>) -> Seq<(T, Seq<char>)>
    decreases s.len(),
{
    if s.len() == 0 {
        s
    } else {
        insert_sorted(stable_sorted(s.drop_last()), s.last())
    }
}

/// Inserting where the backward scan stops: after `p` entries, before the
/// rest, which all sort after `x`.
proof fn lemma_insert_at<T>(sorted: Seq<(T, Seq<char>)>, x: (T, Seq<char>), p: int)
    requires
        0 <= p <= sorted.len(),
        p == 0 || !text_lt(x.1, sorted[p - 1].1),
        forall|k: int| p <= k < sorted.len() ==> text_lt(x.1, #[trigger] sorted[k].1),
    ensures
        insert_sorted(sorted, x) == sorted.subrange(0, p).push(x) + sorted.subrange(p, sorted.len() as int),
    decreases sorted.len() - p,
{
    if sorted.len() == 0 {
        assert(sorted.subrange(0, p).push(x) + sorted.subrange(p, sorted.len() as int) =~= seq![x]);
    } else if p == sorted.len() {
        assert(sorted.subrange(0, p) =~= sorted);
        assert(sorted.subrange(p, sorted.len() as int) =~= Seq::<(T, Seq<char>)>::empty());
        assert(sorted.subrange(0, p).push(x) + sorted.subrange(p, sorted.len() as int) =~= sorted.push(x));
    } else {
        let init = sorted.drop_last();
        assert(text_lt(x.1, sorted[sorted.len() - 1].1));
        assert forall|k: int| p <= k < init.len() implies text_lt(x.1, #[trigger] init[k].1) by {
            assert(init[k] == sorted[k]);
        }
        if p > 0 {
            assert(init[p - 1] == sorted[p - 1]);
        }
        lemma_insert_at(init, x, p);
        assert(init.subrange(0, p).push(x) + init.subrange(p, init.len() as int) == insert_sorted(init, x));
        assert((init.subrange(0, p).push(x) + init.subrange(p, init.len() as int)).push(sorted.last())
            =~= sorted.subrange(0, p).push(x) + sorted.subrange(p, sorted.len() as int));
    }
}

/// Sorts entries stably by their key, as `sort_by_key` does.
pub fn sort_by_text_key<T>(items: &mut Vec<(T, Vec<char>)>)
    ensures
        pairs_view(final(items)@) == stable_sorted(pairs_view(old(items)@)),
{
    let ghost orig = pairs_view(items@);
    let n = items.len();
    let mut i: usize = 0;
    while i < n
        invariant
            n == items@.len(),
            i <= n,
            orig.len() == n,
            pairs_view(items@).subrange(0, i as int) == stable_sorted(orig.subrange(0, i as int)),
            pairs_view(items@).subrange(i as int, n as int) == orig.subrange(i as int, n as int),
        decreases n - i,
    {
        let ghost before = pairs_view(items@);
        let x = items.remove(i);
        let ghost sorted = before.subrange(0, i as int);
        assert(pairs_view(items@).subrange(0, i as int) =~= sorted);
        let mut p: usize = i;
        while p > 0 && text_less(&x.1, &items[p - 1].1)
            invariant
                p <= i,
                i < n,
                items@.len() == n - 1,
                pairs_view(items@).subrange(0, i as int) == sorted,
                forall|k: int| p <= k < i ==> text_lt(x.1@, #[trigger] sorted[k].1),
            decreases p,
        {
            assert(sorted[p - 1] == pairs_view(items@)[p - 1]);
            p = p - 1;
        }
        proof {
            if p > 0 {
                assert(sorted[p - 1] == pairs_view(items@)[p - 1]);
            }
            lemma_insert_at(sorted, (x.0, x.1@), p as int);
            assert(orig.subrange(0, i + 1).drop_last() =~= orig.subrange(0, i as int));
            assert(orig.subrange(0, i + 1).last() == orig[i as int]);
            assert(before.subrange(i as int, n as int)[0] == before[i as int]);
        }
        items.insert(p, x);
        proof {
            let after = pairs_view(items@);
            assert(after.subrange(0, i + 1) =~= sorted.subrange(0, p as int).push((x.0, x.1@)) + sorted.subrange(p as int, i as int));
            assert(after.subrange(i + 1, n as int) =~= before.subrange(i + 1, n as int));
            assert(before.subrange(i + 1, n as int) =~= orig.subrange(i + 1, n as int)) by {
                assert(before.subrange(i as int, n as int) == orig.subrange(i as int, n as int));
                assert forall|k: int| 0 <= k < n - i - 1 implies #[trigger] before.subrange(i + 1, n as int)[k] == orig.subrange(i + 1, n as int)[k] by {
                    assert(before.subrange(i as int, n as int)[k + 1] == orig.subrange(i as int, n as int)[k + 1]);
                }
            }
        }
        i = i + 1;
    }
    proof {
        assert(pairs_view(items@).subrange(0, n as int) =~= pairs_view(items@));
        assert(orig.subrange(0, n as int) =~= orig);
    }
}

/// Entries with their keys as text.
pub open spec fn pairs_view<T>(s: Seq<(T, Vec<char>)>) -> Seq<(T, Seq<char>)> {
    s.map_values(|p: (T, Vec<char>)| (p.0, p.1@))
}


pub(crate) proof fn lemma_text_lt_asym(a: Seq<char>, b: Seq<char>)
    ensures
        text_lt(a, b) ==> !text_lt(b, a),
    decreases a.len(),
{
    if a.len() > 0 && b.len() > 0 && a[0] == b[0] {
        lemma_text_lt_asym(a.drop_first(), b.drop_first());
    }
}

pub(crate) proof fn lemma_text_lt_trans(a: Seq<char>, b: Seq<char>, c: Seq<char>)
    requires
        text_lt(a, b),
        text_lt(b, c),
    ensures
        text_lt(a, c),
    decreases a.len(),
{
    if a.len() > 0 && b.len() > 0 && c.len() > 0 && a[0] == b[0] && b[0] == c[0] {
        lemma_text_lt_trans(a.drop_first(), b.drop_first(), c.drop_first());
    }
}

pub(crate) proof fn lemma_text_lt_total(a: Seq<char>, b: Seq<char>)
    ensures
        text_lt(a, b) || text_lt(b, a) || a == b,
    decreases a.len(),
{
    if a.len() > 0 && b.len() > 0 {
        if a[0] == b[0] {
            lemma_text_lt_total(a.drop_first(), b.drop_first());
            if a.drop_first() == b.drop_first() {
                assert(a =~= seq![a[0]] + a.drop_first());
                assert(b =~= seq![b[0]] + b.drop_first());
            }
        } else {
            assert((a[0] as int) != (b[0] as int));
        }
    } else if a.len() == 0 && b.len() == 0 {
        assert(a =~= b);
    }
}

/// The keys never go down along the list.
pub open spec fn keys_ascending<T>(s: Seq<(T, Seq<char>)>) -> bool {
    forall|i: int, j: int| 0 <= i < j < s.len() ==> !text_lt(#[trigger] s[j].1, #[trigger] s[i].1)
}

/// Every entry of an insertion is an entry of the list or the inserted one.
proof fn lemma_insert_sorted_entries<T>(sorted: Seq<(T, Seq<char>)>, x: (T, Seq<char>))
    ensures
        insert_sorted(sorted, x).len() == sorted.len() + 1,
        forall|k: int| 0 <= k < insert_sorted(sorted, x).len() ==> (#[trigger] insert_sorted(sorted, x)[k] == x
            || exists|m: int| 0 <= m < sorted.len() && insert_sorted(sorted, x)[k] == sorted[m]),
    decreases sorted.len(),
{
    if sorted.len() > 0 && text_lt(x.1, sorted.last().1) {
        lemma_insert_sorted_entries(sorted.drop_last(), x);
        let r = insert_sorted(sorted, x);
        let inner = insert_sorted(sorted.drop_last(), x);
        assert forall|k: int| 0 <= k < r.len() implies (#[trigger] r[k] == x || exists|m: int|
            0 <= m < sorted.len() && r[k] == sorted[m]) by {
            if k == r.len() - 1 {
                assert(r[k] == sorted[sorted.len() - 1]);
            } else {
                assert(r[k] == inner[k]);
                if inner[k] != x {
                    let m = choose|m: int| 0 <= m < sorted.drop_last().len() && inner[k] == sorted.drop_last()[m];
                    assert(sorted.drop_last()[m] == sorted[m]);
                }
            }
        }
    } else if sorted.len() > 0 {
        let r = sorted.push(x);
        assert forall|k: int| 0 <= k < r.len() implies (#[trigger] r[k] == x || exists|m: int|
            0 <= m < sorted.len() && r[k] == sorted[m]) by {
            if k < sorted.len() {
                assert(r[k] == sorted[k]);
            }
        }
    }
}

proof fn lemma_insert_sorted_ascending<T>(sorted: Seq<(T, Seq<char>)>, x: (T, Seq<char>))
    requires
        keys_ascending(sorted),
    ensures
        keys_ascending(insert_sorted(sorted, x)),
    decreases sorted.len(),
{
    if sorted.len() == 0 {
    } else if text_lt(x.1, sorted.last().1) {
        let init = sorted.drop_last();
        let last = sorted.last();
        assert(keys_ascending(init)) by {
            assert forall|i: int, j: int| 0 <= i < j < init.len() implies !text_lt(#[trigger] init[j].1, #[trigger] init[i].1) by {
                assert(init[i] == sorted[i] && init[j] == sorted[j]);
            }
        }
        lemma_insert_sorted_ascending(init, x);
        lemma_insert_sorted_entries(init, x);
        let inner = insert_sorted(init, x);
        let r = inner.push(last);
        assert forall|i: int, j: int| 0 <= i < j < r.len() implies !text_lt(#[trigger] r[j].1, #[trigger] r[i].1) by {
            if j == r.len() - 1 {
                assert(r[j] == last);
                assert(r[i] == inner[i]);
                if inner[i] == x {
                    lemma_text_lt_asym(x.1, last.1);
                } else {
                    let m = choose|m: int| 0 <= m < init.len() && inner[i] == init[m];
                    assert(init[m] == sorted[m]);
                    assert(!text_lt(sorted[sorted.len() - 1].1, sorted[m].1));
                }
            } else {
                assert(r[i] == inner[i] && r[j] == inner[j]);
            }
        }
    } else {
        let r = sorted.push(x);
        let last = sorted.last();
        assert forall|i: int, j: int| 0 <= i < j < r.len() implies !text_lt(#[trigger] r[j].1, #[trigger] r[i].1) by {
            if j == sorted.len() {
                assert(r[j] == x);
                assert(r[i] == sorted[i]);
                if text_lt(x.1, sorted[i].1) {
                    if i < sorted.len() - 1 {
                        assert(!text_lt(sorted[sorted.len() - 1].1, sorted[i].1));
                        lemma_text_lt_total(sorted[i].1, last.1);
                        if text_lt(sorted[i].1, last.1) {
                            lemma_text_lt_trans(x.1, sorted[i].1, last.1);
                        }
                    }
                }
            } else {
                assert(r[i] == sorted[i] && r[j] == sorted[j]);
            }
        }
    }
}

/// A stably sorted list has its keys in ascending order.
pub proof fn law_stable_sorted_keys_ascend<T>(s: Seq<(T, Seq<char>)>)
    ensures
        keys_ascending(stable_sorted(s)),
    decreases s.len(),
{
    if s.len() > 0 {
        law_stable_sorted_keys_ascend(s.drop_last());
        lemma_insert_sorted_ascending(stable_sorted(s.drop_last()), s.last());
    }
}


/// Every entry of a stably sorted list is an entry of the list.
pub proof fn lemma_stable_sorted_entries<T>(s: Seq<(T, Seq<char>)>)
    ensures
        stable_sorted(s).len() == s.len(),
        forall|k: int| 0 <= k < stable_sorted(s).len() ==> exists|m: int| 0 <= m < s.len() && #[trigger] stable_sorted(s)[k] == s[m],
    decreases s.len(),
{
    if s.len() > 0 {
        lemma_stable_sorted_entries(s.drop_last());
        let inner = stable_sorted(s.drop_last());
        lemma_insert_sorted_entries(inner, s.last());
        let r = stable_sorted(s);
        assert forall|k: int| 0 <= k < r.len() implies exists|m: int| 0 <= m < s.len() && #[trigger] r[k] == s[m] by {
            if r[k] == s.last() {
                assert(r[k] == s[s.len() - 1]);
            } else {
                let m1 = choose|m: int| 0 <= m < inner.len() && r[k] == inner[m];
                let m2 = choose|m: int| 0 <= m < s.drop_last().len() && inner[m1] == s.drop_last()[m];
                assert(s.drop_last()[m2] == s[m2]);
            }
        }
    }
}

/// Inserting adds the entry to what the list holds.
proof fn lemma_insert_sorted_multiset<T>(sorted: Seq<(T, Seq<char>)>, x: (T, Seq<char>))
    ensures
        insert_sorted(sorted, x).to_multiset() =~= sorted.to_multiset().insert(x),
    decreases sorted.len(),
{
    broadcast use vstd::seq_lib::group_to_multiset_ensures, vstd::multiset::group_multiset_axioms;

    if sorted.len() == 0 {
        assert(seq![x] =~= Seq::<(T, Seq<char>)>::empty().push(x));
    } else if text_lt(x.1, sorted.last().1) {
        lemma_insert_sorted_multiset(sorted.drop_last(), x);
        assert(sorted.drop_last().push(sorted.last()) =~= sorted);
    }
}

/// A stably sorted list holds the same entries, as often, as the list.
pub proof fn lemma_stable_sorted_multiset<T>(s: Seq<(T, Seq<char>)>)
    ensures
        stable_sorted(s).to_multiset() =~= s.to_multiset(),
    decreases s.len(),
{
    broadcast use vstd::seq_lib::group_to_multiset_ensures, vstd::multiset::group_multiset_axioms;

    if s.len() > 0 {
        lemma_stable_sorted_multiset(s.drop_last());
        lemma_insert_sorted_multiset(stable_sorted(s.drop_last()), s.last());
        assert(s.drop_last().push(s.last()) =~= s);
    }
}

} // verus!
