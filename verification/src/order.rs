//! The order of texts (`str`'s `Ord`: code point by code point, a proper
//! prefix first), sorting, and sorted sets and maps keyed by text.
use vstd::prelude::*;
use vstd::relations::*;
use vstd::multiset::Multiset;
use crate::text::{copy_text, same_text, views};

verus! {

/// `a` sorts strictly before `b`: at the first differing position `a` has the
/// smaller code point, or `a` is a proper prefix of `b`.
pub open spec fn text_lt(a: Seq<char>, b: Seq<char>) -> bool
    decreases a.len(),
{
    if a.len() == 0 {
        b.len() > 0
    } else if b.len() == 0 {
        false
    } else if a[0] != b[0] {
        (a[0] as u32) < (b[0] as u32)
    } else {
        text_lt(a.drop_first(), b.drop_first())
    }
}

/// `a` sorts before or equal to `b`.
pub open spec fn text_le(a: Seq<char>, b: Seq<char>) -> bool {
    a == b || text_lt(a, b)
}

/// `text_le` as a relation.
pub open spec fn le_rel() -> spec_fn(Seq<char>, Seq<char>) -> bool {
    |a: Seq<char>, b: Seq<char>| text_le(a, b)
}

/// The texts in ascending order, duplicates kept (`Vec::sort` on strings).
pub open spec fn sorted_texts(s: Seq<Seq<char>>) -> Seq<Seq<char>> {
    s.sort_by(le_rel())
}

/// Adjacent repeats collapsed to one (`Vec::dedup`).
pub open spec fn dedup(s: Seq<Seq<char>>) -> Seq<Seq<char>>
    decreases s.len(),
{
    if s.len() <= 1 {
        s
    } else if s.last() == s[s.len() - 2] {
        dedup(s.drop_last())
    } else {
        dedup(s.drop_last()).push(s.last())
    }
}

/// Strictly ascending.
pub open spec fn strictly_sorted(s: Seq<Seq<char>>) -> bool {
    forall|i: int, j: int| 0 <= i < j < s.len() ==> text_lt(#[trigger] s[i], #[trigger] s[j])
}

/// Position of the first key that does not sort before `k`.
pub open spec fn slot(keys: Seq<Seq<char>>, k: Seq<char>) -> nat
    decreases keys.len(),
{
    if keys.len() == 0 {
        0
    } else if text_lt(keys[0], k) {
        1 + slot(keys.drop_first(), k)
    } else {
        0
    }
}

/// `k` sits at its slot.
pub open spec fn present(keys: Seq<Seq<char>>, k: Seq<char>) -> bool {
    slot(keys, k) < keys.len() && keys[slot(keys, k) as int] == k
}

/// `k` added to a sorted set of texts (`BTreeSet::insert`).
pub open spec fn set_add(keys: Seq<Seq<char>>, k: Seq<char>) -> Seq<Seq<char>> {
    if present(keys, k) {
        keys
    } else {
        keys.insert(slot(keys, k) as int, k)
    }
}

// ---------------------------------------------------------------------------
// Lemmas on the order
pub proof fn lemma_lt_irreflexive(a: Seq<char>)
    ensures
        !text_lt(a, a),
    decreases a.len(),
{
    if a.len() > 0 {
        lemma_lt_irreflexive(a.drop_first());
    }
}

pub proof fn lemma_lt_asymmetric(a: Seq<char>, b: Seq<char>)
    ensures
        text_lt(a, b) ==> !text_lt(b, a),
    decreases a.len(),
{
    if a.len() > 0 && b.len() > 0 && a[0] == b[0] {
        lemma_lt_asymmetric(a.drop_first(), b.drop_first());
    }
}

pub proof fn lemma_lt_transitive(a: Seq<char>, b: Seq<char>, c: Seq<char>)
    ensures
        text_lt(a, b) && text_lt(b, c) ==> text_lt(a, c),
    decreases a.len(),
{
    if a.len() > 0 && b.len() > 0 && c.len() > 0 {
        lemma_lt_transitive(a.drop_first(), b.drop_first(), c.drop_first());
    }
}

pub proof fn lemma_lt_connected(a: Seq<char>, b: Seq<char>)
    ensures
        a != b ==> text_lt(a, b) || text_lt(b, a),
    decreases a.len(),
{
    if a.len() == 0 && b.len() == 0 {
        assert(a =~= b);
    } else if a.len() == 0 || b.len() == 0 {
    } else if a[0] == b[0] {
        lemma_lt_connected(a.drop_first(), b.drop_first());
        if a.drop_first() == b.drop_first() {
            assert(a =~= seq![a[0]] + a.drop_first());
            assert(b =~= seq![b[0]] + b.drop_first());
        }
    } else {
        vstd::utf8::char_u32_cast(a[0], a[0] as u32);
        vstd::utf8::char_u32_cast(b[0], b[0] as u32);
        assert((a[0] as u32) != (b[0] as u32));
    }
}

/// The order facts, for every text at once.
pub proof fn lemma_order_facts()
    ensures
        forall|a: Seq<char>| !text_lt(a, a),
        forall|a: Seq<char>, b: Seq<char>| #[trigger] text_lt(a, b) ==> !text_lt(b, a),
        forall|a: Seq<char>, b: Seq<char>, c: Seq<char>|
            #[trigger] text_lt(a, b) && #[trigger] text_lt(b, c) ==> text_lt(a, c),
        forall|a: Seq<char>, b: Seq<char>| a != b ==> #[trigger] text_lt(a, b) || text_lt(b, a),
{
    assert forall|a: Seq<char>| !text_lt(a, a) by {
        lemma_lt_irreflexive(a);
    }
    assert forall|a: Seq<char>, b: Seq<char>| #[trigger] text_lt(a, b) implies !text_lt(b, a) by {
        lemma_lt_asymmetric(a, b);
    }
    assert forall|a: Seq<char>, b: Seq<char>, c: Seq<char>|
        #[trigger] text_lt(a, b) && #[trigger] text_lt(b, c) implies text_lt(a, c) by {
        lemma_lt_transitive(a, b, c);
    }
    assert forall|a: Seq<char>, b: Seq<char>| a != b implies #[trigger] text_lt(a, b) || text_lt(
        b,
        a,
    ) by {
        lemma_lt_connected(a, b);
    }
}

/// `text_le` is a total order.
pub proof fn lemma_le_total()
    ensures
        total_ordering(le_rel()),
{
    lemma_order_facts();
    assert(reflexive(le_rel()));
    assert(antisymmetric(le_rel()));
    assert(transitive(le_rel())) by {
        assert forall|x: Seq<char>, y: Seq<char>, z: Seq<char>|
            #[trigger] le_rel()(x, y) && #[trigger] le_rel()(y, z) implies le_rel()(x, z) by {
            lemma_lt_transitive(x, y, z);
        }
    }
    assert(strongly_connected(le_rel())) by {
        assert forall|x: Seq<char>, y: Seq<char>|
            #[trigger] le_rel()(x, y) || #[trigger] le_rel()(y, x) by {
            lemma_lt_connected(x, y);
        }
    }
}

/// The slot is where the first key not before `k` sits.
pub proof fn lemma_slot(keys: Seq<Seq<char>>, k: Seq<char>)
    ensures
        slot(keys, k) <= keys.len(),
        forall|i: int| 0 <= i < slot(keys, k) ==> text_lt(#[trigger] keys[i], k),
        slot(keys, k) < keys.len() ==> !text_lt(keys[slot(keys, k) as int], k),
    decreases keys.len(),
{
    if keys.len() > 0 && text_lt(keys[0], k) {
        lemma_slot(keys.drop_first(), k);
        assert forall|i: int| 0 <= i < slot(keys, k) implies text_lt(#[trigger] keys[i], k) by {
            if i > 0 {
                assert(keys[i] == keys.drop_first()[i - 1]);
            }
        }
    }
}

/// Adding to a strictly sorted set keeps it strictly sorted, and adds
/// exactly `k`.
pub proof fn lemma_set_add(keys: Seq<Seq<char>>, k: Seq<char>)
    requires
        strictly_sorted(keys),
    ensures
        strictly_sorted(set_add(keys, k)),
        set_add(keys, k).to_set() == keys.to_set().insert(k),
        present(keys, k) <==> keys.contains(k),
{
    lemma_slot(keys, k);
    lemma_order_facts();
    let p = slot(keys, k) as int;
    if present(keys, k) {
        assert(keys.to_set().insert(k) =~= keys.to_set());
    } else {
        let r = keys.insert(p, k);
        assert forall|i: int, j: int| 0 <= i < j < r.len() implies text_lt(
            #[trigger] r[i],
            #[trigger] r[j],
        ) by {
            if j < p {
            } else if j == p {
            } else if i < p {
                assert(r[j] == keys[j - 1]);
                if j - 1 > p {
                    assert(text_lt(keys[p], keys[j - 1]));
                }
            } else if i == p {
                assert(r[j] == keys[j - 1]);
                if j - 1 > p {
                    assert(text_lt(keys[p], keys[j - 1]));
                }
            } else {
                assert(r[i] == keys[i - 1]);
                assert(r[j] == keys[j - 1]);
            }
        }
        assert(r.to_set() =~= keys.to_set().insert(k)) by {
            assert forall|x: Seq<char>| r.contains(x) <==> keys.to_set().insert(k).contains(x) by {
                if r.contains(x) {
                    let i = choose|i: int| 0 <= i < r.len() && r[i] == x;
                    if i < p {
                        assert(keys[i] == x);
                    } else if i > p {
                        assert(keys[i - 1] == x);
                    }
                }
                if keys.contains(x) {
                    let i = choose|i: int| 0 <= i < keys.len() && keys[i] == x;
                    if i < p {
                        assert(r[i] == x);
                    } else {
                        assert(r[i + 1] == x);
                    }
                }
                if x == k {
                    assert(r[p] == x);
                }
            }
        }
    }
    if keys.contains(k) {
        let i = choose|i: int| 0 <= i < keys.len() && keys[i] == k;
        if i < p {
            assert(text_lt(keys[i], k));
        } else if i > p {
            assert(text_lt(keys[p], keys[i]));
        }
    }
}

/// Sorting keeps exactly the elements.
pub proof fn lemma_sorted_elems(s: Seq<Seq<char>>, x: Seq<char>)
    ensures
        sorted_texts(s).contains(x) <==> s.contains(x),
        sorted_texts(s).len() == s.len(),
{
    lemma_le_total();
    s.lemma_sort_by_ensures(le_rel());
    broadcast use vstd::seq_lib::group_to_multiset_ensures;
    s.to_multiset_ensures();
    sorted_texts(s).to_multiset_ensures();
    assert(s.to_multiset().count(x) == sorted_texts(s).to_multiset().count(x));
}

// ---------------------------------------------------------------------------
// Executable
/// Whether `a` sorts strictly before `b`.
pub fn text_less(a: &Vec<char>, b: &Vec<char>) -> (r: bool)
    ensures
        r == text_lt(a@, b@),
{
    let mut i: usize = 0;
    assert(a@.subrange(0, a.len() as int) =~= a@);
    assert(b@.subrange(0, b.len() as int) =~= b@);
    while i < a.len() && i < b.len()
        invariant
            i <= a.len(),
            i <= b.len(),
            text_lt(a@, b@) == text_lt(a@.subrange(i as int, a.len() as int), b@.subrange(i as int, b.len() as int)),
        decreases a.len() - i,
    {
        let ghost sa = a@.subrange(i as int, a.len() as int);
        let ghost sb = b@.subrange(i as int, b.len() as int);
        if a[i] != b[i] {
            return (a[i] as u32) < (b[i] as u32);
        }
        assert(sa.drop_first() =~= a@.subrange(i + 1, a.len() as int));
        assert(sb.drop_first() =~= b@.subrange(i + 1, b.len() as int));
        i = i + 1;
    }
    i < b.len()
}

/// The slot of `k` among sorted `keys`, and whether `k` is there.
pub fn find_slot(keys: &Vec<Vec<char>>, k: &Vec<char>) -> (r: (usize, bool))
    ensures
        r.0 == slot(views(keys@), k@),
        r.1 == present(views(keys@), k@),
{
    let ghost ks = views(keys@);
    let mut i: usize = 0;
    assert(ks.subrange(0, ks.len() as int) =~= ks);
    while i < keys.len() && text_less(&keys[i], k)
        invariant
            i <= keys.len(),
            ks == views(keys@),
            slot(ks, k@) == i + slot(ks.subrange(i as int, ks.len() as int), k@),
        decreases keys.len() - i,
    {
        let ghost rest = ks.subrange(i as int, ks.len() as int);
        assert(rest.drop_first() =~= ks.subrange(i + 1, ks.len() as int));
        i = i + 1;
    }
    if i < keys.len() {
        assert(ks.subrange(i as int, ks.len() as int)[0] == keys@[i as int]@);
    } else {
        assert(ks.subrange(i as int, ks.len() as int).len() == 0);
    }
    let found = i < keys.len() && same_text(&keys[i], k);
    (i, found)
}

/// Adds `k` to the sorted set `keys`.
pub fn set_insert(keys: &mut Vec<Vec<char>>, k: Vec<char>)
    ensures
        views(final(keys)@) == set_add(views(old(keys)@), k@),
{
    let (p, found) = find_slot(keys, &k);
    proof {
        lemma_slot(views(keys@), k@);
    }
    if !found {
        let ghost before = keys@;
        keys.insert(p, k);
        assert(views(keys@) =~= views(before).insert(p as int, k@));
    }
}

/// The texts sorted ascending, duplicates kept.
pub fn sort_texts(v: Vec<Vec<char>>) -> (r: Vec<Vec<char>>)
    ensures
        views(r@) == sorted_texts(views(v@)),
{
    let mut r: Vec<Vec<char>> = Vec::new();
    let mut i: usize = 0;
    proof {
        lemma_le_total();
        lemma_order_facts();
        assert(views(v@).take(0) =~= views(r@));
    }
    while i < v.len()
        invariant
            i <= v.len(),
            sorted_by(views(r@), le_rel()),
            views(r@).to_multiset() == views(v@).take(i as int).to_multiset(),
        decreases v.len() - i,
    {
        let x = copy_text(&v[i]);
        let mut p: usize = 0;
        while p < r.len() && !text_less(&x, &r[p])
            invariant
                p <= r.len(),
                forall|j: int| 0 <= j < p ==> text_le(#[trigger] views(r@)[j], x@),
            decreases r.len() - p,
        {
            proof {
                lemma_lt_connected(x@, r@[p as int]@);
            }
            p = p + 1;
        }
        let ghost before = views(r@);
        proof {
            lemma_order_facts();
            if p < r.len() {
                assert(text_lt(x@, before[p as int]));
            }
        }
        r.insert(p, x);
        let ghost after = views(r@);
        assert(after =~= before.insert(p as int, v@[i as int]@));
        assert(sorted_by(after, le_rel())) by {
            assert forall|a: int, b: int| 0 <= a < b < after.len() implies #[trigger] le_rel()(
                after[a],
                after[b],
            ) by {
                if b < p {
                } else if b == p {
                    assert(text_le(before[a], x@));
                } else if a < p {
                    assert(after[b] == before[b - 1]);
                    assert(le_rel()(before[a], before[b - 1]));
                } else if a == p {
                    assert(after[b] == before[b - 1]);
                    assert(le_rel()(before[p as int], before[b - 1]));
                    assert(text_lt(x@, before[p as int]));
                } else {
                    assert(after[a] == before[a - 1]);
                    assert(after[b] == before[b - 1]);
                }
            }
        }
        proof {
            assert(before =~= before.take(p as int) + before.skip(p as int));
            assert(after =~= before.take(p as int) + (seq![x@] + before.skip(p as int)));
            vstd::seq_lib::lemma_multiset_commutative(before.take(p as int), before.skip(p as int));
            vstd::seq_lib::lemma_multiset_commutative(before.take(p as int), seq![x@] + before.skip(p as int));
            vstd::seq_lib::lemma_multiset_commutative(seq![x@], before.skip(p as int));
            assert(views(v@).take(i + 1) =~= views(v@).take(i as int).push(x@));
            broadcast use vstd::seq_lib::group_to_multiset_ensures;
            assert(seq![x@].to_multiset() =~= Multiset::empty().insert(x@)) by {
                assert(seq![x@] =~= Seq::<Seq<char>>::empty().push(x@));
            }
        }
        i = i + 1;
    }
    proof {
        assert(views(v@).take(v.len() as int) =~= views(v@));
        views(v@).lemma_sort_by_ensures(le_rel());
        vstd::seq_lib::lemma_sorted_unique(views(r@), sorted_texts(views(v@)), le_rel());
    }
    r
}

/// Adjacent repeats collapsed.
pub fn dedup_texts(v: &Vec<Vec<char>>) -> (r: Vec<Vec<char>>)
    ensures
        views(r@) == dedup(views(v@)),
{
    let mut r: Vec<Vec<char>> = Vec::new();
    let mut i: usize = 0;
    while i < v.len()
        invariant
            i <= v.len(),
            views(r@) == dedup(views(v@).take(i as int)),
            i > 0 ==> r.len() > 0 && r@.last()@ == v@[i - 1]@,
        decreases v.len() - i,
    {
        let ghost s = views(v@).take(i + 1);
        assert(s.drop_last() =~= views(v@).take(i as int));
        if i == 0 || !same_text(&r[r.len() - 1], &v[i]) {
            proof {
                if i > 0 {
                    assert(s[s.len() - 2] == v@[i - 1]@);
                }
            }
            let ghost before = views(r@);
            r.push(copy_text(&v[i]));
            assert(views(r@) =~= before.push(v@[i as int]@));
            proof {
                if i == 0 {
                    assert(s.len() == 1);
                    assert(views(r@) =~= s);
                }
            }
        } else {
            assert(s[s.len() - 2] == v@[i - 1]@);
        }
        i = i + 1;
    }
    assert(views(v@).take(v.len() as int) =~= views(v@));
    r
}

/// Sorted ascending, repeats collapsed (`sort` then `dedup`).
pub fn sort_dedup(v: Vec<Vec<char>>) -> (r: Vec<Vec<char>>)
    ensures
        views(r@) == dedup(sorted_texts(views(v@))),
{
    let s = sort_texts(v);
    dedup_texts(&s)
}

} // verus!
