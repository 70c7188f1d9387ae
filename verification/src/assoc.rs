//! Text keys in the order of `String`'s `Ord` (lexicographic by character, which for
//! UTF-8 text is the byte order), and association lists kept ascending by key: the
//! model of a `BTreeMap<String, String>` walked in order.
use vstd::prelude::*;

use crate::text::chars_of;
use crate::text::chars_eq_str;

verus! {

/// `a` sorts strictly before `b`.
pub open spec fn text_less(a: Seq<char>, b: Seq<char>) -> bool
    decreases a.len(),
{
    if a.len() == 0 {
        b.len() > 0
    } else if b.len() == 0 {
        false
    } else if a[0] != b[0] {
        a[0] < b[0]
    } else {
        text_less(a.drop_first(), b.drop_first())
    }
}

pub proof fn lemma_text_less_irreflexive(a: Seq<char>)
    ensures
        !text_less(a, a),
    decreases a.len(),
{
    if a.len() > 0 {
        lemma_text_less_irreflexive(a.drop_first());
    }
}

pub proof fn lemma_text_less_transitive(a: Seq<char>, b: Seq<char>, c: Seq<char>)
    requires
        text_less(a, b),
        text_less(b, c),
    ensures
        text_less(a, c),
    decreases a.len(),
{
    if a.len() > 0 && b.len() > 0 && c.len() > 0 && a[0] == b[0] && b[0] == c[0] {
        lemma_text_less_transitive(a.drop_first(), b.drop_first(), c.drop_first());
    }
}

pub proof fn lemma_text_less_total(a: Seq<char>, b: Seq<char>)
    ensures
        a == b || text_less(a, b) || text_less(b, a),
    decreases a.len(),
{
    if a.len() > 0 && b.len() > 0 {
        if a[0] == b[0] {
            lemma_text_less_total(a.drop_first(), b.drop_first());
            if a.drop_first() == b.drop_first() {
                assert(a =~= seq![a[0]] + a.drop_first());
                assert(b =~= seq![b[0]] + b.drop_first());
            }
        }
    } else if a.len() == 0 && b.len() == 0 {
        assert(a =~= b);
    }
}

/// Whether `a` sorts strictly before `b`.
pub fn chars_less(a: &Vec<char>, b: &Vec<char>) -> (r: bool)
    ensures
        r == text_less(a@, b@),
{
    let mut i: usize = 0;
    assert(a@.skip(0) =~= a@);
    assert(b@.skip(0) =~= b@);
    while i < a.len() && i < b.len() && a[i] == b[i]
        invariant
            0 <= i <= a@.len(),
            i <= b@.len(),
            text_less(a@, b@) == text_less(a@.skip(i as int), b@.skip(i as int)),
        decreases a.len() - i,
    {
        proof {
            let sa = a@.skip(i as int);
            let sb = b@.skip(i as int);
            assert(sa.drop_first() =~= a@.skip(i + 1));
            assert(sb.drop_first() =~= b@.skip(i + 1));
        }
        i = i + 1;
    }
    if i == a.len() {
        i < b.len()
    } else if i == b.len() {
        false
    } else {
        a[i] < b[i]
    }
}

/// Whether `a` sorts strictly before `b`.
pub fn str_less(a: &str, b: &str) -> (r: bool)
    ensures
        r == text_less(a@, b@),
{
    let va = chars_of(a);
    let vb = chars_of(b);
    chars_less(&va, &vb)
}

/// The keys of `l` are strictly ascending.
pub open spec fn keys_ascending<V>(l: Seq<(Seq<char>, V)>) -> bool {
    forall|i: int, j: int| 0 <= i < j < l.len() ==> text_less(#[trigger] l[i].0, #[trigger] l[j].0)
}

/// The map that the association list `l` stands for (a later entry wins over an earlier one).
pub open spec fn assoc_map<V>(l: Seq<(Seq<char>, V)>) -> Map<Seq<char>, V>
    decreases l.len(),
{
    if l.len() == 0 {
        Map::empty()
    } else {
        assoc_map(l.drop_last()).insert(l.last().0, l.last().1)
    }
}

/// The view of a list of string pairs.
pub open spec fn pairs_view(v: Seq<(String, String)>) -> Seq<(Seq<char>, Seq<char>)> {
    v.map_values(|p: (String, String)| (p.0@, p.1@))
}

pub proof fn lemma_assoc_map_contains<V>(l: Seq<(Seq<char>, V)>, k: Seq<char>)
    ensures
        assoc_map(l).contains_key(k) <==> exists|i: int| 0 <= i < l.len() && (#[trigger] l[i]).0 == k,
    decreases l.len(),
{
    if l.len() > 0 {
        lemma_assoc_map_contains(l.drop_last(), k);
        if assoc_map(l.drop_last()).contains_key(k) {
            let i = choose|i: int| 0 <= i < l.drop_last().len() && (#[trigger] l.drop_last()[i]).0 == k;
            assert(l[i] == l.drop_last()[i]);
        }
        if exists|i: int| 0 <= i < l.len() && (#[trigger] l[i]).0 == k {
            let i = choose|i: int| 0 <= i < l.len() && (#[trigger] l[i]).0 == k;
            if i < l.len() - 1 {
                assert(l.drop_last()[i] == l[i]);
            }
        }
    }
}

/// In a list whose keys are distinct, the map gives each entry's own value.
pub proof fn lemma_assoc_map_index<V>(l: Seq<(Seq<char>, V)>, i: int)
    requires
        keys_ascending(l),
        0 <= i < l.len(),
    ensures
        assoc_map(l).contains_key(l[i].0),
        assoc_map(l)[l[i].0] == l[i].1,
    decreases l.len(),
{
    if i < l.len() - 1 {
        let p = l.drop_last();
        assert(keys_ascending(p)) by {
            assert forall|a: int, b: int| 0 <= a < b < p.len() implies text_less(
                #[trigger] p[a].0,
                #[trigger] p[b].0,
            ) by {
                assert(p[a] == l[a] && p[b] == l[b]);
            }
        }
        assert(p[i] == l[i]);
        lemma_assoc_map_index(p, i);
        assert(text_less(l[i].0, l.last().0));
        lemma_text_less_irreflexive(l[i].0);
    }
}

proof fn lemma_ascending_drop_last<V>(l: Seq<(Seq<char>, V)>)
    requires
        keys_ascending(l),
        l.len() > 0,
    ensures
        keys_ascending(l.drop_last()),
        !assoc_map(l.drop_last()).contains_key(l.last().0),
        assoc_map(l).contains_key(l.last().0),
        assoc_map(l.drop_last()) == assoc_map(l).remove(l.last().0),
{
    let p = l.drop_last();
    let k = l.last().0;
    assert forall|a: int, b: int| 0 <= a < b < p.len() implies text_less(#[trigger] p[a].0, #[trigger] p[b].0) by {
        assert(p[a] == l[a] && p[b] == l[b]);
    }
    lemma_assoc_map_contains(p, k);
    if assoc_map(p).contains_key(k) {
        let i = choose|i: int| 0 <= i < p.len() && (#[trigger] p[i]).0 == k;
        assert(p[i] == l[i]);
        assert(text_less(l[i].0, l[l.len() - 1].0));
        lemma_text_less_irreflexive(k);
    }
    assert(assoc_map(p) =~= assoc_map(l).remove(k));
}

/// Two association lists with ascending keys that stand for the same map are the
/// same list: the sorted walk of a map is unique.
pub proof fn lemma_ascending_lists_equal<V>(l1: Seq<(Seq<char>, V)>, l2: Seq<(Seq<char>, V)>)
    requires
        keys_ascending(l1),
        keys_ascending(l2),
        assoc_map(l1) == assoc_map(l2),
    ensures
        l1 == l2,
    decreases l1.len(),
{
    if l1.len() == 0 || l2.len() == 0 {
        if l1.len() > 0 {
            lemma_ascending_drop_last(l1);
            assert(!assoc_map(l2).contains_key(l1.last().0));
        } else if l2.len() > 0 {
            lemma_ascending_drop_last(l2);
            assert(!assoc_map(l1).contains_key(l2.last().0));
        }
        assert(l1 =~= l2);
    } else {
        let k1 = l1.last().0;
        let k2 = l2.last().0;
        lemma_ascending_drop_last(l1);
        lemma_ascending_drop_last(l2);
        if k1 != k2 {
            lemma_assoc_map_contains(l2, k1);
            lemma_assoc_map_contains(l1, k2);
            let j = choose|j: int| 0 <= j < l2.len() && (#[trigger] l2[j]).0 == k1;
            let i = choose|i: int| 0 <= i < l1.len() && (#[trigger] l1[i]).0 == k2;
            assert(j < l2.len() - 1);
            assert(i < l1.len() - 1);
            assert(text_less(l2[j].0, l2[l2.len() - 1].0));
            assert(text_less(l1[i].0, l1[l1.len() - 1].0));
            lemma_text_less_transitive(k1, k2, k1);
            lemma_text_less_irreflexive(k1);
        }
        assert(l1.last().1 == assoc_map(l1)[k1]);
        assert(l2.last().1 == assoc_map(l2)[k2]);
        lemma_ascending_lists_equal(l1.drop_last(), l2.drop_last());
        assert(l1 =~= l1.drop_last().push(l1.last()));
        assert(l2 =~= l2.drop_last().push(l2.last()));
    }
}

/// Inserts `key -> value`, replacing the value of an equal key, keeping the keys ascending:
/// what `BTreeMap::insert` does to the map and its walk order.
pub fn assoc_insert(list: &mut Vec<(String, String)>, key: String, value: String)
    requires
        keys_ascending(pairs_view(old(list)@)),
    ensures
        keys_ascending(pairs_view(final(list)@)),
        assoc_map(pairs_view(final(list)@)) == assoc_map(pairs_view(old(list)@)).insert(key@, value@),
{
    let ghost old_l = pairs_view(list@);
    let kv = chars_of(key.as_str());
    let mut i: usize = 0;
    // find the first entry whose key is not below `key`
    while i < list.len() && str_less(list[i].0.as_str(), key.as_str())
        invariant
            0 <= i <= list@.len(),
            kv@ == key@,
            old_l == pairs_view(list@),
            keys_ascending(old_l),
            forall|k: int| 0 <= k < i ==> text_less(#[trigger] old_l[k].0, key@),
        decreases list.len() - i,
    {
        i = i + 1;
    }
    let ghost n = list@.len();
    if i < list.len() && chars_eq_str(&kv, list[i].0.as_str()) {
        // replace the value of the equal key
        list.set(i, (key, value));
        proof {
            let new_l = pairs_view(list@);
            assert(new_l =~= old_l.update(i as int, (key@, value@)));
            assert(keys_ascending(new_l)) by {
                assert forall|a: int, b: int| 0 <= a < b < new_l.len() implies text_less(
                    #[trigger] new_l[a].0,
                    #[trigger] new_l[b].0,
                ) by {
                    assert(new_l[a].0 == old_l[a].0 && new_l[b].0 == old_l[b].0);
                }
            }
            assert(assoc_map(new_l) =~= assoc_map(old_l).insert(key@, value@)) by {
                lemma_same_keys_after_update(old_l, i as int, value@);
            }
        }
    } else {
        proof {
            if i < n {
                lemma_text_less_total(key@, old_l[i as int].0);
            }
        }
        list.insert(i, (key, value));
        proof {
            let new_l = pairs_view(list@);
            assert(new_l =~= old_l.insert(i as int, (key@, value@)));
            assert(keys_ascending(new_l)) by {
                assert forall|a: int, b: int| 0 <= a < b < new_l.len() implies text_less(
                    #[trigger] new_l[a].0,
                    #[trigger] new_l[b].0,
                ) by {
                    if a < i && b == i {
                    } else if a < i && b > i {
                        assert(new_l[b] == old_l[b - 1]);
                        assert(text_less(old_l[a].0, key@));
                        assert(text_less(key@, old_l[i as int].0));
                        if b - 1 > i {
                            lemma_text_less_transitive(key@, old_l[i as int].0, old_l[b - 1].0);
                        }
                        lemma_text_less_transitive(old_l[a].0, key@, old_l[b - 1].0);
                    } else if a == i && b > i {
                        assert(new_l[b] == old_l[b - 1]);
                        if b - 1 > i {
                            lemma_text_less_transitive(key@, old_l[i as int].0, old_l[b - 1].0);
                        }
                    } else if a > i {
                        assert(new_l[a] == old_l[a - 1] && new_l[b] == old_l[b - 1]);
                    } else {
                        assert(new_l[a] == old_l[a] && new_l[b] == old_l[b]);
                    }
                }
            }
            lemma_insert_map(old_l, i as int, key@, value@);
        }
    }
}

proof fn lemma_map_ext<V>(l: Seq<(Seq<char>, V)>, m: Map<Seq<char>, V>)
    requires
        keys_ascending(l),
        forall|k: Seq<char>| #[trigger] m.contains_key(k) <==> exists|i: int| 0 <= i < l.len() && (#[trigger] l[i]).0 == k,
        forall|i: int| 0 <= i < l.len() ==> m[(#[trigger] l[i]).0] == l[i].1,
    ensures
        assoc_map(l) =~= m,
{
    assert forall|k: Seq<char>| #[trigger] assoc_map(l).contains_key(k) <==> m.contains_key(k) by {
        lemma_assoc_map_contains(l, k);
    }
    assert forall|k: Seq<char>| #[trigger] assoc_map(l).contains_key(k) implies assoc_map(l)[k] == m[k] by {
        lemma_assoc_map_contains(l, k);
        let i = choose|i: int| 0 <= i < l.len() && (#[trigger] l[i]).0 == k;
        lemma_assoc_map_index(l, i);
    }
}

proof fn lemma_same_keys_after_update<V>(l: Seq<(Seq<char>, V)>, i: int, v: V)
    requires
        keys_ascending(l),
        0 <= i < l.len(),
    ensures
        assoc_map(l.update(i, (l[i].0, v))) =~= assoc_map(l).insert(l[i].0, v),
{
    let nl = l.update(i, (l[i].0, v));
    let m = assoc_map(l).insert(l[i].0, v);
    assert(keys_ascending(nl)) by {
        assert forall|a: int, b: int| 0 <= a < b < nl.len() implies text_less(
            #[trigger] nl[a].0,
            #[trigger] nl[b].0,
        ) by {
            assert(nl[a].0 == l[a].0 && nl[b].0 == l[b].0);
        }
    }
    assert forall|k: Seq<char>| #[trigger] m.contains_key(k) <==> exists|j: int| 0 <= j < nl.len() && (#[trigger] nl[j]).0 == k by {
        lemma_assoc_map_contains(l, k);
        if exists|j: int| 0 <= j < l.len() && (#[trigger] l[j]).0 == k {
            let j = choose|j: int| 0 <= j < l.len() && (#[trigger] l[j]).0 == k;
            assert(nl[j].0 == k);
        }
        if exists|j: int| 0 <= j < nl.len() && (#[trigger] nl[j]).0 == k {
            let j = choose|j: int| 0 <= j < nl.len() && (#[trigger] nl[j]).0 == k;
            assert(l[j].0 == k);
        }
    }
    assert forall|j: int| 0 <= j < nl.len() implies m[(#[trigger] nl[j]).0] == nl[j].1 by {
        if j != i {
            lemma_assoc_map_index(l, j);
            lemma_text_less_total(l[j].0, l[i].0);
            if j < i {
                assert(text_less(l[j].0, l[i].0));
                lemma_text_less_irreflexive(l[i].0);
            } else {
                assert(text_less(l[i].0, l[j].0));
                lemma_text_less_irreflexive(l[i].0);
            }
        }
    }
    lemma_map_ext(nl, m);
}

proof fn lemma_insert_map<V>(l: Seq<(Seq<char>, V)>, i: int, k: Seq<char>, v: V)
    requires
        keys_ascending(l),
        keys_ascending(l.insert(i, (k, v))),
        0 <= i <= l.len(),
    ensures
        assoc_map(l.insert(i, (k, v))) =~= assoc_map(l).insert(k, v),
{
    let nl = l.insert(i, (k, v));
    let m = assoc_map(l).insert(k, v);
    assert forall|key: Seq<char>| #[trigger] m.contains_key(key) <==> exists|j: int| 0 <= j < nl.len() && (#[trigger] nl[j]).0 == key by {
        lemma_assoc_map_contains(l, key);
        if exists|j: int| 0 <= j < l.len() && (#[trigger] l[j]).0 == key {
            let j = choose|j: int| 0 <= j < l.len() && (#[trigger] l[j]).0 == key;
            if j < i {
                assert(nl[j] == l[j]);
            } else {
                assert(nl[j + 1] == l[j]);
            }
        }
        if key == k {
            assert(nl[i].0 == k);
        }
        if exists|j: int| 0 <= j < nl.len() && (#[trigger] nl[j]).0 == key {
            let j = choose|j: int| 0 <= j < nl.len() && (#[trigger] nl[j]).0 == key;
            if j < i {
                assert(l[j] == nl[j]);
            } else if j > i {
                assert(l[j - 1] == nl[j]);
            }
        }
    }
    assert forall|j: int| 0 <= j < nl.len() implies m[(#[trigger] nl[j]).0] == nl[j].1 by {
        if j != i {
            let lj = if j < i { j } else { j - 1 };
            assert(nl[j] == l[lj]);
            lemma_assoc_map_index(l, lj);
            if j < i {
                assert(text_less(nl[j].0, nl[i].0));
            } else {
                assert(text_less(nl[i].0, nl[j].0));
            }
            lemma_text_less_irreflexive(k);
        }
    }
    lemma_map_ext(nl, m);
}

} // verus!
