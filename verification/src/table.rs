//! Lists of keys and values read as maps.

use vstd::prelude::*;

verus! {

/// Each key occurs once.
pub open spec fn distinct<K, V>(s: Seq<(K, V)>) -> bool {
    forall|i: int, j: int| 0 <= i < j < s.len() ==> (#[trigger] s[i]).0 != (#[trigger] s[j]).0
}

/// The map that a list of keys and values stands for.
pub open spec fn map_of<K, V>(s: Seq<(K, V)>) -> Map<K, V> {
    Map::new(
        |k: K| exists|i: int| 0 <= i < s.len() && (#[trigger] s[i]).0 == k,
        |k: K| s[choose|i: int| 0 <= i < s.len() && (#[trigger] s[i]).0 == k].1,
    )
}

/// The value at a position is the value of its key.
pub proof fn lemma_map_at<K, V>(s: Seq<(K, V)>, i: int)
    requires
        distinct(s),
        0 <= i < s.len(),
    ensures
        map_of(s).dom().contains(s[i].0),
        map_of(s)[s[i].0] == s[i].1,
{
    let k = s[i].0;
    let j = choose|j: int| 0 <= j < s.len() && (#[trigger] s[j]).0 == k;
    assert(s[i].0 == k);
    assert(i == j) by {
        if i < j {
            assert(s[i].0 != s[j].0);
        } else if j < i {
            assert(s[j].0 != s[i].0);
        }
    }
}

/// A key that stands nowhere in the list has no value.
pub proof fn lemma_map_absent<K, V>(s: Seq<(K, V)>, k: K)
    requires
        forall|i: int| 0 <= i < s.len() ==> (#[trigger] s[i]).0 != k,
    ensures
        !map_of(s).dom().contains(k),
{
}

/// Appending a new key adds it.
pub proof fn lemma_map_push<K, V>(s: Seq<(K, V)>, k: K, v: V)
    requires
        distinct(s),
        !map_of(s).dom().contains(k),
    ensures
        distinct(s.push((k, v))),
        map_of(s.push((k, v))) == map_of(s).insert(k, v),
{
    let t = s.push((k, v));
    assert forall|i: int, j: int| 0 <= i < j < t.len() implies (#[trigger] t[i]).0 != (
    #[trigger] t[j]).0 by {
        if j == s.len() {
            assert(s[i].0 != k);
        } else {
            assert(s[i].0 != s[j].0);
        }
    }
    assert forall|q: K| #[trigger]
        map_of(t).dom().contains(q) == map_of(s).insert(k, v).dom().contains(q) by {
        if map_of(t).dom().contains(q) {
            let i = choose|i: int| 0 <= i < t.len() && (#[trigger] t[i]).0 == q;
            if i < s.len() {
                assert(s[i].0 == q);
            }
        }
        if map_of(s).dom().contains(q) {
            let i = choose|i: int| 0 <= i < s.len() && (#[trigger] s[i]).0 == q;
            assert(t[i].0 == q);
        }
        assert(t[s.len() as int].0 == k);
    }
    assert forall|q: K| map_of(t).dom().contains(q) implies #[trigger] map_of(t)[q] == map_of(
        s,
    ).insert(k, v)[q] by {
        let i = choose|i: int| 0 <= i < t.len() && (#[trigger] t[i]).0 == q;
        lemma_map_at(t, i);
        if i < s.len() {
            lemma_map_at(s, i);
            assert(s[i].0 == q);
        }
    }
    assert(map_of(t) =~= map_of(s).insert(k, v));
}

/// Replacing a value in place replaces it in the map.
pub proof fn lemma_map_update<K, V>(s: Seq<(K, V)>, n: int, v: V)
    requires
        distinct(s),
        0 <= n < s.len(),
    ensures
        distinct(s.update(n, (s[n].0, v))),
        map_of(s.update(n, (s[n].0, v))) == map_of(s).insert(s[n].0, v),
{
    let t = s.update(n, (s[n].0, v));
    assert forall|i: int, j: int| 0 <= i < j < t.len() implies (#[trigger] t[i]).0 != (
    #[trigger] t[j]).0 by {
        assert(s[i].0 != s[j].0);
    }
    assert forall|q: K| #[trigger]
        map_of(t).dom().contains(q) == map_of(s).insert(s[n].0, v).dom().contains(q) by {
        if map_of(t).dom().contains(q) {
            let i = choose|i: int| 0 <= i < t.len() && (#[trigger] t[i]).0 == q;
            assert(s[i].0 == q);
        }
        if map_of(s).dom().contains(q) {
            let i = choose|i: int| 0 <= i < s.len() && (#[trigger] s[i]).0 == q;
            assert(t[i].0 == q);
        }
        assert(t[n].0 == s[n].0);
    }
    assert forall|q: K| map_of(t).dom().contains(q) implies #[trigger] map_of(t)[q] == map_of(
        s,
    ).insert(s[n].0, v)[q] by {
        let i = choose|i: int| 0 <= i < t.len() && (#[trigger] t[i]).0 == q;
        lemma_map_at(t, i);
        lemma_map_at(s, i);
        if i != n {
            if i < n {
                assert(s[i].0 != s[n].0);
            } else {
                assert(s[n].0 != s[i].0);
            }
        }
    }
    assert(map_of(t) =~= map_of(s).insert(s[n].0, v));
}

/// Taking a position out removes its key.
pub proof fn lemma_map_remove<K, V>(s: Seq<(K, V)>, n: int)
    requires
        distinct(s),
        0 <= n < s.len(),
    ensures
        distinct(s.remove(n)),
        map_of(s.remove(n)) == map_of(s).remove(s[n].0),
{
    let t = s.remove(n);
    assert forall|i: int| 0 <= i < t.len() implies #[trigger] t[i] == s[if i < n { i } else { i + 1 }] by {
    }
    assert forall|i: int, j: int| 0 <= i < j < t.len() implies (#[trigger] t[i]).0 != (
    #[trigger] t[j]).0 by {
        let a = if i < n { i } else { i + 1 };
        let b = if j < n { j } else { j + 1 };
        assert(s[a].0 != s[b].0);
    }
    assert forall|q: K| #[trigger]
        map_of(t).dom().contains(q) == map_of(s).remove(s[n].0).dom().contains(q) by {
        if map_of(t).dom().contains(q) {
            let i = choose|i: int| 0 <= i < t.len() && (#[trigger] t[i]).0 == q;
            let a = if i < n { i } else { i + 1 };
            assert(s[a].0 == q);
            if a < n {
                assert(s[a].0 != s[n].0);
            } else {
                assert(s[n].0 != s[a].0);
            }
        }
        if map_of(s).dom().contains(q) && q != s[n].0 {
            let i = choose|i: int| 0 <= i < s.len() && (#[trigger] s[i]).0 == q;
            let b = if i < n { i } else { i - 1 };
            assert(t[b].0 == q);
        }
    }
    assert forall|q: K| map_of(t).dom().contains(q) implies #[trigger] map_of(t)[q] == map_of(
        s,
    ).remove(s[n].0)[q] by {
        let i = choose|i: int| 0 <= i < t.len() && (#[trigger] t[i]).0 == q;
        lemma_map_at(t, i);
        lemma_map_at(s, if i < n { i } else { i + 1 });
    }
    assert(map_of(t) =~= map_of(s).remove(s[n].0));
}

/// A map has as many keys as its list has entries.
pub proof fn lemma_map_size<K, V>(s: Seq<(K, V)>)
    requires
        distinct(s),
    ensures
        map_of(s).dom().finite(),
        map_of(s).dom().len() == s.len(),
    decreases s.len(),
{
    if s.len() == 0 {
        assert(map_of(s).dom() =~= Set::empty());
    } else {
        let t = s.drop_last();
        let (k, v) = s.last();
        assert(distinct(t));
        lemma_map_size(t);
        lemma_map_absent(t, k);
        lemma_map_push(t, k, v);
        assert(t.push((k, v)) =~= s);
        assert(map_of(s).dom() =~= map_of(t).dom().insert(k));
    }
}

} // verus!
