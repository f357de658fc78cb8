//! Lists of named entries, read as maps from names.

use vstd::prelude::*;

verus! {

/// Whether some entry of the list has the name.
pub open spec fn has_key<V>(s: Seq<(Seq<char>, V)>, k: Seq<char>) -> bool {
    exists|i: int| 0 <= i < s.len() && (#[trigger] s[i]).0 == k
}

/// The place of an entry that has the name.
pub open spec fn index_of<V>(s: Seq<(Seq<char>, V)>, k: Seq<char>) -> int {
    choose|i: int| 0 <= i < s.len() && (#[trigger] s[i]).0 == k
}

/// Whether no two entries of the list have the same name.
pub open spec fn distinct<V>(s: Seq<(Seq<char>, V)>) -> bool {
    forall|i: int, j: int| 0 <= i < j < s.len() ==> (#[trigger] s[i]).0 != (#[trigger] s[j]).0
}

/// The map that a list of named entries stands for.
pub open spec fn to_map<V>(s: Seq<(Seq<char>, V)>) -> Map<Seq<char>, V> {
    Map::new(|k: Seq<char>| has_key(s, k), |k: Seq<char>| s[index_of(s, k)].1)
}

/// The map holds each entry under its name.
pub proof fn lemma_to_map_at<V>(s: Seq<(Seq<char>, V)>, i: int)
    requires
        distinct(s),
        0 <= i < s.len(),
    ensures
        to_map(s).contains_key(s[i].0),
        to_map(s)[s[i].0] == s[i].1,
{
    let k = s[i].0;
    assert(has_key(s, k));
    let j = index_of(s, k);
    assert(0 <= j < s.len() && s[j].0 == k);
    if j < i {
        assert(s[j].0 != s[i].0);
    } else if i < j {
        assert(s[i].0 != s[j].0);
    }
}

/// The map holds nothing under a name that no entry has.
pub proof fn lemma_to_map_absent<V>(s: Seq<(Seq<char>, V)>, k: Seq<char>)
    requires
        forall|i: int| 0 <= i < s.len() ==> (#[trigger] s[i]).0 != k,
    ensures
        !to_map(s).contains_key(k),
{
}

/// A new entry under a new name is an insertion into the map.
pub proof fn lemma_to_map_push<V>(s: Seq<(Seq<char>, V)>, k: Seq<char>, v: V)
    requires
        distinct(s),
        !has_key(s, k),
    ensures
        distinct(s.push((k, v))),
        to_map(s.push((k, v))) == to_map(s).insert(k, v),
{
    let t = s.push((k, v));
    assert forall|i: int, j: int| 0 <= i < j < t.len() implies (#[trigger] t[i]).0 != (
    #[trigger] t[j]).0 by {
        if j < s.len() {
            assert(s[i].0 != s[j].0);
        } else {
            assert(s[i].0 != k);
        }
    }
    assert forall|q: Seq<char>| has_key(t, q) <==> (has_key(s, q) || q == k) by {
        if has_key(s, q) {
            let i = index_of(s, q);
            assert(t[i].0 == q);
        }
        if q == k {
            assert(t[s.len() as int].0 == q);
        }
        if has_key(t, q) {
            let i = index_of(t, q);
            if i < s.len() {
                assert(s[i].0 == q);
            }
        }
    }
    assert forall|q: Seq<char>| has_key(t, q) implies #[trigger] to_map(t)[q] == to_map(s).insert(
        k,
        v,
    )[q] by {
        let i = index_of(t, q);
        lemma_to_map_at(t, i);
        if i < s.len() {
            assert(s[i] == t[i]);
            lemma_to_map_at(s, i);
        }
    }
    assert(to_map(t) =~= to_map(s).insert(k, v));
}

/// A new value for an entry is an insertion into the map under its name.
pub proof fn lemma_to_map_update<V>(s: Seq<(Seq<char>, V)>, i: int, v: V)
    requires
        distinct(s),
        0 <= i < s.len(),
    ensures
        distinct(s.update(i, (s[i].0, v))),
        to_map(s.update(i, (s[i].0, v))) == to_map(s).insert(s[i].0, v),
{
    let k = s[i].0;
    let t = s.update(i, (k, v));
    assert forall|a: int, b: int| 0 <= a < b < t.len() implies (#[trigger] t[a]).0 != (
    #[trigger] t[b]).0 by {
        assert(s[a].0 != s[b].0);
    }
    assert forall|q: Seq<char>| has_key(t, q) <==> has_key(s, q) by {
        if has_key(s, q) {
            let j = index_of(s, q);
            assert(t[j].0 == q);
        }
        if has_key(t, q) {
            let j = index_of(t, q);
            assert(s[j].0 == q);
        }
    }
    assert(has_key(s, k)) by {
        assert(s[i].0 == k);
    }
    assert forall|q: Seq<char>| has_key(t, q) implies #[trigger] to_map(t)[q] == to_map(s).insert(
        k,
        v,
    )[q] by {
        let j = index_of(t, q);
        lemma_to_map_at(t, j);
        if j != i {
            assert(s[j] == t[j]);
            lemma_to_map_at(s, j);
            if j < i {
                assert(s[j].0 != s[i].0);
            } else {
                assert(s[i].0 != s[j].0);
            }
        }
    }
    assert(to_map(t) =~= to_map(s).insert(k, v));
}

/// The entries before a place have other names than the entry at it.
pub proof fn lemma_take_lacks<V>(s: Seq<(Seq<char>, V)>, i: int)
    requires
        distinct(s),
        0 <= i < s.len(),
    ensures
        !has_key(s.take(i), s[i].0),
        distinct(s.take(i)),
        s.take(i + 1) == s.take(i).push(s[i]),
{
    let t = s.take(i);
    if has_key(t, s[i].0) {
        let j = index_of(t, s[i].0);
        assert(t[j] == s[j]);
        assert(s[j].0 != s[i].0);
    }
    assert forall|a: int, b: int| 0 <= a < b < t.len() implies (#[trigger] t[a]).0 != (
    #[trigger] t[b]).0 by {
        assert(s[a].0 != s[b].0);
    }
    assert(s.take(i + 1) =~= s.take(i).push(s[i]));
}

} // verus!
