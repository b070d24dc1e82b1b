//! Tables keyed by text, kept as sequences of pairs in which no key occurs
//! twice, and read as maps.

use vstd::prelude::*;

verus! {

/// The map that a sequence of pairs stands for; of two pairs with one key
/// the later counts.
pub open spec fn keyed<V>(pairs: Seq<(Seq<char>, V)>) -> Map<Seq<char>, V>
    decreases pairs.len(),
{
    if pairs.len() == 0 {
        Map::empty()
    } else {
        keyed(pairs.drop_last()).insert(pairs.last().0, pairs.last().1)
    }
}

/// Whether no key occurs twice.
pub open spec fn distinct_keys<V>(pairs: Seq<(Seq<char>, V)>) -> bool {
    forall|i: int, j: int|
        0 <= i < j < pairs.len() ==> (#[trigger] pairs[i]).0 != (#[trigger] pairs[j]).0
}

/// Whether the key occurs.
pub open spec fn has_key<V>(pairs: Seq<(Seq<char>, V)>, key: Seq<char>) -> bool {
    exists|i: int| 0 <= i < pairs.len() && (#[trigger] pairs[i]).0 == key
}

/// The map holds exactly the keys that occur, and it is finite.
pub proof fn lemma_keyed_keys<V>(pairs: Seq<(Seq<char>, V)>)
    ensures
        keyed(pairs).dom().finite(),
        forall|key: Seq<char>| #[trigger] keyed(pairs).contains_key(key) <==> has_key(pairs, key),
    decreases pairs.len(),
{
    if pairs.len() > 0 {
        let front = pairs.drop_last();
        lemma_keyed_keys(front);
        assert forall|key: Seq<char>| #[trigger]
            keyed(pairs).contains_key(key) <==> has_key(pairs, key) by {
            if keyed(pairs).contains_key(key) {
                if key == pairs.last().0 {
                    assert(pairs[pairs.len() - 1].0 == key);
                } else {
                    assert(has_key(front, key));
                    let i = choose|i: int| 0 <= i < front.len() && (#[trigger] front[i]).0 == key;
                    assert(pairs[i].0 == key);
                }
            }
            if has_key(pairs, key) {
                let i = choose|i: int| 0 <= i < pairs.len() && (#[trigger] pairs[i]).0 == key;
                if i < front.len() {
                    assert(front[i].0 == key);
                    assert(has_key(front, key));
                }
            }
        }
    }
}

/// Where no key occurs twice, the map holds under each key the value that
/// stands beside it.
pub proof fn lemma_keyed_value<V>(pairs: Seq<(Seq<char>, V)>, i: int)
    requires
        distinct_keys(pairs),
        0 <= i < pairs.len(),
    ensures
        keyed(pairs).contains_key(pairs[i].0),
        keyed(pairs)[pairs[i].0] == pairs[i].1,
    decreases pairs.len(),
{
    let front = pairs.drop_last();
    if i < pairs.len() - 1 {
        assert(distinct_keys(front)) by {
            assert forall|a: int, b: int| 0 <= a < b < front.len() implies (#[trigger] front[a]).0
                != (#[trigger] front[b]).0 by {
                assert(pairs[a].0 != pairs[b].0);
            }
        }
        lemma_keyed_value(front, i);
        assert(front[i] == pairs[i]);
        assert(pairs[i].0 != pairs[pairs.len() - 1].0);
    }
}

/// One more pair is one more entry of the map.
pub proof fn lemma_keyed_push<V>(pairs: Seq<(Seq<char>, V)>, key: Seq<char>, value: V)
    ensures
        keyed(pairs.push((key, value))) == keyed(pairs).insert(key, value),
        distinct_keys(pairs) && !has_key(pairs, key) ==> distinct_keys(pairs.push((key, value))),
{
    let longer = pairs.push((key, value));
    assert(longer.drop_last() =~= pairs);
    if distinct_keys(pairs) && !has_key(pairs, key) {
        assert forall|a: int, b: int| 0 <= a < b < longer.len() implies (#[trigger] longer[a]).0
            != (#[trigger] longer[b]).0 by {
            if b < pairs.len() {
                assert(pairs[a].0 != pairs[b].0);
            } else {
                assert(pairs[a].0 != key);
            }
        }
    }
}

/// Where no key occurs twice, a pair less is an entry less.
pub proof fn lemma_keyed_remove<V>(pairs: Seq<(Seq<char>, V)>, i: int)
    requires
        distinct_keys(pairs),
        0 <= i < pairs.len(),
    ensures
        keyed(pairs.remove(i)) == keyed(pairs).remove(pairs[i].0),
        distinct_keys(pairs.remove(i)),
        !has_key(pairs.remove(i), pairs[i].0),
    decreases pairs.len(),
{
    let shorter = pairs.remove(i);
    let front = pairs.drop_last();
    assert(distinct_keys(shorter)) by {
        assert forall|a: int, b: int| 0 <= a < b < shorter.len() implies (#[trigger] shorter[a]).0
            != (#[trigger] shorter[b]).0 by {
            let a0 = if a < i {
                a
            } else {
                a + 1
            };
            let b0 = if b < i {
                b
            } else {
                b + 1
            };
            assert(pairs[a0].0 != pairs[b0].0);
        }
    }
    assert(!has_key(shorter, pairs[i].0)) by {
        assert forall|a: int| 0 <= a < shorter.len() implies (#[trigger] shorter[a]).0
            != pairs[i].0 by {
            let a0 = if a < i {
                a
            } else {
                a + 1
            };
            if a0 < i {
                assert(pairs[a0].0 != pairs[i].0);
            } else {
                assert(pairs[i].0 != pairs[a0].0);
            }
        }
    }
    assert(distinct_keys(front)) by {
        assert forall|a: int, b: int| 0 <= a < b < front.len() implies (#[trigger] front[a]).0
            != (#[trigger] front[b]).0 by {
            assert(pairs[a].0 != pairs[b].0);
        }
    }
    if i == pairs.len() - 1 {
        assert(shorter =~= front);
        lemma_keyed_keys(front);
        assert(!has_key(front, pairs[i].0));
        assert(keyed(front) =~= keyed(pairs).remove(pairs[i].0));
    } else {
        lemma_keyed_remove(front, i);
        assert(front[i] == pairs[i]);
        assert(shorter.drop_last() =~= front.remove(i));
        assert(shorter.last() == pairs.last());
        assert(pairs[i].0 != pairs[pairs.len() - 1].0);
        assert(keyed(shorter) =~= keyed(pairs).remove(pairs[i].0));
    }
}

} // verus!
