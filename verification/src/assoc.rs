//! A sequence of key-value rows read as a finite map, for stores kept in a `Vec`.

use vstd::prelude::*;

verus! {

/// The map that a sequence of rows stands for: each row binds its key to its value.
pub open spec fn to_map<K, V>(rows: Seq<(K, V)>) -> Map<K, V>
    decreases rows.len(),
{
    if rows.len() == 0 {
        Map::empty()
    } else {
        to_map(rows.drop_last()).insert(rows.last().0, rows.last().1)
    }
}

/// No key stands in two rows.
pub open spec fn distinct_keys<K, V>(rows: Seq<(K, V)>) -> bool {
    forall|i: int, j: int| 0 <= i < j < rows.len() ==> rows[i].0 != rows[j].0
}

/// Some row carries the key `k`.
pub open spec fn has_key<K, V>(rows: Seq<(K, V)>, k: K) -> bool {
    exists|i: int| 0 <= i < rows.len() && (#[trigger] rows[i]).0 == k
}

/// The map has a finite domain, made of exactly the keys of the rows.
pub proof fn lemma_to_map_dom<K, V>(rows: Seq<(K, V)>)
    ensures
        to_map(rows).dom().finite(),
        forall|k: K|
            #![trigger to_map(rows).dom().contains(k)]
            #![trigger has_key(rows, k)]
            to_map(rows).dom().contains(k) <==> has_key(rows, k),
    decreases rows.len(),
{
    if rows.len() > 0 {
        let front = rows.drop_last();
        lemma_to_map_dom(front);
        assert forall|k: K|
            #![trigger to_map(rows).dom().contains(k)]
            #![trigger has_key(rows, k)]
            to_map(rows).dom().contains(k) <==> has_key(rows, k) by {
            if has_key(rows, k) {
                let i = choose|i: int| 0 <= i < rows.len() && (#[trigger] rows[i]).0 == k;
                if i < front.len() {
                    assert(front[i].0 == k);
                    assert(has_key(front, k));
                }
            }
            if to_map(rows).dom().contains(k) {
                if k == rows.last().0 {
                    assert(rows[rows.len() - 1].0 == k);
                } else {
                    assert(has_key(front, k));
                    let i = choose|i: int| 0 <= i < front.len() && (#[trigger] front[i]).0 == k;
                    assert(rows[i].0 == k);
                }
            }
        }
    }
}

/// With distinct keys, the map gives each row's key that row's value.
pub proof fn lemma_to_map_row<K, V>(rows: Seq<(K, V)>, i: int)
    requires
        distinct_keys(rows),
        0 <= i < rows.len(),
    ensures
        to_map(rows).dom().contains(rows[i].0),
        to_map(rows)[rows[i].0] == rows[i].1,
    decreases rows.len(),
{
    if i < rows.len() - 1 {
        lemma_to_map_row(rows.drop_last(), i);
    }
}

/// Adding a row writes its key into the map.
pub proof fn lemma_to_map_push<K, V>(rows: Seq<(K, V)>, k: K, v: V)
    ensures
        to_map(rows.push((k, v))) == to_map(rows).insert(k, v),
        distinct_keys(rows) && !has_key(rows, k) ==> distinct_keys(rows.push((k, v))),
{
    assert(rows.push((k, v)).drop_last() =~= rows);
    if distinct_keys(rows) && !has_key(rows, k) {
        let grown = rows.push((k, v));
        assert forall|i: int, j: int| 0 <= i < j < grown.len() implies grown[i].0 != grown[j].0 by {
            if j == rows.len() {
                assert(rows[i].0 != k);
            }
        }
    }
}

/// Replacing the value of row `i` replaces the value of its key in the map and nothing else.
pub proof fn lemma_to_map_update<K, V>(rows: Seq<(K, V)>, i: int, v: V)
    requires
        distinct_keys(rows),
        0 <= i < rows.len(),
    ensures
        to_map(rows.update(i, (rows[i].0, v))) == to_map(rows).insert(rows[i].0, v),
        distinct_keys(rows.update(i, (rows[i].0, v))),
    decreases rows.len(),
{
    let changed = rows.update(i, (rows[i].0, v));
    let front = rows.drop_last();
    if i == rows.len() - 1 {
        assert(changed.drop_last() =~= front);
        assert(to_map(changed) =~= to_map(rows).insert(rows[i].0, v));
    } else {
        lemma_to_map_update(front, i, v);
        assert(changed.drop_last() =~= front.update(i, (rows[i].0, v)));
        assert(rows[i].0 != rows[rows.len() - 1].0);
        assert(to_map(changed) =~= to_map(rows).insert(rows[i].0, v));
    }
}

/// Taking row `i` out takes its key out of the map and nothing else.
pub proof fn lemma_to_map_remove<K, V>(rows: Seq<(K, V)>, i: int)
    requires
        distinct_keys(rows),
        0 <= i < rows.len(),
    ensures
        to_map(rows.remove(i)) == to_map(rows).remove(rows[i].0),
        distinct_keys(rows.remove(i)),
    decreases rows.len(),
{
    let rest = rows.remove(i);
    let front = rows.drop_last();
    if i == rows.len() - 1 {
        assert(rest =~= front);
        lemma_to_map_dom(front);
        assert(!has_key(front, rows[i].0)) by {
            if has_key(front, rows[i].0) {
                let j = choose|j: int| 0 <= j < front.len() && (#[trigger] front[j]).0 == rows[i].0;
                assert(rows[j].0 == rows[i].0);
            }
        }
        assert(to_map(rest) =~= to_map(rows).remove(rows[i].0));
    } else {
        lemma_to_map_remove(front, i);
        assert(rest.drop_last() =~= front.remove(i));
        assert(rest.last() == rows.last());
        assert(rows[i].0 != rows[rows.len() - 1].0);
        assert(to_map(rest) =~= to_map(rows).remove(rows[i].0));
    }
}

} // verus!
