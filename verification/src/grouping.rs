//! Rows by identifier.

use std::collections::HashMap;
use vstd::prelude::*;

verus! {

broadcast use vstd::std_specs::hash::group_hash_axioms;

/// The map of the first `n` rows, later ones over earlier ones.
pub open spec fn rows_map<V>(rows: Seq<(u128, V)>, n: int) -> Map<u128, V>
    decreases n,
{
    if n <= 0 {
        Map::empty()
    } else {
        rows_map(rows, n - 1).insert(rows[n - 1].0, rows[n - 1].1)
    }
}

/// Rows by identifier; of several with one identifier the last stays.
pub fn by_id<V>(rows: Vec<(u128, V)>) -> (r: HashMap<u128, V>)
    ensures
        r@ == rows_map(rows@, rows@.len() as int),
{
    let ghost all = rows@;
    let mut map: HashMap<u128, V> = HashMap::with_capacity(rows.len());
    for row in it: rows
        invariant
            it.seq() == all,
            map@ == rows_map(all, it.index() as int),
    {
        let (id, value): (u128, V) = row;
        map.insert(id, value);
    }
    map
}

/// The values of the first `n` rows with an identifier, in order.
pub open spec fn values_of<V>(rows: Seq<(u128, V)>, id: u128, n: int) -> Seq<V>
    decreases n,
{
    if n <= 0 {
        Seq::empty()
    } else if rows[n - 1].0 == id {
        values_of(rows, id, n - 1).push(rows[n - 1].1)
    } else {
        values_of(rows, id, n - 1)
    }
}

/// Whether a map gives an identifier the values of its first `n` rows, and is
/// silent on one without any.
pub open spec fn gives_values<V>(
    map: Map<u128, Vec<V>>,
    rows: Seq<(u128, V)>,
    n: int,
    id: u128,
) -> bool {
    if values_of(rows, id, n).len() == 0 {
        !map.contains_key(id)
    } else {
        map.contains_key(id) && map[id]@ == values_of(rows, id, n)
    }
}

/// Whether a map gives every identifier the values of its rows.
pub open spec fn groups<V>(map: Map<u128, Vec<V>>, rows: Seq<(u128, V)>) -> bool {
    forall|id: u128| #[trigger] gives_values(map, rows, rows.len() as int, id)
}

/// The values of rows by identifier, each list in the order of the rows.
pub fn group_by_id<V>(rows: Vec<(u128, V)>) -> (r: HashMap<u128, Vec<V>>)
    ensures
        groups(r@, rows@),
        forall|id: u128| #[trigger] gives_values(r@, rows@, rows@.len() as int, id),
{
    let ghost all = rows@;
    let mut map: HashMap<u128, Vec<V>> = HashMap::new();
    for row in it: rows
        invariant
            it.seq() == all,
            forall|id: u128| #[trigger] gives_values(map@, all, it.index() as int, id),
    {
        let ghost before = map@;
        let ghost n = it.index();
        let (key, value): (u128, V) = row;
        assert(gives_values(before, all, n as int, key));
        let mut list = match map.remove(&key) {
            Some(list) => list,
            None => Vec::new(),
        };
        let ghost held = list@;
        assert(held =~= values_of(all, key, n as int));
        list.push(value);
        map.insert(key, list);
        assert forall|id: u128| #[trigger] gives_values(map@, all, n + 1, id) by {
            assert(gives_values(before, all, n as int, id));
        }
    }
    map
}

/// No row is lost in grouping and none is made up: an identifier is there
/// exactly if a row has it.
pub proof fn law_grouping_keeps_identifiers<V>(map: Map<u128, Vec<V>>, rows: Seq<(u128, V)>, id: u128)
    requires
        gives_values(map, rows, rows.len() as int, id),
    ensures
        map.contains_key(id) <==> exists|i: int| 0 <= i < rows.len() && (#[trigger] rows[i]).0 == id,
{
    lemma_values_of(rows, id, rows.len() as int);
}

proof fn lemma_values_of<V>(rows: Seq<(u128, V)>, id: u128, n: int)
    requires
        0 <= n <= rows.len(),
    ensures
        values_of(rows, id, n).len() > 0 <==> exists|i: int|
            0 <= i < n && (#[trigger] rows[i]).0 == id,
    decreases n,
{
    if n > 0 {
        lemma_values_of(rows, id, n - 1);
        if values_of(rows, id, n - 1).len() > 0 {
            let i = choose|i: int| 0 <= i < n - 1 && (#[trigger] rows[i]).0 == id;
            assert(rows[i].0 == id);
        }
        if rows[n - 1].0 != id && exists|i: int| 0 <= i < n && (#[trigger] rows[i]).0 == id {
            let i = choose|i: int| 0 <= i < n && (#[trigger] rows[i]).0 == id;
            assert(0 <= i < n - 1);
        }
    }
}

/// By identifier, the last row of an identifier gives its value, and an identifier
/// without a row has none.
pub proof fn law_last_row_stays<V>(rows: Seq<(u128, V)>, n: int, id: u128)
    requires
        0 <= n <= rows.len(),
    ensures
        forall|i: int|
            0 <= i < n && (#[trigger] rows[i]).0 == id && (forall|j: int|
                i < j < n ==> (#[trigger] rows[j]).0 != id) ==> rows_map(rows, n).contains_key(id)
                && rows_map(rows, n)[id] == rows[i].1,
        (forall|i: int| 0 <= i < n ==> (#[trigger] rows[i]).0 != id) ==> !rows_map(
            rows,
            n,
        ).contains_key(id),
    decreases n,
{
    if n > 0 {
        law_last_row_stays(rows, n - 1, id);
        assert(rows[n - 1].0 == id || rows[n - 1].0 != id);
    }
}

/// How many of the first `n` rows have an identifier.
pub open spec fn rows_with<V>(rows: Seq<(u128, V)>, id: u128, n: int) -> int
    decreases n,
{
    if n <= 0 {
        0
    } else if rows[n - 1].0 == id {
        rows_with(rows, id, n - 1) + 1
    } else {
        rows_with(rows, id, n - 1)
    }
}

proof fn lemma_values_at<V>(rows: Seq<(u128, V)>, id: u128, n: int, i: int)
    requires
        0 <= i < rows.len(),
        0 <= n <= rows.len(),
    ensures
        values_of(rows, id, n).len() == rows_with(rows, id, n),
        0 <= rows_with(rows, id, n),
        i < n && rows[i].0 == id ==> 0 <= rows_with(rows, id, i) < rows_with(rows, id, n)
            && values_of(rows, id, n)[rows_with(rows, id, i)] == rows[i].1,
    decreases n,
{
    if n > 0 {
        lemma_values_at(rows, id, n - 1, i);
        if i == n - 1 && i > 0 {
            lemma_values_at(rows, id, n - 1, 0);
        }
    }
}

/// Each row's value is in the list of its identifier, behind those of the rows
/// before it, and the list holds no more than its rows.
pub proof fn law_grouping_keeps_every_row<V>(
    map: Map<u128, Vec<V>>,
    rows: Seq<(u128, V)>,
    i: int,
)
    requires
        0 <= i < rows.len(),
        gives_values(map, rows, rows.len() as int, rows[i].0),
    ensures
        map.contains_key(rows[i].0),
        map[rows[i].0]@.len() == rows_with(rows, rows[i].0, rows.len() as int),
        0 <= rows_with(rows, rows[i].0, i) < map[rows[i].0]@.len(),
        map[rows[i].0]@[rows_with(rows, rows[i].0, i)] == rows[i].1,
{
    lemma_values_at(rows, rows[i].0, rows.len() as int, i);
}

}
