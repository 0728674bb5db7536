//! The insert-or-replace semantics of a seeded table, and the laws that follow
//! for re-seeding.
use crate::decode::Fault;
use crate::models::{Cell, Table};
use crate::seed::{decoded_rows, kept};
use vstd::prelude::*;

verus! {

/// The number of leading columns that form a table's primary key.
pub open spec fn key_len(t: Table) -> int {
    match t {
        Table::Player => 1,
        Table::Team => 1,
        Table::Game => 2,
        Table::Matchup => 2,
        Table::Pick => 3,
    }
}

/// The primary key of a row of table `t`.
pub open spec fn key_of(t: Table, row: Seq<Cell>) -> Seq<Cell> {
    row.take(key_len(t))
}

/// One insert-or-replace: the row takes the place of any row with its key.
pub open spec fn upsert(t: Table, tbl: Map<Seq<Cell>, Seq<Cell>>, row: Seq<Cell>) -> Map<Seq<Cell>, Seq<Cell>> {
    tbl.insert(key_of(t, row), row)
}

/// The rows applied one after another, in order.
pub open spec fn upsert_all(t: Table, tbl: Map<Seq<Cell>, Seq<Cell>>, rows: Seq<Seq<Cell>>) -> Map<Seq<Cell>, Seq<Cell>>
    decreases rows.len(),
{
    if rows.len() == 0 {
        tbl
    } else {
        upsert(t, upsert_all(t, tbl, rows.drop_last()), rows.last())
    }
}

/// A table after one seeding pass over a CSV text: the rows that decode, applied in order.
pub open spec fn seeded(t: Table, tbl: Map<Seq<Cell>, Seq<Cell>>, text: Seq<char>) -> Map<Seq<Cell>, Seq<Cell>> {
    upsert_all(t, tbl, kept(decoded_rows(t, text)))
}

/// Row `i` is the last of `rows` with its key.
pub open spec fn last_with_key(t: Table, rows: Seq<Seq<Cell>>, i: int) -> bool {
    &&& 0 <= i < rows.len()
    &&& forall|j: int| i < j < rows.len() ==> key_of(t, #[trigger] rows[j]) != key_of(t, rows[i])
}

/// After a batch, the table holds one row per key: a key is present exactly
/// where it was before or some row of the batch has it; the row under a key of
/// the batch is the batch's last row with that key; any other key keeps its row.
pub proof fn lemma_batch_contents(t: Table, tbl: Map<Seq<Cell>, Seq<Cell>>, rows: Seq<Seq<Cell>>)
    ensures
        forall|k: Seq<Cell>| #[trigger] upsert_all(t, tbl, rows).contains_key(k) <==> (tbl.contains_key(k) || exists|i: int| 0 <= i < rows.len() && key_of(t, #[trigger] rows[i]) == k),
        forall|i: int| #[trigger] last_with_key(t, rows, i) ==> upsert_all(t, tbl, rows)[key_of(t, rows[i])] == rows[i],
        forall|k: Seq<Cell>| tbl.contains_key(k) && (forall|i: int| 0 <= i < rows.len() ==> key_of(t, #[trigger] rows[i]) != k) ==> #[trigger] upsert_all(t, tbl, rows)[k] == tbl[k],
    decreases rows.len(),
{
    if rows.len() > 0 {
        let init = rows.drop_last();
        let n = rows.len() - 1;
        lemma_batch_contents(t, tbl, init);
        let prev = upsert_all(t, tbl, init);
        let cur = upsert_all(t, tbl, rows);
        assert(cur == prev.insert(key_of(t, rows[n]), rows[n]));
        assert forall|k: Seq<Cell>| #[trigger] cur.contains_key(k) <==> (tbl.contains_key(k) || exists|i: int| 0 <= i < rows.len() && key_of(t, #[trigger] rows[i]) == k) by {
            if exists|i: int| 0 <= i < init.len() && key_of(t, #[trigger] init[i]) == k {
                let i = choose|i: int| 0 <= i < init.len() && key_of(t, #[trigger] init[i]) == k;
                assert(rows[i] == init[i]);
            }
            if exists|i: int| 0 <= i < rows.len() && key_of(t, #[trigger] rows[i]) == k {
                let i = choose|i: int| 0 <= i < rows.len() && key_of(t, #[trigger] rows[i]) == k;
                if i < n {
                    assert(init[i] == rows[i]);
                }
            }
        }
        assert forall|i: int| #[trigger] last_with_key(t, rows, i) implies cur[key_of(t, rows[i])] == rows[i] by {
            if i < n {
                assert(key_of(t, rows[n]) != key_of(t, rows[i]));
                assert(init[i] == rows[i]);
                assert forall|j: int| i < j < init.len() implies key_of(t, #[trigger] init[j]) != key_of(t, init[i]) by {
                    assert(init[j] == rows[j]);
                }
                assert(last_with_key(t, init, i));
            }
        }
        assert forall|k: Seq<Cell>| tbl.contains_key(k) && (forall|i: int| 0 <= i < rows.len() ==> key_of(t, #[trigger] rows[i]) != k) implies #[trigger] cur[k] == tbl[k] by {
            assert(key_of(t, rows[n]) != k);
            assert forall|i: int| 0 <= i < init.len() implies key_of(t, #[trigger] init[i]) != k by {
                assert(init[i] == rows[i]);
            }
        }
    }
}

/// A batch applied to any table equals that table overridden by the batch
/// applied to an empty table.
proof fn lemma_batch_overrides(t: Table, tbl: Map<Seq<Cell>, Seq<Cell>>, rows: Seq<Seq<Cell>>)
    ensures
        upsert_all(t, tbl, rows) == tbl.union_prefer_right(upsert_all(t, Map::empty(), rows)),
    decreases rows.len(),
{
    if rows.len() == 0 {
        assert(tbl.union_prefer_right(Map::empty()) =~= tbl);
    } else {
        lemma_batch_overrides(t, tbl, rows.drop_last());
        let m = upsert_all(t, Map::empty(), rows.drop_last());
        let k = key_of(t, rows.last());
        assert(tbl.union_prefer_right(m).insert(k, rows.last()) =~= tbl.union_prefer_right(m.insert(k, rows.last())));
    }
}

/// Applying the same batch twice leaves the table as applying it once.
pub proof fn lemma_batch_idempotent(t: Table, tbl: Map<Seq<Cell>, Seq<Cell>>, rows: Seq<Seq<Cell>>)
    ensures
        upsert_all(t, upsert_all(t, tbl, rows), rows) == upsert_all(t, tbl, rows),
{
    let m = upsert_all(t, Map::empty(), rows);
    lemma_batch_overrides(t, tbl, rows);
    lemma_batch_overrides(t, upsert_all(t, tbl, rows), rows);
    assert(tbl.union_prefer_right(m).union_prefer_right(m) =~= tbl.union_prefer_right(m));
}

/// Seeding a table twice from unchanged CSV text gives the same table as seeding it once.
pub proof fn lemma_reseed_idempotent(t: Table, tbl: Map<Seq<Cell>, Seq<Cell>>, text: Seq<char>)
    ensures
        seeded(t, seeded(t, tbl, text), text) == seeded(t, tbl, text),
{
    lemma_batch_idempotent(t, tbl, kept(decoded_rows(t, text)));
}

/// The keys of a batch are distinct.
pub open spec fn distinct_keys(t: Table, rows: Seq<Seq<Cell>>) -> bool {
    forall|i: int, j: int| 0 <= i < j < rows.len() ==> key_of(t, #[trigger] rows[i]) != key_of(t, #[trigger] rows[j])
}

/// Re-seeding a batch of distinct keys in which one row was changed but kept
/// its key (a pick with a new confidence, say) replaces that one row and
/// leaves every other row of the table as the first pass left it.
pub proof fn lemma_reseed_changed_row(t: Table, tbl: Map<Seq<Cell>, Seq<Cell>>, rows: Seq<Seq<Cell>>, i: int, row: Seq<Cell>)
    requires
        distinct_keys(t, rows),
        0 <= i < rows.len(),
        key_of(t, row) == key_of(t, rows[i]),
    ensures
        upsert_all(t, upsert_all(t, tbl, rows), rows.update(i, row)) == upsert_all(t, tbl, rows).insert(key_of(t, row), row),
{
    let first = upsert_all(t, tbl, rows);
    let rows2 = rows.update(i, row);
    let second = upsert_all(t, first, rows2);
    let want = first.insert(key_of(t, row), row);
    lemma_batch_contents(t, tbl, rows);
    lemma_batch_contents(t, first, rows2);
    assert forall|k: Seq<Cell>| #[trigger] second.contains_key(k) <==> want.contains_key(k) by {
        if exists|j: int| 0 <= j < rows2.len() && key_of(t, #[trigger] rows2[j]) == k {
            let j = choose|j: int| 0 <= j < rows2.len() && key_of(t, #[trigger] rows2[j]) == k;
            assert(first.contains_key(key_of(t, rows[j])));
        }
    }
    assert forall|k: Seq<Cell>| #[trigger] second.contains_key(k) implies second[k] == want[k] by {
        if exists|j: int| 0 <= j < rows2.len() && key_of(t, #[trigger] rows2[j]) == k {
            let j = choose|j: int| 0 <= j < rows2.len() && key_of(t, #[trigger] rows2[j]) == k;
            assert(last_with_key(t, rows2, j));
            if j != i {
                assert(last_with_key(t, rows, j));
                assert(key_of(t, rows[j]) != key_of(t, rows[i]));
            }
        } else {
            assert forall|j: int| 0 <= j < rows.len() implies key_of(t, #[trigger] rows[j]) != k by {
                assert(key_of(t, rows2[j]) != k);
            }
        }
    }
    assert(second =~= want);
}

} // verus!
