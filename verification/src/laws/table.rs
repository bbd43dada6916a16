//! The order of a table.

use crate::table;
use crate::table::Rows;
use vstd::prelude::*;

verus! {

/// A value under a new key comes last, behind the rows as they were; one under a known key
/// takes the place of the old one, and every other row stays as and where it was.
pub proof fn law_storing_keeps_the_order<V>(rows: Rows<V>, key: Seq<char>, value: V, i: int)
    requires
        table::unique_keys(rows),
        0 <= i < rows.len(),
    ensures
        rows[i].0 != key ==> table::stored(rows, key, value)[i] == rows[i],
        rows[i].0 == key ==> table::stored(rows, key, value)[i] == (key, value)
            && table::stored(rows, key, value).len() == rows.len(),
        (forall|k: int| 0 <= k < rows.len() ==> (#[trigger] rows[k]).0 != key)
            ==> table::stored(rows, key, value) == rows.push((key, value)),
{
    table::lemma_position(rows, key);
}

/// Removing a key takes out its row alone; the rows before stay, those behind move up.
pub proof fn law_removing_keeps_the_order<V>(rows: Rows<V>, i: int)
    requires
        table::unique_keys(rows),
        0 <= i < rows.len(),
    ensures
        table::removed(rows, rows[i].0) == rows.take(i) + rows.skip(i + 1),
{
    table::lemma_position(rows, rows[i].0);
    assert(table::removed(rows, rows[i].0) =~= rows.take(i) + rows.skip(i + 1));
}

/// A key is known exactly where some row has it, and its value is that of the row.
pub proof fn law_lookup_finds_the_row<V>(rows: Rows<V>, key: Seq<char>)
    requires
        table::unique_keys(rows),
    ensures
        table::has_key(rows, key) <==> exists|i: int|
            0 <= i < rows.len() && (#[trigger] rows[i]).0 == key,
        table::lookup(rows, key) is Some <==> table::has_key(rows, key),
        forall|i: int|
            0 <= i < rows.len() && (#[trigger] rows[i]).0 == key ==> table::lookup(rows, key)
                == Some(rows[i].1),
{
    table::lemma_position(rows, key);
}

} // verus!
