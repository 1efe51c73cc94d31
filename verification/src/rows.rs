//! The key/value editor's bookkeeping: a row can be deleted, and the list always ends
//! with a blank row to type into.

use vstd::prelude::*;

use crate::http::KeyValue;

verus! {

/// What the editor shows of a row: switched on, key text, value text.
pub open spec fn row_view(kv: KeyValue) -> (bool, Seq<char>, Seq<char>) {
    (kv.enabled, kv.key@, kv.value@)
}

/// What the editor shows of a list of rows.
pub open spec fn rows_view(rows: Seq<KeyValue>) -> Seq<(bool, Seq<char>, Seq<char>)> {
    rows.map_values(|kv: KeyValue| row_view(kv))
}

/// A fresh blank row, switched on.
pub open spec fn blank_row() -> (bool, Seq<char>, Seq<char>) {
    (true, Seq::<char>::empty(), Seq::<char>::empty())
}

/// Whether a row holds neither key nor value text.
pub open spec fn is_blank(r: (bool, Seq<char>, Seq<char>)) -> bool {
    r.1.len() == 0 && r.2.len() == 0
}

/// The rows after an edit: the deleted row (if any) leaves, and a fresh blank row is added
/// unless the list already ends with a blank one.
pub open spec fn tidied(
    rows: Seq<(bool, Seq<char>, Seq<char>)>,
    removed: Option<usize>,
) -> Seq<(bool, Seq<char>, Seq<char>)> {
    let s = match removed {
        Some(i) => rows.remove(i as int),
        None => rows,
    };
    if s.len() == 0 || !is_blank(s.last()) {
        s.push(blank_row())
    } else {
        s
    }
}

/// Applies the deletion the user asked for (the row at `removed`), then keeps a blank
/// row at the end of the list.
pub fn tidy_rows(rows: &mut Vec<KeyValue>, removed: Option<usize>)
    requires
        removed matches Some(i) ==> i < old(rows).len(),
    ensures
        rows_view(final(rows)@) == tidied(rows_view(old(rows)@), removed),
{
    let ghost start = rows_view(rows@);
    if let Some(i) = removed {
        rows.remove(i);
        assert(rows_view(rows@) =~= start.remove(i as int));
    }
    let ghost mid = rows_view(rows@);
    let needs_blank = match rows.last() {
        Some(kv) => !kv.key.as_str().is_empty() || !kv.value.as_str().is_empty(),
        None => true,
    };
    if needs_blank {
        rows.push(KeyValue::new());
        assert(rows_view(rows@) =~= mid.push(blank_row()));
    }
}


/// After any edit the list ends with a blank row, so there is always a row to type into.
pub proof fn law_rows_end_blank(rows: Seq<(bool, Seq<char>, Seq<char>)>, removed: Option<usize>)
    requires
        removed matches Some(i) ==> i < rows.len(),
    ensures
        tidied(rows, removed).len() >= 1,
        is_blank(tidied(rows, removed).last()),
{
}

/// Tidying a list that was just tidied, with no deletion, changes nothing.
pub proof fn law_tidy_settles(rows: Seq<(bool, Seq<char>, Seq<char>)>, removed: Option<usize>)
    requires
        removed matches Some(i) ==> i < rows.len(),
    ensures
        tidied(tidied(rows, removed), None) == tidied(rows, removed),
{
}

/// With no deletion, the rows already there stay as they are, in order, at the front.
pub proof fn law_tidy_keeps_rows(rows: Seq<(bool, Seq<char>, Seq<char>)>)
    ensures
        tidied(rows, None).take(rows.len() as int) == rows,
{
    assert(tidied(rows, None).take(rows.len() as int) =~= rows);
}


/// Deleting a row keeps every other row, in order: rows before it stay in place and rows
/// after it move up by one; at most a blank row is added after them.
pub proof fn law_delete_keeps_other_rows(rows: Seq<(bool, Seq<char>, Seq<char>)>, i: usize)
    requires
        i < rows.len(),
    ensures
        rows.len() - 1 <= tidied(rows, Some(i)).len() <= rows.len(),
        forall|k: int| 0 <= k < i ==> #[trigger] tidied(rows, Some(i))[k] == rows[k],
        forall|k: int| i <= k < rows.len() - 1 ==> #[trigger] tidied(rows, Some(i))[k] == rows[k + 1],
{
}

} // verus!
