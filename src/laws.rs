//! What holds of the table across operations.
use vstd::prelude::*;
use crate::date::CalendarDate;
use crate::domain::FoodView;
use crate::store::{
    can_create, created_row, keeps_row, listed, sorted_desc, sorted_insert, table_after_create,
    table_after_delete, table_wf, TableView,
};

verus! {

broadcast use vstd::seq_lib::group_seq_properties;

proof fn lemma_sorted_insert_contains(rows: Seq<FoodView>, x: FoodView)
    ensures
        sorted_insert(rows, x).len() == rows.len() + 1,
        sorted_insert(rows, x).contains(x),
    decreases rows.len(),
{
    if rows.len() == 0 {
        assert(sorted_insert(rows, x)[0] == x);
    } else if rows[0].best_before_date.key() >= x.best_before_date.key() {
        let rest = rows.drop_first();
        lemma_sorted_insert_contains(rest, x);
        let k = choose|k: int| 0 <= k < sorted_insert(rest, x).len() && sorted_insert(rest, x)[k] == x;
        assert(sorted_insert(rows, x)[k + 1] == x);
    } else {
        assert(sorted_insert(rows, x)[0] == x);
    }
}

/// A create returns the name and date it was given, and a later list with
/// room for every row holds the returned record.
pub proof fn lemma_created_row_is_listed(
    t: TableView,
    name: Seq<char>,
    date: CalendarDate,
    limit: int,
)
    requires
        table_wf(t),
        can_create(t),
        limit > t.rows.len(),
    ensures
        created_row(t, name, date).name == name,
        created_row(t, name, date).best_before_date == date,
        listed(table_after_create(t, name, date), limit).contains(created_row(t, name, date)),
{
    lemma_sorted_insert_contains(t.rows, created_row(t, name, date));
}

/// A list returns rows in non-increasing best-before order.
pub proof fn lemma_listed_sorted(t: TableView, limit: int)
    requires
        table_wf(t),
        limit >= 0,
    ensures
        sorted_desc(listed(t, limit)),
{
    let l = listed(t, limit);
    assert forall|i: int, j: int| 0 <= i < j < l.len() implies #[trigger] l[j].best_before_date.key()
        <= #[trigger] l[i].best_before_date.key() by {
        assert(l[i] == t.rows[i] && l[j] == t.rows[j]);
    }
}

proof fn lemma_filter_idempotent(s: Seq<FoodView>, id: int)
    ensures
        s.filter(keeps_row(id)).filter(keeps_row(id)) == s.filter(keeps_row(id)),
    decreases s.len(),
{
    if s.len() > 0 {
        let init = s.drop_last();
        lemma_filter_idempotent(init, id);
        assert(s == init.push(s.last()));
        init.lemma_filter_push(s.last(), keeps_row(id));
        if keeps_row(id)(s.last()) {
            init.filter(keeps_row(id)).lemma_filter_push(s.last(), keeps_row(id));
        }
    }
}

/// Deleting an identifier a second time leaves the table as the first
/// delete left it.
pub proof fn lemma_delete_idempotent(t: TableView, id: int)
    ensures
        table_after_delete(table_after_delete(t, id), id) == table_after_delete(t, id),
{
    lemma_filter_idempotent(t.rows, id);
}

/// After a delete, no listed row has the deleted identifier.
pub proof fn lemma_deleted_not_listed(t: TableView, id: int, limit: int)
    requires
        limit >= 0,
    ensures
        forall|i: int|
            0 <= i < listed(table_after_delete(t, id), limit).len() ==> #[trigger] listed(
                table_after_delete(t, id),
                limit,
            )[i].id != id,
{
    let f = t.rows.filter(keeps_row(id));
    let l = listed(table_after_delete(t, id), limit);
    assert forall|i: int| 0 <= i < l.len() implies #[trigger] l[i].id != id by {
        assert(l[i] == f[i]);
        t.rows.lemma_filter_pred(keeps_row(id), i);
    }
}

/// A new row's identifier is larger than that of every row in the table.
pub proof fn lemma_created_id_fresh(t: TableView, name: Seq<char>, date: CalendarDate)
    requires
        table_wf(t),
    ensures
        forall|i: int| 0 <= i < t.rows.len() ==> #[trigger] t.rows[i].id < created_row(t, name, date).id,
{
}

/// Identifiers given out one after another strictly increase, and a delete
/// does not lower the next one.
pub proof fn lemma_created_ids_increase(
    t: TableView,
    name1: Seq<char>,
    date1: CalendarDate,
    name2: Seq<char>,
    date2: CalendarDate,
    id: int,
)
    ensures
        created_row(t, name1, date1).id < created_row(
            table_after_create(t, name1, date1),
            name2,
            date2,
        ).id,
        created_row(table_after_delete(t, id), name2, date2).id == created_row(t, name1, date1).id,
{
}

/// The rows that a run of creates adds, in the order they were made.
pub open spec fn create_all(t: TableView, reqs: Seq<(Seq<char>, CalendarDate)>) -> (TableView, Seq<FoodView>)
    decreases reqs.len(),
{
    if reqs.len() == 0 {
        (t, Seq::empty())
    } else {
        let (t1, made) = create_all(t, reqs.drop_last());
        let row = created_row(t1, reqs.last().0, reqs.last().1);
        (table_after_create(t1, reqs.last().0, reqs.last().1), made.push(row))
    }
}

proof fn lemma_create_all_ids(t: TableView, reqs: Seq<(Seq<char>, CalendarDate)>)
    ensures
        create_all(t, reqs).0.next_id == t.next_id + reqs.len(),
        create_all(t, reqs).1.len() == reqs.len(),
        forall|i: int|
            0 <= i < reqs.len() ==> #[trigger] create_all(t, reqs).1[i].id == t.next_id + i,
    decreases reqs.len(),
{
    if reqs.len() > 0 {
        lemma_create_all_ids(t, reqs.drop_last());
    }
}

/// A run of creates gives every new row an identifier of its own, and none
/// that a row of the table already had or that a deleted row had.
pub proof fn lemma_create_all_distinct(t: TableView, reqs: Seq<(Seq<char>, CalendarDate)>)
    requires
        table_wf(t),
    ensures
        forall|i: int, j: int|
            0 <= i < j < reqs.len() ==> #[trigger] create_all(t, reqs).1[i].id
                != #[trigger] create_all(t, reqs).1[j].id,
        forall|i: int, k: int|
            0 <= i < reqs.len() && 0 <= k < t.rows.len() ==> #[trigger] create_all(t, reqs).1[i].id
                != #[trigger] t.rows[k].id,
{
    lemma_create_all_ids(t, reqs);
}

/// Once a row is deleted, the next create does not give out its identifier.
pub proof fn lemma_deleted_id_not_reused(
    t: TableView,
    k: int,
    name: Seq<char>,
    date: CalendarDate,
)
    requires
        table_wf(t),
        0 <= k < t.rows.len(),
    ensures
        created_row(table_after_delete(t, t.rows[k].id), name, date).id != t.rows[k].id,
{
}

} // verus!
