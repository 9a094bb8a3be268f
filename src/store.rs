//! A food table held in memory, with the rules of the relational table:
//! identifiers come from a counter and are never reused, listing goes by
//! best-before date, latest first, and deleting an absent row is no error.
use vstd::prelude::*;
use crate::date::CalendarDate;
use crate::domain::{Food, FoodView, NewFood};
use crate::handlers::ApiError;

verus! {

/// A table as plain values: its rows in listing order, and the identifier
/// that the next row will get.
pub ghost struct TableView {
    pub rows: Seq<FoodView>,
    pub next_id: int,
}

/// Each row's best-before date is no later than that of the row before it.
pub open spec fn sorted_desc(rows: Seq<FoodView>) -> bool {
    forall|i: int, j: int|
        0 <= i < j < rows.len() ==> #[trigger] rows[j].best_before_date.key()
            <= #[trigger] rows[i].best_before_date.key()
}

pub open spec fn table_wf(t: TableView) -> bool {
    &&& sorted_desc(t.rows)
    &&& 1 <= t.next_id <= i32::MAX + 1
    &&& forall|i: int|
        0 <= i < t.rows.len() ==> 1 <= #[trigger] t.rows[i].id < t.next_id
            && t.rows[i].best_before_date.wf()
    &&& forall|i: int, j: int|
        0 <= i < j < t.rows.len() ==> #[trigger] t.rows[i].id != #[trigger] t.rows[j].id
}

/// `rows` with `x` placed after every row whose date is not earlier than its own.
pub open spec fn sorted_insert(rows: Seq<FoodView>, x: FoodView) -> Seq<FoodView>
    decreases rows.len(),
{
    if rows.len() == 0 {
        seq![x]
    } else if rows[0].best_before_date.key() >= x.best_before_date.key() {
        seq![rows[0]] + sorted_insert(rows.drop_first(), x)
    } else {
        seq![x] + rows
    }
}

/// Whether the table can still give out an identifier.
pub open spec fn can_create(t: TableView) -> bool {
    t.next_id <= i32::MAX
}

/// The row that a create of `name` and `date` adds.
pub open spec fn created_row(t: TableView, name: Seq<char>, date: CalendarDate) -> FoodView {
    FoodView { id: t.next_id, name, best_before_date: date }
}

pub open spec fn table_after_create(t: TableView, name: Seq<char>, date: CalendarDate) -> TableView {
    TableView { rows: sorted_insert(t.rows, created_row(t, name, date)), next_id: t.next_id + 1 }
}

pub open spec fn keeps_row(id: int) -> spec_fn(FoodView) -> bool {
    |r: FoodView| r.id != id
}

pub open spec fn table_after_delete(t: TableView, id: int) -> TableView {
    TableView { rows: t.rows.filter(keeps_row(id)), next_id: t.next_id }
}

/// What a list with the given limit returns: the first rows, at most `limit`.
pub open spec fn listed(t: TableView, limit: int) -> Seq<FoodView> {
    if limit >= t.rows.len() {
        t.rows
    } else {
        t.rows.take(limit)
    }
}

pub open spec fn rows_view(rows: Seq<Food>) -> Seq<FoodView> {
    rows.map_values(|f: Food| f@)
}

/// A table of foods.
pub struct FoodTable {
    rows: Vec<Food>,
    next_id: i64,
}

impl View for FoodTable {
    type V = TableView;

    closed spec fn view(&self) -> TableView {
        TableView { rows: rows_view(self.rows@), next_id: self.next_id as int }
    }
}

proof fn lemma_sorted_insert_at(rows: Seq<FoodView>, x: FoodView, p: int)
    requires
        0 <= p <= rows.len(),
        forall|i: int| 0 <= i < p ==> rows[i].best_before_date.key() >= x.best_before_date.key(),
        p < rows.len() ==> rows[p].best_before_date.key() < x.best_before_date.key(),
    ensures
        sorted_insert(rows, x) == rows.insert(p, x),
    decreases rows.len(),
{
    if rows.len() == 0 {
        assert(rows.insert(p, x) =~= seq![x]);
    } else if p == 0 {
        assert(rows.insert(p, x) =~= seq![x] + rows);
    } else {
        let rest = rows.drop_first();
        assert forall|i: int| 0 <= i < p - 1 implies rest[i].best_before_date.key()
            >= x.best_before_date.key() by {
            assert(rest[i] == rows[i + 1]);
        }
        lemma_sorted_insert_at(rest, x, p - 1);
        assert(seq![rows[0]] + rest.insert(p - 1, x) =~= rows.insert(p, x));
    }
}

impl FoodTable {
    pub open spec fn wf(&self) -> bool {
        table_wf(self@)
    }

    /// An empty table whose first row will get identifier 1.
    pub fn new() -> (r: FoodTable)
        ensures
            r@.rows == Seq::<FoodView>::empty(),
            r@.next_id == 1,
            r.wf(),
    {
        let r = FoodTable { rows: Vec::new(), next_id: 1 };
        assert(r@.rows =~= Seq::<FoodView>::empty());
        r
    }

    /// The rows, latest best-before date first, at most `limit` of them.
    pub fn get_foods(&self, limit: u32) -> (r: Vec<Food>)
        requires
            self.wf(),
        ensures
            rows_view(r@) == listed(self@, limit as int),
    {
        let n: usize = if (limit as usize) < self.rows.len() {
            limit as usize
        } else {
            self.rows.len()
        };
        let mut out: Vec<Food> = Vec::new();
        let mut i: usize = 0;
        while i < n
            invariant
                n <= self.rows.len(),
                i <= n,
                rows_view(out@) == self@.rows.take(i as int),
            decreases n - i,
        {
            let ghost o = rows_view(out@);
            let f = self.rows[i].duplicate();
            assert(f@ == self@.rows[i as int]);
            out.push(f);
            assert(rows_view(out@) =~= o.push(f@));
            assert(self@.rows.take(i as int + 1) =~= self@.rows.take(i as int).push(f@));
            i = i + 1;
        }
        assert(self@.rows.take(self.rows.len() as int) =~= self@.rows);
        out
    }

    /// Stores a new row and returns it with its identifier. Fails, leaving
    /// the table as it was, once every identifier has been given out.
    pub fn create_food(&mut self, food: NewFood) -> (r: Result<Food, ApiError>)
        requires
            old(self).wf(),
            food.best_before_date.wf(),
        ensures
            final(self).wf(),
            can_create(old(self)@) ==> (r matches Ok(f) && f@ == created_row(
                old(self)@,
                food.name@,
                food.best_before_date,
            ) && final(self)@ == table_after_create(
                old(self)@,
                food.name@,
                food.best_before_date,
            )),
            !can_create(old(self)@) ==> r == Err::<Food, ApiError>(ApiError::Storage)
                && final(self)@ == old(self)@,
    {
        if self.next_id > i32::MAX as i64 {
            return Err(ApiError::Storage);
        }
        let id = self.next_id as i32;
        let k = food.best_before_date.sort_key();
        let ghost rows0 = self@.rows;
        let ghost name = food.name@;
        let ghost x = created_row(self@, name, food.best_before_date);
        let mut p: usize = 0;
        while p < self.rows.len() && self.rows[p].best_before_date.sort_key() >= k
            invariant
                p <= self.rows.len(),
                self@.rows == rows0,
                forall|i: int| 0 <= i < p ==> rows0[i].best_before_date.key() >= k,
            decreases self.rows.len() - p,
        {
            p = p + 1;
        }
        let f = Food::from_new(food, id);
        assert(f@ == x);
        self.rows.insert(p, f.duplicate());
        self.next_id = self.next_id + 1;
        proof {
            assert(self@.rows =~= rows0.insert(p as int, x));
            lemma_sorted_insert_at(rows0, x, p as int);
            let rows1 = self@.rows;
            assert forall|i: int, j: int| 0 <= i < j < rows1.len() implies #[trigger] rows1[j].best_before_date.key()
                <= #[trigger] rows1[i].best_before_date.key() by {
                if j < p {
                } else if j == p {
                } else if i < p {
                    assert(rows1[j] == rows0[j - 1]);
                } else if i == p {
                    assert(rows1[j] == rows0[j - 1]);
                } else {
                    assert(rows1[j] == rows0[j - 1]);
                    assert(rows1[i] == rows0[i - 1]);
                }
            }
            assert forall|i: int, j: int| 0 <= i < j < rows1.len() implies #[trigger] rows1[i].id
                != #[trigger] rows1[j].id by {
                if j < p {
                } else if j == p {
                } else if i < p {
                    assert(rows1[j] == rows0[j - 1]);
                } else if i == p {
                    assert(rows1[j] == rows0[j - 1]);
                } else {
                    assert(rows1[j] == rows0[j - 1]);
                    assert(rows1[i] == rows0[i - 1]);
                }
            }
            assert forall|i: int| 0 <= i < rows1.len() implies 1 <= #[trigger] rows1[i].id
                < self@.next_id && rows1[i].best_before_date.wf() by {
                if i > p {
                    assert(rows1[i] == rows0[i - 1]);
                }
            }
        }
        Ok(f)
    }

    /// Removes the row with identifier `id`, if there is one. An absent
    /// identifier is no error.
    pub fn delete_food(&mut self, id: i32)
        requires
            old(self).wf(),
        ensures
            final(self).wf(),
            final(self)@ == table_after_delete(old(self)@, id as int),
    {
        let ghost r = self@.rows;
        let mut out: Vec<Food> = Vec::new();
        let mut i: usize = 0;
        while i < self.rows.len()
            invariant
                i <= self.rows.len(),
                self@.rows == r,
                table_wf(self@),
                rows_view(out@) == r.take(i as int).filter(keeps_row(id as int)),
                sorted_desc(rows_view(out@)),
                forall|j: int, k: int|
                    0 <= j < out@.len() && i <= k < r.len() ==> #[trigger] rows_view(out@)[j].best_before_date.key()
                        >= #[trigger] r[k].best_before_date.key()
                        && rows_view(out@)[j].id != r[k].id,
                forall|j: int|
                    0 <= j < out@.len() ==> 1 <= #[trigger] rows_view(out@)[j].id < self@.next_id
                        && rows_view(out@)[j].best_before_date.wf(),
                forall|j1: int, j2: int|
                    0 <= j1 < j2 < out@.len() ==> #[trigger] rows_view(out@)[j1].id
                        != #[trigger] rows_view(out@)[j2].id,
            decreases self.rows.len() - i,
        {
            let ghost o = rows_view(out@);
            proof {
                assert(r.take(i as int + 1) =~= r.take(i as int).push(r[i as int]));
                r.take(i as int).lemma_filter_push(r[i as int], keeps_row(id as int));
            }
            assert(r[i as int] == self.rows@[i as int]@);
            if self.rows[i].id != id {
                let f = self.rows[i].duplicate();
                out.push(f);
                proof {
                    assert(rows_view(out@) =~= o.push(r[i as int]));
                    assert(r[i as int].id != id as int);
                    assert(keeps_row(id as int)(r[i as int]));
                    assert(rows_view(out@) == r.take(i as int + 1).filter(keeps_row(id as int)));
                    let o1 = rows_view(out@);
                    assert forall|j1: int, j2: int| 0 <= j1 < j2 < o1.len() implies #[trigger] o1[j1].id
                        != #[trigger] o1[j2].id by {
                        if j2 == o.len() {
                            assert(o[j1].best_before_date.key() >= r[i as int].best_before_date.key());
                        }
                    }
                }
            } else {
                assert(rows_view(out@) == o);
                assert(!keeps_row(id as int)(r[i as int]));
                assert(rows_view(out@) == r.take(i as int + 1).filter(keeps_row(id as int)));
            }
            i = i + 1;
        }
        assert(r.take(r.len() as int) =~= r);
        self.rows = out;
    }
}

} // verus!
