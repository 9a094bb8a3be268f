//! Food records and requests to create them.
use vstd::prelude::*;
use crate::date::CalendarDate;

verus! {

/// A request to store a food: its name and its best-before date.
#[derive(Clone, Debug, PartialEq, Eq)]
pub struct NewFood {
    pub name: String,
    pub best_before_date: CalendarDate,
}

/// A stored food, with the identifier the store gave it.
#[derive(Clone, Debug, PartialEq, Eq)]
pub struct Food {
    pub id: i32,
    pub name: String,
    pub best_before_date: CalendarDate,
}

/// What a food record says, as plain values.
pub ghost struct FoodView {
    pub id: int,
    pub name: Seq<char>,
    pub best_before_date: CalendarDate,
}

impl View for Food {
    type V = FoodView;

    open spec fn view(&self) -> FoodView {
        FoodView { id: self.id as int, name: self.name@, best_before_date: self.best_before_date }
    }
}

impl Food {
    /// The record for a request once the store has given it `id`.
    pub fn from_new(food: NewFood, id: i32) -> (r: Food)
        ensures
            r@ == (FoodView { id: id as int, name: food.name@, best_before_date: food.best_before_date }),
    {
        Food { id, name: food.name, best_before_date: food.best_before_date }
    }

    /// A copy of this record.
    pub fn duplicate(&self) -> (r: Food)
        ensures
            r@ == self@,
    {
        Food { id: self.id, name: self.name.clone(), best_before_date: self.best_before_date }
    }
}

} // verus!
