//! The HTTP-facing rules: decoding requests and choosing status codes.
use vstd::prelude::*;
use crate::date::{digit_value, is_digit, parse_date, parse_date_text, CalendarDate};
use crate::domain::{Food, NewFood};
use crate::store::{
    can_create, created_row, listed, rows_view, table_after_create, table_after_delete, FoodTable,
};

verus! {

/// The status of a successful list or create.
pub const STATUS_OK: u16 = 200;

/// The status of a successful delete.
pub const STATUS_NO_CONTENT: u16 = 204;

/// How many records a list returns when the request names no limit.
pub const DEFAULT_LIST_LIMIT: u32 = 500;

/// Why a request failed.
#[derive(Clone, Copy, Debug, PartialEq, Eq, Structural)]
pub enum ApiError {
    /// The body lacks a field or a field has the wrong shape.
    Decode,
    /// A path parameter is not of the expected type.
    Param,
    /// The store could not carry out the operation.
    Storage,
}

impl ApiError {
    pub open spec fn spec_status(self) -> u16 {
        match self {
            ApiError::Decode => 400,
            ApiError::Param => 400,
            ApiError::Storage => 500,
        }
    }

    /// The HTTP status that answers a request failing for this reason.
    pub fn status(&self) -> (r: u16)
        ensures
            r == self.spec_status(),
    {
        match self {
            ApiError::Decode => 400,
            ApiError::Param => 400,
            ApiError::Storage => 500,
        }
    }
}

/// The value of a text of decimal digits.
pub open spec fn decimal_value(s: Seq<char>) -> int
    decreases s.len(),
{
    if s.len() == 0 {
        0
    } else {
        decimal_value(s.drop_last()) * 10 + digit_value(s.last())
    }
}

pub open spec fn all_digits(s: Seq<char>) -> bool {
    forall|i: int| 0 <= i < s.len() ==> is_digit(#[trigger] s[i])
}

/// The integer that a text names: an optional `+` or `-`, then one digit or
/// more, and nothing else.
pub open spec fn integer_text_value(s: Seq<char>) -> Option<int> {
    let signed = s.len() > 0 && (s[0] == '-' || s[0] == '+');
    let digits = if signed { s.drop_first() } else { s };
    if digits.len() > 0 && all_digits(digits) {
        if signed && s[0] == '-' {
            Some(-decimal_value(digits))
        } else {
            Some(decimal_value(digits))
        }
    } else {
        None
    }
}

/// The `i32` that a text names, if it names one in range.
pub open spec fn i32_text_value(s: Seq<char>) -> Option<i32> {
    match integer_text_value(s) {
        Some(v) => if i32::MIN <= v <= i32::MAX {
            Some(v as i32)
        } else {
            None
        },
        None => None,
    }
}

/// Relies on `<i32 as FromStr>::from_str` (through `str::parse`): an optional
/// sign followed by digits only, and an error where the value is out of range.
#[verifier::external_body]
fn parse_i32(s: &str) -> (r: Option<i32>)
    ensures
        r == i32_text_value(s@),
{
    s.parse::<i32>().ok()
}

/// Reads the identifier in the path of a delete request.
pub fn parse_id(s: &str) -> (r: Result<i32, ApiError>)
    ensures
        match i32_text_value(s@) {
            Some(v) => r == Ok::<i32, ApiError>(v),
            None => r == Err::<i32, ApiError>(ApiError::Param),
        },
{
    match parse_i32(s) {
        Some(v) => Ok(v),
        None => Err(ApiError::Param),
    }
}

pub open spec fn effective_limit(limit: Option<u32>) -> u32 {
    match limit {
        Some(n) => n,
        None => DEFAULT_LIST_LIMIT,
    }
}

/// How many records a list returns for the limit the request names.
pub fn list_limit(limit: Option<u32>) -> (r: u32)
    ensures
        r == effective_limit(limit),
{
    match limit {
        Some(n) => n,
        None => DEFAULT_LIST_LIMIT,
    }
}

/// The request that a create body names, given the text of its two fields
/// where they are present.
pub open spec fn decoded_new_food(name: Option<Seq<char>>, date: Option<Seq<char>>) -> Option<
    (Seq<char>, CalendarDate),
> {
    match (name, date) {
        (Some(n), Some(t)) => match parse_date_text(t) {
            Some(d) => Some((n, d)),
            None => None,
        },
        _ => None,
    }
}

pub open spec fn text_of(s: Option<String>) -> Option<Seq<char>> {
    match s {
        Some(t) => Some(t@),
        None => None,
    }
}

/// Builds a create request from the fields of its body: both must be present
/// and the date must be a `YYYY-MM-DD` date that exists.
pub fn decode_new_food(name: Option<String>, best_before_date: Option<String>) -> (r: Result<
    NewFood,
    ApiError,
>)
    ensures
        match decoded_new_food(text_of(name), text_of(best_before_date)) {
            Some((n, d)) => r matches Ok(f) && f.name@ == n && f.best_before_date == d,
            None => r == Err::<NewFood, ApiError>(ApiError::Decode),
        },
        r matches Ok(f) ==> f.best_before_date.wf(),
{
    match (name, best_before_date) {
        (Some(n), Some(t)) => match parse_date(t.as_str()) {
            Some(d) => Ok(NewFood { name: n, best_before_date: d }),
            None => Err(ApiError::Decode),
        },
        _ => Err(ApiError::Decode),
    }
}

/// Answers a list request: the rows, latest best-before date first, capped
/// at the requested limit or at the default one.
pub fn handle_get_foods(table: &FoodTable, limit: Option<u32>) -> (r: Vec<Food>)
    requires
        table.wf(),
    ensures
        rows_view(r@) == listed(table@, effective_limit(limit) as int),
{
    table.get_foods(list_limit(limit))
}

/// Answers a create request from the fields of its body. A body that does
/// not decode changes nothing.
pub fn handle_create_food(
    table: &mut FoodTable,
    name: Option<String>,
    best_before_date: Option<String>,
) -> (r: Result<Food, ApiError>)
    requires
        old(table).wf(),
    ensures
        final(table).wf(),
        match decoded_new_food(text_of(name), text_of(best_before_date)) {
            None => r == Err::<Food, ApiError>(ApiError::Decode) && final(table)@ == old(table)@,
            Some((n, d)) => if can_create(old(table)@) {
                r matches Ok(f) && f@ == created_row(old(table)@, n, d) && final(table)@
                    == table_after_create(old(table)@, n, d)
            } else {
                r == Err::<Food, ApiError>(ApiError::Storage) && final(table)@ == old(table)@
            },
        },
{
    let food = decode_new_food(name, best_before_date)?;
    table.create_food(food)
}

/// Answers a delete request whose path holds `id_text`: no content once the
/// identifier reads as an integer, whether or not a row had it.
pub fn handle_delete_food(table: &mut FoodTable, id_text: &str) -> (r: Result<u16, ApiError>)
    requires
        old(table).wf(),
    ensures
        final(table).wf(),
        match i32_text_value(id_text@) {
            Some(id) => r == Ok::<u16, ApiError>(STATUS_NO_CONTENT) && final(table)@
                == table_after_delete(old(table)@, id as int),
            None => r == Err::<u16, ApiError>(ApiError::Param) && final(table)@ == old(table)@,
        },
{
    let id = parse_id(id_text)?;
    table.delete_food(id);
    Ok(STATUS_NO_CONTENT)
}

} // verus!
