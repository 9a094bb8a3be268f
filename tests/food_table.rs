use foodtracker::date::{format_date, CalendarDate};
use foodtracker::domain::{Food, NewFood};
use foodtracker::handlers::{
    handle_create_food, handle_delete_food, handle_get_foods, ApiError, STATUS_NO_CONTENT,
};
use foodtracker::store::FoodTable;

fn date(year: i32, month: u8, day: u8) -> CalendarDate {
    CalendarDate { year, month, day }
}

fn new_food(name: &str, d: CalendarDate) -> NewFood {
    NewFood { name: name.to_string(), best_before_date: d }
}

fn ids(foods: &[Food]) -> Vec<i32> {
    foods.iter().map(|f| f.id).collect()
}

#[test]
fn milk_and_bread_scenario() {
    let mut t = FoodTable::new();
    let milk = handle_create_food(&mut t, Some("Milk".to_string()), Some("2024-06-01".to_string())).unwrap();
    assert_eq!(milk, Food { id: 1, name: "Milk".to_string(), best_before_date: date(2024, 6, 1) });
    assert_eq!(format_date(&milk.best_before_date), "2024-06-01");
    let bread = handle_create_food(&mut t, Some("Bread".to_string()), Some("2024-05-20".to_string())).unwrap();
    assert_eq!(bread, Food { id: 2, name: "Bread".to_string(), best_before_date: date(2024, 5, 20) });
    let all = handle_get_foods(&t, None);
    assert_eq!(all, vec![milk.clone(), bread.clone()]);
    assert_eq!(handle_delete_food(&mut t, "2"), Ok(STATUS_NO_CONTENT));
    assert_eq!(handle_get_foods(&t, None), vec![milk]);
}

#[test]
fn created_record_keeps_name_and_date_and_is_listed() {
    let mut t = FoodTable::new();
    let f = t.create_food(new_food("Cheese", date(2025, 1, 31))).unwrap();
    assert_eq!(f.name, "Cheese");
    assert_eq!(f.best_before_date, date(2025, 1, 31));
    assert!(t.get_foods(500).contains(&f));
}

#[test]
fn list_is_latest_date_first() {
    let mut t = FoodTable::new();
    t.create_food(new_food("a", date(2024, 5, 1))).unwrap();
    t.create_food(new_food("b", date(2025, 1, 1))).unwrap();
    t.create_food(new_food("c", date(2023, 12, 31))).unwrap();
    t.create_food(new_food("d", date(2024, 6, 15))).unwrap();
    let all = t.get_foods(500);
    assert_eq!(ids(&all), vec![2, 4, 1, 3]);
    for w in all.windows(2) {
        assert!(w[0].best_before_date.sort_key() >= w[1].best_before_date.sort_key());
    }
}

#[test]
fn equal_dates_are_all_listed() {
    let mut t = FoodTable::new();
    t.create_food(new_food("a", date(2024, 5, 1))).unwrap();
    t.create_food(new_food("b", date(2024, 5, 1))).unwrap();
    let mut got = ids(&t.get_foods(500));
    got.sort();
    assert_eq!(got, vec![1, 2]);
}

#[test]
fn limit_caps_the_list() {
    let mut t = FoodTable::new();
    t.create_food(new_food("a", date(2024, 5, 1))).unwrap();
    t.create_food(new_food("b", date(2024, 7, 1))).unwrap();
    t.create_food(new_food("c", date(2024, 6, 1))).unwrap();
    assert_eq!(ids(&t.get_foods(2)), vec![2, 3]);
    assert_eq!(ids(&t.get_foods(0)), Vec::<i32>::new());
    assert_eq!(ids(&handle_get_foods(&t, Some(1))), vec![2]);
    assert_eq!(ids(&handle_get_foods(&t, None)), vec![2, 3, 1]);
}

#[test]
fn empty_table_lists_nothing() {
    let t = FoodTable::new();
    assert!(t.get_foods(500).is_empty());
}

#[test]
fn delete_absent_and_twice_succeeds() {
    let mut t = FoodTable::new();
    t.create_food(new_food("a", date(2024, 5, 1))).unwrap();
    assert_eq!(handle_delete_food(&mut t, "42"), Ok(STATUS_NO_CONTENT));
    assert_eq!(handle_delete_food(&mut t, "1"), Ok(STATUS_NO_CONTENT));
    assert_eq!(handle_delete_food(&mut t, "1"), Ok(STATUS_NO_CONTENT));
    assert!(t.get_foods(500).is_empty());
}

#[test]
fn delete_with_bad_id_is_a_param_error() {
    let mut t = FoodTable::new();
    t.create_food(new_food("a", date(2024, 5, 1))).unwrap();
    let r = handle_delete_food(&mut t, "one");
    assert_eq!(r, Err(ApiError::Param));
    assert_eq!(r.unwrap_err().status(), 400);
    assert_eq!(t.get_foods(500).len(), 1);
}

#[test]
fn deleted_id_is_not_listed() {
    let mut t = FoodTable::new();
    t.create_food(new_food("a", date(2024, 5, 1))).unwrap();
    t.create_food(new_food("b", date(2024, 6, 1))).unwrap();
    t.create_food(new_food("c", date(2024, 7, 1))).unwrap();
    t.delete_food(2);
    assert_eq!(ids(&t.get_foods(500)), vec![3, 1]);
}

#[test]
fn ids_are_distinct_and_not_reused() {
    let mut t = FoodTable::new();
    let mut seen = Vec::new();
    for i in 0..5u8 {
        seen.push(t.create_food(new_food("x", date(2024, 1, 1 + i))).unwrap().id);
    }
    assert_eq!(seen, vec![1, 2, 3, 4, 5]);
    t.delete_food(5);
    let next = t.create_food(new_food("y", date(2024, 2, 1))).unwrap();
    assert_eq!(next.id, 6);
}

#[test]
fn invalid_create_stores_nothing() {
    let mut t = FoodTable::new();
    assert_eq!(handle_create_food(&mut t, None, Some("2024-06-01".to_string())), Err(ApiError::Decode));
    assert_eq!(handle_create_food(&mut t, Some("Milk".to_string()), None), Err(ApiError::Decode));
    let r = handle_create_food(&mut t, Some("Milk".to_string()), Some("2024-13-40".to_string()));
    assert_eq!(r, Err(ApiError::Decode));
    assert_eq!(r.unwrap_err().status(), 400);
    assert!(t.get_foods(500).is_empty());
    let f = handle_create_food(&mut t, Some("Milk".to_string()), Some("2024-06-01".to_string())).unwrap();
    assert_eq!(f.id, 1);
}

#[test]
fn from_new_and_duplicate_keep_fields() {
    let f = Food::from_new(new_food("Jam", date(2026, 3, 3)), 9);
    assert_eq!(f, Food { id: 9, name: "Jam".to_string(), best_before_date: date(2026, 3, 3) });
    assert_eq!(f.duplicate(), f);
}
