use todo_app::model::{error_status, merge_todo, CreateTodo, Todo, TodoError, UpdateTodo};
use todo_app::store::TodoStore;

fn input(title: &str, description: Option<&str>) -> CreateTodo {
    CreateTodo { title: String::from(title), description: description.map(String::from) }
}

fn no_change() -> UpdateTodo {
    UpdateTodo { title: None, description: None, completed: None }
}

#[test]
fn create_then_get_returns_created() {
    let mut store = TodoStore::new();
    let created = store.create(7, input("Buy milk", Some("two liters")), 100).unwrap();
    assert_eq!(created.id, 7);
    assert_eq!(created.title, "Buy milk");
    assert_eq!(created.description.as_deref(), Some("two liters"));
    assert!(!created.completed);
    assert_eq!(created.created_at, 100);
    assert_eq!(created.updated_at, 100);
    let got = store.get_by_id(7).unwrap();
    assert_eq!(got, created);
}

#[test]
fn create_fresh_then_get_returns_created() {
    let mut store = TodoStore::new();
    let created = store.create_fresh(input("Buy milk", None), 5).unwrap();
    let got = store.get_by_id(created.id).unwrap();
    assert_eq!(got, created);
    // the identifier carries the version-4 and variant bits
    assert_eq!(created.id & 0xF0000000000000000000, 0x40000000000000000000);
    assert_eq!(created.id & 0xC000000000000000, 0x8000000000000000);
}

#[test]
fn create_on_taken_id_is_store_fault() {
    let mut store = TodoStore::new();
    store.create(1, input("first", None), 1).unwrap();
    let second = store.create(1, input("second", None), 2);
    assert_eq!(second.unwrap_err(), TodoError::Store);
    // the store is unchanged: the first record is still there, alone
    assert_eq!(store.list().len(), 1);
    assert_eq!(store.get_by_id(1).unwrap().title, "first");
}

#[test]
fn delete_then_get_is_not_found() {
    let mut store = TodoStore::new();
    store.create(3, input("short lived", None), 10).unwrap();
    assert!(store.delete(3).is_ok());
    assert!(store.get_by_id(3).is_none());
}

#[test]
fn delete_missing_is_not_found() {
    let mut store = TodoStore::new();
    store.create(3, input("kept", None), 10).unwrap();
    assert_eq!(store.delete(4).unwrap_err(), TodoError::NotFound);
    assert_eq!(store.list().len(), 1);
}

#[test]
fn get_unused_id_is_none_not_an_error() {
    let mut store = TodoStore::new();
    store.create(1, input("one", None), 1).unwrap();
    store.create(2, input("two", None), 2).unwrap();
    assert!(store.get_by_id(0xDEAD_BEEF).is_none());
    assert!(store.get_by_id(u128::MAX).is_none());
}

#[test]
fn update_with_no_fields_refreshes_only_updated_at() {
    let mut store = TodoStore::new();
    store.create(9, input("Buy milk", Some("two liters")), 100).unwrap();
    let updated = store.update(9, &no_change(), 250).unwrap();
    assert_eq!(updated.title, "Buy milk");
    assert_eq!(updated.description.as_deref(), Some("two liters"));
    assert!(!updated.completed);
    assert_eq!(updated.created_at, 100);
    assert_eq!(updated.updated_at, 250);
    assert_eq!(store.get_by_id(9).unwrap(), updated);
}

#[test]
fn update_completed_changes_only_completed_and_updated_at() {
    let mut store = TodoStore::new();
    store.create(9, input("Buy milk", Some("two liters")), 100).unwrap();
    let payload = UpdateTodo { title: None, description: None, completed: Some(true) };
    let updated = store.update(9, &payload, 300).unwrap();
    assert_eq!(updated.title, "Buy milk");
    assert_eq!(updated.description.as_deref(), Some("two liters"));
    assert!(updated.completed);
    assert_eq!(updated.created_at, 100);
    assert_eq!(updated.updated_at, 300);
}

#[test]
fn update_merges_each_field_independently() {
    let mut store = TodoStore::new();
    store.create(4, input("old title", None), 50).unwrap();
    let payload = UpdateTodo {
        title: Some(String::from("new title")),
        description: Some(String::from("now described")),
        completed: None,
    };
    let updated = store.update(4, &payload, 60).unwrap();
    assert_eq!(updated.title, "new title");
    assert_eq!(updated.description.as_deref(), Some("now described"));
    assert!(!updated.completed);
    assert_eq!(updated.created_at, 50);
    assert_eq!(updated.updated_at, 60);
    // a second update touching nothing else keeps the merged values
    let untouched = store.update(4, &no_change(), 70).unwrap();
    assert_eq!(untouched.title, "new title");
    assert_eq!(untouched.description.as_deref(), Some("now described"));
}

#[test]
fn update_missing_is_not_found() {
    let mut store = TodoStore::new();
    let r = store.update(12, &no_change(), 1);
    assert_eq!(r.unwrap_err(), TodoError::NotFound);
}

#[test]
fn list_returns_all_rows_in_insertion_order() {
    let mut store = TodoStore::new();
    assert!(store.list().is_empty());
    store.create(1, input("one", None), 1).unwrap();
    store.create(2, input("two", Some("second")), 2).unwrap();
    store.create(3, input("three", None), 3).unwrap();
    let all = store.list();
    assert_eq!(all.len(), 3);
    assert_eq!(all[0].title, "one");
    assert_eq!(all[1].title, "two");
    assert_eq!(all[2].title, "three");
    store.delete(2).unwrap();
    let rest = store.list();
    assert_eq!(rest.len(), 2);
    assert_eq!(rest[0].title, "one");
    assert_eq!(rest[1].title, "three");
}

#[test]
fn merge_todo_applies_coalesce_semantics() {
    let row = Todo {
        id: 8,
        title: String::from("title"),
        description: Some(String::from("desc")),
        completed: false,
        created_at: 10,
        updated_at: 20,
    };
    let merged = merge_todo(&row, &no_change(), 30);
    assert_eq!(merged.title, "title");
    assert_eq!(merged.description.as_deref(), Some("desc"));
    assert!(!merged.completed);
    assert_eq!(merged.created_at, 10);
    assert_eq!(merged.updated_at, 30);
    let flip = UpdateTodo { title: None, description: None, completed: Some(true) };
    assert!(merge_todo(&row, &flip, 31).completed);
}

#[test]
fn latest_stamp_follows_the_mutations() {
    let mut store = TodoStore::new();
    assert_eq!(store.latest_stamp(), 0);
    store.create(1, input("one", None), 100).unwrap();
    assert_eq!(store.latest_stamp(), 100);
    store.update(1, &no_change(), 150).unwrap();
    assert_eq!(store.latest_stamp(), 150);
    store.delete(1).unwrap();
    assert_eq!(store.latest_stamp(), 150);
}

#[test]
fn error_status_maps_the_three_kinds() {
    assert_eq!(error_status(TodoError::Validation), 400);
    assert_eq!(error_status(TodoError::NotFound), 404);
    assert_eq!(error_status(TodoError::Store), 500);
}
