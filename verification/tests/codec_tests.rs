use todo_app::codec::{todo_to_json, todos_to_json};
use todo_app::model::{error_status, CreateTodo, Todo, TodoError, UpdateTodo};
use todo_app::store::TodoStore;

#[test]
fn encodes_every_field_in_order() {
    let t = Todo {
        id: 0x123456789abcdef0123456789abcdef0,
        title: String::from("Buy milk"),
        description: None,
        completed: false,
        created_at: 0,
        updated_at: 1,
    };
    assert_eq!(
        todo_to_json(&t),
        "{\"id\":\"12345678-9abc-def0-1234-56789abcdef0\",\"title\":\"Buy milk\",\
         \"description\":null,\"completed\":false,\"created_at\":0,\"updated_at\":1}"
    );
}

#[test]
fn encodes_description_and_large_timestamps() {
    let t = Todo {
        id: 0,
        title: String::from("t"),
        description: Some(String::from("a note")),
        completed: true,
        created_at: u64::MAX,
        updated_at: 1700000000000000,
    };
    assert_eq!(
        todo_to_json(&t),
        "{\"id\":\"00000000-0000-0000-0000-000000000000\",\"title\":\"t\",\
         \"description\":\"a note\",\"completed\":true,\
         \"created_at\":18446744073709551615,\"updated_at\":1700000000000000}"
    );
}

#[test]
fn escapes_quotes_backslashes_and_controls() {
    let t = Todo {
        id: 0,
        title: String::from("a\"b\\c\nd\u{1f}"),
        description: Some(String::from("")),
        completed: false,
        created_at: 2,
        updated_at: 3,
    };
    assert_eq!(
        todo_to_json(&t),
        "{\"id\":\"00000000-0000-0000-0000-000000000000\",\
         \"title\":\"a\\\"b\\\\c\\u000ad\\u001f\",\"description\":\"\",\
         \"completed\":false,\"created_at\":2,\"updated_at\":3}"
    );
}

#[test]
fn encodes_a_list_with_comma_separators() {
    assert_eq!(todos_to_json(&Vec::new()), "[]");
    let mut store = TodoStore::new();
    store.create(1, CreateTodo { title: String::from("a"), description: None }, 10).unwrap();
    store.create(2, CreateTodo { title: String::from("b"), description: None }, 20).unwrap();
    assert_eq!(
        todos_to_json(&store.list()),
        "[{\"id\":\"00000000-0000-0000-0000-000000000001\",\"title\":\"a\",\
         \"description\":null,\"completed\":false,\"created_at\":10,\"updated_at\":10},\
         {\"id\":\"00000000-0000-0000-0000-000000000002\",\"title\":\"b\",\
         \"description\":null,\"completed\":false,\"created_at\":20,\"updated_at\":20}]"
    );
}

#[test]
fn post_put_delete_get_scenario() {
    // POST /todos {"title":"Buy milk"} -> 201 with the created record
    let mut store = TodoStore::new();
    let created = store
        .create_fresh(CreateTodo { title: String::from("Buy milk"), description: None }, 1000)
        .unwrap();
    let body = todo_to_json(&created);
    assert!(body.contains("\"title\":\"Buy milk\""));
    assert!(body.contains("\"completed\":false"));
    // the identifier is a canonical non-empty UUID string inside the body
    let id_text = body
        .strip_prefix("{\"id\":\"")
        .and_then(|rest| rest.split('"').next())
        .unwrap()
        .to_string();
    assert_eq!(id_text.len(), 36);
    assert_ne!(id_text, "00000000-0000-0000-0000-000000000000");

    // PUT /todos/{id} {"completed":true} -> 200 with the same title
    let payload = UpdateTodo { title: None, description: None, completed: Some(true) };
    let updated = store.update(created.id, &payload, 2000).unwrap();
    let body = todo_to_json(&updated);
    assert!(body.contains("\"completed\":true"));
    assert!(body.contains("\"title\":\"Buy milk\""));

    // DELETE /todos/{id} -> 204, no content to encode
    assert!(store.delete(created.id).is_ok());

    // GET /todos/{id} -> 404
    assert!(store.get_by_id(created.id).is_none());
    assert_eq!(error_status(TodoError::NotFound), 404);
}
