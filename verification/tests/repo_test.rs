//! The repository operations, exercised against the in-memory table.

use todo_api::repo::{RepoError, TodoRepository};
use todo_api::todo::Todo;

const CREATED: i64 = 1708000000000;

fn todo_with_id(id: &str, title: &str, description: &str, created: i64) -> Todo {
    let mut t = Todo::new(String::from(title), String::from(description), created);
    t.id = String::from(id);
    t
}

#[test]
fn dynamo_db_insert_todo() {
    let mut repo = TodoRepository::new();
    let todo = todo_with_id("1", "Title", "Description", CREATED);
    repo.insert_todo(todo).unwrap();

    let fetched = repo.get_todo("1").unwrap().unwrap();
    assert_eq!(fetched.id, "1");
    assert_eq!(fetched.title, "Title");
    assert_eq!(fetched.description, "Description");
    assert_eq!(fetched.created, CREATED);
}

#[test]
fn dynamo_db_update_todo() {
    let mut repo = TodoRepository::new();
    repo.insert_todo(todo_with_id("1", "Title", "Description", CREATED))
        .unwrap();
    repo.update_todo(todo_with_id(
        "1",
        "Title (updated)",
        "Description (updated)",
        CREATED,
    ))
    .unwrap();

    let fetched = repo.get_todo("1").unwrap().unwrap();
    assert_eq!(fetched.title, "Title (updated)");
    assert_eq!(fetched.description, "Description (updated)");
}

#[test]
fn dynamo_db_get_todo() {
    let mut repo = TodoRepository::new();
    repo.insert_todo(todo_with_id("1", "Title", "Description", CREATED))
        .unwrap();

    let todo = repo.get_todo("1").unwrap();
    assert!(todo.is_some());
}

#[test]
fn dynamo_db_get_todo_list() {
    let mut repo = TodoRepository::new();
    repo.insert_todo(todo_with_id("1", "Title", "Description", CREATED))
        .unwrap();
    repo.insert_todo(todo_with_id("2", "Other", "Else", CREATED + 1))
        .unwrap();

    let todos = repo.get_all().unwrap();
    assert_eq!(todos.len(), 2);
}

#[test]
fn dynamo_db_delete_todo() {
    let mut repo = TodoRepository::new();
    repo.insert_todo(todo_with_id("1", "Title", "Description", CREATED))
        .unwrap();
    repo.delete_todo("1").unwrap();
    assert!(repo.get_todo("1").unwrap().is_none());
}

#[test]
fn fetch_never_created_is_absent_not_error() {
    let repo = TodoRepository::new();
    let fetched = repo.get_todo("no-such-id").unwrap();
    assert!(fetched.is_none());
}

#[test]
fn insert_same_id_twice_last_write_wins() {
    let mut repo = TodoRepository::new();
    repo.insert_todo(todo_with_id("dup", "First", "One", CREATED))
        .unwrap();
    repo.insert_todo(todo_with_id("dup", "Second", "Two", CREATED + 5))
        .unwrap();

    let fetched = repo.get_todo("dup").unwrap().unwrap();
    assert_eq!(fetched.title, "Second");
    assert_eq!(fetched.description, "Two");
    assert_eq!(fetched.created, CREATED + 5);

    let todos = repo.get_all().unwrap();
    let matching: Vec<_> = todos.iter().filter(|t| t.id == "dup").collect();
    assert_eq!(matching.len(), 1);
}

#[test]
fn update_keeps_id_and_created() {
    let mut repo = TodoRepository::new();
    repo.insert_todo(todo_with_id("1", "Before", "Old", CREATED))
        .unwrap();
    repo.update_todo(todo_with_id("1", "After", "New", 42))
        .unwrap();

    let fetched = repo.get_todo("1").unwrap().unwrap();
    assert_eq!(fetched.id, "1");
    assert_eq!(fetched.title, "After");
    assert_eq!(fetched.description, "New");
    assert_eq!(fetched.created, CREATED);
}

#[test]
fn update_of_absent_id_creates_partial_record() {
    let mut repo = TodoRepository::new();
    repo.update_todo(todo_with_id("ghost", "Title", "Description", CREATED))
        .unwrap();

    let fetched = repo.get_todo("ghost");
    match fetched {
        Err(RepoError::Malformed(e)) => assert_eq!(
            e,
            todo_api::record::MapError::Missing(todo_api::record::Attr::Created)
        ),
        other => panic!("expected a malformed-record failure, got {:?}", other),
    }
}

#[test]
fn delete_twice_is_idempotent() {
    let mut repo = TodoRepository::new();
    repo.insert_todo(todo_with_id("1", "Title", "Description", CREATED))
        .unwrap();
    repo.delete_todo("1").unwrap();
    repo.delete_todo("1").unwrap();
    assert!(repo.get_todo("1").unwrap().is_none());
}

#[test]
fn list_never_exceeds_cap_of_twenty() {
    let mut repo = TodoRepository::new();
    for i in 0..25 {
        repo.insert_todo(todo_with_id(
            &format!("id-{}", i),
            "Title",
            "Description",
            CREATED + i,
        ))
        .unwrap();
    }
    let todos = repo.get_all().unwrap();
    assert_eq!(todos.len(), 20);
}

#[test]
fn list_of_empty_table_is_empty() {
    let repo = TodoRepository::new();
    assert_eq!(repo.get_all().unwrap().len(), 0);
}
