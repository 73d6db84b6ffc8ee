//! The handler layer: envelopes and the end-to-end create/list flow.

use todo_api::repo::{RepoError, TodoRepository};
use todo_api::route::{
    add_todo, add_todo_response, build_todo, get_todos, health_status, hello_message, AddTodoReq,
    ApiResponse,
};

const NOW: i64 = 1708000000000;

#[test]
fn created_todo_appears_in_listing_with_fresh_id() {
    let mut repo = TodoRepository::new();
    let first = build_todo(
        AddTodoReq {
            title: String::from("T1"),
            description: String::from("D1"),
        },
        NOW,
    );
    let second = build_todo(
        AddTodoReq {
            title: String::from("T2"),
            description: String::from("D2"),
        },
        NOW,
    );
    assert_eq!(first.id.len(), 36);
    assert_eq!(second.id.len(), 36);
    assert_ne!(first.id, second.id);

    let first_id = first.id.clone();
    repo.insert_todo(first).unwrap();
    repo.insert_todo(second).unwrap();

    let todos = repo.get_all().unwrap();
    let found = todos.iter().find(|t| t.id == first_id).unwrap();
    assert_eq!(found.title, "T1");
    assert_eq!(found.description, "D1");
    assert!(!found.id.is_empty());
}

#[test]
fn add_todo_then_get_todos_end_to_end() {
    let mut repo = TodoRepository::new();
    let resp = add_todo(
        &mut repo,
        AddTodoReq {
            title: String::from("T"),
            description: String::from("D"),
        },
        NOW,
    );
    assert_eq!(resp.code, 200);
    assert_eq!(resp.message, "success");
    let id = resp
        .data
        .strip_prefix("Todo inserted with ID: ")
        .expect("the confirmation names the identifier");
    assert_eq!(id.len(), 36);

    let listing = get_todos(&repo);
    assert_eq!(listing.code, 200);
    assert_eq!(listing.message, "success");
    let found = listing.data.iter().find(|t| t.id == id).unwrap();
    assert_eq!(found.title, "T");
    assert_eq!(found.description, "D");
    assert_eq!(found.created, NOW);
}

#[test]
fn add_todo_failure_envelope() {
    let resp = add_todo_response(
        &String::from("some-id"),
        Err(RepoError::Store(String::from("boom"))),
    );
    assert_eq!(resp.code, 400);
    assert_eq!(resp.message, "boom");
    assert_eq!(resp.data, "");
}

#[test]
fn add_todo_success_envelope_names_the_id() {
    let resp = add_todo_response(&String::from("some-id"), Ok(()));
    assert_eq!(resp.code, 200);
    assert_eq!(resp.message, "success");
    assert_eq!(resp.data, "Todo inserted with ID: some-id");
}

#[test]
fn listing_a_malformed_table_gives_a_client_error_envelope() {
    let mut repo = TodoRepository::new();
    // An update of an absent identifier leaves a partial record behind.
    let mut stray = todo_api::todo::Todo::new(String::from("T"), String::from("D"), NOW);
    stray.id = String::from("ghost");
    repo.update_todo(stray).unwrap();

    let listing = get_todos(&repo);
    assert_eq!(listing.code, 400);
    assert_eq!(listing.message, "missing attribute created");
    assert!(listing.data.is_empty());
}

#[test]
fn envelope_wraps_what_it_is_given() {
    let resp: ApiResponse<Vec<i32>> = ApiResponse::new(200, String::from("success"), vec![1, 2]);
    assert_eq!(resp.code, 200);
    assert_eq!(resp.message, "success");
    assert_eq!(resp.data, vec![1, 2]);
}

#[test]
fn static_payloads() {
    assert_eq!(hello_message(), "Hello from AWS Lambda + Axum!!!!! 2024-12-11");
    assert_eq!(health_status(), "ok");
}
