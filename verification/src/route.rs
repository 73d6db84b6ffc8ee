//! The handler layer: the uniform response envelope and the decision logic
//! of the list and create endpoints, stated over the repository. The HTTP
//! transport around these — routing, JSON, the listener — lives in the
//! binary; it hands in plain values and sends the envelopes back out.

use vstd::prelude::*;

use crate::record::{map_records_spec, record_of_todo_spec, MapError};
use crate::repo::{RepoError, TodoRepository};
use crate::table::{put_spec, scan_spec};
use crate::todo::{Todo, TodoView};

verus! {

/// The uniform response envelope every endpoint returns: a status code, a
/// message, and the payload.
#[derive(Debug)]
pub struct ApiResponse<T> {
    pub code: u16,
    pub message: String,
    pub data: T,
}

impl<T> ApiResponse<T> {
    /// Wraps a payload.
    pub fn new(code: u16, message: String, data: T) -> (r: ApiResponse<T>)
        ensures
            r.code == code,
            r.message == message,
            r.data == data,
    {
        ApiResponse { code, message, data }
    }
}

/// The body of the create endpoint: a title and a description. Any strings
/// are accepted; nothing validates their length or content.
#[derive(Debug)]
pub struct AddTodoReq {
    pub title: String,
    pub description: String,
}

/// The list endpoint against a repository: a success envelope around the
/// todos, or a client-error envelope with the failure's description around
/// an empty list.
pub fn get_todos(repo: &TodoRepository) -> (r: ApiResponse<Vec<Todo>>)
    requires
        repo.wf(),
    ensures
        match map_records_spec(scan_spec(repo@, 20)) {
            Ok(ts) => r.code == 200 && r.message@ == "success"@ && crate::record::todos_view(
                r.data@,
            ) == ts && r.data@.len() <= 20,
            Err(me) => r.code == 400 && r.message@ == RepoError::Malformed(me).describe_spec()
                && r.data@.len() == 0,
        },
{
    get_todos_response(repo.get_all())
}

/// Shapes the list endpoint's envelope from the listing outcome: a success
/// envelope around the todos, or the failure's description around an empty
/// list.
pub fn get_todos_response(outcome: Result<Vec<Todo>, RepoError>) -> (r: ApiResponse<Vec<Todo>>)
    ensures
        match outcome {
            Ok(ts) => r.code == 200 && r.message@ == "success"@ && r.data == ts,
            Err(e) => r.code == 400 && r.message@ == e.describe_spec() && r.data@.len() == 0,
        },
{
    match outcome {
        Ok(todos) => ApiResponse::new(200, "success".to_owned(), todos),
        Err(e) => ApiResponse::new(400, e.describe(), Vec::new()),
    }
}

/// The todo the create endpoint makes from a request body and the current
/// instant: a fresh 36-character identifier, the given title and
/// description.
pub fn build_todo(params: AddTodoReq, now_millis: i64) -> (t: Todo)
    ensures
        t@.id.len() == 36,
        t@.title == params.title@,
        t@.description == params.description@,
        t@.created == now_millis as int,
{
    let mut item = Todo::new(params.title, params.description, now_millis);
    item.generate_id();
    item
}

/// The create endpoint against a repository: builds the todo with a fresh
/// identifier, inserts it, and returns a success envelope whose payload
/// names the new identifier.
pub fn add_todo(repo: &mut TodoRepository, params: AddTodoReq, now_millis: i64) -> (r:
    ApiResponse<String>)
    requires
        old(repo).wf(),
    ensures
        final(repo).wf(),
        r.code == 200,
        r.message@ == "success"@,
        exists|id: Seq<char>|
            id.len() == 36 && r.data@ == "Todo inserted with ID: "@ + id && final(repo)@
                == put_spec(
                old(repo)@,
                record_of_todo_spec(
                    TodoView {
                        id,
                        title: params.title@,
                        description: params.description@,
                        created: now_millis as int,
                    },
                ),
            ),
{
    let item = build_todo(params, now_millis);
    let ghost idv = item@.id;
    let id_text = item.id.clone();
    let outcome = repo.insert_todo(item);
    let resp = add_todo_response(&id_text, outcome);
    proof {
        assert(resp.data@ == "Todo inserted with ID: "@ + idv);
    }
    resp
}

/// Shapes the create endpoint's envelope from the assigned identifier and
/// the insert outcome: a confirmation naming the identifier on success, the
/// failure's description around an empty payload otherwise.
pub fn add_todo_response(id: &String, outcome: Result<(), RepoError>) -> (r: ApiResponse<String>)
    ensures
        match outcome {
            Ok(_) => r.code == 200 && r.message@ == "success"@ && r.data@
                == "Todo inserted with ID: "@ + id@,
            Err(e) => r.code == 400 && r.message@ == e.describe_spec() && r.data@
                == Seq::<char>::empty(),
        },
{
    match outcome {
        Ok(_) => ApiResponse::new(
            200,
            "success".to_owned(),
            "Todo inserted with ID: ".to_owned().concat(id.as_str()),
        ),
        Err(e) => ApiResponse::new(400, e.describe(), String::new()),
    }
}

/// The greeting payload of the root and hello endpoints.
pub fn hello_message() -> (r: &'static str)
    ensures
        r@ == "Hello from AWS Lambda + Axum!!!!! 2024-12-11"@,
{
    "Hello from AWS Lambda + Axum!!!!! 2024-12-11"
}

/// The status payload of the health endpoint.
pub fn health_status() -> (r: &'static str)
    ensures
        r@ == "ok"@,
{
    "ok"
}

} // verus!
