//! Mapping between stored records and todos.

use todo_api::record::{
    record_of_todo, todo_list_mapper, todo_mapper, Attr, AttrVal, MapError, Record,
};
use todo_api::repo::{resolve_lookup, RepoError};
use todo_api::todo::Todo;

fn good_record(id: &str) -> Record {
    Record {
        id: String::from(id),
        title: Some(AttrVal::S(String::from("Title"))),
        description: Some(AttrVal::S(String::from("Description"))),
        created: Some(AttrVal::N(String::from("1708000000000"))),
    }
}

#[test]
fn mapper_reads_a_well_formed_record() {
    let t = todo_mapper(&good_record("a")).unwrap();
    assert_eq!(t.id, "a");
    assert_eq!(t.title, "Title");
    assert_eq!(t.description, "Description");
    assert_eq!(t.created, 1708000000000);
}

#[test]
fn mapper_rejects_missing_attributes() {
    let mut r = good_record("a");
    r.title = None;
    assert_eq!(todo_mapper(&r).unwrap_err(), MapError::Missing(Attr::Title));

    let mut r = good_record("a");
    r.description = None;
    assert_eq!(
        todo_mapper(&r).unwrap_err(),
        MapError::Missing(Attr::Description)
    );

    let mut r = good_record("a");
    r.created = None;
    assert_eq!(todo_mapper(&r).unwrap_err(), MapError::Missing(Attr::Created));
}

#[test]
fn mapper_rejects_wrong_attribute_types() {
    let mut r = good_record("a");
    r.title = Some(AttrVal::N(String::from("3")));
    assert_eq!(todo_mapper(&r).unwrap_err(), MapError::WrongType(Attr::Title));

    let mut r = good_record("a");
    r.description = Some(AttrVal::N(String::from("3")));
    assert_eq!(
        todo_mapper(&r).unwrap_err(),
        MapError::WrongType(Attr::Description)
    );

    let mut r = good_record("a");
    r.created = Some(AttrVal::S(String::from("2024-02-19")));
    assert_eq!(
        todo_mapper(&r).unwrap_err(),
        MapError::WrongType(Attr::Created)
    );
}

#[test]
fn mapper_rejects_unparsable_created() {
    let mut r = good_record("a");
    r.created = Some(AttrVal::N(String::from("not-a-number")));
    assert_eq!(todo_mapper(&r).unwrap_err(), MapError::UnparsableCreated);

    let mut r = good_record("a");
    r.created = Some(AttrVal::N(String::from("9223372036854775808")));
    assert_eq!(todo_mapper(&r).unwrap_err(), MapError::UnparsableCreated);
}

#[test]
fn record_of_todo_maps_back_to_the_todo() {
    let mut t = Todo::new(String::from("T"), String::from("D"), -77);
    t.id = String::from("x");
    let rec = record_of_todo(&t);
    let back = todo_mapper(&rec).unwrap();
    assert_eq!(back.id, "x");
    assert_eq!(back.title, "T");
    assert_eq!(back.description, "D");
    assert_eq!(back.created, -77);
}

#[test]
fn list_mapper_fails_on_the_first_malformed_record() {
    let mut bad = good_record("b");
    bad.created = Some(AttrVal::N(String::from("?")));
    let records = vec![good_record("a"), bad, good_record("c")];
    assert_eq!(
        todo_list_mapper(&records).unwrap_err(),
        MapError::UnparsableCreated
    );
}

#[test]
fn list_mapper_maps_every_record_in_order() {
    let records = vec![good_record("a"), good_record("b")];
    let todos = todo_list_mapper(&records).unwrap();
    assert_eq!(todos.len(), 2);
    assert_eq!(todos[0].id, "a");
    assert_eq!(todos[1].id, "b");
}

#[test]
fn lookup_of_nothing_is_absent() {
    let r = resolve_lookup(&Vec::new()).unwrap();
    assert!(r.is_none());
}

#[test]
fn lookup_of_two_records_is_an_invariant_violation() {
    let items = vec![good_record("a"), good_record("a")];
    match resolve_lookup(&items) {
        Err(RepoError::IdCollision) => {}
        other => panic!("expected the invariant violation, got {:?}", other),
    }
}

#[test]
fn lookup_of_one_malformed_record_is_a_mapping_failure() {
    let mut bad = good_record("a");
    bad.title = None;
    match resolve_lookup(&vec![bad]) {
        Err(RepoError::Malformed(e)) => assert_eq!(e, MapError::Missing(Attr::Title)),
        other => panic!("expected a malformed-record failure, got {:?}", other),
    }
}

#[test]
fn failure_descriptions() {
    assert_eq!(
        RepoError::Malformed(MapError::Missing(Attr::Created)).describe(),
        "missing attribute created"
    );
    assert_eq!(
        RepoError::Malformed(MapError::WrongType(Attr::Title)).describe(),
        "wrong type for attribute title"
    );
    assert_eq!(
        RepoError::Malformed(MapError::UnparsableCreated).describe(),
        "unparsable creation instant"
    );
    assert_eq!(RepoError::IdCollision.describe(), "more than one item found");
    assert_eq!(RepoError::Store(String::from("boom")).describe(), "boom");
}
