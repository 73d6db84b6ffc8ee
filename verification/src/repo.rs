//! The repository: the five operations on the todo table, each one store
//! round trip, together with the decision logic on what a lookup returned
//! and the laws that hold of the operations.

use vstd::prelude::*;

use crate::record::{
    map_record_spec, map_records_spec, record_of_todo, record_of_todo_spec, records_view,
    todo_list_mapper, todo_mapper, todos_view, Attr, MapError, Record, RecordView,
};
use crate::table::{
    delete_spec, has_id, idx_of, lookup_spec, put_spec, scan_spec, unique_ids, update_spec,
    updated_row, Table,
};
use crate::todo::{Todo, TodoView};

verus! {

/// Why a repository call failed: the store could not be reached or refused
/// the call (the message comes with it), a stored record could not be
/// mapped, or a keyed lookup returned more than one record, which breaks
/// the store's key-uniqueness invariant.
#[derive(Debug, PartialEq, Eq)]
pub enum RepoError {
    Store(String),
    Malformed(MapError),
    IdCollision,
}

/// The name of an attribute, for failure messages.
pub open spec fn attr_name(a: Attr) -> Seq<char> {
    match a {
        Attr::Title => "title"@,
        Attr::Description => "description"@,
        Attr::Created => "created"@,
    }
}

/// The description of a mapping failure.
pub open spec fn map_error_text(e: MapError) -> Seq<char> {
    match e {
        MapError::Missing(a) => "missing attribute "@ + attr_name(a),
        MapError::WrongType(a) => "wrong type for attribute "@ + attr_name(a),
        MapError::UnparsableCreated => "unparsable creation instant"@,
    }
}

impl RepoError {
    /// The human-readable description a failure envelope carries.
    pub open spec fn describe_spec(&self) -> Seq<char> {
        match self {
            RepoError::Store(m) => m@,
            RepoError::Malformed(e) => map_error_text(*e),
            RepoError::IdCollision => "more than one item found"@,
        }
    }

    /// Renders the description of the failure.
    pub fn describe(&self) -> (r: String)
        ensures
            r@ == self.describe_spec(),
    {
        match self {
            RepoError::Store(m) => m.clone(),
            RepoError::Malformed(MapError::Missing(a)) => "missing attribute ".to_owned().concat(
                attr_name_str(*a),
            ),
            RepoError::Malformed(MapError::WrongType(a)) => "wrong type for attribute "
                .to_owned()
                .concat(attr_name_str(*a)),
            RepoError::Malformed(MapError::UnparsableCreated) => "unparsable creation instant"
                .to_owned(),
            RepoError::IdCollision => "more than one item found".to_owned(),
        }
    }
}

/// The attribute name as text.
fn attr_name_str(a: Attr) -> (r: &'static str)
    ensures
        r@ == attr_name(a),
{
    match a {
        Attr::Title => "title",
        Attr::Description => "description",
        Attr::Created => "created",
    }
}

/// Decides what a keyed lookup yielded: no record is "not found" (an absent
/// result, not an error), one record is mapped to its todo, and more than
/// one record is the broken-invariant failure.
pub fn resolve_lookup(items: &Vec<Record>) -> (r: Result<Option<Todo>, RepoError>)
    ensures
        items@.len() == 0 ==> r == Ok::<Option<Todo>, RepoError>(None),
        items@.len() == 1 ==> match map_record_spec(items@[0]@) {
            Ok(tv) => r matches Ok(Some(t)) && t@ == tv,
            Err(me) => r == Err::<Option<Todo>, RepoError>(RepoError::Malformed(me)),
        },
        items@.len() > 1 ==> r == Err::<Option<Todo>, RepoError>(RepoError::IdCollision),
{
    if items.len() > 1 {
        return Err(RepoError::IdCollision);
    }
    if items.len() == 0 {
        return Ok(None);
    }
    match todo_mapper(&items[0]) {
        Ok(t) => Ok(Some(t)),
        Err(e) => Err(RepoError::Malformed(e)),
    }
}

/// The repository over the todo table. The managed store guarantees the
/// key-uniqueness invariant [`Table::wf`]; every operation here preserves
/// it.
pub struct TodoRepository {
    table: Table,
}

impl View for TodoRepository {
    type V = Seq<RecordView>;

    closed spec fn view(&self) -> Seq<RecordView> {
        self.table@
    }
}

impl TodoRepository {
    /// Distinct partition keys, the store's guarantee.
    pub open spec fn wf(&self) -> bool {
        unique_ids(self@)
    }

    /// A repository over an empty table.
    pub fn new() -> (r: TodoRepository)
        ensures
            r@ =~= Seq::<RecordView>::empty(),
            r.wf(),
    {
        TodoRepository { table: Table::new() }
    }

    /// Lists at most 20 todos: the first stored records, each mapped; fails
    /// with the earliest record that does not map. An empty table yields an
    /// empty list.
    pub fn get_all(&self) -> (r: Result<Vec<Todo>, RepoError>)
        requires
            self.wf(),
        ensures
            match r {
                Ok(ts) => map_records_spec(scan_spec(self@, 20)) == Ok::<Seq<TodoView>, MapError>(
                    todos_view(ts@),
                ) && ts@.len() <= 20,
                Err(e) => e matches RepoError::Malformed(me) && map_records_spec(
                    scan_spec(self@, 20),
                ) == Err::<Seq<TodoView>, MapError>(me),
            },
    {
        let items = self.table.scan(20);
        match todo_list_mapper(&items) {
            Ok(ts) => {
                proof {
                    lemma_map_records_len(records_view(items@), todos_view(ts@));
                }
                Ok(ts)
            },
            Err(e) => Err(RepoError::Malformed(e)),
        }
    }

    /// Fetches the todo with the identifier: an absent identifier yields an
    /// absent result, not an error; a present record is mapped.
    pub fn get_todo(&self, id: &str) -> (r: Result<Option<Todo>, RepoError>)
        requires
            self.wf(),
        ensures
            match lookup_spec(self@, id@) {
                Option::None => r == Ok::<Option<Todo>, RepoError>(None),
                Option::Some(row) => match map_record_spec(row) {
                    Ok(tv) => r matches Ok(Some(t)) && t@ == tv,
                    Err(me) => r == Err::<Option<Todo>, RepoError>(RepoError::Malformed(me)),
                },
            },
    {
        let items = self.table.query(id);
        proof {
            if lookup_spec(self@, id@) is Some {
                assert(records_view(items@).len() == 1);
                assert(items@.len() == 1);
                assert(records_view(items@)[0] == items@[0]@);
                assert(items@[0]@ == lookup_spec(self@, id@)->Some_0);
            } else {
                assert(records_view(items@).len() == 0);
                assert(items@.len() == 0);
            }
        }
        resolve_lookup(&items)
    }

    /// Writes all four attributes of the todo unconditionally, overwriting
    /// any record with the same identifier.
    pub fn insert_todo(&mut self, todo: Todo) -> (r: Result<(), RepoError>)
        requires
            old(self).wf(),
        ensures
            final(self).wf(),
            final(self)@ == put_spec(old(self)@, record_of_todo_spec(todo@)),
            r == Ok::<(), RepoError>(()),
    {
        let rec = record_of_todo(&todo);
        self.table.put(rec);
        Ok(())
    }

    /// Rewrites title and description for the record with the todo's
    /// identifier; the creation instant is ignored. For an absent
    /// identifier the store's update-or-insert semantics create a partial
    /// record, a caveat of this operation, not a feature.
    pub fn update_todo(&mut self, todo: Todo) -> (r: Result<(), RepoError>)
        requires
            old(self).wf(),
        ensures
            final(self).wf(),
            final(self)@ == update_spec(old(self)@, todo@.id, todo@.title, todo@.description),
            r == Ok::<(), RepoError>(()),
    {
        let Todo { id, title, description, created: _ } = todo;
        self.table.update(id.as_str(), title, description);
        Ok(())
    }

    /// Removes the record with the identifier; removing an absent
    /// identifier succeeds and changes nothing.
    pub fn delete_todo(&mut self, id: &str) -> (r: Result<(), RepoError>)
        requires
            old(self).wf(),
        ensures
            final(self).wf(),
            final(self)@ == delete_spec(old(self)@, id@),
            r == Ok::<(), RepoError>(()),
    {
        self.table.delete(id);
        Ok(())
    }
}

/// A mapped result has one todo per record.
proof fn lemma_map_records_len(rs: Seq<RecordView>, ts: Seq<TodoView>)
    requires
        map_records_spec(rs) == Ok::<Seq<TodoView>, MapError>(ts),
    ensures
        ts.len() == rs.len(),
    decreases rs.len(),
{
    if rs.len() > 0 {
        let prev = map_records_spec(rs.drop_last());
        match prev {
            Ok(ts0) => {
                lemma_map_records_len(rs.drop_last(), ts0);
            },
            Err(_) => {},
        }
    }
}

/// A mapped result maps each record in place.
pub proof fn lemma_map_records_index(rs: Seq<RecordView>, ts: Seq<TodoView>)
    requires
        map_records_spec(rs) == Ok::<Seq<TodoView>, MapError>(ts),
    ensures
        ts.len() == rs.len(),
        forall|i: int|
            0 <= i < rs.len() ==> map_record_spec(rs[i]) == Ok::<TodoView, MapError>(ts[i]),
    decreases rs.len(),
{
    lemma_map_records_len(rs, ts);
    if rs.len() > 0 {
        let ts0 = map_records_spec(rs.drop_last())->Ok_0;
        lemma_map_records_index(rs.drop_last(), ts0);
        assert(ts == ts0.push(map_record_spec(rs.last())->Ok_0));
        assert(forall|i: int| 0 <= i < rs.len() - 1 ==> rs.drop_last()[i] == rs[i]);
        assert(forall|i: int| 0 <= i < rs.len() - 1 ==> ts0[i] == ts[i]);
    }
}

/// Law: creating a todo and then listing yields a list with a record whose
/// identifier, title, description and creation instant are the created
/// ones, provided the table held fewer than the listing cap of 20 rows.
pub proof fn lemma_create_then_list(rows: Seq<RecordView>, t: TodoView, ts: Seq<TodoView>)
    requires
        unique_ids(rows),
        rows.len() < 20,
        i64::MIN <= t.created <= i64::MAX,
        map_records_spec(scan_spec(put_spec(rows, record_of_todo_spec(t)), 20)) == Ok::<
            Seq<TodoView>,
            MapError,
        >(ts),
    ensures
        exists|i: int| 0 <= i < ts.len() && ts[i] == t,
{
    let rec = record_of_todo_spec(t);
    let rows2 = put_spec(rows, rec);
    assert(rows2.len() <= rows.len() + 1);
    assert(scan_spec(rows2, 20) == rows2);
    lemma_map_records_index(rows2, ts);
    crate::record::lemma_record_round_trip(t);
    if has_id(rows, rec.id) {
        let w = idx_of(rows, rec.id);
        assert(0 <= w < rows.len() && rows[w].id == rec.id);
        assert(rows2[w] == rec);
        assert(ts[w] == t);
    } else {
        let w = rows.len() as int;
        assert(rows2[w] == rec);
        assert(ts[w] == t);
    }
}

/// Law: after inserting two todos with the same identifier, a fetch of that
/// identifier maps to the todo inserted last, and the identifier still names
/// at most one record.
pub proof fn lemma_insert_twice_then_fetch(rows: Seq<RecordView>, t1: TodoView, t2: TodoView)
    requires
        unique_ids(rows),
        t1.id == t2.id,
        i64::MIN <= t2.created <= i64::MAX,
    ensures
        ({
            let rows2 = put_spec(put_spec(rows, record_of_todo_spec(t1)), record_of_todo_spec(t2));
            lookup_spec(rows2, t2.id) == Option::Some(record_of_todo_spec(t2)) && map_record_spec(
                lookup_spec(rows2, t2.id)->Some_0,
            ) == Ok::<TodoView, MapError>(t2) && unique_ids(rows2)
        }),
{
    crate::table::lemma_put_last_write_wins(
        rows,
        record_of_todo_spec(t1),
        record_of_todo_spec(t2),
    );
    crate::record::lemma_record_round_trip(t2);
}

/// Law: updating a todo's title and description and then fetching that
/// identifier reflects the new values, while the identifier and the
/// creation instant are those the record held before.
pub proof fn lemma_update_then_fetch(
    rows: Seq<RecordView>,
    id: Seq<char>,
    title: Seq<char>,
    description: Seq<char>,
)
    requires
        unique_ids(rows),
        has_id(rows, id),
        map_record_spec(lookup_spec(rows, id)->Some_0) is Ok,
    ensures
        ({
            let t0 = map_record_spec(lookup_spec(rows, id)->Some_0)->Ok_0;
            let after = lookup_spec(update_spec(rows, id, title, description), id);
            after is Some && map_record_spec(after->Some_0) == Ok::<TodoView, MapError>(
                TodoView { id: t0.id, title, description, created: t0.created },
            )
        }),
{
    crate::table::lemma_update_keeps_key_and_created(rows, id, title, description);
    let row0 = lookup_spec(rows, id)->Some_0;
    let row1 = updated_row(row0, title, description);
    assert(lookup_spec(update_spec(rows, id, title, description), id) == Option::Some(row1));
}

} // verus!
