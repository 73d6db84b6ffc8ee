//! Store records. The table keyed by the todo identifier holds, per item,
//! a partition key and typed attributes (string or numeric); this module
//! gives the record shape, the mapping from a record to a [`Todo`], and the
//! record written for a todo, with the round trip between the two.

use vstd::prelude::*;

use crate::decimal::{dec_str, format_i64, lemma_parse_dec_str, parse_i64, parse_i64_spec};
use crate::todo::{Todo, TodoView};

verus! {

/// A typed attribute value: a string, or a number carried as decimal text,
/// the two shapes the store distinguishes.
#[derive(Debug)]
pub enum AttrVal {
    S(String),
    N(String),
}

/// Mathematical view of an [`AttrVal`].
pub enum AttrValView {
    S(Seq<char>),
    N(Seq<char>),
}

impl View for AttrVal {
    type V = AttrValView;

    open spec fn view(&self) -> AttrValView {
        match self {
            AttrVal::S(s) => AttrValView::S(s@),
            AttrVal::N(s) => AttrValView::N(s@),
        }
    }
}

impl AttrVal {
    /// An exact copy of the value.
    pub fn duplicate(&self) -> (r: AttrVal)
        ensures
            r@ == self@,
    {
        match self {
            AttrVal::S(s) => AttrVal::S(s.clone()),
            AttrVal::N(s) => AttrVal::N(s.clone()),
        }
    }
}

/// One stored item: the partition key (always present, the store's schema
/// keys the table by it) and the three remaining attributes, each of which
/// a stored item may lack or hold at the wrong type.
#[derive(Debug)]
pub struct Record {
    pub id: String,
    pub title: Option<AttrVal>,
    pub description: Option<AttrVal>,
    pub created: Option<AttrVal>,
}

/// Mathematical view of a [`Record`].
pub struct RecordView {
    pub id: Seq<char>,
    pub title: Option<AttrValView>,
    pub description: Option<AttrValView>,
    pub created: Option<AttrValView>,
}

impl View for Record {
    type V = RecordView;

    open spec fn view(&self) -> RecordView {
        RecordView {
            id: self.id@,
            title: match self.title {
                Option::Some(a) => Option::Some(a@),
                Option::None => Option::None,
            },
            description: match self.description {
                Option::Some(a) => Option::Some(a@),
                Option::None => Option::None,
            },
            created: match self.created {
                Option::Some(a) => Option::Some(a@),
                Option::None => Option::None,
            },
        }
    }
}

impl Record {
    /// An exact copy of the record.
    pub fn duplicate(&self) -> (r: Record)
        ensures
            r@ == self@,
    {
        Record {
            id: self.id.clone(),
            title: match &self.title {
                Option::Some(a) => Option::Some(a.duplicate()),
                Option::None => Option::None,
            },
            description: match &self.description {
                Option::Some(a) => Option::Some(a.duplicate()),
                Option::None => Option::None,
            },
            created: match &self.created {
                Option::Some(a) => Option::Some(a.duplicate()),
                Option::None => Option::None,
            },
        }
    }
}

/// An attribute a stored record may be malformed in.
#[derive(Clone, Copy, Debug, PartialEq, Eq, Structural)]
pub enum Attr {
    Title,
    Description,
    Created,
}

/// Why a stored record could not be mapped to a todo: an attribute is
/// absent, an attribute has the wrong type, or the creation instant is not
/// decimal text of an `i64`.
#[derive(Clone, Copy, Debug, PartialEq, Eq, Structural)]
pub enum MapError {
    Missing(Attr),
    WrongType(Attr),
    UnparsableCreated,
}

/// What mapping a stored record to a todo yields: the todo when all three
/// attributes are present and well typed, else the first failure in the
/// order title, description, created.
pub open spec fn map_record_spec(r: RecordView) -> Result<TodoView, MapError> {
    match r.title {
        Option::None => Err(MapError::Missing(Attr::Title)),
        Option::Some(AttrValView::N(_)) => Err(MapError::WrongType(Attr::Title)),
        Option::Some(AttrValView::S(title)) => match r.description {
            Option::None => Err(MapError::Missing(Attr::Description)),
            Option::Some(AttrValView::N(_)) => Err(MapError::WrongType(Attr::Description)),
            Option::Some(AttrValView::S(description)) => match r.created {
                Option::None => Err(MapError::Missing(Attr::Created)),
                Option::Some(AttrValView::S(_)) => Err(MapError::WrongType(Attr::Created)),
                Option::Some(AttrValView::N(n)) => match parse_i64_spec(n) {
                    Option::None => Err(MapError::UnparsableCreated),
                    Option::Some(v) => Ok(
                        TodoView { id: r.id, title, description, created: v },
                    ),
                },
            },
        },
    }
}

/// Maps one stored record to a todo, exactly as [`map_record_spec`] says.
pub fn todo_mapper(data: &Record) -> (r: Result<Todo, MapError>)
    ensures
        match r {
            Ok(t) => map_record_spec(data@) == Ok::<TodoView, MapError>(t@),
            Err(e) => map_record_spec(data@) == Err::<TodoView, MapError>(e),
        },
{
    let title = match &data.title {
        Option::None => {
            return Err(MapError::Missing(Attr::Title));
        },
        Option::Some(AttrVal::N(_)) => {
            return Err(MapError::WrongType(Attr::Title));
        },
        Option::Some(AttrVal::S(s)) => s.clone(),
    };
    let description = match &data.description {
        Option::None => {
            return Err(MapError::Missing(Attr::Description));
        },
        Option::Some(AttrVal::N(_)) => {
            return Err(MapError::WrongType(Attr::Description));
        },
        Option::Some(AttrVal::S(s)) => s.clone(),
    };
    let created_text = match &data.created {
        Option::None => {
            return Err(MapError::Missing(Attr::Created));
        },
        Option::Some(AttrVal::S(_)) => {
            return Err(MapError::WrongType(Attr::Created));
        },
        Option::Some(AttrVal::N(s)) => s,
    };
    let created = match parse_i64(created_text.as_str()) {
        Option::None => {
            return Err(MapError::UnparsableCreated);
        },
        Option::Some(v) => v,
    };
    Ok(Todo { id: data.id.clone(), title, description, created })
}

/// The view of each record in a sequence.
pub open spec fn records_view(s: Seq<Record>) -> Seq<RecordView> {
    s.map_values(|r: Record| r@)
}

/// The view of each todo in a sequence.
pub open spec fn todos_view(s: Seq<Todo>) -> Seq<TodoView> {
    s.map_values(|t: Todo| t@)
}

/// What mapping a whole result to todos yields: every record mapped in
/// order, or the failure of the earliest record that does not map.
pub open spec fn map_records_spec(rs: Seq<RecordView>) -> Result<Seq<TodoView>, MapError>
    decreases rs.len(),
{
    if rs.len() == 0 {
        Ok(Seq::<TodoView>::empty())
    } else {
        match map_records_spec(rs.drop_last()) {
            Err(e) => Err(e),
            Ok(ts) => match map_record_spec(rs.last()) {
                Err(e) => Err(e),
                Ok(t) => Ok(ts.push(t)),
            },
        }
    }
}

/// A failing prefix decides the whole mapping.
proof fn lemma_map_records_prefix_err(rs: Seq<RecordView>, k: int)
    requires
        0 <= k <= rs.len(),
        map_records_spec(rs.subrange(0, k)) is Err,
    ensures
        map_records_spec(rs) == map_records_spec(rs.subrange(0, k)),
    decreases rs.len() - k,
{
    if k == rs.len() {
        assert(rs.subrange(0, k) =~= rs);
    } else {
        assert(rs.subrange(0, k + 1).drop_last() =~= rs.subrange(0, k));
        lemma_map_records_prefix_err(rs, k + 1);
    }
}

/// Maps a scan or query result to todos; fails with the earliest record
/// that does not map, exactly as [`map_records_spec`] says.
pub fn todo_list_mapper(data: &Vec<Record>) -> (r: Result<Vec<Todo>, MapError>)
    ensures
        match r {
            Ok(ts) => map_records_spec(records_view(data@)) == Ok::<Seq<TodoView>, MapError>(
                todos_view(ts@),
            ),
            Err(e) => map_records_spec(records_view(data@)) == Err::<Seq<TodoView>, MapError>(e),
        },
{
    let ghost rv = records_view(data@);
    let mut out: Vec<Todo> = Vec::new();
    let mut i: usize = 0;
    proof {
        assert(rv.subrange(0, 0) =~= Seq::<RecordView>::empty());
        assert(todos_view(out@) =~= Seq::<TodoView>::empty());
    }
    while i < data.len()
        invariant
            0 <= i <= data.len(),
            rv == records_view(data@),
            rv.len() == data@.len(),
            map_records_spec(rv.subrange(0, i as int)) == Ok::<Seq<TodoView>, MapError>(
                todos_view(out@),
            ),
        decreases data.len() - i,
    {
        let ghost pre = rv.subrange(0, i as int);
        let ghost cur = rv.subrange(0, i as int + 1);
        let ghost out_pre = out@;
        proof {
            assert(cur.drop_last() =~= pre);
            assert(cur.last() == rv[i as int]);
            assert(rv[i as int] == data@[i as int]@);
        }
        match todo_mapper(&data[i]) {
            Err(e) => {
                proof {
                    assert(map_records_spec(cur) == Err::<Seq<TodoView>, MapError>(e));
                    lemma_map_records_prefix_err(rv, i as int + 1);
                }
                return Err(e);
            },
            Ok(t) => {
                out.push(t);
                proof {
                    assert(out@ == out_pre.push(out@.last()));
                    assert(todos_view(out@) =~= todos_view(out_pre).push(out@.last()@));
                    assert(map_record_spec(cur.last()) == Ok::<TodoView, MapError>(
                        out@.last()@,
                    ));
                    assert(map_records_spec(cur) == Ok::<Seq<TodoView>, MapError>(
                        todos_view(out@),
                    ));
                }
            },
        }
        i += 1;
    }
    proof {
        assert(rv.subrange(0, data@.len() as int) =~= rv);
    }
    Ok(out)
}

/// The record written to the store for a todo: all four attributes, the
/// creation instant as decimal text.
pub open spec fn record_of_todo_spec(t: TodoView) -> RecordView {
    RecordView {
        id: t.id,
        title: Option::Some(AttrValView::S(t.title)),
        description: Option::Some(AttrValView::S(t.description)),
        created: Option::Some(AttrValView::N(dec_str(t.created))),
    }
}

/// Builds the record written to the store for a todo.
pub fn record_of_todo(t: &Todo) -> (r: Record)
    ensures
        r@ == record_of_todo_spec(t@),
{
    Record {
        id: t.id.clone(),
        title: Option::Some(AttrVal::S(t.title.clone())),
        description: Option::Some(AttrVal::S(t.description.clone())),
        created: Option::Some(AttrVal::N(format_i64(t.created))),
    }
}

/// Law: the record written for a todo maps back to exactly that todo.
pub proof fn lemma_record_round_trip(t: TodoView)
    requires
        i64::MIN <= t.created <= i64::MAX,
    ensures
        map_record_spec(record_of_todo_spec(t)) == Ok::<TodoView, MapError>(t),
{
    lemma_parse_dec_str(t.created);
}

} // verus!
