//! The todo entity: a record with an identifier, a title, a description and
//! a creation instant in milliseconds since the Unix epoch.

use vstd::prelude::*;

verus! {

/// Mathematical view of a [`Todo`]: character sequences for the string
/// fields and the creation instant as an unbounded integer.
pub struct TodoView {
    pub id: Seq<char>,
    pub title: Seq<char>,
    pub description: Seq<char>,
    pub created: int,
}

/// A todo record. The identifier is empty until [`Todo::generate_id`]
/// assigns one; once assigned it is never changed.
#[derive(Debug)]
pub struct Todo {
    pub id: String,
    pub title: String,
    pub description: String,
    pub created: i64,
}

impl View for Todo {
    type V = TodoView;

    open spec fn view(&self) -> TodoView {
        TodoView {
            id: self.id@,
            title: self.title@,
            description: self.description@,
            created: self.created as int,
        }
    }
}

impl Todo {
    /// Builds a record from a title, a description and a creation instant,
    /// with an empty placeholder identifier; [`Todo::generate_id`] must be
    /// called once before the record is persisted.
    pub fn new(title: String, description: String, created: i64) -> (t: Todo)
        ensures
            t@.id =~= Seq::<char>::empty(),
            t@.title == title@,
            t@.description == description@,
            t@.created == created as int,
    {
        Todo { id: String::new(), title, description, created }
    }

    /// Assigns a freshly generated identifier and leaves the other fields
    /// alone. Every identifier produced here is 36 characters long, so in
    /// particular non-empty.
    pub fn generate_id(&mut self)
        ensures
            final(self)@.id.len() == 36,
            final(self)@.title == old(self)@.title,
            final(self)@.description == old(self)@.description,
            final(self)@.created == old(self)@.created,
    {
        self.id = fresh_id();
    }

    /// An exact copy of the record.
    pub fn duplicate(&self) -> (t: Todo)
        ensures
            t@ == self@,
    {
        Todo {
            id: self.id.clone(),
            title: self.title.clone(),
            description: self.description.clone(),
            created: self.created,
        }
    }
}

/// Relies on `uuid::Uuid::new_v4` and the `Display` impl of `uuid::Uuid`:
/// a fresh version-4 UUID rendered in the hyphenated form, which is always
/// 36 characters long. The value is random, so nothing more is promised.
#[verifier::external_body]
fn fresh_id() -> (r: String)
    ensures
        r@.len() == 36,
{
    uuid::Uuid::new_v4().to_string()
}

} // verus!
