//! An in-memory table with the semantics the repository relies on from the
//! managed store: items keyed by the partition key, an unconditional put
//! that overwrites, a keyed lookup, an update that writes two attributes
//! and creates a partial item when the key is absent, a physical delete
//! that is idempotent, and a scan capped at a fixed number of items.

use vstd::prelude::*;

use crate::record::{records_view, AttrVal, AttrValView, Record, RecordView};

verus! {

/// Whether some row of `rows` has partition key `id`.
pub open spec fn has_id(rows: Seq<RecordView>, id: Seq<char>) -> bool {
    exists|i: int| 0 <= i < rows.len() && rows[i].id == id
}

/// The index of the row with partition key `id`; meaningful when the key is
/// present, and unique when the keys of `rows` are distinct.
pub open spec fn idx_of(rows: Seq<RecordView>, id: Seq<char>) -> int {
    choose|i: int| 0 <= i < rows.len() && rows[i].id == id
}

/// Whether all rows carry distinct partition keys: the invariant the store
/// guarantees of a table.
pub open spec fn unique_ids(rows: Seq<RecordView>) -> bool {
    forall|i: int, j: int|
        0 <= i < rows.len() && 0 <= j < rows.len() && i != j ==> rows[i].id != rows[j].id
}

/// What an unconditional put leaves: the row with the same key replaced in
/// place, or the new row appended.
pub open spec fn put_spec(rows: Seq<RecordView>, rec: RecordView) -> Seq<RecordView> {
    if has_id(rows, rec.id) {
        rows.update(idx_of(rows, rec.id), rec)
    } else {
        rows.push(rec)
    }
}

/// What a keyed lookup returns: the row with the key, if any.
pub open spec fn lookup_spec(rows: Seq<RecordView>, id: Seq<char>) -> Option<RecordView> {
    if has_id(rows, id) {
        Option::Some(rows[idx_of(rows, id)])
    } else {
        Option::None
    }
}

/// What a delete leaves: the row with the key removed, or everything
/// unchanged when the key is absent.
pub open spec fn delete_spec(rows: Seq<RecordView>, id: Seq<char>) -> Seq<RecordView> {
    if has_id(rows, id) {
        rows.remove(idx_of(rows, id))
    } else {
        rows
    }
}

/// The row an update leaves for a key that is present: title and
/// description replaced, the key and the creation instant kept.
pub open spec fn updated_row(row: RecordView, title: Seq<char>, description: Seq<char>) -> RecordView {
    RecordView {
        id: row.id,
        title: Option::Some(AttrValView::S(title)),
        description: Option::Some(AttrValView::S(description)),
        created: row.created,
    }
}

/// The partial row an update creates for a key that is absent: no creation
/// instant is written.
pub open spec fn partial_row(id: Seq<char>, title: Seq<char>, description: Seq<char>) -> RecordView {
    RecordView {
        id,
        title: Option::Some(AttrValView::S(title)),
        description: Option::Some(AttrValView::S(description)),
        created: Option::None,
    }
}

/// What an update leaves: the present row rewritten as [`updated_row`], or
/// a fresh [`partial_row`] appended when the key is absent.
pub open spec fn update_spec(
    rows: Seq<RecordView>,
    id: Seq<char>,
    title: Seq<char>,
    description: Seq<char>,
) -> Seq<RecordView> {
    if has_id(rows, id) {
        rows.update(idx_of(rows, id), updated_row(rows[idx_of(rows, id)], title, description))
    } else {
        rows.push(partial_row(id, title, description))
    }
}

/// What a scan capped at `limit` returns: the first rows, all of them when
/// no more than the cap exist.
pub open spec fn scan_spec(rows: Seq<RecordView>, limit: int) -> Seq<RecordView> {
    if rows.len() <= limit {
        rows
    } else {
        rows.subrange(0, limit)
    }
}

/// A row index that carries the key names the index of that key.
proof fn lemma_idx_of_unique(rows: Seq<RecordView>, id: Seq<char>, k: int)
    requires
        unique_ids(rows),
        0 <= k < rows.len(),
        rows[k].id == id,
    ensures
        has_id(rows, id),
        idx_of(rows, id) == k,
{
    assert(has_id(rows, id));
    let w = idx_of(rows, id);
    assert(0 <= w < rows.len() && rows[w].id == id);
    if w != k {
        assert(rows[w].id != rows[k].id);
    }
}

/// Law: a put never gives two rows the same key.
pub proof fn lemma_put_preserves_unique(rows: Seq<RecordView>, rec: RecordView)
    requires
        unique_ids(rows),
    ensures
        unique_ids(put_spec(rows, rec)),
{
    let rows2 = put_spec(rows, rec);
    if has_id(rows, rec.id) {
        let w = idx_of(rows, rec.id);
        assert(0 <= w < rows.len() && rows[w].id == rec.id);
        assert(forall|i: int| 0 <= i < rows.len() ==> rows2[i].id == rows[i].id);
    } else {
        assert(forall|i: int| 0 <= i < rows.len() ==> rows[i].id != rec.id);
    }
}

/// Law: an update never gives two rows the same key.
pub proof fn lemma_update_preserves_unique(
    rows: Seq<RecordView>,
    id: Seq<char>,
    title: Seq<char>,
    description: Seq<char>,
)
    requires
        unique_ids(rows),
    ensures
        unique_ids(update_spec(rows, id, title, description)),
{
    let rows2 = update_spec(rows, id, title, description);
    if has_id(rows, id) {
        let w = idx_of(rows, id);
        assert(0 <= w < rows.len() && rows[w].id == id);
        assert(forall|i: int| 0 <= i < rows.len() ==> rows2[i].id == rows[i].id);
    } else {
        assert(forall|i: int| 0 <= i < rows.len() ==> rows[i].id != id);
    }
}

/// Law: a delete keeps keys distinct and leaves no row with the deleted key.
pub proof fn lemma_delete_removes_key(rows: Seq<RecordView>, id: Seq<char>)
    requires
        unique_ids(rows),
    ensures
        unique_ids(delete_spec(rows, id)),
        !has_id(delete_spec(rows, id), id),
{
    let rows2 = delete_spec(rows, id);
    if has_id(rows, id) {
        let w = idx_of(rows, id);
        assert(0 <= w < rows.len() && rows[w].id == id);
        assert(forall|j: int|
            0 <= j < rows2.len() ==> rows2[j] == (if j < w {
                rows[j]
            } else {
                rows[j + 1]
            }));
        assert forall|j: int| 0 <= j < rows2.len() implies rows2[j].id != id by {
            if j < w {
                assert(rows[j].id != rows[w].id);
            } else {
                assert(rows[j + 1].id != rows[w].id);
            }
        }
        assert forall|i: int, j: int|
            0 <= i < rows2.len() && 0 <= j < rows2.len() && i != j implies rows2[i].id
            != rows2[j].id by {
            let i0: int = if i < w {
                i
            } else {
                i + 1
            };
            let j0: int = if j < w {
                j
            } else {
                j + 1
            };
            assert(rows[i0].id != rows[j0].id);
        }
    }
}

/// Law: deleting a key twice leaves exactly what deleting it once leaves,
/// and a lookup of the key afterwards finds nothing.
pub proof fn lemma_delete_idempotent(rows: Seq<RecordView>, id: Seq<char>)
    requires
        unique_ids(rows),
    ensures
        delete_spec(delete_spec(rows, id), id) == delete_spec(rows, id),
        lookup_spec(delete_spec(rows, id), id) is None,
{
    lemma_delete_removes_key(rows, id);
}

/// Law: after two puts with the same key, a lookup of that key yields the
/// later record, and the key still names at most one row.
pub proof fn lemma_put_last_write_wins(rows: Seq<RecordView>, r1: RecordView, r2: RecordView)
    requires
        unique_ids(rows),
        r1.id == r2.id,
    ensures
        lookup_spec(put_spec(put_spec(rows, r1), r2), r2.id) == Option::Some(r2),
        unique_ids(put_spec(put_spec(rows, r1), r2)),
{
    let rows1 = put_spec(rows, r1);
    lemma_put_preserves_unique(rows, r1);
    lemma_put_preserves_unique(rows1, r2);
    let rows2 = put_spec(rows1, r2);
    if has_id(rows, r1.id) {
        let w = idx_of(rows, r1.id);
        assert(0 <= w < rows.len() && rows[w].id == r1.id);
        lemma_idx_of_unique(rows1, r2.id, w);
        lemma_idx_of_unique(rows2, r2.id, w);
    } else {
        let w = rows.len() as int;
        assert(rows1[w].id == r2.id);
        lemma_idx_of_unique(rows1, r2.id, w);
        lemma_idx_of_unique(rows2, r2.id, w);
    }
}

/// Law: after an update of a present key, the looked-up row carries the new
/// title and description while its key and creation instant are unchanged.
pub proof fn lemma_update_keeps_key_and_created(
    rows: Seq<RecordView>,
    id: Seq<char>,
    title: Seq<char>,
    description: Seq<char>,
)
    requires
        unique_ids(rows),
        has_id(rows, id),
    ensures
        ({
            let before = lookup_spec(rows, id)->Some_0;
            let after = lookup_spec(update_spec(rows, id, title, description), id);
            after == Option::Some(updated_row(before, title, description))
                && after->Some_0.id == before.id && after->Some_0.created == before.created
                && after->Some_0.title == Option::Some(AttrValView::S(title))
                && after->Some_0.description == Option::Some(AttrValView::S(description))
        }),
{
    let w = idx_of(rows, id);
    assert(0 <= w < rows.len() && rows[w].id == id);
    lemma_update_preserves_unique(rows, id, title, description);
    let rows2 = update_spec(rows, id, title, description);
    assert(rows2[w] == updated_row(rows[w], title, description));
    lemma_idx_of_unique(rows2, id, w);
}

/// The in-memory table.
pub struct Table {
    rows: Vec<Record>,
}

impl View for Table {
    type V = Seq<RecordView>;

    closed spec fn view(&self) -> Seq<RecordView> {
        records_view(self.rows@)
    }
}

/// Relies on the `PartialEq` impl of `str`: equality of the two character
/// sequences.
#[verifier::external_body]
fn str_eq(a: &str, b: &str) -> (r: bool)
    ensures
        r == (a@ == b@),
{
    a == b
}

impl Table {
    /// All rows carry distinct partition keys. Construction and every
    /// operation preserve this.
    pub open spec fn wf(&self) -> bool {
        unique_ids(self@)
    }

    /// An empty table.
    pub fn new() -> (t: Table)
        ensures
            t@ =~= Seq::<RecordView>::empty(),
            t.wf(),
    {
        let t = Table { rows: Vec::new() };
        proof {
            assert(t@ =~= Seq::<RecordView>::empty());
        }
        t
    }

    /// The index of the row with the key, if any.
    fn find(&self, id: &str) -> (r: Option<usize>)
        ensures
            match r {
                Option::Some(k) => 0 <= k < self@.len() && self@[k as int].id == id@,
                Option::None => !has_id(self@, id@),
            },
    {
        let mut k: usize = 0;
        while k < self.rows.len()
            invariant
                0 <= k <= self.rows.len(),
                self@.len() == self.rows@.len(),
                forall|j: int| 0 <= j < k ==> self@[j].id != id@,
            decreases self.rows.len() - k,
        {
            if str_eq(self.rows[k].id.as_str(), id) {
                return Some(k);
            }
            k += 1;
        }
        None
    }

    /// Writes a record unconditionally, overwriting any row with the same
    /// key.
    pub fn put(&mut self, rec: Record)
        requires
            old(self).wf(),
        ensures
            final(self).wf(),
            final(self)@ == put_spec(old(self)@, rec@),
    {
        let ghost rows0 = self@;
        let ghost recv = rec@;
        proof {
            lemma_put_preserves_unique(rows0, recv);
        }
        match self.find(rec.id.as_str()) {
            Some(k) => {
                proof {
                    lemma_idx_of_unique(rows0, recv.id, k as int);
                }
                self.rows[k] = rec;
                proof {
                    assert(self@ =~= rows0.update(k as int, recv));
                }
            },
            None => {
                self.rows.push(rec);
                proof {
                    assert(self@ =~= rows0.push(recv));
                }
            },
        }
    }

    /// Returns the rows matching the key: at most one, the table being
    /// keyed by it.
    pub fn query(&self, id: &str) -> (r: Vec<Record>)
        requires
            self.wf(),
        ensures
            records_view(r@) == match lookup_spec(self@, id@) {
                Option::Some(row) => seq![row],
                Option::None => Seq::<RecordView>::empty(),
            },
            r@.len() <= 1,
    {
        let mut out: Vec<Record> = Vec::new();
        match self.find(id) {
            Some(k) => {
                proof {
                    lemma_idx_of_unique(self@, id@, k as int);
                }
                out.push(self.rows[k].duplicate());
                proof {
                    assert(records_view(out@) =~= seq![self@[k as int]]);
                }
            },
            None => {
                proof {
                    assert(records_view(out@) =~= Seq::<RecordView>::empty());
                }
            },
        }
        out
    }

    /// Rewrites title and description of the row with the key, keeping its
    /// creation instant; for an absent key, creates a partial row without
    /// one.
    pub fn update(&mut self, id: &str, title: String, description: String)
        requires
            old(self).wf(),
        ensures
            final(self).wf(),
            final(self)@ == update_spec(old(self)@, id@, title@, description@),
    {
        let ghost rows0 = self@;
        proof {
            lemma_update_preserves_unique(rows0, id@, title@, description@);
        }
        match self.find(id) {
            Some(k) => {
                proof {
                    lemma_idx_of_unique(rows0, id@, k as int);
                }
                let row = &self.rows[k];
                let new_row = Record {
                    id: row.id.clone(),
                    title: Some(AttrVal::S(title)),
                    description: Some(AttrVal::S(description)),
                    created: match &row.created {
                        Some(a) => Some(a.duplicate()),
                        None => None,
                    },
                };
                self.rows[k] = new_row;
                proof {
                    assert(self@ =~= rows0.update(
                        k as int,
                        updated_row(rows0[k as int], title@, description@),
                    ));
                }
            },
            None => {
                self.rows.push(Record {
                    id: id.to_owned(),
                    title: Some(AttrVal::S(title)),
                    description: Some(AttrVal::S(description)),
                    created: None,
                });
                proof {
                    assert(self@ =~= rows0.push(partial_row(id@, title@, description@)));
                }
            },
        }
    }

    /// Removes the row with the key; removing an absent key changes
    /// nothing.
    pub fn delete(&mut self, id: &str)
        requires
            old(self).wf(),
        ensures
            final(self).wf(),
            final(self)@ == delete_spec(old(self)@, id@),
    {
        let ghost rows0 = self@;
        proof {
            lemma_delete_removes_key(rows0, id@);
        }
        match self.find(id) {
            Some(k) => {
                proof {
                    lemma_idx_of_unique(rows0, id@, k as int);
                }
                self.rows.remove(k);
                proof {
                    assert(self@ =~= rows0.remove(k as int));
                }
            },
            None => {},
        }
    }

    /// Returns copies of the first rows, no more than `limit` of them.
    pub fn scan(&self, limit: usize) -> (r: Vec<Record>)
        ensures
            records_view(r@) == scan_spec(self@, limit as int),
            r@.len() <= limit,
    {
        let n: usize = if self.rows.len() < limit {
            self.rows.len()
        } else {
            limit
        };
        let mut out: Vec<Record> = Vec::new();
        let mut i: usize = 0;
        proof {
            assert(records_view(out@) =~= self@.subrange(0, 0));
        }
        while i < n
            invariant
                0 <= i <= n,
                n <= self.rows@.len(),
                n == (if self.rows@.len() < limit {
                    self.rows@.len() as int
                } else {
                    limit as int
                }),
                self@.len() == self.rows@.len(),
                out@.len() == i,
                records_view(out@) =~= self@.subrange(0, i as int),
            decreases n - i,
        {
            out.push(self.rows[i].duplicate());
            proof {
                assert(records_view(out@) =~= self@.subrange(0, i as int + 1));
            }
            i += 1;
        }
        proof {
            if self@.len() <= limit as int {
                assert(self@.subrange(0, n as int) =~= self@);
            }
        }
        out
    }
}

} // verus!
