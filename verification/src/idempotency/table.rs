//! The idempotency table: at most one record per caller and key. That
//! uniqueness is what serializes duplicates of one request.

use crate::idempotency::key::IdempotencyKey;
use crate::idempotency::persistence::{
    completed, placeholder, saved_response, IdempotencyRecord, RecordError, RecordView, Response,
    ResponseView,
};
use crate::lookup::{
    first_where, is_first, lemma_first_found, lemma_first_missing, lemma_first_where,
};
use vstd::prelude::*;
use vstd::string::*;

verus! {

/// The record belongs to this caller and this key.
pub open spec fn is_record_of(record: RecordView, user_id: u128, key: Seq<char>) -> bool {
    record.user_id == user_id && record.key == key
}

/// No two records share caller and key.
pub open spec fn one_record_per_key(rows: Seq<RecordView>) -> bool {
    forall|i: int, j: int|
        0 <= i < j < rows.len() ==> !is_record_of(
            #[trigger] rows[i],
            (#[trigger] rows[j]).user_id,
            rows[j].key,
        )
}

/// The row of the record of this caller and this key.
pub open spec fn record_row(rows: Seq<RecordView>, user_id: u128, key: Seq<char>) -> Option<int> {
    first_where(rows, |record: RecordView| is_record_of(record, user_id, key))
}

/// The table after a placeholder was asked for: added at the end where the
/// caller and key had no record, and the table as it was otherwise.
pub open spec fn with_placeholder(rows: Seq<RecordView>, user_id: u128, key: Seq<char>) -> Seq<
    RecordView,
> {
    if record_row(rows, user_id, key) is Some {
        rows
    } else {
        rows.push(placeholder(user_id, key))
    }
}

/// The table after `response` was written into the record of this caller
/// and key.
pub open spec fn with_response(
    rows: Seq<RecordView>,
    user_id: u128,
    key: Seq<char>,
    response: ResponseView,
) -> Seq<RecordView> {
    match record_row(rows, user_id, key) {
        Some(i) => rows.update(i, completed(user_id, key, response)),
        None => rows,
    }
}

/// The table without the record of this caller and key.
pub open spec fn without_record(rows: Seq<RecordView>, user_id: u128, key: Seq<char>) -> Seq<
    RecordView,
> {
    match record_row(rows, user_id, key) {
        Some(i) => rows.remove(i),
        None => rows,
    }
}

/// The table of idempotency records.
#[derive(Debug)]
pub struct IdempotencyTable {
    rows: Vec<IdempotencyRecord>,
}

impl View for IdempotencyTable {
    type V = Seq<RecordView>;

    closed spec fn view(&self) -> Seq<RecordView> {
        self.rows@.map_values(|record: IdempotencyRecord| record@)
    }
}

impl IdempotencyTable {
    /// Each caller and key have at most one record.
    pub open spec fn wf(&self) -> bool {
        one_record_per_key(self@)
    }

    /// A table without records.
    pub fn new() -> (table: IdempotencyTable)
        ensures
            table@ == Seq::<RecordView>::empty(),
            table.wf(),
    {
        let table = IdempotencyTable { rows: Vec::new() };
        assert(table@ =~= Seq::<RecordView>::empty());
        table
    }

    /// The number of records.
    pub fn len(&self) -> (n: usize)
        ensures
            n == self@.len(),
    {
        self.rows.len()
    }

    /// The index of the record of this caller and key.
    fn find(&self, user_id: u128, key: &str) -> (found: Option<usize>)
        ensures
            match found {
                Some(i) => record_row(self@, user_id, key@) == Some(i as int),
                None => record_row(self@, user_id, key@) is None,
            },
    {
        let ghost wanted = |record: RecordView| is_record_of(record, user_id, key@);
        let text = String::from_str(key);
        let mut i: usize = 0;
        while i < self.rows.len()
            invariant
                i <= self.rows.len(),
                text@ == key@,
                wanted == (|record: RecordView| is_record_of(record, user_id, key@)),
                forall|k: int| 0 <= k < i ==> !wanted(#[trigger] self@[k]),
            decreases self.rows.len() - i,
        {
            let record = &self.rows[i];
            assert(self@[i as int] == record@);
            if record.user_id == user_id && record.idempotency_key == text {
                proof {
                    assert(wanted(self@[i as int]));
                    assert(is_first(self@, wanted, i as int));
                    lemma_first_found(self@, wanted, i as int);
                }
                return Some(i);
            }
            assert(!wanted(self@[i as int]));
            i += 1;
        }
        proof {
            lemma_first_missing(self@, wanted);
        }
        None
    }

    /// Inserts the placeholder of this caller and key unless they have a
    /// record already. The number of rows inserted comes back: 1 or 0.
    pub fn insert_placeholder(&mut self, user_id: u128, key: &IdempotencyKey) -> (inserted: u64)
        ensures
            final(self)@ == with_placeholder(old(self)@, user_id, key@),
            inserted == if record_row(old(self)@, user_id, key@) is None { 1u64 } else { 0u64 },
            old(self).wf() ==> final(self).wf(),
    {
        if self.find(user_id, key.as_ref()).is_some() {
            return 0;
        }
        let ghost before = self@;
        self.rows.push(IdempotencyRecord::processing(user_id, key));
        proof {
            assert(self@ =~= before.push(placeholder(user_id, key@)));
            lemma_first_where(before, |record: RecordView| is_record_of(record, user_id, key@));
            if one_record_per_key(before) {
                assert forall|i: int, j: int| 0 <= i < j < self@.len() implies !is_record_of(
                    #[trigger] self@[i],
                    (#[trigger] self@[j]).user_id,
                    self@[j].key,
                ) by {
                    if j < before.len() {
                        assert(self@[i] == before[i] && self@[j] == before[j]);
                    } else {
                        assert(self@[i] == before[i]);
                        assert(!(|record: RecordView| is_record_of(record, user_id, key@))(
                            before[i],
                        ));
                    }
                }
            }
        }
        1
    }

    /// Reads the response that was saved for this caller and key: nothing
    /// where they have no record, an error where their record holds no
    /// response that can be rebuilt.
    pub fn get_saved_response(&self, key: &IdempotencyKey, user_id: u128) -> (saved: Result<
        Option<Response>,
        RecordError,
    >)
        ensures
            match record_row(self@, user_id, key@) {
                None => saved matches Ok(None),
                Some(i) => match saved_response(self@[i]) {
                    Ok(response) => saved matches Ok(Some(r)) && r@ == response && r.wf(),
                    Err(e) => saved matches Err(f) && f == e,
                },
            },
    {
        match self.find(user_id, key.as_ref()) {
            None => Ok(None),
            Some(i) => {
                assert(self@[i as int] == self.rows[i as int]@);
                match self.rows[i].get_saved_response() {
                    Ok(response) => Ok(Some(response)),
                    Err(e) => Err(e),
                }
            },
        }
    }

    /// Writes `response` into the record of this caller and key. Without
    /// such a record nothing is written.
    pub fn save_response(&mut self, key: &IdempotencyKey, user_id: u128, response: &Response)
        ensures
            final(self)@ == with_response(old(self)@, user_id, key@, response@),
            old(self).wf() ==> final(self).wf(),
    {
        if let Some(i) = self.find(user_id, key.as_ref()) {
            let ghost before = self@;
            proof {
                lemma_first_where(before, |record: RecordView| is_record_of(record, user_id, key@));
            }
            self.rows.set(i, IdempotencyRecord::save_response(user_id, key, response));
            proof {
                assert(self@ =~= before.update(i as int, completed(user_id, key@, response@)));
                lemma_rewrite_keeps_keys(before, i as int, completed(user_id, key@, response@));
            }
        }
    }

    /// Removes the record of this caller and key, if there is one.
    pub fn remove(&mut self, key: &IdempotencyKey, user_id: u128)
        ensures
            final(self)@ == without_record(old(self)@, user_id, key@),
            old(self).wf() ==> final(self).wf(),
    {
        if let Some(i) = self.find(user_id, key.as_ref()) {
            let ghost before = self@;
            self.rows.remove(i);
            proof {
                assert(self@ =~= before.remove(i as int));
                if one_record_per_key(before) {
                    assert forall|a: int, b: int| 0 <= a < b < self@.len() implies !is_record_of(
                        #[trigger] self@[a],
                        (#[trigger] self@[b]).user_id,
                        self@[b].key,
                    ) by {
                        let a0 = if a < i { a } else { a + 1 };
                        let b0 = if b < i { b } else { b + 1 };
                        assert(self@[a] == before[a0] && self@[b] == before[b0]);
                    }
                }
            }
        }
    }
}

/// Rewriting a record for the same caller and key leaves each caller and
/// key with one record.
pub proof fn lemma_rewrite_keeps_keys(rows: Seq<RecordView>, i: int, record: RecordView)
    requires
        0 <= i < rows.len(),
        is_record_of(record, rows[i].user_id, rows[i].key),
    ensures
        one_record_per_key(rows) ==> one_record_per_key(rows.update(i, record)),
{
    let after = rows.update(i, record);
    if one_record_per_key(rows) {
        assert forall|a: int, b: int| 0 <= a < b < after.len() implies !is_record_of(
            #[trigger] after[a],
            (#[trigger] after[b]).user_id,
            after[b].key,
        ) by {
            assert(!is_record_of(rows[a], rows[b].user_id, rows[b].key));
        }
    }
}

} // verus!
