//! The published issues. An issue is written once and never changed.

use crate::issue_delivery_worker::{IssueView, NewsletterIssue};
use crate::lookup::{
    first_where, is_first, lemma_first_found, lemma_first_missing, lemma_first_where,
};
use vstd::prelude::*;

verus! {

/// One published issue under its identifier.
#[derive(Debug)]
pub struct StoredIssue {
    pub newsletter_issue_id: u128,
    pub issue: NewsletterIssue,
}

/// `StoredIssue`, as mathematical values.
pub struct StoredIssueView {
    pub id: u128,
    pub issue: IssueView,
}

impl View for StoredIssue {
    type V = StoredIssueView;

    open spec fn view(&self) -> StoredIssueView {
        StoredIssueView { id: self.newsletter_issue_id, issue: self.issue@ }
    }
}

/// No two issues share an identifier.
pub open spec fn one_issue_per_id(rows: Seq<StoredIssueView>) -> bool {
    forall|i: int, j: int|
        0 <= i < j < rows.len() ==> (#[trigger] rows[i]).id != (#[trigger] rows[j]).id
}

/// The row of the issue with this identifier.
pub open spec fn issue_row(rows: Seq<StoredIssueView>, id: u128) -> Option<int> {
    first_where(rows, |row: StoredIssueView| row.id == id)
}

/// The content of the issue with this identifier.
pub open spec fn issue_of(rows: Seq<StoredIssueView>, id: u128) -> Option<IssueView> {
    match issue_row(rows, id) {
        Some(i) => Some(rows[i].issue),
        None => None,
    }
}

/// The table with one more issue at its end, unless the identifier is taken.
pub open spec fn with_issue(rows: Seq<StoredIssueView>, id: u128, issue: IssueView) -> Seq<
    StoredIssueView,
> {
    if issue_row(rows, id) is Some {
        rows
    } else {
        rows.push(StoredIssueView { id, issue })
    }
}

/// The table of published issues.
#[derive(Debug)]
pub struct IssueTable {
    rows: Vec<StoredIssue>,
}

impl View for IssueTable {
    type V = Seq<StoredIssueView>;

    closed spec fn view(&self) -> Seq<StoredIssueView> {
        self.rows@.map_values(|row: StoredIssue| row@)
    }
}

impl IssueTable {
    /// Each identifier names at most one issue.
    pub open spec fn wf(&self) -> bool {
        one_issue_per_id(self@)
    }

    /// A table without issues.
    pub fn new() -> (table: IssueTable)
        ensures
            table@ == Seq::<StoredIssueView>::empty(),
            table.wf(),
    {
        let table = IssueTable { rows: Vec::new() };
        assert(table@ =~= Seq::<StoredIssueView>::empty());
        table
    }

    /// The number of issues.
    pub fn len(&self) -> (n: usize)
        ensures
            n == self@.len(),
    {
        self.rows.len()
    }

    /// The index of the issue with this identifier.
    fn find(&self, newsletter_issue_id: u128) -> (found: Option<usize>)
        ensures
            match found {
                Some(i) => issue_row(self@, newsletter_issue_id) == Some(i as int),
                None => issue_row(self@, newsletter_issue_id) is None,
            },
    {
        let ghost wanted = |row: StoredIssueView| row.id == newsletter_issue_id;
        let mut i: usize = 0;
        while i < self.rows.len()
            invariant
                i <= self.rows.len(),
                wanted == (|row: StoredIssueView| row.id == newsletter_issue_id),
                forall|k: int| 0 <= k < i ==> !wanted(#[trigger] self@[k]),
            decreases self.rows.len() - i,
        {
            assert(self@[i as int] == self.rows[i as int]@);
            if self.rows[i].newsletter_issue_id == newsletter_issue_id {
                proof {
                    assert(wanted(self@[i as int]));
                    assert(is_first(self@, wanted, i as int));
                    lemma_first_found(self@, wanted, i as int);
                }
                return Some(i);
            }
            assert(!wanted(self@[i as int]));
            i += 1;
        }
        proof {
            lemma_first_missing(self@, wanted);
        }
        None
    }

    /// Whether an issue with this identifier is stored.
    pub fn contains(&self, newsletter_issue_id: u128) -> (stored: bool)
        ensures
            stored == (issue_of(self@, newsletter_issue_id) is Some),
    {
        self.find(newsletter_issue_id).is_some()
    }

    /// Reads the content of the issue with this identifier.
    pub fn get_issue(&self, newsletter_issue_id: u128) -> (found: Option<NewsletterIssue>)
        ensures
            match found {
                Some(issue) => issue_of(self@, newsletter_issue_id) == Some(issue@),
                None => issue_of(self@, newsletter_issue_id) is None,
            },
    {
        match self.find(newsletter_issue_id) {
            Some(i) => {
                assert(self@[i as int] == self.rows[i as int]@);
                Some(self.rows[i].issue.duplicate())
            },
            None => None,
        }
    }

    /// Stores `issue` under `newsletter_issue_id`. An identifier that is
    /// taken is refused: the table stays as it is and `false` comes back.
    pub fn insert(&mut self, newsletter_issue_id: u128, issue: NewsletterIssue) -> (added: bool)
        ensures
            final(self)@ == with_issue(old(self)@, newsletter_issue_id, issue@),
            added == (issue_of(old(self)@, newsletter_issue_id) is None),
            old(self).wf() ==> final(self).wf(),
    {
        if self.find(newsletter_issue_id).is_some() {
            return false;
        }
        let ghost before = self@;
        let ghost row = StoredIssueView { id: newsletter_issue_id, issue: issue@ };
        self.rows.push(StoredIssue { newsletter_issue_id, issue });
        proof {
            assert(self@ =~= before.push(row));
            lemma_first_where(before, |r: StoredIssueView| r.id == newsletter_issue_id);
            if one_issue_per_id(before) {
                assert forall|i: int, j: int| 0 <= i < j < self@.len() implies (
                #[trigger] self@[i]).id != (#[trigger] self@[j]).id by {
                    if j < before.len() {
                        assert(self@[i] == before[i] && self@[j] == before[j]);
                    } else {
                        assert(self@[i] == before[i]);
                        assert(!(|r: StoredIssueView| r.id == newsletter_issue_id)(before[i]));
                    }
                }
            }
        }
        true
    }
}

} // verus!
