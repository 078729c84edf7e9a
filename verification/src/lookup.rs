//! Finding the first row of a table that meets a condition.

use vstd::prelude::*;

verus! {

/// `i` is the first index of `rows` whose row meets `wanted`.
pub open spec fn is_first<A>(rows: Seq<A>, wanted: spec_fn(A) -> bool, i: int) -> bool {
    &&& 0 <= i < rows.len()
    &&& wanted(rows[i])
    &&& forall|j: int| 0 <= j < i ==> !wanted(#[trigger] rows[j])
}

/// The index of the first row that meets `wanted`, if there is one.
pub open spec fn first_where<A>(rows: Seq<A>, wanted: spec_fn(A) -> bool) -> Option<int> {
    if exists|i: int| is_first(rows, wanted, i) {
        Some(choose|i: int| is_first(rows, wanted, i))
    } else {
        None
    }
}

/// A first index is the first index.
pub proof fn lemma_first_found<A>(rows: Seq<A>, wanted: spec_fn(A) -> bool, i: int)
    requires
        is_first(rows, wanted, i),
    ensures
        first_where(rows, wanted) == Some(i),
{
    let chosen = choose|k: int| is_first(rows, wanted, k);
    assert(is_first(rows, wanted, chosen));
    if chosen < i {
        assert(!wanted(rows[chosen]));
    }
    if i < chosen {
        assert(!wanted(rows[i]));
    }
}

/// Where no row meets the condition, nothing is found.
pub proof fn lemma_first_missing<A>(rows: Seq<A>, wanted: spec_fn(A) -> bool)
    requires
        forall|j: int| 0 <= j < rows.len() ==> !wanted(#[trigger] rows[j]),
    ensures
        first_where(rows, wanted) is None,
{
}

/// What `first_where` finds is a first index, and where it finds nothing no
/// row meets the condition.
pub proof fn lemma_first_where<A>(rows: Seq<A>, wanted: spec_fn(A) -> bool)
    ensures
        first_where(rows, wanted) matches Some(i) ==> is_first(rows, wanted, i),
        first_where(rows, wanted) is None ==> forall|j: int|
            0 <= j < rows.len() ==> !wanted(#[trigger] rows[j]),
{
    if first_where(rows, wanted) is None {
        assert forall|j: int| 0 <= j < rows.len() implies !wanted(#[trigger] rows[j]) by {
            if wanted(rows[j]) {
                lemma_some_first(rows, wanted, j);
            }
        }
    }
}

/// Where some row meets the condition, there is a first one.
proof fn lemma_some_first<A>(rows: Seq<A>, wanted: spec_fn(A) -> bool, j: int)
    requires
        0 <= j < rows.len(),
        wanted(rows[j]),
    ensures
        exists|i: int| is_first(rows, wanted, i),
    decreases j,
{
    if exists|k: int| 0 <= k < j && wanted(rows[k]) {
        let k = choose|k: int| 0 <= k < j && wanted(rows[k]);
        lemma_some_first(rows, wanted, k);
    } else {
        assert(is_first(rows, wanted, j));
    }
}

/// What is found in a table that got one more row at its end: what was
/// found before, or else the new row where it meets the condition.
pub proof fn lemma_first_where_push<A>(rows: Seq<A>, wanted: spec_fn(A) -> bool, row: A)
    ensures
        first_where(rows.push(row), wanted) == match first_where(rows, wanted) {
            Some(i) => Some(i),
            None => if wanted(row) {
                Some(rows.len() as int)
            } else {
                None
            },
        },
{
    let longer = rows.push(row);
    lemma_first_where(rows, wanted);
    match first_where(rows, wanted) {
        Some(i) => {
            assert(longer[i] == rows[i]);
            assert forall|j: int| 0 <= j < i implies !wanted(#[trigger] longer[j]) by {
                assert(longer[j] == rows[j]);
            }
            assert(is_first(longer, wanted, i));
            lemma_first_found(longer, wanted, i);
        },
        None => {
            assert forall|j: int| 0 <= j < rows.len() implies !wanted(#[trigger] longer[j]) by {
                assert(longer[j] == rows[j]);
            }
            if wanted(row) {
                assert(is_first(longer, wanted, rows.len() as int));
                lemma_first_found(longer, wanted, rows.len() as int);
            } else {
                lemma_first_missing(longer, wanted);
            }
        },
    }
}

} // verus!
