//! Library-wide properties, stated and proved over the storage model.
//!
//! Each law is phrased over the same spec functions the operations'
//! contracts use, so together with those contracts it describes the
//! behaviour of whole call sequences.

use vstd::prelude::*;

use crate::challenge::added_rows;
use crate::challenge::contains_id;
use crate::challenge::index_of;
use crate::challenge::lemma_batch_insert_sorted;
use crate::challenge::lemma_id_unique;
use crate::challenge::lemma_index_of;
use crate::challenge::strictly_sorted;
use crate::challenge::ChallengeView;
use crate::challenge::NewChallengeView;

verus! {

/// After a batch insert into a well-formed table, a listing holds exactly
/// the prior rows followed by the newly inserted rows — nothing omitted —
/// in strictly ascending id order, with every id distinct and every
/// inserted row present under its assigned id.
pub proof fn lemma_add_then_list(
    pre: Seq<ChallengeView>,
    input: Seq<NewChallengeView>,
    next: int,
)
    requires
        strictly_sorted(pre),
        forall|i: int| 0 <= i < pre.len() ==> 1 <= #[trigger] pre[i].id < next,
        1 <= next,
    ensures
        strictly_sorted(pre + added_rows(input, next)),
        forall|i: int, j: int|
            0 <= i < j < pre.len() + input.len() ==> (pre + added_rows(input, next))[i].id != (
            pre + added_rows(input, next))[j].id,
        forall|i: int|
            0 <= i < input.len() ==> #[trigger] contains_id(pre + added_rows(input, next), next
                + i),
{
    let post = pre + added_rows(input, next);
    lemma_batch_insert_sorted(pre, input, next);
    assert forall|i: int| 0 <= i < input.len() implies #[trigger] contains_id(
        post,
        next + i,
    ) by {
        assert(post[pre.len() + i].id == next + i);
    }
}

/// Removal is idempotent in its effect on storage: once the row with an id
/// has been removed from a well-formed table, no row with that id remains,
/// so a second removal of the same id finds nothing (and is answered with
/// `NotFoundError` rather than a second success).
pub proof fn lemma_remove_idempotent(rows: Seq<ChallengeView>, id: int)
    requires
        strictly_sorted(rows),
        contains_id(rows, id),
    ensures
        !contains_id(rows.remove(index_of(rows, id)), id),
{
    let k = index_of(rows, id);
    assert(0 <= k < rows.len() && rows[k].id == id);
    let rest = rows.remove(k);
    rows.remove_ensures(k);
    assert forall|i: int| 0 <= i < rest.len() implies #[trigger] rest[i].id != id by {
        let i0 = if i < k {
            i
        } else {
            i + 1
        };
        assert(rest[i] == rows[i0]);
        if rows[i0].id == id {
            lemma_id_unique(rows, i0, k);
        }
    }
}

/// Round trip: a record inserted with a given title and description is
/// returned unchanged — character for character, whatever the characters —
/// by a later lookup of the id it was assigned.
pub proof fn lemma_add_then_get_round_trip(
    pre: Seq<ChallengeView>,
    input: Seq<NewChallengeView>,
    next: int,
    i: int,
)
    requires
        strictly_sorted(pre),
        forall|j: int| 0 <= j < pre.len() ==> 1 <= #[trigger] pre[j].id < next,
        1 <= next,
        0 <= i < input.len(),
    ensures
        contains_id(pre + added_rows(input, next), next + i),
        (pre + added_rows(input, next))[index_of(pre + added_rows(input, next), next + i)].title
            == input[i].title,
        (pre + added_rows(input, next))[index_of(pre + added_rows(input, next), next + i)]
            .description == input[i].description,
{
    let post = pre + added_rows(input, next);
    lemma_batch_insert_sorted(pre, input, next);
    assert(post[pre.len() + i].id == next + i);
    assert(post[pre.len() + i].title == input[i].title);
    assert(post[pre.len() + i].description == input[i].description);
    lemma_index_of(post, pre.len() + i);
}

} // verus!
