//! Record types, error taxonomy, the storage model and the persistence
//! operations.
//!
//! The storage engine behind the original table is modelled by [`Store`]: a
//! sequence of rows kept in ascending-id order together with the next id the
//! engine would assign. Every operation is all-or-nothing: it either performs
//! its whole effect or leaves the store exactly as it was, so the contracts
//! here double as the transactional guarantees of the layer.
//!
//! Error policy (the stricter of the two reasonable choices): absence is
//! always `NotFoundError`, and any storage-level failure that is not absence
//! is `DatabaseError`. In this model the only storage-level failure that can
//! arise is id exhaustion on a batch insert.

use vstd::prelude::*;

verus! {

/// A persisted challenge record. `id` is assigned by the store on insert and
/// is immutable afterwards.
#[derive(Debug)]
pub struct Challenge {
    pub id: i32,
    pub title: String,
    pub description: String,
}

/// The transient input shape for a batch insert: a challenge without an id.
#[derive(Debug)]
pub struct NewChallenge {
    pub title: String,
    pub description: String,
}

/// What a persistence operation can signal: the requested row is absent, or
/// the storage layer failed for a reason other than absence.
#[derive(Debug, Clone, Copy, PartialEq, Eq, Structural)]
pub enum ChallengeError {
    NotFoundError,
    DatabaseError,
}

/// The mathematical value of a stored row.
pub struct ChallengeView {
    pub id: int,
    pub title: Seq<char>,
    pub description: Seq<char>,
}

/// The mathematical value of an insert request.
pub struct NewChallengeView {
    pub title: Seq<char>,
    pub description: Seq<char>,
}

impl View for Challenge {
    type V = ChallengeView;

    open spec fn view(&self) -> ChallengeView {
        ChallengeView { id: self.id as int, title: self.title@, description: self.description@ }
    }
}

impl DeepView for Challenge {
    type V = ChallengeView;

    open spec fn deep_view(&self) -> ChallengeView {
        self.view()
    }
}

impl View for NewChallenge {
    type V = NewChallengeView;

    open spec fn view(&self) -> NewChallengeView {
        NewChallengeView { title: self.title@, description: self.description@ }
    }
}

impl DeepView for NewChallenge {
    type V = NewChallengeView;

    open spec fn deep_view(&self) -> NewChallengeView {
        self.view()
    }
}

impl Clone for Challenge {
    fn clone(&self) -> (res: Self)
        ensures
            res == *self,
    {
        Challenge {
            id: self.id,
            title: self.title.clone(),
            description: self.description.clone(),
        }
    }
}

impl Clone for NewChallenge {
    fn clone(&self) -> (res: Self)
        ensures
            res == *self,
    {
        NewChallenge { title: self.title.clone(), description: self.description.clone() }
    }
}

/// Rows are in strictly ascending id order; strictness also makes ids unique.
pub open spec fn strictly_sorted(rows: Seq<ChallengeView>) -> bool {
    forall|i: int, j: int| 0 <= i < j < rows.len() ==> rows[i].id < rows[j].id
}

/// Some row of `rows` carries the id.
pub open spec fn contains_id(rows: Seq<ChallengeView>, id: int) -> bool {
    exists|i: int| 0 <= i < rows.len() && rows[i].id == id
}

/// The index of the row carrying the id; meaningful when `contains_id` holds
/// and `rows` is strictly sorted (the index is then unique).
pub open spec fn index_of(rows: Seq<ChallengeView>, id: int) -> int {
    choose|i: int| 0 <= i < rows.len() && rows[i].id == id
}

/// The rows a batch insert of `input` produces when the store's next free id
/// is `next`: ids are assigned consecutively, in submission order.
pub open spec fn added_rows(input: Seq<NewChallengeView>, next: int) -> Seq<ChallengeView> {
    Seq::new(
        input.len(),
        |i: int| (ChallengeView { id: next + i, title: input[i].title, description: input[i].description }),
    )
}

/// Appending a batch of freshly numbered rows keeps the table strictly
/// sorted and keeps every id within the new id bound.
pub proof fn lemma_batch_insert_sorted(
    pre: Seq<ChallengeView>,
    input: Seq<NewChallengeView>,
    next: int,
)
    requires
        strictly_sorted(pre),
        forall|i: int| 0 <= i < pre.len() ==> 1 <= #[trigger] pre[i].id < next,
        1 <= next,
    ensures
        strictly_sorted(pre + added_rows(input, next)),
        forall|i: int|
            0 <= i < pre.len() + input.len() ==> 1 <= #[trigger] (pre + added_rows(
                input,
                next,
            ))[i].id < next + input.len(),
{
    let post = pre + added_rows(input, next);
    assert forall|i: int, j: int| 0 <= i < j < post.len() implies post[i].id < post[j].id by {
        if j < pre.len() {
            assert(pre[i].id < pre[j].id);
        } else if i < pre.len() {
            assert(post[i].id < next);
            assert(post[j].id == next + (j - pre.len()));
        } else {
            assert(post[i].id == next + (i - pre.len()));
            assert(post[j].id == next + (j - pre.len()));
        }
    }
    assert forall|i: int| 0 <= i < post.len() implies 1 <= #[trigger] post[i].id < next
        + input.len() by {
        if i < pre.len() {
            assert(1 <= pre[i].id < next);
        } else {
            assert(post[i].id == next + (i - pre.len()));
        }
    }
}

/// Removing one row keeps the table strictly sorted, keeps every remaining
/// id within its old bound, and leaves no row carrying the removed id.
pub proof fn lemma_remove_keeps_sorted(rows: Seq<ChallengeView>, k: int, bound: int)
    requires
        strictly_sorted(rows),
        forall|i: int| 0 <= i < rows.len() ==> 1 <= #[trigger] rows[i].id < bound,
        0 <= k < rows.len(),
    ensures
        strictly_sorted(rows.remove(k)),
        forall|i: int| 0 <= i < rows.len() - 1 ==> 1 <= #[trigger] rows.remove(k)[i].id < bound,
        !contains_id(rows.remove(k), rows[k].id),
{
    let rest = rows.remove(k);
    assert forall|i: int, j: int| 0 <= i < j < rest.len() implies rest[i].id < rest[j].id by {
        let i0 = if i < k { i } else { i + 1 };
        let j0 = if j < k { j } else { j + 1 };
        assert(rest[i] == rows[i0]);
        assert(rest[j] == rows[j0]);
    }
    assert forall|i: int| 0 <= i < rest.len() implies 1 <= #[trigger] rest[i].id < bound by {
        let i0 = if i < k { i } else { i + 1 };
        assert(rest[i] == rows[i0]);
    }
    assert forall|i: int| 0 <= i < rest.len() implies rest[i].id != rows[k].id by {
        let i0 = if i < k { i } else { i + 1 };
        assert(rest[i] == rows[i0]);
        if rows[i0].id == rows[k].id {
            lemma_id_unique(rows, i0, k);
        }
    }
}

/// In a strictly sorted sequence an id occurs at most once.
pub proof fn lemma_id_unique(rows: Seq<ChallengeView>, i: int, j: int)
    requires
        strictly_sorted(rows),
        0 <= i < rows.len(),
        0 <= j < rows.len(),
        rows[i].id == rows[j].id,
    ensures
        i == j,
{
    if i < j {
        assert(rows[i].id < rows[j].id);
    }
    if j < i {
        assert(rows[j].id < rows[i].id);
    }
}

/// When the id is present in a strictly sorted sequence, `index_of` picks
/// exactly the index it occurs at.
pub proof fn lemma_index_of(rows: Seq<ChallengeView>, k: int)
    requires
        strictly_sorted(rows),
        0 <= k < rows.len(),
    ensures
        contains_id(rows, rows[k].id),
        index_of(rows, rows[k].id) == k,
{
    assert(contains_id(rows, rows[k].id));
    let i = index_of(rows, rows[k].id);
    assert(0 <= i < rows.len() && rows[i].id == rows[k].id);
    lemma_id_unique(rows, i, k);
}

/// The storage model: the one table of the service, plus the next id the
/// engine would assign. A freshly created store starts empty with id 1.
pub struct Store {
    pub rows: Vec<Challenge>,
    pub next_id: i32,
}

impl View for Store {
    type V = Seq<ChallengeView>;

    open spec fn view(&self) -> Seq<ChallengeView> {
        self.rows.deep_view()
    }
}

impl Store {
    /// The store's invariant: rows in strictly ascending id order, every id
    /// at least 1 and below the next id to assign.
    pub open spec fn wf(&self) -> bool {
        &&& strictly_sorted(self@)
        &&& forall|i: int| 0 <= i < self@.len() ==> 1 <= #[trigger] self@[i].id < self.next_id
        &&& 1 <= self.next_id
    }

    /// An empty store; the first insert will assign id 1.
    pub fn new() -> (s: Store)
        ensures
            s.wf(),
            s@ == Seq::<ChallengeView>::empty(),
            s.next_id == 1,
    {
        let s = Store { rows: Vec::new(), next_id: 1 };
        assert(s@ =~= Seq::<ChallengeView>::empty());
        s
    }
}

impl Challenge {
    /// Returns every row of the table, in ascending id order. Reading the
    /// whole table cannot fail in this model, so the result is always `Ok`;
    /// a storage engine that can fail here would signal `DatabaseError`.
    pub fn list(store: &Store) -> (r: Result<Vec<Challenge>, ChallengeError>)
        requires
            store.wf(),
        ensures
            r is Ok,
            r matches Ok(out) ==> out.deep_view() == store@,
            r matches Ok(out) ==> strictly_sorted(out.deep_view()),
    {
        let mut out: Vec<Challenge> = Vec::new();
        let n = store.rows.len();
        let mut k: usize = 0;
        while k < n
            invariant
                store.wf(),
                n == store.rows@.len(),
                k <= n,
                out@.len() == k as int,
                forall|i: int| 0 <= i < k ==> #[trigger] out@[i]@ == store@[i],
            decreases n - k,
        {
            out.push(store.rows[k].clone());
            k += 1;
        }
        proof {
            assert forall|i: int| 0 <= i < n implies out.deep_view()[i] == store@[i] by {
                assert(out@[i]@ == store@[i]);
            }
            assert(out.deep_view() =~= store@);
        }
        Ok(out)
    }

    /// Returns the row with the given id, or `NotFoundError` when no row
    /// carries it — and only then.
    pub fn get(target_id: i32, store: &Store) -> (r: Result<Challenge, ChallengeError>)
        requires
            store.wf(),
        ensures
            r is Ok <==> contains_id(store@, target_id as int),
            r matches Ok(c) ==> c@ == store@[index_of(store@, target_id as int)],
            r matches Err(e) ==> e == ChallengeError::NotFoundError,
    {
        let n = store.rows.len();
        let mut k: usize = 0;
        while k < n
            invariant
                store.wf(),
                n == store.rows.len(),
                k <= n,
                forall|j: int| 0 <= j < k ==> #[trigger] store@[j].id != target_id as int,
            decreases n - k,
        {
            if store.rows[k].id == target_id {
                proof {
                    lemma_index_of(store@, k as int);
                }
                return Ok(store.rows[k].clone());
            }
            k += 1;
        }
        Err(ChallengeError::NotFoundError)
    }

    /// Inserts the whole batch in one transaction: ids are assigned
    /// consecutively from the store's next id, in submission order, and the
    /// inserted rows are returned in that same order. When the batch would
    /// exhaust the id space the transaction rolls back, nothing is inserted,
    /// and the operation signals `DatabaseError` — no partial insert is ever
    /// observable.
    pub fn add(input: Vec<NewChallenge>, store: &mut Store) -> (r: Result<
        Vec<Challenge>,
        ChallengeError,
    >)
        requires
            old(store).wf(),
        ensures
            final(store).wf(),
            r is Ok <==> old(store).next_id + input@.len() <= i32::MAX,
            r matches Ok(out) ==> out.deep_view() == added_rows(
                input.deep_view(),
                old(store).next_id as int,
            ),
            r matches Ok(out) ==> out@.len() == input@.len(),
            r matches Ok(out) ==> final(store)@ == old(store)@ + out.deep_view(),
            r is Ok ==> final(store).next_id == old(store).next_id + input@.len(),
            r matches Err(e) ==> e == ChallengeError::DatabaseError && *final(store) == *old(
                store,
            ),
    {
        let n = input.len();
        if n > (i32::MAX - store.next_id) as usize {
            return Err(ChallengeError::DatabaseError);
        }
        let ghost pre = store@;
        let ghost next0 = store.next_id as int;
        let ghost goal = added_rows(input.deep_view(), next0);
        let mut out: Vec<Challenge> = Vec::new();
        let mut k: usize = 0;
        while k < n
            invariant
                n == input@.len(),
                k <= n,
                next0 + n <= i32::MAX,
                1 <= next0,
                store.next_id == next0,
                goal == added_rows(input.deep_view(), next0),
                goal.len() == n,
                store.rows@.len() == pre.len() + k,
                out@.len() == k as int,
                forall|i: int| 0 <= i < pre.len() ==> #[trigger] store.rows@[i]@ == pre[i],
                forall|i: int|
                    0 <= i < k ==> #[trigger] store.rows@[pre.len() + i]@ == goal[i],
                forall|i: int| 0 <= i < k ==> #[trigger] out@[i]@ == goal[i],
            decreases n - k,
        {
            let id = store.next_id + k as i32;
            let row = Challenge {
                id,
                title: input[k].title.clone(),
                description: input[k].description.clone(),
            };
            let echo = row.clone();
            store.rows.push(row);
            out.push(echo);
            k += 1;
        }
        store.next_id = store.next_id + n as i32;
        proof {
            assert forall|i: int| 0 <= i < pre.len() + n implies store@[i] == (pre + goal)[i] by {
                assert(store@[i] == store.rows@[i]@);
                if i >= pre.len() {
                    assert(store.rows@[pre.len() + (i - pre.len())]@ == goal[i - pre.len()]);
                }
            }
            assert(store@ =~= pre + goal);
            assert forall|i: int| 0 <= i < n implies out.deep_view()[i] == goal[i] by {
                assert(out@[i]@ == goal[i]);
            }
            assert(out.deep_view() =~= goal);
            lemma_batch_insert_sorted(pre, input.deep_view(), next0);
        }
        Ok(out)
    }

    /// In one transaction: finds the row with the given id, deletes it, and
    /// returns the pre-delete snapshot. When the id is absent the store is
    /// left untouched and the operation signals `NotFoundError` — and only
    /// then. After a successful removal the id is no longer present.
    pub fn remove(target_id: i32, store: &mut Store) -> (r: Result<Challenge, ChallengeError>)
        requires
            old(store).wf(),
        ensures
            final(store).wf(),
            final(store).next_id == old(store).next_id,
            r is Ok <==> contains_id(old(store)@, target_id as int),
            r matches Ok(c) ==> c@ == old(store)@[index_of(old(store)@, target_id as int)]
                && c@.id == target_id as int,
            r matches Ok(c) ==> final(store)@ == old(store)@.remove(
                index_of(old(store)@, target_id as int),
            ),
            r is Ok ==> !contains_id(final(store)@, target_id as int),
            r matches Err(e) ==> e == ChallengeError::NotFoundError && *final(store) == *old(
                store,
            ),
    {
        let n = store.rows.len();
        let mut k: usize = 0;
        while k < n
            invariant
                *store == *old(store),
                store.wf(),
                n == store.rows.len(),
                k <= n,
                forall|j: int| 0 <= j < k ==> #[trigger] store@[j].id != target_id as int,
            decreases n - k,
        {
            if store.rows[k].id == target_id {
                proof {
                    lemma_index_of(store@, k as int);
                    lemma_remove_keeps_sorted(store@, k as int, store.next_id as int);
                }
                let c = store.rows.remove(k);
                proof {
                    old(store).rows@.remove_ensures(k as int);
                    old(store)@.remove_ensures(k as int);
                    assert forall|i: int| 0 <= i < store@.len() implies store@[i] == old(
                        store,
                    )@.remove(k as int)[i] by {
                        assert(store@[i] == store.rows@[i]@);
                    }
                    assert(store@ =~= old(store)@.remove(k as int));
                }
                return Ok(c);
            }
            k += 1;
        }
        Err(ChallengeError::NotFoundError)
    }

    /// Test-support operation, not part of the production surface: in one
    /// transaction, returns the pre-delete snapshot of the whole table and
    /// empties it. The next id to assign is unchanged, so ids are never
    /// reused even across a reset.
    pub fn remove_all(store: &mut Store) -> (r: Result<Vec<Challenge>, ChallengeError>)
        requires
            old(store).wf(),
        ensures
            final(store).wf(),
            final(store).next_id == old(store).next_id,
            final(store)@ == Seq::<ChallengeView>::empty(),
            r is Ok,
            r matches Ok(out) ==> out.deep_view() == old(store)@,
    {
        let mut out: Vec<Challenge> = Vec::new();
        core::mem::swap(&mut store.rows, &mut out);
        proof {
            assert(store@ =~= Seq::<ChallengeView>::empty());
        }
        Ok(out)
    }
}

} // verus!
