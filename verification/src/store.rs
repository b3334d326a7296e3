//! The interpretation store: the single source of truth for every reading's
//! lifecycle record. It implements the persistence collaborator's semantics —
//! insert, find by id, owner reassignment, owner-scoped history, soft
//! deletion — and the state machine's rule that a record, once done or
//! failed, never reverts to pending.

use crate::error::AppError;
use crate::interpretation::Interpretation;
use crate::model;
use crate::model::InterpretationStatus;
use crate::reading::Reading;
use vstd::prelude::*;

verus! {

/// Record `a` carries the same data as record `b`: every plain field equal,
/// every text field character for character.
pub open spec fn row_like(a: model::Reading, b: model::Reading) -> bool {
    &&& a.id == b.id
    &&& a.created_at == b.created_at
    &&& a.question@ == b.question@
    &&& a.context@ == b.context@
    &&& a.cards@ == b.cards@
    &&& a.shuffled_times == b.shuffled_times
    &&& a.user_id == b.user_id
    &&& a.user_name@ == b.user_name@
    &&& a.user_self_description@ == b.user_self_description@
    &&& a.interpretation_status == b.interpretation_status
    &&& a.interpretation_text@ == b.interpretation_text@
    &&& a.interpretation_error@ == b.interpretation_error@
    &&& a.deleted_at == b.deleted_at
    &&& a.interpretation_done_at == b.interpretation_done_at
    &&& a.backend == b.backend
}

/// The lifecycle value `v` faithfully shows the stored record `row`.
pub open spec fn interp_like_row(v: Interpretation, row: model::Reading) -> bool {
    &&& v.spec_status() == row.interpretation_status
    &&& v.spec_reading().id == row.id
    &&& v.spec_reading().created_at == row.created_at
    &&& v.spec_reading().question@ == row.question@
    &&& v.spec_reading().context@ == row.context@
    &&& v.spec_reading().cards@ == row.cards@
    &&& v.spec_reading().shuffled_times as int == row.shuffled_times as int
    &&& v.spec_reading().user_id == (if row.user_id == 0 {
        Option::<u128>::None
    } else {
        Some(row.user_id)
    })
    &&& v.spec_reading().user_name@ == row.user_name@
    &&& v.spec_reading().user_self_description@ == row.user_self_description@
    &&& v.spec_reading().backend == row.backend
    &&& (row.interpretation_status == InterpretationStatus::Done ==> v.spec_text() == Some(
        row.interpretation_text@,
    ) && v.spec_done_at() == row.interpretation_done_at)
    &&& (row.interpretation_status == InterpretationStatus::Failed ==> v.spec_error() == Some(
        row.interpretation_error@,
    ))
}

/// The record is a faithful copy of one of the given records.
pub open spec fn copies_some_record(row: model::Reading, rows: Seq<model::Reading>) -> bool {
    exists|j: int| 0 <= j < rows.len() && row_like(row, #[trigger] rows[j])
}

/// The lifecycle value faithfully shows one of the given records, and that
/// record matches the history query.
pub open spec fn shows_matching_record(
    v: Interpretation,
    rows: Seq<model::Reading>,
    user_id: u128,
    before: Option<i64>,
) -> bool {
    exists|j: int|
        0 <= j < rows.len() && history_match(#[trigger] rows[j], user_id, before)
            && interp_like_row(v, rows[j])
}

/// The lifecycle value faithfully shows one of the given records, and that
/// record is not soft-deleted.
pub open spec fn shows_live_record(v: Interpretation, rows: Seq<model::Reading>) -> bool {
    exists|j: int|
        0 <= j < rows.len() && (#[trigger] rows[j]).deleted_at is None && interp_like_row(
            v,
            rows[j],
        )
}

/// The stored record a fresh reading is persisted as: pending, not deleted,
/// owner id zero when the reading has no owner.
pub open spec fn is_pending_row_of(row: model::Reading, reading: Reading) -> bool {
    &&& row.id == reading.id
    &&& row.created_at == reading.created_at
    &&& row.question == reading.question
    &&& row.context == reading.context
    &&& row.cards == reading.cards
    &&& row.shuffled_times as int == reading.shuffled_times as int
    &&& row.user_id == (match reading.user_id {
        Some(u) => u,
        None => 0u128,
    })
    &&& row.user_name == reading.user_name
    &&& row.user_self_description == reading.user_self_description
    &&& row.backend == reading.backend
    &&& row.interpretation_status == InterpretationStatus::Pending
    &&& row.interpretation_text@ == Seq::<char>::empty()
    &&& row.interpretation_error@ == Seq::<char>::empty()
    &&& row.deleted_at is None
    &&& row.interpretation_done_at is None
}

/// The state machine's order: pending may become done or failed; a terminal
/// state only stays what it is.
pub open spec fn status_leq(before: InterpretationStatus, after: InterpretationStatus) -> bool {
    before == InterpretationStatus::Pending || after == before
}

/// A terminal state never moves: whatever `status_leq` allows after done or
/// failed is the same state again — there is no way back to pending.
pub proof fn lemma_terminal_states_stay(before: InterpretationStatus, after: InterpretationStatus)
    requires
        before != InterpretationStatus::Pending,
        status_leq(before, after),
    ensures
        after == before,
        after != InterpretationStatus::Pending,
{
}

pub struct InterpretationStore {
    rows: Vec<model::Reading>,
}

impl InterpretationStore {
    /// The records, in storage order; all the contracts speak of this view.
    pub closed spec fn spec_rows(self) -> Seq<model::Reading> {
        self.rows@
    }

    /// Every record is well-formed and no id repeats.
    pub open spec fn inv(self) -> bool {
        &&& forall|i: int, j: int|
            0 <= i < j < self.spec_rows().len() ==> self.spec_rows()[i].id != self.spec_rows()[j].id
        &&& forall|i: int| 0 <= i < self.spec_rows().len() ==> (#[trigger] self.spec_rows()[i]).wf()
    }

    pub open spec fn spec_contains_id(self, id: u128) -> bool {
        exists|i: int|
            0 <= i < self.spec_rows().len() && (#[trigger] self.spec_rows()[i]).id == id
    }

    pub fn new() -> (store: InterpretationStore)
        ensures
            store.inv(),
            store.spec_rows().len() == 0,
    {
        InterpretationStore { rows: Vec::new() }
    }

    fn find_index(&self, id: u128) -> (r: Option<usize>)
        ensures
            match r {
                Some(i) => i < self.spec_rows().len() && self.spec_rows()[i as int].id == id,
                None => !self.spec_contains_id(id),
            },
    {
        let n: usize = self.rows.len();
        let mut i: usize = 0;
        while i < n
            invariant
                i <= n,
                n == self.rows@.len(),
                forall|j: int| 0 <= j < i ==> (#[trigger] self.rows@[j]).id != id,
            decreases n - i,
        {
            if self.rows[i].id == id {
                return Some(i);
            }
            i = i + 1;
        }
        None
    }

    /// Persists a fresh reading as pending. This happens before any
    /// background work on the reading starts, so a durable pending record
    /// exists even if that work dies. A second record with the same id is
    /// refused.
    pub fn save_pending(&mut self, reading: Reading) -> (r: Result<(), AppError>)
        requires
            old(self).inv(),
            reading.wf(),
        ensures
            final(self).inv(),
            old(self).spec_contains_id(reading.id) ==> r == Result::<(), AppError>::Err(
                AppError::AlreadyExists,
            ) && final(self).spec_rows() == old(self).spec_rows(),
            !old(self).spec_contains_id(reading.id) ==> r is Ok && final(self).spec_rows().len()
                == old(self).spec_rows().len() + 1 && final(self).spec_rows().subrange(
                0,
                old(self).spec_rows().len() as int,
            ) == old(self).spec_rows() && is_pending_row_of(
                final(self).spec_rows().last(),
                reading,
            ),
    {
        match self.find_index(reading.id) {
            Some(_) => Result::Err(AppError::AlreadyExists),
            None => {
                let row = model::Reading::of_interpretation(Interpretation::Pending(reading));
                self.rows.push(row);
                proof {
                    assert(self.rows@.subrange(0, old(self).spec_rows().len() as int) =~= old(self).spec_rows());
                }
                Result::Ok(())
            },
        }
    }

    /// Looks a record up by id, deleted or not, as a transient copy.
    pub fn get_interpretation(&self, id: u128) -> (r: Option<Interpretation>)
        requires
            self.inv(),
        ensures
            match r {
                None => !self.spec_contains_id(id),
                Some(v) => exists|i: int|
                    0 <= i < self.spec_rows().len() && (#[trigger] self.spec_rows()[i]).id == id
                        && interp_like_row(v, self.spec_rows()[i]) && v.spec_reading().wf(),
            },
    {
        match self.find_index(id) {
            None => None,
            Some(i) => {
                let row = clone_row(&self.rows[i]);
                Some(row.to_interpretation())
            },
        }
    }

    /// Records the outcome of the narrator's answer for a pending record:
    /// the text and completion time on success, the message on failure. A
    /// record that is already done or failed stays exactly as it is — no
    /// outcome moves a record back to pending — and what is now stored is
    /// returned for broadcast; an unknown id returns nothing.
    pub fn record_outcome(
        &mut self,
        id: u128,
        outcome: Result<String, String>,
        done_at: i64,
    ) -> (r: Option<Interpretation>)
        requires
            old(self).inv(),
        ensures
            final(self).inv(),
            final(self).spec_rows().len() == old(self).spec_rows().len(),
            r is None <==> !old(self).spec_contains_id(id),
            !old(self).spec_contains_id(id) ==> final(self).spec_rows() == old(self).spec_rows(),
            // no record but the addressed one changes
            forall|i: int|
                0 <= i < old(self).spec_rows().len() && (#[trigger] old(self).spec_rows()[i]).id
                    != id ==> final(self).spec_rows()[i] == old(self).spec_rows()[i],
            // the one state transition the machine allows
            forall|i: int|
                0 <= i < old(self).spec_rows().len() ==> status_leq(
                    (#[trigger] old(self).spec_rows()[i]).interpretation_status,
                    final(self).spec_rows()[i].interpretation_status,
                ),
            // what the addressed record becomes
            forall|i: int|
                0 <= i < old(self).spec_rows().len() && (#[trigger] old(self).spec_rows()[i]).id
                    == id ==> {
                    let before = old(self).spec_rows()[i];
                    let after = final(self).spec_rows()[i];
                    &&& (before.interpretation_status != InterpretationStatus::Pending ==> after
                        == before)
                    &&& (before.interpretation_status == InterpretationStatus::Pending ==> {
                        &&& after.interpretation_status == (match outcome {
                            Result::Ok(_) => InterpretationStatus::Done,
                            Result::Err(_) => InterpretationStatus::Failed,
                        })
                        &&& (outcome matches Result::Ok(text) ==> after.interpretation_text == text
                            && after.interpretation_error@ == Seq::<char>::empty()
                            && after.interpretation_done_at == Some(done_at))
                        &&& (outcome matches Result::Err(message) ==> after.interpretation_error
                            == message && after.interpretation_text@ == Seq::<char>::empty()
                            && after.interpretation_done_at is None)
                        &&& after.id == before.id
                        &&& after.created_at == before.created_at
                        &&& after.question == before.question
                        &&& after.context == before.context
                        &&& after.cards == before.cards
                        &&& after.shuffled_times == before.shuffled_times
                        &&& after.user_id == before.user_id
                        &&& after.user_name == before.user_name
                        &&& after.user_self_description == before.user_self_description
                        &&& after.deleted_at == before.deleted_at
                        &&& after.backend == before.backend
                    })
                },
            // what is returned is what now stands in the store
            r matches Some(v) ==> exists|i: int|
                0 <= i < final(self).spec_rows().len() && (#[trigger] final(self).spec_rows()[i]).id
                    == id && interp_like_row(v, final(self).spec_rows()[i]),
    {
        let found = self.find_index(id);
        match found {
            None => None,
            Some(i) => {
                let pending = matches!(
                    self.rows[i].interpretation_status,
                    InterpretationStatus::Pending
                );
                if pending {
                    let mut row = self.rows.remove(i);
                    match outcome {
                        Result::Ok(text) => {
                            row.interpretation_status = InterpretationStatus::Done;
                            row.interpretation_text = text;
                            row.interpretation_error = String::new();
                            row.interpretation_done_at = Some(done_at);
                        },
                        Result::Err(message) => {
                            row.interpretation_status = InterpretationStatus::Failed;
                            row.interpretation_text = String::new();
                            row.interpretation_error = message;
                            row.interpretation_done_at = None;
                        },
                    }
                    self.rows.insert(i, row);
                    proof {
                        assert(self.rows@ =~= old(self).spec_rows().update(
                            i as int,
                            self.rows@[i as int],
                        ));
                    }
                }
                let stored = clone_row(&self.rows[i]);
                Some(stored.to_interpretation())
            },
        }
    }

    /// Hands an existing record to the given user: sets the owner, whoever
    /// owned it before — concurrent claims are last-writer-wins — and
    /// returns the updated record. Nothing else about the record changes.
    pub fn assign_to_user(&mut self, id: u128, user_id: u128) -> (r: Option<Interpretation>)
        requires
            old(self).inv(),
            user_id != 0,
        ensures
            final(self).inv(),
            final(self).spec_rows().len() == old(self).spec_rows().len(),
            r is None <==> !old(self).spec_contains_id(id),
            !old(self).spec_contains_id(id) ==> final(self).spec_rows() == old(self).spec_rows(),
            forall|i: int|
                0 <= i < old(self).spec_rows().len() && (#[trigger] old(self).spec_rows()[i]).id
                    != id ==> final(self).spec_rows()[i] == old(self).spec_rows()[i],
            forall|i: int|
                0 <= i < old(self).spec_rows().len() && (#[trigger] old(self).spec_rows()[i]).id
                    == id ==> final(self).spec_rows()[i] == (model::Reading {
                    user_id,
                    ..old(self).spec_rows()[i]
                }),
            forall|i: int|
                0 <= i < old(self).spec_rows().len() ==> status_leq(
                    (#[trigger] old(self).spec_rows()[i]).interpretation_status,
                    final(self).spec_rows()[i].interpretation_status,
                ),
            r matches Some(v) ==> exists|i: int|
                0 <= i < final(self).spec_rows().len() && (#[trigger] final(self).spec_rows()[i]).id
                    == id && interp_like_row(v, final(self).spec_rows()[i])
                    && v.spec_reading().user_id == Some(user_id),
    {
        match self.find_index(id) {
            None => None,
            Some(i) => {
                let mut row = self.rows.remove(i);
                row.user_id = user_id;
                self.rows.insert(i, row);
                proof {
                    assert(self.rows@ =~= old(self).spec_rows().update(
                        i as int,
                        self.rows@[i as int],
                    ));
                }
                let stored = clone_row(&self.rows[i]);
                Some(stored.to_interpretation())
            },
        }
    }

    /// Moves every reading owned by the anonymous id to the given user, as
    /// one step of the login flow. In-memory this cannot fail; the result
    /// mirrors the persistence collaborator's interface.
    pub fn reassign_from_anon_to_user(&mut self, anon_id: u128, user_id: u128) -> (r: Result<
        (),
        AppError,
    >)
        requires
            old(self).inv(),
            anon_id != 0,
            user_id != 0,
        ensures
            final(self).inv(),
            r is Ok,
            final(self).spec_rows().len() == old(self).spec_rows().len(),
            forall|i: int|
                0 <= i < old(self).spec_rows().len() && (#[trigger] old(self).spec_rows()[i]).user_id
                    != anon_id ==> final(self).spec_rows()[i] == old(self).spec_rows()[i],
            forall|i: int|
                0 <= i < old(self).spec_rows().len() && (#[trigger] old(self).spec_rows()[i]).user_id
                    == anon_id ==> final(self).spec_rows()[i] == (model::Reading {
                    user_id,
                    ..old(self).spec_rows()[i]
                }),
            forall|i: int|
                0 <= i < old(self).spec_rows().len() ==> status_leq(
                    (#[trigger] old(self).spec_rows()[i]).interpretation_status,
                    final(self).spec_rows()[i].interpretation_status,
                ),
    {
        let n: usize = self.rows.len();
        let mut i: usize = 0;
        while i < n
            invariant
                i <= n,
                n == self.rows@.len(),
                n == old(self).spec_rows().len(),
                user_id != 0,
                old(self).inv(),
                forall|j: int|
                    0 <= j < n ==> (#[trigger] self.rows@[j]).id == old(self).spec_rows()[j].id
                        && self.rows@[j].wf(),
                forall|j: int|
                    i <= j < n ==> self.rows@[j] == old(self).spec_rows()[j],
                forall|j: int|
                    0 <= j < i && (#[trigger] old(self).spec_rows()[j]).user_id != anon_id
                        ==> self.rows@[j] == old(self).spec_rows()[j],
                forall|j: int|
                    0 <= j < i && (#[trigger] old(self).spec_rows()[j]).user_id == anon_id
                        ==> self.rows@[j] == (model::Reading {
                        user_id,
                        ..old(self).spec_rows()[j]
                    }),
            decreases n - i,
        {
            if self.rows[i].user_id == anon_id {
                let mut row = self.rows.remove(i);
                row.user_id = user_id;
                self.rows.insert(i, row);
            }
            i = i + 1;
        }
        Result::Ok(())
    }

    /// Soft-deletes a record, but only when it belongs to the given user:
    /// the deletion time is set and the record stops appearing in history
    /// and statistics, while remaining under its id. Any other case — no
    /// such record, or another owner — is a no-op that returns nothing.
    pub fn delete_interpretation(&mut self, id: u128, user_id: u128, now: i64) -> (r: Option<()>)
        requires
            old(self).inv(),
            user_id != 0,
        ensures
            final(self).inv(),
            final(self).spec_rows().len() == old(self).spec_rows().len(),
            r is Some <==> exists|i: int|
                0 <= i < old(self).spec_rows().len() && (#[trigger] old(self).spec_rows()[i]).id
                    == id && old(self).spec_rows()[i].user_id == user_id,
            r is None ==> final(self).spec_rows() == old(self).spec_rows(),
            forall|i: int|
                0 <= i < old(self).spec_rows().len() && ((#[trigger] old(self).spec_rows()[i]).id
                    != id || old(self).spec_rows()[i].user_id != user_id) ==> final(self).spec_rows()[i] == old(self).spec_rows()[i],
            forall|i: int|
                0 <= i < old(self).spec_rows().len() && (#[trigger] old(self).spec_rows()[i]).id
                    == id && old(self).spec_rows()[i].user_id == user_id ==> final(self).spec_rows()[i] == (model::Reading {
                    deleted_at: Some(now),
                    ..old(self).spec_rows()[i]
                }),
            forall|i: int|
                0 <= i < old(self).spec_rows().len() ==> status_leq(
                    (#[trigger] old(self).spec_rows()[i]).interpretation_status,
                    final(self).spec_rows()[i].interpretation_status,
                ),
    {
        match self.find_index(id) {
            None => None,
            Some(i) => {
                if self.rows[i].user_id != user_id {
                    return None;
                }
                let mut row = self.rows.remove(i);
                row.deleted_at = Some(now);
                self.rows.insert(i, row);
                proof {
                    assert(self.rows@ =~= old(self).spec_rows().update(
                        i as int,
                        self.rows@[i as int],
                    ));
                }
                Some(())
            },
        }
    }
}

/// A record the history query shows: owned by the user, not soft-deleted,
/// and created strictly before the cursor when one is given.
pub open spec fn history_match(row: model::Reading, user_id: u128, before: Option<i64>) -> bool {
    &&& row.user_id == user_id
    &&& row.deleted_at is None
    &&& (before matches Some(b) ==> row.created_at < b)
}

/// How many records the history query matches.
pub open spec fn count_matching(
    rows: Seq<model::Reading>,
    user_id: u128,
    before: Option<i64>,
) -> int
    decreases rows.len(),
{
    if rows.len() == 0 {
        0
    } else {
        count_matching(rows.drop_last(), user_id, before) + if history_match(
            rows.last(),
            user_id,
            before,
        ) {
            1int
        } else {
            0int
        }
    }
}

/// How many records are not soft-deleted.
pub open spec fn count_live(rows: Seq<model::Reading>) -> int
    decreases rows.len(),
{
    if rows.len() == 0 {
        0
    } else {
        count_live(rows.drop_last()) + if rows.last().deleted_at is None {
            1int
        } else {
            0int
        }
    }
}

/// Newest first.
pub open spec fn sorted_desc(s: Seq<model::Reading>) -> bool {
    forall|a: int, b: int| 0 <= a < b < s.len() ==> s[a].created_at >= s[b].created_at
}

proof fn lemma_insert_multiset<A>(s: Seq<A>, pos: int, elt: A)
    requires
        0 <= pos <= s.len(),
    ensures
        s.insert(pos, elt).to_multiset() == s.to_multiset().insert(elt),
{
    broadcast use vstd::multiset::group_multiset_axioms;

    let t = s.insert(pos, elt);
    s.insert_ensures(pos, elt);
    t.to_multiset_ensures();
    s.to_multiset_ensures();
    assert(t.remove(pos) =~= s);
    assert(t[pos] == elt);
    assert(t.to_multiset().count(elt) > 0) by {
        assert(t.contains(elt));
    }
    assert(s.to_multiset() == t.to_multiset().remove(elt));
    assert(t.to_multiset() =~= s.to_multiset().insert(elt));
}

/// Two sequences with the same multiset of records: if no id repeats in the
/// first, none repeats in the second.
proof fn lemma_multiset_keeps_distinct_ids(s1: Seq<model::Reading>, s2: Seq<model::Reading>)
    requires
        s1.to_multiset() == s2.to_multiset(),
        forall|i: int, j: int| 0 <= i < j < s1.len() ==> s1[i].id != s1[j].id,
    ensures
        forall|i: int, j: int| 0 <= i < j < s2.len() ==> s2[i].id != s2[j].id,
{
    broadcast use vstd::multiset::group_multiset_axioms;

    s1.to_multiset_ensures();
    s2.to_multiset_ensures();
    assert forall|k1: int, k2: int| 0 <= k1 < k2 < s2.len() implies s2[k1].id != s2[k2].id by {
        let v1 = s2[k1];
        let v2 = s2[k2];
        if v1.id == v2.id {
            if v1 == v2 {
                let s2r = s2.remove(k1);
                s2r.to_multiset_ensures();
                assert(s2r[k2 - 1] == v2);
                assert(s2r.contains(v2));
                assert(s2r.to_multiset().count(v2) > 0);
                assert(s2.to_multiset().count(v1) >= 2);
                assert(s1.to_multiset().count(v1) >= 2);
                assert(s1.contains(v1));
                let i1 = choose|i: int| 0 <= i < s1.len() && s1[i] == v1;
                let s1r = s1.remove(i1);
                s1r.to_multiset_ensures();
                assert(s1r.to_multiset().count(v1) >= 1);
                assert(s1r.contains(v1));
                let i2 = choose|i: int| 0 <= i < s1r.len() && s1r[i] == v1;
                if i2 < i1 {
                    assert(s1[i2] == v1);
                } else {
                    assert(s1[i2 + 1] == v1);
                }
                assert(false);
            } else {
                assert(s2.contains(v1) && s2.contains(v2));
                assert(s1.to_multiset().count(v1) > 0 && s1.to_multiset().count(v2) > 0);
                assert(s1.contains(v1) && s1.contains(v2));
                let i1 = choose|i: int| 0 <= i < s1.len() && s1[i] == v1;
                let i2 = choose|i: int| 0 <= i < s1.len() && s1[i] == v2;
                assert(false);
            }
        }
    }
}

/// Sorts records newest first; the records themselves are exactly the ones
/// handed in.
fn sort_rows_desc(rows: &mut Vec<model::Reading>)
    ensures
        final(rows)@.len() == old(rows)@.len(),
        final(rows)@.to_multiset() == old(rows)@.to_multiset(),
        sorted_desc(final(rows)@),
{
    let n: usize = rows.len();
    if n <= 1 {
        return ;
    }
    let mut i: usize = 1;
    while i < n
        invariant
            1 <= i <= n,
            n == rows@.len(),
            rows@.to_multiset() == old(rows)@.to_multiset(),
            forall|a: int, b: int| 0 <= a < b < i ==> rows@[a].created_at >= rows@[b].created_at,
        decreases n - i,
    {
        let mut j: usize = i;
        while j > 0 && rows[j - 1].created_at < rows[j].created_at
            invariant
                j <= i < n,
                n == rows@.len(),
                rows@.to_multiset() == old(rows)@.to_multiset(),
                forall|a: int, b: int|
                    0 <= a < b <= i && b != j ==> rows@[a].created_at >= rows@[b].created_at,
                forall|b: int|
                    j < b <= i ==> rows@[j as int].created_at >= rows@[b].created_at,
            decreases j,
        {
            let ghost s = rows@;
            let moved = rows.remove(j - 1);
            rows.insert(j, moved);
            proof {
                broadcast use vstd::multiset::group_multiset_axioms;

                s.to_multiset_ensures();
                s.remove(j - 1).to_multiset_ensures();
                lemma_insert_multiset(s.remove(j - 1), j as int, s[j - 1]);
                assert(s.contains(s[j - 1]));
                assert(s.remove(j - 1).to_multiset().insert(s[j - 1]) =~= s.to_multiset());
                assert(rows@ =~= s.update(j - 1, s[j as int]).update(j as int, s[j - 1]));
            }
            j = j - 1;
        }
        i = i + 1;
    }
}

impl InterpretationStore {
    /// Copies of every record the history query matches, in storage order.
    fn collect_matching(&self, user_id: u128, before: Option<i64>) -> (found: Vec<model::Reading>)
        requires
            self.inv(),
        ensures
            found@.len() == count_matching(self.spec_rows(), user_id, before),
            forall|k: int|
                #![trigger found@[k]]
                0 <= k < found@.len() ==> found@[k].wf() && history_match(
                    found@[k],
                    user_id,
                    before,
                ) && copies_some_record(found@[k], self.spec_rows()),
            forall|k1: int, k2: int|
                0 <= k1 < k2 < found@.len() ==> found@[k1].id != found@[k2].id,
            forall|j: int|
                0 <= j < self.spec_rows().len() && history_match(
                    #[trigger] self.spec_rows()[j],
                    user_id,
                    before,
                ) ==> exists|k: int|
                    0 <= k < found@.len() && row_like(#[trigger] found@[k], self.spec_rows()[j]),
    {
        let n: usize = self.rows.len();
        let mut found: Vec<model::Reading> = Vec::new();
        let ghost src: Seq<int> = Seq::empty();
        let mut src_ghost = Ghost(src);
        let mut i: usize = 0;
        while i < n
            invariant
                i <= n,
                n == self.spec_rows().len(),
                self.inv(),
                src_ghost@.len() == found@.len(),
                forall|k: int|
                    0 <= k < found@.len() ==> 0 <= #[trigger] src_ghost@[k] < i && row_like(
                        found@[k],
                        self.spec_rows()[src_ghost@[k]],
                    ) && found@[k].wf() && history_match(found@[k], user_id, before),
                forall|k1: int, k2: int|
                    0 <= k1 < k2 < found@.len() ==> src_ghost@[k1] < src_ghost@[k2],
                found@.len() == count_matching(
                    self.spec_rows().subrange(0, i as int),
                    user_id,
                    before,
                ),
                forall|j: int|
                    0 <= j < i && history_match(#[trigger] self.spec_rows()[j], user_id, before)
                        ==> exists|k: int|
                        0 <= k < found@.len() && #[trigger] src_ghost@[k] == j,
            decreases n - i,
        {
            proof {
                assert(self.spec_rows().subrange(0, i + 1).drop_last() =~= self.spec_rows()
                    .subrange(0, i as int));
                assert(self.spec_rows()[i as int] == self.rows@[i as int]);
                assert(self.spec_rows()[i as int].wf());
            }
            let ghost found_prev = found@;
            let ghost src_prev = src_ghost@;
            let row = &self.rows[i];
            let keep = row.user_id == user_id && row.deleted_at.is_none() && (match before {
                Option::Some(b) => row.created_at < b,
                Option::None => true,
            });
            if keep {
                found.push(clone_row(row));
                proof {
                    src_ghost@ = src_ghost@.push(i as int);
                }
            }
            proof {
                assert forall|j: int|
                    0 <= j < i + 1 && history_match(
                        #[trigger] self.spec_rows()[j],
                        user_id,
                        before,
                    ) implies exists|k: int|
                    0 <= k < found@.len() && #[trigger] src_ghost@[k] == j by {
                    if j == i {
                        assert(keep);
                        assert(src_ghost@[src_ghost@.len() - 1] == j);
                    } else {
                        let k = choose|k: int|
                            0 <= k < found_prev.len() && #[trigger] src_prev[k] == j;
                        assert(src_ghost@[k] == src_prev[k]);
                    }
                }
            }
            i = i + 1;
        }
        proof {
            assert(self.spec_rows().subrange(0, n as int) =~= self.spec_rows());
            assert forall|k: int|
                #![trigger found@[k]]
                0 <= k < found@.len() implies found@[k].wf() && history_match(
                found@[k],
                user_id,
                before,
            ) && copies_some_record(found@[k], self.spec_rows()) by {
                assert(row_like(found@[k], self.spec_rows()[src_ghost@[k]]));
            }
            assert forall|k1: int, k2: int|
                0 <= k1 < k2 < found@.len() implies found@[k1].id != found@[k2].id by {
                assert(row_like(found@[k1], self.spec_rows()[src_ghost@[k1]]));
                assert(row_like(found@[k2], self.spec_rows()[src_ghost@[k2]]));
            }
            assert forall|j: int|
                0 <= j < self.spec_rows().len() && history_match(
                    #[trigger] self.spec_rows()[j],
                    user_id,
                    before,
                ) implies exists|k: int|
                0 <= k < found@.len() && row_like(#[trigger] found@[k], self.spec_rows()[j]) by {
                let k = choose|k: int| 0 <= k < found@.len() && #[trigger] src_ghost@[k] == j;
                assert(row_like(found@[k], self.spec_rows()[j]));
            }
        }
        found
    }

    /// Copies of every record that is not soft-deleted, in storage order.
    fn collect_live(&self) -> (found: Vec<model::Reading>)
        requires
            self.inv(),
        ensures
            found@.len() == count_live(self.spec_rows()),
            forall|k: int|
                #![trigger found@[k]]
                0 <= k < found@.len() ==> found@[k].wf() && found@[k].deleted_at is None
                    && copies_some_record(found@[k], self.spec_rows()),
            forall|j: int|
                0 <= j < self.spec_rows().len() && (#[trigger] self.spec_rows()[j]).deleted_at
                    is None ==> exists|k: int|
                    0 <= k < found@.len() && row_like(#[trigger] found@[k], self.spec_rows()[j]),
    {
        let n: usize = self.rows.len();
        let mut found: Vec<model::Reading> = Vec::new();
        let ghost src: Seq<int> = Seq::empty();
        let mut src_ghost = Ghost(src);
        let mut i: usize = 0;
        while i < n
            invariant
                i <= n,
                n == self.spec_rows().len(),
                self.inv(),
                src_ghost@.len() == found@.len(),
                forall|k: int|
                    0 <= k < found@.len() ==> 0 <= #[trigger] src_ghost@[k] < i && row_like(
                        found@[k],
                        self.spec_rows()[src_ghost@[k]],
                    ) && found@[k].wf() && found@[k].deleted_at is None,
                found@.len() == count_live(self.spec_rows().subrange(0, i as int)),
                forall|j: int|
                    0 <= j < i && (#[trigger] self.spec_rows()[j]).deleted_at is None ==> exists|
                        k: int,
                    |
                        0 <= k < found@.len() && #[trigger] src_ghost@[k] == j,
            decreases n - i,
        {
            proof {
                assert(self.spec_rows().subrange(0, i + 1).drop_last() =~= self.spec_rows()
                    .subrange(0, i as int));
                assert(self.spec_rows()[i as int] == self.rows@[i as int]);
                assert(self.spec_rows()[i as int].wf());
            }
            let ghost found_prev = found@;
            let ghost src_prev = src_ghost@;
            if self.rows[i].deleted_at.is_none() {
                found.push(clone_row(&self.rows[i]));
                proof {
                    src_ghost@ = src_ghost@.push(i as int);
                }
            }
            proof {
                assert forall|j: int|
                    0 <= j < i + 1 && (#[trigger] self.spec_rows()[j]).deleted_at
                        is None implies exists|k: int|
                    0 <= k < found@.len() && #[trigger] src_ghost@[k] == j by {
                    if j == i {
                        assert(src_ghost@[src_ghost@.len() - 1] == j);
                    } else {
                        let k = choose|k: int|
                            0 <= k < found_prev.len() && #[trigger] src_prev[k] == j;
                        assert(src_ghost@[k] == src_prev[k]);
                    }
                }
            }
            i = i + 1;
        }
        proof {
            assert(self.spec_rows().subrange(0, n as int) =~= self.spec_rows());
            assert forall|k: int|
                #![trigger found@[k]]
                0 <= k < found@.len() implies found@[k].wf() && found@[k].deleted_at is None
                && copies_some_record(found@[k], self.spec_rows()) by {
                assert(row_like(found@[k], self.spec_rows()[src_ghost@[k]]));
            }
            assert forall|j: int|
                0 <= j < self.spec_rows().len() && (#[trigger] self.spec_rows()[j]).deleted_at
                    is None implies exists|k: int|
                0 <= k < found@.len() && row_like(#[trigger] found@[k], self.spec_rows()[j]) by {
                let k = choose|k: int| 0 <= k < found@.len() && #[trigger] src_ghost@[k] == j;
                assert(row_like(found@[k], self.spec_rows()[j]));
            }
        }
        found
    }

    /// Every non-deleted record, in storage order, as transient copies:
    /// the statistics path reads the whole store through this.
    pub fn get_all_interpretations(&self) -> (r: Vec<Interpretation>)
        requires
            self.inv(),
        ensures
            r@.len() == count_live(self.spec_rows()),
            forall|k: int|
                0 <= k < r@.len() ==> shows_live_record(#[trigger] r@[k], self.spec_rows()),
            forall|j: int|
                0 <= j < self.spec_rows().len() && (#[trigger] self.spec_rows()[j]).deleted_at
                    is None ==> exists|k: int|
                    0 <= k < r@.len() && (#[trigger] r@[k]).spec_reading().id
                        == self.spec_rows()[j].id,
    {
        let found = self.collect_live();
        let ghost rows_kept = found@;
        let out = convert_rows(found);
        proof {
            assert forall|k: int|
                0 <= k < out@.len() implies shows_live_record(
                #[trigger] out@[k],
                self.spec_rows(),
            ) by {
                assert(copies_some_record(rows_kept[k], self.spec_rows()));
                let j = choose|j: int|
                    0 <= j < self.spec_rows().len() && row_like(
                        rows_kept[k],
                        #[trigger] self.spec_rows()[j],
                    );
                assert(self.spec_rows()[j].deleted_at is None);
                assert(interp_like_row(out@[k], rows_kept[k]));
                assert(interp_like_row(out@[k], self.spec_rows()[j]));
                assert(shows_live_record(out@[k], self.spec_rows()));
            }
            assert forall|j: int|
                0 <= j < self.spec_rows().len() && (#[trigger] self.spec_rows()[j]).deleted_at
                    is None implies exists|k: int|
                0 <= k < out@.len() && (#[trigger] out@[k]).spec_reading().id
                    == self.spec_rows()[j].id by {
                let k = choose|k: int|
                    0 <= k < rows_kept.len() && row_like(
                        #[trigger] rows_kept[k],
                        self.spec_rows()[j],
                    );
                assert(interp_like_row(out@[k], rows_kept[k]));
                assert(out@[k].spec_reading().id == self.spec_rows()[j].id);
            }
        }
        out
    }

    /// The user's history, newest first: only their own records, none that
    /// was soft-deleted, only those created strictly before the cursor when
    /// one is given, and at most `limit` of them — and nothing newer than
    /// what is shown was left out.
    pub fn get_history_for_user_paged(
        &self,
        user_id: u128,
        before: Option<i64>,
        limit: i64,
    ) -> (r: Vec<Interpretation>)
        requires
            self.inv(),
            user_id != 0,
            1 <= limit <= 200,
        ensures
            r@.len() == (if count_matching(self.spec_rows(), user_id, before) < limit as int {
                count_matching(self.spec_rows(), user_id, before)
            } else {
                limit as int
            }),
            forall|a: int, b: int|
                0 <= a < b < r@.len() ==> (#[trigger] r@[a]).spec_reading().created_at >= (
                #[trigger] r@[b]).spec_reading().created_at,
            forall|k: int|
                0 <= k < r@.len() ==> shows_matching_record(
                    #[trigger] r@[k],
                    self.spec_rows(),
                    user_id,
                    before,
                ),
            forall|k1: int, k2: int|
                0 <= k1 < k2 < r@.len() ==> (#[trigger] r@[k1]).spec_reading().id != (
                #[trigger] r@[k2]).spec_reading().id,
            forall|j: int|
                (0 <= j < self.spec_rows().len() && history_match(
                    #[trigger] self.spec_rows()[j],
                    user_id,
                    before,
                ) && (forall|k: int|
                    0 <= k < r@.len() ==> (#[trigger] r@[k]).spec_reading().id
                        != self.spec_rows()[j].id)) ==> (forall|k: int|
                    0 <= k < r@.len() ==> self.spec_rows()[j].created_at <= (
                    #[trigger] r@[k]).spec_reading().created_at),
    {
        let mut found = self.collect_matching(user_id, before);
        let ghost collected = found@;
        sort_rows_desc(&mut found);
        let ghost sorted = found@;
        proof {
            lemma_sort_keeps_catalog(self.spec_rows(), collected, sorted, user_id, before);
        }
        let lim: usize = limit as usize;
        if found.len() > lim {
            found.truncate(lim);
        }
        proof {
            assert(found@ =~= sorted.subrange(0, found@.len() as int));
        }
        let out = convert_rows(found);
        proof {
            lemma_history_shape(self.spec_rows(), sorted, out@, user_id, before, limit as int);
        }
        out
    }
}

/// Rebuilds the lifecycle values from copied records, in order.
fn convert_rows(rows_in: Vec<model::Reading>) -> (out: Vec<Interpretation>)
    requires
        forall|k: int| 0 <= k < rows_in@.len() ==> (#[trigger] rows_in@[k]).wf(),
    ensures
        out@.len() == rows_in@.len(),
        forall|k: int| 0 <= k < out@.len() ==> interp_like_row(#[trigger] out@[k], rows_in@[k]),
{
    let total: usize = rows_in.len();
    let mut out: Vec<Interpretation> = Vec::new();
    let mut p: usize = 0;
    while p < total
        invariant
            p <= total,
            total == rows_in@.len(),
            out@.len() == p,
            forall|k: int| 0 <= k < rows_in@.len() ==> (#[trigger] rows_in@[k]).wf(),
            forall|k: int| 0 <= k < p ==> interp_like_row(#[trigger] out@[k], rows_in@[k]),
        decreases total - p,
    {
        let copy = clone_row(&rows_in[p]);
        out.push(copy.to_interpretation());
        p = p + 1;
    }
    out
}

/// A permutation of the collected records keeps their length, their mutual
/// distinctness, and their correspondence with the store.
proof fn lemma_sort_keeps_catalog(
    rows: Seq<model::Reading>,
    collected: Seq<model::Reading>,
    sorted: Seq<model::Reading>,
    user_id: u128,
    before: Option<i64>,
)
    requires
        collected.to_multiset() == sorted.to_multiset(),
        forall|k: int|
            #![trigger collected[k]]
            0 <= k < collected.len() ==> collected[k].wf() && history_match(
                collected[k],
                user_id,
                before,
            ) && copies_some_record(collected[k], rows),
        forall|k1: int, k2: int|
            0 <= k1 < k2 < collected.len() ==> collected[k1].id != collected[k2].id,
        forall|j: int|
            0 <= j < rows.len() && history_match(#[trigger] rows[j], user_id, before) ==> exists|
                k: int,
            |
                0 <= k < collected.len() && row_like(#[trigger] collected[k], rows[j]),
    ensures
        sorted.len() == collected.len(),
        forall|k: int|
            #![trigger sorted[k]]
            0 <= k < sorted.len() ==> sorted[k].wf() && history_match(sorted[k], user_id, before)
                && copies_some_record(sorted[k], rows),
        forall|k1: int, k2: int|
            0 <= k1 < k2 < sorted.len() ==> sorted[k1].id != sorted[k2].id,
        forall|j: int|
            0 <= j < rows.len() && history_match(#[trigger] rows[j], user_id, before) ==> exists|
                k: int,
            |
                0 <= k < sorted.len() && row_like(#[trigger] sorted[k], rows[j]),
{
    collected.to_multiset_ensures();
    sorted.to_multiset_ensures();
    lemma_multiset_keeps_distinct_ids(collected, sorted);
    assert forall|k: int| #![trigger sorted[k]] 0 <= k < sorted.len() implies sorted[k].wf()
        && history_match(sorted[k], user_id, before) && copies_some_record(sorted[k], rows) by {
        assert(collected.contains(sorted[k])) by {
            assert(sorted.to_multiset().count(sorted[k]) > 0) by {
                assert(sorted.contains(sorted[k]));
            }
        }
        let k0 = choose|k0: int| 0 <= k0 < collected.len() && collected[k0] == sorted[k];
        assert(collected[k0].wf());
        assert(copies_some_record(collected[k0], rows));
    }
    assert forall|j: int|
        0 <= j < rows.len() && history_match(#[trigger] rows[j], user_id, before) implies exists|
        k: int,
    |
        0 <= k < sorted.len() && row_like(#[trigger] sorted[k], rows[j]) by {
        let k0 = choose|k0: int|
            0 <= k0 < collected.len() && row_like(#[trigger] collected[k0], rows[j]);
        assert(sorted.contains(collected[k0])) by {
            assert(collected.to_multiset().count(collected[k0]) > 0) by {
                assert(collected.contains(collected[k0]));
            }
        }
        let k1 = choose|k1: int| 0 <= k1 < sorted.len() && sorted[k1] == collected[k0];
        assert(row_like(sorted[k1], rows[j]));
    }
}

/// From the sorted catalog and the converted prefix, everything the history
/// query promises follows.
proof fn lemma_history_shape(
    rows: Seq<model::Reading>,
    sorted: Seq<model::Reading>,
    out: Seq<Interpretation>,
    user_id: u128,
    before: Option<i64>,
    limit: int,
)
    requires
        sorted_desc(sorted),
        sorted.len() == count_matching(rows, user_id, before),
        forall|k: int|
            #![trigger sorted[k]]
            0 <= k < sorted.len() ==> sorted[k].wf() && history_match(sorted[k], user_id, before)
                && copies_some_record(sorted[k], rows),
        forall|k1: int, k2: int|
            0 <= k1 < k2 < sorted.len() ==> sorted[k1].id != sorted[k2].id,
        forall|j: int|
            0 <= j < rows.len() && history_match(#[trigger] rows[j], user_id, before) ==> exists|
                k: int,
            |
                0 <= k < sorted.len() && row_like(#[trigger] sorted[k], rows[j]),
        out.len() == (if sorted.len() < limit {
            sorted.len() as int
        } else {
            limit
        }),
        forall|k: int| 0 <= k < out.len() ==> interp_like_row(#[trigger] out[k], sorted[k]),
    ensures
        out.len() == (if count_matching(rows, user_id, before) < limit {
            count_matching(rows, user_id, before)
        } else {
            limit
        }),
        forall|a: int, b: int|
            0 <= a < b < out.len() ==> (#[trigger] out[a]).spec_reading().created_at >= (
            #[trigger] out[b]).spec_reading().created_at,
        forall|k: int|
            0 <= k < out.len() ==> shows_matching_record(#[trigger] out[k], rows, user_id, before),
        forall|k1: int, k2: int|
            0 <= k1 < k2 < out.len() ==> (#[trigger] out[k1]).spec_reading().id != (
            #[trigger] out[k2]).spec_reading().id,
        forall|j: int|
            (0 <= j < rows.len() && history_match(#[trigger] rows[j], user_id, before) && (forall|
                k: int,
            |
                0 <= k < out.len() ==> (#[trigger] out[k]).spec_reading().id != rows[j].id)) ==> (
            forall|k: int|
                0 <= k < out.len() ==> rows[j].created_at <= (
                #[trigger] out[k]).spec_reading().created_at),
{
    assert forall|k: int|
        0 <= k < out.len() implies shows_matching_record(
        #[trigger] out[k],
        rows,
        user_id,
        before,
    ) by {
        assert(copies_some_record(sorted[k], rows));
        let j = choose|j: int| 0 <= j < rows.len() && row_like(sorted[k], #[trigger] rows[j]);
        assert(history_match(sorted[k], user_id, before));
        assert(history_match(rows[j], user_id, before));
        assert(interp_like_row(out[k], sorted[k]));
        assert(interp_like_row(out[k], rows[j]));
        assert(shows_matching_record(out[k], rows, user_id, before));
    }
    assert forall|j: int|
        (0 <= j < rows.len() && history_match(#[trigger] rows[j], user_id, before) && (forall|
            k: int,
        |
            0 <= k < out.len() ==> (#[trigger] out[k]).spec_reading().id != rows[j].id)) implies (
    forall|k: int|
        0 <= k < out.len() ==> rows[j].created_at <= (
        #[trigger] out[k]).spec_reading().created_at) by {
        let k1 = choose|k1: int| 0 <= k1 < sorted.len() && row_like(#[trigger] sorted[k1], rows[j]);
        assert(k1 >= out.len()) by {
            if k1 < out.len() {
                assert(out[k1].spec_reading().id == sorted[k1].id);
            }
        }
        assert forall|k: int| 0 <= k < out.len() implies rows[j].created_at <= (
        #[trigger] out[k]).spec_reading().created_at by {
            assert(sorted[k].created_at >= sorted[k1].created_at);
            assert(out[k].spec_reading().created_at == sorted[k].created_at);
        }
    }
}

/// A field-for-field copy of a record; the texts are cloned, the rest moves
/// by value.
fn clone_row(row: &model::Reading) -> (r: model::Reading)
    ensures
        row_like(r, *row),
        r.wf() == row.wf(),
{
    model::Reading {
        id: row.id,
        created_at: row.created_at,
        question: row.question.clone(),
        context: row.context.clone(),
        cards: row.cards.clone(),
        shuffled_times: row.shuffled_times,
        user_id: row.user_id,
        user_name: row.user_name.clone(),
        user_self_description: row.user_self_description.clone(),
        interpretation_status: row.interpretation_status,
        interpretation_text: row.interpretation_text.clone(),
        interpretation_error: row.interpretation_error.clone(),
        deleted_at: row.deleted_at,
        interpretation_done_at: row.interpretation_done_at,
        backend: row.backend,
    }
}

} // verus!
