//! The dispatcher's two synchronous steps around the background narration
//! task. The pending record is persisted before the task starts; the task's
//! outcome is settled — localized, stored, and handed back for broadcast —
//! after the call returns. Broadcasting what `settle_interpretation` returns
//! therefore always happens after the transition is persisted.

use crate::error::AppError;
use crate::interpretation::explain_error_message;
use crate::interpretation::localize_explain_error;
use crate::interpretation::ExplainError;
use crate::interpretation::Interpretation;
use crate::locale::Locale;
use crate::model::InterpretationStatus;
use crate::reading::Reading;
use crate::store::interp_like_row;
use crate::store::is_pending_row_of;
use crate::store::status_leq;
use crate::store::InterpretationStore;
use vstd::prelude::*;

verus! {

/// Persists a fresh reading as a pending record; the caller may then hand
/// the reading to the background worker, knowing a durable record exists.
pub fn request_interpretation(store: &mut InterpretationStore, reading: Reading) -> (r: Result<
    (),
    AppError,
>)
    requires
        old(store).inv(),
        reading.wf(),
    ensures
        final(store).inv(),
        old(store).spec_contains_id(reading.id) ==> r == Result::<(), AppError>::Err(
            AppError::AlreadyExists,
        ) && final(store).spec_rows() == old(store).spec_rows(),
        !old(store).spec_contains_id(reading.id) ==> r is Ok && final(store).spec_rows().len()
            == old(store).spec_rows().len() + 1 && final(store).spec_rows().subrange(
            0,
            old(store).spec_rows().len() as int,
        ) == old(store).spec_rows() && is_pending_row_of(final(store).spec_rows().last(), reading),
{
    store.save_pending(reading)
}

/// Settles the narrator's outcome for a reading: on success the record turns
/// done with the text and the given time; on failure it turns failed with
/// the message localized for the requester. A record that is already
/// terminal stays exactly as it was. What is returned is what now stands in
/// the store, ready to broadcast; an unknown id returns nothing.
pub fn settle_interpretation(
    store: &mut InterpretationStore,
    id: u128,
    outcome: Result<String, ExplainError>,
    locale: &Locale,
    now: i64,
) -> (r: Option<Interpretation>)
    requires
        old(store).inv(),
    ensures
        final(store).inv(),
        final(store).spec_rows().len() == old(store).spec_rows().len(),
        r is None <==> !old(store).spec_contains_id(id),
        !old(store).spec_contains_id(id) ==> final(store).spec_rows() == old(store).spec_rows(),
        forall|i: int|
            0 <= i < old(store).spec_rows().len() && (#[trigger] old(store).spec_rows()[i]).id
                != id ==> final(store).spec_rows()[i] == old(store).spec_rows()[i],
        forall|i: int|
            0 <= i < old(store).spec_rows().len() ==> status_leq(
                (#[trigger] old(store).spec_rows()[i]).interpretation_status,
                final(store).spec_rows()[i].interpretation_status,
            ),
        forall|i: int|
            0 <= i < old(store).spec_rows().len() && (#[trigger] old(store).spec_rows()[i]).id
                == id ==> {
                let row_before = old(store).spec_rows()[i];
                let row_after = final(store).spec_rows()[i];
                &&& (row_before.interpretation_status != InterpretationStatus::Pending
                    ==> row_after == row_before)
                &&& (row_before.interpretation_status == InterpretationStatus::Pending ==> {
                    &&& (outcome matches Result::Ok(text) ==> row_after.interpretation_status
                        == InterpretationStatus::Done && row_after.interpretation_text == text
                        && row_after.interpretation_done_at == Some(now))
                    &&& (outcome matches Result::Err(e) ==> row_after.interpretation_status
                        == InterpretationStatus::Failed && row_after.interpretation_error@
                        == explain_error_message(e, locale.spec_is_portuguese())
                        && row_after.interpretation_done_at is None)
                    &&& row_after.id == row_before.id
                    &&& row_after.created_at == row_before.created_at
                    &&& row_after.question == row_before.question
                    &&& row_after.cards == row_before.cards
                    &&& row_after.user_id == row_before.user_id
                    &&& row_after.deleted_at == row_before.deleted_at
                })
            },
        r matches Some(v) ==> exists|i: int|
            0 <= i < final(store).spec_rows().len() && (#[trigger] final(store).spec_rows()[i]).id
                == id && interp_like_row(v, final(store).spec_rows()[i]),
{
    let stored_outcome: Result<String, String> = match outcome {
        Result::Ok(text) => Result::Ok(text),
        Result::Err(e) => Result::Err(localize_explain_error(&e, locale)),
    };
    store.record_outcome(id, stored_outcome, now)
}

} // verus!
