//! The decision core of the lookup, deletion and history endpoints: what each
//! request does to the store and what it answers, given the already-extracted
//! request values. The HTTP layer only parses requests into these values and
//! writes the answers back out.

use crate::clock;
use crate::ids;
use crate::interpretation::not_found_message;
use crate::interpretation::GetInterpretationResult;
use crate::interpretation::Interpretation;
use crate::locale::Locale;
use crate::model;
use crate::model::InterpretationStatus;
use crate::store::count_matching;
use crate::store::history_match;
use crate::store::shows_matching_record;
use crate::store::InterpretationStore;
use vstd::prelude::*;

verus! {

/// The query parameters of the history endpoint, as they arrive.
#[derive(Clone, Debug)]
pub struct HistoryQuery {
    /// An RFC 3339 instant; only readings created strictly before it are
    /// returned.
    pub before: Option<String>,
    /// How many readings at most; the server clamps it.
    pub limit: Option<i64>,
}

/// The page size a query resolves to: 30 when absent, clamped into [1, 200].
pub open spec fn spec_history_limit(limit: Option<i64>) -> i64 {
    let asked = match limit {
        Some(l) => l,
        None => 30,
    };
    if asked < 1 {
        1
    } else if asked > 200 {
        200
    } else {
        asked
    }
}

/// The cursor a query resolves to: the parsed instant, or none when absent
/// or unparseable.
pub open spec fn spec_history_before(before: Option<String>) -> Option<i64> {
    match before {
        Some(s) => clock::rfc3339_micros_of(s@),
        None => None,
    }
}

fn history_limit(limit: Option<i64>) -> (r: i64)
    ensures
        r == spec_history_limit(limit),
        1 <= r <= 200,
{
    let asked: i64 = match limit {
        Option::Some(l) => l,
        Option::None => 30,
    };
    if asked < 1 {
        1
    } else if asked > 200 {
        200
    } else {
        asked
    }
}

/// The result of a lookup shows the given stored record.
pub open spec fn result_shows_row(res: GetInterpretationResult, row: model::Reading) -> bool {
    &&& res.done == (row.interpretation_status != InterpretationStatus::Pending)
    &&& (res.reading matches Some(rd) && rd.id == row.id && rd.user_id == (if row.user_id == 0 {
        Option::<u128>::None
    } else {
        Some(row.user_id)
    }) && rd.question@ == row.question@ && rd.cards@ == row.cards@ && rd.created_at
        == row.created_at && rd.shuffled_times as int == row.shuffled_times as int)
    &&& res.interpretation@ == (if row.interpretation_status == InterpretationStatus::Done {
        row.interpretation_text@
    } else {
        Seq::<char>::empty()
    })
    &&& res.error@ == (if row.interpretation_status == InterpretationStatus::Failed {
        row.interpretation_error@
    } else {
        Seq::<char>::empty()
    })
    &&& res.interpretation_done_at == (if row.interpretation_status == InterpretationStatus::Done {
        row.interpretation_done_at
    } else {
        Option::<i64>::None
    })
}

/// Looks a reading up by its textual id for the given user. An id that does
/// not parse, or names no record, answers 404 with nothing (a localized "not
/// found" in the latter case). An existing record answers 200; if it had no
/// owner yet, the requesting user becomes its owner first, so the answer
/// always shows an owned reading.
pub fn get_interpretation_endpoint(
    store: &mut InterpretationStore,
    interpretation_id: &str,
    user_id: u128,
    locale: &Locale,
) -> (r: (u16, GetInterpretationResult))
    requires
        old(store).inv(),
        user_id != 0,
    ensures
        final(store).inv(),
        ids::uuid_of(interpretation_id@) is None ==> r.0 == 404 && !r.1.done && r.1.reading is None
            && r.1.error@ == Seq::<char>::empty() && final(store).spec_rows() == old(store).spec_rows(),
        ids::uuid_of(interpretation_id@) matches Some(id) ==> {
            &&& (!old(store).spec_contains_id(id) ==> r.0 == 404 && !r.1.done && r.1.reading
                is None && r.1.error@ == not_found_message(locale.spec_is_portuguese()) && final(store).spec_rows() == old(store).spec_rows())
            &&& (old(store).spec_contains_id(id) ==> r.0 == 200 && final(store).spec_rows().len()
                == old(store).spec_rows().len() && (forall|i: int|
                0 <= i < old(store).spec_rows().len() && (#[trigger] old(store).spec_rows()[i]).id
                    != id ==> final(store).spec_rows()[i] == old(store).spec_rows()[i]) && (forall|
                i: int,
            |
                0 <= i < old(store).spec_rows().len() && (#[trigger] old(store).spec_rows()[i]).id
                    == id ==> {
                    let row_before = old(store).spec_rows()[i];
                    let row_after = final(store).spec_rows()[i];
                    &&& (row_before.user_id != 0 ==> row_after == row_before)
                    &&& (row_before.user_id == 0 ==> row_after == (model::Reading {
                        user_id,
                        ..row_before
                    }))
                    &&& result_shows_row(r.1, row_after)
                }))
        },
{
    let parsed = ids::parse_id(interpretation_id);
    match parsed {
        Option::None => (404, GetInterpretationResult::default()),
        Option::Some(id) => {
            match store.get_interpretation(id) {
                Option::None => (404, GetInterpretationResult::of_lookup(Option::None, locale)),
                Option::Some(found) => {
                    let owned = match found.reading().user_id {
                        Option::Some(_) => true,
                        Option::None => false,
                    };
                    if owned {
                        (200, GetInterpretationResult::of_interpretation(found))
                    } else {
                        let assigned = store.assign_to_user(id, user_id);
                        match assigned {
                            Option::Some(updated) => (
                                200,
                                GetInterpretationResult::of_interpretation(updated),
                            ),
                            Option::None => (
                                404,
                                GetInterpretationResult::of_lookup(Option::None, locale),
                            ),
                        }
                    }
                },
            }
        },
    }
}

/// Deletes a reading by its textual id on behalf of the given user. An id
/// that does not parse, or a reading that is not the user's own, answers 400
/// and changes nothing; the user's own reading is soft-deleted and answered
/// with 204.
pub fn delete_interpretation_endpoint(
    store: &mut InterpretationStore,
    interpretation_id: &str,
    user_id: u128,
    now: i64,
) -> (status: u16)
    requires
        old(store).inv(),
        user_id != 0,
    ensures
        final(store).inv(),
        final(store).spec_rows().len() == old(store).spec_rows().len(),
        ids::uuid_of(interpretation_id@) is None ==> status == 400 && final(store).spec_rows()
            == old(store).spec_rows(),
        ids::uuid_of(interpretation_id@) matches Some(id) ==> {
            &&& (status == 204 <==> exists|i: int|
                0 <= i < old(store).spec_rows().len() && (#[trigger] old(store).spec_rows()[i]).id
                    == id && old(store).spec_rows()[i].user_id == user_id)
            &&& (status == 204 || status == 400)
            &&& (status == 400 ==> final(store).spec_rows() == old(store).spec_rows())
            &&& (forall|i: int|
                0 <= i < old(store).spec_rows().len() && (#[trigger] old(store).spec_rows()[i]).id
                    == id && old(store).spec_rows()[i].user_id == user_id
                    ==> final(store).spec_rows()[i] == (model::Reading {
                    deleted_at: Some(now),
                    ..old(store).spec_rows()[i]
                }))
            &&& (forall|i: int|
                0 <= i < old(store).spec_rows().len()
                    && ((#[trigger] old(store).spec_rows()[i]).id != id
                    || old(store).spec_rows()[i].user_id != user_id)
                    ==> final(store).spec_rows()[i] == old(store).spec_rows()[i])
        },
{
    let parsed = ids::parse_id(interpretation_id);
    match parsed {
        Option::None => 400,
        Option::Some(id) => {
            match store.delete_interpretation(id, user_id, now) {
                Option::Some(_) => 204,
                Option::None => 400,
            }
        },
    }
}

/// Answers the history query for the given user: the cursor is the parsed
/// RFC 3339 instant (ignored when unparseable), the page size is clamped,
/// and the page is the newest matching readings, newest first.
pub fn get_interpretation_history_endpoint(
    store: &InterpretationStore,
    user_id: u128,
    query: HistoryQuery,
) -> (r: Vec<Interpretation>)
    requires
        store.inv(),
        user_id != 0,
    ensures
        ({
            let before = spec_history_before(query.before);
            let limit = spec_history_limit(query.limit) as int;
            &&& r@.len() == (if count_matching(store.spec_rows(), user_id, before) < limit {
                count_matching(store.spec_rows(), user_id, before)
            } else {
                limit
            })
            &&& (forall|a: int, b: int|
                0 <= a < b < r@.len() ==> (#[trigger] r@[a]).spec_reading().created_at >= (
                #[trigger] r@[b]).spec_reading().created_at)
            &&& (forall|k: int|
                0 <= k < r@.len() ==> shows_matching_record(
                    #[trigger] r@[k],
                    store.spec_rows(),
                    user_id,
                    before,
                ))
            &&& (forall|k1: int, k2: int|
                0 <= k1 < k2 < r@.len() ==> (#[trigger] r@[k1]).spec_reading().id != (
                #[trigger] r@[k2]).spec_reading().id)
            &&& (forall|j: int|
                (0 <= j < store.spec_rows().len() && history_match(
                    #[trigger] store.spec_rows()[j],
                    user_id,
                    before,
                ) && (forall|k: int|
                    0 <= k < r@.len() ==> (#[trigger] r@[k]).spec_reading().id
                        != store.spec_rows()[j].id)) ==> (forall|k: int|
                    0 <= k < r@.len() ==> store.spec_rows()[j].created_at <= (
                    #[trigger] r@[k]).spec_reading().created_at))
        }),
{
    let limit = history_limit(query.limit);
    let before: Option<i64> = match &query.before {
        Option::Some(s) => clock::parse_rfc3339_micros(s.as_str()),
        Option::None => Option::None,
    };
    store.get_history_for_user_paged(user_id, before, limit)
}

} // verus!
