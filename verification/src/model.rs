//! The stored form of a reading: the flat record the persistence
//! collaborator keeps, the status column's text, and the conversions to and
//! from the lifecycle wrapper. An unowned reading is stored with owner id
//! zero — the id no real user carries.

use crate::deck::Card;
use crate::deck::MAX_SHUFFLES;
use crate::interpretation::Interpretation;
use crate::reading;
use crate::reading::InterpretationBackend;
use crate::text::str_eq;
use vstd::prelude::*;

verus! {

#[derive(Copy, Clone, Debug, PartialEq, Eq, Structural)]
pub enum InterpretationStatus {
    Pending,
    Done,
    Failed,
}

/// The status a stored text names, if any; only the exact lower-case words
/// are stored.
pub open spec fn spec_status_from_text(s: Seq<char>) -> Option<InterpretationStatus> {
    if s == "pending"@ {
        Some(InterpretationStatus::Pending)
    } else if s == "done"@ {
        Some(InterpretationStatus::Done)
    } else if s == "failed"@ {
        Some(InterpretationStatus::Failed)
    } else {
        None
    }
}

impl InterpretationStatus {
    pub open spec fn spec_text(self) -> Seq<char> {
        match self {
            InterpretationStatus::Pending => "pending"@,
            InterpretationStatus::Done => "done"@,
            InterpretationStatus::Failed => "failed"@,
        }
    }

    /// The text a status is stored as.
    pub fn as_text(&self) -> (r: &'static str)
        ensures
            r@ == self.spec_text(),
    {
        match self {
            InterpretationStatus::Pending => "pending",
            InterpretationStatus::Done => "done",
            InterpretationStatus::Failed => "failed",
        }
    }

    /// Reads a stored status text; the boundary lower-cases what the store
    /// hands back before calling.
    pub fn from_text(s: &str) -> (r: Option<InterpretationStatus>)
        ensures
            r == spec_status_from_text(s@),
    {
        if str_eq(s, "pending") {
            Some(InterpretationStatus::Pending)
        } else if str_eq(s, "done") {
            Some(InterpretationStatus::Done)
        } else if str_eq(s, "failed") {
            Some(InterpretationStatus::Failed)
        } else {
            None
        }
    }
}

#[derive(Clone, Debug)]
pub struct Reading {
    pub id: u128,
    pub created_at: i64,
    pub question: String,
    pub context: String,
    pub cards: Vec<Card>,
    pub shuffled_times: i32,
    pub user_id: u128,
    pub user_name: String,
    pub user_self_description: String,
    pub interpretation_status: InterpretationStatus,
    pub interpretation_text: String,
    pub interpretation_error: String,
    pub deleted_at: Option<i64>,
    pub interpretation_done_at: Option<i64>,
    pub backend: Option<InterpretationBackend>,
}

impl Reading {
    /// A record as the store keeps it: a real id, a shuffle count in range,
    /// and a completion time exactly on done records.
    pub open spec fn wf(self) -> bool {
        &&& self.id != 0
        &&& 0 <= self.shuffled_times as int
        &&& (self.shuffled_times as int) < (MAX_SHUFFLES as int)
        &&& (self.interpretation_status == InterpretationStatus::Done
            ==> self.interpretation_done_at is Some)
    }

    /// Flattens a lifecycle wrapper into the stored record.
    pub fn of_interpretation(value: Interpretation) -> (row: Reading)
        requires
            value.spec_reading().wf(),
        ensures
            row.wf(),
            row.id == value.spec_reading().id,
            row.created_at == value.spec_reading().created_at,
            row.question == value.spec_reading().question,
            row.context == value.spec_reading().context,
            row.cards == value.spec_reading().cards,
            row.shuffled_times as int == value.spec_reading().shuffled_times as int,
            row.user_id == (match value.spec_reading().user_id {
                Some(u) => u,
                None => 0u128,
            }),
            row.user_name == value.spec_reading().user_name,
            row.user_self_description == value.spec_reading().user_self_description,
            row.backend == value.spec_reading().backend,
            row.interpretation_status == value.spec_status(),
            row.interpretation_text@ == (match value.spec_text() {
                Some(t) => t,
                None => Seq::<char>::empty(),
            }),
            row.interpretation_error@ == (match value.spec_error() {
                Some(e) => e,
                None => Seq::<char>::empty(),
            }),
            row.interpretation_done_at == value.spec_done_at(),
            row.deleted_at is None,
    {
        let (status, reading, text, error, done_at): (
            InterpretationStatus,
            reading::Reading,
            String,
            String,
            Option<i64>,
        ) = match value {
            Interpretation::Pending(r) => (
                InterpretationStatus::Pending,
                r,
                String::new(),
                String::new(),
                None,
            ),
            Interpretation::Done(r, t, ts) => (
                InterpretationStatus::Done,
                r,
                t,
                String::new(),
                Some(ts),
            ),
            Interpretation::Failed(r, e) => (
                InterpretationStatus::Failed,
                r,
                String::new(),
                e,
                None,
            ),
        };
        Reading {
            id: reading.id,
            created_at: reading.created_at,
            question: reading.question,
            context: reading.context,
            cards: reading.cards,
            shuffled_times: reading.shuffled_times as i32,
            user_id: match reading.user_id {
                Some(u) => u,
                None => 0,
            },
            user_name: reading.user_name,
            user_self_description: reading.user_self_description,
            interpretation_status: status,
            interpretation_text: text,
            interpretation_error: error,
            deleted_at: None,
            interpretation_done_at: done_at,
            backend: reading.backend,
        }
    }

    /// Restores the lifecycle wrapper from a stored record.
    pub fn to_interpretation(self) -> (r: Interpretation)
        requires
            self.wf(),
        ensures
            r.spec_reading().wf(),
            r.spec_status() == self.interpretation_status,
            r.spec_reading().id == self.id,
            r.spec_reading().created_at == self.created_at,
            r.spec_reading().question == self.question,
            r.spec_reading().context == self.context,
            r.spec_reading().cards == self.cards,
            r.spec_reading().shuffled_times as int == self.shuffled_times as int,
            r.spec_reading().user_id == (if self.user_id == 0 {
                Option::<u128>::None
            } else {
                Some(self.user_id)
            }),
            r.spec_reading().user_name == self.user_name,
            r.spec_reading().user_self_description == self.user_self_description,
            r.spec_reading().backend == self.backend,
            self.interpretation_status == InterpretationStatus::Done ==> r.spec_text() == Some(
                self.interpretation_text@,
            ) && r.spec_done_at() == self.interpretation_done_at,
            self.interpretation_status == InterpretationStatus::Failed ==> r.spec_error() == Some(
                self.interpretation_error@,
            ),
    {
        let user_id: Option<u128> = if self.user_id == 0 {
            None
        } else {
            Some(self.user_id)
        };
        let reading = reading::Reading {
            id: self.id,
            created_at: self.created_at,
            question: self.question,
            shuffled_times: self.shuffled_times as usize,
            cards: self.cards,
            user_id,
            user_name: self.user_name,
            user_self_description: self.user_self_description,
            context: self.context,
            backend: self.backend,
        };
        match self.interpretation_status {
            InterpretationStatus::Pending => Interpretation::Pending(reading),
            InterpretationStatus::Done => Interpretation::Done(
                reading,
                self.interpretation_text,
                self.interpretation_done_at.unwrap(),
            ),
            InterpretationStatus::Failed => Interpretation::Failed(
                reading,
                self.interpretation_error,
            ),
        }
    }
}

} // verus!
