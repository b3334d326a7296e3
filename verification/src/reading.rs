//! A reading: one user's draw of cards in answer to a question, with the
//! identity and context fields the narrator later sees.

use crate::clock;
use crate::deck::arcana_seq;
use crate::deck::Card;
use crate::deck::Deck;
use crate::deck::MAX_DRAWS;
use crate::deck::MAX_SHUFFLES;
use crate::ids;
use crate::user::User;
use vstd::prelude::*;

verus! {

/// Which external narrator a reading asks for.
#[derive(Copy, Clone, Debug, PartialEq, Eq, Structural)]
pub enum InterpretationBackend {
    ChatGPT,
    Gemini,
}

#[derive(Clone, Debug)]
pub struct CreateReadingRequest {
    pub question: String,
    pub cards: u8,
    pub context: String,
    pub backend: InterpretationBackend,
}

#[derive(Clone, Debug)]
pub struct Reading {
    pub id: u128,
    pub created_at: i64,
    pub question: String,
    pub shuffled_times: usize,
    pub cards: Vec<Card>,
    pub user_id: Option<u128>,
    pub user_name: String,
    pub user_self_description: String,
    pub context: String,
    pub backend: Option<InterpretationBackend>,
}

impl Reading {
    /// A reading as the store accepts it: a non-zero id, a shuffle count
    /// below the bound, and no owner id of zero — zero stands for "no owner"
    /// in the stored form.
    pub open spec fn wf(self) -> bool {
        &&& self.id != 0
        &&& self.shuffled_times < MAX_SHUFFLES
        &&& self.user_id != Some(0u128)
    }
}

#[derive(Clone, Debug)]
pub struct CreateReadingResponse {
    pub shuffled_times: usize,
    pub cards: Vec<Card>,
    pub interpretation_id: String,
}

impl CreateReadingResponse {
    /// The response echoing a fresh reading: its shuffle count, its cards,
    /// and its id in text form.
    pub fn of_reading(reading: &Reading) -> (r: CreateReadingResponse)
        ensures
            r.shuffled_times == reading.shuffled_times,
            r.cards@ == reading.cards@,
            r.interpretation_id@ == ids::uuid_text_of(reading.id),
    {
        CreateReadingResponse {
            shuffled_times: reading.shuffled_times,
            cards: reading.cards.clone(),
            interpretation_id: ids::id_text(reading.id),
        }
    }
}

/// Builds a fresh deck, shuffles it with the question, draws the requested
/// cards, and wraps them with a fresh id, the current time and the
/// requesting user's identity.
pub fn perform_reading(request: &CreateReadingRequest, user: &User) -> (reading: Reading)
    requires
        request.cards as int <= 78 - 2 * MAX_DRAWS,
        user.spec_id() != 0,
    ensures
        reading.wf(),
        reading.question@ == request.question@,
        reading.context@ == request.context@,
        reading.backend == Some(request.backend),
        reading.cards@.len() == request.cards as int,
        arcana_seq(reading.cards@).no_duplicates(),
        reading.user_id == Some(user.spec_id()),
        reading.user_name@ == user.spec_display_name(),
        reading.user_self_description@ == user.spec_self_description(),
{
    let mut deck = Deck::build();
    let shuffles: usize = deck.shuffle(request.question.as_str());
    let cards = deck.draw(request.cards as usize);
    let user_name = match user.name() {
        Option::Some(n) => n,
        Option::None => String::new(),
    };
    let user_self_description = match user.self_description() {
        Option::Some(d) => d,
        Option::None => String::new(),
    };
    Reading {
        id: ids::fresh_id(),
        created_at: clock::now_micros(),
        question: request.question.clone(),
        shuffled_times: shuffles,
        cards,
        user_id: Some(user.id()),
        user_name,
        user_self_description,
        context: request.context.clone(),
        backend: Some(request.backend),
    }
}

} // verus!
