//! The interpretation lifecycle: a reading is wrapped `Pending` the moment it
//! is created, and ends `Done` with the narrator's text or `Failed` with a
//! localized message; the wrapped reading's fields never change across
//! transitions, except that an unowned reading may gain an owner.

use crate::clock;
use crate::deck::Card;
use crate::ids;
use crate::locale::Locale;
use crate::model::InterpretationStatus;
use crate::reading::Reading;
use crate::text::decimal_text;
use crate::text::u16_text;
use crate::user::User;
use vstd::prelude::*;
use vstd::string::StringExecFns;

verus! {

#[derive(Clone, Debug)]
pub enum Interpretation {
    Pending(Reading),
    Done(Reading, String, i64),
    Failed(Reading, String),
}

impl Interpretation {
    pub open spec fn spec_reading(self) -> Reading {
        match self {
            Interpretation::Pending(reading) => reading,
            Interpretation::Done(reading, _, _) => reading,
            Interpretation::Failed(reading, _) => reading,
        }
    }

    pub open spec fn spec_status(self) -> InterpretationStatus {
        match self {
            Interpretation::Pending(_) => InterpretationStatus::Pending,
            Interpretation::Done(_, _, _) => InterpretationStatus::Done,
            Interpretation::Failed(_, _) => InterpretationStatus::Failed,
        }
    }

    /// The narrator's text, present exactly in the `Done` state.
    pub open spec fn spec_text(self) -> Option<Seq<char>> {
        match self {
            Interpretation::Done(_, text, _) => Some(text@),
            _ => None,
        }
    }

    /// The failure message, present exactly in the `Failed` state.
    pub open spec fn spec_error(self) -> Option<Seq<char>> {
        match self {
            Interpretation::Failed(_, error) => Some(error@),
            _ => None,
        }
    }

    /// When the narration completed, present exactly in the `Done` state.
    pub open spec fn spec_done_at(self) -> Option<i64> {
        match self {
            Interpretation::Done(_, _, done_at) => Some(done_at),
            _ => None,
        }
    }

    pub fn is_done(&self) -> (r: bool)
        ensures
            r == (self.spec_status() == InterpretationStatus::Done),
    {
        match self {
            Interpretation::Done(_, _, _) => true,
            _ => false,
        }
    }

    /// Reads the wrapped reading, whatever the state.
    pub fn reading(&self) -> (r: &Reading)
        ensures
            *r == self.spec_reading(),
    {
        match self {
            Interpretation::Pending(reading) => reading,
            Interpretation::Done(reading, _, _) => reading,
            Interpretation::Failed(reading, _) => reading,
        }
    }

    /// Consumes the wrapper, keeping only the reading.
    pub fn into_reading(self) -> (r: Reading)
        ensures
            r == self.spec_reading(),
    {
        match self {
            Interpretation::Pending(reading) => reading,
            Interpretation::Done(reading, _, _) => reading,
            Interpretation::Failed(reading, _) => reading,
        }
    }

    /// The one mutation the lifecycle allows on the wrapped reading: setting
    /// its owner. State, text, timestamps and every other reading field stay
    /// as they were.
    pub fn set_user_id(&mut self, user_id: u128)
        ensures
            final(self).spec_reading() == (Reading {
                user_id: Some(user_id),
                ..old(self).spec_reading()
            }),
            final(self).spec_status() == old(self).spec_status(),
            final(self).spec_text() == old(self).spec_text(),
            final(self).spec_error() == old(self).spec_error(),
            final(self).spec_done_at() == old(self).spec_done_at(),
    {
        match self {
            Interpretation::Pending(reading) => reading.user_id = Some(user_id),
            Interpretation::Done(reading, _, _) => reading.user_id = Some(user_id),
            Interpretation::Failed(reading, _) => reading.user_id = Some(user_id),
        }
    }
}

#[derive(Clone, Debug)]
pub struct CreateInterpretationRequest {
    pub question: String,
    pub cards: Vec<Card>,
    pub context: String,
}

#[derive(Clone, Debug)]
pub struct CreateInterpretationResponse {
    pub interpretation_id: u128,
}

/// Wraps client-supplied cards in a fresh reading: nothing was shuffled, so
/// the count is zero, and the requesting user owns the reading.
pub fn reading_from_request(request: CreateInterpretationRequest, user: &User) -> (reading: Reading)
    requires
        user.spec_id() != 0,
    ensures
        reading.wf(),
        reading.question == request.question,
        reading.cards == request.cards,
        reading.context@ == request.context@,
        reading.shuffled_times == 0,
        reading.user_id == Some(user.spec_id()),
        reading.user_name@ == user.spec_display_name(),
        reading.user_self_description@ == user.spec_self_description(),
        reading.backend is None,
{
    let user_name = match user.name() {
        Option::Some(n) => n,
        Option::None => String::new(),
    };
    let user_self_description = match user.self_description() {
        Option::Some(d) => d,
        Option::None => String::new(),
    };
    Reading {
        id: ids::fresh_id(),
        created_at: clock::now_micros(),
        question: request.question,
        shuffled_times: 0,
        cards: request.cards,
        user_id: Some(user.id()),
        user_name,
        user_self_description,
        context: request.context.clone(),
        backend: None,
    }
}

/// Why the external narrator failed, as plain values; the boundary converts
/// its HTTP client's error into this form before any of it is recorded.
#[derive(Clone, Debug)]
pub enum ExplainError {
    MissingApiKey,
    HttpClientBuild(String),
    Request(String),
    ApiError { status: u16, body: String },
    ParseResponse(String),
    EmptyResponse,
}

/// The message a failure is recorded with, in the requester's language.
pub open spec fn explain_error_message(e: ExplainError, portuguese: bool) -> Seq<char> {
    match e {
        ExplainError::MissingApiKey => if portuguese {
            "A chave da OpenAI não está configurada no servidor."@
        } else {
            "The OpenAI key is not configured on the server."@
        },
        ExplainError::HttpClientBuild(detail) => (if portuguese {
            "Erro criando cliente HTTP: "@
        } else {
            "Error building the HTTP client: "@
        }) + detail@,
        ExplainError::Request(detail) => (if portuguese {
            "Falha ao chamar a API da OpenAI: "@
        } else {
            "Failed to call the OpenAI API: "@
        }) + detail@,
        ExplainError::ApiError { status, body } => (if portuguese {
            "A API da OpenAI retornou erro ("@
        } else {
            "The OpenAI API returned an error ("@
        }) + decimal_text(status as int) + "): "@ + body@,
        ExplainError::ParseResponse(detail) => (if portuguese {
            "Falha ao ler resposta da OpenAI: "@
        } else {
            "Failed to read the OpenAI response: "@
        }) + detail@,
        ExplainError::EmptyResponse => if portuguese {
            "Não foi possível obter a interpretação das cartas no momento."@
        } else {
            "The cards' interpretation could not be obtained at the moment."@
        },
    }
}

/// Renders a narrator failure as a human-readable message in the given
/// locale; the locale is a parameter, never ambient state.
pub fn localize_explain_error(e: &ExplainError, locale: &Locale) -> (r: String)
    ensures
        r@ == explain_error_message(*e, locale.spec_is_portuguese()),
{
    let portuguese = locale.is_portuguese();
    match e {
        ExplainError::MissingApiKey => {
            if portuguese {
                String::from_str("A chave da OpenAI não está configurada no servidor.")
            } else {
                String::from_str("The OpenAI key is not configured on the server.")
            }
        },
        ExplainError::HttpClientBuild(detail) => {
            let mut m = if portuguese {
                String::from_str("Erro criando cliente HTTP: ")
            } else {
                String::from_str("Error building the HTTP client: ")
            };
            m.append(detail.as_str());
            m
        },
        ExplainError::Request(detail) => {
            let mut m = if portuguese {
                String::from_str("Falha ao chamar a API da OpenAI: ")
            } else {
                String::from_str("Failed to call the OpenAI API: ")
            };
            m.append(detail.as_str());
            m
        },
        ExplainError::ApiError { status, body } => {
            let mut m = if portuguese {
                String::from_str("A API da OpenAI retornou erro (")
            } else {
                String::from_str("The OpenAI API returned an error (")
            };
            let digits = u16_text(*status);
            m.append(digits.as_str());
            m.append("): ");
            m.append(body.as_str());
            m
        },
        ExplainError::ParseResponse(detail) => {
            let mut m = if portuguese {
                String::from_str("Falha ao ler resposta da OpenAI: ")
            } else {
                String::from_str("Failed to read the OpenAI response: ")
            };
            m.append(detail.as_str());
            m
        },
        ExplainError::EmptyResponse => {
            if portuguese {
                String::from_str("Não foi possível obter a interpretação das cartas no momento.")
            } else {
                String::from_str("The cards' interpretation could not be obtained at the moment.")
            }
        },
    }
}

/// The client-visible shape of a lookup by id (the result is the same for a
/// pending reading and for an absent one, but for the message and the
/// echoed reading).
#[derive(Clone, Debug)]
pub struct GetInterpretationResult {
    pub done: bool,
    pub error: String,
    pub interpretation: String,
    pub reading: Option<Reading>,
    pub interpretation_done_at: Option<i64>,
}

impl Default for GetInterpretationResult {
    /// The empty result: not done, nothing to show.
    fn default() -> (r: GetInterpretationResult)
        ensures
            !r.done,
            r.error@ == Seq::<char>::empty(),
            r.interpretation@ == Seq::<char>::empty(),
            r.reading is None,
            r.interpretation_done_at is None,
    {
        GetInterpretationResult {
            done: false,
            error: String::new(),
            interpretation: String::new(),
            reading: None,
            interpretation_done_at: None,
        }
    }
}

impl GetInterpretationResult {
    /// What a present record shows: pending readings are not done and carry
    /// empty text, done ones carry the narration and its time, failed ones
    /// carry the message; the reading is echoed in every case.
    pub fn of_interpretation(value: Interpretation) -> (r: GetInterpretationResult)
        ensures
            r.done == (value.spec_status() != InterpretationStatus::Pending),
            r.reading == Some(value.spec_reading()),
            r.interpretation@ == (match value.spec_text() {
                Some(t) => t,
                None => Seq::<char>::empty(),
            }),
            r.error@ == (match value.spec_error() {
                Some(e) => e,
                None => Seq::<char>::empty(),
            }),
            r.interpretation_done_at == value.spec_done_at(),
    {
        match value {
            Interpretation::Pending(reading) => GetInterpretationResult {
                done: false,
                error: String::new(),
                interpretation: String::new(),
                reading: Some(reading),
                interpretation_done_at: None,
            },
            Interpretation::Done(reading, text, done_at) => GetInterpretationResult {
                done: true,
                error: String::new(),
                interpretation: text,
                reading: Some(reading),
                interpretation_done_at: Some(done_at),
            },
            Interpretation::Failed(reading, error) => GetInterpretationResult {
                done: true,
                error,
                interpretation: String::new(),
                reading: Some(reading),
                interpretation_done_at: None,
            },
        }
    }

    /// What a lookup shows: the record's state when it exists, otherwise a
    /// localized "not found" with nothing else filled in.
    pub fn of_lookup(value: Option<Interpretation>, locale: &Locale) -> (r: GetInterpretationResult)
        ensures
            value matches Some(v) ==> {
                &&& r.done == (v.spec_status() != InterpretationStatus::Pending)
                &&& r.reading == Some(v.spec_reading())
                &&& r.interpretation@ == (match v.spec_text() {
                    Some(t) => t,
                    None => Seq::<char>::empty(),
                })
                &&& r.error@ == (match v.spec_error() {
                    Some(e) => e,
                    None => Seq::<char>::empty(),
                })
                &&& r.interpretation_done_at == v.spec_done_at()
            },
            value is None ==> {
                &&& !r.done
                &&& r.reading is None
                &&& r.interpretation@ == Seq::<char>::empty()
                &&& r.error@ == not_found_message(locale.spec_is_portuguese())
                &&& r.interpretation_done_at is None
            },
    {
        match value {
            Some(v) => Self::of_interpretation(v),
            None => GetInterpretationResult {
                done: false,
                error: if locale.is_portuguese() {
                    String::from_str("Leitura não encontrada.")
                } else {
                    String::from_str("Reading not found.")
                },
                interpretation: String::new(),
                reading: None,
                interpretation_done_at: None,
            },
        }
    }
}

/// The message an absent reading is reported with.
pub open spec fn not_found_message(portuguese: bool) -> Seq<char> {
    if portuguese {
        "Leitura não encontrada."@
    } else {
        "Reading not found."@
    }
}

} // verus!
