//! Core of a tarot-reading service: a deck engine that builds, shuffles and
//! draws from a 78-card deck, and the lifecycle of a reading's interpretation
//! (pending until an external narrator answers, then done or failed), with an
//! in-memory store implementing the persistence semantics and the decision
//! rules of the surrounding endpoints.

pub mod deck;
pub mod dispatch;
pub mod handler;
pub mod card_text;
pub mod clock;
pub mod domain;
pub mod error;
pub mod ids;
pub mod interpretation;
pub mod model;
pub mod notify;
pub mod reading;
pub mod state;
pub mod stats;
pub mod store;
pub mod locale;
pub mod text;
pub mod user;
