//! Notification fan-out: every state transition is broadcast system-wide;
//! each connection keeps its own set of reading ids it subscribed to and only
//! forwards transitions for those. The decisions live here; the socket and
//! the broadcast transport stay at the boundary.

use crate::interpretation::Interpretation;
use crate::model::InterpretationStatus;
use vstd::prelude::*;

verus! {

/// What travels over a notification socket: inbound subscriptions and
/// outbound completion notices, each naming a reading id.
#[derive(Copy, Clone, Debug, PartialEq, Eq, Structural)]
pub enum InterpretationsWebsocketMessage {
    Subscribe { uuid: u128 },
    Done { uuid: u128 },
}

/// The reading ids one connection has subscribed to.
pub struct SubscriptionSet {
    ids: Vec<u128>,
}

impl SubscriptionSet {
    pub closed spec fn spec_ids(self) -> Seq<u128> {
        self.ids@
    }

    pub open spec fn spec_contains(self, id: u128) -> bool {
        self.spec_ids().contains(id)
    }

    pub fn new() -> (s: SubscriptionSet)
        ensures
            forall|x: u128| !s.spec_contains(x),
    {
        SubscriptionSet { ids: Vec::new() }
    }

    /// Adds a reading id to the watched set.
    pub fn watch(&mut self, id: u128)
        ensures
            forall|x: u128|
                final(self).spec_contains(x) <==> old(self).spec_contains(x) || x == id,
    {
        self.ids.push(id);
        proof {
            assert forall|x: u128|
                self.spec_contains(x) <==> old(self).spec_contains(x) || x
                    == id by {
                if old(self).spec_contains(x) {
                    let w = choose|w: int|
                        0 <= w < old(self).spec_ids().len() && old(self).spec_ids()[w] == x;
                    assert(self.spec_ids()[w] == x);
                }
                if x == id {
                    assert(self.spec_ids()[self.spec_ids().len() - 1] == x);
                }
                if self.spec_contains(x) {
                    let w = choose|w: int|
                        0 <= w < self.spec_ids().len() && self.spec_ids()[w] == x;
                    if w < self.spec_ids().len() - 1 {
                        assert(old(self).spec_ids()[w] == x);
                    }
                }
            }
        }
    }

    fn contains(&self, id: u128) -> (r: bool)
        ensures
            r == self.spec_contains(id),
    {
        let n: usize = self.ids.len();
        let mut i: usize = 0;
        while i < n
            invariant
                i <= n,
                n == self.ids@.len(),
                forall|j: int| 0 <= j < i ==> self.ids@[j] != id,
            decreases n - i,
        {
            if self.ids[i] == id {
                return true;
            }
            i = i + 1;
        }
        false
    }

    /// The outbound filter: a broadcast transition is forwarded to this
    /// connection exactly when the connection watches that reading's id.
    pub fn should_forward(&self, event: &Interpretation) -> (r: bool)
        ensures
            r == self.spec_contains(event.spec_reading().id),
    {
        self.contains(event.reading().id)
    }
}

/// What the inbound task does with one subscribe request.
#[derive(Copy, Clone, Debug, PartialEq, Eq, Structural)]
pub enum SubscribeAction {
    /// Add the id to the watched set: the reading exists, the requester owns
    /// it, and it is still pending.
    Watch,
    /// Re-broadcast the current state at once: the reading exists and is
    /// owned but already terminal, covering the race where completion
    /// happened between the initial fetch and the subscribe.
    Renotify,
    /// Drop the request: no such reading, or not the requester's.
    Ignore,
}

/// Decides a subscribe request from what the store holds for the named id.
pub fn subscribe_decision(lookup: &Option<Interpretation>, user_id: u128) -> (r: SubscribeAction)
    ensures
        match lookup {
            Option::None => r == SubscribeAction::Ignore,
            Option::Some(v) => {
                if v.spec_reading().user_id != Some(user_id) {
                    r == SubscribeAction::Ignore
                } else if v.spec_status() == InterpretationStatus::Pending {
                    r == SubscribeAction::Watch
                } else {
                    r == SubscribeAction::Renotify
                }
            },
        },
{
    match lookup {
        Option::None => SubscribeAction::Ignore,
        Option::Some(v) => {
            let owner = match v.reading().user_id {
                Option::Some(owner) => owner == user_id,
                Option::None => false,
            };
            if !owner {
                SubscribeAction::Ignore
            } else {
                match v {
                    Interpretation::Pending(_) => SubscribeAction::Watch,
                    _ => SubscribeAction::Renotify,
                }
            }
        },
    }
}

} // verus!
