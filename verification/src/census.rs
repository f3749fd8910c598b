//! The registry count and the states of all connections, seen together.
//!
//! Handlers run side by side, but each change to the registry happens under
//! exclusive access, so the whole server moves through a sequence of events.
//! This module follows such a sequence in a model and shows that the count
//! always equals the number of connections that have opened and not yet
//! ended.

use crate::handler::{asked, ended, live, ConnState, Ending};
use vstd::prelude::*;

verus! {

/// One event in the life of the server. Connections are named by the order in
/// which they opened, starting at 0.
pub enum FleetEvent {
    /// A connection opened and was counted.
    Opened,
    /// The server asked connection `who` to leave.
    AskedToLeave { who: int },
    /// A close, fault or shutdown reached connection `who`.
    Ended { who: int, how: Ending },
}

/// The state of every connection opened so far, and the registry count.
pub struct Census {
    pub states: Seq<ConnState>,
    pub count: nat,
}

/// The census of a server that has seen no connection.
pub open spec fn empty_census() -> Census {
    Census { states: Seq::empty(), count: 0 }
}

/// Number of live connections among `states`.
pub open spec fn live_count(states: Seq<ConnState>) -> nat
    decreases states.len(),
{
    if states.len() == 0 {
        0
    } else {
        live_count(states.drop_last()) + if live(states.last()) {
            1nat
        } else {
            0nat
        }
    }
}

/// The census after one event, following what the handlers do: an open
/// counts one more, the first ending of a live connection counts one less,
/// everything else leaves the count alone. Events that name a connection
/// that never opened change nothing.
pub open spec fn census_step(c: Census, e: FleetEvent) -> Census {
    match e {
        FleetEvent::Opened => Census { states: c.states.push(ConnState::Open), count: c.count + 1 },
        FleetEvent::AskedToLeave { who } => if 0 <= who < c.states.len() {
            Census { states: c.states.update(who, asked(c.states[who])), count: c.count }
        } else {
            c
        },
        FleetEvent::Ended { who, how } => if 0 <= who < c.states.len() {
            Census {
                states: c.states.update(who, ended(c.states[who], how)),
                count: if live(c.states[who]) {
                    (c.count - 1) as nat
                } else {
                    c.count
                },
            }
        } else {
            c
        },
    }
}

/// The census after a whole history of events.
pub open spec fn census_run(c: Census, events: Seq<FleetEvent>) -> Census
    decreases events.len(),
{
    if events.len() == 0 {
        c
    } else {
        census_step(census_run(c, events.drop_last()), events.last())
    }
}

/// Replacing one state changes the number of live connections by the
/// difference between the new state and the old one.
proof fn lemma_live_count_update(states: Seq<ConnState>, who: int, next: ConnState)
    requires
        0 <= who < states.len(),
    ensures
        live_count(states.update(who, next)) + (if live(states[who]) {
            1nat
        } else {
            0nat
        }) == live_count(states) + (if live(next) {
            1nat
        } else {
            0nat
        }),
    decreases states.len(),
{
    let changed = states.update(who, next);
    if who == states.len() - 1 {
        assert(changed.drop_last() =~= states.drop_last());
    } else {
        assert(changed.drop_last() =~= states.drop_last().update(who, next));
        lemma_live_count_update(states.drop_last(), who, next);
    }
}

/// Census law: one event keeps the count equal to the number of live
/// connections.
pub proof fn lemma_census_step(c: Census, e: FleetEvent)
    requires
        c.count == live_count(c.states),
    ensures
        census_step(c, e).count == live_count(census_step(c, e).states),
{
    match e {
        FleetEvent::Opened => {
            assert(c.states.push(ConnState::Open).drop_last() =~= c.states);
        },
        FleetEvent::AskedToLeave { who } => {
            if 0 <= who < c.states.len() {
                lemma_live_count_update(c.states, who, asked(c.states[who]));
            }
        },
        FleetEvent::Ended { who, how } => {
            if 0 <= who < c.states.len() {
                lemma_live_count_update(c.states, who, ended(c.states[who], how));
            }
        },
    }
}

/// Census law: after any history of opens, requests to leave, closes, faults
/// and shutdowns, in any interleaving, the count equals the number of
/// connections that are live. No connection is counted twice and none is
/// released twice.
pub proof fn lemma_census(events: Seq<FleetEvent>)
    ensures
        census_run(empty_census(), events).count == live_count(
            census_run(empty_census(), events).states,
        ),
    decreases events.len(),
{
    if events.len() > 0 {
        lemma_census(events.drop_last());
        lemma_census_step(census_run(empty_census(), events.drop_last()), events.last());
    }
}

} // verus!
