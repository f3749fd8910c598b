//! The count of currently open connections.

use vstd::prelude::*;

verus! {

/// Why a registry operation was refused.
#[derive(Debug, Clone, Copy, PartialEq, Eq, Structural)]
pub enum RegistryError {
    /// A release was asked for while no connection was counted: somebody
    /// released twice.
    BelowZero,
    /// The count cannot grow any further.
    Saturated,
}

/// One change to the registry, as seen by an observer of the whole server.
#[derive(Debug, Clone, Copy, PartialEq, Eq, Structural)]
pub enum RegistryEvent {
    /// A connection finished opening.
    Opened,
    /// A connection closed or failed.
    Released,
}

/// The count after one event, or `None` where the event must be refused.
pub open spec fn step(count: nat, event: RegistryEvent) -> Option<nat> {
    match event {
        RegistryEvent::Opened => Some(count + 1),
        RegistryEvent::Released => if count == 0 {
            None
        } else {
            Some((count - 1) as nat)
        },
    }
}

/// The count after a whole history of events, starting from `count`; `None`
/// as soon as one of them must be refused.
pub open spec fn replay(count: nat, events: Seq<RegistryEvent>) -> Option<nat>
    decreases events.len(),
{
    if events.len() == 0 {
        Some(count)
    } else {
        match step(count, events[0]) {
            Some(next) => replay(next, events.drop_first()),
            None => None,
        }
    }
}

/// Number of `Opened` events in a history.
pub open spec fn opens(events: Seq<RegistryEvent>) -> nat
    decreases events.len(),
{
    if events.len() == 0 {
        0
    } else {
        opens(events.drop_last()) + if events.last() == RegistryEvent::Opened {
            1nat
        } else {
            0nat
        }
    }
}

/// Number of `Released` events in a history.
pub open spec fn releases(events: Seq<RegistryEvent>) -> nat
    decreases events.len(),
{
    if events.len() == 0 {
        0
    } else {
        releases(events.drop_last()) + if events.last() == RegistryEvent::Released {
            1nat
        } else {
            0nat
        }
    }
}

/// No moment of the history has seen more releases than the starting count
/// plus the opens so far.
pub open spec fn balanced(count: nat, events: Seq<RegistryEvent>) -> bool {
    forall|k: int|
        0 <= k <= events.len() ==> releases(#[trigger] events.take(k)) <= count + opens(
            events.take(k),
        )
}

/// Shared count of open connections.
///
/// The registry has a single owner; whoever shares it between execution units
/// puts it behind one lock, so that every change is one of the operations
/// below and histories of changes are sequences.
#[derive(Debug)]
pub struct Registry {
    count: u64,
}

impl View for Registry {
    type V = nat;

    closed spec fn view(&self) -> nat {
        self.count as nat
    }
}

impl Registry {
    /// A registry that counts no connection.
    pub fn new() -> (out: Registry)
        ensures
            out@ == 0,
    {
        Registry { count: 0 }
    }

    /// A registry that already counts `count` connections, for a server that
    /// takes over connections opened elsewhere.
    pub fn starting_at(count: u64) -> (out: Registry)
        ensures
            out@ == count,
    {
        Registry { count }
    }

    /// Counts one more open connection.
    ///
    /// Refused with `Saturated`, and nothing changes, exactly when the count
    /// already is `u64::MAX`.
    pub fn increment(&mut self) -> (out: Result<(), RegistryError>)
        ensures
            old(self)@ < u64::MAX ==> out is Ok && Some(final(self)@) == step(
                old(self)@,
                RegistryEvent::Opened,
            ),
            old(self)@ >= u64::MAX ==> out == Err::<(), RegistryError>(RegistryError::Saturated)
                && final(self)@ == old(self)@,
    {
        if self.count == u64::MAX {
            Err(RegistryError::Saturated)
        } else {
            self.count = self.count + 1;
            Ok(())
        }
    }

    /// Counts one connection less.
    ///
    /// Refused with `BelowZero`, and nothing changes, exactly when the count
    /// is zero; the count is never clamped silently.
    pub fn decrement(&mut self) -> (out: Result<(), RegistryError>)
        ensures
            old(self)@ > 0 ==> out is Ok && Some(final(self)@) == step(
                old(self)@,
                RegistryEvent::Released,
            ),
            old(self)@ == 0 ==> out == Err::<(), RegistryError>(RegistryError::BelowZero)
                && final(self)@ == 0,
    {
        if self.count == 0 {
            Err(RegistryError::BelowZero)
        } else {
            self.count = self.count - 1;
            Ok(())
        }
    }

    /// The number of connections open right now.
    pub fn snapshot(&self) -> (out: u64)
        ensures
            out == self@,
    {
        self.count
    }
}

/// Splitting a history at its last event: the counts of the front part and
/// the last event add up.
proof fn lemma_replay_last(count: nat, events: Seq<RegistryEvent>)
    requires
        events.len() > 0,
    ensures
        replay(count, events) == match replay(count, events.drop_last()) {
            Some(mid) => step(mid, events.last()),
            None => None,
        },
    decreases events.len(),
{
    let rest = events.drop_first();
    let front = events.drop_last();
    if events.len() == 1 {
        assert(replay(count, front) == Some(count));
        match step(count, events[0]) {
            Some(next) => {
                assert(replay(next, rest) == Some(next));
            },
            None => {},
        }
    } else {
        assert(rest.drop_last() =~= front.drop_first());
        assert(front[0] == events[0]);
        match step(count, events[0]) {
            Some(next) => {
                lemma_replay_last(next, rest);
                assert(replay(count, front) == replay(next, front.drop_first()));
            },
            None => {
                assert(replay(count, front) is None);
            },
        }
    }
}

/// Counting law: whenever a history is accepted in full, the count has grown
/// by the number of opens and shrunk by the number of releases, each event
/// counted exactly once.
pub proof fn lemma_replay_counts(count: nat, events: Seq<RegistryEvent>)
    requires
        replay(count, events) is Some,
    ensures
        replay(count, events) == Some((count + opens(events) - releases(events)) as nat),
        releases(events) <= count + opens(events),
    decreases events.len(),
{
    if events.len() > 0 {
        lemma_replay_last(count, events);
        lemma_replay_counts(count, events.drop_last());
    }
}

/// Acceptance law: a history is accepted in full exactly when at no moment
/// more connections were released than had been opened.
pub proof fn lemma_replay_accepts(count: nat, events: Seq<RegistryEvent>)
    ensures
        replay(count, events) is Some <==> balanced(count, events),
    decreases events.len(),
{
    if events.len() == 0 {
        assert forall|k: int| 0 <= k <= events.len() implies releases(
            #[trigger] events.take(k),
        ) <= count + opens(events.take(k)) by {
            assert(events.take(k).len() == 0);
        }
    } else {
        let front = events.drop_last();
        lemma_replay_last(count, events);
        lemma_replay_accepts(count, front);
        assert(events.take(events.len() as int) =~= events);
        if replay(count, events) is Some {
            lemma_replay_counts(count, events);
            assert forall|k: int| 0 <= k <= events.len() implies releases(
                #[trigger] events.take(k),
            ) <= count + opens(events.take(k)) by {
                if k < events.len() {
                    assert(events.take(k) =~= front.take(k));
                }
            }
        }
        if balanced(count, events) {
            assert forall|k: int| 0 <= k <= front.len() implies releases(
                #[trigger] front.take(k),
            ) <= count + opens(front.take(k)) by {
                assert(events.take(k) =~= front.take(k));
            }
            assert(balanced(count, front));
            lemma_replay_counts(count, front);
            assert(releases(events.take(events.len() as int)) <= count + opens(
                events.take(events.len() as int),
            ));
        }
    }
}

/// After `M` opens and `K` releases in any order in which no release comes
/// before its open, an empty registry shows `M - K`.
pub proof fn lemma_open_close_balance(events: Seq<RegistryEvent>)
    requires
        balanced(0, events),
    ensures
        releases(events) <= opens(events),
        replay(0, events) == Some((opens(events) - releases(events)) as nat),
{
    lemma_replay_accepts(0, events);
    lemma_replay_counts(0, events);
}

} // verus!
