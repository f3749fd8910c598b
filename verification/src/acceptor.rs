//! Admission of new connections.

use crate::handler::{ConnState, Connection};
use crate::registry::{Registry, RegistryError};
use vstd::prelude::*;

verus! {

/// Why a connection attempt did not become a connection.
#[derive(Debug, Clone, Copy, PartialEq, Eq, Structural)]
pub enum AcceptError {
    /// The handshake with the client failed.
    Handshake,
    /// Every id has been given out.
    Exhausted,
    /// The registry refused to count the connection.
    Registry(RegistryError),
}

/// Gives each accepted connection an id of its own.
#[derive(Debug)]
pub struct Acceptor {
    next_id: u64,
}

impl Acceptor {
    /// The id that the next accepted connection gets.
    pub closed spec fn upcoming(&self) -> u64 {
        self.next_id
    }

    /// An acceptor that starts with id 0.
    pub fn new() -> (out: Acceptor)
        ensures
            out.upcoming() == 0,
    {
        Acceptor { next_id: 0 }
    }

    /// An acceptor that gives out `first` next, so that ids given out before
    /// are not used again.
    pub fn starting_at(first: u64) -> (out: Acceptor)
        ensures
            out.upcoming() == first,
    {
        Acceptor { next_id: first }
    }

    /// The id that the next accepted connection gets.
    pub fn next_id(&self) -> (out: u64)
        ensures
            out == self.upcoming(),
    {
        self.next_id
    }

    /// Turns the outcome of a handshake into an open connection.
    ///
    /// `peer` is the remote peer of an established handshake, or `None` where
    /// the handshake failed. A failed attempt touches neither the registry
    /// nor the ids. An established one gets the upcoming id, is counted in
    /// the registry and starts `Open`; ids are given out once each, in
    /// ascending order.
    pub fn accept(&mut self, peer: Option<String>, registry: &mut Registry) -> (out: Result<
        Connection,
        AcceptError,
    >)
        ensures
            out is Err <==> peer is None || old(self).upcoming() == u64::MAX || old(registry)@
                >= u64::MAX,
            peer is None ==> out is Err && out->Err_0 == AcceptError::Handshake,
            peer is Some && old(self).upcoming() == u64::MAX ==> out is Err && out->Err_0
                == AcceptError::Exhausted,
            peer is Some && old(self).upcoming() < u64::MAX && old(registry)@ >= u64::MAX
                ==> out is Err && out->Err_0 == AcceptError::Registry(RegistryError::Saturated),
            out is Err ==> final(self).upcoming() == old(self).upcoming() && final(registry)@
                == old(registry)@,
            out is Ok ==> out->Ok_0.ident() == old(self).upcoming() && out->Ok_0.peer_name()
                == peer->Some_0@ && out->Ok_0.phase() == ConnState::Open && final(self).upcoming() == old(self).upcoming() + 1 && final(registry)@ == old(registry)@ + 1,
    {
        let peer = match peer {
            Some(p) => p,
            None => {
                return Err(AcceptError::Handshake);
            },
        };
        if self.next_id == u64::MAX {
            return Err(AcceptError::Exhausted);
        }
        match Connection::on_open(self.next_id, peer, registry) {
            Ok(conn) => {
                self.next_id = self.next_id + 1;
                Ok(conn)
            },
            Err(e) => Err(AcceptError::Registry(e)),
        }
    }
}

} // verus!
