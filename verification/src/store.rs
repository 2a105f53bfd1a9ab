//! The shared session store: the single mutable container of the process,
//! holding every registered user, every room, and the count of currently
//! open connections. Callers serialize access (one exclusive lock around
//! each operation); the library states what each operation does to the
//! store's model.

use vstd::prelude::*;
use crate::domain::{Room, RoomModel, User, UserModel};

verus! {

/// The process-wide session state.
pub struct SessionStore {
    pub users: Vec<User>,
    pub rooms: Vec<Room>,
    pub traffic: usize,
}

/// Spec-level model of the session store.
#[verifier::ext_equal]
pub struct StoreModel {
    pub users: Seq<UserModel>,
    pub rooms: Seq<RoomModel>,
    pub traffic: int,
}

impl View for SessionStore {
    type V = StoreModel;

    open spec fn view(&self) -> StoreModel {
        StoreModel {
            users: self.users@.map_values(|u: User| u@),
            rooms: self.rooms@.map_values(|r: Room| r@),
            traffic: self.traffic as int,
        }
    }
}

/// The model of a store holding nothing, with no open connection.
pub open spec fn empty_store() -> StoreModel {
    StoreModel { users: Seq::empty(), rooms: Seq::empty(), traffic: 0 }
}

impl SessionStore {
    /// The initial store: no users, no rooms, no open connections.
    pub fn new() -> (r: SessionStore)
        ensures
            r@ == empty_store(),
    {
        let r = SessionStore { users: Vec::new(), rooms: Vec::new(), traffic: 0 };
        proof {
            assert(r@ =~~= empty_store());
        }
        r
    }

    /// A connection was opened: the traffic counter rises by one. Users
    /// and rooms are untouched.
    pub fn connection_opened(&mut self)
        requires
            old(self).traffic < usize::MAX,
        ensures
            final(self)@ == opened(old(self)@),
    {
        self.traffic = self.traffic + 1;
        proof {
            assert(final(self)@ =~~= opened(old(self)@));
        }
    }

    /// A connection was closed: the traffic counter falls by one. Users
    /// and rooms are untouched; nothing the connection created is cleaned
    /// up.
    pub fn connection_closed(&mut self)
        requires
            old(self).traffic > 0,
        ensures
            final(self)@ == closed(old(self)@),
    {
        self.traffic = self.traffic - 1;
        proof {
            assert(final(self)@ =~~= closed(old(self)@));
        }
    }
}

/// The model of opening one connection.
pub open spec fn opened(st: StoreModel) -> StoreModel {
    StoreModel { traffic: st.traffic + 1, ..st }
}

/// The model of closing one connection.
pub open spec fn closed(st: StoreModel) -> StoreModel {
    StoreModel { traffic: st.traffic - 1, ..st }
}

/// The store after a sequence of lifecycle events, in any interleaving:
/// `true` stands for a connection opening, `false` for one closing.
pub open spec fn after_events(st: StoreModel, events: Seq<bool>) -> StoreModel
    decreases events.len(),
{
    if events.len() == 0 {
        st
    } else {
        let rest = after_events(st, events.subrange(0, events.len() - 1));
        if events[events.len() - 1] {
            opened(rest)
        } else {
            closed(rest)
        }
    }
}

/// How many events of a kind a sequence holds.
pub open spec fn count_events(events: Seq<bool>, kind: bool) -> int
    decreases events.len(),
{
    if events.len() == 0 {
        0
    } else {
        count_events(events.subrange(0, events.len() - 1), kind) + if events[events.len() - 1]
            == kind {
            1int
        } else {
            0int
        }
    }
}

/// Law: whatever order connections open and close in, the traffic counter
/// ends at its start plus the number of openings minus the number of
/// closings; users and rooms are untouched. With `n` openings and `m`
/// closings from an empty store, that is exactly `n - m`.
pub proof fn lemma_traffic_balance(st: StoreModel, events: Seq<bool>)
    ensures
        after_events(st, events).traffic == st.traffic + count_events(events, true) - count_events(
            events,
            false,
        ),
        after_events(st, events).users == st.users,
        after_events(st, events).rooms == st.rooms,
    decreases events.len(),
{
    if events.len() > 0 {
        lemma_traffic_balance(st, events.subrange(0, events.len() - 1));
    }
}

} // verus!
