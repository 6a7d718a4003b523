//! The four operations the core exposes to its caller: full snapshot, point
//! lookup by id, conflict-checked creation, and the live subscription with
//! an optional resume cursor.

use vstd::prelude::*;
use crate::player::{Player, ServiceError};
use crate::store::{InMemoryDb, create_model, name_taken, players_after};
use crate::broker::InMemoryBroker;
use crate::cursor::{parse_cursor, parse_spec};
use crate::subscription::{LiveFilter, Subscription};

verus! {

pub struct QueryRoot;

impl QueryRoot {
    /// Full snapshot of all records, in insertion order.
    pub fn players(db: &InMemoryDb) -> (r: Vec<Player>)
        ensures
            r@ == db@,
    {
        db.get_players()
    }

    /// Point lookup by the record's externally visible id: the id string is
    /// parsed back to a cursor, and a miss — unparseable id or a cursor
    /// past the end — is an absent result, never an error.
    pub fn find_player_by_id_and_quiz_id(db: &InMemoryDb, id: &str) -> (r: Option<Player>)
        ensures
            r == match parse_spec(id@) {
                None => None::<Player>,
                Some(c) => if c < db@.len() {
                    Some(db@[c as int])
                } else {
                    None::<Player>
                },
            },
    {
        match parse_cursor(id) {
            None => None,
            Some(c) => db.get_player(c),
        }
    }
}

pub struct MutationRoot;

impl MutationRoot {
    /// The single write path: insert the record into the store (rejecting a
    /// duplicate name with no state change), then publish it to the live
    /// listeners. The store mutation and the publish sit under one `&mut`
    /// borrow of the store, which keeps store and broadcast coherent.
    pub fn create_player(db: &mut InMemoryDb, broker: &InMemoryBroker, user_name: String) -> (r:
        Result<Player, ServiceError>)
        requires
            old(db).wf(),
        ensures
            final(db).wf(),
            final(db)@ == create_model(old(db)@, user_name),
            match r {
                Ok(p) => {
                    &&& !name_taken(old(db)@, user_name@)
                    &&& p.cursor == old(db)@.len()
                    &&& p.name == user_name
                    &&& final(db)@ == old(db)@.push(p)
                },
                Err(e) => {
                    &&& e == ServiceError::DuplicateName
                    &&& name_taken(old(db)@, user_name@)
                    &&& final(db)@ == old(db)@
                },
            },
    {
        match db.create_player(user_name) {
            Ok(new_player) => {
                broker.new_player(new_player.clone());
                Ok(new_player)
            },
            Err(e) => Err(e),
        }
    }
}

pub struct SubscriptionRoot;

impl SubscriptionRoot {
    /// Open a subscription, optionally resuming from a cursor string.
    ///
    /// The cursor is validated first, so an invalid cursor fails with
    /// `InvalidCursor` before any live registration exists — nothing is
    /// left dangling. Then the live handle is opened, and only then is the
    /// backlog snapshot taken: in that order the seam can only overlap,
    /// never gap, and the subscription's watermark starts at the last
    /// cursor the backlog (or the resume cursor itself) covers, so the
    /// overlap is dropped instead of delivered twice.
    pub fn new_players(db: &InMemoryDb, broker: &InMemoryBroker, from_player_id: Option<&str>) -> (r:
        Result<Subscription, ServiceError>)
        requires
            db.wf(),
        ensures
            match r {
                Ok(sub) => {
                    &&& sub.wf()
                    &&& sub.emitted@ == Seq::<Player>::empty()
                    &&& sub.pos == 0
                    &&& match from_player_id {
                        None => sub.backlog@ == Seq::<Player>::empty()
                            && sub.filter.watermark is None,
                        Some(s) => {
                            &&& parse_spec(s@) is Some
                            &&& parse_spec(s@) matches Some(c) ==> {
                                &&& sub.backlog@ == players_after(db@, c as int)
                                &&& (sub.backlog@.len() == 0 ==> sub.filter.watermark == Some(c))
                                &&& (sub.backlog@.len() > 0 ==> sub.filter.watermark == Some(
                                    sub.backlog@.last().cursor,
                                ))
                            }
                        },
                    }
                },
                Err(e) => {
                    &&& e == ServiceError::InvalidCursor
                    &&& from_player_id matches Some(s) && parse_spec(s@) is None
                },
            },
    {
        let parsed: Option<usize> = match from_player_id {
            None => None,
            Some(s) => match parse_cursor(s) {
                Some(c) => Some(c),
                None => {
                    return Err(ServiceError::InvalidCursor);
                },
            },
        };
        let live = broker.subscribe_new_players();
        match parsed {
            None => Ok(
                Subscription {
                    backlog: Vec::new(),
                    pos: 0,
                    live,
                    filter: (LiveFilter { watermark: None }),
                    emitted: Ghost(Seq::empty()),
                },
            ),
            Some(c) => {
                let backlog = db.get_players_after(c);
                proof {
                    if c + 1 <= db@.len() {
                        assert(forall|j: int|
                            0 <= j < backlog@.len() ==> (#[trigger] backlog@[j]) == db@[c + 1
                                + j]);
                    }
                }
                let watermark: usize = if backlog.len() == 0 {
                    c
                } else {
                    backlog[backlog.len() - 1].cursor
                };
                Ok(
                    Subscription {
                        backlog,
                        pos: 0,
                        live,
                        filter: (LiveFilter { watermark: Some(watermark) }),
                        emitted: Ghost(Seq::empty()),
                    },
                )
            },
        }
    }
}

} // verus!
