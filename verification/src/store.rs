//! The record store: an ordered, append-only collection of players, each
//! sitting at the position its cursor names. It is the authoritative data
//! source; the broadcast channel beside it is only a notification side-channel.

use vstd::prelude::*;
use crate::player::{Player, ServiceError};

verus! {

/// Well-formedness of the stored sequence: every record's cursor equals its
/// position, and names are unique across the whole collection.
pub open spec fn store_wf(s: Seq<Player>) -> bool {
    &&& forall|i: int| 0 <= i < s.len() ==> (#[trigger] s[i]).cursor == i
    &&& forall|i: int, j: int| 0 <= i < j < s.len() ==> s[i].name@ != s[j].name@
}

/// Some record of `s` already carries `name`.
pub open spec fn name_taken(s: Seq<Player>, name: Seq<char>) -> bool {
    exists|i: int| 0 <= i < s.len() && (#[trigger] s[i]).name@ == name
}

/// The insert operation as a pure model: reject a taken name unchanged,
/// otherwise append a record whose cursor is the current length.
pub open spec fn create_model(s: Seq<Player>, name: String) -> Seq<Player> {
    if name_taken(s, name@) {
        s
    } else {
        s.push(Player { cursor: s.len() as usize, name })
    }
}

/// A whole sequence of inserts, first name first.
pub open spec fn apply_creates(s: Seq<Player>, names: Seq<String>) -> Seq<Player>
    decreases names.len(),
{
    if names.len() == 0 {
        s
    } else {
        apply_creates(create_model(s, names[0]), names.skip(1))
    }
}

/// The records strictly after position `c`, in order; empty when `c` points
/// at or past the last record.
pub open spec fn players_after(s: Seq<Player>, c: int) -> Seq<Player> {
    if c + 1 <= s.len() {
        s.skip(c + 1)
    } else {
        Seq::empty()
    }
}

/// The in-memory record store. It owns its collection exclusively: the only
/// mutation is the conflict-checked append of `create_player`.
pub struct InMemoryDb {
    players: Vec<Player>,
}

impl View for InMemoryDb {
    type V = Seq<Player>;

    closed spec fn view(&self) -> Seq<Player> {
        self.players@
    }
}

impl Default for InMemoryDb {
    fn default() -> (r: Self)
        ensures
            r@ == Seq::<Player>::empty(),
            r.wf(),
    {
        InMemoryDb { players: Vec::new() }
    }
}

impl InMemoryDb {
    /// The store invariant; established empty and preserved by every insert.
    pub open spec fn wf(&self) -> bool {
        store_wf(self@)
    }

    /// Point lookup. A cursor at or past the end is an absent result, never
    /// an error.
    pub fn get_player(&self, player_id: usize) -> (r: Option<Player>)
        ensures
            match r {
                Some(p) => player_id < self@.len() && p == self@[player_id as int],
                None => player_id >= self@.len(),
            },
    {
        if player_id < self.players.len() {
            Some(self.players[player_id].clone())
        } else {
            None
        }
    }

    /// Full snapshot in insertion order. The copy is independent of later
    /// insertions.
    pub fn get_players(&self) -> (r: Vec<Player>)
        ensures
            r@ == self@,
    {
        let mut out: Vec<Player> = Vec::new();
        let mut i: usize = 0;
        while i < self.players.len()
            invariant
                i <= self.players@.len(),
                out@ =~= self.players@.take(i as int),
            decreases self.players@.len() - i,
        {
            out.push(self.players[i].clone());
            i = i + 1;
        }
        assert(out@ =~= self@);
        out
    }

    /// Get players created after that specific player_id: the suffix at
    /// positions `player_id + 1 ..`, in order.
    pub fn get_players_after(&self, player_id: usize) -> (r: Vec<Player>)
        ensures
            r@ == players_after(self@, player_id as int),
    {
        let mut out: Vec<Player> = Vec::new();
        if player_id >= self.players.len() {
            return out;
        }
        let mut i: usize = player_id + 1;
        while i < self.players.len()
            invariant
                player_id + 1 <= i <= self.players@.len(),
                out@ =~= self.players@.subrange(player_id + 1, i as int),
            decreases self.players@.len() - i,
        {
            out.push(self.players[i].clone());
            i = i + 1;
        }
        assert(out@ =~= self@.skip(player_id + 1));
        out
    }

    /// Whether some stored record already carries `username`.
    fn name_exists(&self, username: &String) -> (r: bool)
        ensures
            r == name_taken(self@, username@),
    {
        let mut i: usize = 0;
        while i < self.players.len()
            invariant
                i <= self.players@.len(),
                forall|j: int| 0 <= j < i ==> (#[trigger] self.players@[j]).name@ != username@,
            decreases self.players@.len() - i,
        {
            if self.players[i].name == *username {
                return true;
            }
            i = i + 1;
        }
        false
    }

    /// Conflict-checked insertion: if the name is free, append a new record
    /// whose cursor is the current length; if it is taken, reject with
    /// `DuplicateName` and change nothing. The check and the append happen
    /// under one `&mut` borrow, so no other insert can interleave.
    pub fn create_player(&mut self, username: String) -> (r: Result<Player, ServiceError>)
        requires
            old(self).wf(),
        ensures
            final(self).wf(),
            final(self)@ == create_model(old(self)@, username),
            match r {
                Ok(p) => {
                    &&& !name_taken(old(self)@, username@)
                    &&& p.cursor == old(self)@.len()
                    &&& p.name == username
                    &&& final(self)@ == old(self)@.push(p)
                },
                Err(e) => {
                    &&& e == ServiceError::DuplicateName
                    &&& name_taken(old(self)@, username@)
                    &&& final(self)@ == old(self)@
                },
            },
    {
        if self.name_exists(&username) {
            return Err(ServiceError::DuplicateName);
        }
        let new_player = Player { cursor: self.players.len(), name: username };
        self.players.push(new_player.clone());
        assert(self@ =~= old(self)@.push(new_player));
        assert(store_wf(self@)) by {
            assert(forall|i: int| 0 <= i < old(self)@.len() ==> (#[trigger] self@[i]) == old(self)@[i]);
        }
        Ok(new_player)
    }
}

/// Serialized creations with fresh, pairwise-distinct names all succeed:
/// none is rejected, every prior record is untouched, and the new records
/// take exactly the next cursors `len, len + 1, ...` in call order, each
/// carrying its caller's name. Starting from the empty store this makes the
/// returned cursors exactly `0, 1, 2, ...`, and the snapshot lists them in
/// that same order.
pub proof fn lemma_distinct_creates_all_succeed(s: Seq<Player>, names: Seq<String>)
    requires
        store_wf(s),
        s.len() + names.len() <= usize::MAX,
        forall|k: int| 0 <= k < names.len() ==> !name_taken(s, (#[trigger] names[k])@),
        forall|k: int, l: int| 0 <= k < l < names.len() ==> names[k]@ != names[l]@,
    ensures
        apply_creates(s, names).len() == s.len() + names.len(),
        store_wf(apply_creates(s, names)),
        forall|i: int| 0 <= i < s.len() ==> apply_creates(s, names)[i] == s[i],
        forall|k: int|
            0 <= k < names.len() ==> (#[trigger] apply_creates(s, names)[s.len() + k]).cursor == s.len()
                + k && apply_creates(s, names)[s.len() + k].name@ == names[k]@,
    decreases names.len(),
{
    if names.len() > 0 {
        let p = Player { cursor: s.len() as usize, name: names[0] };
        let s1 = create_model(s, names[0]);
        assert(!name_taken(s, names[0]@));
        assert(s1 =~= s.push(p));
        assert(forall|i: int| 0 <= i < s.len() ==> s1[i] == s[i]);
        assert(s1[s.len() as int] == p);
        assert(store_wf(s1));
        let rest = names.skip(1);
        assert(forall|k: int| 0 <= k < rest.len() ==> rest[k] == names[k + 1]);
        assert forall|k: int| 0 <= k < rest.len() implies !name_taken(s1, (#[trigger] rest[k])@) by {
            assert(rest[k]@ != names[0]@);
            assert(!name_taken(s, rest[k]@));
        }
        lemma_distinct_creates_all_succeed(s1, rest);
        let t = apply_creates(s, names);
        assert(t == apply_creates(s1, rest));
        assert forall|k: int|
            0 <= k < names.len() implies (#[trigger] t[s.len() + k]).cursor == s.len() + k
            && t[s.len() + k].name@ == names[k]@ by {
            if k == 0 {
                assert(t[s1.len() - 1] == s1[s1.len() - 1]);
            } else {
                assert(t[s1.len() + (k - 1)].cursor == s1.len() + (k - 1));
                assert(t[s1.len() + (k - 1)].name@ == rest[k - 1]@);
            }
        }
    }
}

} // verus!
