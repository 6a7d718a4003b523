//! The subscription: one gapless, duplicate-free feed per subscriber, made
//! by replaying the store's backlog first and then continuing with live
//! events. The live handle is opened before the backlog snapshot is taken,
//! so the seam can only overlap, never gap; the overlap is removed by a
//! watermark filter keyed on the cursor.

use vstd::prelude::*;
use crate::player::Player;
use crate::store::store_wf;
use crate::store::players_after;
use crate::broker::LiveEvent;
use crate::broker::receiver_try_recv;

verus! {

/// Cursors strictly increase along the sequence.
pub open spec fn strictly_increasing(s: Seq<Player>) -> bool {
    forall|i: int, j: int| 0 <= i < j < s.len() ==> s[i].cursor < s[j].cursor
}

/// Duplicate suppression at the backlog/live seam: a live event is admitted
/// only when its cursor lies strictly above the watermark, and the
/// watermark then rises to that cursor. With no watermark (no resume
/// cursor and nothing admitted yet) everything is admitted.
pub struct LiveFilter {
    pub watermark: Option<usize>,
}

impl LiveFilter {
    /// Whether a live event with this cursor would be admitted.
    pub open spec fn admits(self, cursor: usize) -> bool {
        match self.watermark {
            None => true,
            Some(w) => cursor > w,
        }
    }

    /// Decide one live event: admit it exactly when its cursor is beyond
    /// everything already covered, and remember it as the new high-water
    /// mark when admitted.
    pub fn accept(&mut self, player: &Player) -> (r: bool)
        ensures
            r == old(self).admits(player.cursor),
            r ==> final(self).watermark == Some(player.cursor),
            !r ==> *final(self) == *old(self),
    {
        match self.watermark {
            None => {
                self.watermark = Some(player.cursor);
                true
            },
            Some(w) => {
                if player.cursor > w {
                    self.watermark = Some(player.cursor);
                    true
                } else {
                    false
                }
            },
        }
    }
}

/// What one non-blocking pull of a subscription yields.
#[derive(Debug)]
pub enum Pulled {
    /// The next record of the feed.
    Item(Player),
    /// A live event arrived but was a duplicate of something the backlog
    /// already covered; it was dropped, the feed is unchanged.
    Skipped,
    /// The subscriber lagged and this many live events were lost. The feed
    /// continues after the gap; the loss is explicit, not silent.
    Lagged(u64),
    /// Nothing is available right now.
    Pending,
    /// No publisher remains; no further event will come.
    Closed,
}

/// One subscriber's feed: the backlog snapshot, then live events, behind
/// one watermark filter. `emitted` is the ghost history of everything the
/// feed has yielded, and well-formedness pins its cursors as strictly
/// increasing: no record is ever yielded twice, and order is monotone.
pub struct Subscription {
    pub backlog: Vec<Player>,
    pub pos: usize,
    pub live: tokio::sync::broadcast::Receiver<Player>,
    pub filter: LiveFilter,
    pub emitted: Ghost<Seq<Player>>,
}

impl Subscription {
    /// The subscription invariant: the backlog is cursor-ordered, what was
    /// emitted is cursor-ordered, the undelivered backlog lies strictly
    /// beyond everything emitted, and the watermark bounds both the emitted
    /// records and the undelivered backlog, so no admitted live event can
    /// repeat either.
    pub open spec fn wf(&self) -> bool {
        &&& self.pos <= self.backlog@.len()
        &&& strictly_increasing(self.backlog@)
        &&& strictly_increasing(self.emitted@)
        &&& forall|i: int|
            self.pos <= i < self.backlog@.len() ==> (self.emitted@.len() == 0
                || self.emitted@.last().cursor < (#[trigger] self.backlog@[i]).cursor)
        &&& match self.filter.watermark {
            None => self.emitted@.len() == 0 && self.backlog@.len() == 0,
            Some(w) => {
                &&& (self.emitted@.len() > 0 ==> self.emitted@.last().cursor <= w)
                &&& forall|i: int|
                    self.pos <= i < self.backlog@.len() ==> (#[trigger] self.backlog@[i]).cursor
                        <= w
            },
        }
    }

    /// Pull the next feed element without blocking: first the backlog, in
    /// order — while any of it remains a pull is obliged to yield its next
    /// record — and once it is drained, one poll of the live handle,
    /// filtered through the watermark. Every yielded record extends the
    /// emitted history by exactly that record, beyond everything yielded
    /// before.
    pub fn try_next(&mut self) -> (r: Pulled)
        requires
            old(self).wf(),
        ensures
            final(self).wf(),
            final(self).backlog@ == old(self).backlog@,
            old(self).pos < old(self).backlog@.len() ==> r is Item,
            match r {
                Pulled::Item(p) => {
                    &&& final(self).emitted@ == old(self).emitted@.push(p)
                    &&& (old(self).emitted@.len() > 0 ==> p.cursor
                        > old(self).emitted@.last().cursor)
                    &&& if old(self).pos < old(self).backlog@.len() {
                        &&& p == old(self).backlog@[old(self).pos as int]
                        &&& final(self).pos == old(self).pos + 1
                        &&& final(self).filter == old(self).filter
                    } else {
                        &&& old(self).filter.admits(p.cursor)
                        &&& final(self).pos == old(self).pos
                        &&& final(self).filter.watermark == Some(p.cursor)
                    }
                },
                Pulled::Skipped => {
                    &&& old(self).pos == old(self).backlog@.len()
                    &&& final(self).emitted@ == old(self).emitted@
                    &&& final(self).pos == old(self).pos
                    &&& final(self).filter == old(self).filter
                },
                Pulled::Lagged(_) => {
                    &&& final(self).emitted@ == old(self).emitted@
                    &&& final(self).pos == old(self).pos
                    &&& final(self).filter == old(self).filter
                },
                Pulled::Pending => {
                    &&& final(self).emitted@ == old(self).emitted@
                    &&& final(self).pos == old(self).pos
                    &&& final(self).filter == old(self).filter
                },
                Pulled::Closed => {
                    &&& final(self).emitted@ == old(self).emitted@
                    &&& final(self).pos == old(self).pos
                    &&& final(self).filter == old(self).filter
                },
            },
    {
        if self.pos < self.backlog.len() {
            let p = self.backlog[self.pos].clone();
            self.pos = self.pos + 1;
            self.emitted = Ghost(self.emitted@.push(p));
            return Pulled::Item(p);
        }
        match receiver_try_recv(&mut self.live) {
            LiveEvent::Player(p) => {
                if self.filter.accept(&p) {
                    self.emitted = Ghost(self.emitted@.push(p));
                    Pulled::Item(p)
                } else {
                    Pulled::Skipped
                }
            },
            LiveEvent::Lagged(n) => Pulled::Lagged(n),
            LiveEvent::Empty => Pulled::Pending,
            LiveEvent::Closed => Pulled::Closed,
        }
    }
}

/// No record is ever yielded twice by a well-formed subscription: the
/// emitted history holds pairwise distinct cursors, hence pairwise distinct
/// records.
pub proof fn lemma_emitted_duplicate_free(sub: Subscription)
    requires
        sub.wf(),
    ensures
        forall|i: int, j: int|
            0 <= i < j < sub.emitted@.len() ==> sub.emitted@[i].cursor != sub.emitted@[j].cursor,
{
}

/// Exactly-once at the backlog/live seam. Take a snapshot `db` of the
/// store, a resume cursor `c`, the backlog the snapshot yields for `c`,
/// and the watermark a fresh subscription starts with. Then for any record
/// cursor `k`: a record the snapshot already holds is covered by the
/// backlog exactly when it lies after the resume cursor, and is never also
/// admitted live; a record created after the snapshot is always admitted
/// live; and every record after the resume cursor reaches the subscriber
/// through exactly one of the two paths.
pub proof fn lemma_seam_exactly_once(db: Seq<Player>, c: usize, k: usize)
    requires
        store_wf(db),
        c < db.len(),
    ensures
        ({
            let backlog = players_after(db, c as int);
            let w: usize = if backlog.len() == 0 {
                c
            } else {
                backlog.last().cursor
            };
            let in_backlog = c < k < db.len();
            let admitted = (LiveFilter { watermark: Some(w) }).admits(k);
            &&& (exists|j: int| 0 <= j < backlog.len() && (#[trigger] backlog[j]).cursor == k)
                <==> in_backlog
            &&& !(in_backlog && admitted)
            &&& k >= db.len() ==> admitted
            &&& k > c ==> (in_backlog || admitted)
        }),
{
    let backlog = players_after(db, c as int);
    if backlog.len() > 0 {
        assert(c + 1 <= db.len());
        assert(forall|j: int|
            0 <= j < backlog.len() ==> (#[trigger] backlog[j]) == db[c + 1 + j]);
        assert(backlog.last() == db[db.len() - 1]);
        if c < k < db.len() {
            assert(backlog[k - c - 1].cursor == k);
        }
    } else {
        assert(c + 1 >= db.len());
    }
}

} // verus!
