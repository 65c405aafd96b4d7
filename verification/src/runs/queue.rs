//! Sessions that wait for an agent run.

use std::collections::VecDeque;

use vstd::prelude::*;

use crate::protocol::ids::SessionId;
use crate::text;

verus! {

broadcast use vstd::string::group_string_axioms;

/// The texts of some sessions' identifiers.
pub open spec fn ids_view(ids: Seq<SessionId>) -> Seq<Seq<char>> {
    ids.map_values(|id: SessionId| id@)
}

/// First come, first served queue of sessions that wait for a run. A session
/// waits at most once; taking it is the point from which it is run, so one
/// consumer means one run at a time.
pub struct RunQueue {
    order: VecDeque<SessionId>,
}

impl RunQueue {
    /// The sessions, in the order in which they came.
    pub closed spec fn view(&self) -> Seq<Seq<char>> {
        ids_view(self.order@)
    }

    /// Whether no session waits twice.
    pub open spec fn well_formed(&self) -> bool {
        self@.no_duplicates()
    }

    /// A queue with nothing in it.
    pub fn new() -> (r: Self)
        ensures
            r@ == Seq::<Seq<char>>::empty(),
            r.well_formed(),
    {
        let r = RunQueue { order: VecDeque::new() };
        assert(r@ =~= Seq::empty());
        r
    }

    /// Adds a session at the end, unless it waits already. Returns whether it
    /// was added.
    pub fn enqueue(&mut self, session: SessionId) -> (r: bool)
        requires
            old(self).well_formed(),
        ensures
            final(self).well_formed(),
            r == !old(self)@.contains(session@),
            final(self)@ == (if r {
                old(self)@.push(session@)
            } else {
                old(self)@
            }),
    {
        let ghost was = ids_view(self.order@);
        let mut i: usize = 0;
        while i < self.order.len()
            invariant
                i <= self.order@.len(),
                was == ids_view(self.order@),
                self@ == was,
                was.no_duplicates(),
                forall|j: int| 0 <= j < i ==> #[trigger] was[j] != session@,
            decreases self.order@.len() - i,
        {
            assert(was[i as int] == self.order@[i as int]@);
            if text::same(self.order[i].as_str(), session.as_str()) {
                assert(was.contains(session@));
                return false;
            }
            i += 1;
        }
        assert(!was.contains(session@));
        self.order.push_back(session);
        proof {
            assert(ids_view(self.order@) =~= was.push(session@));
        }
        true
    }

    /// Takes the session that waits longest.
    pub fn pop(&mut self) -> (r: Option<SessionId>)
        requires
            old(self).well_formed(),
        ensures
            final(self).well_formed(),
            match r {
                Some(session) => old(self)@.len() > 0 && session@ == old(self)@[0] && final(self)@
                    == old(self)@.drop_first(),
                None => old(self)@.len() == 0 && final(self)@ == old(self)@,
            },
    {
        let ghost was = ids_view(self.order@);
        let r = self.order.pop_front();
        proof {
            if was.len() > 0 {
                assert(ids_view(self.order@) =~= was.drop_first());
                assert(was[0] == r->0@);
                assert(was.drop_first().no_duplicates());
            } else {
                assert(ids_view(self.order@) =~= was);
            }
        }
        r
    }

    /// The sessions, in the order in which they came.
    pub fn snapshot(&self) -> (r: Vec<SessionId>)
        ensures
            ids_view(r@) == self@,
    {
        let mut out: Vec<SessionId> = Vec::new();
        let mut i: usize = 0;
        while i < self.order.len()
            invariant
                i <= self.order@.len(),
                out@ == self.order@.take(i as int),
            decreases self.order@.len() - i,
        {
            out.push(self.order[i].clone());
            i += 1;
        }
        assert(self.order@.take(i as int) =~= self.order@);
        out
    }
}

/// What a queue holds after a session came.
pub open spec fn arrived(queue: Seq<Seq<char>>, session: Seq<char>) -> Seq<Seq<char>> {
    if queue.contains(session) {
        queue
    } else {
        queue.push(session)
    }
}

/// A session that came waits, and coming again changes nothing until it is
/// taken.
pub proof fn arriving_twice_is_arriving_once(queue: Seq<Seq<char>>, session: Seq<char>)
    ensures
        arrived(queue, session).contains(session),
        arrived(arrived(queue, session), session) == arrived(queue, session),
{
    if !queue.contains(session) {
        assert(queue.push(session)[queue.len() as int] == session);
    }
}

/// Sessions leave in the order in which they came: an arrival never overtakes
/// those that wait.
pub proof fn arrivals_never_overtake(queue: Seq<Seq<char>>, session: Seq<char>)
    ensures
        arrived(queue, session).take(queue.len() as int) == queue,
{
    assert(arrived(queue, session).take(queue.len() as int) =~= queue);
}

} // verus!
