//! The shared registries: the streams that are active, and the tool
//! approvals that are waited for.
//!
//! Both hold keys only. What belongs to a key (the means to cancel a stream,
//! the slot that an approval resolves) stays with the caller, under the same
//! key.

use crate::text::{str_eq, string_of, string_texts, to_chars};
use vstd::prelude::*;

verus! {

/// The streams that are active, each under the number it was given.
pub struct StreamRegistry {
    next_id: u64,
    active: Vec<u64>,
}

impl StreamRegistry {
    /// The numbers of the active streams, in the order in which they were
    /// registered.
    pub closed spec fn active(&self) -> Seq<u64> {
        self.active@
    }

    /// The number that the next stream gets.
    pub closed spec fn next_id(&self) -> u64 {
        self.next_id
    }

    /// A registry without streams; the first stream gets the number 1.
    pub fn new() -> (r: Self)
        ensures
            r.active().len() == 0,
            r.next_id() == 1,
    {
        StreamRegistry { next_id: 1, active: Vec::new() }
    }

    /// Registers a stream and returns its number. Numbers count up and wrap
    /// around at the end of `u64`.
    pub fn register(&mut self) -> (id: u64)
        ensures
            id == old(self).next_id(),
            final(self).active() == old(self).active().push(id),
            final(self).next_id() == (if id == u64::MAX {
                0
            } else {
                id + 1
            }),
    {
        let id = self.next_id;
        self.next_id = if id == u64::MAX {
            0
        } else {
            id + 1
        };
        self.active.push(id);
        id
    }

    /// Removes a stream that has ended. Says whether it was registered.
    pub fn remove(&mut self, id: u64) -> (r: bool)
        ensures
            r == old(self).active().contains(id),
            final(self).next_id() == old(self).next_id(),
            r ==> exists|at: int|
                0 <= at < old(self).active().len() && old(self).active()[at] == id && final(self).active() == old(self).active().remove(at),
            !r ==> final(self).active() == old(self).active(),
    {
        let mut i: usize = 0;
        while i < self.active.len()
            invariant
                i <= self.active.len(),
                self.active == old(self).active,
                self.next_id == old(self).next_id,
                forall|k: int| 0 <= k < i ==> self.active@[k] != id,
            decreases self.active.len() - i,
        {
            if self.active[i] == id {
                self.active.remove(i);
                assert(old(self).active()[i as int] == id);
                return true;
            }
            i += 1;
        }
        false
    }

    /// Takes all active streams out of the registry, for each of them to be
    /// cancelled.
    pub fn cancel_all(&mut self) -> (r: Vec<u64>)
        ensures
            r@ == old(self).active(),
            final(self).active().len() == 0,
            final(self).next_id() == old(self).next_id(),
    {
        let mut taken: Vec<u64> = Vec::new();
        std::mem::swap(&mut taken, &mut self.active);
        taken
    }
}

/// The approval requests that wait for a decision, each under its id.
pub struct ApprovalGate {
    pending: Vec<String>,
}

/// No text occurs twice.
pub open spec fn distinct(ids: Seq<Seq<char>>) -> bool {
    forall|i: int, j: int| 0 <= i < j < ids.len() ==> #[trigger] ids[i] != #[trigger] ids[j]
}

impl ApprovalGate {
    /// The ids of the pending requests, in the order in which they were
    /// registered.
    pub closed spec fn pending(&self) -> Seq<Seq<char>> {
        string_texts(self.pending@)
    }

    /// Well-formedness: no id is pending twice.
    pub open spec fn wf(&self) -> bool {
        distinct(self.pending())
    }

    /// A gate without pending requests.
    pub fn new() -> (r: Self)
        ensures
            r.pending().len() == 0,
            r.wf(),
    {
        let g = ApprovalGate { pending: Vec::new() };
        assert(g.pending() =~= Seq::<Seq<char>>::empty());
        g
    }

    fn find(&self, request_id: &str) -> (r: Option<usize>)
        ensures
            match r {
                Some(i) => i < self.pending().len() && self.pending()[i as int] == request_id@,
                None => !self.pending().contains(request_id@),
            },
    {
        let mut i: usize = 0;
        while i < self.pending.len()
            invariant
                i <= self.pending.len(),
                forall|k: int| 0 <= k < i ==> self.pending()[k] != request_id@,
            decreases self.pending.len() - i,
        {
            assert(self.pending()[i as int] == self.pending@[i as int]@);
            if str_eq(self.pending[i].as_str(), request_id) {
                return Some(i);
            }
            i += 1;
        }
        None
    }

    /// Whether a request with this id waits for a decision.
    pub fn is_pending(&self, request_id: &str) -> (r: bool)
        ensures
            r == self.pending().contains(request_id@),
    {
        self.find(request_id).is_some()
    }

    /// Registers a request that waits for a decision. Says whether the id
    /// is new; an id that is pending already stays pending once.
    pub fn register(&mut self, request_id: &str) -> (r: bool)
        requires
            old(self).wf(),
        ensures
            final(self).wf(),
            r == !old(self).pending().contains(request_id@),
            final(self).pending() == (if r {
                old(self).pending().push(request_id@)
            } else {
                old(self).pending()
            }),
    {
        match self.find(request_id) {
            Some(_) => false,
            None => {
                self.pending.push(string_of(&to_chars(request_id)));
                assert(self.pending() =~= old(self).pending().push(request_id@));
                true
            },
        }
    }

    /// Resolves the request with this id: it is pending no more, and the
    /// decision is handed back for delivery. Fails, and changes nothing,
    /// where no such request is pending, be it resolved already or never
    /// registered.
    pub fn respond(&mut self, request_id: &str, approved: bool) -> (r: Result<bool, String>)
        requires
            old(self).wf(),
        ensures
            final(self).wf(),
            r is Ok == old(self).pending().contains(request_id@),
            match r {
                Ok(decision) => decision == approved && !final(self).pending().contains(
                    request_id@,
                ) && exists|at: int|
                    0 <= at < old(self).pending().len() && old(self).pending()[at] == request_id@
                        && final(self).pending() == old(self).pending().remove(at),
                Err(e) => e@ == "Approval request not found"@ && final(self).pending() == old(self).pending(),
            },
    {
        match self.find(request_id) {
            Some(i) => {
                let ghost before = self.pending();
                self.pending.remove(i);
                proof {
                    let after = before.remove(i as int);
                    assert(self.pending() =~= after);
                    assert forall|a: int, b: int| 0 <= a < b < after.len() implies #[trigger] after[a]
                        != #[trigger] after[b] by {
                        let a0 = if a < i { a } else { a + 1 };
                        let b0 = if b < i { b } else { b + 1 };
                        assert(after[a] == before[a0]);
                        assert(after[b] == before[b0]);
                    }
                    assert forall|a: int| 0 <= a < after.len() implies after[a] != request_id@ by {
                        let a0 = if a < i { a } else { a + 1 };
                        assert(after[a] == before[a0]);
                        assert(before[a0] != before[i as int]);
                    }
                }
                Ok(approved)
            },
            None => Err(string_of(&to_chars("Approval request not found"))),
        }
    }
}

/// Responding twice to one request succeeds once: after a response that
/// succeeded, the id is pending no more, so a second response fails.
pub proof fn a_request_is_resolved_once(before: Seq<Seq<char>>, id: Seq<char>, at: int)
    requires
        distinct(before),
        0 <= at < before.len(),
        before[at] == id,
    ensures
        !before.remove(at).contains(id),
{
    let after = before.remove(at);
    assert forall|a: int| 0 <= a < after.len() implies after[a] != id by {
        let a0 = if a < at { a } else { a + 1 };
        assert(after[a] == before[a0]);
    }
}

} // verus!
