//! The waiting list of participants.

use vstd::prelude::*;

use crate::error::Error;

verus! {

/// Most participants a queue holds: two teams of five.
pub const QUEUE_CAPACITY: usize = 10;

/// The ordered waiting list of participants, by id.
pub struct Queue {
    pub members: Vec<u64>,
}

impl View for Queue {
    type V = Seq<u64>;

    open spec fn view(&self) -> Seq<u64> {
        self.members@
    }
}

/// The queue `q` after `id` asked to join: appended when there is room and
/// it is not there yet.
pub open spec fn joined(q: Seq<u64>, id: u64) -> Seq<u64> {
    if q.len() < QUEUE_CAPACITY && !q.contains(id) {
        q.push(id)
    } else {
        q
    }
}

/// The queue `q` after `id` asked to leave: taken out when it is there.
pub open spec fn left(q: Seq<u64>, id: u64) -> Seq<u64> {
    if q.contains(id) {
        q.remove(q.index_of(id))
    } else {
        q
    }
}

/// A request that changes the queue's membership.
#[derive(Debug, Clone, Copy, PartialEq, Eq, Structural)]
pub enum QueueOp {
    Join(u64),
    Leave(u64),
}

/// The queue `q` after the requests `ops`, in order.
pub open spec fn after_ops(q: Seq<u64>, ops: Seq<QueueOp>) -> Seq<u64>
    decreases ops.len(),
{
    if ops.len() == 0 {
        q
    } else {
        let before = after_ops(q, ops.drop_last());
        match ops.last() {
            QueueOp::Join(id) => joined(before, id),
            QueueOp::Leave(id) => left(before, id),
        }
    }
}

/// Taking one element out of a sequence without repeats leaves one without
/// repeats, one shorter, that no longer holds it and still holds the others.
pub proof fn lemma_remove<A>(s: Seq<A>, i: int)
    requires
        s.no_duplicates(),
        0 <= i < s.len(),
    ensures
        s.remove(i).no_duplicates(),
        s.remove(i).len() + 1 == s.len(),
        !s.remove(i).contains(s[i]),
        forall|x: A| x != s[i] ==> (s.remove(i).contains(x) <==> s.contains(x)),
{
    let t = s.remove(i);
    assert forall|x: A| x != s[i] implies (t.contains(x) <==> s.contains(x)) by {
        if s.contains(x) {
            let k = choose|k: int| 0 <= k < s.len() && s[k] == x;
            if k < i {
                assert(t[k] == x);
            } else {
                assert(t[k - 1] == x);
            }
        }
        if t.contains(x) {
            let k = choose|k: int| 0 <= k < t.len() && t[k] == x;
            if k < i {
                assert(s[k] == x);
            } else {
                assert(s[k + 1] == x);
            }
        }
    }
    assert(!t.contains(s[i])) by {
        if t.contains(s[i]) {
            let k = choose|k: int| 0 <= k < t.len() && t[k] == s[i];
            if k < i {
                assert(s[k] == s[i]);
            } else {
                assert(s[k + 1] == s[i]);
            }
        }
    }
    assert forall|a: int, b: int| 0 <= a < t.len() && 0 <= b < t.len() && a != b implies t[a]
        != t[b] by {
        let a2 = if a < i { a } else { a + 1 };
        let b2 = if b < i { b } else { b + 1 };
        assert(t[a] == s[a2] && t[b] == s[b2]);
    }
}

/// Whatever participants join and leave, in whatever order, a queue never
/// holds more than ten members nor anyone twice.
pub proof fn law_queue_stays_bounded(q: Seq<u64>, ops: Seq<QueueOp>)
    requires
        q.len() <= QUEUE_CAPACITY,
        q.no_duplicates(),
    ensures
        after_ops(q, ops).len() <= QUEUE_CAPACITY,
        after_ops(q, ops).no_duplicates(),
    decreases ops.len(),
{
    if ops.len() > 0 {
        law_queue_stays_bounded(q, ops.drop_last());
        let before = after_ops(q, ops.drop_last());
        match ops.last() {
            QueueOp::Join(id) => {
                if before.len() < QUEUE_CAPACITY && !before.contains(id) {
                    assert forall|a: int, b: int|
                        0 <= a < before.len() + 1 && 0 <= b < before.len() + 1 && a != b implies
                        before.push(id)[a] != before.push(id)[b] by {
                        if a < before.len() && b < before.len() {
                        } else if a < before.len() {
                            assert(before.contains(before[a]));
                        } else {
                            assert(before.contains(before[b]));
                        }
                    }
                }
            },
            QueueOp::Leave(id) => {
                if before.contains(id) {
                    before.index_of_first_ensures(id);
                    lemma_remove(before, before.index_of(id));
                }
            },
        }
    }
}

impl Queue {
    /// At most ten members, none twice.
    pub open spec fn wf(&self) -> bool {
        &&& self@.len() <= QUEUE_CAPACITY
        &&& self@.no_duplicates()
    }

    pub fn new() -> (r: Queue)
        ensures
            r@ == Seq::<u64>::empty(),
            r.wf(),
    {
        Queue { members: Vec::new() }
    }

    pub fn len(&self) -> (r: usize)
        ensures
            r == self@.len(),
    {
        self.members.len()
    }

    /// Where `id` stands in the queue, if it is there.
    pub fn position(&self, id: u64) -> (r: Option<usize>)
        ensures
            match r {
                Some(i) => i < self@.len() && self@[i as int] == id,
                None => !self@.contains(id),
            },
    {
        let mut i: usize = 0;
        while i < self.members.len()
            invariant
                i <= self@.len(),
                forall|k: int| 0 <= k < i ==> self@[k] != id,
            decreases self@.len() - i,
        {
            if self.members[i] == id {
                return Some(i);
            }
            i = i + 1;
        }
        None
    }

    pub fn contains(&self, id: u64) -> (r: bool)
        ensures
            r == self@.contains(id),
    {
        self.position(id).is_some()
    }

    /// Appends `id` and returns the new size. A full queue is refused first,
    /// then a participant who is already in it.
    pub fn join(&mut self, id: u64) -> (r: Result<usize, Error>)
        requires
            old(self).wf(),
        ensures
            final(self).wf(),
            old(self)@.len() >= QUEUE_CAPACITY ==> r == Err::<usize, Error>(Error::QueueFull),
            old(self)@.len() < QUEUE_CAPACITY && old(self)@.contains(id) ==> r == Err::<
                usize,
                Error,
            >(Error::AlreadyQueued),
            r is Ok <==> old(self)@.len() < QUEUE_CAPACITY && !old(self)@.contains(id),
            final(self)@ == joined(old(self)@, id),
            r is Ok ==> final(self)@ == old(self)@.push(id) && r == Ok::<usize, Error>(
                final(self)@.len() as usize,
            ),
            r is Err ==> *final(self) == *old(self),
    {
        if self.members.len() >= QUEUE_CAPACITY {
            return Err(Error::QueueFull);
        }
        if self.contains(id) {
            return Err(Error::AlreadyQueued);
        }
        self.members.push(id);
        Ok(self.members.len())
    }

    /// Takes `id` out of the queue, keeping the others in order, and returns
    /// the new size.
    pub fn leave(&mut self, id: u64) -> (r: Result<usize, Error>)
        requires
            old(self).wf(),
        ensures
            final(self).wf(),
            final(self)@ == left(old(self)@, id),
            r is Err <==> !old(self)@.contains(id),
            r is Err ==> r == Err::<usize, Error>(Error::NotQueued) && *final(self) == *old(self),
            r is Ok ==> final(self)@ == old(self)@.remove(old(self)@.index_of(id))
                && r == Ok::<usize, Error>(final(self)@.len() as usize),
            r is Ok ==> !final(self)@.contains(id) && final(self)@.len() + 1 == old(self)@.len(),
            forall|x: u64| x != id ==> (final(self)@.contains(x) <==> old(self)@.contains(x)),
    {
        match self.position(id) {
            None => Err(Error::NotQueued),
            Some(i) => {
                let ghost s = self@;
                proof {
                    s.index_of_first_ensures(id);
                    assert(s.index_of(id) == i) by {
                        if s.index_of(id) != i {
                            assert(s[s.index_of(id)] == s[i as int]);
                        }
                    }
                }
                self.members.remove(i);
                assert(self@ =~= s.remove(i as int));
                proof {
                    lemma_remove(s, i as int);
                }
                Ok(self.members.len())
            },
        }
    }

    /// Empties the queue.
    pub fn clear(&mut self)
        ensures
            final(self)@ == Seq::<u64>::empty(),
            final(self).wf(),
    {
        self.members.clear();
    }
}

} // verus!
