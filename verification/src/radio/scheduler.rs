//! The per-session priority scheduler: first-in first-out within a session, by priority
//! across sessions.

use vstd::prelude::*;

use crate::model::StateMutation;

verus! {

/// Priority class for scheduling across endpoints, the most urgent first.
#[derive(Debug, Clone, Copy, PartialEq, Eq, PartialOrd, Ord, Structural)]
pub enum Priority {
    /// PTT (keying): always preempts everything else at selection time.
    Ptt,
    /// Interactive client writes (frequency, mode, split).
    Write,
    /// Client reads and passthrough.
    Read,
    /// Background baseline poll.
    Poll,
}

impl Priority {
    /// The rank of a priority: the lower one wins.
    pub open spec fn level(self) -> nat {
        match self {
            Priority::Ptt => 0,
            Priority::Write => 1,
            Priority::Read => 2,
            Priority::Poll => 3,
        }
    }

    /// The rank of this priority: the lower one wins.
    #[must_use]
    pub fn rank(self) -> (r: u8)
        ensures
            r == self.level(),
    {
        match self {
            Priority::Ptt => 0,
            Priority::Write => 1,
            Priority::Read => 2,
            Priority::Poll => 3,
        }
    }
}

/// The kind of backend operation a client session requests.
#[derive(Debug, Clone, PartialEq, Eq)]
pub enum OpKind {
    /// Run one baseline poll cycle.
    Poll,
    /// Apply a modeled mutation.
    Apply(StateMutation),
    /// Forward a raw native command (passthrough), returning the raw reply.
    Passthrough(Vec<u8>),
}

/// An operation that waits for the radio. The ticket tells the caller that waits for it.
#[derive(Debug, Clone, PartialEq, Eq)]
pub struct Operation {
    /// The session that asked for it.
    pub session_id: u64,
    /// How urgent it is.
    pub priority: Priority,
    /// What to do.
    pub kind: OpKind,
    /// Who waits for the result.
    pub ticket: u64,
}

/// The waiting operations of one session, the oldest first.
#[derive(Debug)]
struct SessionQueue {
    session_id: u64,
    ops: Vec<Operation>,
}

/// The waiting operations of one session.
pub struct Waiting {
    /// The session.
    pub session_id: u64,
    /// Its operations, the oldest first.
    pub ops: Seq<Operation>,
}

/// Where the queue of a session stands, if it has one.
pub open spec fn position(queues: Seq<Waiting>, session_id: u64) -> Option<int>
    decreases queues.len(),
{
    if queues.len() == 0 {
        None
    } else if queues[0].session_id == session_id {
        Some(0)
    } else {
        match position(queues.skip(1), session_id) {
            Some(i) => Some(i + 1),
            None => None,
        }
    }
}

/// The queues once an operation has joined that of its session.
pub open spec fn enqueued(queues: Seq<Waiting>, op: Operation) -> Seq<Waiting> {
    match position(queues, op.session_id) {
        Some(i) => queues.update(i, Waiting { ops: queues[i].ops.push(op), ..queues[i] }),
        None => queues.push(Waiting { session_id: op.session_id, ops: seq![op] }),
    }
}

/// The rank of the oldest operation of a queue; an empty queue comes after every other.
pub open spec fn head_rank(queue: Waiting) -> nat {
    if queue.ops.len() == 0 {
        4
    } else {
        queue.ops[0].priority.level()
    }
}

/// Which queue is served next: the first of those whose oldest operation is most urgent.
pub open spec fn chosen(queues: Seq<Waiting>) -> Option<int>
    decreases queues.len(),
{
    if queues.len() == 0 {
        None
    } else {
        let last = queues.len() - 1;
        match chosen(queues.drop_last()) {
            Some(i) => if head_rank(queues.last()) < head_rank(queues[i]) {
                Some(last as int)
            } else {
                Some(i)
            },
            None => if head_rank(queues.last()) < 4 {
                Some(last as int)
            } else {
                None
            },
        }
    }
}

/// The per-session queues.
#[derive(Debug)]
pub struct Scheduler {
    queues: Vec<SessionQueue>,
}

impl View for Scheduler {
    type V = Seq<Waiting>;

    closed spec fn view(&self) -> Seq<Waiting> {
        self.queues@.map_values(
            |q: SessionQueue| Waiting { session_id: q.session_id, ops: q.ops@ },
        )
    }
}

impl Scheduler {
    /// No operation waits.
    #[must_use]
    pub fn new() -> (r: Self)
        ensures
            r@ == Seq::<Waiting>::empty(),
    {
        let r = Scheduler { queues: Vec::new() };
        proof {
            assert(r@ =~= Seq::<Waiting>::empty());
        }
        r
    }

    /// Let an operation join the queue of its session.
    pub fn enqueue(&mut self, op: Operation)
        ensures
            final(self)@ == enqueued(old(self)@, op),
    {
        let mut i: usize = 0;
        proof {
            assert(self@.skip(0) =~= self@);
        }
        while i < self.queues.len()
            invariant
                self@ == old(self)@,
                i <= self.queues@.len(),
                self.queues@.len() == self@.len(),
                match position(self@.skip(i as int), op.session_id) {
                    Some(k) => position(self@, op.session_id) == Some(k + i),
                    None => position(self@, op.session_id) is None,
                },
            decreases self.queues@.len() - i,
        {
            proof {
                assert(self@.skip(i as int).skip(1) =~= self@.skip(i + 1));
                assert(self@.skip(i as int)[0] == self@[i as int]);
            }
            if self.queues[i].session_id == op.session_id {
                self.queues[i].ops.push(op);
                proof {
                    assert(self@ =~= enqueued(old(self)@, op));
                }
                return ;
            }
            i = i + 1;
        }
        let session_id: u64 = op.session_id;
        let mut ops: Vec<Operation> = Vec::new();
        ops.push(op);
        self.queues.push(SessionQueue { session_id, ops });
        proof {
            assert(old(self)@.skip(i as int) =~= Seq::empty());
            assert(ops@ =~= seq![op]);
            assert(self@ =~= enqueued(old(self)@, op));
        }
    }

    /// Pick the highest-priority ready head across all per-session queues (FIFO within a
    /// session).
    pub fn select_next(&mut self) -> (r: Option<Operation>)
        ensures
            match chosen(old(self)@) {
                Some(i) => {
                    let queue = old(self)@[i];
                    &&& r == Some(queue.ops[0])
                    &&& final(self)@ == old(self)@.update(
                        i,
                        Waiting { ops: queue.ops.skip(1), ..queue },
                    )
                },
                None => r is None && final(self)@ == old(self)@,
            },
    {
        let mut best: Option<usize> = None;
        let mut best_rank: u8 = 4;
        let mut i: usize = 0;
        while i < self.queues.len()
            invariant
                self@ == old(self)@,
                i <= self.queues@.len(),
                self.queues@.len() == self@.len(),
                match best {
                    Some(b) => b < i && chosen(self@.take(i as int)) == Some(b as int) && best_rank
                        == head_rank(self@[b as int]) && best_rank < 4,
                    None => chosen(self@.take(i as int)) is None && best_rank == 4,
                },
            decreases self.queues@.len() - i,
        {
            proof {
                assert(self@.take(i + 1).drop_last() =~= self@.take(i as int));
                assert(self@.take(i + 1).last() == self@[i as int]);
                assert(self@[i as int].ops == self.queues@[i as int].ops@);
            }
            if self.queues[i].ops.len() > 0 {
                let rank: u8 = self.queues[i].ops[0].priority.rank();
                if rank < best_rank {
                    best = Some(i);
                    best_rank = rank;
                }
            }
            i = i + 1;
        }
        proof {
            assert(self@.take(i as int) =~= self@);
        }
        match best {
            Some(b) => {
                proof {
                    assert(self@[b as int].ops == self.queues@[b as int].ops@);
                }
                let op = self.queues[b].ops.remove(0);
                proof {
                    assert(self.queues@[b as int].ops@ =~= old(self).queues@[b as int].ops@.skip(1));
                    assert(self@ =~= old(self)@.update(
                        b as int,
                        Waiting { ops: old(self)@[b as int].ops.skip(1), ..old(self)@[b as int] },
                    ));
                }
                Some(op)
            },
            None => None,
        }
    }
}

/// The operation that is served next is the oldest of its session, no session has a more
/// urgent oldest operation, and of those that are as urgent the first queue is served.
/// Something is served as long as something waits.
pub proof fn law_most_urgent_first(queues: Seq<Waiting>)
    ensures
        match chosen(queues) {
            Some(i) => {
                &&& 0 <= i < queues.len()
                &&& queues[i].ops.len() > 0
                &&& forall|j: int|
                    0 <= j < queues.len() ==> head_rank(queues[i]) <= head_rank(#[trigger] queues[j])
                &&& forall|j: int|
                    0 <= j < i ==> head_rank(queues[i]) < head_rank(#[trigger] queues[j])
            },
            None => forall|j: int| 0 <= j < queues.len() ==> (#[trigger] queues[j]).ops.len() == 0,
        },
    decreases queues.len(),
{
    if queues.len() > 0 {
        let before = queues.drop_last();
        law_most_urgent_first(before);
        match chosen(queues) {
            Some(i) => {
                if i < before.len() {
                    assert(before[i] == queues[i]);
                }
                assert forall|j: int| 0 <= j < queues.len() implies head_rank(queues[i])
                    <= head_rank(#[trigger] queues[j]) by {
                    if j < before.len() {
                        assert(before[j] == queues[j]);
                    }
                }
                assert forall|j: int| 0 <= j < i implies head_rank(queues[i]) < head_rank(
                    #[trigger] queues[j],
                ) by {
                    assert(before[j] == queues[j]);
                }
            },
            None => {
                assert forall|j: int| 0 <= j < queues.len() implies (#[trigger] queues[j]).ops.len()
                    == 0 by {
                    if j < before.len() {
                        assert(before[j] == queues[j]);
                    }
                }
            },
        }
    }
}

/// An operation joins at the end of the queue of its session, which is a new one where the
/// session has none, and no other queue changes.
pub proof fn law_sessions_are_fifo(queues: Seq<Waiting>, op: Operation)
    ensures
        ({
            let after = enqueued(queues, op);
            match position(queues, op.session_id) {
                Some(i) => {
                    &&& 0 <= i < queues.len()
                    &&& queues[i].session_id == op.session_id
                    &&& after.len() == queues.len()
                    &&& after[i].session_id == op.session_id
                    &&& after[i].ops == queues[i].ops.push(op)
                    &&& forall|j: int|
                        0 <= j < queues.len() && j != i ==> #[trigger] after[j] == queues[j]
                },
                None => {
                    &&& forall|j: int|
                        0 <= j < queues.len() ==> (#[trigger] queues[j]).session_id
                            != op.session_id
                    &&& after.len() == queues.len() + 1
                    &&& after.last().session_id == op.session_id
                    &&& after.last().ops == seq![op]
                    &&& forall|j: int| 0 <= j < queues.len() ==> #[trigger] after[j] == queues[j]
                },
            }
        }),
{
    lemma_position(queues, op.session_id);
}

proof fn lemma_position(queues: Seq<Waiting>, session_id: u64)
    ensures
        match position(queues, session_id) {
            Some(i) => 0 <= i < queues.len() && queues[i].session_id == session_id,
            None => forall|j: int|
                0 <= j < queues.len() ==> (#[trigger] queues[j]).session_id != session_id,
        },
    decreases queues.len(),
{
    if queues.len() > 0 && queues[0].session_id != session_id {
        let rest = queues.skip(1);
        lemma_position(rest, session_id);
        if position(rest, session_id) is None {
            assert forall|j: int| 0 <= j < queues.len() implies (#[trigger] queues[j]).session_id
                != session_id by {
                if j > 0 {
                    assert(rest[j - 1] == queues[j]);
                }
            }
        }
    }
}

} // verus!
