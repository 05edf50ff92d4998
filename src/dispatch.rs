use vstd::prelude::*;
use std::collections::VecDeque;
use crate::message::{
    Message,
    job_count,
    terminate_count,
    terminates,
    jobs_first,
    lemma_counts_push,
    lemma_counts_drop_first,
    lemma_no_terminates,
    lemma_only_terminates,
    lemma_terminates_count,
};

verus! {

/// Where one worker stands. `Waiting` and `Executing` together make up the
/// running phase: a waiting worker asks for the next message, an executing
/// one runs the job it was handed. A worker that took a terminate signal is
/// `Terminating` until its thread has been joined, and `Stopped` after.
#[derive(PartialEq, Eq, Structural, Clone, Copy, Debug)]
pub enum WorkerState {
    Waiting,
    Executing,
    Terminating,
    Stopped,
}

/// The two ways a pool refuses a request.
#[derive(PartialEq, Eq, Structural, Clone, Copy, Debug)]
pub enum PoolError {
    /// A pool was asked for with no worker: nothing could ever drain its queue.
    ZeroWorkers,
    /// A job was submitted after teardown had begun.
    Closed,
}

/// How many entries of `s` equal `w`.
pub open spec fn count_in(s: Seq<WorkerState>, w: WorkerState) -> nat
    decreases s.len(),
{
    if s.len() == 0 {
        0
    } else {
        count_in(s.drop_last(), w) + if s.last() == w { 1nat } else { 0nat }
    }
}

/// Workers that are still in their running phase.
pub open spec fn running_count(s: Seq<WorkerState>) -> nat {
    count_in(s, WorkerState::Waiting) + count_in(s, WorkerState::Executing)
}

/// Workers that have taken their terminate signal.
pub open spec fn signalled_count(s: Seq<WorkerState>) -> nat {
    count_in(s, WorkerState::Terminating) + count_in(s, WorkerState::Stopped)
}

pub proof fn lemma_count_push(s: Seq<WorkerState>, v: WorkerState, w: WorkerState)
    ensures
        count_in(s.push(v), w) == count_in(s, w) + if v == w { 1nat } else { 0nat },
{
    assert(s.push(v).drop_last() =~= s);
}

pub proof fn lemma_count_update(s: Seq<WorkerState>, i: int, v: WorkerState, w: WorkerState)
    requires
        0 <= i < s.len(),
    ensures
        count_in(s.update(i, v), w) + (if s[i] == w { 1nat } else { 0nat })
            == count_in(s, w) + (if v == w { 1nat } else { 0nat }),
    decreases s.len(),
{
    if i < s.len() - 1 {
        lemma_count_update(s.drop_last(), i, v, w);
        assert(s.update(i, v).drop_last() =~= s.drop_last().update(i, v));
    } else {
        assert(s.update(i, v).drop_last() =~= s.drop_last());
    }
}

pub proof fn lemma_count_total(s: Seq<WorkerState>)
    ensures
        running_count(s) + signalled_count(s) == s.len(),
    decreases s.len(),
{
    if s.len() > 0 {
        lemma_count_total(s.drop_last());
    }
}

/// The state that a pool's workers share: the queue they compete for, what
/// each of them is doing, and whether teardown has begun. Every operation is
/// one step taken under the pool's lock, so each message is handed to exactly
/// one worker.
pub struct Dispatcher<J> {
    queue: VecDeque<Message<J>>,
    states: Vec<WorkerState>,
    closed: bool,
    submitted: Ghost<nat>,
    delivered: Ghost<nat>,
    completed: Ghost<nat>,
}

impl<J> Dispatcher<J> {
    /// The messages waiting to be taken, oldest first.
    pub closed spec fn queue(&self) -> Seq<Message<J>> {
        self.queue@
    }

    /// The state of each worker, by id.
    pub closed spec fn states(&self) -> Seq<WorkerState> {
        self.states@
    }

    /// Whether teardown has begun.
    pub closed spec fn is_closed(&self) -> bool {
        self.closed
    }

    /// How many jobs were ever accepted.
    pub closed spec fn submitted(&self) -> nat {
        self.submitted@
    }

    /// How many jobs were ever handed to a worker.
    pub closed spec fn delivered(&self) -> nat {
        self.delivered@
    }

    /// How many jobs a worker reported as finished.
    pub closed spec fn completed(&self) -> nat {
        self.completed@
    }

    /// The number of workers.
    pub open spec fn size(&self) -> nat {
        self.states().len()
    }

    pub open spec fn wf(&self) -> bool {
        &&& self.size() >= 1
        &&& jobs_first(self.queue())
        &&& self.submitted() == self.delivered() + job_count(self.queue())
        &&& self.delivered() == self.completed() + count_in(self.states(), WorkerState::Executing)
        &&& !self.is_closed() ==> terminate_count(self.queue()) == 0 && signalled_count(self.states()) == 0
        &&& self.is_closed() ==> terminate_count(self.queue()) + signalled_count(self.states()) == self.size()
        &&& signalled_count(self.states()) > 0 ==> job_count(self.queue()) == 0
    }

    /// A pool core for `size` workers, all waiting on an empty, open queue.
    /// A pool with no worker is refused.
    pub fn new(size: usize) -> (r: Result<Dispatcher<J>, PoolError>)
        ensures
            size == 0 <==> r is Err,
            r matches Err(e) ==> e == PoolError::ZeroWorkers,
            r matches Ok(d) ==> {
                &&& d.wf()
                &&& d.size() == size
                &&& d.states() == Seq::new(size as nat, |i: int| WorkerState::Waiting)
                &&& d.queue().len() == 0
                &&& !d.is_closed()
                &&& d.submitted() == 0 && d.delivered() == 0 && d.completed() == 0
            },
    {
        if size == 0 {
            return Err(PoolError::ZeroWorkers);
        }
        let mut states: Vec<WorkerState> = Vec::with_capacity(size);
        let mut i: usize = 0;
        while i < size
            invariant
                i <= size,
                states@ == Seq::new(i as nat, |k: int| WorkerState::Waiting),
                count_in(states@, WorkerState::Executing) == 0,
                count_in(states@, WorkerState::Terminating) == 0,
                count_in(states@, WorkerState::Stopped) == 0,
            decreases size - i,
        {
            proof {
                lemma_count_push(states@, WorkerState::Waiting, WorkerState::Executing);
                lemma_count_push(states@, WorkerState::Waiting, WorkerState::Terminating);
                lemma_count_push(states@, WorkerState::Waiting, WorkerState::Stopped);
            }
            states.push(WorkerState::Waiting);
            i = i + 1;
            assert(states@ =~= Seq::new(i as nat, |k: int| WorkerState::Waiting));
        }
        let d = Dispatcher {
            queue: VecDeque::new(),
            states,
            closed: false,
            submitted: Ghost(0),
            delivered: Ghost(0),
            completed: Ghost(0),
        };
        assert(job_count(d.queue()) == 0);
        assert(terminate_count(d.queue()) == 0);
        Ok(d)
    }

    /// Puts a job at the back of the queue, unless teardown has begun: then
    /// the job is refused and nothing changes.
    pub fn submit(&mut self, job: J) -> (r: Result<(), PoolError>)
        requires
            old(self).wf(),
        ensures
            final(self).wf(),
            old(self).is_closed() <==> r is Err,
            r matches Err(e) ==> e == PoolError::Closed,
            old(self).is_closed() ==> *final(self) == *old(self),
            !old(self).is_closed() ==> {
                &&& final(self).queue() == old(self).queue().push(Message::NewJob(job))
                &&& final(self).states() == old(self).states()
                &&& final(self).is_closed() == old(self).is_closed()
                &&& final(self).submitted() == old(self).submitted() + 1
                &&& final(self).delivered() == old(self).delivered()
                &&& final(self).completed() == old(self).completed()
            },
    {
        if self.closed {
            return Err(PoolError::Closed);
        }
        proof {
            lemma_no_terminates(self.queue@);
            lemma_counts_push(self.queue@, Message::NewJob(job));
        }
        self.queue.push_back(Message::NewJob(job));
        self.submitted = Ghost(self.submitted@ + 1);
        Ok(())
    }

    /// What a waiting worker does next. With an empty queue it gets `None` and
    /// keeps waiting. Otherwise it takes the oldest message: a job makes it
    /// `Executing`, a terminate signal makes it `Terminating`.
    pub fn next_message(&mut self, id: usize) -> (r: Option<Message<J>>)
        requires
            old(self).wf(),
            id < old(self).size(),
            old(self).states()[id as int] == WorkerState::Waiting,
        ensures
            final(self).wf(),
            final(self).is_closed() == old(self).is_closed(),
            final(self).submitted() == old(self).submitted(),
            final(self).completed() == old(self).completed(),
            old(self).queue().len() == 0 <==> r is None,
            r is None ==> {
                &&& final(self).queue() == old(self).queue()
                &&& final(self).states() == old(self).states()
                &&& final(self).delivered() == old(self).delivered()
            },
            r matches Some(m) ==> {
                &&& m == old(self).queue()[0]
                &&& final(self).queue() == old(self).queue().drop_first()
                &&& final(self).states() == old(self).states().update(
                    id as int,
                    if m is NewJob { WorkerState::Executing } else { WorkerState::Terminating },
                )
                &&& final(self).delivered() == old(self).delivered() + if m is NewJob { 1nat } else { 0nat }
            },
    {
        let ghost q0 = self.queue@;
        let ghost s0 = self.states@;
        let m = self.queue.pop_front();
        match m {
            None => None,
            Some(msg) => {
                proof {
                    assert(self.queue@ =~= q0.drop_first());
                    lemma_counts_drop_first(q0);
                    assert(jobs_first(self.queue@)) by {
                        assert forall|i: int, j: int|
                            0 <= i < j < self.queue@.len() && self.queue@[i] is Terminate
                            implies self.queue@[j] is Terminate by {
                            assert(self.queue@[i] == q0[i + 1]);
                            assert(self.queue@[j] == q0[j + 1]);
                        }
                    }
                }
                let is_t = msg.is_terminate();
                if is_t {
                    proof {
                        if !self.closed {
                            lemma_no_terminates(q0);
                        }
                        assert forall|i: int| 0 <= i < self.queue@.len() implies self.queue@[i] is Terminate by {
                            assert(self.queue@[i] == q0[i + 1]);
                        }
                        lemma_only_terminates(self.queue@);
                        lemma_count_update(s0, id as int, WorkerState::Terminating, WorkerState::Waiting);
                        lemma_count_update(s0, id as int, WorkerState::Terminating, WorkerState::Executing);
                        lemma_count_update(s0, id as int, WorkerState::Terminating, WorkerState::Terminating);
                        lemma_count_update(s0, id as int, WorkerState::Terminating, WorkerState::Stopped);
                    }
                    self.states.set(id, WorkerState::Terminating);
                } else {
                    proof {
                        lemma_count_update(s0, id as int, WorkerState::Executing, WorkerState::Waiting);
                        lemma_count_update(s0, id as int, WorkerState::Executing, WorkerState::Executing);
                        lemma_count_update(s0, id as int, WorkerState::Executing, WorkerState::Terminating);
                        lemma_count_update(s0, id as int, WorkerState::Executing, WorkerState::Stopped);
                    }
                    self.states.set(id, WorkerState::Executing);
                    self.delivered = Ghost(self.delivered@ + 1);
                }
                Some(msg)
            },
        }
    }

    /// A worker reports that the job it was running has finished; it waits
    /// for the next message again.
    pub fn job_done(&mut self, id: usize)
        requires
            old(self).wf(),
            id < old(self).size(),
            old(self).states()[id as int] == WorkerState::Executing,
        ensures
            final(self).wf(),
            final(self).queue() == old(self).queue(),
            final(self).states() == old(self).states().update(id as int, WorkerState::Waiting),
            final(self).is_closed() == old(self).is_closed(),
            final(self).submitted() == old(self).submitted(),
            final(self).delivered() == old(self).delivered(),
            final(self).completed() == old(self).completed() + 1,
    {
        proof {
            let s0 = self.states@;
            lemma_count_update(s0, id as int, WorkerState::Waiting, WorkerState::Waiting);
            lemma_count_update(s0, id as int, WorkerState::Waiting, WorkerState::Executing);
            lemma_count_update(s0, id as int, WorkerState::Waiting, WorkerState::Terminating);
            lemma_count_update(s0, id as int, WorkerState::Waiting, WorkerState::Stopped);
        }
        self.states.set(id, WorkerState::Waiting);
        self.completed = Ghost(self.completed@ + 1);
    }

    /// Begins teardown: one terminate signal per worker goes behind the jobs
    /// already queued, and from now on every submission is refused. Teardown
    /// happens once per pool.
    pub fn begin_teardown(&mut self)
        requires
            old(self).wf(),
            !old(self).is_closed(),
        ensures
            final(self).wf(),
            final(self).is_closed(),
            final(self).queue() == old(self).queue() + terminates::<J>(old(self).size()),
            final(self).states() == old(self).states(),
            final(self).submitted() == old(self).submitted(),
            final(self).delivered() == old(self).delivered(),
            final(self).completed() == old(self).completed(),
    {
        let ghost q0 = self.queue@;
        proof {
            lemma_no_terminates(q0);
        }
        let n = self.states.len();
        let mut i: usize = 0;
        while i < n
            invariant
                n == self.states@.len(),
                i <= n,
                !self.closed,
                self.states@ == old(self).states@,
                self.submitted == old(self).submitted,
                self.delivered == old(self).delivered,
                self.completed == old(self).completed,
                self.queue@ == q0 + terminates::<J>(i as nat),
                job_count(self.queue@) == job_count(q0),
                terminate_count(self.queue@) == i,
                forall|k: int| 0 <= k < q0.len() ==> q0[k] is NewJob,
            decreases n - i,
        {
            proof {
                lemma_counts_push(self.queue@, Message::Terminate);
            }
            self.queue.push_back(Message::Terminate);
            i = i + 1;
            assert(self.queue@ =~= q0 + terminates::<J>(i as nat));
        }
        self.closed = true;
        assert(jobs_first(self.queue@)) by {
            assert forall|a: int, b: int|
                0 <= a < b < self.queue@.len() && self.queue@[a] is Terminate
                implies self.queue@[b] is Terminate by {
                if b < q0.len() {
                    assert(self.queue@[a] == q0[a]);
                }
            }
        }
    }

    /// The pool reports that the thread of a terminating worker has been
    /// joined.
    pub fn worker_joined(&mut self, id: usize)
        requires
            old(self).wf(),
            id < old(self).size(),
            old(self).states()[id as int] == WorkerState::Terminating,
        ensures
            final(self).wf(),
            final(self).queue() == old(self).queue(),
            final(self).states() == old(self).states().update(id as int, WorkerState::Stopped),
            final(self).is_closed() == old(self).is_closed(),
            final(self).submitted() == old(self).submitted(),
            final(self).delivered() == old(self).delivered(),
            final(self).completed() == old(self).completed(),
    {
        proof {
            let s0 = self.states@;
            lemma_count_update(s0, id as int, WorkerState::Stopped, WorkerState::Waiting);
            lemma_count_update(s0, id as int, WorkerState::Stopped, WorkerState::Executing);
            lemma_count_update(s0, id as int, WorkerState::Stopped, WorkerState::Terminating);
            lemma_count_update(s0, id as int, WorkerState::Stopped, WorkerState::Stopped);
        }
        self.states.set(id, WorkerState::Stopped);
    }

    /// The number of workers.
    pub fn worker_count(&self) -> (r: usize)
        requires
            self.wf(),
        ensures
            r == self.size(),
    {
        self.states.len()
    }

    /// The state of worker `id`.
    pub fn state(&self, id: usize) -> (r: WorkerState)
        requires
            id < self.size(),
        ensures
            r == self.states()[id as int],
    {
        self.states[id]
    }

    /// Whether teardown has begun.
    pub fn teardown_begun(&self) -> (r: bool)
        ensures
            r == self.is_closed(),
    {
        self.closed
    }

    /// The number of messages waiting in the queue.
    pub fn pending(&self) -> (r: usize)
        ensures
            r == self.queue().len(),
    {
        self.queue.len()
    }
}

} // verus!
