//! A bounded worker pool: a fixed set of workers drains a FIFO job queue, and
//! a graceful shutdown closes the producing side, drains the backlog, and
//! retires every worker.
//!
//! The pool coordinates *job identities*: a job is an opaque unit of work,
//! known here by its id. Running the work itself is the embedding program's
//! business; the pool decides who runs what, exactly once, in FIFO order of
//! submission.

use vstd::prelude::*;

verus! {

use vstd::multiset::Multiset;

broadcast use vstd::multiset::group_multiset_axioms;

/// Why pool construction can fail.
#[derive(Debug, Clone, Copy, PartialEq, Eq, Structural)]
pub enum PoolError {
    /// A pool with zero workers would deadlock every submission.
    ZeroWorkers,
}

/// What a blocked receive on the job queue hands back: either the next job,
/// or the signal that the producing side is gone and the backlog is empty.
#[derive(Debug, Clone, Copy, PartialEq, Eq, Structural)]
pub enum Received {
    Job(u64),
    Closed,
}

/// What the worker loop decides to do with a `Received` message.
#[derive(Debug, Clone, Copy, PartialEq, Eq, Structural)]
pub enum WorkerAction {
    /// Run the job to completion on this worker's own thread, then wait again.
    Run(u64),
    /// Leave the loop; the queue is closed for good.
    Exit,
}

/// Phase of one worker's state machine.
#[derive(Debug, Clone, Copy, PartialEq, Eq, Structural)]
pub enum WorkerPhase {
    WaitingForJob,
    Executing,
    Terminated,
}

/// The transition relation of the worker state machine: waiting workers may
/// start executing or terminate, executing workers return to waiting.
pub open spec fn phase_step(pre: WorkerPhase, post: WorkerPhase) -> bool {
    ||| (pre is WaitingForJob && post is Executing)
    ||| (pre is Executing && post is WaitingForJob)
    ||| (pre is WaitingForJob && post is Terminated)
}

/// Terminated is absorbing: no transition leaves it.
pub proof fn lemma_terminated_absorbing()
    ensures
        forall|post: WorkerPhase| !phase_step(WorkerPhase::Terminated, post),
{
}

/// The FIFO transport between producers and workers. Sending appends to the
/// backlog; receiving takes from the front; closing refuses further sends
/// while the backlog drains.
pub struct JobQueue {
    items: Vec<u64>,
    open: bool,
}

impl JobQueue {
    /// The queued jobs, oldest first.
    pub closed spec fn backlog(&self) -> Seq<u64> {
        self.items@
    }

    /// Whether the producing side is still live.
    pub closed spec fn is_open(&self) -> bool {
        self.open
    }

    /// A fresh, empty, open queue.
    pub fn new() -> (q: JobQueue)
        ensures
            q.backlog() == Seq::<u64>::empty(),
            q.is_open(),
    {
        JobQueue { items: Vec::new(), open: true }
    }

    /// Enqueues a job at the back. Never blocks and never drops: the backlog
    /// grows by exactly this job.
    pub fn send(&mut self, job: u64)
        requires
            old(self).is_open(),
        ensures
            final(self).backlog() == old(self).backlog().push(job),
            final(self).is_open(),
    {
        self.items.push(job);
    }

    /// Closes the producing side. The backlog stays, so pending jobs can
    /// still be received; only new sends are refused.
    pub fn close(&mut self)
        ensures
            final(self).backlog() == old(self).backlog(),
            !final(self).is_open(),
    {
        self.open = false;
    }

    /// One receive attempt: the front job if there is one, the closed signal
    /// if the queue is closed and drained, and nothing when an open, empty
    /// queue would have to block.
    pub fn try_recv(&mut self) -> (r: Option<Received>)
        ensures
            final(self).is_open() == old(self).is_open(),
            old(self).backlog().len() > 0 ==> {
                &&& r == Some(Received::Job(old(self).backlog()[0]))
                &&& final(self).backlog() == old(self).backlog().drop_first()
            },
            old(self).backlog().len() == 0 ==> final(self).backlog() == old(self).backlog(),
            old(self).backlog().len() == 0 && !old(self).is_open() ==> r == Some(
                Received::Closed,
            ),
            old(self).backlog().len() == 0 && old(self).is_open() ==> r is None,
    {
        if self.items.len() > 0 {
            let job = self.items.remove(0);
            proof {
                assert(old(self).backlog().remove(0) =~= old(self).backlog().drop_first());
            }
            Some(Received::Job(job))
        } else if !self.open {
            Some(Received::Closed)
        } else {
            None
        }
    }
}

/// The model of one background worker thread: an id for diagnostics, the
/// phase of its loop, and the job it is executing, if any.
#[derive(Debug, Clone, Copy)]
pub struct Worker {
    id: usize,
    phase: WorkerPhase,
    current: Option<u64>,
}

impl Worker {
    /// The diagnostic id this worker was created with.
    pub closed spec fn spec_id(&self) -> usize {
        self.id
    }

    /// Reads the diagnostic id back.
    pub fn ident(&self) -> (r: usize)
        ensures
            r == self.spec_id(),
    {
        self.id
    }

    /// Where this worker stands in its loop.
    pub closed spec fn spec_phase(&self) -> WorkerPhase {
        self.phase
    }

    /// The job this worker is executing, when it is executing one.
    pub closed spec fn current_job(&self) -> Option<u64> {
        self.current
    }

    /// A worker holds a job exactly while it is executing.
    pub open spec fn wf(&self) -> bool {
        (self.spec_phase() is Executing) <==> (self.current_job() is Some)
    }

    /// A fresh worker, waiting for its first job.
    pub fn new(id: usize) -> (w: Worker)
        ensures
            w.wf(),
            w.spec_id() == id,
            w.spec_phase() is WaitingForJob,
    {
        Worker { id, phase: WorkerPhase::WaitingForJob, current: None }
    }

    /// The worker loop's decision on one received message: a job moves the
    /// worker to `Executing` and is run; the closed signal terminates the
    /// loop. Only a waiting worker receives.
    pub fn receive(&mut self, msg: Received) -> (a: WorkerAction)
        requires
            old(self).wf(),
            old(self).spec_phase() is WaitingForJob,
        ensures
            final(self).wf(),
            final(self).spec_id() == old(self).spec_id(),
            phase_step(old(self).spec_phase(), final(self).spec_phase()),
            match msg {
                Received::Job(j) => {
                    &&& final(self).spec_phase() is Executing
                    &&& final(self).current_job() == Some(j)
                    &&& a == WorkerAction::Run(j)
                },
                Received::Closed => {
                    &&& final(self).spec_phase() is Terminated
                    &&& final(self).current_job() is None
                    &&& a == WorkerAction::Exit
                },
            },
    {
        match msg {
            Received::Job(j) => {
                self.phase = WorkerPhase::Executing;
                self.current = Some(j);
                WorkerAction::Run(j)
            }
            Received::Closed => {
                self.phase = WorkerPhase::Terminated;
                WorkerAction::Exit
            }
        }
    }

    /// The executing job has run to completion; the worker returns to
    /// waiting, whatever the job itself did internally.
    pub fn complete(&mut self) -> (j: u64)
        requires
            old(self).wf(),
            old(self).spec_phase() is Executing,
        ensures
            final(self).wf(),
            final(self).spec_id() == old(self).spec_id(),
            final(self).spec_phase() is WaitingForJob,
            final(self).current_job() is None,
            Some(j) == old(self).current_job(),
            phase_step(old(self).spec_phase(), final(self).spec_phase()),
    {
        let j = match self.current {
            Some(j) => j,
            None => 0,  // excluded by the precondition
        };
        self.phase = WorkerPhase::WaitingForJob;
        self.current = None;
        j
    }
}

/// One completed job, as recorded by the pool: which job ran, and on which
/// worker.
#[derive(Debug, Clone, Copy, PartialEq, Eq, Structural)]
pub struct Completion {
    pub job: u64,
    pub by: usize,
}

/// The job a single worker holds, as a multiset of zero or one elements.
pub open spec fn held_job(w: Worker) -> Multiset<u64> {
    match w.current_job() {
        Some(j) => Multiset::empty().insert(j),
        None => Multiset::empty(),
    }
}

/// All jobs currently held by workers: the in-flight work.
pub open spec fn in_flight(ws: Seq<Worker>) -> Multiset<u64>
    decreases ws.len(),
{
    if ws.len() == 0 {
        Multiset::empty()
    } else {
        held_job(ws.first()).add(in_flight(ws.drop_first()))
    }
}

/// Replacing one worker exchanges exactly its held job in the in-flight
/// multiset.
proof fn lemma_in_flight_update(ws: Seq<Worker>, i: int, nw: Worker)
    requires
        0 <= i < ws.len(),
    ensures
        in_flight(ws.update(i, nw)).add(held_job(ws[i])) =~= in_flight(ws).add(held_job(nw)),
    decreases ws.len(),
{
    if i == 0 {
        assert(ws.update(0, nw).drop_first() =~= ws.drop_first());
        assert(ws.update(0, nw).first() == nw);
        assert(in_flight(ws.update(0, nw)) == held_job(nw).add(in_flight(ws.drop_first())));
        assert(in_flight(ws) == held_job(ws[0]).add(in_flight(ws.drop_first())));
        assert(in_flight(ws.update(0, nw)).add(held_job(ws[0])) =~= in_flight(ws).add(
            held_job(nw),
        ));
    } else {
        lemma_in_flight_update(ws.drop_first(), i - 1, nw);
        assert(ws.update(i, nw).drop_first() =~= ws.drop_first().update(i - 1, nw));
        assert(ws.update(i, nw).first() == ws.first());
        assert(in_flight(ws.update(i, nw)) == held_job(ws.first()).add(
            in_flight(ws.drop_first().update(i - 1, nw)),
        ));
        assert(in_flight(ws) == held_job(ws.first()).add(in_flight(ws.drop_first())));
        assert(ws.drop_first()[i - 1] == ws[i]);
        assert forall|v: u64|
            in_flight(ws.update(i, nw)).add(held_job(ws[i])).count(v) == in_flight(ws).add(
                held_job(nw),
            ).count(v) by {
            assert(in_flight(ws.drop_first().update(i - 1, nw)).add(held_job(ws[i])).count(v)
                == in_flight(ws.drop_first()).add(held_job(nw)).count(v));
        }
        assert(in_flight(ws.update(i, nw)).add(held_job(ws[i])) =~= in_flight(ws).add(
            held_job(nw),
        ));
    }
}

/// When no worker holds a job, nothing is in flight.
proof fn lemma_in_flight_empty(ws: Seq<Worker>)
    requires
        forall|i: int| 0 <= i < ws.len() ==> (#[trigger] ws[i].current_job()) is None,
    ensures
        in_flight(ws) =~= Multiset::empty(),
    decreases ws.len(),
{
    if ws.len() > 0 {
        assert(ws[0].current_job() is None);
        assert(forall|i: int|
            0 <= i < ws.drop_first().len() ==> (#[trigger] ws.drop_first()[i]).current_job()
                is None);
        lemma_in_flight_empty(ws.drop_first());
    }
}

/// The public coordinator. It owns a fixed set of workers and the producing
/// side of one shared job queue; submission enqueues, the workers drain, and
/// teardown closes the queue, finishes the backlog, and retires every worker.
pub struct ThreadPool {
    workers: Vec<Worker>,
    queue: JobQueue,
    finished: Vec<Completion>,
    submitted: Ghost<Seq<u64>>,
    delivered: Ghost<Seq<u64>>,
}

impl ThreadPool {
    /// How many workers the pool was built with.
    pub closed spec fn worker_count(&self) -> nat {
        self.workers@.len()
    }

    /// The phase of worker `w`.
    pub closed spec fn phase_of(&self, w: int) -> WorkerPhase {
        self.workers@[w].spec_phase()
    }

    /// Whether the producing handle is still live, i.e. submission is open.
    pub closed spec fn accepting(&self) -> bool {
        self.queue.is_open()
    }

    /// The jobs submitted so far, in submission order.
    pub closed spec fn submitted_log(&self) -> Seq<u64> {
        self.submitted@
    }

    /// The jobs handed to workers so far, in delivery order.
    pub closed spec fn delivered_log(&self) -> Seq<u64> {
        self.delivered@
    }

    /// The not-yet-delivered backlog, oldest first.
    pub closed spec fn backlog(&self) -> Seq<u64> {
        self.queue.backlog()
    }

    /// The completion records, in completion order.
    pub closed spec fn completed_log(&self) -> Seq<Completion> {
        self.finished@
    }

    /// The completed jobs, in completion order.
    pub open spec fn completed_jobs(&self) -> Seq<u64> {
        self.completed_log().map_values(|c: Completion| c.job)
    }

    /// The pool's internal accounting invariant: every worker is one of this
    /// pool's and well formed; jobs are delivered in submission order; and
    /// every delivered job is either in flight on exactly one worker or
    /// recorded as completed.
    pub closed spec fn wf(&self) -> bool {
        &&& self.workers@.len() >= 1
        &&& forall|i: int|
            0 <= i < self.workers@.len() ==> (#[trigger] self.workers@[i]).wf()
                && self.workers@[i].spec_id() == i
        &&& self.accepting() ==> forall|i: int|
            0 <= i < self.workers@.len() ==> !((#[trigger] self.workers@[i]).spec_phase()
                is Terminated)
        &&& forall|k: int|
            0 <= k < self.finished@.len() ==> (#[trigger] self.finished@[k]).by
                < self.workers@.len()
        &&& self.submitted@ == self.delivered@ + self.queue.backlog()
        &&& self.delivered@.to_multiset() =~= self.completed_jobs().to_multiset().add(
            in_flight(self.workers@),
        )
    }

    /// Teardown has completed: nothing is accepted, nothing is pending, and
    /// every worker has terminated.
    pub open spec fn is_shut_down(&self) -> bool {
        &&& !self.accepting()
        &&& self.backlog().len() == 0
        &&& forall|i: int| 0 <= i < self.worker_count() ==> self.phase_of(i) is Terminated
    }

    /// Builds a pool of `size` workers, all waiting on one fresh queue.
    /// A zero size is a programmer error and is excluded up front.
    pub fn new(size: usize) -> (p: ThreadPool)
        requires
            size >= 1,
        ensures
            p.wf(),
            p.worker_count() == size,
            forall|i: int| 0 <= i < size ==> p.phase_of(i) is WaitingForJob,
            p.accepting(),
            p.backlog().len() == 0,
            p.submitted_log().len() == 0,
            p.completed_log().len() == 0,
    {
        let mut workers: Vec<Worker> = Vec::new();
        let mut id: usize = 0;
        while id < size
            invariant
                id <= size,
                workers@.len() == id,
                forall|i: int|
                    0 <= i < id ==> (#[trigger] workers@[i]).wf() && workers@[i].spec_id() == i
                        && workers@[i].spec_phase() is WaitingForJob,
            decreases size - id,
        {
            workers.push(Worker::new(id));
            id = id + 1;
        }
        let p = ThreadPool {
            workers,
            queue: JobQueue::new(),
            finished: Vec::new(),
            submitted: Ghost(Seq::empty()),
            delivered: Ghost(Seq::empty()),
        };
        proof {
            lemma_in_flight_empty(p.workers@);
            assert(p.completed_jobs() =~= Seq::<u64>::empty());
            p.delivered@.to_multiset_ensures();
            assert(p.submitted@ =~= p.delivered@ + p.queue.backlog());
            assert(p.delivered@.to_multiset() =~= p.completed_jobs().to_multiset().add(
                in_flight(p.workers@),
            ));
        }
        p
    }

    /// Builds a pool, failing fast on a zero worker count instead of
    /// panicking: `Err(ZeroWorkers)` exactly when `size` is zero.
    pub fn build(size: usize) -> (r: Result<ThreadPool, PoolError>)
        ensures
            r is Ok <==> size >= 1,
            match r {
                Ok(p) => {
                    &&& p.wf()
                    &&& p.worker_count() == size
                    &&& forall|i: int| 0 <= i < size ==> p.phase_of(i) is WaitingForJob
                    &&& p.accepting()
                    &&& p.backlog().len() == 0
                    &&& p.submitted_log().len() == 0
                    &&& p.completed_log().len() == 0
                },
                Err(e) => size == 0 && e == PoolError::ZeroWorkers,
            },
    {
        if size == 0 {
            Err(PoolError::ZeroWorkers)
        } else {
            Ok(ThreadPool::new(size))
        }
    }

    /// Submits a job: a non-blocking enqueue onto the backlog. While the
    /// producing handle is live this always succeeds and never drops the
    /// job; after teardown begins there is no handle, so no call.
    pub fn execute(&mut self, job: u64)
        requires
            old(self).wf(),
            old(self).accepting(),
        ensures
            final(self).wf(),
            final(self).accepting(),
            final(self).submitted_log() == old(self).submitted_log().push(job),
            final(self).backlog() == old(self).backlog().push(job),
            final(self).delivered_log() == old(self).delivered_log(),
            final(self).completed_log() == old(self).completed_log(),
            final(self).worker_count() == old(self).worker_count(),
            forall|i: int|
                0 <= i < final(self).worker_count() ==> final(self).phase_of(i) == old(
                    self,
                ).phase_of(i),
    {
        self.queue.send(job);
        proof {
            self.submitted@ = self.submitted@.push(job);
            assert(self.submitted@ =~= self.delivered@ + self.queue.backlog());
        }
    }

    /// One delivery, as a relation between pool states: worker `w` goes
    /// from waiting to executing with the front job of the backlog, the
    /// backlog loses that job, and nothing else moves.
    pub open spec fn dispatch_step(pre: ThreadPool, post: ThreadPool, w: int) -> bool {
        &&& 0 <= w < pre.worker_count()
        &&& pre.phase_of(w) is WaitingForJob
        &&& pre.backlog().len() > 0
        &&& post.worker_count() == pre.worker_count()
        &&& post.phase_of(w) is Executing
        &&& post.delivered_log() == pre.delivered_log().push(pre.backlog()[0])
        &&& post.backlog() == pre.backlog().drop_first()
        &&& post.submitted_log() == pre.submitted_log()
        &&& post.completed_log() == pre.completed_log()
        &&& post.accepting() == pre.accepting()
        &&& forall|i: int|
            0 <= i < post.worker_count() && i != w ==> post.phase_of(i) == pre.phase_of(i)
    }

    /// Worker `w` takes the next job: the front of the backlog, preserving
    /// FIFO delivery, and moves to `Executing`. Only a waiting worker takes
    /// a job, and only when the backlog is non-empty.
    pub fn dispatch(&mut self, w: usize)
        requires
            old(self).wf(),
            w < old(self).worker_count(),
            old(self).phase_of(w as int) is WaitingForJob,
            old(self).backlog().len() > 0,
        ensures
            final(self).wf(),
            final(self).accepting() == old(self).accepting(),
            final(self).worker_count() == old(self).worker_count(),
            final(self).phase_of(w as int) is Executing,
            final(self).delivered_log() == old(self).delivered_log().push(
                old(self).backlog()[0],
            ),
            final(self).backlog() == old(self).backlog().drop_first(),
            final(self).submitted_log() == old(self).submitted_log(),
            final(self).completed_log() == old(self).completed_log(),
            forall|i: int|
                0 <= i < final(self).worker_count() && i != w ==> final(self).phase_of(i) == old(
                    self,
                ).phase_of(i),
            ThreadPool::dispatch_step(*old(self), *final(self), w as int),
    {
        let ghost pre = *self;
        let msg = self.queue.try_recv();
        match msg {
            Some(m) => {
                let mut wk = self.workers[w];
                let _action = wk.receive(m);
                let ghost old_wk = self.workers@[w as int];
                self.workers.set(w, wk);
                proof {
                    self.delivered@ = self.delivered@.push(pre.queue.backlog()[0]);
                    assert(pre.submitted@ =~= self.delivered@ + self.queue.backlog()) by {
                        assert(pre.queue.backlog() =~= seq![pre.queue.backlog()[0]]
                            + self.queue.backlog());
                        assert(pre.delivered@ + (seq![pre.queue.backlog()[0]]
                            + self.queue.backlog()) =~= self.delivered@ + self.queue.backlog());
                    }
                    lemma_in_flight_update(pre.workers@, w as int, wk);
                    pre.delivered@.to_multiset_ensures();
                    assert(held_job(old_wk) =~= Multiset::empty());
                    assert(in_flight(self.workers@) =~= in_flight(pre.workers@).add(
                        held_job(wk),
                    ));
                    assert(self.delivered@.to_multiset() =~= self.completed_jobs().to_multiset()
                        .add(in_flight(self.workers@)));
                }
            }
            None => {
                proof {
                    assert(false);
                }
            }
        }
    }

    /// Worker `w` has run its job to completion: the job is recorded as
    /// completed by `w`, and `w` returns to waiting.
    pub fn finish(&mut self, w: usize)
        requires
            old(self).wf(),
            w < old(self).worker_count(),
            old(self).phase_of(w as int) is Executing,
        ensures
            final(self).wf(),
            final(self).accepting() == old(self).accepting(),
            final(self).worker_count() == old(self).worker_count(),
            final(self).phase_of(w as int) is WaitingForJob,
            final(self).completed_log().len() == old(self).completed_log().len() + 1,
            final(self).completed_log().last().by == w,
            Some(final(self).completed_log().last().job) == old(
                self,
            ).workers_current_job(w as int),
            final(self).completed_log().drop_last() == old(self).completed_log(),
            final(self).backlog() == old(self).backlog(),
            final(self).submitted_log() == old(self).submitted_log(),
            final(self).delivered_log() == old(self).delivered_log(),
            forall|i: int|
                0 <= i < final(self).worker_count() && i != w ==> final(self).phase_of(i) == old(
                    self,
                ).phase_of(i),
    {
        let ghost pre = *self;
        let mut wk = self.workers[w];
        let job = wk.complete();
        self.workers.set(w, wk);
        self.finished.push(Completion { job, by: w });
        proof {
            let ghost old_wk = pre.workers@[w as int];
            lemma_in_flight_update(pre.workers@, w as int, wk);
            assert(held_job(wk) =~= Multiset::empty());
            assert(in_flight(pre.workers@) =~= in_flight(self.workers@).add(held_job(old_wk)));
            assert(self.completed_jobs() =~= pre.completed_jobs().push(job));
            pre.completed_jobs().to_multiset_ensures();
            assert(self.completed_jobs().to_multiset() =~= pre.completed_jobs().to_multiset()
                .insert(job));
            assert(self.delivered@.to_multiset() =~= self.completed_jobs().to_multiset().add(
                in_flight(self.workers@),
            ));
            assert(self.finished@.drop_last() =~= pre.finished@);
        }
    }

    /// The job worker `w` currently holds, for contracts.
    pub closed spec fn workers_current_job(&self, w: int) -> Option<u64> {
        self.workers@[w].current_job()
    }

    /// Graceful teardown. Relinquishes the producing handle, which closes
    /// the queue; lets every in-flight job run to completion; drains the
    /// whole backlog; and retires every worker. Nothing submitted is
    /// abandoned: on return the completed jobs are exactly the submitted
    /// jobs, and the completions recorded before teardown are untouched.
    pub fn close(&mut self)
        requires
            old(self).wf(),
            old(self).accepting(),
        ensures
            final(self).wf(),
            final(self).is_shut_down(),
            final(self).worker_count() == old(self).worker_count(),
            final(self).submitted_log() == old(self).submitted_log(),
            final(self).completed_log().len() >= old(self).completed_log().len(),
            final(self).completed_log().take(old(self).completed_log().len() as int)
                == old(self).completed_log(),
            final(self).completed_jobs().to_multiset()
                == final(self).submitted_log().to_multiset(),
            final(self).delivered_log() == final(self).submitted_log(),
    {
        let ghost pre = *self;
        let ghost n0 = self.finished@.len();
        // Step one: drop the producing handle, so the queue refuses new work
        // and blocked receives will see the closed signal once drained.
        self.queue.close();
        // Step two: every worker finishes the job it is already running.
        let size = self.workers.len();
        let mut w: usize = 0;
        while w < size
            invariant
                self.wf(),
                !self.accepting(),
                size == self.worker_count(),
                w <= size,
                forall|i: int| 0 <= i < w ==> !(self.phase_of(i) is Executing),
                forall|i: int| 0 <= i < size ==> !(self.phase_of(i) is Terminated),
                self.submitted_log() == pre.submitted_log(),
                self.backlog() == pre.backlog(),
                self.finished@.len() >= n0,
                self.finished@.take(n0 as int) == pre.finished@,
            decreases size - w,
        {
            let ph = self.worker_phase(w);
            if ph == WorkerPhase::Executing {
                let ghost before = self.finished@;
                self.finish(w);
                proof {
                    assert(self.finished@.take(n0 as int) =~= before.take(n0 as int));
                }
            }
            w = w + 1;
        }
        // Step three: the workers drain the backlog in FIFO order.
        while self.pending_count() > 0
            invariant
                self.wf(),
                !self.accepting(),
                size == self.worker_count(),
                size >= 1,
                forall|i: int| 0 <= i < size ==> !(self.phase_of(i) is Executing),
                forall|i: int| 0 <= i < size ==> !(self.phase_of(i) is Terminated),
                self.submitted_log() == pre.submitted_log(),
                self.finished@.len() >= n0,
                self.finished@.take(n0 as int) == pre.finished@,
            decreases self.backlog().len(),
        {
            let ghost before = self.finished@;
            self.dispatch(0);
            self.finish(0);
            proof {
                assert(self.finished@.take(n0 as int) =~= before.take(n0 as int));
            }
        }
        // Step four: each worker observes the closed queue, leaves its loop,
        // and is joined.
        let mut w: usize = 0;
        while w < size
            invariant
                self.wf(),
                !self.accepting(),
                size == self.worker_count(),
                w <= size,
                self.backlog().len() == 0,
                forall|i: int| 0 <= i < w ==> self.phase_of(i) is Terminated,
                forall|i: int| w <= i < size ==> self.phase_of(i) is WaitingForJob,
                self.submitted_log() == pre.submitted_log(),
                self.finished@.len() >= n0,
                self.finished@.take(n0 as int) == pre.finished@,
            decreases size - w,
        {
            self.retire(w);
            w = w + 1;
        }
        proof {
            self.lemma_drained_accounting();
            assert(self.delivered@ =~= self.submitted@);
        }
    }

    /// Worker `w` observes the closed, drained queue and terminates.
    fn retire(&mut self, w: usize)
        requires
            old(self).wf(),
            !old(self).accepting(),
            old(self).backlog().len() == 0,
            w < old(self).worker_count(),
            old(self).phase_of(w as int) is WaitingForJob,
        ensures
            final(self).wf(),
            !final(self).accepting(),
            final(self).worker_count() == old(self).worker_count(),
            final(self).backlog() == old(self).backlog(),
            final(self).submitted_log() == old(self).submitted_log(),
            final(self).delivered_log() == old(self).delivered_log(),
            final(self).completed_log() == old(self).completed_log(),
            final(self).phase_of(w as int) is Terminated,
            forall|i: int|
                0 <= i < final(self).worker_count() && i != w ==> final(self).phase_of(i) == old(
                    self,
                ).phase_of(i),
    {
        let ghost pre = *self;
        let msg = self.queue.try_recv();
        match msg {
            Some(m) => {
                let mut wk = self.workers[w];
                let _action = wk.receive(m);
                self.workers.set(w, wk);
                proof {
                    let ghost old_wk = pre.workers@[w as int];
                    lemma_in_flight_update(pre.workers@, w as int, wk);
                    assert(held_job(wk) =~= Multiset::empty());
                    assert(held_job(old_wk) =~= Multiset::empty());
                    assert forall|v: u64|
                        in_flight(self.workers@).count(v) == in_flight(pre.workers@).count(
                            v,
                        ) by {
                        assert(in_flight(pre.workers@.update(w as int, wk)).add(
                            held_job(old_wk),
                        ).count(v) == in_flight(pre.workers@).add(held_job(wk)).count(v));
                    }
                    assert(in_flight(self.workers@) =~= in_flight(pre.workers@));
                    assert(self.delivered@.to_multiset() =~= self.completed_jobs().to_multiset()
                        .add(in_flight(self.workers@)));
                }
            }
            None => {
                proof {
                    assert(false);
                }
            }
        }
    }

    /// Once the pool is quiescent — nothing pending, nobody executing — the
    /// completed jobs account for everything submitted.
    proof fn lemma_drained_accounting(&self)
        requires
            self.wf(),
            self.backlog().len() == 0,
            forall|i: int| 0 <= i < self.worker_count() ==> !(self.phase_of(i) is Executing),
        ensures
            self.completed_jobs().to_multiset() == self.submitted_log().to_multiset(),
    {
        assert forall|i: int|
            0 <= i < self.workers@.len() implies (#[trigger] self.workers@[i].current_job())
            is None by {
            assert(!(self.phase_of(i) is Executing));
            assert(self.workers@[i].wf());
        }
        lemma_in_flight_empty(self.workers@);
        assert(self.submitted@ =~= self.delivered@);
        assert(self.completed_jobs().to_multiset() =~= self.delivered@.to_multiset());
    }

    /// Exec view of one worker's phase, for the embedding program and tests.
    pub fn worker_phase(&self, w: usize) -> (r: WorkerPhase)
        requires
            w < self.worker_count(),
        ensures
            r == self.phase_of(w as int),
    {
        self.workers[w].phase
    }

    /// How many jobs sit in the backlog, not yet taken by a worker.
    pub fn pending_count(&self) -> (r: usize)
        ensures
            r == self.backlog().len(),
    {
        self.queue.items.len()
    }

    /// How many workers the pool owns.
    pub fn size(&self) -> (r: usize)
        ensures
            r == self.worker_count(),
    {
        self.workers.len()
    }

    /// Whether the producing handle is still live.
    pub fn is_accepting(&self) -> (r: bool)
        ensures
            r == self.accepting(),
    {
        self.queue.open
    }

    /// How many completions the pool has recorded.
    pub fn completed_count(&self) -> (r: usize)
        ensures
            r == self.completed_log().len(),
    {
        self.finished.len()
    }

    /// The completion records, oldest first.
    pub fn completions(&self) -> (r: &Vec<Completion>)
        ensures
            r@ == self.completed_log(),
    {
        &self.finished
    }
}

/// Every job submitted to a pool is executed exactly once, by exactly one
/// worker: after teardown the multiset of completed jobs is exactly the
/// multiset of submitted jobs, and each completion names a single worker.
pub proof fn lemma_exactly_once(p: &ThreadPool)
    requires
        p.wf(),
        p.is_shut_down(),
    ensures
        p.completed_jobs().to_multiset() == p.submitted_log().to_multiset(),
        forall|k: int|
            0 <= k < p.completed_log().len() ==> (#[trigger] p.completed_log()[k]).by
                < p.worker_count(),
{
    p.lemma_drained_accounting();
}

/// Jobs execute side by side: when one worker has taken a job and a
/// second worker takes the next one, both stand in `Executing` at the same
/// time — the first delivery does not wait for the second job to finish.
pub proof fn lemma_two_in_flight(p0: ThreadPool, p1: ThreadPool, p2: ThreadPool, a: int, b: int)
    requires
        ThreadPool::dispatch_step(p0, p1, a),
        ThreadPool::dispatch_step(p1, p2, b),
        a != b,
    ensures
        p2.phase_of(a) is Executing,
        p2.phase_of(b) is Executing,
{
}

/// Teardown is terminal: a shut-down pool accepts nothing, holds nothing,
/// and every worker has terminated — and the worker state machine never
/// leaves `Terminated`.
pub proof fn lemma_teardown_terminal(p: &ThreadPool)
    requires
        p.wf(),
        p.is_shut_down(),
    ensures
        !p.accepting(),
        p.backlog().len() == 0,
        forall|i: int| 0 <= i < p.worker_count() ==> p.phase_of(i) is Terminated,
        forall|post: WorkerPhase| !phase_step(WorkerPhase::Terminated, post),
{
    lemma_terminated_absorbing();
}

} // verus!
