use vstd::prelude::*;

use crate::engine::RawConnection;

verus! {

/// A query waiting for, or holding, its key's connection.
#[derive(Debug)]
pub struct Request {
    pub ticket: u64,
    pub query: String,
}

/// The abstract state of a worker.
pub ghost struct WorkerView {
    /// The handle of the connection the worker owns.
    pub handle: u64,
    /// Every query submitted so far; a query's ticket is its index here.
    pub submitted: Seq<Seq<char>>,
    /// How many submitted queries have been handed out to run.
    pub started: nat,
    /// Whether the last query handed out is still running.
    pub in_flight: bool,
}

impl WorkerView {
    /// Whether a query can be handed out now: none is running and one waits.
    pub open spec fn can_start(self) -> bool {
        !self.in_flight && self.started < self.submitted.len()
    }

    /// Whether nothing runs and nothing waits.
    pub open spec fn idle(self) -> bool {
        !self.in_flight && self.started == self.submitted.len()
    }

    /// The state after `query` is submitted.
    pub open spec fn after_submit(self, query: Seq<char>) -> WorkerView {
        WorkerView { submitted: self.submitted.push(query), ..self }
    }

    /// The state after the oldest waiting query is handed out, if one can be.
    pub open spec fn after_start(self) -> WorkerView {
        if self.can_start() {
            WorkerView { started: self.started + 1, in_flight: true, ..self }
        } else {
            self
        }
    }

    /// The state after the query under `ticket` is reported finished; nothing
    /// changes unless it is the one running.
    pub open spec fn after_finish(self, ticket: int) -> WorkerView {
        if self.in_flight && ticket + 1 == self.started {
            WorkerView { in_flight: false, ..self }
        } else {
            self
        }
    }
}

/// Owns one connection and hands out the queries submitted for it one at a
/// time, in the order they were submitted.
pub struct Worker {
    connection: RawConnection,
    queue: Vec<Request>,
    in_flight: bool,
    submitted: u64,
    started: u64,
    history: Ghost<Seq<Seq<char>>>,
}

impl View for Worker {
    type V = WorkerView;

    closed spec fn view(&self) -> WorkerView {
        WorkerView {
            handle: self.connection.handle,
            submitted: self.history@,
            started: self.started as nat,
            in_flight: self.in_flight,
        }
    }
}

impl Worker {
    /// The waiting queries are exactly those submitted and not yet started,
    /// in submission order, each under its ticket.
    pub closed spec fn wf(&self) -> bool {
        &&& self.history@.len() == self.submitted
        &&& self.started <= self.submitted
        &&& self.queue@.len() == self.submitted - self.started
        &&& forall|i: int|
            0 <= i < self.queue@.len() ==> (#[trigger] self.queue@[i]).ticket == self.started + i
                && self.queue@[i].query@ == self.history@[self.started + i]
        &&& self.in_flight ==> self.started > 0
    }

    /// A worker that owns `connection` and has nothing to do.
    pub fn new(connection: RawConnection) -> (w: Worker)
        ensures
            w.wf(),
            w@ == (WorkerView {
                handle: connection.handle,
                submitted: Seq::empty(),
                started: 0,
                in_flight: false,
            }),
    {
        Worker {
            connection,
            queue: Vec::new(),
            in_flight: false,
            submitted: 0,
            started: 0,
            history: Ghost(Seq::empty()),
        }
    }

    /// The handle of the connection this worker owns.
    pub fn handle(&self) -> (h: u64)
        ensures
            h == self@.handle,
    {
        self.connection.handle
    }

    /// Whether nothing runs and nothing waits.
    pub fn is_idle(&self) -> (r: bool)
        requires
            self.wf(),
        ensures
            r == self@.idle(),
    {
        !self.in_flight && self.queue.len() == 0
    }

    /// Whether a query is running.
    pub fn is_running(&self) -> (r: bool)
        ensures
            r == self@.in_flight,
    {
        self.in_flight
    }

    /// Whether another query can be submitted without its ticket overflowing.
    pub fn can_submit(&self) -> (r: bool)
        requires
            self.wf(),
        ensures
            r == (self@.submitted.len() < u64::MAX),
    {
        self.submitted < u64::MAX
    }

    /// Queues `query` behind those already submitted; returns its ticket.
    pub fn submit(&mut self, query: String) -> (ticket: u64)
        requires
            old(self).wf(),
            old(self)@.submitted.len() < u64::MAX,
        ensures
            final(self).wf(),
            ticket == old(self)@.submitted.len(),
            final(self)@ == old(self)@.after_submit(query@),
    {
        let ticket = self.submitted;
        self.history = Ghost(self.history@.push(query@));
        self.queue.push(Request { ticket, query });
        self.submitted = self.submitted + 1;
        ticket
    }

    /// Hands out the oldest waiting query, unless one is still running.
    pub fn start(&mut self) -> (r: Option<Request>)
        requires
            old(self).wf(),
        ensures
            final(self).wf(),
            final(self)@ == old(self)@.after_start(),
            r is Some <==> old(self)@.can_start(),
            r is Some ==> r->0.ticket == old(self)@.started && r->0.query@
                == old(self)@.submitted[old(self)@.started as int],
    {
        if self.in_flight || self.queue.len() == 0 {
            return None;
        }
        let req = self.queue.remove(0);
        self.started = self.started + 1;
        self.in_flight = true;
        assert forall|i: int| 0 <= i < self.queue@.len() implies (#[trigger] self.queue@[i]).ticket
            == self.started + i && self.queue@[i].query@ == self.history@[self.started + i] by {
            assert(self.queue@[i] == old(self).queue@[i + 1]);
        }
        Some(req)
    }

    /// Records that the query under `ticket` has finished running; `false`
    /// when that query is not the one running.
    pub fn finish(&mut self, ticket: u64) -> (r: bool)
        requires
            old(self).wf(),
        ensures
            final(self).wf(),
            final(self)@ == old(self)@.after_finish(ticket as int),
            r == (old(self)@.in_flight && ticket + 1 == old(self)@.started),
    {
        if self.in_flight && ticket < u64::MAX && ticket + 1 == self.started {
            self.in_flight = false;
            true
        } else {
            false
        }
    }

    /// Stops the worker and gives back its connection for release; queries
    /// still waiting are dropped.
    pub fn shutdown(self) -> (c: RawConnection)
        requires
            self.wf(),
            !self@.in_flight,
        ensures
            c.handle == self@.handle,
    {
        self.connection
    }
}

/// The state after `queries` are submitted one after another.
pub open spec fn submit_all(w: WorkerView, queries: Seq<Seq<char>>) -> WorkerView
    decreases queries.len(),
{
    if queries.len() == 0 {
        w
    } else {
        submit_all(w.after_submit(queries[0]), queries.drop_first())
    }
}

/// The state after `k` queries are each handed out and then finished.
pub open spec fn run_and_finish(w: WorkerView, k: nat) -> WorkerView
    decreases k,
{
    if k == 0 {
        w
    } else {
        let s = w.after_start();
        run_and_finish(s.after_finish(s.started - 1), (k - 1) as nat)
    }
}

proof fn lemma_submit_all(w: WorkerView, queries: Seq<Seq<char>>)
    ensures
        submit_all(w, queries) == (WorkerView { submitted: w.submitted + queries, ..w }),
    decreases queries.len(),
{
    if queries.len() > 0 {
        lemma_submit_all(w.after_submit(queries[0]), queries.drop_first());
        assert(w.submitted.push(queries[0]) + queries.drop_first() =~= w.submitted + queries);
    }
}

proof fn lemma_run_and_finish(w: WorkerView, k: nat)
    requires
        !w.in_flight,
        w.started + k <= w.submitted.len(),
    ensures
        run_and_finish(w, k) == (WorkerView { started: w.started + k, ..w }),
    decreases k,
{
    if k > 0 {
        let s = w.after_start();
        lemma_run_and_finish(s.after_finish(s.started - 1), (k - 1) as nat);
    }
}

/// Queries run one at a time and in the order they were submitted: once
/// `queries` are submitted to a worker with nothing waiting, the query handed
/// out after `k` others have run and finished is `queries[k]`, and it is the
/// `k`-th after those that came before.
pub proof fn lemma_runs_in_submission_order(w: WorkerView, queries: Seq<Seq<char>>, k: nat)
    requires
        w.idle(),
        k < queries.len(),
    ensures
        ({
            let r = run_and_finish(submit_all(w, queries), k);
            &&& r.can_start()
            &&& r.started == w.submitted.len() + k
            &&& r.submitted[r.started as int] == queries[k as int]
            &&& !r.after_start().can_start()
        }),
{
    lemma_submit_all(w, queries);
    lemma_run_and_finish(submit_all(w, queries), k);
}

} // verus!
