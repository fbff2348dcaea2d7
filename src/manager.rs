//! The coordinator: the worker fleet it launched and the subscribers it publishes
//! backend changes to.
//!
//! Starting a worker process and sending a push are done by the caller; this
//! module decides which worker to start next, what to send and to whom, and what
//! each finished push does to the registry.
use vstd::prelude::*;
use crate::registry::{Registry, PushOutcome, SubscriptionHandle};
use crate::wire::{encode, frame_of, BackendChangeEvent, Operation};

verus! {

/// The executable a worker process runs: this program, started in worker mode.
pub fn weldr_path() -> (r: String)
    ensures
        r@ == "weldr"@,
{
    "weldr".to_owned()
}

/// A worker process started by the coordinator.
#[derive(Clone, Copy, Debug, PartialEq, Eq, Structural)]
pub struct Worker {
    pub id: u64,
    pub pid: i32,
}

/// True when the workers of `w` carry the ids 0, 1, 2, ... in order.
pub open spec fn sequential_ids(w: Seq<Worker>) -> bool {
    forall|i: int| 0 <= i < w.len() ==> #[trigger] w[i].id == i
}

/// Progress of starting a fleet of workers, one at a time.
pub struct WorkerLaunch {
    count: u64,
    workers: Vec<Worker>,
}

impl WorkerLaunch {
    /// How many workers the fleet is to have.
    pub closed spec fn count(&self) -> u64 {
        self.count
    }

    /// The workers started so far.
    pub closed spec fn started(&self) -> Seq<Worker> {
        self.workers@
    }

    /// The launch's invariant: workers 0 to n-1 started, n not above the count.
    pub open spec fn wf(&self) -> bool {
        &&& sequential_ids(self.started())
        &&& self.started().len() <= self.count()
    }

    /// A launch of `count` workers with none started yet.
    pub fn new(count: u64) -> (r: Self)
        ensures
            r.wf(),
            r.count() == count,
            r.started().len() == 0,
    {
        WorkerLaunch { count, workers: Vec::new() }
    }

    /// The id of the worker to start next, or `None` when all have been started.
    pub fn next_id(&self) -> (r: Option<u64>)
        requires
            self.wf(),
        ensures
            self.started().len() < self.count() ==> r == Some(self.started().len() as u64),
            self.started().len() >= self.count() ==> r is None,
    {
        let n = self.workers.len();
        if (n as u64) < self.count {
            Some(n as u64)
        } else {
            None
        }
    }

    /// Records that the next worker was started as process `pid`.
    pub fn started_as(&mut self, pid: i32) -> (w: Worker)
        requires
            old(self).wf(),
            old(self).started().len() < old(self).count(),
        ensures
            final(self).wf(),
            final(self).count() == old(self).count(),
            w == (Worker { id: old(self).started().len() as u64, pid }),
            final(self).started() == old(self).started().push(w),
    {
        let w = Worker { id: self.workers.len() as u64, pid };
        self.workers.push(w);
        w
    }

    /// Ends the launch once every worker was started, giving the coordinator with
    /// that fleet and no subscribers yet.
    pub fn finish<C>(self) -> (m: Manager<C>)
        requires
            self.wf(),
            self.started().len() == self.count(),
        ensures
            m.wf(),
            m.workers() == self.started(),
            m.registry().slots().len() == 0,
            m.registry().next_id() == 0,
    {
        Manager { workers: self.workers, subscribers: Registry::new() }
    }
}

/// What one broadcast round sends: the payload, and the subscribers to push it to.
pub struct Broadcast {
    pub payload: Vec<u8>,
    pub targets: Vec<u64>,
}

/// The coordinator's state: its workers and its subscription registry.
pub struct Manager<C> {
    workers: Vec<Worker>,
    subscribers: Registry<C>,
}

impl<C> Manager<C> {
    /// The worker fleet.
    pub closed spec fn workers(&self) -> Seq<Worker> {
        self.workers@
    }

    /// The subscription registry.
    pub closed spec fn registry(&self) -> Registry<C> {
        self.subscribers
    }

    /// The coordinator's invariant.
    pub open spec fn wf(&self) -> bool {
        &&& sequential_ids(self.workers())
        &&& self.registry().wf()
    }

    /// The worker processes, in order of id.
    pub fn workers_started(&self) -> (r: &Vec<Worker>)
        ensures
            r@ == self.workers(),
    {
        &self.workers
    }

    /// The subscription registry, to read.
    pub fn subscriptions(&self) -> (r: &Registry<C>)
        ensures
            *r == self.registry(),
    {
        &self.subscribers
    }

    /// Handles a `subscribe` call: registers the caller's connection under a fresh id.
    pub fn subscribe(&mut self, conn: C) -> (h: SubscriptionHandle)
        requires
            old(self).wf(),
            old(self).registry().next_id() < u64::MAX,
        ensures
            final(self).wf(),
            final(self).workers() == old(self).workers(),
            Registry::subscribed(&old(self).registry(), &final(self).registry(), conn, h),
    {
        self.subscribers.subscribe(conn)
    }

    /// Releases a subscription; a no-op when its entry is already gone.
    pub fn revoke(&mut self, handle: &SubscriptionHandle) -> (found: bool)
        requires
            old(self).wf(),
        ensures
            final(self).wf(),
            final(self).workers() == old(self).workers(),
            Registry::removed(&old(self).registry(), &final(self).registry(), handle.id, found),
    {
        self.subscribers.revoke(handle)
    }

    /// Asks every worker to add `url` to its pool: builds the payload of an add
    /// event and starts a broadcast round over the registry.
    pub fn publish_new_server(&mut self, url: String) -> (b: Broadcast)
        requires
            old(self).wf(),
        ensures
            final(self).wf(),
            final(self).workers() == old(self).workers(),
            b.payload@ == frame_of(Operation::Add, url@),
            Registry::round_started(&old(self).registry(), &final(self).registry(), b.targets@),
    {
        let event = BackendChangeEvent::add(url);
        let payload = encode(&event);
        let targets = self.subscribers.begin_broadcast();
        Broadcast { payload, targets }
    }

    /// Records the end of a push to subscriber `id`.
    pub fn push_finished(&mut self, id: u64, delivered: bool) -> (r: PushOutcome)
        requires
            old(self).wf(),
        ensures
            final(self).wf(),
            final(self).workers() == old(self).workers(),
            Registry::push_completed(
                &old(self).registry(),
                &final(self).registry(),
                id,
                delivered,
                r,
            ),
    {
        self.subscribers.complete_push(id, delivered)
    }
}

} // verus!
