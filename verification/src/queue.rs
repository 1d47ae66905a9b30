//! Bounded FIFO job queues.
//!
//! Two queues hand work from the request surface to the workers: one of
//! build jobs, one of deploy jobs.  Submitters send without blocking
//! and a full queue refuses the job; workers take from the front, so
//! jobs leave in the order they entered.  A closed queue refuses new
//! jobs but still drains what it holds.

use vstd::prelude::*;

verus! {

/// A job telling the build worker to process a submitted archive.
#[derive(Debug, Clone, Copy, PartialEq, Eq, Structural)]
pub struct BuildJob {
    /// The build to process.
    pub build_id: u128,
    /// Whether a successful build should be deployed.
    pub deploy: bool,
}

/// A job telling the deploy worker to run a built image, capturing the
/// state the build worker saw at enqueue time.
#[derive(Debug, Clone)]
pub struct DeployJob {
    /// The deployment record this job will drive.
    pub deploy_id: u128,
    /// The build whose image is deployed.
    pub build_id: u128,
    /// The logical application name.
    pub app: String,
    /// The image to run.
    pub image_reference: String,
    /// The in-container port to publish.
    pub app_port: u16,
    /// The app's active deployment when this job was prepared, if any.
    pub previous_active_deployment: Option<u128>,
}

/// Why a queue refused a job.
#[derive(Debug, Clone, Copy, PartialEq, Eq, Structural)]
pub enum QueueError {
    /// The queue already holds `capacity` jobs.
    Full,
    /// The queue was closed for shutdown.
    Closed,
}

/// A bounded FIFO handoff.
pub struct JobQueue<T> {
    items: Vec<T>,
    capacity: usize,
    closed: bool,
}

impl<T> View for JobQueue<T> {
    type V = Seq<T>;

    closed spec fn view(&self) -> Seq<T> {
        self.items@
    }
}

impl<T> JobQueue<T> {
    /// The bound this queue was created with.
    pub closed spec fn cap(&self) -> nat {
        self.capacity as nat
    }

    /// Whether the queue has been closed for shutdown.
    pub closed spec fn is_closed(&self) -> bool {
        self.closed
    }

    /// An empty, open queue holding at most `capacity` jobs.
    pub fn new(capacity: usize) -> (q: JobQueue<T>)
        ensures
            q@ == Seq::<T>::empty(),
            q.cap() == capacity,
            !q.is_closed(),
    {
        JobQueue { items: Vec::new(), capacity, closed: false }
    }

    /// How many jobs the queue holds now.
    pub fn len(&self) -> (r: usize)
        ensures
            r == self@.len(),
    {
        self.items.len()
    }

    /// Non-blocking send.  A job is appended at the back unless the
    /// queue is closed or already holds `capacity` jobs; a refused
    /// queue is left unchanged.
    pub fn try_send(&mut self, item: T) -> (r: Result<(), QueueError>)
        ensures
            old(self).is_closed() ==> r == Err::<(), QueueError>(QueueError::Closed)
                && *final(self) == *old(self),
            !old(self).is_closed() && old(self)@.len() >= old(self).cap() ==> r == Err::<(), QueueError>(QueueError::Full)
                && *final(self) == *old(self),
            !old(self).is_closed() && old(self)@.len() < old(self).cap() ==> r == Ok::<(), QueueError>(())
                && final(self)@ == old(self)@.push(item),
            final(self).cap() == old(self).cap(),
            final(self).is_closed() == old(self).is_closed(),
    {
        if self.closed {
            Err(QueueError::Closed)
        } else if self.items.len() >= self.capacity {
            Err(QueueError::Full)
        } else {
            self.items.push(item);
            Ok(())
        }
    }

    /// Non-blocking receive.  Takes the job at the front; `None` means
    /// the queue is empty now.
    pub fn try_recv(&mut self) -> (r: Option<T>)
        ensures
            old(self)@.len() > 0 ==> (r matches Some(x) && x == old(self)@[0]
                && final(self)@ == old(self)@.drop_first()),
            old(self)@.len() == 0 ==> r is None && *final(self) == *old(self),
            final(self).cap() == old(self).cap(),
            final(self).is_closed() == old(self).is_closed(),
    {
        if self.items.len() == 0 {
            None
        } else {
            let x = self.items.remove(0);
            Some(x)
        }
    }

    /// Closes the queue: new jobs are refused, held jobs still drain.
    pub fn close(&mut self)
        ensures
            final(self)@ == old(self)@,
            final(self).cap() == old(self).cap(),
            final(self).is_closed(),
    {
        self.closed = true;
    }
}

/// FIFO law: after sending `x` and then `y` to an open queue with room
/// for both, the next two receives yield `x` and then `y`.
pub proof fn lemma_queue_fifo<T>(contents: Seq<T>, x: T, y: T)
    ensures
        ({
            let after = contents.push(x).push(y);
            &&& after[contents.len() as int] == x
            &&& after.drop_first().len() > 0
            &&& contents.len() == 0 ==> after[0] == x && after.drop_first()[0] == y
        }),
{
    let after = contents.push(x).push(y);
    assert(after[contents.len() as int] == x);
    if contents.len() == 0 {
        assert(after.drop_first()[0] == after[1]);
    }
}

} // verus!
