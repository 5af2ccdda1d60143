//! Background detection: the task handed to a worker, the number of
//! workers, the order in which a task tries the workers' channels, and the
//! queue that hands a task to the first channel with room.
use vstd::prelude::*;
use std::sync::atomic::AtomicUsize;
use tokio::sync::mpsc::Sender;
use tokio::sync::mpsc::error::TrySendError;

verus! {

/// A request to be checked in the background.
#[derive(Debug, Clone)]
pub struct DetectionTask {
    pub request_id: String,
    pub host: String,
    pub url: String,
    pub method: String,
    pub headers: Vec<(String, String)>,
    pub cookies: Vec<(String, String)>,
    pub body: Vec<u8>,
    pub args: Vec<(String, String)>,
}

/// Workers for a machine with `cores` cores (four when unknown): two fewer,
/// at least one.
pub fn default_worker_count(cores: Option<usize>) -> (n: usize)
    ensures
        n == ({
            let c = match cores {
                Some(c) => c as int,
                None => 4,
            };
            if c - 2 >= 1 { c - 2 } else { 1 }
        }),
{
    let c = match cores {
        Some(c) => c,
        None => 4,
    };
    let n = if c >= 2 { c - 2 } else { 0 };
    if n >= 1 { n } else { 1 }
}

/// The channels a task tries, in order: starting at the round-robin
/// counter (modulo the workers) and going round once.
pub open spec fn dispatch_order_spec(counter: usize, workers: usize) -> Seq<usize> {
    Seq::new(workers as nat, |i: int| ((counter % workers + i) % (workers as int)) as usize)
}

/// The channels a task tries, in order; none without workers.
pub fn dispatch_order(counter: usize, workers: usize) -> (order: Vec<usize>)
    ensures
        workers == 0 ==> order@.len() == 0,
        workers > 0 ==> order@ == dispatch_order_spec(counter, workers),
{
    let mut order: Vec<usize> = Vec::new();
    if workers == 0 {
        return order;
    }
    let start = counter % workers;
    let mut i: usize = 0;
    while i < workers
        invariant
            workers > 0,
            start == counter % workers,
            i <= workers,
            order@ == dispatch_order_spec(counter, workers).take(i as int),
        decreases workers - i,
    {
        let idx: usize = if start < workers - i { start + i } else { i - (workers - start) };
        proof {
            assert(idx == (start + i) % (workers as int)) by (nonlinear_arith)
                requires
                    start < workers,
                    i < workers,
                    idx == if start < workers - i { start + i } else { i - (workers - start) };
        }
        order.push(idx);
        assert(order@ =~= dispatch_order_spec(counter, workers).take(i + 1));
        i = i + 1;
    }
    assert(dispatch_order_spec(counter, workers).take(workers as int) =~= dispatch_order_spec(counter, workers));
    order
}

/// A task tries every worker's channel exactly once.
pub proof fn law_dispatch_tries_each_worker_once(counter: usize, workers: usize)
    requires
        workers > 0,
    ensures
        forall|w: usize| w < workers ==> #[trigger] dispatch_order_spec(counter, workers).contains(w),
        forall|i: int, j: int| 0 <= i < j < workers ==> dispatch_order_spec(counter, workers)[i] != dispatch_order_spec(counter, workers)[j],
{
    let s = counter % workers;
    let o = dispatch_order_spec(counter, workers);
    assert forall|w: usize| w < workers implies #[trigger] o.contains(w) by {
        let i: int = if w >= s { w - s } else { w + workers - s };
        assert((s + i) % (workers as int) == w) by (nonlinear_arith)
            requires
                0 <= s < workers,
                0 <= w < workers,
                i == if w >= s { w - s } else { w + workers - s };
        assert(o[i] == w);
    }
    assert forall|i: int, j: int| 0 <= i < j < workers implies o[i] != o[j] by {
        assert((s + i) % (workers as int) != (s + j) % (workers as int)) by (nonlinear_arith)
            requires
                0 <= s < workers,
                0 <= i < j < workers;
    }
}

/// `tokio::sync::mpsc::Sender`, the sending half of a worker's channel.
#[verifier::external_type_specification]
#[verifier::external_body]
#[verifier::reject_recursive_types(T)]
pub struct ExSender<T>(tokio::sync::mpsc::Sender<T>);

/// What became of a task offered to one channel.
pub enum Offer {
    /// The channel took it.
    Sent,
    /// The channel had no room; the task comes back.
    Full(DetectionTask),
    /// The channel's worker is gone; the task comes back.
    Closed(DetectionTask),
}

/// Offers a task to a channel without waiting (`Sender::try_send`). Whether
/// the channel takes it depends on its state at that moment; a refused task
/// comes back unchanged.
#[verifier::external_body]
fn offer(sender: &Sender<DetectionTask>, task: DetectionTask) -> (r: Offer)
    ensures
        r matches Offer::Full(t) ==> t == task,
        r matches Offer::Closed(t) ==> t == task,
{
    match sender.try_send(task) {
        Ok(()) => Offer::Sent,
        Err(TrySendError::Full(t)) => Offer::Full(t),
        Err(TrySendError::Closed(t)) => Offer::Closed(t),
    }
}

/// Places per worker channel for a queue of `queue_size` shared by
/// `workers` workers: an equal share, at least one.
pub fn per_worker_capacity(queue_size: usize, workers: usize) -> (n: usize)
    requires
        workers > 0,
    ensures
        n == if queue_size / workers >= 1 { queue_size / workers } else { 1 },
{
    let share = queue_size / workers;
    if share >= 1 { share } else { 1 }
}

/// Background detection tasks, handed round-robin to the workers' channels.
pub struct AsyncDetectionQueue {
    senders: Vec<Sender<DetectionTask>>,
    next_worker: AtomicUsize,
}

impl AsyncDetectionQueue {
    /// The number of workers.
    pub closed spec fn workers(&self) -> nat {
        self.senders@.len()
    }

    /// A queue over the given channels, starting at the first.
    pub fn new(senders: Vec<Sender<DetectionTask>>) -> (q: Self)
        ensures
            q.workers() == senders@.len(),
    {
        AsyncDetectionQueue { senders, next_worker: AtomicUsize::new(0) }
    }

    /// The number of workers.
    pub fn worker_count(&self) -> (n: usize)
        ensures
            n == self.workers(),
    {
        self.senders.len()
    }

    /// Takes the next turn of the round-robin counter.
    fn next_turn(&self) -> usize {
        self.next_worker.fetch_add(1, std::sync::atomic::Ordering::Relaxed)
    }

    /// Hands a task to a worker without waiting: the channels are tried in
    /// round-robin order from the next turn (see [`dispatch_order_spec`]),
    /// each once, until one takes the task. Without workers, or when every
    /// channel is full or closed, the task is refused with the reason.
    pub fn submit(&self, task: DetectionTask) -> (r: Result<(), String>)
        ensures
            self.workers() == 0 ==> (r matches Err(e) && e@ == "No detection workers available"@),
            self.workers() > 0 ==> (r matches Err(e) ==> e@ == "All detection worker channels are full"@),
    {
        let count = self.senders.len();
        if count == 0 {
            return Err(String::from_str("No detection workers available"));
        }
        let order = dispatch_order(self.next_turn(), count);
        let mut pending = task;
        let mut i: usize = 0;
        while i < order.len()
            invariant
                count == self.senders@.len(),
                count > 0,
                order@.len() == count,
                forall|j: int| 0 <= j < order@.len() ==> #[trigger] order@[j] < count,
                i <= order@.len(),
            decreases order.len() - i,
        {
            proof {
                assert(order@[i as int] < count);
            }
            match offer(&self.senders[order[i]], pending) {
                Offer::Sent => return Ok(()),
                Offer::Full(t) => pending = t,
                Offer::Closed(t) => pending = t,
            }
            i = i + 1;
        }
        Err(String::from_str("All detection worker channels are full"))
    }
}

} // verus!
