//! The work-stealing task queue: a per-worker local deque over a shared
//! multi-producer multi-consumer channel.
//!
//! Local work is taken last-in first-out for cache locality and
//! depth-first fork/join bias. When a worker's local deque grows to more
//! than twice the shared backlog, half of it overflows into the shared
//! channel to feed idle workers. Shutdown circulates a single `Finish`
//! token that every worker re-publishes before returning.
//!
//! The shared channel is concurrent, so nothing can be promised about
//! which item a receive yields; the contracts instead account precisely
//! for the local deque and for what each handle has moved to the shared
//! channel, so that a handle provably neither loses nor duplicates work.

use vstd::prelude::*;

verus! {

#[verifier::external_type_specification]
#[verifier::external_body]
#[verifier::reject_recursive_types(T)]
pub struct ExSender<T>(flume::Sender<T>);

#[verifier::external_type_specification]
#[verifier::external_body]
#[verifier::reject_recursive_types(T)]
pub struct ExReceiver<T>(flume::Receiver<T>);

/// What a single attempt to take work yields.
#[derive(Debug)]
pub enum ControlFlow<T> {
    /// An item of work.
    Continue(T),
    /// No work right now; ask again.
    Retry,
    /// The queue is shutting down.
    Finish,
}

/// Why a channel receive yielded no item.
#[derive(Clone, Copy, Debug, PartialEq, Eq, Structural)]
pub enum RecvFailure {
    /// Nothing arrived within the timeout.
    Timeout,
    /// Every sender is gone and the channel is empty.
    Disconnected,
}

/// What a worker does with one channel receive.
#[derive(Debug)]
pub enum NextStep<T> {
    /// An item arrived: hand it out.
    Deliver(T),
    /// Nothing right now (a timeout, or a stray retry): report `Retry`.
    TryAgain,
    /// Shutdown: report `Finish`, re-publishing the token first when one
    /// was actually received, so every other worker sees it too. A dead
    /// channel shuts down without a token to pass on.
    ShutDown { republish: bool },
}

/// The policy [`Handle::next`] applies to a channel receive: an item is
/// delivered; a timeout (or a stray retry marker) asks the caller to try
/// again; a `Finish` token shuts down and is re-published; a
/// disconnected channel shuts down with nothing to re-publish.
pub fn classify_receive<T>(received: Result<ControlFlow<T>, RecvFailure>) -> (r: NextStep<T>)
    ensures
        (received matches Ok(ControlFlow::Continue(t)) ==> (r matches NextStep::Deliver(d) && d
            == t)),
        (received matches Ok(ControlFlow::Retry) ==> r is TryAgain),
        (received matches Err(RecvFailure::Timeout) ==> r is TryAgain),
        (received matches Ok(ControlFlow::Finish) ==> (r matches NextStep::ShutDown {
            republish,
        } && republish)),
        (received matches Err(RecvFailure::Disconnected) ==> (r matches NextStep::ShutDown {
            republish,
        } && !republish)),
{
    match received {
        Ok(ControlFlow::Continue(t)) => NextStep::Deliver(t),
        Ok(ControlFlow::Retry) => NextStep::TryAgain,
        Ok(ControlFlow::Finish) => NextStep::ShutDown { republish: true },
        Err(RecvFailure::Timeout) => NextStep::TryAgain,
        Err(RecvFailure::Disconnected) => NextStep::ShutDown { republish: false },
    }
}

/// What the shutdown drain does with one channel receive.
#[derive(Clone, Copy, Debug, PartialEq, Eq, Structural)]
pub enum DrainStep {
    /// A leftover work item was drained; keep going.
    Drained,
    /// A `Finish` token came back (or the channel is dead): stop.
    Stop,
    /// Nothing yet; keep waiting.
    Wait,
}

/// The policy [`TaskQueue::finish`] applies while draining: leftover
/// items are discarded until a `Finish` token is seen (or the channel
/// dies); a timeout only waits longer.
pub fn drain_step<T>(received: Result<ControlFlow<T>, RecvFailure>) -> (r: DrainStep)
    ensures
        (received matches Ok(ControlFlow::Continue(_)) ==> r is Drained),
        (received matches Ok(ControlFlow::Finish) ==> r is Stop),
        (received matches Err(RecvFailure::Disconnected) ==> r is Stop),
        (received matches Err(RecvFailure::Timeout) ==> r is Wait),
        (received matches Ok(ControlFlow::Retry) ==> r is Wait),
{
    match received {
        Ok(ControlFlow::Continue(_)) => DrainStep::Drained,
        Ok(ControlFlow::Finish) => DrainStep::Stop,
        Ok(ControlFlow::Retry) => DrainStep::Wait,
        Err(RecvFailure::Timeout) => DrainStep::Wait,
        Err(RecvFailure::Disconnected) => DrainStep::Stop,
    }
}

/// How many items [`Handle::push`] moves to the shared channel when the
/// local deque overflows: half of it, at least one.
pub open spec fn overflow_amount(len: int) -> int {
    if len / 2 > 1 {
        len / 2
    } else {
        1
    }
}

/// The overflow trigger of [`Handle::push`]: local work is moved to the
/// shared channel iff the deque has grown to more than twice the shared
/// backlog.
pub fn should_overflow(local_len: usize, backlog: usize) -> (r: bool)
    ensures
        r == (local_len > 2 * backlog),
{
    if backlog <= usize::MAX / 2 {
        local_len > backlog * 2
    } else {
        false
    }
}

/// Relies on flume::unbounded: a fresh unbounded channel, returning its
/// sending and receiving endpoints.
#[verifier::external_body]
fn channel_unbounded<T>() -> (flume::Sender<ControlFlow<T>>, flume::Receiver<ControlFlow<T>>) {
    flume::unbounded()
}

/// Relies on flume::Sender::send: on an unbounded channel it does not
/// block, and it fails only when every receiver has been dropped. The
/// result says whether the item was accepted.
#[verifier::external_body]
fn channel_send<T>(sender: &flume::Sender<ControlFlow<T>>, item: ControlFlow<T>) -> bool {
    sender.send(item).is_ok()
}

/// Relies on flume::Receiver::recv_timeout: an item from the channel, or
/// the reason none arrived (timed out, or all senders gone and the
/// channel empty).
#[verifier::external_body]
fn channel_recv_timeout<T>(
    receiver: &flume::Receiver<ControlFlow<T>>,
    millis: u64,
) -> Result<ControlFlow<T>, RecvFailure> {
    match receiver.recv_timeout(core::time::Duration::from_millis(millis)) {
        Ok(item) => Ok(item),
        Err(flume::RecvTimeoutError::Timeout) => Err(RecvFailure::Timeout),
        Err(flume::RecvTimeoutError::Disconnected) => Err(RecvFailure::Disconnected),
    }
}

/// Relies on flume::Sender::len: how many items sat in the channel at
/// some moment during the call.
#[verifier::external_body]
fn channel_backlog<T>(sender: &flume::Sender<ControlFlow<T>>) -> usize {
    sender.len()
}

/// Relies on Clone for flume::Sender: a new endpoint of the same channel.
#[verifier::external_body]
fn channel_clone_sender<T>(sender: &flume::Sender<ControlFlow<T>>) -> flume::Sender<
    ControlFlow<T>,
> {
    sender.clone()
}

/// Relies on Clone for flume::Receiver: a new endpoint of the same
/// channel.
#[verifier::external_body]
fn channel_clone_receiver<T>(receiver: &flume::Receiver<ControlFlow<T>>) -> flume::Receiver<
    ControlFlow<T>,
> {
    receiver.clone()
}

/// The shared ends of the queue. Workers interact through [`Handle`]s;
/// the queue itself is kept by the owner for shutdown.
#[verifier::reject_recursive_types(T)]
pub struct TaskQueue<T> {
    sender: flume::Sender<ControlFlow<T>>,
    receiver: flume::Receiver<ControlFlow<T>>,
    signalled: Ghost<bool>,
}

/// What a handle holds: its local deque (top last), everything it has
/// ever moved into the shared channel (oldest first), and how many
/// `Finish` tokens it has observed and re-published.
pub struct HandleView<T> {
    pub local: Seq<T>,
    pub sent: Seq<T>,
    pub finish_relayed: nat,
}

/// A per-worker view of the queue: a private local deque plus endpoints
/// of the shared channel. Every handle keeps its own receiving endpoint,
/// so the channel outlives the handle and its sends cannot be refused.
#[verifier::reject_recursive_types(T)]
pub struct Handle<T> {
    local_work: Vec<T>,
    sender: flume::Sender<ControlFlow<T>>,
    receiver: flume::Receiver<ControlFlow<T>>,
    shared_sent: Ghost<Seq<T>>,
    finish_relayed: Ghost<nat>,
}

impl<T> View for Handle<T> {
    type V = HandleView<T>;

    closed spec fn view(&self) -> HandleView<T> {
        HandleView {
            local: self.local_work@,
            sent: self.shared_sent@,
            finish_relayed: self.finish_relayed@,
        }
    }
}

impl<T> TaskQueue<T> {
    /// Whether [`TaskQueue::finish`] has injected the shutdown sentinel
    /// into the shared channel.
    pub closed spec fn finish_signalled(&self) -> bool {
        self.signalled@
    }

    /// A fresh queue with no work in it and no shutdown signalled.
    pub fn new() -> (r: TaskQueue<T>)
        ensures
            !r.finish_signalled(),
    {
        let (sender, receiver) = channel_unbounded();
        TaskQueue { sender, receiver, signalled: Ghost(false) }
    }

    /// A new worker handle with an empty local deque.
    pub fn handle(&self) -> (r: Handle<T>)
        ensures
            r@.local == Seq::<T>::empty(),
            r@.sent == Seq::<T>::empty(),
            r@.finish_relayed == 0,
    {
        Handle {
            local_work: Vec::new(),
            sender: channel_clone_sender(&self.sender),
            receiver: channel_clone_receiver(&self.receiver),
            shared_sent: Ghost(Seq::empty()),
            finish_relayed: Ghost(0nat),
        }
    }

    /// Shut the queue down: inject the single `Finish` sentinel into the
    /// shared channel, run `task_closer` (typically joining the worker
    /// threads), then drain remaining items until a `Finish` token comes
    /// back ([`drain_step`] decides each round). Returns the closer's
    /// result.
    pub fn finish<F: FnOnce() -> R, R>(&mut self, task_closer: F) -> (r: R)
        requires
            task_closer.requires(()),
        ensures
            task_closer.ensures((), r),
            final(self).finish_signalled(),
    {
        self.signalled = Ghost(true);
        channel_send(&self.sender, ControlFlow::Finish);
        let result = task_closer();
        let mut budget: u64 = u64::MAX;
        loop
            decreases budget,
        {
            if budget == 0 {
                break;
            }
            budget = budget - 1;
            match drain_step(channel_recv_timeout(&self.receiver, 1000)) {
                DrainStep::Stop => {
                    break;
                },
                DrainStep::Drained => {},
                DrainStep::Wait => {},
            }
        }
        result
    }
}

impl<T> Handle<T> {
    /// Append an item to the local deque; when the deque has grown to
    /// more than twice the shared backlog ([`should_overflow`]), move
    /// the oldest [`overflow_amount`] items into the shared channel. No
    /// item is lost or duplicated: the new local deque together with
    /// what was newly sent is exactly the old deque plus the item, the
    /// moved part is the oldest prefix, and it holds either nothing or
    /// exactly the overflow amount.
    pub fn push(&mut self, item: T)
        ensures
            final(self)@.finish_relayed == old(self)@.finish_relayed,
            final(self)@.sent + final(self)@.local == old(self)@.sent + old(self)@.local.push(
                item,
            ),
            ({
                let all = old(self)@.local.push(item);
                exists|k: int|
                    {
                        &&& 0 <= k <= all.len()
                        &&& (k == 0 || k == overflow_amount(all.len() as int))
                        &&& final(self)@.sent == old(self)@.sent + all.take(k)
                        &&& final(self)@.local == all.skip(k)
                    }
            }),
    {
        self.local_work.push(item);
        let backlog = channel_backlog(&self.sender);
        let ghost all = old(self)@.local.push(item);
        proof {
            assert(all.skip(0) =~= all);
            assert(old(self)@.sent + all.take(0) =~= self.shared_sent@);
        }
        if should_overflow(self.local_work.len(), backlog) {
            let amount = if self.local_work.len() / 2 > 1 {
                self.local_work.len() / 2
            } else {
                1
            };
            let mut moved: usize = 0;
            while moved < amount
                invariant
                    moved <= amount,
                    amount <= all.len(),
                    self.local_work@ == all.skip(moved as int),
                    self.shared_sent@ == old(self)@.sent + all.take(moved as int),
                    self.finish_relayed@ == old(self)@.finish_relayed,
                decreases amount - moved,
            {
                let ghost sent_before = self.shared_sent@;
                let work = self.local_work.remove(0);
                self.shared_sent = Ghost(self.shared_sent@.push(work));
                channel_send(&self.sender, ControlFlow::Continue(work));
                proof {
                    assert(self.local_work@ =~= all.skip(moved + 1));
                    assert(sent_before.push(all[moved as int]) =~= old(self)@.sent + all.take(
                        moved + 1,
                    ));
                }
                moved = moved + 1;
            }
            proof {
                assert(self@.sent == old(self)@.sent + all.take(amount as int));
                assert(self@.local == all.skip(amount as int));
                assert(all.take(amount as int) + all.skip(amount as int) =~= all);
                assert(self@.sent + self@.local =~= old(self)@.sent + all);
            }
        } else {
            proof {
                assert(self@.sent + self@.local =~= old(self)@.sent + all);
            }
        }
    }

    /// Push an item straight into the shared channel, leaving the local
    /// deque alone. Used by callers that are not workers: the initial
    /// enqueue and remote re-enqueues.
    pub fn push_nonworker(&mut self, item: T)
        ensures
            final(self)@.local == old(self)@.local,
            final(self)@.sent == old(self)@.sent.push(item),
            final(self)@.finish_relayed == old(self)@.finish_relayed,
    {
        self.shared_sent = Ghost(self.shared_sent@.push(item));
        channel_send(&self.sender, ControlFlow::Continue(item));
    }

    /// Take work without blocking for long: the newest local item if any,
    /// else one receive from the shared channel with a short timeout.
    /// `Retry` means no work right now; `Finish` means shutdown, and an
    /// observed token is re-published so other workers see it too. The
    /// `finish_relayed` count of the view grows exactly when a token is
    /// observed and re-published, and only on a call that reports
    /// `Finish` (a dead channel reports `Finish` without a relay).
    pub fn next(&mut self) -> (r: ControlFlow<T>)
        ensures
            final(self)@.sent == old(self)@.sent,
            old(self)@.local.len() > 0 ==> {
                &&& (r matches ControlFlow::Continue(t) && t == old(self)@.local.last())
                &&& final(self)@.local == old(self)@.local.drop_last()
            },
            old(self)@.local.len() == 0 ==> final(self)@.local == old(self)@.local,
            old(self)@.finish_relayed <= final(self)@.finish_relayed <= old(self)@.finish_relayed
                + 1,
            final(self)@.finish_relayed > old(self)@.finish_relayed ==> r is Finish,
    {
        match self.local_work.pop() {
            Some(local) => {
                return ControlFlow::Continue(local);
            },
            None => {},
        }
        match classify_receive(channel_recv_timeout(&self.receiver, 1)) {
            NextStep::Deliver(t) => ControlFlow::Continue(t),
            NextStep::TryAgain => ControlFlow::Retry,
            NextStep::ShutDown { republish } => {
                if republish {
                    self.finish_relayed = Ghost(self.finish_relayed@ + 1);
                    channel_send(&self.sender, ControlFlow::Finish);
                }
                ControlFlow::Finish
            },
        }
    }

    /// Take work, waiting as long as it takes: loop over [`Handle::next`]
    /// until an item or shutdown. `None` means shutdown (or, in the
    /// bounding limit, an inexhaustible number of fruitless attempts).
    pub fn wait_next(&mut self) -> (r: Option<T>)
        ensures
            final(self)@.sent == old(self)@.sent,
            old(self)@.local.len() > 0 ==> {
                &&& (r matches Some(t) && t == old(self)@.local.last())
                &&& final(self)@.local == old(self)@.local.drop_last()
            },
            old(self)@.local.len() == 0 ==> final(self)@.local == old(self)@.local,
            old(self)@.finish_relayed <= final(self)@.finish_relayed <= old(self)@.finish_relayed
                + 1,
            final(self)@.finish_relayed > old(self)@.finish_relayed ==> r is None,
    {
        let mut budget: u64 = u64::MAX;
        loop
            invariant
                self@.sent == old(self)@.sent,
                self@.local == old(self)@.local,
                self@.finish_relayed == old(self)@.finish_relayed,
                budget == u64::MAX || self@.local.len() == 0,
            decreases budget,
        {
            if budget == 0 {
                return None;
            }
            budget = budget - 1;
            match self.next() {
                ControlFlow::Retry => {},
                ControlFlow::Finish => {
                    return None;
                },
                ControlFlow::Continue(t) => {
                    return Some(t);
                },
            }
        }
    }
}

} // verus!
