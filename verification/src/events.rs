//! The lifecycle event fan-out.
//!
//! A bounded multi-subscriber broadcast: publishing appends the update to
//! every subscriber's queue; a full queue drops its oldest update and marks
//! the subscriber lagged, so producers never wait. A lagged subscriber is
//! told so once, before it reads on.

use vstd::prelude::*;

use crate::errors::AppError;
use crate::types::ProofStatus;
use crate::types::ProofUpdate;
use crate::types::TransactionStatus;
use crate::types::TransactionUpdate;
use crate::types::WebSocketUpdate;

verus! {

/// What a subscriber sees when it reads.
#[derive(Debug, Clone)]
pub enum RecvOutcome {
    /// Nothing queued right now.
    Empty,
    /// Updates were dropped since the last read.
    Lagged,
    /// The oldest queued update.
    Update(WebSocketUpdate),
}

/// One subscriber's pending updates, oldest first.
pub struct Subscriber {
    pub queue: Vec<WebSocketUpdate>,
    pub lagged: bool,
}

/// A bounded broadcast channel with per-subscriber queues.
pub struct EventBus {
    capacity: usize,
    subscribers: Vec<Subscriber>,
}

/// Copies an option of a string.
fn clone_message(m: &Option<String>) -> (r: Option<String>)
    ensures
        r == *m,
{
    match m {
        Some(s) => Some(s.clone()),
        None => None,
    }
}

/// Copies an update.
pub fn clone_update(u: &WebSocketUpdate) -> (r: WebSocketUpdate)
    ensures
        r == *u,
{
    match u {
        WebSocketUpdate::Transaction(t) => WebSocketUpdate::Transaction(
            TransactionUpdate {
                tx_id: t.tx_id.clone(),
                status: t.status,
                message: clone_message(&t.message),
            },
        ),
        WebSocketUpdate::Proof(p) => WebSocketUpdate::Proof(
            ProofUpdate {
                proof_id: p.proof_id.clone(),
                status: p.status,
                message: clone_message(&p.message),
                num_transactions: p.num_transactions,
            },
        ),
    }
}

/// The queues after one update is published: appended where there is
/// room, the oldest dropped first where there is none.
pub open spec fn published_queues(
    qs: Seq<Seq<WebSocketUpdate>>,
    cap: usize,
    u: WebSocketUpdate,
) -> Seq<Seq<WebSocketUpdate>> {
    Seq::new(
        qs.len(),
        |i: int| if qs[i].len() < cap {
            qs[i].push(u)
        } else {
            qs[i].subrange(1, qs[i].len() as int).push(u)
        },
    )
}

impl EventBus {
    /// The per-subscriber queue bound.
    pub closed spec fn capacity_spec(self) -> usize {
        self.capacity
    }

    /// The subscribers' queues.
    pub closed spec fn queues_spec(self) -> Seq<Seq<WebSocketUpdate>> {
        self.subscribers@.map_values(|s: Subscriber| s.queue@)
    }

    /// Which subscribers have lost updates since they last read.
    pub closed spec fn lagged_spec(self) -> Seq<bool> {
        self.subscribers@.map_values(|s: Subscriber| s.lagged)
    }

    /// Queues never hold more than the capacity, and every queue has its
    /// lag flag.
    pub open spec fn wf(self) -> bool {
        &&& self.capacity_spec() >= 1
        &&& self.lagged_spec().len() == self.queues_spec().len()
        &&& forall|i: int|
            0 <= i < self.queues_spec().len() ==> (#[trigger] self.queues_spec()[i]).len()
                <= self.capacity_spec()
    }

    /// A bus with no subscribers yet.
    pub fn new(capacity: usize) -> (r: EventBus)
        requires
            capacity >= 1,
        ensures
            r.wf(),
            r.capacity_spec() == capacity,
            r.queues_spec().len() == 0,
            r.lagged_spec().len() == 0,
    {
        EventBus { capacity, subscribers: Vec::new() }
    }

    /// How many subscribers are connected.
    pub fn subscriber_count(&self) -> (r: usize)
        ensures
            r == self.queues_spec().len(),
    {
        self.subscribers.len()
    }

    /// Connects a new subscriber, which will see only updates published
    /// from now on; returns its handle.
    pub fn subscribe(&mut self) -> (r: usize)
        requires
            old(self).wf(),
        ensures
            final(self).wf(),
            final(self).capacity_spec() == old(self).capacity_spec(),
            r == old(self).queues_spec().len(),
            final(self).queues_spec() == old(self).queues_spec().push(Seq::empty()),
            final(self).lagged_spec() == old(self).lagged_spec().push(false),
    {
        let id: usize = self.subscribers.len();
        self.subscribers.push(Subscriber { queue: Vec::new(), lagged: false });
        proof {
            assert(self.queues_spec() =~= old(self).queues_spec().push(Seq::empty()));
            assert(self.lagged_spec() =~= old(self).lagged_spec().push(false));
        }
        id
    }

    /// Publishes an update to every subscriber: appended to a queue with
    /// room; with the queue full, the oldest update is dropped first and
    /// the subscriber is marked lagged. The publisher never waits.
    pub fn publish(&mut self, u: &WebSocketUpdate)
        requires
            old(self).wf(),
        ensures
            final(self).wf(),
            final(self).capacity_spec() == old(self).capacity_spec(),
            final(self).queues_spec().len() == old(self).queues_spec().len(),
            forall|i: int|
                0 <= i < old(self).queues_spec().len() ==> (#[trigger] final(self).queues_spec()[i])
                    == (if old(self).queues_spec()[i].len() < old(self).capacity_spec() {
                    old(self).queues_spec()[i].push(*u)
                } else {
                    old(self).queues_spec()[i].subrange(
                        1,
                        old(self).queues_spec()[i].len() as int,
                    ).push(*u)
                }),
            forall|i: int|
                0 <= i < old(self).queues_spec().len() ==> (#[trigger] final(self).lagged_spec()[i])
                    == (if old(self).queues_spec()[i].len() < old(self).capacity_spec() {
                    old(self).lagged_spec()[i]
                } else {
                    true
                }),
            final(self).queues_spec() == published_queues(
                old(self).queues_spec(),
                old(self).capacity_spec(),
                *u,
            ),
    {
        let n: usize = self.subscribers.len();
        let ghost pre_queues = self.queues_spec();
        let ghost pre_lagged = self.lagged_spec();
        let ghost cap = self.capacity;
        let mut i: usize = 0;
        while i < n
            invariant
                i <= n,
                n == self.subscribers@.len(),
                pre_queues.len() == n,
                pre_lagged.len() == n,
                cap == self.capacity,
                cap >= 1,
                pre_queues == old(self).queues_spec(),
                pre_lagged == old(self).lagged_spec(),
                cap == old(self).capacity_spec(),
                forall|j: int|
                    0 <= j < pre_queues.len() ==> (#[trigger] pre_queues[j]).len() <= cap,
                forall|j: int|
                    i <= j < n ==> (#[trigger] self.subscribers@[j]).queue@ == pre_queues[j] && (
                    self.subscribers@[j]).lagged == pre_lagged[j],
                forall|j: int|
                    0 <= j < i ==> (#[trigger] self.subscribers@[j]).queue@ == (if pre_queues[
                        j
                    ].len() < cap {
                        pre_queues[j].push(*u)
                    } else {
                        pre_queues[j].subrange(1, pre_queues[j].len() as int).push(*u)
                    }) && (self.subscribers@[j]).lagged == (if pre_queues[j].len() < cap {
                        pre_lagged[j]
                    } else {
                        true
                    }),
            decreases n - i,
        {
            let copy = clone_update(u);
            let qlen: usize = self.subscribers[i].queue.len();
            if qlen < self.capacity {
                let sub = &mut self.subscribers;
                push_to_subscriber(sub, i, copy, false);
            } else {
                let sub = &mut self.subscribers;
                push_to_subscriber(sub, i, copy, true);
            }
            i = i + 1;
        }
        proof {
            assert(self.queues_spec().len() == old(self).queues_spec().len());
            assert forall|j: int| 0 <= j < old(self).queues_spec().len() implies (
            #[trigger] final(self).queues_spec()[j]) == (if old(self).queues_spec()[j].len()
                < old(self).capacity_spec() {
                old(self).queues_spec()[j].push(*u)
            } else {
                old(self).queues_spec()[j].subrange(
                    1,
                    old(self).queues_spec()[j].len() as int,
                ).push(*u)
            }) by {
                assert(self.queues_spec()[j] == self.subscribers@[j].queue@);
            }
            assert forall|j: int| 0 <= j < old(self).queues_spec().len() implies (
            #[trigger] final(self).lagged_spec()[j]) == (if old(self).queues_spec()[j].len()
                < old(self).capacity_spec() {
                old(self).lagged_spec()[j]
            } else {
                true
            }) by {
                assert(self.lagged_spec()[j] == self.subscribers@[j].lagged);
            }
            assert(self.queues_spec() =~= published_queues(
                old(self).queues_spec(),
                old(self).capacity_spec(),
                *u,
            ));
        }
    }

    /// Reads a subscriber's next outcome: the lag signal first, once; then
    /// queued updates oldest first; nothing when the queue is empty.
    pub fn recv(&mut self, sub: usize) -> (r: RecvOutcome)
        requires
            old(self).wf(),
            sub < old(self).queues_spec().len(),
        ensures
            final(self).wf(),
            final(self).capacity_spec() == old(self).capacity_spec(),
            final(self).queues_spec().len() == old(self).queues_spec().len(),
            forall|j: int|
                0 <= j < old(self).queues_spec().len() && j != sub ==> (#[trigger] final(self)
                    .queues_spec()[j]) == old(self).queues_spec()[j] && final(self).lagged_spec()[j]
                    == old(self).lagged_spec()[j],
            old(self).lagged_spec()[sub as int] ==> r is Lagged && final(self).lagged_spec()[sub as int] == false && final(self).queues_spec()[sub as int] == old(self).queues_spec()[sub as int],
            !old(self).lagged_spec()[sub as int] && old(self).queues_spec()[sub as int].len() == 0
                ==> r is Empty && *final(self) == *old(self),
            !old(self).lagged_spec()[sub as int] && old(self).queues_spec()[sub as int].len() > 0
                ==> r == RecvOutcome::Update(old(self).queues_spec()[sub as int][0]) && final(self)
                .queues_spec()[sub as int] == old(self).queues_spec()[sub as int].subrange(
                1,
                old(self).queues_spec()[sub as int].len() as int,
            ) && final(self).lagged_spec()[sub as int] == false,
    {
        let lagged: bool = self.subscribers[sub].lagged;
        if lagged {
            clear_lag(&mut self.subscribers, sub);
            proof {
                assert(self.queues_spec() =~= old(self).queues_spec());
            }
            RecvOutcome::Lagged
        } else if self.subscribers[sub].queue.len() == 0 {
            RecvOutcome::Empty
        } else {
            let u = pop_front(&mut self.subscribers, sub);
            proof {
                assert(forall|j: int|
                    0 <= j < self.queues_spec().len() && j != sub
                        ==> (#[trigger] self.queues_spec()[j]) == old(self).queues_spec()[j]);
            }
            RecvOutcome::Update(u)
        }
    }
}

/// Appends to one subscriber's queue, dropping the oldest entry first when
/// asked to.
fn push_to_subscriber(subs: &mut Vec<Subscriber>, i: usize, u: WebSocketUpdate, drop_oldest: bool)
    requires
        i < old(subs)@.len(),
        drop_oldest ==> old(subs)@[i as int].queue@.len() > 0,
    ensures
        final(subs)@.len() == old(subs)@.len(),
        forall|j: int|
            0 <= j < old(subs)@.len() && j != i ==> (#[trigger] final(subs)@[j]) == old(subs)@[j],
        !drop_oldest ==> final(subs)@[i as int].queue@ == old(subs)@[i as int].queue@.push(u)
            && final(subs)@[i as int].lagged == old(subs)@[i as int].lagged,
        drop_oldest ==> final(subs)@[i as int].queue@ == old(subs)@[i as int].queue@.subrange(
            1,
            old(subs)@[i as int].queue@.len() as int,
        ).push(u) && final(subs)@[i as int].lagged == true,
{
    let s = &mut subs[i];
    if drop_oldest {
        s.queue.remove(0);
        s.queue.push(u);
        s.lagged = true;
        proof {
            assert(final(subs)@[i as int].queue@ =~= old(subs)@[i as int].queue@.subrange(
                1,
                old(subs)@[i as int].queue@.len() as int,
            ).push(u));
        }
    } else {
        s.queue.push(u);
    }
}

/// Clears a subscriber's lag flag.
fn clear_lag(subs: &mut Vec<Subscriber>, i: usize)
    requires
        i < old(subs)@.len(),
    ensures
        final(subs)@.len() == old(subs)@.len(),
        forall|j: int|
            0 <= j < old(subs)@.len() && j != i ==> (#[trigger] final(subs)@[j]) == old(subs)@[j],
        final(subs)@[i as int].queue@ == old(subs)@[i as int].queue@,
        final(subs)@[i as int].lagged == false,
{
    let s = &mut subs[i];
    s.lagged = false;
}

/// Takes the oldest queued update of a subscriber.
fn pop_front(subs: &mut Vec<Subscriber>, i: usize) -> (r: WebSocketUpdate)
    requires
        i < old(subs)@.len(),
        old(subs)@[i as int].queue@.len() > 0,
    ensures
        final(subs)@.len() == old(subs)@.len(),
        forall|j: int|
            0 <= j < old(subs)@.len() && j != i ==> (#[trigger] final(subs)@[j]) == old(subs)@[j],
        r == old(subs)@[i as int].queue@[0],
        final(subs)@[i as int].queue@ == old(subs)@[i as int].queue@.subrange(
            1,
            old(subs)@[i as int].queue@.len() as int,
        ),
        final(subs)@[i as int].lagged == false,
{
    let s = &mut subs[i];
    s.lagged = false;
    s.queue.remove(0)
}

/// Builds and publishes a transaction lifecycle update; with nobody
/// subscribed there is nothing to deliver and the send is refused, as a
/// broadcast with no receivers is.
pub fn publish_transaction_update(
    bus: &mut EventBus,
    tx_id: String,
    status: TransactionStatus,
    message: Option<String>,
) -> (r: Result<(), AppError>)
    requires
        old(bus).wf(),
    ensures
        final(bus).wf(),
        old(bus).queues_spec().len() == 0 ==> r is Err && *final(bus) == *old(bus) && (r matches
            Err(e) ==> e is WebSocketError),
        old(bus).queues_spec().len() > 0 ==> r is Ok && final(bus).queues_spec().len()
            == old(bus).queues_spec().len() && forall|i: int|
            0 <= i < old(bus).queues_spec().len() ==> (#[trigger] final(bus).queues_spec()[i])
                == (if old(bus).queues_spec()[i].len() < old(bus).capacity_spec() {
                old(bus).queues_spec()[i].push(
                    WebSocketUpdate::Transaction(TransactionUpdate { tx_id, status, message }),
                )
            } else {
                old(bus).queues_spec()[i].subrange(
                    1,
                    old(bus).queues_spec()[i].len() as int,
                ).push(WebSocketUpdate::Transaction(TransactionUpdate { tx_id, status, message }))
            }),
        old(bus).queues_spec().len() > 0 ==> forall|i: int|
            0 <= i < old(bus).queues_spec().len() ==> (#[trigger] final(bus).lagged_spec()[i])
                == (if old(bus).queues_spec()[i].len() < old(bus).capacity_spec() {
                old(bus).lagged_spec()[i]
            } else {
                true
            }),
{
    let update = WebSocketUpdate::Transaction(TransactionUpdate { tx_id, status, message });
    if bus.subscriber_count() == 0 {
        return Err(AppError::WebSocketError(String::from_str("no subscribers")));
    }
    bus.publish(&update);
    Ok(())
}

/// Builds and publishes a proof lifecycle update; refused with nobody
/// subscribed, as the transaction variant is.
pub fn publish_proof_update(
    bus: &mut EventBus,
    proof_id: String,
    status: ProofStatus,
    message: Option<String>,
    num_transactions: i64,
) -> (r: Result<(), AppError>)
    requires
        old(bus).wf(),
    ensures
        final(bus).wf(),
        old(bus).queues_spec().len() == 0 ==> r is Err && *final(bus) == *old(bus) && (r matches
            Err(e) ==> e is WebSocketError),
        old(bus).queues_spec().len() > 0 ==> r is Ok && final(bus).queues_spec().len()
            == old(bus).queues_spec().len() && forall|i: int|
            0 <= i < old(bus).queues_spec().len() ==> (#[trigger] final(bus).queues_spec()[i])
                == (if old(bus).queues_spec()[i].len() < old(bus).capacity_spec() {
                old(bus).queues_spec()[i].push(
                    WebSocketUpdate::Proof(
                        ProofUpdate { proof_id, status, message, num_transactions },
                    ),
                )
            } else {
                old(bus).queues_spec()[i].subrange(1, old(bus).queues_spec()[i].len() as int).push(
                    WebSocketUpdate::Proof(
                        ProofUpdate { proof_id, status, message, num_transactions },
                    ),
                )
            }),
{
    let update = WebSocketUpdate::Proof(
        ProofUpdate { proof_id, status, message, num_transactions },
    );
    if bus.subscriber_count() == 0 {
        return Err(AppError::WebSocketError(String::from_str("no subscribers")));
    }
    bus.publish(&update);
    Ok(())
}

} // verus!
