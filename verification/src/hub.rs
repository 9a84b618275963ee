//! The hub: publishers hand it updates, and it puts a copy of each into the
//! mailbox of every subscriber. A mailbox is bounded; when it is full the
//! oldest update in it gives way, and the subscriber is told on its next read
//! how many it missed.

use std::collections::VecDeque;
use vstd::prelude::*;
use crate::models::TodoUpdate;

verus! {

/// What `publish` reports to the publisher.
#[derive(Clone, Copy, Debug, PartialEq, Eq, Structural)]
pub enum PublishOutcome {
    /// At least one subscriber was there to take the update.
    Delivered,
    /// Nobody was subscribed; the update is gone.
    NoSubscribers,
}

/// What a subscriber gets when it reads its mailbox.
#[derive(Clone, Copy, Debug, PartialEq, Eq, Structural)]
pub enum Delivery {
    /// The oldest update that is waiting.
    Update(TodoUpdate),
    /// This many updates were dropped since the last read; the ones that are
    /// still waiting follow on the next reads.
    Lagged(u64),
    /// Nothing is waiting.
    Empty,
    /// The identifier names no subscriber.
    Closed,
}

/// What waits for one subscriber.
pub struct Mailbox {
    /// The updates that were delivered and not yet read, oldest first.
    pub pending: Seq<TodoUpdate>,
    /// How many updates were dropped since the subscriber last heard of it.
    pub missed: u64,
}

impl Mailbox {
    /// The mailbox of a new subscriber.
    pub open spec fn empty() -> Mailbox {
        Mailbox { pending: Seq::empty(), missed: 0 }
    }

    /// The mailbox after one more update was delivered to it, with room for
    /// `capacity` updates.
    pub open spec fn deliver(self, update: TodoUpdate, capacity: usize) -> Mailbox {
        if self.pending.len() < capacity {
            Mailbox { pending: self.pending.push(update), missed: self.missed }
        } else {
            Mailbox {
                pending: self.pending.drop_first().push(update),
                missed: if self.missed < u64::MAX {
                    (self.missed + 1) as u64
                } else {
                    self.missed
                },
            }
        }
    }

    /// What the next read returns.
    pub open spec fn next(self) -> Delivery {
        if self.missed > 0 {
            Delivery::Lagged(self.missed)
        } else if self.pending.len() > 0 {
            Delivery::Update(self.pending[0])
        } else {
            Delivery::Empty
        }
    }

    /// The mailbox after one read.
    pub open spec fn after_read(self) -> Mailbox {
        if self.missed > 0 {
            Mailbox { pending: self.pending, missed: 0 }
        } else if self.pending.len() > 0 {
            Mailbox { pending: self.pending.drop_first(), missed: 0 }
        } else {
            self
        }
    }
}

/// The hub as a mathematical value.
pub struct HubState {
    /// How many updates a mailbox holds at most.
    pub capacity: usize,
    /// How many identifiers were handed out so far.
    pub issued: u64,
    /// The mailbox of each current subscriber, by its identifier.
    pub boxes: Map<u64, Mailbox>,
}

impl HubState {
    /// A hub without subscribers.
    pub open spec fn fresh(capacity: usize) -> HubState {
        HubState { capacity, issued: 0, boxes: Map::empty() }
    }

    /// What every state that the operations reach has in common.
    pub open spec fn wf(self) -> bool {
        &&& self.capacity > 0
        &&& forall|id: u64| #[trigger]
            self.boxes.dom().contains(id) ==> id < self.issued && self.boxes[id].pending.len()
                <= self.capacity
    }

    /// Whether `id` names a current subscriber.
    pub open spec fn is_subscribed(self, id: u64) -> bool {
        self.boxes.dom().contains(id)
    }

    /// Whether anybody is subscribed.
    pub open spec fn has_subscribers(self) -> bool {
        exists|id: u64| self.boxes.dom().contains(id)
    }

    /// Whether an identifier is left for one more subscriber.
    pub open spec fn can_subscribe(self) -> bool {
        self.issued < u64::MAX
    }

    /// The hub after one more subscriber joined, under the identifier `self.issued`.
    pub open spec fn subscribe(self) -> HubState {
        HubState {
            capacity: self.capacity,
            issued: (self.issued + 1) as u64,
            boxes: self.boxes.insert(self.issued, Mailbox::empty()),
        }
    }

    /// The hub after a subscriber left.
    pub open spec fn unsubscribe(self, id: u64) -> HubState {
        HubState { capacity: self.capacity, issued: self.issued, boxes: self.boxes.remove(id) }
    }

    /// The hub after an update was published: every mailbox got it.
    pub open spec fn publish(self, update: TodoUpdate) -> HubState {
        HubState {
            capacity: self.capacity,
            issued: self.issued,
            boxes: Map::new(
                |id: u64| self.boxes.dom().contains(id),
                |id: u64| self.boxes[id].deliver(update, self.capacity),
            ),
        }
    }

    /// What `publish` reports in this state.
    pub open spec fn publish_outcome(self) -> PublishOutcome {
        if self.has_subscribers() {
            PublishOutcome::Delivered
        } else {
            PublishOutcome::NoSubscribers
        }
    }

    /// What a read by `id` returns.
    pub open spec fn next_delivery(self, id: u64) -> Delivery {
        if self.boxes.dom().contains(id) {
            self.boxes[id].next()
        } else {
            Delivery::Closed
        }
    }

    /// The hub after a read by `id`.
    pub open spec fn receive(self, id: u64) -> HubState {
        if self.boxes.dom().contains(id) {
            HubState {
                capacity: self.capacity,
                issued: self.issued,
                boxes: self.boxes.insert(id, self.boxes[id].after_read()),
            }
        } else {
            self
        }
    }
}

/// One subscriber as the hub keeps it.
struct Subscriber {
    id: u64,
    queue: VecDeque<TodoUpdate>,
    missed: u64,
}

impl Subscriber {
    spec fn mailbox(&self) -> Mailbox {
        Mailbox { pending: self.queue@, missed: self.missed }
    }

    fn deliver(&mut self, update: TodoUpdate, capacity: usize)
        requires
            capacity > 0,
            old(self).queue@.len() <= capacity,
        ensures
            final(self).id == old(self).id,
            final(self).mailbox() == old(self).mailbox().deliver(update, capacity),
            final(self).queue@.len() <= capacity,
    {
        broadcast use vstd::std_specs::vecdeque::axiom_spec_len;

        if self.queue.len() >= capacity {
            let _ = self.queue.pop_front();
            if self.missed < u64::MAX {
                self.missed = self.missed + 1;
            }
        }
        self.queue.push_back(update);
        assert(self.queue@ =~= old(self).mailbox().deliver(update, capacity).pending);
    }

    fn read(&mut self) -> (delivery: Delivery)
        ensures
            final(self).id == old(self).id,
            delivery == old(self).mailbox().next(),
            final(self).mailbox() == old(self).mailbox().after_read(),
            final(self).queue@.len() <= old(self).queue@.len(),
    {
        if self.missed > 0 {
            let missed = self.missed;
            self.missed = 0;
            return Delivery::Lagged(missed);
        }
        match self.queue.pop_front() {
            Some(update) => {
                assert(self.queue@ =~= old(self).queue@.drop_first());
                Delivery::Update(update)
            },
            None => Delivery::Empty,
        }
    }
}

/// The hub. One value of it serves all publishers and subscribers of a
/// process; whoever shares it between tasks puts it behind a lock.
pub struct Hub {
    capacity: usize,
    next_id: u64,
    subscribers: Vec<Subscriber>,
}

impl View for Hub {
    type V = HubState;

    closed spec fn view(&self) -> HubState {
        HubState {
            capacity: self.capacity,
            issued: self.next_id,
            boxes: Map::new(
                |id: u64| self.slot_exists(id),
                |id: u64| self.subscribers@[self.slot_of(id)].mailbox(),
            ),
        }
    }
}

impl Hub {
    /// What holds of every hub: there is room in a mailbox, identifiers are
    /// distinct and were all handed out, and no queue is longer than the
    /// capacity.
    #[verifier::type_invariant]
    spec fn inv(&self) -> bool {
        &&& self.capacity > 0
        &&& forall|i: int|
            0 <= i < self.subscribers@.len() ==> (#[trigger] self.subscribers@[i]).id
                < self.next_id && self.subscribers@[i].queue@.len() <= self.capacity
        &&& forall|i: int, j: int|
            0 <= i < j < self.subscribers@.len() ==> (#[trigger] self.subscribers@[i]).id != (
            #[trigger] self.subscribers@[j]).id
    }

    spec fn slot_exists(&self, id: u64) -> bool {
        exists|i: int| 0 <= i < self.subscribers@.len() && self.subscribers@[i].id == id
    }

    spec fn slot_of(&self, id: u64) -> int {
        choose|i: int| 0 <= i < self.subscribers@.len() && self.subscribers@[i].id == id
    }

    proof fn lemma_slot(&self, i: int)
        requires
            self.inv(),
            0 <= i < self.subscribers@.len(),
        ensures
            self.slot_exists(self.subscribers@[i].id),
            self.slot_of(self.subscribers@[i].id) == i,
    {
        let id = self.subscribers@[i].id;
        let j = self.slot_of(id);
        assert(0 <= j < self.subscribers@.len() && self.subscribers@[j].id == id);
        if j < i {
            assert(self.subscribers@[j].id != self.subscribers@[i].id);
        } else if i < j {
            assert(self.subscribers@[i].id != self.subscribers@[j].id);
        }
    }

    proof fn lemma_view_wf(&self)
        requires
            self.inv(),
        ensures
            self@.wf(),
    {
        assert forall|id: u64| #[trigger] self@.boxes.dom().contains(id) implies id < self@.issued
            && self@.boxes[id].pending.len() <= self@.capacity by {
            let i = self.slot_of(id);
            assert(self.subscribers@[i].id == id);
        }
    }

    /// Makes a hub whose mailboxes hold `capacity` updates each. A mailbox
    /// without room could not hold the newest update, so a capacity of zero is
    /// refused.
    pub fn new(capacity: usize) -> (hub: Option<Hub>)
        ensures
            capacity == 0 ==> hub is None,
            capacity > 0 ==> hub is Some && hub->Some_0@ == HubState::fresh(capacity),
    {
        if capacity == 0 {
            return None;
        }
        let hub = Hub { capacity, next_id: 0, subscribers: Vec::new() };
        assert(hub@.boxes =~= Map::<u64, Mailbox>::empty());
        Some(hub)
    }

    /// How many updates a mailbox holds at most.
    pub fn capacity(&self) -> (capacity: usize)
        ensures
            self@.wf(),
            capacity == self@.capacity,
    {
        proof {
            use_type_invariant(self);
            self.lemma_view_wf();
        }
        self.capacity
    }

    /// Tells whether anybody is subscribed.
    pub fn has_subscribers(&self) -> (any: bool)
        ensures
            self@.wf(),
            any == self@.has_subscribers(),
    {
        let any = self.subscribers.len() > 0;
        proof {
            use_type_invariant(self);
            self.lemma_view_wf();
            if any {
                self.lemma_slot(0);
                assert(self@.boxes.dom().contains(self.subscribers@[0].id));
            }
        }
        any
    }

    fn find(&self, id: u64) -> (slot: Option<usize>)
        ensures
            match slot {
                Some(i) => i < self.subscribers@.len() && self.subscribers@[i as int].id == id
                    && self.slot_exists(id) && self.slot_of(id) == i,
                None => !self.slot_exists(id),
            },
    {
        proof {
            use_type_invariant(self);
        }
        let mut i: usize = 0;
        while i < self.subscribers.len()
            invariant
                self.inv(),
                i <= self.subscribers@.len(),
                forall|j: int| 0 <= j < i ==> self.subscribers@[j].id != id,
            decreases self.subscribers@.len() - i,
        {
            if self.subscribers[i].id == id {
                proof {
                    self.lemma_slot(i as int);
                }
                return Some(i);
            }
            i += 1;
        }
        None
    }

    /// Tells whether `id` names a current subscriber.
    pub fn is_subscribed(&self, id: u64) -> (found: bool)
        ensures
            self@.wf(),
            found == self@.is_subscribed(id),
    {
        proof {
            use_type_invariant(self);
            self.lemma_view_wf();
        }
        self.find(id).is_some()
    }

    /// Registers a new subscriber and returns its identifier. Its mailbox
    /// starts empty: what was published before is not repeated. Returns `None`
    /// only when every identifier has been handed out.
    pub fn subscribe(&mut self) -> (id: Option<u64>)
        ensures
            old(self)@.wf(),
            final(self)@.wf(),
            old(self)@.can_subscribe() ==> id == Some(old(self)@.issued) && final(self)@ == old(
                self,
            )@.subscribe(),
            !old(self)@.can_subscribe() ==> id is None && final(self)@ == old(self)@,
    {
        proof {
            use_type_invariant(&*self);
            self.lemma_view_wf();
        }
        if self.next_id == u64::MAX {
            return None;
        }
        let id = self.next_id;
        let mut subscribers = Vec::new();
        std::mem::swap(&mut subscribers, &mut self.subscribers);
        subscribers.push(Subscriber { id, queue: VecDeque::new(), missed: 0 });
        self.next_id = id + 1;
        self.subscribers = subscribers;
        proof {
            let n = old(self).subscribers@.len() as int;
            assert(self.subscribers@[n].id == id);
            assert forall|k: u64| self.slot_exists(k) <==> (k == id || old(self).slot_exists(
                k,
            )) by {
                if old(self).slot_exists(k) {
                    let i = old(self).slot_of(k);
                    assert(self.subscribers@[i].id == k);
                }
                if k == id {
                    assert(self.subscribers@[n].id == k);
                }
            }
            assert forall|k: u64| #[trigger] self.slot_exists(k) implies self.subscribers@[self.slot_of(
                k,
            )].mailbox() == old(self)@.subscribe().boxes[k] by {
                let i = self.slot_of(k);
                self.lemma_slot(i);
                if k == id {
                    assert(i == n);
                    assert(self.subscribers@[n].queue@ =~= Seq::<TodoUpdate>::empty());
                } else {
                    old(self).lemma_slot(i);
                }
            }
            assert(self@.boxes =~= old(self)@.subscribe().boxes);
            self.lemma_view_wf();
        }
        Some(id)
    }

    /// Removes a subscriber, with what was waiting for it. Nobody else is
    /// touched. Returns whether `id` named a subscriber.
    pub fn unsubscribe(&mut self, id: u64) -> (removed: bool)
        ensures
            old(self)@.wf(),
            final(self)@.wf(),
            removed == old(self)@.is_subscribed(id),
            final(self)@ == old(self)@.unsubscribe(id),
    {
        proof {
            use_type_invariant(&*self);
            self.lemma_view_wf();
        }
        match self.find(id) {
            None => {
                assert(self@.boxes =~= old(self)@.unsubscribe(id).boxes);
                false
            },
            Some(slot) => {
                let mut subscribers = Vec::new();
                std::mem::swap(&mut subscribers, &mut self.subscribers);
                let _ = subscribers.remove(slot);
                proof {
                    let s = slot as int;
                    let before = old(self).subscribers@;
                    let after = subscribers@;
                    assert forall|i: int| 0 <= i < after.len() implies after[i] == before[if i
                        < s {
                        i
                    } else {
                        i + 1
                    }] by {}
                }
                self.subscribers = subscribers;
                proof {
                    let s = slot as int;
                    let before = old(self).subscribers@;
                    let after = self.subscribers@;
                    assert forall|k: u64| self.slot_exists(k) <==> (k != id && old(
                        self,
                    ).slot_exists(k)) by {
                        if self.slot_exists(k) {
                            let i = self.slot_of(k);
                            let j = if i < s {
                                i
                            } else {
                                i + 1
                            };
                            assert(before[j].id == k);
                            old(self).lemma_slot(j);
                        }
                        if k != id && old(self).slot_exists(k) {
                            let j = old(self).slot_of(k);
                            assert(j != s);
                            let i = if j < s {
                                j
                            } else {
                                j - 1
                            };
                            assert(after[i].id == k);
                        }
                    }
                    assert forall|k: u64| #[trigger] self.slot_exists(k) implies self.subscribers@[self.slot_of(
                        k,
                    )].mailbox() == old(self)@.unsubscribe(id).boxes[k] by {
                        let i = self.slot_of(k);
                        let j = if i < s {
                            i
                        } else {
                            i + 1
                        };
                        assert(before[j].id == k);
                        old(self).lemma_slot(j);
                    }
                    assert(self@.boxes =~= old(self)@.unsubscribe(id).boxes);
                    self.lemma_view_wf();
                }
                true
            },
        }
    }

    /// Hands an update to every subscriber. A subscriber whose mailbox is full
    /// loses its oldest update; the publisher is never held up. With nobody
    /// subscribed the update is dropped and the outcome says so.
    pub fn publish(&mut self, update: TodoUpdate) -> (outcome: PublishOutcome)
        ensures
            old(self)@.wf(),
            final(self)@.wf(),
            outcome == old(self)@.publish_outcome(),
            final(self)@ == old(self)@.publish(update),
    {
        proof {
            use_type_invariant(&*self);
            self.lemma_view_wf();
        }
        let capacity = self.capacity;
        let mut subscribers = Vec::new();
        std::mem::swap(&mut subscribers, &mut self.subscribers);
        let n = subscribers.len();
        let mut i: usize = 0;
        while i < n
            invariant
                n == subscribers@.len(),
                n == old(self).subscribers@.len(),
                capacity == old(self).capacity,
                old(self).inv(),
                i <= n,
                forall|j: int|
                    0 <= j < n ==> (#[trigger] subscribers@[j]).id == old(
                        self,
                    ).subscribers@[j].id && subscribers@[j].queue@.len() <= capacity,
                forall|j: int|
                    0 <= j < i ==> (#[trigger] subscribers@[j]).mailbox() == old(
                        self,
                    ).subscribers@[j].mailbox().deliver(update, capacity),
                forall|j: int|
                    i <= j < n ==> (#[trigger] subscribers@[j]).mailbox() == old(
                        self,
                    ).subscribers@[j].mailbox(),
            decreases n - i,
        {
            let subscriber = &mut subscribers[i];
            subscriber.deliver(update, capacity);
            i += 1;
        }
        self.subscribers = subscribers;
        proof {
            assert forall|k: u64| self.slot_exists(k) <==> old(self).slot_exists(k) by {
                if self.slot_exists(k) {
                    let j = self.slot_of(k);
                    assert(old(self).subscribers@[j].id == k);
                }
                if old(self).slot_exists(k) {
                    let j = old(self).slot_of(k);
                    assert(self.subscribers@[j].id == k);
                }
            }
            assert forall|k: u64| #[trigger] self.slot_exists(k) implies self.subscribers@[self.slot_of(
                k,
            )].mailbox() == old(self)@.publish(update).boxes[k] by {
                let j = self.slot_of(k);
                self.lemma_slot(j);
                assert(old(self).subscribers@[j].id == k);
                old(self).lemma_slot(j);
            }
            assert(self@.boxes =~= old(self)@.publish(update).boxes);
            if n > 0 {
                old(self).lemma_slot(0);
                assert(old(self)@.boxes.dom().contains(old(self).subscribers@[0].id));
            }
            self.lemma_view_wf();
        }
        if n > 0 {
            PublishOutcome::Delivered
        } else {
            PublishOutcome::NoSubscribers
        }
    }

    /// Reads the mailbox of `id` without waiting: the oldest update, or the
    /// number of updates that were dropped, or that nothing is there.
    pub fn try_recv(&mut self, id: u64) -> (delivery: Delivery)
        ensures
            old(self)@.wf(),
            final(self)@.wf(),
            delivery == old(self)@.next_delivery(id),
            final(self)@ == old(self)@.receive(id),
    {
        proof {
            use_type_invariant(&*self);
            self.lemma_view_wf();
        }
        match self.find(id) {
            None => Delivery::Closed,
            Some(slot) => {
                let mut subscribers = Vec::new();
                std::mem::swap(&mut subscribers, &mut self.subscribers);
                let subscriber = &mut subscribers[slot];
                let delivery = subscriber.read();
                proof {
                    assert forall|i: int|
                        0 <= i < subscribers@.len() && i != slot implies subscribers@[i] == old(
                        self,
                    ).subscribers@[i] by {}
                }
                self.subscribers = subscribers;
                proof {
                    assert forall|k: u64| self.slot_exists(k) <==> old(self).slot_exists(k) by {
                        if self.slot_exists(k) {
                            let j = self.slot_of(k);
                            assert(old(self).subscribers@[j].id == k);
                        }
                        if old(self).slot_exists(k) {
                            let j = old(self).slot_of(k);
                            assert(self.subscribers@[j].id == k);
                        }
                    }
                    assert forall|k: u64| #[trigger] self.slot_exists(k) implies self.subscribers@[self.slot_of(
                        k,
                    )].mailbox() == old(self)@.receive(id).boxes[k] by {
                        let j = self.slot_of(k);
                        self.lemma_slot(j);
                        assert(old(self).subscribers@[j].id == k);
                        old(self).lemma_slot(j);
                    }
                    assert(self@.boxes =~= old(self)@.receive(id).boxes);
                    self.lemma_view_wf();
                }
                delivery
            },
        }
    }
}

} // verus!
