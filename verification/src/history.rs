//! What a subscriber sees over a run of operations on the hub: the order of
//! arrival, what a late subscriber does not get, what a slow one loses, and
//! that no subscriber can disturb another.

use vstd::prelude::*;
use crate::hub::{Delivery, HubState, Mailbox, PublishOutcome};
use crate::models::TodoUpdate;

verus! {

/// One operation on the hub.
pub enum Step {
    /// A new subscriber joins.
    Subscribe,
    /// The subscriber with this identifier leaves.
    Unsubscribe(u64),
    /// An update is published.
    Publish(TodoUpdate),
    /// The subscriber with this identifier reads its mailbox.
    Receive(u64),
}

/// The state after one operation.
pub open spec fn apply(state: HubState, step: Step) -> HubState {
    match step {
        Step::Subscribe => if state.can_subscribe() {
            state.subscribe()
        } else {
            state
        },
        Step::Unsubscribe(id) => state.unsubscribe(id),
        Step::Publish(update) => state.publish(update),
        Step::Receive(id) => state.receive(id),
    }
}

/// The state after a run of operations.
pub open spec fn run(start: HubState, steps: Seq<Step>) -> HubState
    decreases steps.len(),
{
    if steps.len() == 0 {
        start
    } else {
        apply(run(start, steps.drop_last()), steps.last())
    }
}

/// The updates that a run publishes, in order.
pub open spec fn published(steps: Seq<Step>) -> Seq<TodoUpdate>
    decreases steps.len(),
{
    if steps.len() == 0 {
        Seq::empty()
    } else {
        let before = published(steps.drop_last());
        match steps.last() {
            Step::Publish(update) => before.push(update),
            _ => before,
        }
    }
}

/// The updates that the reads of `id` return during a run, in order.
pub open spec fn observed(start: HubState, steps: Seq<Step>, id: u64) -> Seq<TodoUpdate>
    decreases steps.len(),
{
    if steps.len() == 0 {
        Seq::empty()
    } else {
        let before = observed(start, steps.drop_last(), id);
        let state = run(start, steps.drop_last());
        if steps.last() == Step::Receive(id) {
            match state.next_delivery(id) {
                Delivery::Update(update) => before.push(update),
                _ => before,
            }
        } else {
            before
        }
    }
}

/// How many times during a run an update found the mailbox of `id` full.
pub open spec fn overflows(start: HubState, steps: Seq<Step>, id: u64) -> nat
    decreases steps.len(),
{
    if steps.len() == 0 {
        0
    } else {
        let before = overflows(start, steps.drop_last(), id);
        let state = run(start, steps.drop_last());
        if steps.last() is Publish && state.is_subscribed(id) && state.boxes[id].pending.len()
            >= state.capacity {
            before + 1
        } else {
            before
        }
    }
}

/// Whether `id` is never unsubscribed during a run.
pub open spec fn keeps(steps: Seq<Step>, id: u64) -> bool {
    forall|i: int| 0 <= i < steps.len() ==> steps[i] != Step::Unsubscribe(id)
}

/// Whether an operation is a read or the leaving of `id`.
pub open spec fn concerns(step: Step, id: u64) -> bool {
    step == Step::Receive(id) || step == Step::Unsubscribe(id)
}

/// A run without the reads and the leaving of `id`.
pub open spec fn without(steps: Seq<Step>, id: u64) -> Seq<Step>
    decreases steps.len(),
{
    if steps.len() == 0 {
        Seq::empty()
    } else {
        let before = without(steps.drop_last(), id);
        if concerns(steps.last(), id) {
            before
        } else {
            before.push(steps.last())
        }
    }
}

/// The run that publishes the given updates and does nothing else.
pub open spec fn burst(updates: Seq<TodoUpdate>) -> Seq<Step> {
    Seq::new(updates.len(), |i: int| Step::Publish(updates[i]))
}

/// The last `n` elements of `all`.
pub open spec fn newest(all: Seq<TodoUpdate>, n: int) -> Seq<TodoUpdate> {
    all.subrange(all.len() - n, all.len() as int)
}

/// Whether `tail` is the end of `all`.
pub open spec fn is_tail(tail: Seq<TodoUpdate>, all: Seq<TodoUpdate>) -> bool {
    tail.len() <= all.len() && tail == newest(all, tail.len() as int)
}

/// Every operation leaves a well-formed state well-formed.
pub proof fn lemma_apply_wf(state: HubState, step: Step)
    requires
        state.wf(),
    ensures
        apply(state, step).wf(),
{
    let next = apply(state, step);
    assert forall|id: u64| #[trigger] next.boxes.dom().contains(id) implies id < next.issued
        && next.boxes[id].pending.len() <= next.capacity by {
        match step {
            Step::Subscribe => {
                if id != state.issued {
                    assert(state.boxes.dom().contains(id));
                }
            },
            Step::Unsubscribe(gone) => {
                assert(state.boxes.dom().contains(id));
            },
            Step::Publish(update) => {
                assert(state.boxes.dom().contains(id));
            },
            Step::Receive(reader) => {
                assert(state.boxes.dom().contains(id));
            },
        }
    }
}

/// Every run leaves a well-formed state well-formed.
pub proof fn lemma_run_wf(start: HubState, steps: Seq<Step>)
    requires
        start.wf(),
    ensures
        run(start, steps).wf(),
    decreases steps.len(),
{
    if steps.len() > 0 {
        lemma_run_wf(start, steps.drop_last());
        lemma_apply_wf(run(start, steps.drop_last()), steps.last());
    }
}

/// First in, first out, each update once. A subscriber that is never
/// unsubscribed and whose mailbox never overflows gets every update that is
/// published, in the order of publishing: what it has read so far, followed
/// by what still waits for it, is what waited at the start followed by what
/// the run published.
pub proof fn law_fifo(start: HubState, steps: Seq<Step>, id: u64)
    requires
        start.wf(),
        start.is_subscribed(id),
        start.boxes[id].missed == 0,
        keeps(steps, id),
        overflows(start, steps, id) == 0,
    ensures
        run(start, steps).is_subscribed(id),
        run(start, steps).boxes[id].missed == 0,
        observed(start, steps, id) + run(start, steps).boxes[id].pending
            == start.boxes[id].pending + published(steps),
    decreases steps.len(),
{
    if steps.len() == 0 {
        assert(observed(start, steps, id) + start.boxes[id].pending =~= start.boxes[id].pending
            + published(steps));
    } else {
        let earlier = steps.drop_last();
        let step = steps.last();
        assert(keeps(earlier, id)) by {
            assert forall|i: int| 0 <= i < earlier.len() implies earlier[i] != Step::Unsubscribe(
                id,
            ) by {
                assert(earlier[i] == steps[i]);
            }
        }
        law_fifo(start, earlier, id);
        lemma_run_wf(start, earlier);
        let state = run(start, earlier);
        let seen = observed(start, earlier, id);
        let waiting = state.boxes[id].pending;
        let sent = published(earlier);
        let first = start.boxes[id].pending;
        assert(seen + waiting == first + sent);
        assert(state.boxes.dom().contains(id));
        assert(step == steps[steps.len() - 1]);
        match step {
            Step::Subscribe => {},
            Step::Unsubscribe(gone) => {
                assert(gone != id);
            },
            Step::Publish(update) => {
                assert(waiting.len() < state.capacity);
                assert(seen + waiting.push(update) =~= (seen + waiting).push(update));
                assert(first + sent.push(update) =~= (first + sent).push(update));
            },
            Step::Receive(reader) => {
                if reader == id && waiting.len() > 0 {
                    assert(seen.push(waiting[0]) + waiting.drop_first() =~= seen + waiting);
                }
            },
        }
    }
}

/// No replay. Whatever happened before, a new subscriber starts with an empty
/// mailbox, and from then on gets what is published after it joined and
/// nothing else.
pub proof fn law_late_subscriber(start: HubState, earlier: Seq<Step>, later: Seq<Step>)
    requires
        start.wf(),
        run(start, earlier).can_subscribe(),
        keeps(later, run(start, earlier).issued),
        overflows(run(start, earlier).subscribe(), later, run(start, earlier).issued) == 0,
    ensures
        ({
            let id = run(start, earlier).issued;
            let joined = run(start, earlier).subscribe();
            &&& joined.boxes[id] == Mailbox::empty()
            &&& observed(joined, later, id) + run(joined, later).boxes[id].pending == published(
                later,
            )
        }),
{
    let id = run(start, earlier).issued;
    let joined = run(start, earlier).subscribe();
    lemma_run_wf(start, earlier);
    lemma_apply_wf(run(start, earlier), Step::Subscribe);
    law_fifo(joined, later, id);
    assert(Seq::<TodoUpdate>::empty() + published(later) =~= published(later));
}

/// Publishing to nobody changes nothing and says so.
pub proof fn law_publish_without_subscribers(state: HubState, update: TodoUpdate)
    requires
        !state.has_subscribers(),
    ensures
        state.publish_outcome() == PublishOutcome::NoSubscribers,
        state.publish(update) == state,
        state.publish(update).subscribe().boxes[state.issued] == Mailbox::empty(),
{
    assert forall|id: u64| !state.boxes.dom().contains(id) by {}
    assert(state.publish(update).boxes =~= state.boxes);
}

/// Whether two states differ at most in the mailbox of `id`.
pub open spec fn agree_except(left: HubState, right: HubState, id: u64) -> bool {
    &&& left.capacity == right.capacity
    &&& left.issued == right.issued
    &&& forall|other: u64|
        other != id ==> (#[trigger] left.boxes.dom().contains(other)
            <==> right.boxes.dom().contains(other))
    &&& forall|other: u64|
        other != id && #[trigger] left.boxes.dom().contains(other) ==> left.boxes[other]
            == right.boxes[other]
}

proof fn lemma_apply_agree(left: HubState, right: HubState, step: Step, id: u64)
    requires
        agree_except(left, right, id),
    ensures
        agree_except(apply(left, step), apply(right, step), id),
        concerns(step, id) ==> agree_except(apply(left, step), right, id),
{
    let l = apply(left, step);
    let r = apply(right, step);
    assert forall|other: u64| other != id implies (#[trigger] l.boxes.dom().contains(other)
        <==> r.boxes.dom().contains(other)) by {
        assert(left.boxes.dom().contains(other) <==> right.boxes.dom().contains(other));
    }
    assert forall|other: u64|
        other != id && #[trigger] l.boxes.dom().contains(other) implies l.boxes[other]
            == r.boxes[other] by {
        assert(left.boxes.dom().contains(other) <==> right.boxes.dom().contains(other));
    }
    if concerns(step, id) {
        assert forall|other: u64| other != id implies (#[trigger] l.boxes.dom().contains(other)
            <==> right.boxes.dom().contains(other)) by {
            assert(left.boxes.dom().contains(other) <==> right.boxes.dom().contains(other));
        }
        assert forall|other: u64|
            other != id && #[trigger] l.boxes.dom().contains(other) implies l.boxes[other]
                == right.boxes[other] by {
            assert(left.boxes.dom().contains(other) <==> right.boxes.dom().contains(other));
        }
    }
}

/// Isolation. What one subscriber reads, and whether it stays or leaves,
/// changes nothing for another: the other has the same mailbox and has read
/// the same updates as in the run without those operations.
pub proof fn law_isolation(start: HubState, steps: Seq<Step>, id: u64, other: u64)
    requires
        id != other,
    ensures
        agree_except(run(start, steps), run(start, without(steps, id)), id),
        run(start, steps).is_subscribed(other) == run(start, without(steps, id)).is_subscribed(
            other,
        ),
        run(start, steps).is_subscribed(other) ==> run(start, steps).boxes[other] == run(
            start,
            without(steps, id),
        ).boxes[other],
        observed(start, steps, other) == observed(start, without(steps, id), other),
    decreases steps.len(),
{
    if steps.len() > 0 {
        let earlier = steps.drop_last();
        let step = steps.last();
        law_isolation(start, earlier, id, other);
        let left = run(start, earlier);
        let right = run(start, without(earlier, id));
        lemma_apply_agree(left, right, step, id);
        assert(left.boxes.dom().contains(other) <==> right.boxes.dom().contains(other));
        if !concerns(step, id) {
            let kept = without(earlier, id).push(step);
            assert(kept.drop_last() =~= without(earlier, id));
            assert(kept.last() == step);
            assert(left.next_delivery(other) == right.next_delivery(other));
        }
    }
    let l = run(start, steps);
    let r = run(start, without(steps, id));
    assert(l.boxes.dom().contains(other) <==> r.boxes.dom().contains(other));
}

/// What a run that only publishes has published.
pub proof fn lemma_burst(updates: Seq<TodoUpdate>)
    ensures
        published(burst(updates)) == updates,
        forall|id: u64| keeps(burst(updates), id),
    decreases updates.len(),
{
    if updates.len() > 0 {
        lemma_burst(updates.drop_last());
        assert(burst(updates).drop_last() =~= burst(updates.drop_last()));
        assert(published(burst(updates)) =~= updates);
    } else {
        assert(published(burst(updates)) =~= updates);
    }
}

/// The newest survive. However a subscriber falls behind, it stays
/// subscribed, and what waits for it is always the end of what was there at
/// the start followed by what was published since: updates are lost at the
/// old end only.
pub proof fn law_newest_wait(start: HubState, steps: Seq<Step>, id: u64)
    requires
        start.wf(),
        start.is_subscribed(id),
        keeps(steps, id),
    ensures
        run(start, steps).is_subscribed(id),
        is_tail(run(start, steps).boxes[id].pending, start.boxes[id].pending + published(steps)),
    decreases steps.len(),
{
    let first = start.boxes[id].pending;
    if steps.len() == 0 {
        assert(first + published(steps) =~= first);
        assert(newest(first, first.len() as int) =~= first);
    } else {
        let earlier = steps.drop_last();
        let step = steps.last();
        assert(keeps(earlier, id)) by {
            assert forall|i: int| 0 <= i < earlier.len() implies earlier[i] != Step::Unsubscribe(
                id,
            ) by {
                assert(earlier[i] == steps[i]);
            }
        }
        law_newest_wait(start, earlier, id);
        lemma_run_wf(start, earlier);
        let state = run(start, earlier);
        let waiting = state.boxes[id].pending;
        let all = first + published(earlier);
        assert(state.boxes.dom().contains(id));
        assert(step == steps[steps.len() - 1]);
        match step {
            Step::Subscribe => {},
            Step::Unsubscribe(gone) => {
                assert(gone != id);
            },
            Step::Publish(update) => {
                let after = run(start, steps).boxes[id].pending;
                let grown = first + published(steps);
                assert(grown =~= all.push(update));
                assert(after =~= newest(grown, after.len() as int));
            },
            Step::Receive(reader) => {
                let after = run(start, steps).boxes[id].pending;
                assert(after =~= newest(all, after.len() as int));
            },
        }
    }
}

/// After a burst of updates that nobody read in between, a mailbox holds as
/// many of the newest as it has room for, and the subscriber is still there.
pub proof fn law_burst_keeps_newest(start: HubState, updates: Seq<TodoUpdate>, id: u64)
    requires
        start.wf(),
        start.is_subscribed(id),
    ensures
        run(start, burst(updates)).is_subscribed(id),
        ({
            let all = start.boxes[id].pending + updates;
            let kept = if all.len() <= start.capacity {
                all.len() as int
            } else {
                start.capacity as int
            };
            run(start, burst(updates)).boxes[id].pending == newest(all, kept)
        }),
{
    lemma_burst(updates);
    law_newest_wait(start, burst(updates), id);
    lemma_burst_length(start, updates, id);
}

proof fn lemma_burst_length(start: HubState, updates: Seq<TodoUpdate>, id: u64)
    requires
        start.wf(),
        start.is_subscribed(id),
    ensures
        run(start, burst(updates)).capacity == start.capacity,
        run(start, burst(updates)).is_subscribed(id),
        ({
            let total = start.boxes[id].pending.len() + updates.len();
            run(start, burst(updates)).boxes[id].pending.len() == if total <= start.capacity {
                total as int
            } else {
                start.capacity as int
            }
        }),
    decreases updates.len(),
{
    if updates.len() > 0 {
        lemma_burst_length(start, updates.drop_last(), id);
        assert(burst(updates).drop_last() =~= burst(updates.drop_last()));
        let state = run(start, burst(updates.drop_last()));
        assert(state.boxes.dom().contains(id));
        assert(burst(updates).last() == Step::Publish(updates.last()));
    }
}

} // verus!
