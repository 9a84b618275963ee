//! What the request handlers decide: which update a change to the list
//! publishes, what is noted when nobody listens, in which form a reply goes
//! out, and how a stream begins. The handlers themselves, which talk to the
//! store and to the network, call these.

use vstd::prelude::*;
use vstd::string::*;
use crate::hub::{Hub, PublishOutcome};
use crate::models::{MutationKind, Todo, TodoUpdate};
use crate::session::{Session, SessionView, KEEP_ALIVE_SECS};
use crate::wire::{decimal, decimal_text};

verus! {

/// The form of a reply.
#[derive(Clone, Copy, Debug, PartialEq, Eq, Structural)]
pub enum ReplyFormat {
    /// A fragment of HTML, for a page that swaps it in.
    Fragment,
    /// JSON, for every other client.
    Json,
}

/// What a handler that changed the list has to do besides replying.
#[derive(Clone, Debug, PartialEq, Eq)]
pub struct Created {
    /// The line to log, if nobody was there to hear of the change.
    pub notice: Option<String>,
    /// The form in which the new record goes back to the client.
    pub format: ReplyFormat,
}

/// The update that reports the creation of a record.
pub open spec fn creation_of(id: i32) -> TodoUpdate {
    TodoUpdate { mutation_kind: MutationKind::Create, id }
}

/// The update that reports the deletion of a record.
pub open spec fn deletion_of(id: i32) -> TodoUpdate {
    TodoUpdate { mutation_kind: MutationKind::Delete, id }
}

/// The line that is logged when an update for the record `id` found nobody
/// subscribed.
pub open spec fn unheard_text(id: i32) -> Seq<char> {
    "Record with ID "@ + decimal_text(id as int)
        + " was deleted but nobody's listening to the stream!"@
}

/// Whether `notice` is what the outcome of a publish asks for: the line
/// about the record if nobody was subscribed, and nothing otherwise.
pub open spec fn notice_matches(notice: Option<String>, outcome: PublishOutcome, id: i32) -> bool {
    match outcome {
        PublishOutcome::Delivered => notice is None,
        PublishOutcome::NoSubscribers => notice is Some && notice->Some_0@ == unheard_text(id),
    }
}

/// Writes the line that is logged when an update found nobody subscribed.
pub fn unheard_notice(id: i32) -> (line: String)
    ensures
        line@ == unheard_text(id),
{
    let mut line = String::from_str("Record with ID ");
    let number = decimal(id);
    line.append(number.as_str());
    line.append(" was deleted but nobody's listening to the stream!");
    line
}

/// The line to log for the outcome of a publish, if any. Finding nobody
/// subscribed is no failure: the change to the list stands.
pub fn notice_for(outcome: PublishOutcome, id: i32) -> (notice: Option<String>)
    ensures
        notice_matches(notice, outcome, id),
{
    match outcome {
        PublishOutcome::Delivered => None,
        PublishOutcome::NoSubscribers => Some(unheard_notice(id)),
    }
}

/// Chooses the form of a reply: a fragment for a request that the page made
/// to swap the answer in, JSON otherwise.
pub fn reply_format(swap_request: bool) -> (format: ReplyFormat)
    ensures
        format == if swap_request {
            ReplyFormat::Fragment
        } else {
            ReplyFormat::Json
        },
{
    if swap_request {
        ReplyFormat::Fragment
    } else {
        ReplyFormat::Json
    }
}

/// Announces a record that the store has just created: publishes its
/// creation, once, and says what to log and how to reply.
pub fn create_todo(hub: &mut Hub, todo: &Todo, swap_request: bool) -> (created: Created)
    ensures
        old(hub)@.wf(),
        final(hub)@.wf(),
        final(hub)@ == old(hub)@.publish(creation_of(todo.id)),
        notice_matches(created.notice, old(hub)@.publish_outcome(), todo.id),
        created.format == if swap_request {
            ReplyFormat::Fragment
        } else {
            ReplyFormat::Json
        },
{
    let update = TodoUpdate { mutation_kind: MutationKind::Create, id: todo.id };
    let outcome = hub.publish(update);
    Created { notice: notice_for(outcome, todo.id), format: reply_format(swap_request) }
}

/// Announces that the store has just deleted the record `id`: publishes the
/// deletion, once, and returns the line to log, if any.
pub fn delete_todo(hub: &mut Hub, id: i32) -> (notice: Option<String>)
    ensures
        old(hub)@.wf(),
        final(hub)@.wf(),
        final(hub)@ == old(hub)@.publish(deletion_of(id)),
        notice_matches(notice, old(hub)@.publish_outcome(), id),
{
    let update = TodoUpdate { mutation_kind: MutationKind::Delete, id };
    let outcome = hub.publish(update);
    notice_for(outcome, id)
}

/// Begins the stream of a connection that was accepted at `now`: the session
/// is subscribed at once, so that it gets what is published from now on and
/// nothing from before, and it keeps an idle stream alive at the usual
/// interval.
pub fn handle_stream(hub: &mut Hub, now: u64) -> (session: Session)
    ensures
        old(hub)@.wf() ==> final(hub)@.wf(),
        session@ == SessionView::accepted(now, KEEP_ALIVE_SECS).start(old(hub)@),
        final(hub)@ == SessionView::accepted(now, KEEP_ALIVE_SECS).start_hub(old(hub)@),
{
    let mut session = Session::accept(now, KEEP_ALIVE_SECS);
    let _ = session.start(hub);
    session
}

} // verus!
