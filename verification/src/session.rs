//! One stream session: the life of one viewer's connection, from the moment
//! it is accepted until it is closed. The session decides what goes out next;
//! the task that owns the connection writes it and waits.

use vstd::prelude::*;
use vstd::string::*;
use crate::hub::{Delivery, Hub, HubState};
use crate::wire::{data_frame_text, keep_alive_frame, keep_alive_text, update_frame, update_payload};

verus! {

/// The seconds of silence after which a keep-alive frame is due.
pub const KEEP_ALIVE_SECS: u64 = 600;

/// Where a session stands.
#[derive(Clone, Copy, Debug, PartialEq, Eq, Structural)]
pub enum SessionState {
    /// The connection was accepted and nothing else has happened.
    Connected,
    /// The session is subscribed and sends what arrives.
    Streaming,
    /// The session is over. Nothing is sent any more.
    Closed,
}

/// What the task that owns the connection has to do next.
#[derive(Clone, Debug, PartialEq, Eq)]
pub enum Action {
    /// Write this frame, then ask again.
    Send(String),
    /// Nothing is due. Ask again when the hub has news, or after this many
    /// seconds, whichever comes first.
    Wait(u64),
    /// The session is closed: end the task.
    Stop,
}

/// An action as a mathematical value.
pub enum ActionView {
    Send(Seq<char>),
    Wait(u64),
    Stop,
}

impl View for Action {
    type V = ActionView;

    open spec fn view(&self) -> ActionView {
        match self {
            Action::Send(frame) => ActionView::Send(frame@),
            Action::Wait(secs) => ActionView::Wait(*secs),
            Action::Stop => ActionView::Stop,
        }
    }
}

/// A session as a mathematical value.
pub struct SessionView {
    pub state: SessionState,
    /// The identifier under which the session is subscribed while it streams.
    pub subscriber: u64,
    /// When the last frame went out, or when the connection was accepted.
    pub last_frame_at: u64,
    /// The seconds of silence after which a keep-alive frame is due.
    pub keep_alive_secs: u64,
}

/// A session and an action together: what a session makes of one delivery.
pub struct Reaction {
    pub session: SessionView,
    pub action: ActionView,
}

/// A session, the hub and an action together: what one poll leaves behind.
pub struct Outcome {
    pub session: SessionView,
    pub hub: HubState,
    pub action: ActionView,
}

impl SessionView {
    /// A session for a connection that was accepted at `now`.
    pub open spec fn accepted(now: u64, keep_alive_secs: u64) -> SessionView {
        SessionView {
            state: SessionState::Connected,
            subscriber: 0,
            last_frame_at: now,
            keep_alive_secs,
        }
    }

    /// The seconds since the last frame. A clock that went back counts as no
    /// time passed.
    pub open spec fn idle(self, now: u64) -> int {
        if now >= self.last_frame_at {
            now - self.last_frame_at
        } else {
            0
        }
    }

    /// The session in another state.
    pub open spec fn with_state(self, state: SessionState) -> SessionView {
        SessionView { state, ..self }
    }

    /// The session after a frame went out at `now`.
    pub open spec fn sent_at(self, now: u64) -> SessionView {
        SessionView { last_frame_at: now, ..self }
    }

    /// The session after it was started: a connected session subscribes and
    /// streams, or is closed when the hub has no identifier left; any other
    /// stays as it is.
    pub open spec fn start(self, hub: HubState) -> SessionView {
        if self.state is Connected {
            if hub.can_subscribe() {
                SessionView { state: SessionState::Streaming, subscriber: hub.issued, ..self }
            } else {
                self.with_state(SessionState::Closed)
            }
        } else {
            self
        }
    }

    /// The hub after the session was started.
    pub open spec fn start_hub(self, hub: HubState) -> HubState {
        if self.state is Connected && hub.can_subscribe() {
            hub.subscribe()
        } else {
            hub
        }
    }

    /// The hub after the session was closed: a streaming session gives up its
    /// subscription.
    pub open spec fn close_hub(self, hub: HubState) -> HubState {
        if self.state is Streaming {
            hub.unsubscribe(self.subscriber)
        } else {
            hub
        }
    }

    /// What the session makes of one delivery at `now`. A session that does
    /// not stream sends nothing. A streaming session sends an update as a
    /// frame; with nothing waiting it sends a keep-alive frame if it has been
    /// silent for long enough and says how long to wait otherwise; it passes
    /// over a notice of lost updates and asks for the next delivery at once;
    /// and it closes if its subscription is gone.
    pub open spec fn react(self, delivery: Delivery, now: u64) -> Reaction {
        if self.state is Streaming {
            match delivery {
                Delivery::Update(update) => Reaction {
                    session: self.sent_at(now),
                    action: ActionView::Send(data_frame_text(update_payload(update))),
                },
                Delivery::Lagged(_) => Reaction { session: self, action: ActionView::Wait(0) },
                Delivery::Empty => if self.idle(now) >= self.keep_alive_secs {
                    Reaction {
                        session: self.sent_at(now),
                        action: ActionView::Send(keep_alive_text()),
                    }
                } else {
                    Reaction {
                        session: self,
                        action: ActionView::Wait((self.keep_alive_secs - self.idle(now)) as u64),
                    }
                },
                Delivery::Closed => Reaction {
                    session: self.with_state(SessionState::Closed),
                    action: ActionView::Stop,
                },
            }
        } else {
            Reaction { session: self, action: ActionView::Stop }
        }
    }

    /// The hub as a streaming session finds it when it looks for the next
    /// update: a notice of lost updates is read and passed over.
    pub open spec fn settle(self, hub: HubState) -> HubState {
        if hub.next_delivery(self.subscriber) is Lagged {
            hub.receive(self.subscriber)
        } else {
            hub
        }
    }

    /// What one poll at `now` does. A session that is still only connected is
    /// started first. A session that streams then reads its mailbox, passing
    /// over a notice of lost updates, and reacts to what it finds there.
    pub open spec fn poll(self, hub: HubState, now: u64) -> Outcome {
        let session = self.start(hub);
        let hub = self.start_hub(hub);
        if session.state is Streaming {
            let hub = session.settle(hub);
            let reaction = session.react(hub.next_delivery(session.subscriber), now);
            Outcome {
                session: reaction.session,
                hub: hub.receive(session.subscriber),
                action: reaction.action,
            }
        } else {
            Outcome { session, hub, action: ActionView::Stop }
        }
    }
}

/// One stream session.
pub struct Session {
    state: SessionState,
    subscriber: u64,
    last_frame_at: u64,
    keep_alive_secs: u64,
}

impl View for Session {
    type V = SessionView;

    closed spec fn view(&self) -> SessionView {
        SessionView {
            state: self.state,
            subscriber: self.subscriber,
            last_frame_at: self.last_frame_at,
            keep_alive_secs: self.keep_alive_secs,
        }
    }
}

impl Session {
    /// The session of a connection that was accepted at `now`, a time in
    /// seconds on a clock of the caller's choice.
    pub fn accept(now: u64, keep_alive_secs: u64) -> (session: Session)
        ensures
            session@ == SessionView::accepted(now, keep_alive_secs),
    {
        Session { state: SessionState::Connected, subscriber: 0, last_frame_at: now, keep_alive_secs }
    }

    /// Where the session stands.
    pub fn state(&self) -> (state: SessionState)
        ensures
            state == self@.state,
    {
        self.state
    }

    /// The identifier under which the session is subscribed, while it streams.
    pub fn subscriber(&self) -> (id: Option<u64>)
        ensures
            id == if self@.state is Streaming {
                Some(self@.subscriber)
            } else {
                None
            },
    {
        match self.state {
            SessionState::Streaming => Some(self.subscriber),
            _ => None,
        }
    }

    /// Subscribes a connected session to the hub, so that it streams what is
    /// published from now on. Returns whether the session streams.
    pub fn start(&mut self, hub: &mut Hub) -> (streaming: bool)
        ensures
            old(hub)@.wf() ==> final(hub)@.wf(),
            final(self)@ == old(self)@.start(old(hub)@),
            final(hub)@ == old(self)@.start_hub(old(hub)@),
            streaming == (final(self)@.state is Streaming),
    {
        match self.state {
            SessionState::Connected => {
                match hub.subscribe() {
                    Some(id) => {
                        self.state = SessionState::Streaming;
                        self.subscriber = id;
                        true
                    },
                    None => {
                        self.state = SessionState::Closed;
                        false
                    },
                }
            },
            SessionState::Streaming => true,
            SessionState::Closed => false,
        }
    }

    /// Decides what to do about one delivery, at the time `now`.
    pub fn react(&mut self, delivery: Delivery, now: u64) -> (action: Action)
        ensures
            final(self)@ == old(self)@.react(delivery, now).session,
            action@ == old(self)@.react(delivery, now).action,
    {
        match self.state {
            SessionState::Streaming => {},
            _ => {
                return Action::Stop;
            },
        }
        match delivery {
            Delivery::Update(update) => {
                self.last_frame_at = now;
                Action::Send(update_frame(&update))
            },
            Delivery::Lagged(_) => Action::Wait(0),
            Delivery::Empty => {
                let idle = if now >= self.last_frame_at {
                    now - self.last_frame_at
                } else {
                    0
                };
                if idle >= self.keep_alive_secs {
                    self.last_frame_at = now;
                    Action::Send(keep_alive_frame())
                } else {
                    Action::Wait(self.keep_alive_secs - idle)
                }
            },
            Delivery::Closed => {
                self.state = SessionState::Closed;
                Action::Stop
            },
        }
    }

    /// Decides what goes out next, at the time `now`: starts the session if
    /// need be, reads its mailbox and reacts to what is there.
    pub fn poll(&mut self, hub: &mut Hub, now: u64) -> (action: Action)
        ensures
            old(hub)@.wf() ==> final(hub)@.wf(),
            final(self)@ == old(self)@.poll(old(hub)@, now).session,
            final(hub)@ == old(self)@.poll(old(hub)@, now).hub,
            action@ == old(self)@.poll(old(hub)@, now).action,
    {
        if !self.start(hub) {
            return Action::Stop;
        }
        let id = self.subscriber;
        let ghost started = hub@;
        let mut delivery = hub.try_recv(id);
        if let Delivery::Lagged(_) = delivery {
            delivery = hub.try_recv(id);
        } else {
            proof {
                lemma_idle_read(started, id);
            }
        }
        proof {
            lemma_idle_read(self@.settle(started), id);
        }
        self.react(delivery, now)
    }

    /// Ends the session, because a write failed or the server shuts down. A
    /// streaming session gives up its subscription, and what waited for it is
    /// lost. Nobody else is touched.
    pub fn close(&mut self, hub: &mut Hub)
        ensures
            old(hub)@.wf() ==> final(hub)@.wf(),
            final(self)@ == old(self)@.with_state(SessionState::Closed),
            final(hub)@ == old(self)@.close_hub(old(hub)@),
    {
        if let SessionState::Streaming = self.state {
            let _ = hub.unsubscribe(self.subscriber);
        }
        self.state = SessionState::Closed;
    }
}

/// A read that returns no update and no notice leaves the hub as it was, and
/// right after a read no notice waits.
pub proof fn lemma_idle_read(hub: HubState, id: u64)
    ensures
        !(hub.next_delivery(id) is Update) && !(hub.next_delivery(id) is Lagged) ==> hub.receive(
            id,
        ) == hub,
        !(hub.receive(id).next_delivery(id) is Lagged),
{
    if hub.boxes.dom().contains(id) {
        if !(hub.next_delivery(id) is Update) && !(hub.next_delivery(id) is Lagged) {
            assert(hub.receive(id).boxes =~= hub.boxes);
        }
    }
}

/// No frames after close. Whatever arrives, whatever the time and whatever
/// the hub holds, a closed session sends nothing, stays closed and leaves
/// the hub alone.
pub proof fn law_closed_is_silent(
    session: SessionView,
    hub: HubState,
    delivery: Delivery,
    now: u64,
)
    requires
        session.state is Closed,
    ensures
        session.react(delivery, now).action == ActionView::Stop,
        session.react(delivery, now).session == session,
        session.poll(hub, now).action == ActionView::Stop,
        session.poll(hub, now).session == session,
        session.poll(hub, now).hub == hub,
        session.start(hub) == session,
        session.start_hub(hub) == hub,
        session.close_hub(hub) == hub,
{
}

/// Only a streaming session sends: whenever a frame goes out, the session
/// streams afterwards.
pub proof fn law_frames_come_from_streaming(session: SessionView, hub: HubState, now: u64)
    ensures
        session.poll(hub, now).action is Send ==> session.poll(hub, now).session.state is Streaming,
        session.poll(hub, now).action is Stop <==> session.poll(hub, now).session.state is Closed,
{
    let started = session.start(hub);
    let opened = session.start_hub(hub);
    if started.state is Streaming {
        lemma_idle_read(started.settle(opened), started.subscriber);
    }
}

/// Keep-alive. A streaming session for which nothing waits sends the
/// keep-alive frame as soon as the interval has passed since its last frame,
/// and counts the interval anew from then on; before that it sends nothing
/// and says how long is left.
pub proof fn law_keep_alive(session: SessionView, hub: HubState, now: u64)
    requires
        session.state is Streaming,
        hub.next_delivery(session.subscriber) is Empty,
    ensures
        session.idle(now) >= session.keep_alive_secs ==> session.poll(hub, now).action
            == ActionView::Send(keep_alive_text()) && session.poll(hub, now).session
            == session.sent_at(now),
        session.idle(now) < session.keep_alive_secs ==> session.poll(hub, now).action
            == ActionView::Wait((session.keep_alive_secs - session.idle(now)) as u64)
            && session.poll(hub, now).session == session,
        session.poll(hub, now).hub == hub,
{
    lemma_idle_read(hub, session.subscriber);
}

/// An update goes before a keep-alive: a streaming session for which an
/// update waits sends that update, framed, however long it has been silent.
pub proof fn law_update_goes_first(session: SessionView, hub: HubState, now: u64)
    requires
        session.state is Streaming,
        hub.next_delivery(session.subscriber) is Update,
    ensures
        session.poll(hub, now).action == ActionView::Send(
            data_frame_text(update_payload(hub.next_delivery(session.subscriber)->Update_0)),
        ),
        session.poll(hub, now).hub == hub.receive(session.subscriber),
        session.poll(hub, now).session == session.sent_at(now),
{
}

} // verus!
