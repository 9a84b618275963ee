use todo_stream::hub::{Delivery, Hub, PublishOutcome};
use todo_stream::models::{MutationKind, TodoUpdate};
use todo_stream::session::{Action, Session, SessionState, KEEP_ALIVE_SECS};
use todo_stream::wire::{keep_alive_frame, update_frame};

fn created(id: i32) -> TodoUpdate {
    TodoUpdate { mutation_kind: MutationKind::Create, id }
}

fn deleted(id: i32) -> TodoUpdate {
    TodoUpdate { mutation_kind: MutationKind::Delete, id }
}

/// The update that the payload of a frame stands for.
fn decode(frame: &str) -> TodoUpdate {
    let payload = frame.strip_prefix("data: ").unwrap().strip_suffix("\n\n").unwrap();
    let json = payload.strip_prefix("<div>").unwrap().strip_suffix("</div>").unwrap();
    let value: serde_json::Value = serde_json::from_str(json).unwrap();
    let mutation_kind = match value["mutation_kind"].as_str().unwrap() {
        "Create" => MutationKind::Create,
        "Delete" => MutationKind::Delete,
        other => panic!("unknown kind {other}"),
    };
    TodoUpdate { mutation_kind, id: value["id"].as_i64().unwrap() as i32 }
}

#[test]
fn interval_is_ten_minutes() {
    assert_eq!(KEEP_ALIVE_SECS, 600);
}

#[test]
fn accepted_session_is_connected() {
    let session = Session::accept(5, 600);
    assert_eq!(session.state(), SessionState::Connected);
    assert_eq!(session.subscriber(), None);
}

#[test]
fn start_subscribes() {
    let mut hub = Hub::new(4).unwrap();
    let mut session = Session::accept(0, 600);
    assert!(session.start(&mut hub));
    assert_eq!(session.state(), SessionState::Streaming);
    assert_eq!(session.subscriber(), Some(0));
    assert!(hub.is_subscribed(0));
    assert!(session.start(&mut hub));
    assert_eq!(session.subscriber(), Some(0));
    assert!(!hub.is_subscribed(1));
}

#[test]
fn poll_starts_a_connected_session() {
    let mut hub = Hub::new(4).unwrap();
    let mut session = Session::accept(0, 600);
    assert_eq!(session.poll(&mut hub, 0), Action::Wait(600));
    assert_eq!(session.state(), SessionState::Streaming);
    assert!(hub.has_subscribers());
}

#[test]
fn session_sends_each_update_as_a_frame() {
    let mut hub = Hub::new(4).unwrap();
    let mut session = Session::accept(0, 600);
    session.start(&mut hub);
    hub.publish(created(1));
    hub.publish(deleted(1));
    assert_eq!(session.poll(&mut hub, 1), Action::Send(update_frame(&created(1))));
    assert_eq!(session.poll(&mut hub, 1), Action::Send(update_frame(&deleted(1))));
    assert_eq!(session.poll(&mut hub, 1), Action::Wait(600));
}

#[test]
fn session_sends_nothing_from_before_it_started() {
    let mut hub = Hub::new(4).unwrap();
    let mut other = Session::accept(0, 600);
    other.start(&mut hub);
    hub.publish(created(1));
    let mut session = Session::accept(0, 600);
    session.start(&mut hub);
    assert_eq!(session.poll(&mut hub, 0), Action::Wait(600));
    hub.publish(created(2));
    assert_eq!(session.poll(&mut hub, 0), Action::Send(update_frame(&created(2))));
}

#[test]
fn keep_alive_is_sent_after_the_interval() {
    let mut hub = Hub::new(4).unwrap();
    let mut session = Session::accept(100, 600);
    session.start(&mut hub);
    assert_eq!(session.poll(&mut hub, 100), Action::Wait(600));
    assert_eq!(session.poll(&mut hub, 400), Action::Wait(300));
    assert_eq!(session.poll(&mut hub, 699), Action::Wait(1));
    assert_eq!(session.poll(&mut hub, 700), Action::Send(keep_alive_frame()));
    assert_eq!(session.poll(&mut hub, 700), Action::Wait(600));
    assert_eq!(session.poll(&mut hub, 1299), Action::Wait(1));
    assert_eq!(session.poll(&mut hub, 1300), Action::Send(keep_alive_frame()));
}

#[test]
fn keep_alive_is_sent_when_more_than_the_interval_has_passed() {
    let mut hub = Hub::new(4).unwrap();
    let mut session = Session::accept(0, 600);
    session.start(&mut hub);
    assert_eq!(session.poll(&mut hub, 5000), Action::Send(keep_alive_frame()));
    assert_eq!(session.poll(&mut hub, 5001), Action::Wait(599));
}

#[test]
fn an_update_restarts_the_interval() {
    let mut hub = Hub::new(4).unwrap();
    let mut session = Session::accept(0, 600);
    session.start(&mut hub);
    hub.publish(created(1));
    assert_eq!(session.poll(&mut hub, 500), Action::Send(update_frame(&created(1))));
    assert_eq!(session.poll(&mut hub, 600), Action::Wait(500));
    assert_eq!(session.poll(&mut hub, 1099), Action::Wait(1));
    assert_eq!(session.poll(&mut hub, 1100), Action::Send(keep_alive_frame()));
}

#[test]
fn an_update_goes_before_a_keep_alive() {
    let mut hub = Hub::new(4).unwrap();
    let mut session = Session::accept(0, 600);
    session.start(&mut hub);
    hub.publish(created(1));
    assert_eq!(session.poll(&mut hub, 9000), Action::Send(update_frame(&created(1))));
    assert_eq!(session.poll(&mut hub, 9000), Action::Wait(600));
}

#[test]
fn a_clock_that_goes_back_counts_as_no_time() {
    let mut hub = Hub::new(4).unwrap();
    let mut session = Session::accept(1000, 600);
    session.start(&mut hub);
    assert_eq!(session.poll(&mut hub, 10), Action::Wait(600));
}

#[test]
fn an_interval_of_zero_sends_keep_alives_at_once() {
    let mut hub = Hub::new(4).unwrap();
    let mut session = Session::accept(0, 0);
    session.start(&mut hub);
    assert_eq!(session.poll(&mut hub, 0), Action::Send(keep_alive_frame()));
}

#[test]
fn closed_session_sends_nothing() {
    let mut hub = Hub::new(4).unwrap();
    let mut session = Session::accept(0, 600);
    session.start(&mut hub);
    hub.publish(created(1));
    session.close(&mut hub);
    assert_eq!(session.state(), SessionState::Closed);
    assert_eq!(session.subscriber(), None);
    assert_eq!(session.poll(&mut hub, 0), Action::Stop);
    assert_eq!(session.poll(&mut hub, 100_000), Action::Stop);
    hub.publish(created(2));
    assert_eq!(session.poll(&mut hub, 200_000), Action::Stop);
    assert!(!session.start(&mut hub));
    assert_eq!(session.state(), SessionState::Closed);
}

#[test]
fn close_releases_the_subscription() {
    let mut hub = Hub::new(4).unwrap();
    let mut session = Session::accept(0, 600);
    session.start(&mut hub);
    let id = session.subscriber().unwrap();
    assert!(hub.is_subscribed(id));
    session.close(&mut hub);
    assert!(!hub.is_subscribed(id));
    assert!(!hub.has_subscribers());
    assert_eq!(hub.publish(created(1)), PublishOutcome::NoSubscribers);
}

#[test]
fn closing_a_session_that_never_started_touches_nobody() {
    let mut hub = Hub::new(4).unwrap();
    let other = hub.subscribe().unwrap();
    let mut session = Session::accept(0, 600);
    session.close(&mut hub);
    assert_eq!(session.state(), SessionState::Closed);
    assert!(hub.is_subscribed(other));
    session.close(&mut hub);
    assert!(hub.is_subscribed(other));
}

#[test]
fn closing_one_session_leaves_the_other_streaming() {
    let mut hub = Hub::new(4).unwrap();
    let mut first = Session::accept(0, 600);
    let mut second = Session::accept(0, 600);
    first.start(&mut hub);
    second.start(&mut hub);
    hub.publish(created(1));
    first.close(&mut hub);
    hub.publish(created(2));
    assert_eq!(first.poll(&mut hub, 0), Action::Stop);
    assert_eq!(second.poll(&mut hub, 0), Action::Send(update_frame(&created(1))));
    assert_eq!(second.poll(&mut hub, 0), Action::Send(update_frame(&created(2))));
    assert_eq!(second.poll(&mut hub, 0), Action::Wait(600));
}

#[test]
fn session_passes_over_the_lag_notice() {
    let mut hub = Hub::new(2).unwrap();
    let mut session = Session::accept(0, 600);
    session.start(&mut hub);
    for id in 1..=5 {
        hub.publish(created(id));
    }
    assert_eq!(session.poll(&mut hub, 0), Action::Send(update_frame(&created(4))));
    assert_eq!(session.poll(&mut hub, 0), Action::Send(update_frame(&created(5))));
    assert_eq!(session.poll(&mut hub, 0), Action::Wait(600));
    hub.publish(deleted(5));
    assert_eq!(session.poll(&mut hub, 0), Action::Send(update_frame(&deleted(5))));
    assert_eq!(session.state(), SessionState::Streaming);
}

#[test]
fn session_stops_when_its_subscription_is_gone() {
    let mut hub = Hub::new(2).unwrap();
    let mut session = Session::accept(0, 600);
    session.start(&mut hub);
    let id = session.subscriber().unwrap();
    assert!(hub.unsubscribe(id));
    assert_eq!(session.poll(&mut hub, 0), Action::Stop);
    assert_eq!(session.state(), SessionState::Closed);
}

#[test]
fn update_reaches_the_viewer_and_is_not_replayed() {
    let mut hub = Hub::new(16).unwrap();
    let mut viewer = Session::accept(0, KEEP_ALIVE_SECS);
    assert!(viewer.start(&mut hub));

    assert_eq!(hub.publish(created(7)), PublishOutcome::Delivered);
    let frame = match viewer.poll(&mut hub, 1) {
        Action::Send(frame) => frame,
        other => panic!("expected a frame, got {other:?}"),
    };
    assert_eq!(decode(&frame), created(7));
    assert_eq!(viewer.poll(&mut hub, 1), Action::Wait(600));

    viewer.close(&mut hub);
    assert_eq!(hub.publish(deleted(7)), PublishOutcome::NoSubscribers);

    let mut later = Session::accept(2, KEEP_ALIVE_SECS);
    assert!(later.start(&mut hub));
    assert_eq!(later.poll(&mut hub, 2), Action::Wait(600));
    let id = later.subscriber().unwrap();
    assert_eq!(hub.try_recv(id), Delivery::Empty);
    assert_eq!(viewer.poll(&mut hub, 3), Action::Stop);
}

#[test]
fn streaming_session_frames_a_delivered_update() {
    let mut hub = Hub::new(4).unwrap();
    let mut session = Session::accept(0, 600);
    session.start(&mut hub);
    assert_eq!(
        session.react(Delivery::Update(deleted(9)), 30),
        Action::Send("data: <div>{\"mutation_kind\":\"Delete\",\"id\":9}</div>\n\n".to_string())
    );
    assert_eq!(session.react(Delivery::Empty, 629), Action::Wait(1));
    assert_eq!(session.react(Delivery::Empty, 630), Action::Send(keep_alive_frame()));
}

#[test]
fn lag_notice_asks_for_the_next_delivery_at_once() {
    let mut hub = Hub::new(4).unwrap();
    let mut session = Session::accept(0, 600);
    session.start(&mut hub);
    assert_eq!(session.react(Delivery::Lagged(3), 10), Action::Wait(0));
    assert_eq!(session.state(), SessionState::Streaming);
    assert_eq!(session.react(Delivery::Empty, 10), Action::Wait(590));
}

#[test]
fn lost_subscription_closes_the_session() {
    let mut hub = Hub::new(4).unwrap();
    let mut session = Session::accept(0, 600);
    session.start(&mut hub);
    assert_eq!(session.react(Delivery::Closed, 10), Action::Stop);
    assert_eq!(session.state(), SessionState::Closed);
    assert_eq!(session.react(Delivery::Update(created(1)), 10), Action::Stop);
    assert_eq!(session.react(Delivery::Empty, 10_000), Action::Stop);
}

#[test]
fn session_that_does_not_stream_reacts_with_stop() {
    let mut session = Session::accept(0, 600);
    assert_eq!(session.react(Delivery::Update(created(1)), 0), Action::Stop);
    assert_eq!(session.react(Delivery::Empty, 5000), Action::Stop);
    assert_eq!(session.state(), SessionState::Connected);
}
