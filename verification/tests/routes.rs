use todo_stream::hub::{Delivery, Hub};
use todo_stream::models::{MutationKind, Todo, TodoNew, TodoUpdate};
use todo_stream::routes::{
    create_todo, delete_todo, handle_stream, notice_for, reply_format, unheard_notice, Created,
    ReplyFormat,
};
use todo_stream::hub::PublishOutcome;
use todo_stream::session::{Action, SessionState};
use todo_stream::wire::{keep_alive_frame, update_frame};

fn todo(id: i32, description: &str) -> Todo {
    Todo { id, description: description.to_string() }
}

#[test]
fn reply_is_a_fragment_for_a_swap_request() {
    assert_eq!(reply_format(true), ReplyFormat::Fragment);
    assert_eq!(reply_format(false), ReplyFormat::Json);
}

#[test]
fn notice_names_the_record() {
    assert_eq!(
        unheard_notice(7),
        "Record with ID 7 was deleted but nobody's listening to the stream!"
    );
    assert_eq!(
        unheard_notice(-40),
        "Record with ID -40 was deleted but nobody's listening to the stream!"
    );
}

#[test]
fn notice_only_when_nobody_listens() {
    assert_eq!(notice_for(PublishOutcome::Delivered, 3), None);
    assert_eq!(notice_for(PublishOutcome::NoSubscribers, 3), Some(unheard_notice(3)));
}

#[test]
fn create_publishes_the_creation() {
    let mut hub = Hub::new(4).unwrap();
    let id = hub.subscribe().unwrap();
    let created = create_todo(&mut hub, &todo(7, "water the plants"), true);
    assert_eq!(created, Created { notice: None, format: ReplyFormat::Fragment });
    assert_eq!(
        hub.try_recv(id),
        Delivery::Update(TodoUpdate { mutation_kind: MutationKind::Create, id: 7 })
    );
    assert_eq!(hub.try_recv(id), Delivery::Empty);
}

#[test]
fn create_without_listeners_goes_on_and_leaves_a_notice() {
    let mut hub = Hub::new(4).unwrap();
    let created = create_todo(&mut hub, &todo(12, "call the plumber"), false);
    assert_eq!(created.format, ReplyFormat::Json);
    assert_eq!(
        created.notice.as_deref(),
        Some("Record with ID 12 was deleted but nobody's listening to the stream!")
    );
    let id = hub.subscribe().unwrap();
    assert_eq!(hub.try_recv(id), Delivery::Empty);
}

#[test]
fn delete_publishes_the_deletion() {
    let mut hub = Hub::new(4).unwrap();
    let id = hub.subscribe().unwrap();
    assert_eq!(delete_todo(&mut hub, 7), None);
    assert_eq!(
        hub.try_recv(id),
        Delivery::Update(TodoUpdate { mutation_kind: MutationKind::Delete, id: 7 })
    );
    assert_eq!(hub.try_recv(id), Delivery::Empty);
}

#[test]
fn delete_without_listeners_leaves_a_notice() {
    let mut hub = Hub::new(4).unwrap();
    assert_eq!(
        delete_todo(&mut hub, 99).as_deref(),
        Some("Record with ID 99 was deleted but nobody's listening to the stream!")
    );
}

#[test]
fn stream_starts_subscribed_and_silent() {
    let mut hub = Hub::new(4).unwrap();
    delete_todo(&mut hub, 1);
    let mut session = handle_stream(&mut hub, 50);
    assert_eq!(session.state(), SessionState::Streaming);
    assert!(hub.is_subscribed(session.subscriber().unwrap()));
    assert_eq!(session.poll(&mut hub, 50), Action::Wait(600));
    assert_eq!(session.poll(&mut hub, 649), Action::Wait(1));
    assert_eq!(session.poll(&mut hub, 650), Action::Send(keep_alive_frame()));
}

#[test]
fn changes_reach_every_open_stream() {
    let mut hub = Hub::new(4).unwrap();
    let mut first = handle_stream(&mut hub, 0);
    let mut second = handle_stream(&mut hub, 0);
    assert_eq!(create_todo(&mut hub, &todo(1, "a"), false).notice, None);
    assert_eq!(delete_todo(&mut hub, 1), None);
    let create = TodoUpdate { mutation_kind: MutationKind::Create, id: 1 };
    let delete = TodoUpdate { mutation_kind: MutationKind::Delete, id: 1 };
    for session in [&mut first, &mut second] {
        assert_eq!(session.poll(&mut hub, 0), Action::Send(update_frame(&create)));
        assert_eq!(session.poll(&mut hub, 0), Action::Send(update_frame(&delete)));
        assert_eq!(session.poll(&mut hub, 0), Action::Wait(600));
    }
}

#[test]
fn records_compare_by_value() {
    assert_eq!(todo(1, "a"), todo(1, "a"));
    assert_ne!(todo(1, "a"), todo(2, "a"));
    assert_ne!(todo(1, "a"), todo(1, "b"));
    assert_eq!(todo(1, "a").clone(), todo(1, "a"));
    let new = TodoNew { description: "a".to_string() };
    assert_eq!(new, TodoNew { description: "a".to_string() });
}
