//! Tests of the participant-registration store.

use basic_dao::events::{Event, EventError, EventStore, Participant};

fn store_with_one() -> EventStore {
    let mut s = EventStore::new();
    s.create_event(String::from("meetup"), String::from("2024-01-01"))
        .expect("created");
    s
}

#[test]
fn create_event_assigns_contiguous_ids() {
    let mut s = EventStore::new();
    assert_eq!(s.create_event(String::from("a"), String::from("d1")), Ok(()));
    assert_eq!(s.create_event(String::from("b"), String::from("d1")), Ok(()));
    let all = s.get_stored_events();
    assert_eq!(all.len(), 2);
    assert_eq!(all[0].name, "a");
    assert_eq!(all[1].name, "b");
    assert!(s.get_event_by_id(0).is_some());
    assert!(s.get_event_by_id(1).is_some());
    assert!(s.get_event_by_id(2).is_none());
}

#[test]
fn create_event_rejects_same_name_and_date() {
    let mut s = store_with_one();
    assert_eq!(
        s.create_event(String::from("meetup"), String::from("2024-01-01")),
        Err(EventError::AlreadyExists)
    );
    // Same name on another date is a different event.
    assert_eq!(
        s.create_event(String::from("meetup"), String::from("2024-06-01")),
        Ok(())
    );
    assert_eq!(s.get_stored_events().len(), 2);
}

#[test]
fn join_event_records_participant_once() {
    let mut s = store_with_one();
    assert_eq!(s.join_event(0, String::from("alice")), Ok(()));
    assert_eq!(
        s.join_event(0, String::from("alice")),
        Err(EventError::AlreadyJoined)
    );
    assert_eq!(s.join_event(0, String::from("bob")), Ok(()));
    let who = s.get_participants_of_event(0).expect("event exists");
    assert_eq!(who, vec![String::from("alice"), String::from("bob")]);
}

#[test]
fn join_event_unknown_id() {
    let mut s = store_with_one();
    assert_eq!(
        s.join_event(5, String::from("alice")),
        Err(EventError::NoSuchEvent)
    );
}

#[test]
fn cancel_join_event_removes_first_match() {
    let mut s = store_with_one();
    s.join_event(0, String::from("alice")).unwrap();
    s.join_event(0, String::from("bob")).unwrap();
    assert_eq!(s.cancel_join_event(0, String::from("alice")), Ok(()));
    let who = s.get_participants_of_event(0).unwrap();
    assert_eq!(who, vec![String::from("bob")]);
    assert_eq!(
        s.cancel_join_event(0, String::from("alice")),
        Err(EventError::CancelJoinError)
    );
    assert_eq!(
        s.cancel_join_event(9, String::from("bob")),
        Err(EventError::NoSuchEvent)
    );
}

#[test]
fn replace_events_rekeys_from_zero() {
    let mut s = store_with_one();
    s.join_event(0, String::from("alice")).unwrap();
    let fetched = vec![
        Event {
            name: String::from("x"),
            date: String::from("d1"),
            participants: Vec::new(),
        },
        Event {
            name: String::from("y"),
            date: String::from("d2"),
            participants: vec![Participant { address: String::from("carol") }],
        },
    ];
    s.replace_events(fetched);
    let all = s.get_stored_events();
    assert_eq!(all.len(), 2);
    assert_eq!(all[0].name, "x");
    assert_eq!(all[1].name, "y");
    assert_eq!(
        s.get_participants_of_event(1).unwrap(),
        vec![String::from("carol")]
    );
    assert!(s.get_participants_of_event(0).unwrap().is_empty());
}
