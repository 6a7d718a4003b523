use live_query_subscription::broker::InMemoryBroker;
use live_query_subscription::cursor::{cursor_to_id, parse_cursor};
use live_query_subscription::player::{Player, ServiceError};
use live_query_subscription::service::{MutationRoot, QueryRoot, SubscriptionRoot};
use live_query_subscription::store::InMemoryDb;
use live_query_subscription::subscription::{Pulled, Subscription};

fn create(db: &mut InMemoryDb, broker: &InMemoryBroker, name: &str) -> Result<Player, ServiceError> {
    MutationRoot::create_player(db, broker, String::from(name))
}

fn pull_item(sub: &mut Subscription) -> Player {
    match sub.try_next() {
        Pulled::Item(p) => p,
        other => panic!("expected an item, got {:?}", other),
    }
}

#[test]
fn sequential_creates_assign_contiguous_cursors() {
    let mut db = InMemoryDb::default();
    let broker = InMemoryBroker::default();
    let a = create(&mut db, &broker, "alice").unwrap();
    let b = create(&mut db, &broker, "bob").unwrap();
    let c = create(&mut db, &broker, "carol").unwrap();
    assert_eq!(a.cursor, 0);
    assert_eq!(b.cursor, 1);
    assert_eq!(c.cursor, 2);
    let all = QueryRoot::players(&db);
    assert_eq!(all.len(), 3);
    for (i, p) in all.iter().enumerate() {
        assert_eq!(p.cursor, i);
    }
    assert_eq!(all[0].name, "alice");
    assert_eq!(all[1].name, "bob");
    assert_eq!(all[2].name, "carol");
}

#[test]
fn duplicate_name_rejected_without_state_change() {
    let mut db = InMemoryDb::default();
    let broker = InMemoryBroker::default();
    let first = create(&mut db, &broker, "alice").unwrap();
    assert_eq!(first.cursor, 0);
    let second = create(&mut db, &broker, "alice");
    assert_eq!(second, Err(ServiceError::DuplicateName));
    assert_eq!(QueryRoot::players(&db).len(), 1);
    let still_there = db.get_player(0).unwrap();
    assert_eq!(still_there.cursor, 0);
    assert_eq!(still_there.name, "alice");
}

#[test]
fn get_player_out_of_range_is_absent() {
    let mut db = InMemoryDb::default();
    let broker = InMemoryBroker::default();
    assert_eq!(db.get_player(0), None);
    create(&mut db, &broker, "alice").unwrap();
    create(&mut db, &broker, "bob").unwrap();
    assert_eq!(db.get_player(2), None);
    assert_eq!(db.get_player(usize::MAX), None);
    assert!(db.get_player(1).is_some());
}

#[test]
fn list_after_returns_strict_suffix() {
    let mut db = InMemoryDb::default();
    let broker = InMemoryBroker::default();
    for name in ["a", "b", "c", "d", "e"] {
        create(&mut db, &broker, name).unwrap();
    }
    let after = db.get_players_after(1);
    let cursors: Vec<usize> = after.iter().map(|p| p.cursor).collect();
    assert_eq!(cursors, vec![2, 3, 4]);
    assert!(db.get_players_after(4).is_empty());
    assert!(db.get_players_after(100).is_empty());
}

#[test]
fn subscription_backlog_from_cursor() {
    let mut db = InMemoryDb::default();
    let broker = InMemoryBroker::default();
    for name in ["a", "b", "c", "d", "e"] {
        create(&mut db, &broker, name).unwrap();
    }
    let mut sub = SubscriptionRoot::new_players(&db, &broker, Some("1")).unwrap();
    assert_eq!(pull_item(&mut sub).cursor, 2);
    assert_eq!(pull_item(&mut sub).cursor, 3);
    assert_eq!(pull_item(&mut sub).cursor, 4);
    assert!(matches!(sub.try_next(), Pulled::Pending));
}

#[test]
fn invalid_cursor_rejected_without_registration_leak() {
    let db = InMemoryDb::default();
    let broker = InMemoryBroker::default();
    assert_eq!(broker.subscriber_count(), 0);
    let r = SubscriptionRoot::new_players(&db, &broker, Some("not-a-number"));
    assert!(matches!(r, Err(ServiceError::InvalidCursor)));
    assert_eq!(broker.subscriber_count(), 0);
    let ok = SubscriptionRoot::new_players(&db, &broker, None).unwrap();
    assert_eq!(broker.subscriber_count(), 1);
    drop(ok);
}

#[test]
fn cancelled_subscription_deregisters_and_writes_go_on() {
    let mut db = InMemoryDb::default();
    let broker = InMemoryBroker::default();
    let sub = SubscriptionRoot::new_players(&db, &broker, None).unwrap();
    let mut other = SubscriptionRoot::new_players(&db, &broker, None).unwrap();
    assert_eq!(broker.subscriber_count(), 2);
    drop(sub);
    assert_eq!(broker.subscriber_count(), 1);
    let p = create(&mut db, &broker, "alice").unwrap();
    assert_eq!(p.cursor, 0);
    // the surviving subscriber still receives the event
    assert_eq!(pull_item(&mut other).cursor, 0);
    assert!(matches!(other.try_next(), Pulled::Pending));
}

#[test]
fn live_event_after_resume_delivered_exactly_once() {
    let mut db = InMemoryDb::default();
    let broker = InMemoryBroker::default();
    for name in ["a", "b", "c"] {
        create(&mut db, &broker, name).unwrap();
    }
    // resume from the current maximum cursor, then create right after
    let mut sub = SubscriptionRoot::new_players(&db, &broker, Some("2")).unwrap();
    create(&mut db, &broker, "dora").unwrap();
    assert_eq!(pull_item(&mut sub).cursor, 3);
    assert!(matches!(sub.try_next(), Pulled::Pending));
}

#[test]
fn backlog_covers_creation_before_subscribe() {
    let mut db = InMemoryDb::default();
    let broker = InMemoryBroker::default();
    for name in ["a", "b", "c"] {
        create(&mut db, &broker, name).unwrap();
    }
    create(&mut db, &broker, "dora").unwrap();
    let mut sub = SubscriptionRoot::new_players(&db, &broker, Some("2")).unwrap();
    let p = pull_item(&mut sub);
    assert_eq!(p.cursor, 3);
    assert_eq!(p.name, "dora");
    assert!(matches!(sub.try_next(), Pulled::Pending));
}

#[test]
fn republished_duplicate_is_skipped_at_the_seam() {
    let mut db = InMemoryDb::default();
    let broker = InMemoryBroker::default();
    for name in ["a", "b", "c"] {
        create(&mut db, &broker, name).unwrap();
    }
    let mut sub = SubscriptionRoot::new_players(&db, &broker, Some("0")).unwrap();
    // a record the backlog already covers arrives again on the live channel
    let again = db.get_player(1).unwrap();
    broker.new_player(again);
    assert_eq!(pull_item(&mut sub).cursor, 1);
    assert_eq!(pull_item(&mut sub).cursor, 2);
    assert!(matches!(sub.try_next(), Pulled::Skipped));
    assert!(matches!(sub.try_next(), Pulled::Pending));
}

#[test]
fn lagged_subscriber_sees_explicit_gap_then_continues() {
    let mut db = InMemoryDb::default();
    let broker = InMemoryBroker::default();
    let mut sub = SubscriptionRoot::new_players(&db, &broker, None).unwrap();
    // four publishes against a per-listener buffer of two: the two oldest
    // events are lost, and the loss is reported, not hidden
    for name in ["a", "b", "c", "d"] {
        create(&mut db, &broker, name).unwrap();
    }
    assert!(matches!(sub.try_next(), Pulled::Lagged(2)));
    assert_eq!(pull_item(&mut sub).cursor, 2);
    assert_eq!(pull_item(&mut sub).cursor, 3);
    assert!(matches!(sub.try_next(), Pulled::Pending));
}

#[test]
fn subscription_without_cursor_is_live_only() {
    let mut db = InMemoryDb::default();
    let broker = InMemoryBroker::default();
    create(&mut db, &broker, "before").unwrap();
    let mut sub = SubscriptionRoot::new_players(&db, &broker, None).unwrap();
    // no backlog: the record from before the subscription is not replayed
    assert!(matches!(sub.try_next(), Pulled::Pending));
    create(&mut db, &broker, "after").unwrap();
    assert_eq!(pull_item(&mut sub).cursor, 1);
    assert!(matches!(sub.try_next(), Pulled::Pending));
}

#[test]
fn subscription_closes_when_broadcaster_is_gone() {
    let mut db = InMemoryDb::default();
    let broker = InMemoryBroker::default();
    create(&mut db, &broker, "alice").unwrap();
    create(&mut db, &broker, "bob").unwrap();
    let mut sub = SubscriptionRoot::new_players(&db, &broker, Some("0")).unwrap();
    drop(broker);
    // the backlog still drains, then the live side reports closure
    assert_eq!(pull_item(&mut sub).cursor, 1);
    assert!(matches!(sub.try_next(), Pulled::Closed));
}

#[test]
fn resume_cursor_beyond_end_suppresses_older_live_events() {
    let mut db = InMemoryDb::default();
    let broker = InMemoryBroker::default();
    create(&mut db, &broker, "alice").unwrap();
    // a caller resuming from cursor 100 claims to have seen through 100,
    // so records with smaller cursors are not delivered to it
    let mut sub = SubscriptionRoot::new_players(&db, &broker, Some("100")).unwrap();
    assert!(matches!(sub.try_next(), Pulled::Pending));
    create(&mut db, &broker, "bob").unwrap();
    assert!(matches!(sub.try_next(), Pulled::Skipped));
    assert!(matches!(sub.try_next(), Pulled::Pending));
}

#[test]
fn player_id_encodes_cursor() {
    let mut db = InMemoryDb::default();
    let broker = InMemoryBroker::default();
    let a = create(&mut db, &broker, "alice").unwrap();
    assert_eq!(a.id(), "0");
    for i in 1..12 {
        create(&mut db, &broker, &format!("player{}", i)).unwrap();
    }
    let p = db.get_player(11).unwrap();
    assert_eq!(p.id(), "11");
}

#[test]
fn cursor_id_round_trip() {
    for n in [0usize, 7, 9, 10, 11, 99, 100, 12345, usize::MAX] {
        let id = cursor_to_id(n);
        assert_eq!(parse_cursor(&id), Some(n));
    }
    assert_eq!(cursor_to_id(12345), "12345");
}

#[test]
fn cursor_parse_rejects_non_numbers() {
    assert_eq!(parse_cursor(""), None);
    assert_eq!(parse_cursor("not-a-number"), None);
    assert_eq!(parse_cursor("-1"), None);
    assert_eq!(parse_cursor("+5"), None);
    assert_eq!(parse_cursor(" 1"), None);
    assert_eq!(parse_cursor("1.5"), None);
    assert_eq!(parse_cursor("99999999999999999999999999999999"), None);
    assert_eq!(parse_cursor("007"), Some(7));
}

#[test]
fn find_player_by_id_parses_and_looks_up() {
    let mut db = InMemoryDb::default();
    let broker = InMemoryBroker::default();
    let a = create(&mut db, &broker, "alice").unwrap();
    let b = create(&mut db, &broker, "bob").unwrap();
    let found = QueryRoot::find_player_by_id_and_quiz_id(&db, &b.id()).unwrap();
    assert_eq!(found.cursor, 1);
    assert_eq!(found.name, "bob");
    assert_eq!(QueryRoot::find_player_by_id_and_quiz_id(&db, &a.id()).unwrap().name, "alice");
    assert_eq!(QueryRoot::find_player_by_id_and_quiz_id(&db, "2"), None);
    assert_eq!(QueryRoot::find_player_by_id_and_quiz_id(&db, "xyz"), None);
}
