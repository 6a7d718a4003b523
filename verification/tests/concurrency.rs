use std::sync::Arc;

use live_query_subscription::broker::InMemoryBroker;
use live_query_subscription::service::{MutationRoot, QueryRoot, SubscriptionRoot};
use live_query_subscription::store::InMemoryDb;
use live_query_subscription::subscription::Pulled;

#[test]
fn concurrent_creates_get_distinct_contiguous_cursors() {
    let rt = tokio::runtime::Builder::new_multi_thread()
        .worker_threads(4)
        .build()
        .unwrap();
    let db = Arc::new(tokio::sync::RwLock::new(InMemoryDb::default()));
    let broker = Arc::new(InMemoryBroker::default());
    let n: usize = 16;
    let cursors = rt.block_on(async {
        let mut handles = Vec::new();
        for i in 0..n {
            let db = Arc::clone(&db);
            let broker = Arc::clone(&broker);
            handles.push(tokio::spawn(async move {
                let mut guard = db.write().await;
                MutationRoot::create_player(&mut guard, &broker, format!("player{}", i))
            }));
        }
        let mut cursors = Vec::new();
        for h in handles {
            let created = h.await.unwrap().expect("all distinct names must succeed");
            cursors.push(created.cursor);
        }
        cursors
    });
    let mut sorted = cursors.clone();
    sorted.sort_unstable();
    let expected: Vec<usize> = (0..n).collect();
    assert_eq!(sorted, expected, "no duplicate and no gap in assigned cursors");
    let snapshot = rt.block_on(async { QueryRoot::players(&*db.read().await) });
    assert_eq!(snapshot.len(), n);
    for (i, p) in snapshot.iter().enumerate() {
        assert_eq!(p.cursor, i);
    }
}

#[test]
fn subscriber_sees_writes_from_other_tasks_in_order() {
    let rt = tokio::runtime::Builder::new_multi_thread()
        .worker_threads(2)
        .build()
        .unwrap();
    let db = Arc::new(tokio::sync::RwLock::new(InMemoryDb::default()));
    let broker = Arc::new(InMemoryBroker::default());
    let mut sub = rt.block_on(async {
        SubscriptionRoot::new_players(&*db.read().await, &broker, None).unwrap()
    });
    rt.block_on(async {
        let writer_db = Arc::clone(&db);
        let writer_broker = Arc::clone(&broker);
        tokio::spawn(async move {
            let mut guard = writer_db.write().await;
            MutationRoot::create_player(&mut guard, &writer_broker, String::from("alice"))
                .unwrap();
            MutationRoot::create_player(&mut guard, &writer_broker, String::from("bob")).unwrap();
        })
        .await
        .unwrap();
    });
    match sub.try_next() {
        Pulled::Item(p) => assert_eq!(p.cursor, 0),
        other => panic!("expected the first live event, got {:?}", other),
    }
    match sub.try_next() {
        Pulled::Item(p) => assert_eq!(p.cursor, 1),
        other => panic!("expected the second live event, got {:?}", other),
    }
    assert!(matches!(sub.try_next(), Pulled::Pending));
}
