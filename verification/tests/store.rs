use pomodoro::notification::NotificationSled;
use pomodoro::store::SledStore;

#[test]
fn temporary_store_starts_empty() {
    let store = SledStore::new_temporary().expect("a scratch store must open");
    let all = store.list_all_notifications().expect("listing an empty store succeeds");
    assert!(all.is_empty());
}

#[test]
fn insert_then_get_returns_the_record() {
    let mut store = SledStore::new_temporary().expect("a scratch store must open");
    let n = NotificationSled::new(String::from("persisted"), 25, 5, 1_000);
    let id = store.create_notification(&n).expect("creating a record succeeds");
    assert_eq!(id, n.get_id());

    let found = store.get(id).expect("reading back succeeds");
    assert_eq!(found, Some(n));
}

#[test]
fn get_absent_id_is_none() {
    let store = SledStore::new_temporary().expect("a scratch store must open");
    assert_eq!(store.get(12_345).expect("reading succeeds"), None);
}

#[test]
fn delete_removes_the_record() {
    let mut store = SledStore::new_temporary().expect("a scratch store must open");
    let n = NotificationSled::new(String::new(), 1, 1, 0);
    let id = store.create_notification(&n).expect("creating a record succeeds");
    store.delete(id).expect("deleting succeeds");
    assert_eq!(store.get(id).expect("reading succeeds"), None);
}

#[test]
fn three_records_two_pending_lists_two() {
    // Recovery: one record past both phases, two still pending; the
    // active listing drives startup, so exactly two tasks get spawned.
    let mut store = SledStore::new_temporary().expect("a scratch store must open");
    let now: i64 = 10_000;

    let finished = NotificationSled::new(String::from("long done"), 1, 1, 0);
    let pending_work = NotificationSled::new(String::from("working"), 10, 5, now - 60);
    let pending_break = NotificationSled::new(String::from("resting"), 1, 10, now - 120);

    store.create_notification(&finished).expect("creating succeeds");
    store.create_notification(&pending_work).expect("creating succeeds");
    store.create_notification(&pending_break).expect("creating succeeds");

    let active = store.list_notifications(now).expect("listing succeeds");
    assert_eq!(active.len(), 2);
    assert!(active.iter().all(|n| n.is_active(now)));
    assert!(active.iter().any(|n| n.get_id() == pending_work.get_id()));
    assert!(active.iter().any(|n| n.get_id() == pending_break.get_id()));

    // Startup spawns one scheduler task per listed record: exactly two.
    let mut registry: pomodoro::registry::TaskRegistry<u8> = pomodoro::registry::TaskRegistry::new();
    for n in &active {
        registry.insert(n.get_id(), 0);
    }
    assert_eq!(registry.len(), 2);

    let all = store.list_all_notifications().expect("listing succeeds");
    assert_eq!(all.len(), 3);
}

#[test]
fn records_survive_in_the_listing_after_expiry() {
    // History keeps expired records until they are deleted.
    let mut store = SledStore::new_temporary().expect("a scratch store must open");
    let n = NotificationSled::new(String::new(), 1, 0, 0);
    store.create_notification(&n).expect("creating succeeds");
    let active = store.list_notifications(1_000_000).expect("listing succeeds");
    assert!(active.is_empty());
    let all = store.list_all_notifications().expect("listing succeeds");
    assert_eq!(all.len(), 1);
}

#[test]
fn active_listing_as_of_now_finds_a_fresh_record() {
    let mut store = SledStore::new_temporary().expect("a scratch store must open");
    let n = NotificationSled::new(String::from("fresh"), 10, 5, chrono::Utc::now().timestamp());
    store.create_notification(&n).expect("creating succeeds");
    let active = store.list_active_now().expect("listing succeeds");
    assert_eq!(active.len(), 1);
    assert_eq!(active[0].get_id(), n.get_id());
}

#[test]
fn queue_time_is_now_on_an_empty_store() {
    let store = SledStore::new_temporary().expect("a scratch store must open");
    assert_eq!(store.get_time_for_queue_notification(5_000).expect("queue time"), 5_000);
}

#[test]
fn queue_time_is_the_last_pending_expiry() {
    let mut store = SledStore::new_temporary().expect("a scratch store must open");
    let now: i64 = 1_000;
    let a = NotificationSled::new(String::new(), 10, 5, now);
    let b = NotificationSled::new(String::new(), 30, 0, now);
    store.create_notification(&a).expect("creating succeeds");
    store.create_notification(&b).expect("creating succeeds");
    // b ends last: now + 30 minutes of work.
    assert_eq!(
        store.get_time_for_queue_notification(now).expect("queue time"),
        now + 30 * 60
    );
}

#[test]
fn insert_overwrites_under_the_same_id() {
    let mut store = SledStore::new_temporary().expect("a scratch store must open");
    let first = NotificationSled::new(String::from("first"), 1, 0, 0);
    let id = first.get_id();
    store.insert(id, &first).expect("inserting succeeds");
    let second = NotificationSled::new(String::from("second"), 2, 0, 0);
    store.insert(id, &second).expect("inserting succeeds");
    let found = store.get(id).expect("reading succeeds").expect("the key is present");
    // The stored value is the second record, which keeps its own id.
    assert_eq!(found.get_values().1, "second");
    assert_eq!(store.list_all_notifications().expect("listing succeeds").len(), 1);
}
