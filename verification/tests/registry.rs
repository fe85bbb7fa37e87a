use pomodoro::registry::TaskRegistry;

#[test]
fn empty_registry_has_no_entries() {
    let registry: TaskRegistry<u32> = TaskRegistry::new();
    assert_eq!(registry.len(), 0);
    assert!(!registry.contains(1));
}

#[test]
fn insert_then_remove_returns_the_handle() {
    let mut registry: TaskRegistry<&str> = TaskRegistry::new();
    registry.insert(10, "task-a");
    registry.insert(20, "task-b");
    assert_eq!(registry.len(), 2);
    assert!(registry.contains(10));
    assert!(registry.contains(20));

    assert_eq!(registry.remove(10), Some("task-a"));
    assert!(!registry.contains(10));
    assert!(registry.contains(20));
    assert_eq!(registry.len(), 1);
}

#[test]
fn remove_absent_id_is_none() {
    let mut registry: TaskRegistry<u32> = TaskRegistry::new();
    registry.insert(5, 50);
    assert_eq!(registry.remove(6), None);
    assert_eq!(registry.len(), 1);
}

#[test]
fn insert_replaces_under_the_same_id() {
    let mut registry: TaskRegistry<u32> = TaskRegistry::new();
    registry.insert(5, 50);
    registry.insert(5, 51);
    assert_eq!(registry.len(), 1);
    assert_eq!(registry.remove(5), Some(51));
    assert_eq!(registry.len(), 0);
}
