use remote_input_server::registry::ClientRegistry;

#[test]
fn counts_follow_inserts_and_removes() {
    let mut r = ClientRegistry::new();
    assert_eq!(r.count(), 0);
    assert_eq!(r.insert(7), 1);
    assert_eq!(r.insert(8), 2);
    assert_eq!(r.insert(9), 3);
    assert!(r.contains(8));
    assert_eq!(r.remove(8), 2);
    assert!(!r.contains(8));
    assert_eq!(r.remove(8), 2);
    assert_eq!(r.remove(7), 1);
    assert_eq!(r.remove(9), 0);
}

#[test]
fn duplicate_insert_does_not_grow_the_registry() {
    let mut r = ClientRegistry::new();
    assert_eq!(r.insert(42), 1);
    assert_eq!(r.insert(42), 1);
    assert_eq!(r.count(), 1);
}

#[test]
fn drain_empties_and_reports_previous_size() {
    let mut r = ClientRegistry::new();
    r.insert(1);
    r.insert(2);
    assert_eq!(r.drain(), 2);
    assert_eq!(r.count(), 0);
    assert_eq!(r.drain(), 0);
}
