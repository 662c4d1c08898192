use ctmp_relay::registry::Registry;
use ctmp_relay::registry::Rejected;

#[test]
fn starts_empty_with_given_capacity() {
    let r = Registry::new(100);
    assert_eq!(r.len(), 0);
    assert_eq!(r.capacity(), 100);
}

#[test]
fn registration_over_capacity_is_rejected() {
    let mut r = Registry::new(2);
    assert_eq!(r.register(1), Ok(()));
    assert_eq!(r.register(2), Ok(()));
    // The third concurrent registration is rejected...
    assert_eq!(r.register(3), Err(Rejected));
    // ...while every previously registered destination remains.
    assert_eq!(r.len(), 2);
    assert!(r.contains(1));
    assert!(r.contains(2));
    assert!(!r.contains(3));
}

#[test]
fn hundredth_and_first_destination_is_rejected() {
    let mut r = Registry::new(100);
    for id in 0..100 {
        assert_eq!(r.register(id), Ok(()));
    }
    assert_eq!(r.register(100), Err(Rejected));
    assert_eq!(r.len(), 100);
}

#[test]
fn zero_capacity_rejects_everything() {
    let mut r = Registry::new(0);
    assert_eq!(r.register(7), Err(Rejected));
    assert_eq!(r.len(), 0);
}

#[test]
fn broadcast_prunes_exactly_the_failed_destinations() {
    let mut r = Registry::new(10);
    r.register(1).unwrap();
    r.register(2).unwrap();
    r.register(3).unwrap();
    let delivered = vec![true, false, true];
    let count = r.apply_broadcast(&delivered);
    assert_eq!(count, 2);
    assert_eq!(r.len(), 2);
    assert!(r.contains(1));
    assert!(!r.contains(2));
    assert!(r.contains(3));
}

#[test]
fn removed_destination_stays_out_across_later_broadcasts() {
    let mut r = Registry::new(10);
    r.register(1).unwrap();
    r.register(2).unwrap();
    // Destination 2's write fails: it is removed permanently.
    assert_eq!(r.apply_broadcast(&vec![true, false]), 1);
    assert!(!r.contains(2));
    // The next broadcast goes to the single remaining member only.
    assert_eq!(r.apply_broadcast(&vec![true]), 1);
    assert_eq!(r.len(), 1);
    assert!(r.contains(1));
    assert!(!r.contains(2));
}

#[test]
fn capacity_frees_up_after_pruning() {
    let mut r = Registry::new(2);
    r.register(1).unwrap();
    r.register(2).unwrap();
    assert_eq!(r.register(3), Err(Rejected));
    assert_eq!(r.apply_broadcast(&vec![false, true]), 1);
    assert_eq!(r.register(3), Ok(()));
    assert_eq!(r.len(), 2);
    assert!(r.contains(2));
    assert!(r.contains(3));
}

#[test]
fn all_writes_failing_empties_the_registry() {
    let mut r = Registry::new(5);
    r.register(1).unwrap();
    r.register(2).unwrap();
    assert_eq!(r.apply_broadcast(&vec![false, false]), 0);
    assert_eq!(r.len(), 0);
}
