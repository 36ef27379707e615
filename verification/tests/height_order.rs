use ibc_handshake::height::Height;

#[test]
fn same_revision_orders_by_revision_height() {
    let h5 = Height::new(0, 5);
    let h9 = Height::new(0, 9);
    assert!(h5.lt(&h9));
    assert!(!h9.lt(&h5));
    assert!(!h5.lt(&h5));
    assert!(h5.le(&h5));
    assert!(h5.le(&h9));
    assert!(!h9.le(&h5));
}

#[test]
fn cross_revision_orders_by_revision_number_first() {
    let late_in_old = Height::new(0, 1_000_000);
    let early_in_new = Height::new(1, 1);
    assert!(late_in_old.lt(&early_in_new));
    assert!(!early_in_new.lt(&late_in_old));
    assert!(Height::new(2, 3).lt(&Height::new(3, 1)));
}

#[test]
fn increment_stays_in_revision() {
    let h = Height::new(4, 7);
    let next = h.increment();
    assert_eq!(next.revision_number, 4);
    assert_eq!(next.revision_height, 8);
    assert!(h.lt(&next));
}

#[test]
fn equal_heights_compare_equal() {
    let a = Height::new(1, 2);
    let b = Height::new(1, 2);
    assert_eq!(a, b);
    assert!(a.le(&b) && b.le(&a));
    assert!(!a.lt(&b) && !b.lt(&a));
}
