use monx::store::BoundedStore;

#[test]
fn store_keeps_last_items_in_order() {
    let mut store: BoundedStore<u32> = BoundedStore::new(3);
    for n in 1..=7u32 {
        store.append(n);
    }
    assert_eq!(store.len(), 3);
    assert_eq!(store.snapshot(), vec![5, 6, 7]);
}

#[test]
fn store_below_capacity_keeps_everything() {
    let mut store: BoundedStore<u32> = BoundedStore::new(5);
    store.append(10);
    store.append(20);
    assert_eq!(store.len(), 2);
    assert!(!store.is_empty());
    assert_eq!(store.snapshot(), vec![10, 20]);
    assert_eq!(store.capacity(), 5);
}

#[test]
fn store_never_exceeds_capacity() {
    let mut store: BoundedStore<usize> = BoundedStore::new(4);
    for n in 0..100usize {
        store.append(n);
        assert!(store.len() <= 4);
    }
    assert_eq!(store.snapshot(), vec![96, 97, 98, 99]);
}

#[test]
fn store_of_capacity_zero_stays_empty() {
    let mut store: BoundedStore<u8> = BoundedStore::new(0);
    store.append(1);
    store.extend(vec![2, 3]);
    assert!(store.is_empty());
    assert_eq!(store.len(), 0);
}

#[test]
fn store_extend_is_like_repeated_append() {
    let mut one: BoundedStore<u32> = BoundedStore::new(4);
    let mut other: BoundedStore<u32> = BoundedStore::new(4);
    one.extend(vec![1, 2, 3]);
    one.extend(vec![4, 5, 6]);
    for n in 1..=6u32 {
        other.append(n);
    }
    assert_eq!(one.snapshot(), vec![3, 4, 5, 6]);
    assert_eq!(one.snapshot(), other.snapshot());
}

#[test]
fn store_extend_with_batch_larger_than_capacity() {
    let mut store: BoundedStore<u32> = BoundedStore::new(2);
    store.append(9);
    store.extend(vec![1, 2, 3, 4, 5]);
    assert_eq!(store.snapshot(), vec![4, 5]);
}

#[test]
fn store_get_and_replace() {
    let mut store: BoundedStore<u32> = BoundedStore::new(3);
    store.extend(vec![1, 2, 3]);
    assert_eq!(store.get(0), Some(&1));
    assert_eq!(store.get(2), Some(&3));
    assert_eq!(store.get(3), None);
    assert!(store.replace(1, 20));
    assert!(!store.replace(3, 40));
    assert_eq!(store.items(), &vec![1, 20, 3]);
}
