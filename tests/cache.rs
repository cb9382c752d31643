use catnip::cache::{Expiry, HashTtlCache};

#[test]
fn expiry_has_expired_at_and_after_its_instant() {
    let e = Expiry(10);
    assert!(!e.has_expired(9));
    assert!(e.has_expired(10));
    assert!(e.has_expired(11));
}

#[test]
fn evict_at_fifteen_takes_only_the_first_of_three() {
    let mut c: HashTtlCache<u32, u32> = HashTtlCache::new(None, 0);
    assert_eq!(c.insert_with_ttl(1, 100, Some(10)), None);
    assert_eq!(c.insert_with_ttl(2, 200, Some(20)), None);
    assert_eq!(c.insert_with_ttl(3, 300, Some(30)), None);
    let evicted = c.try_evict(15);
    assert_eq!(evicted.len(), 1);
    assert_eq!(evicted.get(&1), Some(&100));
    assert_eq!(c.get(&1), None);
    assert_eq!(c.get(&2), Some(&200));
    assert_eq!(c.get(&3), Some(&300));
}

#[test]
fn overwrite_with_longer_ttl_survives_past_first_expiry() {
    let mut c: HashTtlCache<u32, u32> = HashTtlCache::new(None, 0);
    assert_eq!(c.insert_with_ttl(7, 1, Some(10)), None);
    assert!(c.try_evict(5).is_empty());
    assert_eq!(c.insert_with_ttl(7, 2, Some(100)), Some(1));
    let evicted = c.try_evict(20);
    assert!(evicted.is_empty());
    assert_eq!(c.get(&7), Some(&2));
    let evicted = c.try_evict(105);
    assert_eq!(evicted.get(&7), Some(&2));
    assert_eq!(c.get(&7), None);
}

#[test]
fn second_insert_returns_first_value_and_get_sees_second() {
    let mut c: HashTtlCache<u32, u32> = HashTtlCache::new(None, 0);
    assert_eq!(c.insert_with_ttl(4, 40, Some(3)), None);
    assert_eq!(c.insert_with_ttl(4, 41, Some(8)), Some(40));
    assert_eq!(c.get(&4), Some(&41));
}

#[test]
fn expired_first_value_is_not_returned_after_eviction() {
    let mut c: HashTtlCache<u32, u32> = HashTtlCache::new(None, 0);
    c.insert_with_ttl(4, 40, Some(3));
    let evicted = c.try_evict(3);
    assert_eq!(evicted.get(&4), Some(&40));
    assert_eq!(c.insert_with_ttl(4, 41, Some(8)), None);
    assert_eq!(c.get(&4), Some(&41));
}

#[test]
fn immortal_entries_are_never_evicted() {
    let mut c: HashTtlCache<u32, u32> = HashTtlCache::new(None, 0);
    c.insert(9, 90);
    assert!(c.try_evict(1_000_000).is_empty());
    assert_eq!(c.get(&9), Some(&90));
}

#[test]
fn shorter_rewrite_evicts_at_new_expiry() {
    let mut c: HashTtlCache<u32, u32> = HashTtlCache::new(None, 0);
    c.insert_with_ttl(5, 1, Some(10));
    c.insert_with_ttl(5, 2, Some(4));
    let evicted = c.try_evict(6);
    assert_eq!(evicted.get(&5), Some(&2));
    assert!(c.try_evict(20).is_empty());
}

#[test]
fn rewrite_without_ttl_keeps_entry_despite_stale_tombstone() {
    let mut c: HashTtlCache<u32, u32> = HashTtlCache::new(None, 0);
    c.insert_with_ttl(5, 1, Some(4));
    c.insert_with_ttl(5, 2, Some(10));
    c.insert_with_ttl(5, 3, None);
    assert!(c.try_evict(20).is_empty());
    assert_eq!(c.get(&5), Some(&3));
}

#[test]
fn default_ttl_applies_to_insert() {
    let mut c: HashTtlCache<u32, u32> = HashTtlCache::new(Some(5), 0);
    c.insert(1, 10);
    assert!(c.try_evict(4).is_empty());
    let evicted = c.try_evict(5);
    assert_eq!(evicted.get(&1), Some(&10));
}

#[test]
fn equal_expiries_are_all_evicted() {
    let mut c: HashTtlCache<u32, u32> = HashTtlCache::new(None, 0);
    c.insert_with_ttl(1, 10, Some(5));
    c.insert_with_ttl(2, 20, Some(5));
    c.insert_with_ttl(1, 11, Some(5));
    let evicted = c.try_evict(5);
    assert_eq!(evicted.len(), 2);
    assert_eq!(evicted.get(&1), Some(&11));
    assert_eq!(evicted.get(&2), Some(&20));
}

#[test]
fn remove_returns_live_values_only_once() {
    let mut c: HashTtlCache<u32, u32> = HashTtlCache::new(None, 0);
    c.insert_with_ttl(1, 10, Some(5));
    c.insert(2, 20);
    assert_eq!(c.remove(&1), Some(10));
    assert_eq!(c.remove(&1), None);
    assert_eq!(c.remove(&2), Some(20));
    assert_eq!(c.remove(&3), None);
    assert!(c.try_evict(10).is_empty());
}

#[test]
fn out_of_order_expiries_are_evicted_in_turn() {
    let mut c: HashTtlCache<u32, u32> = HashTtlCache::new(None, 0);
    c.insert_with_ttl(1, 10, Some(30));
    c.insert_with_ttl(2, 20, Some(10));
    c.insert_with_ttl(3, 30, Some(20));
    c.insert_with_ttl(2, 21, Some(25));
    assert!(c.try_evict(15).is_empty());
    let evicted = c.try_evict(22);
    assert_eq!(evicted.len(), 1);
    assert_eq!(evicted.get(&3), Some(&30));
    let evicted = c.try_evict(30);
    assert_eq!(evicted.len(), 2);
    assert_eq!(evicted.get(&2), Some(&21));
    assert_eq!(evicted.get(&1), Some(&10));
    assert!(c.try_evict(1000).is_empty());
}
