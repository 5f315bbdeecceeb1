use sheetcrop::{Bitmap, BitmapCache, Flight};

fn key(s: &str) -> Vec<u8> {
    s.as_bytes().to_vec()
}

fn bitmap(tag: u8) -> Bitmap {
    Bitmap { width: 1, height: 1, pixels: vec![tag, tag, tag, 255] }
}

#[test]
fn first_caller_becomes_the_producer() {
    let mut cache = BitmapCache::new(4);
    assert!(matches!(cache.lookup(&key("/sheet.png")), Flight::Producer));
}

#[test]
fn concurrent_callers_wait_for_the_single_producer() {
    let mut cache = BitmapCache::new(4);
    assert!(matches!(cache.lookup(&key("/sheet.png")), Flight::Producer));
    // Every further request for the same key coalesces onto the first fetch.
    assert!(matches!(cache.lookup(&key("/sheet.png")), Flight::Waiter));
    assert!(matches!(cache.lookup(&key("/sheet.png")), Flight::Waiter));
    // A different key gets its own producer.
    assert!(matches!(cache.lookup(&key("/other.png")), Flight::Producer));
}

#[test]
fn waiters_receive_the_producers_bitmap() {
    let mut cache = BitmapCache::new(4);
    assert!(matches!(cache.lookup(&key("/sheet.png")), Flight::Producer));
    assert!(matches!(cache.lookup(&key("/sheet.png")), Flight::Waiter));
    cache.complete_ok(&key("/sheet.png"), bitmap(42));
    match cache.lookup(&key("/sheet.png")) {
        Flight::Ready(b) => assert_eq!(b.pixels, vec![42, 42, 42, 255]),
        _ => panic!("expected the completed bitmap"),
    }
}

#[test]
fn a_failed_producer_leaves_no_entry_and_the_next_caller_retries() {
    let mut cache = BitmapCache::new(4);
    assert!(matches!(cache.lookup(&key("/sheet.png")), Flight::Producer));
    cache.complete_err(&key("/sheet.png"));
    assert!(matches!(cache.lookup(&key("/sheet.png")), Flight::Producer));
}

#[test]
fn capacity_evicts_the_least_recently_used_bitmap() {
    let mut cache = BitmapCache::new(1);
    assert!(matches!(cache.lookup(&key("/a")), Flight::Producer));
    cache.complete_ok(&key("/a"), bitmap(1));
    assert!(matches!(cache.lookup(&key("/b")), Flight::Producer));
    cache.complete_ok(&key("/b"), bitmap(2));
    // Capacity 1: completing b evicted a; b is served, a must be refetched.
    assert!(matches!(cache.lookup(&key("/b")), Flight::Ready(_)));
    assert!(matches!(cache.lookup(&key("/a")), Flight::Producer));
}

#[test]
fn a_recent_hit_is_kept_over_a_stale_entry() {
    let mut cache = BitmapCache::new(2);
    assert!(matches!(cache.lookup(&key("/a")), Flight::Producer));
    cache.complete_ok(&key("/a"), bitmap(1));
    assert!(matches!(cache.lookup(&key("/b")), Flight::Producer));
    cache.complete_ok(&key("/b"), bitmap(2));
    // Touch a: it becomes the most recently used.
    assert!(matches!(cache.lookup(&key("/a")), Flight::Ready(_)));
    assert!(matches!(cache.lookup(&key("/c")), Flight::Producer));
    cache.complete_ok(&key("/c"), bitmap(3));
    // b was the least recently used and is gone; a survived.
    assert!(matches!(cache.lookup(&key("/a")), Flight::Ready(_)));
    assert!(matches!(cache.lookup(&key("/b")), Flight::Producer));
}

#[test]
fn an_in_flight_slot_is_never_evicted() {
    let mut cache = BitmapCache::new(1);
    assert!(matches!(cache.lookup(&key("/slow")), Flight::Producer));
    assert!(matches!(cache.lookup(&key("/a")), Flight::Producer));
    cache.complete_ok(&key("/a"), bitmap(1));
    assert!(matches!(cache.lookup(&key("/b")), Flight::Producer));
    cache.complete_ok(&key("/b"), bitmap(2));
    // The slow fetch is still coalesced on, whatever was evicted around it.
    assert!(matches!(cache.lookup(&key("/slow")), Flight::Waiter));
    cache.complete_ok(&key("/slow"), bitmap(9));
    match cache.lookup(&key("/slow")) {
        Flight::Ready(b) => assert_eq!(b.pixels, vec![9, 9, 9, 255]),
        _ => panic!("expected the slow producer's bitmap"),
    }
}
