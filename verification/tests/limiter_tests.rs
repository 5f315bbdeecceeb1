use sheetcrop::{classify_upstream, http_status, Error, Limiter};

#[test]
fn the_k_plus_first_concurrent_request_is_rejected() {
    let mut l = Limiter::new(3);
    assert!(l.try_acquire());
    assert!(l.try_acquire());
    assert!(l.try_acquire());
    // Capacity 3: the fourth concurrent request fails fast, it is not queued.
    assert!(!l.try_acquire());
    assert!(!l.try_acquire());
}

#[test]
fn a_release_frees_a_slot_for_the_next_request() {
    let mut l = Limiter::new(2);
    assert!(l.try_acquire());
    assert!(l.try_acquire());
    assert!(!l.try_acquire());
    l.release();
    assert!(l.try_acquire());
    assert!(!l.try_acquire());
}

#[test]
fn zero_capacity_rejects_everything() {
    let mut l = Limiter::new(0);
    assert!(!l.try_acquire());
}

#[test]
fn limiter_exhaustion_is_surfaced_as_429() {
    assert_eq!(http_status(&Error::TooManyConcurrentRequests), 429);
}

#[test]
fn upstream_statuses_are_classified() {
    assert_eq!(classify_upstream(200), None);
    assert_eq!(classify_upstream(399), None);
    assert_eq!(classify_upstream(400), Some(Error::UpstreamError(400)));
    assert_eq!(classify_upstream(503), Some(Error::UpstreamError(503)));
    assert_eq!(classify_upstream(304), Some(Error::NotModified));
}

#[test]
fn statuses_follow_the_error_taxonomy() {
    assert_eq!(http_status(&Error::NotModified), 304);
    assert_eq!(http_status(&Error::UpstreamError(502)), 500);
    assert_eq!(http_status(&Error::DecodeError), 500);
    assert_eq!(http_status(&Error::InvalidCropBounds), 500);
    assert_eq!(http_status(&Error::EncodeError), 500);
    assert_eq!(http_status(&Error::ConfigurationError), 500);
}
