use mountpoint_core::singleflight::{renew, Renewal, Singleflight, CACHE_CAPACITY};
use std::time::{Duration, Instant};

const SECOND: u128 = 1_000_000_000;
const MILLISECOND: u128 = 1_000_000;

fn never() -> u64 {
    panic!("shouldn't be called")
}

fn wait(time: Duration) {
    let start = Instant::now();
    while start.elapsed() < time {}
}

#[test]
fn it_works() {
    let mut singleflight = Singleflight::new(SECOND);
    let result: Vec<u64> = (1..=10).map(|_| singleflight.get_or_compute(1, || 1)).collect();
    assert_eq!(result, vec![1; 10]);
}

#[test]
fn does_the_work_once() {
    let mut singleflight = Singleflight::new(SECOND);
    let result: Vec<u64> = (1..=10).map(|i| singleflight.get_or_compute(1, move || i)).collect();
    assert_eq!(result, vec![1; 10]);
}

#[test]
fn it_doesnt_use_values_for_different_keys() {
    let mut singleflight = Singleflight::new(SECOND);
    let result: Vec<u64> = (1..=10).map(|i| singleflight.get_or_compute(i, move || i)).collect();
    assert_eq!(result, (1..=10).collect::<Vec<u64>>());
}

#[test]
fn performs_the_operation_if_cache_is_expired() {
    let mut singleflight = Singleflight::new(10 * MILLISECOND);
    assert_eq!(singleflight.get_or_compute_at(1, 0, || 1), 1);
    assert_eq!(singleflight.get_or_compute_at(1, 1, never), 1);
    assert_eq!(singleflight.get_or_compute_at(1, 20 * MILLISECOND, || 42), 42);
    assert_eq!(singleflight.get_or_compute_at(1, 20 * MILLISECOND + 1, never), 42);
}

#[test]
fn the_clock_expires_values() {
    let mut singleflight = Singleflight::new(10 * MILLISECOND);
    assert_eq!(singleflight.get_or_compute(1, || 1), 1);
    wait(Duration::from_millis(20));
    assert_eq!(singleflight.get_or_compute(1, || 42), 42);
}

#[test]
fn the_clock_keeps_versions() {
    let mut singleflight = Singleflight::new(3600 * SECOND);
    let version = singleflight.version(5);
    wait(Duration::from_millis(1));
    assert_eq!(singleflight.version(5), version);
    assert!(singleflight.version(6) > version);
}

#[test]
fn a_value_lives_for_less_than_its_ttl() {
    let mut singleflight = Singleflight::new(10);
    assert_eq!(singleflight.get_or_compute_at(7, 100, || 1), 1);
    assert_eq!(singleflight.get_or_compute_at(7, 109, never), 1);
    assert_eq!(singleflight.get_or_compute_at(7, 110, || 2), 2);
    assert_eq!(singleflight.get_or_compute_at(7, 119, never), 2);
    assert_eq!(singleflight.get_or_compute_at(7, 120, || 3), 3);
}

#[test]
fn a_clock_that_steps_back_expires_nothing() {
    let mut singleflight = Singleflight::new(10);
    assert_eq!(singleflight.get_or_compute_at(7, 100, || 1), 1);
    assert_eq!(singleflight.get_or_compute_at(7, 50, never), 1);
}

#[test]
fn nothing_is_shared_without_a_ttl() {
    let mut singleflight = Singleflight::new(0);
    assert_eq!(singleflight.get_or_compute_at(7, 100, || 1), 1);
    assert_eq!(singleflight.get_or_compute_at(7, 100, || 2), 2);
    assert_eq!(singleflight.get_or_compute_at(7, 90, || 3), 3);
}

#[test]
fn versions_are_kept_until_they_expire() {
    let mut singleflight = Singleflight::new(10);
    assert_eq!(singleflight.version_at(1, 5), 5);
    assert_eq!(singleflight.version_at(1, 14), 5);
    assert_eq!(singleflight.version_at(1, 15), 15);
    assert_eq!(singleflight.version_at(2, 16), 16);
    assert_eq!(singleflight.version_at(1, 24), 15);
}

#[test]
fn values_that_fit_are_retained() {
    let mut singleflight = Singleflight::new(SECOND);
    for k in 0..32 {
        assert_eq!(singleflight.get_or_compute_at(k, 0, || k + 100), k + 100);
    }
    for k in 0..32 {
        assert_eq!(singleflight.get_or_compute_at(k, 1, never), k + 100);
    }
}

#[test]
fn repeated_requests_take_no_room() {
    let mut singleflight = Singleflight::new(SECOND);
    assert_eq!(singleflight.get_or_compute_at(1, 0, || 10), 10);
    for now in 0..1000 {
        assert_eq!(singleflight.get_or_compute_at(1, now, never), 10);
    }
}

#[test]
fn a_stored_value_answers_the_requests_for_its_version() {
    let mut singleflight = Singleflight::new(10);
    assert_eq!(singleflight.version_at(1, 5), 5);
    singleflight.store((1, 5), 7);
    assert_eq!(singleflight.get_or_compute_at(1, 14, never), 7);
    assert_eq!(singleflight.get_or_compute_at(2, 14, || 8), 8);
}

#[test]
fn values_of_expired_versions_are_not_served() {
    let mut singleflight = Singleflight::new(10);
    assert_eq!(singleflight.version_at(1, 5), 5);
    assert_eq!(singleflight.version_at(1, 15), 15);
    singleflight.store((1, 5), 1);
    assert_eq!(singleflight.get_or_compute_at(1, 16, || 2), 2);
    assert_eq!(singleflight.get_or_compute_at(1, 6, never), 2);
    singleflight.store((1, 5), 1);
    assert_eq!(singleflight.get_or_compute_at(1, 24, never), 2);
    assert_eq!(singleflight.get_or_compute_at(1, 25, || 3), 3);
}

#[test]
fn values_beyond_the_capacity_are_computed_again_or_kept() {
    let mut singleflight = Singleflight::new(SECOND);
    let keys = 4 * CACHE_CAPACITY as u64;
    for k in 0..keys {
        assert_eq!(singleflight.get_or_compute_at(k, 0, || k), k);
    }
    let mut again = 0;
    for k in 0..keys {
        let v = singleflight.get_or_compute_at(k, 1, || k + 10_000);
        assert!(v == k || v == k + 10_000);
        if v == k + 10_000 {
            again += 1;
        }
    }
    assert!(again > 0);
}

#[test]
fn removing_drops_one_value() {
    let mut singleflight = Singleflight::new(SECOND);
    assert_eq!(singleflight.get_or_compute_at(1, 5, || 10), 10);
    assert_eq!(singleflight.get_or_compute_at(2, 5, || 20), 20);
    singleflight.remove(&(1, 6));
    assert_eq!(singleflight.get_or_compute_at(1, 7, never), 10);
    singleflight.remove(&(1, 5));
    singleflight.remove(&(1, 5));
    assert_eq!(singleflight.get_or_compute_at(2, 7, never), 20);
    assert_eq!(singleflight.version_at(1, 7), 5);
    assert_eq!(singleflight.get_or_compute_at(1, 7, || 11), 11);
}

#[test]
fn versions_never_go_back() {
    let mut singleflight = Singleflight::new(10);
    let mut version = singleflight.version_at(1, 50);
    for now in [40, 55, 60, 58, 69, 70, 3, 95, 94, 105] {
        let next = singleflight.version_at(1, now);
        assert!(next == version || next >= version + 10);
        version = next;
    }
    assert_eq!(version, 105);
}

#[test]
fn renewals() {
    assert_eq!(renew(None, 7, 10), Renewal { version: 7, stale: None });
    assert_eq!(renew(Some(5), 14, 10), Renewal { version: 5, stale: None });
    assert_eq!(renew(Some(5), 15, 10), Renewal { version: 15, stale: Some(5) });
    assert_eq!(renew(Some(5), 1, 10), Renewal { version: 5, stale: None });
    assert_eq!(renew(Some(5), 5, 0), Renewal { version: 5, stale: Some(5) });
    assert_eq!(renew(Some(0), u128::MAX, u128::MAX), Renewal { version: u128::MAX, stale: Some(0) });
}
