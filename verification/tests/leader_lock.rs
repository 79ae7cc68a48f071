use soroscope_core::leader_lock::{
    AcquireAction, AcquireEvent, KeepaliveEvent, KeepaliveReport, LeaseCommand, RedisLeaderLock, RELEASE_SCRIPT,
    RENEW_SCRIPT,
};
use std::time::Duration;
use tokio::time::Instant;

const SECOND: u64 = 1_000_000_000;

fn make_lock(ttl: Duration) -> RedisLeaderLock {
    RedisLeaderLock::new("soroscope:test:leader", ttl)
}

#[test]
fn zero_ttl_is_clamped_to_one_millisecond() {
    let lock = make_lock(Duration::ZERO);
    assert_eq!(lock.ttl_ms(), 1, "TTL must be at least 1 ms");
}

#[test]
fn token_is_non_empty_and_unique() {
    let a = make_lock(Duration::from_secs(5));
    let b = make_lock(Duration::from_secs(5));
    assert!(!a.token().is_empty());
    assert_ne!(a.token(), b.token(), "each lock instance must have a distinct token");
}

#[test]
fn lease_not_locally_valid_before_acquisition() {
    let lock = make_lock(Duration::from_secs(5));
    assert!(
        !lock.is_lease_locally_valid(0),
        "lease must not be locally valid before any acquisition attempt"
    );
    assert!(lock.lease_deadline().is_none());
}

#[test]
fn monotonic_deadline_survives_wall_clock_jump() {
    let start = Instant::now();
    let deadline = start + Duration::from_secs(1);
    assert!(Instant::now() < deadline);
    assert_eq!(deadline.duration_since(start), Duration::from_secs(1));

    let mut lock = make_lock(Duration::from_secs(1));
    lock.update_lease_deadline(7);
    assert_eq!(lock.lease_deadline(), Some(7 + SECOND as u128));
}

#[test]
fn simulated_lease_expires_after_ttl() {
    let mut lock = make_lock(Duration::from_secs(5));
    lock.update_lease_deadline(SECOND);
    assert!(lock.is_lease_locally_valid(SECOND), "should be valid immediately after acquisition");
    assert!(lock.is_lease_locally_valid(4 * SECOND), "should still be valid at 3 s");
    assert!(!lock.is_lease_locally_valid(7 * SECOND), "should be expired at 6 s");
    assert!(lock.is_lease_locally_valid(6 * SECOND - 1));
    assert!(!lock.is_lease_locally_valid(6 * SECOND));
}

#[test]
fn simulated_release_clears_local_deadline() {
    let mut lock = make_lock(Duration::from_secs(5));
    lock.update_lease_deadline(0);
    assert!(lock.is_lease_locally_valid(1));
    let command = lock.release();
    assert!(!lock.is_lease_locally_valid(1), "deadline must be cleared after release");
    assert!(lock.lease_deadline().is_none());
    match command {
        LeaseCommand::Release { script, key, token } => {
            assert_eq!(script, RELEASE_SCRIPT);
            assert_eq!(key, "soroscope:test:leader");
            assert_eq!(token, lock.token());
        }
        _ => panic!("a release command"),
    }
}

#[test]
fn two_locks_have_different_tokens() {
    let lock_a = make_lock(Duration::from_secs(10));
    let lock_b = make_lock(Duration::from_secs(10));
    assert_ne!(
        lock_a.token(),
        lock_b.token(),
        "distinct instances must carry distinct tokens to enforce mutual exclusion"
    );
}

#[test]
fn keepalive_interval_is_one_third_of_ttl() {
    let ttl = Duration::from_millis(300);
    let lock = make_lock(ttl);
    let expected_interval_ms = lock.ttl_ms() / 3;
    assert_eq!(expected_interval_ms, 100);
    assert_eq!(lock.keepalive_interval_ms(), 100);
}

#[test]
fn keepalive_interval_is_at_least_one_ms_for_tiny_ttls() {
    let lock = make_lock(Duration::from_millis(1));
    let interval_ms = (lock.ttl_ms() / 3).max(1);
    assert!(interval_ms >= 1);
    assert_eq!(lock.keepalive_interval_ms(), 1);
    assert_eq!(make_lock(Duration::from_millis(2)).keepalive_interval_ms(), 1);
    assert_eq!(make_lock(Duration::from_millis(7)).keepalive_interval_ms(), 2);
}

#[test]
fn lease_duration_is_in_whole_milliseconds() {
    assert_eq!(make_lock(Duration::from_micros(2_999)).ttl_ms(), 2);
    assert_eq!(make_lock(Duration::from_micros(999)).ttl_ms(), 1);
    assert_eq!(make_lock(Duration::MAX).ttl_ms(), u64::MAX);
}

#[test]
fn longest_lease_has_a_deadline() {
    let mut lock = make_lock(Duration::MAX);
    lock.update_lease_deadline(u64::MAX);
    let expected = u64::MAX as u128 + u64::MAX as u128 * 1_000_000;
    assert_eq!(lock.lease_deadline(), Some(expected));
    assert!(lock.is_lease_locally_valid(u64::MAX));
}

/// What Redis holds for the key, with the commands of the protocol.
struct Store {
    entry: Option<(String, u64)>,
}

impl Store {
    fn live(&self, now_ms: u64) -> Option<&str> {
        match &self.entry {
            Some((token, expires)) if now_ms < *expires => Some(token.as_str()),
            _ => None,
        }
    }

    fn serve(&mut self, command: LeaseCommand, now_ms: u64) -> AcquireEvent {
        match command {
            LeaseCommand::Renew { script, token, ttl_ms, .. } => {
                assert_eq!(script, RENEW_SCRIPT);
                if self.live(now_ms) == Some(token.as_str()) {
                    self.entry = Some((token, now_ms + ttl_ms));
                    AcquireEvent::Renewal(Some(1))
                } else {
                    AcquireEvent::Renewal(Some(0))
                }
            }
            LeaseCommand::SetIfAbsent { token, ttl_ms, .. } => {
                if self.live(now_ms).is_none() {
                    self.entry = Some((token, now_ms + ttl_ms));
                    AcquireEvent::Acquisition(Some(true))
                } else {
                    AcquireEvent::Acquisition(Some(false))
                }
            }
            LeaseCommand::Release { token, .. } => {
                if self.live(now_ms) == Some(token.as_str()) {
                    self.entry = None;
                }
                AcquireEvent::Begin
            }
        }
    }

    fn attempt(&mut self, lock: &mut RedisLeaderLock, now_ms: u64) -> bool {
        let mut event = AcquireEvent::Begin;
        loop {
            match lock.try_acquire_or_renew(event, now_ms * 1_000_000) {
                AcquireAction::Connect => event = AcquireEvent::Connected,
                AcquireAction::Send(command) => event = self.serve(command, now_ms),
                AcquireAction::Finish(leads) => return leads,
            }
        }
    }
}

#[test]
fn one_instance_leads_until_it_releases() {
    let mut store = Store { entry: None };
    let mut a = make_lock(Duration::from_millis(100));
    let mut b = make_lock(Duration::from_millis(100));
    assert!(store.attempt(&mut a, 0));
    assert!(!store.attempt(&mut b, 50));
    assert!(store.attempt(&mut a, 90));
    assert!(!store.attempt(&mut b, 180), "the renewed lease still lives");
    let command = a.release();
    store.serve(command, 185);
    assert!(store.attempt(&mut b, 186), "no need to wait for the expiry");
    assert!(!store.attempt(&mut a, 187));
    assert!(b.is_lease_locally_valid(187_000_000));
    assert!(!a.is_lease_locally_valid(187_000_000));
}

#[test]
fn lapsed_lease_is_taken_over_and_not_touched_by_the_stale_leader() {
    let mut store = Store { entry: None };
    let mut a = make_lock(Duration::from_millis(100));
    let mut b = make_lock(Duration::from_millis(100));
    assert!(store.attempt(&mut a, 0));
    assert!(store.attempt(&mut b, 100));
    let before = store.entry.clone();
    let event = store.serve(a.keepalive_command(), 120);
    match event {
        AcquireEvent::Renewal(reply) => assert_eq!(
            a.keepalive(KeepaliveEvent::Renewal(reply), 120_000_000),
            KeepaliveReport::Lost
        ),
        _ => panic!("a renewal reply"),
    }
    let command = a.release();
    store.serve(command, 121);
    assert_eq!(store.entry, before);
    assert!(!store.attempt(&mut a, 150));
    assert_eq!(store.entry, before);
}

#[test]
fn holder_leads_though_its_local_lease_has_lapsed() {
    let mut store = Store { entry: None };
    let mut lock = make_lock(Duration::from_millis(100));
    assert!(store.attempt(&mut lock, 0));
    // Redis extends the lease, but the reply is lost on the way.
    store.serve(lock.keepalive_command(), 90);
    assert!(!lock.is_lease_locally_valid(150_000_000));
    assert!(store.attempt(&mut lock, 150));
    assert!(lock.is_lease_locally_valid(150_000_000));
    assert_eq!(store.live(249), Some(lock.token()));
}

#[test]
fn attempt_steps_follow_the_replies() {
    let mut lock = make_lock(Duration::from_millis(10));
    assert!(matches!(
        lock.try_acquire_or_renew(AcquireEvent::Begin, 0),
        AcquireAction::Connect
    ));
    assert!(matches!(
        lock.try_acquire_or_renew(AcquireEvent::Connected, 0),
        AcquireAction::Send(LeaseCommand::Renew { ttl_ms: 10, .. })
    ));
    for reply in [None, Some(0), Some(2), Some(-1)] {
        assert!(matches!(
            lock.try_acquire_or_renew(AcquireEvent::Renewal(reply), 0),
            AcquireAction::Send(LeaseCommand::SetIfAbsent { ttl_ms: 10, .. })
        ));
    }
    assert!(lock.lease_deadline().is_none());
    assert!(matches!(
        lock.try_acquire_or_renew(AcquireEvent::Acquisition(None), 0),
        AcquireAction::Finish(false)
    ));
    assert!(matches!(
        lock.try_acquire_or_renew(AcquireEvent::Acquisition(Some(true)), 5),
        AcquireAction::Finish(true)
    ));
    assert_eq!(lock.lease_deadline(), Some(10_000_005));

    assert!(matches!(
        lock.try_acquire_or_renew(AcquireEvent::Begin, 10_000_005),
        AcquireAction::Connect
    ));
    assert!(lock.lease_deadline().is_none());
    assert!(matches!(
        lock.try_acquire_or_renew(AcquireEvent::Connected, 10_000_005),
        AcquireAction::Send(LeaseCommand::Renew { .. })
    ));
    assert!(matches!(
        lock.try_acquire_or_renew(AcquireEvent::ConnectionFailed, 0),
        AcquireAction::Finish(false)
    ));
}

#[test]
fn keepalive_keeps_or_clears_the_lease() {
    let mut lock = make_lock(Duration::from_millis(10));
    assert_eq!(
        lock.keepalive(KeepaliveEvent::Renewal(Some(1)), 3),
        KeepaliveReport::Renewed
    );
    assert_eq!(lock.lease_deadline(), Some(10_000_003));
    assert_eq!(
        lock.keepalive(KeepaliveEvent::ConnectionFailed, 4),
        KeepaliveReport::Unreachable
    );
    assert_eq!(lock.lease_deadline(), Some(10_000_003));
    assert_eq!(lock.keepalive(KeepaliveEvent::Renewal(None), 5), KeepaliveReport::Lost);
    assert_eq!(lock.lease_deadline(), None);
    assert!(matches!(lock.keepalive_command(), LeaseCommand::Renew { .. }));
}

#[test]
fn token_is_a_random_uuid_text() {
    let lock = make_lock(Duration::from_secs(1));
    let token = lock.token().as_bytes();
    assert_eq!(lock.key(), "soroscope:test:leader");
    assert_eq!(token.len(), 36);
    for (i, &b) in token.iter().enumerate() {
        match i {
            8 | 13 | 18 | 23 => assert_eq!(b, b'-'),
            14 => assert_eq!(b, b'4'),
            19 => assert!(b"89ab".contains(&b)),
            _ => assert!(b.is_ascii_digit() || (b'a'..=b'f').contains(&b)),
        }
    }
}
