//! Leader election among clustered instances by a renewable lease in Redis.
//!
//! 1. Acquisition sets the key to the instance's token if the key is absent,
//!    with an expiry, in one atomic command.
//! 2. Renewal extends the expiry only while the stored token is the instance's
//!    own, so that a stale leader never extends a lease that another took over.
//! 3. Release deletes the key only while the stored token is the instance's own,
//!    so that a new leader can be elected without waiting for the expiry.
//!
//! This module decides what to send to Redis and what each reply means. Whoever
//! drives it performs the commands and passes on the replies, together with the
//! reading of a monotonic clock in nanoseconds.

use crate::tokens::random_uuid;
use std::time::Duration;
use vstd::prelude::*;

verus! {

/// Renews the expiry of the lease if the stored token matches.
pub const RENEW_SCRIPT: &'static str = r#"
if redis.call("GET", KEYS[1]) == ARGV[1] then
    return redis.call("PEXPIRE", KEYS[1], ARGV[2])
else
    return 0
end
"#;

/// Deletes the key if the stored token matches.
pub const RELEASE_SCRIPT: &'static str = r#"
if redis.call("GET", KEYS[1]) == ARGV[1] then
    return redis.call("DEL", KEYS[1])
else
    return 0
end
"#;

/// Nanoseconds in a millisecond.
pub const NANOS_PER_MILLI: u128 = 1_000_000;

/// The whole seconds of a duration.
pub uninterp spec fn duration_secs(d: Duration) -> u64;

/// The nanoseconds of a duration beyond its whole seconds.
pub uninterp spec fn duration_subsec_nanos(d: Duration) -> u32;

/// `Duration::as_secs` returns the number of whole seconds.
pub assume_specification[ Duration::as_secs ](d: &Duration) -> (r: u64)
    ensures
        r == duration_secs(*d),
;

/// `Duration::subsec_nanos` returns the rest in nanoseconds, always less than a
/// second.
pub assume_specification[ Duration::subsec_nanos ](d: &Duration) -> (r: u32)
    ensures
        r == duration_subsec_nanos(*d),
        r < 1_000_000_000,
;

/// The whole milliseconds of a duration.
pub open spec fn duration_millis(d: Duration) -> int {
    duration_secs(d) * 1000 + duration_subsec_nanos(d) / 1_000_000
}

/// Counts the whole milliseconds of a duration.
fn whole_millis(d: Duration) -> (r: u128)
    ensures
        r == duration_millis(d),
{
    d.as_secs() as u128 * 1000 + (d.subsec_nanos() / 1_000_000) as u128
}

/// A command for Redis.
pub enum LeaseCommand {
    /// Evaluate the renewal script on the key with the token and the expiry.
    Renew { script: &'static str, key: String, token: String, ttl_ms: u64 },
    /// Set the key to the token with the expiry, if the key is absent.
    SetIfAbsent { key: String, token: String, ttl_ms: u64 },
    /// Evaluate the release script on the key with the token.
    Release { script: &'static str, key: String, token: String },
}

/// What happened in an attempt to become or remain leader.
pub enum AcquireEvent {
    /// The attempt starts.
    Begin,
    /// Redis could not be reached.
    ConnectionFailed,
    /// Redis was reached.
    Connected,
    /// The reply to the renewal command, or `None` if it failed.
    Renewal(Option<i64>),
    /// The reply to the acquisition command, or `None` if it failed.
    Acquisition(Option<bool>),
}

/// What happened on a tick of the background keepalive.
pub enum KeepaliveEvent {
    /// Redis could not be reached.
    ConnectionFailed,
    /// The reply to the renewal command, or `None` if it failed.
    Renewal(Option<i64>),
}

/// What to do next in an attempt to become or remain leader.
pub enum AcquireAction {
    /// Connect to Redis and report whether that worked.
    Connect,
    /// Perform the command and report its reply.
    Send(LeaseCommand),
    /// The attempt is over; the flag tells whether this instance leads.
    Finish(bool),
}

/// What the background keepalive learned about the lease.
#[derive(Debug, Clone, Copy, PartialEq, Eq, Structural)]
pub enum KeepaliveReport {
    /// Redis could not be reached; the next tick tries again.
    Unreachable,
    /// The lease was renewed.
    Renewed,
    /// The lease was lost.
    Lost,
}

/// One instance's side of the lease.
pub struct RedisLeaderLock {
    key: String,
    token: String,
    ttl_ms: u64,
    lease_deadline: Option<u128>,
}

/// The state of a lock.
pub struct LockState {
    /// The Redis key.
    pub key: Seq<char>,
    /// The token that tells this instance from others.
    pub token: Seq<char>,
    /// The lease duration in milliseconds.
    pub ttl_ms: u64,
    /// Clock reading, in nanoseconds, from which on the lease counts as expired.
    pub lease_deadline: Option<u128>,
}

impl View for RedisLeaderLock {
    type V = LockState;

    closed spec fn view(&self) -> LockState {
        LockState {
            key: self.key@,
            token: self.token@,
            ttl_ms: self.ttl_ms,
            lease_deadline: self.lease_deadline,
        }
    }
}

/// The lease duration for a configured one: at least a millisecond and at most
/// what fits in 64 bits.
pub open spec fn clamped_ttl(millis: int) -> u64 {
    if millis <= 0 {
        1
    } else if millis > u64::MAX {
        u64::MAX
    } else {
        millis as u64
    }
}

impl LockState {
    /// The lease has run out by the local clock.
    pub open spec fn expired(self, now_ns: u64) -> bool {
        self.lease_deadline matches Some(deadline) && now_ns >= deadline
    }

    /// The lease is held as far as the local clock tells.
    pub open spec fn locally_valid(self, now_ns: u64) -> bool {
        self.lease_deadline matches Some(deadline) && now_ns < deadline
    }

    /// The state after the lease was granted or extended at `now_ns`.
    pub open spec fn extended(self, now_ns: u64) -> LockState {
        LockState {
            lease_deadline: Some((now_ns + self.ttl_ms * NANOS_PER_MILLI) as u128),
            ..self
        }
    }

    /// The state without a lease.
    pub open spec fn cleared(self) -> LockState {
        LockState { lease_deadline: None, ..self }
    }
}

/// The renewal command of a lock.
pub open spec fn is_renewal(c: LeaseCommand, lock: LockState) -> bool {
    c matches LeaseCommand::Renew { script, key, token, ttl_ms } && script == RENEW_SCRIPT && key@
        == lock.key && token@ == lock.token && ttl_ms == lock.ttl_ms
}

/// The acquisition command of a lock.
pub open spec fn is_acquisition(c: LeaseCommand, lock: LockState) -> bool {
    c matches LeaseCommand::SetIfAbsent { key, token, ttl_ms } && key@ == lock.key && token@
        == lock.token && ttl_ms == lock.ttl_ms
}

/// The release command of a lock.
pub open spec fn is_release(c: LeaseCommand, lock: LockState) -> bool {
    c matches LeaseCommand::Release { script, key, token } && script == RELEASE_SCRIPT && key@
        == lock.key && token@ == lock.token
}

/// What an attempt does next, without the details of the command.
pub enum AcquireMove {
    /// Connect to Redis.
    Connect,
    /// Send the renewal command.
    Renew,
    /// Send the acquisition command.
    SetIfAbsent,
    /// Stop; the flag tells whether this instance leads.
    Finish(bool),
}

/// The state of a lock after an event of an attempt, and what comes next.
pub open spec fn acquire_step(lock: LockState, event: AcquireEvent, now_ns: u64) -> (
    LockState,
    AcquireMove,
) {
    match event {
        AcquireEvent::Begin => if lock.expired(now_ns) {
            (lock.cleared(), AcquireMove::Connect)
        } else {
            (lock, AcquireMove::Connect)
        },
        AcquireEvent::ConnectionFailed => (lock, AcquireMove::Finish(false)),
        AcquireEvent::Connected => (lock, AcquireMove::Renew),
        AcquireEvent::Renewal(reply) => if reply == Some(1i64) {
            (lock.extended(now_ns), AcquireMove::Finish(true))
        } else {
            (lock, AcquireMove::SetIfAbsent)
        },
        AcquireEvent::Acquisition(reply) => if reply == Some(true) {
            (lock.extended(now_ns), AcquireMove::Finish(true))
        } else {
            (lock, AcquireMove::Finish(false))
        },
    }
}

/// The action is the one that the move asks for, with the lock's own command.
pub open spec fn carries_out(action: AcquireAction, step: AcquireMove, lock: LockState) -> bool {
    match step {
        AcquireMove::Connect => action == AcquireAction::Connect,
        AcquireMove::Renew => action matches AcquireAction::Send(c) && is_renewal(c, lock),
        AcquireMove::SetIfAbsent => action matches AcquireAction::Send(c) && is_acquisition(
            c,
            lock,
        ),
        AcquireMove::Finish(leads) => action == AcquireAction::Finish(leads),
    }
}

impl RedisLeaderLock {
    /// A lease lasts at least a millisecond.
    #[verifier::type_invariant]
    spec fn lasts(self) -> bool {
        self.ttl_ms >= 1
    }

    /// A lock on `key` whose lease lives for `ttl` without renewal. The token is
    /// drawn at random; no lease is held yet.
    pub fn new(key: &str, ttl: Duration) -> (r: RedisLeaderLock)
        ensures
            r@.key == key@,
            crate::tokens::is_random_uuid_text(r@.token),
            r@.ttl_ms == clamped_ttl(duration_millis(ttl)),
            r@.lease_deadline is None,
    {
        let millis: u128 = whole_millis(ttl);
        let ttl_ms: u64 = if millis == 0 {
            1
        } else if millis > u64::MAX as u128 {
            u64::MAX
        } else {
            millis as u64
        };
        RedisLeaderLock { key: key.to_owned(), token: random_uuid(), ttl_ms, lease_deadline: None }
    }

    /// The Redis key.
    pub fn key(&self) -> (r: &str)
        ensures
            r@ == self@.key,
    {
        self.key.as_str()
    }

    /// The token that tells this instance from others.
    pub fn token(&self) -> (r: &str)
        ensures
            r@ == self@.token,
    {
        self.token.as_str()
    }

    /// The lease duration in milliseconds.
    pub fn ttl_ms(&self) -> (r: u64)
        ensures
            r == self@.ttl_ms,
            r >= 1,
    {
        proof {
            use_type_invariant(self);
        }
        self.ttl_ms
    }

    /// Clock reading at which the current lease expires locally, if there is one.
    pub fn lease_deadline(&self) -> (r: Option<u128>)
        ensures
            r == self@.lease_deadline,
    {
        self.lease_deadline
    }

    /// Whether the lease is believed to be held, without asking Redis.
    pub fn is_lease_locally_valid(&self, now_ns: u64) -> (r: bool)
        ensures
            r == self@.locally_valid(now_ns),
    {
        match self.lease_deadline {
            Some(deadline) => (now_ns as u128) < deadline,
            None => false,
        }
    }

    /// Counts a full lease duration from `now_ns` on.
    pub fn update_lease_deadline(&mut self, now_ns: u64)
        ensures
            final(self)@ == old(self)@.extended(now_ns),
    {
        proof {
            use_type_invariant(&*self);
            assert(self.ttl_ms * NANOS_PER_MILLI <= 0xffff_ffff_ffff_ffff * 1_000_000)
                by (nonlinear_arith)
                requires
                    self.ttl_ms <= 0xffff_ffff_ffff_ffff,
                    NANOS_PER_MILLI == 1_000_000,
            ;
        }
        self.lease_deadline = Some(now_ns as u128 + self.ttl_ms as u128 * NANOS_PER_MILLI);
    }

    /// Forgets the local lease.
    pub fn clear_lease_deadline(&mut self)
        ensures
            final(self)@ == old(self)@.cleared(),
    {
        proof {
            use_type_invariant(&*self);
        }
        self.lease_deadline = None;
    }

    fn renewal_command(&self) -> (r: LeaseCommand)
        ensures
            is_renewal(r, self@),
    {
        LeaseCommand::Renew {
            script: RENEW_SCRIPT,
            key: self.key.clone(),
            token: self.token.clone(),
            ttl_ms: self.ttl_ms,
        }
    }

    fn acquisition_command(&self) -> (r: LeaseCommand)
        ensures
            is_acquisition(r, self@),
    {
        LeaseCommand::SetIfAbsent {
            key: self.key.clone(),
            token: self.token.clone(),
            ttl_ms: self.ttl_ms,
        }
    }

    /// One step of an attempt to become or remain leader: what to do about
    /// `event` when the clock reads `now_ns`.
    ///
    /// A local lease that has run out is forgotten. Renewal is tried first, which
    /// succeeds while Redis still holds the token of this instance, and setting
    /// the key when that fails. An attempt that finishes with `false` means that
    /// another instance leads or that Redis was out of reach.
    pub fn try_acquire_or_renew(&mut self, event: AcquireEvent, now_ns: u64) -> (r: AcquireAction)
        ensures
            final(self)@ == acquire_step(old(self)@, event, now_ns).0,
            carries_out(r, acquire_step(old(self)@, event, now_ns).1, old(self)@),
    {
        match event {
            AcquireEvent::Begin => {
                let expired = match self.lease_deadline {
                    Some(deadline) => now_ns as u128 >= deadline,
                    None => false,
                };
                if expired {
                    self.clear_lease_deadline();
                }
                AcquireAction::Connect
            },
            AcquireEvent::ConnectionFailed => AcquireAction::Finish(false),
            AcquireEvent::Connected => AcquireAction::Send(self.renewal_command()),
            AcquireEvent::Renewal(reply) => {
                let renewed: i64 = reply.unwrap_or(0);
                if renewed == 1 {
                    self.update_lease_deadline(now_ns);
                    AcquireAction::Finish(true)
                } else {
                    AcquireAction::Send(self.acquisition_command())
                }
            },
            AcquireEvent::Acquisition(reply) => {
                let acquired = reply.unwrap_or(false);
                if acquired {
                    self.update_lease_deadline(now_ns);
                }
                AcquireAction::Finish(acquired)
            },
        }
    }

    /// The pause between two renewals by the background keepalive: a third of
    /// the lease duration, but at least a millisecond.
    pub fn keepalive_interval_ms(&self) -> (r: u64)
        ensures
            r == if self@.ttl_ms < 3 {
                1
            } else {
                self@.ttl_ms / 3
            },
    {
        let third: u64 = self.ttl_ms / 3;
        if third < 1 {
            1
        } else {
            third
        }
    }

    /// The command that the keepalive sends on each tick.
    pub fn keepalive_command(&self) -> (r: LeaseCommand)
        ensures
            is_renewal(r, self@),
    {
        self.renewal_command()
    }

    /// What the keepalive learned on a tick. A failed connection changes
    /// nothing and is tried again on the next tick; any reply but success means
    /// that the lease was lost.
    pub fn keepalive(&mut self, event: KeepaliveEvent, now_ns: u64) -> (r: KeepaliveReport)
        ensures
            r == (match event {
                KeepaliveEvent::ConnectionFailed => KeepaliveReport::Unreachable,
                KeepaliveEvent::Renewal(reply) => if reply == Some(1i64) {
                    KeepaliveReport::Renewed
                } else {
                    KeepaliveReport::Lost
                },
            }),
            final(self)@ == match event {
                KeepaliveEvent::ConnectionFailed => old(self)@,
                KeepaliveEvent::Renewal(reply) => if reply == Some(1i64) {
                    old(self)@.extended(now_ns)
                } else {
                    old(self)@.cleared()
                },
            },
    {
        match event {
            KeepaliveEvent::ConnectionFailed => KeepaliveReport::Unreachable,
            KeepaliveEvent::Renewal(reply) => {
                let renewed: i64 = reply.unwrap_or(0);
                if renewed == 1 {
                    self.update_lease_deadline(now_ns);
                    KeepaliveReport::Renewed
                } else {
                    self.clear_lease_deadline();
                    KeepaliveReport::Lost
                }
            },
        }
    }

    /// Gives the lease up: forgets it at once and returns the command that
    /// deletes the key, which is to be sent on a best-effort basis.
    pub fn release(&mut self) -> (r: LeaseCommand)
        ensures
            final(self)@ == old(self)@.cleared(),
            is_release(r, old(self)@),
    {
        self.clear_lease_deadline();
        LeaseCommand::Release {
            script: RELEASE_SCRIPT,
            key: self.key.clone(),
            token: self.token.clone(),
        }
    }
}

/// What the key of a lease holds in Redis.
pub struct LeaseEntry {
    /// The token that was stored.
    pub token: Seq<char>,
    /// Time on the Redis server, in milliseconds, at which the entry expires.
    pub expires_ms: int,
}

/// The entry is there and has not expired.
pub open spec fn is_live(store: Option<LeaseEntry>, server_ms: int) -> bool {
    store matches Some(entry) && server_ms < entry.expires_ms
}

/// The entry is live and holds the lock's token.
pub open spec fn is_held_by(store: Option<LeaseEntry>, server_ms: int, lock: LockState) -> bool {
    is_live(store, server_ms) && store->0.token == lock.token
}

/// What the renewal command of `lock` does to the entry, and its reply.
pub open spec fn serve_renewal(
    store: Option<LeaseEntry>,
    server_ms: int,
    lock: LockState,
) -> (Option<LeaseEntry>, i64) {
    if is_held_by(store, server_ms, lock) {
        (Some(LeaseEntry { token: lock.token, expires_ms: server_ms + lock.ttl_ms }), 1)
    } else {
        (store, 0)
    }
}

/// What the acquisition command of `lock` does to the entry, and its reply.
pub open spec fn serve_acquisition(
    store: Option<LeaseEntry>,
    server_ms: int,
    lock: LockState,
) -> (Option<LeaseEntry>, bool) {
    if is_live(store, server_ms) {
        (store, false)
    } else {
        (Some(LeaseEntry { token: lock.token, expires_ms: server_ms + lock.ttl_ms }), true)
    }
}

/// What the release command of `lock` does to the entry, and its reply.
pub open spec fn serve_release(
    store: Option<LeaseEntry>,
    server_ms: int,
    lock: LockState,
) -> (Option<LeaseEntry>, i64) {
    if is_held_by(store, server_ms, lock) {
        (None, 1)
    } else {
        (store, 0)
    }
}

/// The end of an attempt: what Redis holds, the lock's state, and whether the
/// instance leads.
pub struct AttemptEnd {
    /// The entry in Redis.
    pub store: Option<LeaseEntry>,
    /// Time on the Redis server at which the last command was served.
    pub served_ms: int,
    /// The state of the lock.
    pub lock: LockState,
    /// The attempt finished with the lead.
    pub leads: bool,
}

/// The end of an attempt that has to set the key at `set_ms`.
pub open spec fn finish_by_setting(
    store: Option<LeaseEntry>,
    set_ms: int,
    lock: LockState,
    now_ns: u64,
) -> AttemptEnd {
    let (served, reply) = serve_acquisition(store, set_ms, lock);
    let (after, step) = acquire_step(lock, AcquireEvent::Acquisition(Some(reply)), now_ns);
    AttemptEnd {
        store: served,
        served_ms: set_ms,
        lock: after,
        leads: step == AcquireMove::Finish(true),
    }
}

/// The end of an attempt for which Redis was reached, where Redis serves a
/// renewal at `renew_ms` and an acquisition, if one is sent, at `set_ms`. The
/// local clock reads `begin_ns` when the attempt begins and `now_ns` when the last
/// reply arrives.
pub open spec fn attempt_end(
    store: Option<LeaseEntry>,
    renew_ms: int,
    set_ms: int,
    lock: LockState,
    begin_ns: u64,
    now_ns: u64,
) -> AttemptEnd {
    let (begun, _) = acquire_step(lock, AcquireEvent::Begin, begin_ns);
    let (connected, _) = acquire_step(begun, AcquireEvent::Connected, now_ns);
    let (served, reply) = serve_renewal(store, renew_ms, connected);
    let (after, step) = acquire_step(connected, AcquireEvent::Renewal(Some(reply)), now_ns);
    if step == AcquireMove::SetIfAbsent {
        finish_by_setting(served, set_ms, after, now_ns)
    } else {
        AttemptEnd {
            store: served,
            served_ms: renew_ms,
            lock: after,
            leads: step == AcquireMove::Finish(true),
        }
    }
}

/// An attempt finishes with the lead exactly if the instance holds the lease
/// after it, also when its local lease had run out before. It then holds it for a
/// full duration from the time of the successful command, and only then is the
/// local lease extended; otherwise the entry stays as it was.
pub proof fn leader_holds_the_lease(
    store: Option<LeaseEntry>,
    renew_ms: int,
    set_ms: int,
    lock: LockState,
    begin_ns: u64,
    now_ns: u64,
)
    requires
        renew_ms <= set_ms,
        lock.ttl_ms >= 1,
    ensures
        ({
            let end = attempt_end(store, renew_ms, set_ms, lock, begin_ns, now_ns);
            &&& end.leads <==> is_held_by(end.store, end.served_ms, lock)
            &&& if end.leads {
                &&& end.store->0.expires_ms == end.served_ms + lock.ttl_ms
                &&& end.lock == lock.extended(now_ns)
            } else {
                &&& end.store == store
                &&& end.lock == acquire_step(lock, AcquireEvent::Begin, begin_ns).0
            }
        }),
{
}

/// While one instance's entry is live, an attempt by an instance with another
/// token does not finish with the lead and does not touch the entry.
pub proof fn at_most_one_leader(
    store: Option<LeaseEntry>,
    leader: LockState,
    renew_ms: int,
    set_ms: int,
    other: LockState,
    begin_ns: u64,
    now_ns: u64,
)
    requires
        renew_ms <= set_ms,
        is_held_by(store, set_ms, leader),
        leader.token != other.token,
    ensures
        !attempt_end(store, renew_ms, set_ms, other, begin_ns, now_ns).leads,
        attempt_end(store, renew_ms, set_ms, other, begin_ns, now_ns).store == store,
{
}

/// The holder of a live lease remains leader, whatever its local clock says: its
/// attempt renews the lease for a full duration.
pub proof fn holder_remains_leader(
    store: Option<LeaseEntry>,
    renew_ms: int,
    set_ms: int,
    lock: LockState,
    begin_ns: u64,
    now_ns: u64,
)
    requires
        is_held_by(store, renew_ms, lock),
    ensures
        ({
            let end = attempt_end(store, renew_ms, set_ms, lock, begin_ns, now_ns);
            &&& end.leads
            &&& end.store matches Some(entry)
            &&& entry.token == lock.token && entry.expires_ms == renew_ms + lock.ttl_ms
        }),
{
}

/// Neither renewal nor release by an instance whose token is not the stored one
/// changes the entry: a stale leader cannot extend or delete another's lease.
pub proof fn only_the_holder_changes_the_lease(
    store: Option<LeaseEntry>,
    server_ms: int,
    lock: LockState,
)
    requires
        store matches Some(entry) ==> entry.token != lock.token,
    ensures
        serve_renewal(store, server_ms, lock) == (store, 0i64),
        serve_release(store, server_ms, lock) == (store, 0i64),
{
}

/// A command that Redis serves for some instance.
pub struct ServedCommand {
    /// Which command it is.
    pub kind: CommandKind,
    /// The lock of the instance that sent it.
    pub lock: LockState,
    /// Time on the Redis server, in milliseconds.
    pub server_ms: int,
}

/// The three commands.
pub enum CommandKind {
    /// Renewal.
    Renew,
    /// Acquisition.
    SetIfAbsent,
    /// Release.
    Release,
}

/// What a command does to the entry, and whether it succeeds.
pub open spec fn serve(store: Option<LeaseEntry>, command: ServedCommand) -> (
    Option<LeaseEntry>,
    bool,
) {
    match command.kind {
        CommandKind::Renew => {
            let (after, reply) = serve_renewal(store, command.server_ms, command.lock);
            (after, reply == 1)
        },
        CommandKind::SetIfAbsent => serve_acquisition(store, command.server_ms, command.lock),
        CommandKind::Release => {
            let (after, reply) = serve_release(store, command.server_ms, command.lock);
            (after, reply == 1)
        },
    }
}

/// The entry after some commands in order.
pub open spec fn serve_all(store: Option<LeaseEntry>, commands: Seq<ServedCommand>) -> Option<
    LeaseEntry,
>
    decreases commands.len(),
{
    if commands.len() == 0 {
        store
    } else {
        serve(serve_all(store, commands.drop_last()), commands.last()).0
    }
}

/// Whatever other instances send before a lease expires, in any number and
/// order, the lease stays as it is and none of their commands succeeds.
pub proof fn no_takeover_before_expiry(entry: LeaseEntry, commands: Seq<ServedCommand>)
    requires
        forall|i: int|
            0 <= i < commands.len() ==> (#[trigger] commands[i]).lock.token != entry.token
                && commands[i].server_ms < entry.expires_ms,
    ensures
        serve_all(Some(entry), commands) == Some(entry),
        forall|i: int|
            0 <= i < commands.len() ==> !serve(
                serve_all(Some(entry), commands.take(i)),
                #[trigger] commands[i],
            ).1,
    decreases commands.len(),
{
    if commands.len() > 0 {
        let n = commands.len() - 1;
        let shorter = commands.drop_last();
        no_takeover_before_expiry(entry, shorter);
        assert(commands[n].lock.token != entry.token);
        assert forall|i: int| 0 <= i < commands.len() implies !serve(
            serve_all(Some(entry), commands.take(i)),
            #[trigger] commands[i],
        ).1 by {
            if i < n {
                assert(shorter[i] == commands[i]);
                assert(shorter.take(i) == commands.take(i));
            } else {
                assert(commands.take(i) == shorter);
            }
        }
    }
}

/// Once the holder has released the lease, the next attempt of any instance
/// finishes with the lead, without waiting for the expiry.
pub proof fn release_frees_the_lease(
    store: Option<LeaseEntry>,
    server_ms: int,
    holder: LockState,
    renew_ms: int,
    set_ms: int,
    next: LockState,
    begin_ns: u64,
    now_ns: u64,
)
    requires
        is_held_by(store, server_ms, holder),
    ensures
        attempt_end(
            serve_release(store, server_ms, holder).0,
            renew_ms,
            set_ms,
            next,
            begin_ns,
            now_ns,
        ).leads,
{
}

/// A lease that is neither renewed nor released lapses when its duration has
/// passed by the local clock, and not before.
pub proof fn lease_lapses_after_its_duration(lock: LockState, granted_ns: u64, now_ns: u64)
    ensures
        lock.extended(granted_ns).locally_valid(now_ns) <==> now_ns < granted_ns + lock.ttl_ms
            * NANOS_PER_MILLI,
        !lock.cleared().locally_valid(now_ns),
{
    assert(lock.ttl_ms * NANOS_PER_MILLI <= 0xffff_ffff_ffff_ffff * 1_000_000) by (nonlinear_arith)
        requires
            lock.ttl_ms <= 0xffff_ffff_ffff_ffff,
            NANOS_PER_MILLI == 1_000_000,
    ;
}

/// What Redis holds: leases by key. An entry that has expired counts as absent.
pub type LeaseTable = Map<Seq<char>, LeaseEntry>;

/// There is an entry under the key that has not expired.
pub open spec fn holds_live(db: LeaseTable, key: Seq<char>, server_ms: int) -> bool {
    db.contains_key(key) && server_ms < db[key].expires_ms
}

/// What Redis does on a command, by what the command itself says, at `server_ms`,
/// and its reply: 1 where the command took effect, else 0. Of a script that is
/// neither the renewal nor the release script nothing is known.
pub open spec fn perform(db: LeaseTable, server_ms: int, command: LeaseCommand) -> (
    LeaseTable,
    i64,
) {
    match command {
        LeaseCommand::SetIfAbsent { key, token, ttl_ms } => if holds_live(db, key@, server_ms) {
            (db, 0)
        } else {
            (db.insert(key@, LeaseEntry { token: token@, expires_ms: server_ms + ttl_ms }), 1)
        },
        LeaseCommand::Renew { script, key, token, ttl_ms } => if script@ == r#"
if redis.call("GET", KEYS[1]) == ARGV[1] then
    return redis.call("PEXPIRE", KEYS[1], ARGV[2])
else
    return 0
end
"#@ {
            if holds_live(db, key@, server_ms) && db[key@].token == token@ {
                (db.insert(key@, LeaseEntry { token: token@, expires_ms: server_ms + ttl_ms }), 1)
            } else {
                (db, 0)
            }
        } else {
            arbitrary()
        },
        LeaseCommand::Release { script, key, token } => if script@ == r#"
if redis.call("GET", KEYS[1]) == ARGV[1] then
    return redis.call("DEL", KEYS[1])
else
    return 0
end
"#@ {
            if holds_live(db, key@, server_ms) && db[key@].token == token@ {
                (db.remove(key@), 1)
            } else {
                (db, 0)
            }
        } else {
            arbitrary()
        },
    }
}

/// The actions of an attempt for which Redis was reached: on the connection, on the
/// reply to the first command, and on the reply to the second, if one was sent;
/// with the times at which Redis serves the commands.
pub struct AttemptTrace {
    /// What follows on the connection.
    pub asked: AcquireAction,
    /// What follows on the reply to the first command.
    pub answered: AcquireAction,
    /// What follows on the reply to the second command.
    pub ended: AcquireAction,
    /// When Redis serves the first command.
    pub first_ms: int,
    /// When Redis serves the second command.
    pub second_ms: int,
}

impl AttemptTrace {
    /// What Redis holds and replies after the first command.
    pub open spec fn first_served(self, db: LeaseTable) -> (LeaseTable, i64) {
        match self.asked {
            AcquireAction::Send(command) => perform(db, self.first_ms, command),
            _ => (db, 0),
        }
    }

    /// What Redis holds and replies after the second command, if one was sent.
    pub open spec fn second_served(self, db: LeaseTable) -> (LeaseTable, i64) {
        match self.answered {
            AcquireAction::Send(command) => perform(
                self.first_served(db).0,
                self.second_ms,
                command,
            ),
            _ => (self.first_served(db).0, 0),
        }
    }

    /// What Redis holds after the attempt.
    pub open spec fn table(self, db: LeaseTable) -> LeaseTable {
        self.second_served(db).0
    }

    /// When Redis served the last command.
    pub open spec fn last_ms(self) -> int {
        if self.answered is Send {
            self.second_ms
        } else {
            self.first_ms
        }
    }

    /// The attempt finished with the lead.
    pub open spec fn leads(self) -> bool {
        if self.answered is Send {
            self.ended == AcquireAction::Finish(true)
        } else {
            self.answered == AcquireAction::Finish(true)
        }
    }
}

/// An attempt touches the key of its lock and no other. It finishes with the lead
/// exactly if the lock's token then stands there, for a full lease from the last
/// command on; else everything stays as it was. It gets the lead if nobody's lease
/// is live, or its own is, and does not while another's is. The local lease counts
/// from the reading of the clock when the lead was gained, and changes only then.
pub proof fn attempts_act_on_their_key(
    asks: &mut RedisLeaderLock,
    hears: &mut RedisLeaderLock,
    ends: &mut RedisLeaderLock,
    connected_ns: u64,
    first_ns: u64,
    second_ns: u64,
    trace: AttemptTrace,
    db: LeaseTable,
    other: Seq<char>,
)
    requires
        call_ensures(
            RedisLeaderLock::try_acquire_or_renew,
            (asks, AcquireEvent::Connected, connected_ns),
            trace.asked,
        ),
        *hears == *final(asks),
        call_ensures(
            RedisLeaderLock::try_acquire_or_renew,
            (hears, AcquireEvent::Renewal(Some(trace.first_served(db).1)), first_ns),
            trace.answered,
        ),
        *ends == *final(hears),
        call_ensures(
            RedisLeaderLock::try_acquire_or_renew,
            (ends, AcquireEvent::Acquisition(Some(trace.second_served(db).1 == 1)), second_ns),
            trace.ended,
        ),
        trace.first_ms <= trace.second_ms,
        old(asks)@.ttl_ms >= 1,
        other != old(asks)@.key,
    ensures
        ({
            let lock = old(asks)@;
            let key = lock.key;
            let after = trace.table(db);
            &&& after.contains_key(other) == db.contains_key(other)
            &&& after.contains_key(other) ==> after[other] == db[other]
            &&& trace.leads() <==> holds_live(after, key, trace.last_ms()) && after[key].token
                == lock.token
            &&& trace.leads() ==> after[key].expires_ms == trace.last_ms() + lock.ttl_ms
            &&& !trace.leads() ==> after == db
            &&& !holds_live(db, key, trace.first_ms) ==> trace.leads()
            &&& holds_live(db, key, trace.first_ms) && db[key].token == lock.token
                ==> trace.leads()
            &&& holds_live(db, key, trace.second_ms) && db[key].token != lock.token
                ==> !trace.leads()
        }),
        ({
            let lock = old(asks)@;
            let end = if trace.answered is Send {
                final(ends)@
            } else {
                final(hears)@
            };
            let end_ns = if trace.answered is Send {
                second_ns
            } else {
                first_ns
            };
            &&& end.key == lock.key && end.token == lock.token && end.ttl_ms == lock.ttl_ms
            &&& trace.leads() ==> end.lease_deadline == Some(
                (end_ns + lock.ttl_ms * 1_000_000) as u128,
            )
            &&& !trace.leads() ==> end.lease_deadline == lock.lease_deadline
        }),
{
}

/// Of two attempts on one Redis, by locks on the same key with different tokens, the
/// second does not finish with the lead while the lease that the first gained is
/// live, and leaves it as it is.
pub proof fn never_two_leaders(
    a_asks: &mut RedisLeaderLock,
    a_hears: &mut RedisLeaderLock,
    a_ends: &mut RedisLeaderLock,
    a_ns: (u64, u64, u64),
    a: AttemptTrace,
    b_asks: &mut RedisLeaderLock,
    b_hears: &mut RedisLeaderLock,
    b_ends: &mut RedisLeaderLock,
    b_ns: (u64, u64, u64),
    b: AttemptTrace,
    db: LeaseTable,
)
    requires
        call_ensures(
            RedisLeaderLock::try_acquire_or_renew,
            (a_asks, AcquireEvent::Connected, a_ns.0),
            a.asked,
        ),
        *a_hears == *final(a_asks),
        call_ensures(
            RedisLeaderLock::try_acquire_or_renew,
            (a_hears, AcquireEvent::Renewal(Some(a.first_served(db).1)), a_ns.1),
            a.answered,
        ),
        *a_ends == *final(a_hears),
        call_ensures(
            RedisLeaderLock::try_acquire_or_renew,
            (a_ends, AcquireEvent::Acquisition(Some(a.second_served(db).1 == 1)), a_ns.2),
            a.ended,
        ),
        call_ensures(
            RedisLeaderLock::try_acquire_or_renew,
            (b_asks, AcquireEvent::Connected, b_ns.0),
            b.asked,
        ),
        *b_hears == *final(b_asks),
        call_ensures(
            RedisLeaderLock::try_acquire_or_renew,
            (b_hears, AcquireEvent::Renewal(Some(b.first_served(a.table(db)).1)), b_ns.1),
            b.answered,
        ),
        *b_ends == *final(b_hears),
        call_ensures(
            RedisLeaderLock::try_acquire_or_renew,
            (
                b_ends,
                AcquireEvent::Acquisition(Some(b.second_served(a.table(db)).1 == 1)),
                b_ns.2,
            ),
            b.ended,
        ),
        a.first_ms <= a.second_ms <= b.first_ms <= b.second_ms,
        b.second_ms < a.last_ms() + old(a_asks)@.ttl_ms,
        old(a_asks)@.ttl_ms >= 1,
        old(b_asks)@.ttl_ms >= 1,
        old(a_asks)@.key == old(b_asks)@.key,
        old(a_asks)@.token != old(b_asks)@.token,
    ensures
        !(a.leads() && b.leads()),
        a.leads() ==> b.table(a.table(db)) == a.table(db),
{
}

/// An attempt begins by connecting, and ends without the lead if that fails. Any
/// reply to the renewal but 1 leads to a command that sets the lock's own key, if it
/// is absent, to the lock's own token; any reply to that but success ends the attempt
/// without the lead. The key, the token and the duration never change, and a local
/// lease is forgotten at the beginning exactly if it has run out.
pub proof fn attempts_go_on_as_replied(
    lock: &mut RedisLeaderLock,
    event: AcquireEvent,
    now_ns: u64,
    action: AcquireAction,
    db: LeaseTable,
    server_ms: int,
)
    requires
        call_ensures(RedisLeaderLock::try_acquire_or_renew, (lock, event, now_ns), action),
    ensures
        final(lock)@.key == old(lock)@.key,
        final(lock)@.token == old(lock)@.token,
        final(lock)@.ttl_ms == old(lock)@.ttl_ms,
        event is Begin ==> action is Connect && final(lock)@.lease_deadline == (
        match old(lock)@.lease_deadline {
            Some(deadline) if now_ns < deadline => Some(deadline),
            _ => None,
        }),
        event is ConnectionFailed ==> action == AcquireAction::Finish(false) && final(lock)@
            == old(lock)@,
        event matches AcquireEvent::Renewal(reply) ==> (reply != Some(1i64) ==> {
            &&& final(lock)@ == old(lock)@
            &&& action matches AcquireAction::Send(command)
            &&& perform(db, server_ms, command) == if holds_live(db, old(lock)@.key, server_ms) {
                (db, 0i64)
            } else {
                (
                    db.insert(
                        old(lock)@.key,
                        LeaseEntry {
                            token: old(lock)@.token,
                            expires_ms: server_ms + old(lock)@.ttl_ms,
                        },
                    ),
                    1i64,
                )
            }
        }),
        event matches AcquireEvent::Acquisition(reply) ==> action == AcquireAction::Finish(
            reply == Some(true),
        ),
{
}

/// Releasing deletes the entry under the lock's own key exactly if it is live and
/// holds the lock's own token, so that the next attempt of any instance finds no
/// lease there. Nothing else is touched, and the local lease is gone at once.
pub proof fn releasing_gives_up_only_the_own_lease(
    lock: &mut RedisLeaderLock,
    command: LeaseCommand,
    db: LeaseTable,
    server_ms: int,
    other: Seq<char>,
)
    requires
        call_ensures(RedisLeaderLock::release, (lock,), command),
        other != old(lock)@.key,
    ensures
        ({
            let key = old(lock)@.key;
            let (after, reply) = perform(db, server_ms, command);
            let own = holds_live(db, key, server_ms) && db[key].token == old(lock)@.token;
            &&& own ==> !after.contains_key(key) && reply == 1
            &&& !own ==> after == db && reply == 0
            &&& after.contains_key(other) == db.contains_key(other)
            &&& after.contains_key(other) ==> after[other] == db[other]
        }),
        final(lock)@.lease_deadline is None,
        final(lock)@.key == old(lock)@.key,
        final(lock)@.token == old(lock)@.token,
        final(lock)@.ttl_ms == old(lock)@.ttl_ms,
{
}

/// The keepalive extends the lease under the lock's own key, by a full duration from
/// then on, exactly if it is live and holds the lock's own token, and touches nothing
/// else.
pub proof fn keepalive_extends_only_the_own_lease(
    lock: &RedisLeaderLock,
    command: LeaseCommand,
    db: LeaseTable,
    server_ms: int,
    other: Seq<char>,
)
    requires
        call_ensures(RedisLeaderLock::keepalive_command, (lock,), command),
        other != lock@.key,
    ensures
        ({
            let (after, reply) = perform(db, server_ms, command);
            let own = holds_live(db, lock@.key, server_ms) && db[lock@.key].token == lock@.token;
            &&& own ==> reply == 1 && after.contains_key(lock@.key) && after[lock@.key].token
                == lock@.token && after[lock@.key].expires_ms == server_ms + lock@.ttl_ms
            &&& !own ==> after == db && reply == 0
            &&& after.contains_key(other) == db.contains_key(other)
            &&& after.contains_key(other) ==> after[other] == db[other]
        }),
{
}

/// A tick of the keepalive that finds the lease renewed counts a full duration from
/// its clock reading on; one that could not reach Redis changes nothing; any other
/// finds the lease lost and forgets it.
pub proof fn keepalive_learns_from_the_reply(
    lock: &mut RedisLeaderLock,
    event: KeepaliveEvent,
    now_ns: u64,
    report: KeepaliveReport,
)
    requires
        call_ensures(RedisLeaderLock::keepalive, (lock, event, now_ns), report),
    ensures
        event is ConnectionFailed ==> report == KeepaliveReport::Unreachable && final(lock)@
            == old(lock)@,
        event matches KeepaliveEvent::Renewal(reply) ==> if reply == Some(1i64) {
            report == KeepaliveReport::Renewed && final(lock)@.lease_deadline == Some(
                (now_ns + old(lock)@.ttl_ms * 1_000_000) as u128,
            )
        } else {
            report == KeepaliveReport::Lost && final(lock)@.lease_deadline is None
        },
        final(lock)@.key == old(lock)@.key,
        final(lock)@.token == old(lock)@.token,
        final(lock)@.ttl_ms == old(lock)@.ttl_ms,
{
}

/// The keepalive ticks as often as it can while three pauses still fit in a lease,
/// and never without a pause.
pub proof fn keepalive_ticks_three_times_a_lease(lock: &RedisLeaderLock, pause_ms: u64)
    requires
        call_ensures(RedisLeaderLock::keepalive_interval_ms, (lock,), pause_ms),
    ensures
        pause_ms >= 1,
        lock@.ttl_ms >= 3 ==> 3 * pause_ms <= lock@.ttl_ms < 3 * (pause_ms + 1),
        lock@.ttl_ms < 3 ==> pause_ms == 1,
{
}

/// A new lock is on the key that it was asked for and holds no lease. Its lease lasts
/// as many whole milliseconds as the duration has, but at least one, and at most as
/// many as fit in 64 bits.
pub proof fn new_locks_are_as_asked(key: &str, ttl: Duration, lock: RedisLeaderLock)
    requires
        call_ensures(RedisLeaderLock::new, (key, ttl), lock),
    ensures
        lock@.key == key@,
        lock@.token.len() > 0,
        lock@.lease_deadline is None,
        ({
            let millis = duration_secs(ttl) * 1000 + duration_subsec_nanos(ttl) / 1_000_000;
            &&& 1 <= millis <= u64::MAX ==> lock@.ttl_ms == millis
            &&& millis < 1 ==> lock@.ttl_ms == 1
            &&& millis > u64::MAX ==> lock@.ttl_ms == u64::MAX
        }),
{
}

/// A lease that is counted from a clock reading on is valid up to, and not at, the
/// reading that is its duration later; one that was forgotten is not valid.
pub proof fn local_lease_lasts_its_duration(
    counted: &mut RedisLeaderLock,
    granted_ns: u64,
    later: &RedisLeaderLock,
    now_ns: u64,
    valid: bool,
    forgets: &mut RedisLeaderLock,
    gone: &RedisLeaderLock,
    still: bool,
)
    requires
        call_ensures(RedisLeaderLock::update_lease_deadline, (counted, granted_ns), ()),
        *later == *final(counted),
        call_ensures(RedisLeaderLock::is_lease_locally_valid, (later, now_ns), valid),
        call_ensures(RedisLeaderLock::clear_lease_deadline, (forgets,), ()),
        *gone == *final(forgets),
        call_ensures(RedisLeaderLock::is_lease_locally_valid, (gone, now_ns), still),
    ensures
        valid <==> now_ns < granted_ns + old(counted)@.ttl_ms * 1_000_000,
        !still,
{
    lease_lapses_after_its_duration(old(counted)@, granted_ns, now_ns);
}

/// A lock tells the key that it was created with, and its state as it is.
pub proof fn locks_tell_their_state(
    key: &str,
    ttl: Duration,
    lock: RedisLeaderLock,
    told_key: &str,
    told_token: &str,
    told_ttl: u64,
    told_deadline: Option<u128>,
    valid: bool,
    now_ns: u64,
    command: LeaseCommand,
    db: LeaseTable,
    server_ms: int,
)
    requires
        call_ensures(RedisLeaderLock::new, (key, ttl), lock),
        call_ensures(RedisLeaderLock::key, (&lock,), told_key),
        call_ensures(RedisLeaderLock::token, (&lock,), told_token),
        call_ensures(RedisLeaderLock::ttl_ms, (&lock,), told_ttl),
        call_ensures(RedisLeaderLock::lease_deadline, (&lock,), told_deadline),
        call_ensures(RedisLeaderLock::is_lease_locally_valid, (&lock, now_ns), valid),
        call_ensures(RedisLeaderLock::keepalive_command, (&lock,), command),
        holds_live(db, key@, server_ms),
        db[key@].token == told_token@,
    ensures
        told_key@ == key@,
        told_token@.len() == 36,
        told_ttl >= 1,
        told_deadline is None,
        !valid,
        perform(db, server_ms, command).0 == db.insert(
            key@,
            LeaseEntry { token: told_token@, expires_ms: server_ms + told_ttl },
        ),
{
}

} // verus!
