//! Bounded background task admission and the live telemetry event queue.
//!
//! - [`BoundedTaskDispatcher`] caps how many background tasks are in flight at
//!   once and drops low-priority work when it is saturated.
//! - [`TelemetryEventQueue`] broadcasts telemetry events from many producers to
//!   many subscribers. Publishing never blocks. A subscriber that falls behind
//!   the buffer loses its oldest unread events and learns how many.
//!
//! Both are plain states with exact counters. Whoever shares one among tasks
//! keeps it behind a lock, and does the waiting and the spawning.

use crate::clock::utc_now;
use crate::clock::Timestamp;
use crate::text::decimal_text;
use crate::tokens::random_uuid;
use std::sync::Arc;
use tokio::sync::broadcast::Receiver;
use tokio::sync::broadcast::Sender;
use tokio::sync::OwnedSemaphorePermit;
use tokio::sync::Semaphore;
use vstd::prelude::*;

verus! {

/// Relative importance of a dispatched task, used to decide what happens when
/// the dispatcher is saturated.
#[derive(Debug, Clone, Copy, PartialEq, Eq, Structural)]
pub enum TaskPriority {
    /// Must eventually run: dispatch waits until a slot frees up.
    Normal,
    /// Best effort: dropped at once if the dispatcher is saturated.
    Low,
}

/// Outcome of a dispatch attempt.
#[derive(Debug, Clone, Copy, PartialEq, Eq, Structural)]
pub enum DispatchOutcome {
    /// The task was spawned onto the background runtime.
    Spawned,
    /// The task was dropped.
    Dropped,
}

/// How a permit is obtained for a task.
#[derive(Debug, Clone, Copy, PartialEq, Eq, Structural)]
pub enum PermitMode {
    /// Wait until a permit is free.
    Wait,
    /// Take a permit now or not at all.
    TryNow,
}

/// How a permit is obtained for a task of the given priority.
pub fn permit_mode(priority: TaskPriority) -> (r: PermitMode)
    ensures
        r == (match priority {
            TaskPriority::Normal => PermitMode::Wait,
            TaskPriority::Low => PermitMode::TryNow,
        }),
{
    match priority {
        TaskPriority::Normal => PermitMode::Wait,
        TaskPriority::Low => PermitMode::TryNow,
    }
}

/// Whether a task that was or was not given a permit counts as dropped because
/// of saturation. A normal task goes without a permit only while the dispatcher
/// shuts down, which is not saturation.
pub fn counts_as_dropped(priority: TaskPriority, permitted: bool) -> (r: bool)
    ensures
        r == (priority == TaskPriority::Low && !permitted),
{
    match priority {
        TaskPriority::Normal => false,
        TaskPriority::Low => !permitted,
    }
}

/// A counting semaphore.
#[verifier::external_type_specification]
#[verifier::external_body]
pub struct ExSemaphore(Semaphore);

/// A permit of a shared semaphore, given back when it is dropped.
#[verifier::external_type_specification]
#[verifier::external_body]
pub struct ExOwnedSemaphorePermit(OwnedSemaphorePermit);

/// The number of permits that a semaphore was made with.
pub uninterp spec fn initial_permits(s: Semaphore) -> usize;

/// `Semaphore::new` makes a semaphore with that many permits. It panics beyond
/// `Semaphore::MAX_PERMITS`, an eighth of the range of `usize`.
#[verifier::external_body]
fn new_semaphore(permits: usize) -> (r: Semaphore)
    requires
        permits <= usize::MAX / 8,
    ensures
        initial_permits(r) == permits,
{
    Semaphore::new(permits)
}

/// The semaphore that a permit was taken from and goes back to.
pub uninterp spec fn permit_origin(p: OwnedSemaphorePermit) -> Semaphore;

/// The number of slots that a permit stands for.
pub uninterp spec fn permit_slots(p: OwnedSemaphorePermit) -> nat;

/// The number of slots that some permits stand for together.
pub open spec fn slots_of(permits: Seq<OwnedSemaphorePermit>) -> nat
    decreases permits.len(),
{
    if permits.len() == 0 {
        0
    } else {
        slots_of(permits.drop_last()) + permit_slots(permits.last())
    }
}

/// Different permits, all of them of one semaphore.
pub open spec fn are_permits_of(permits: Seq<OwnedSemaphorePermit>, gate: Semaphore) -> bool {
    &&& permits.no_duplicates()
    &&& forall|i: int| 0 <= i < permits.len() ==> permit_origin(#[trigger] permits[i]) == gate
}

/// What a semaphore answers to somebody who asks for a slot and does not wait.
pub(crate) enum SlotAnswer {
    /// A slot was free; here is a permit for it.
    Taken(OwnedSemaphorePermit),
    /// No slot is free.
    Full,
    /// The semaphore was closed.
    Closed,
}

/// `Semaphore::try_acquire_owned` takes a permit for one slot of the semaphore
/// if one is free. Whether one is depends on the tasks that run at the moment. It
/// refuses for want of permits only when none is left: then every slot that the
/// semaphore was made with has been handed out with some permit, one that is held,
/// lent, forgotten or on its way to somebody who waits. That it refuses when it was
/// closed is told apart.
#[verifier::external_body]
pub(crate) fn try_acquire(semaphore: Arc<Semaphore>) -> (r: SlotAnswer)
    ensures
        r matches SlotAnswer::Taken(permit) ==> permit_origin(permit) == *semaphore,
        r matches SlotAnswer::Taken(permit) ==> permit_slots(permit) == 1,
        r is Full ==> exists|held: Seq<OwnedSemaphorePermit>|
            #[trigger] are_permits_of(held, *semaphore) && slots_of(held) >= initial_permits(
                *semaphore,
            ),
{
    match semaphore.try_acquire_owned() {
        Ok(permit) => SlotAnswer::Taken(permit),
        Err(tokio::sync::TryAcquireError::NoPermits) => SlotAnswer::Full,
        Err(tokio::sync::TryAcquireError::Closed) => SlotAnswer::Closed,
    }
}

/// No slot of a semaphore is free: permits for at least as many slots as `capacity`
/// are out.
pub open spec fn is_full(gate: Semaphore, capacity: usize) -> bool {
    exists|held: Seq<OwnedSemaphorePermit>|
        #[trigger] are_permits_of(held, gate) && slots_of(held) >= capacity
}

/// A semaphore has answered that it was closed.
pub closed spec fn was_closed(gate: Semaphore) -> bool {
    exists|semaphore: Arc<Semaphore>|
        *semaphore == gate && #[trigger] call_ensures(
            try_acquire,
            (semaphore,),
            SlotAnswer::Closed,
        )
}

/// A count that has been increased by `n`, as a 64-bit counter shows it.
pub open spec fn counted(count: u64, n: int) -> u64 {
    ((count + n) % 0x1_0000_0000_0000_0000) as u64
}

/// Semaphore-bounded background task dispatcher that drops low-priority work
/// when it is saturated.
pub struct BoundedTaskDispatcher {
    semaphore: Arc<Semaphore>,
    capacity: usize,
    dropped: u64,
}

/// The state of a dispatcher.
pub struct DispatcherState {
    /// The number of tasks that may be in flight at once.
    pub capacity: usize,
    /// The semaphore that admits tasks.
    pub gate: Semaphore,
    /// The number of low-priority tasks dropped because of saturation.
    pub dropped: u64,
}

impl View for BoundedTaskDispatcher {
    type V = DispatcherState;

    closed spec fn view(&self) -> DispatcherState {
        DispatcherState { capacity: self.capacity, gate: *self.semaphore, dropped: self.dropped }
    }
}

/// What becomes of a task: it runs exactly if it has a permit.
pub open spec fn outcome_for(permitted: bool) -> DispatchOutcome {
    if permitted {
        DispatchOutcome::Spawned
    } else {
        DispatchOutcome::Dropped
    }
}

/// The state of a dispatcher after it has settled a task.
pub open spec fn settled(
    dispatcher: DispatcherState,
    priority: TaskPriority,
    permitted: bool,
) -> DispatcherState {
    DispatcherState {
        dropped: if priority == TaskPriority::Low && !permitted {
            counted(dispatcher.dropped, 1)
        } else {
            dispatcher.dropped
        },
        ..dispatcher
    }
}

impl BoundedTaskDispatcher {
    /// The semaphore admits as many tasks as the dispatcher promises.
    #[verifier::type_invariant]
    spec fn admits_its_limit(self) -> bool {
        initial_permits(*self.semaphore) == self.capacity
    }

    /// A dispatcher that allows at most `capacity` tasks in flight.
    pub fn new(capacity: usize) -> (r: BoundedTaskDispatcher)
        requires
            capacity <= usize::MAX / 8,
        ensures
            r@.capacity == capacity,
            initial_permits(r@.gate) == capacity,
            r@.dropped == 0,
    {
        BoundedTaskDispatcher {
            semaphore: Arc::new(new_semaphore(capacity)),
            capacity,
            dropped: 0,
        }
    }

    /// Maximum number of tasks this dispatcher allows in flight at once.
    pub fn capacity(&self) -> (r: usize)
        ensures
            r == self@.capacity,
    {
        self.capacity
    }

    /// Number of low-priority tasks dropped since creation because the
    /// dispatcher was saturated.
    pub fn dropped_count(&self) -> (r: u64)
        ensures
            r == self@.dropped,
    {
        self.dropped
    }

    /// The semaphore to wait on for a task that must eventually run.
    pub fn semaphore(&self) -> (r: Arc<Semaphore>)
        ensures
            *r == self@.gate,
            initial_permits(*r) == self@.capacity,
    {
        proof {
            use_type_invariant(self);
        }
        self.semaphore.clone()
    }

    /// Takes a permit for a task if one is free, which depends on the tasks that
    /// run at the moment. The permit holds one slot of this dispatcher. There is none
    /// only while permits for every slot are out, or after the semaphore was closed.
    pub fn try_permit(&self) -> (r: Option<OwnedSemaphorePermit>)
        ensures
            r matches Some(permit) ==> permit_origin(permit) == self@.gate && permit_slots(permit)
                == 1,
            r is None ==> is_full(self@.gate, self@.capacity) || was_closed(self@.gate),
    {
        proof {
            use_type_invariant(self);
        }
        match try_acquire(self.semaphore.clone()) {
            SlotAnswer::Taken(permit) => Some(permit),
            SlotAnswer::Full => None,
            SlotAnswer::Closed => None,
        }
    }

    /// Settles the dispatch of a task, given the permit for one slot of this
    /// dispatcher that was obtained for it, if any: the task runs with its
    /// permit, or is dropped, and then counted if saturation was the reason.
    pub fn dispatch(
        &mut self,
        priority: TaskPriority,
        permit: Option<OwnedSemaphorePermit>,
    ) -> (r: (DispatchOutcome, Option<OwnedSemaphorePermit>))
        requires
            permit matches Some(p) ==> permit_origin(p) == old(self)@.gate && permit_slots(p) == 1,
        ensures
            r.1 == permit,
            r.0 == outcome_for(permit is Some),
            final(self)@ == settled(old(self)@, priority, permit is Some),
    {
        proof {
            use_type_invariant(&*self);
        }
        if counts_as_dropped(priority, permit.is_some()) {
            self.dropped = self.dropped.wrapping_add(1);
        }
        match permit {
            Some(permit) => (DispatchOutcome::Spawned, Some(permit)),
            None => (DispatchOutcome::Dropped, None),
        }
    }
}

/// A task that was settled: its priority and whether it had a permit.
pub struct Settled {
    /// Its priority.
    pub priority: TaskPriority,
    /// It had a permit.
    pub permitted: bool,
}

/// The state of a dispatcher after it has settled some tasks.
pub open spec fn settled_all(dispatcher: DispatcherState, tasks: Seq<Settled>) -> DispatcherState
    decreases tasks.len(),
{
    if tasks.len() == 0 {
        dispatcher
    } else {
        settled(
            settled_all(dispatcher, tasks.drop_last()),
            tasks.last().priority,
            tasks.last().permitted,
        )
    }
}

/// The number of low-priority tasks without a permit among some tasks.
pub open spec fn saturation_drops(tasks: Seq<Settled>) -> nat
    decreases tasks.len(),
{
    if tasks.len() == 0 {
        0
    } else {
        saturation_drops(tasks.drop_last()) + if tasks.last().priority == TaskPriority::Low
            && !tasks.last().permitted {
            1nat
        } else {
            0nat
        }
    }
}

/// Over any number of tasks the dispatcher counts exactly the low-priority ones
/// that went without a permit, and keeps its capacity and its semaphore. Normal
/// tasks never count.
pub proof fn only_saturation_drops_are_counted(dispatcher: DispatcherState, tasks: Seq<Settled>)
    ensures
        settled_all(dispatcher, tasks).dropped == counted(
            dispatcher.dropped,
            saturation_drops(tasks) as int,
        ),
        settled_all(dispatcher, tasks).capacity == dispatcher.capacity,
        settled_all(dispatcher, tasks).gate == dispatcher.gate,
    decreases tasks.len(),
{
    if tasks.len() > 0 {
        only_saturation_drops_are_counted(dispatcher, tasks.drop_last());
    }
}

/// The slots of a dispatcher's semaphore, and who has them. The semaphore hands
/// a slot out at once if one is free, and queues those that wait; a slot that
/// comes back goes to the first of them. Nobody closes it.
pub struct Slots {
    /// Slots that are free.
    pub free: nat,
    /// Tasks that run, each with a slot.
    pub running: nat,
    /// Normal tasks that wait for a slot.
    pub waiting: nat,
}

/// What taking a slot at once does, and whether it worked.
pub open spec fn serve_try(slots: Slots) -> (Slots, bool) {
    if slots.free > 0 {
        (Slots { free: (slots.free - 1) as nat, running: slots.running + 1, ..slots }, true)
    } else {
        (slots, false)
    }
}

/// What asking to wait for a slot does: it is given at once if one is free.
pub open spec fn serve_wait(slots: Slots) -> Slots {
    if slots.free > 0 {
        Slots { free: (slots.free - 1) as nat, running: slots.running + 1, ..slots }
    } else {
        Slots { waiting: slots.waiting + 1, ..slots }
    }
}

/// What the end of a task does, by return or by panic: its slot goes to a task that
/// waits, or is free again.
pub open spec fn serve_end(slots: Slots) -> Slots {
    if slots.running == 0 {
        slots
    } else if slots.waiting > 0 {
        Slots { waiting: (slots.waiting - 1) as nat, ..slots }
    } else {
        Slots { free: slots.free + 1, running: (slots.running - 1) as nat, ..slots }
    }
}

/// A dispatcher with the slots of its semaphore.
pub struct DispatchSystem {
    /// The dispatcher.
    pub dispatcher: DispatcherState,
    /// Its slots.
    pub slots: Slots,
}

/// What happens in such a system.
pub enum DispatchStep {
    /// A low-priority task is dispatched.
    Low,
    /// A normal task is dispatched: it runs or waits.
    Normal,
    /// A running task ends.
    End,
}

/// The system after a step.
pub open spec fn dispatch_after(system: DispatchSystem, step: DispatchStep) -> DispatchSystem {
    match step {
        DispatchStep::Low => {
            let (slots, permitted) = serve_try(system.slots);
            DispatchSystem {
                dispatcher: settled(system.dispatcher, TaskPriority::Low, permitted),
                slots,
            }
        },
        DispatchStep::Normal => DispatchSystem {
            dispatcher: settled(system.dispatcher, TaskPriority::Normal, true),
            slots: serve_wait(system.slots),
        },
        DispatchStep::End => DispatchSystem { slots: serve_end(system.slots), ..system },
    }
}

/// The system after some steps.
pub open spec fn dispatch_after_all(
    system: DispatchSystem,
    steps: Seq<DispatchStep>,
) -> DispatchSystem
    decreases steps.len(),
{
    if steps.len() == 0 {
        system
    } else {
        dispatch_after(dispatch_after_all(system, steps.drop_last()), steps.last())
    }
}

/// The system of a new dispatcher: every slot is free.
pub open spec fn fresh_dispatch(dispatcher: DispatcherState) -> DispatchSystem {
    DispatchSystem {
        dispatcher,
        slots: Slots { free: initial_permits(dispatcher.gate) as nat, running: 0, waiting: 0 },
    }
}

/// Whatever tasks are dispatched and end, in any order, at most as many run as the
/// dispatcher's capacity: those that run and the free slots together are exactly
/// the capacity, and nobody waits while a slot is free. So once all have ended
/// every slot is free again.
pub proof fn at_most_capacity_in_flight(dispatcher: DispatcherState, steps: Seq<DispatchStep>)
    requires
        initial_permits(dispatcher.gate) == dispatcher.capacity,
    ensures
        ({
            let after = dispatch_after_all(fresh_dispatch(dispatcher), steps);
            &&& after.dispatcher.capacity == dispatcher.capacity
            &&& after.slots.running + after.slots.free == dispatcher.capacity
            &&& after.slots.running <= dispatcher.capacity
            &&& after.slots.waiting > 0 ==> after.slots.free == 0
            &&& after.slots.running == 0 && after.slots.waiting == 0 ==> after.slots.free
                == dispatcher.capacity
        }),
    decreases steps.len(),
{
    if steps.len() > 0 {
        at_most_capacity_in_flight(dispatcher, steps.drop_last());
    }
}

/// A low-priority task is dropped exactly if every slot is taken, and then counted;
/// a normal task never is, and a slot that a task gives back goes to one that
/// waits.
pub proof fn only_saturation_drops_a_task(dispatcher: DispatcherState, steps: Seq<DispatchStep>)
    requires
        initial_permits(dispatcher.gate) == dispatcher.capacity,
    ensures
        ({
            let before = dispatch_after_all(fresh_dispatch(dispatcher), steps);
            let low = dispatch_after(before, DispatchStep::Low);
            let normal = dispatch_after(before, DispatchStep::Normal);
            let end = dispatch_after(before, DispatchStep::End);
            &&& outcome_for(serve_try(before.slots).1) == DispatchOutcome::Dropped
                <==> before.slots.running == dispatcher.capacity
            &&& low.dispatcher.dropped == if before.slots.running < dispatcher.capacity {
                before.dispatcher.dropped
            } else {
                counted(before.dispatcher.dropped, 1)
            }
            &&& low.slots.running == if before.slots.running < dispatcher.capacity {
                before.slots.running + 1
            } else {
                before.slots.running
            }
            &&& normal.dispatcher == before.dispatcher
            &&& normal.slots.running + normal.slots.waiting == before.slots.running
                + before.slots.waiting + 1
            &&& before.slots.waiting > 0 && before.slots.running > 0 ==> end.slots.running
                == before.slots.running && end.slots.waiting == before.slots.waiting - 1
        }),
{
    at_most_capacity_in_flight(dispatcher, steps);
}

/// A low-priority task for which a permit is asked is dropped only while permits for
/// as many slots as the capacity are out, no two of them the same, or after the
/// semaphore was closed; and it is counted then. Otherwise it runs with a permit for
/// exactly one slot, and nothing is counted.
pub(crate) proof fn low_tasks_are_dropped_only_when_full(
    asked: &BoundedTaskDispatcher,
    permit: Option<OwnedSemaphorePermit>,
    settles: &mut BoundedTaskDispatcher,
    r: (DispatchOutcome, Option<OwnedSemaphorePermit>),
)
    requires
        call_ensures(BoundedTaskDispatcher::try_permit, (asked,), permit),
        *settles == *asked,
        call_ensures(
            BoundedTaskDispatcher::dispatch,
            (settles, TaskPriority::Low, permit),
            r,
        ),
    ensures
        r.0 == DispatchOutcome::Dropped ==> {
            ||| exists|held: Seq<OwnedSemaphorePermit>|
                held.no_duplicates() && (forall|i: int|
                    0 <= i < held.len() ==> permit_origin(#[trigger] held[i]) == asked@.gate)
                    && #[trigger] slots_of(held) >= asked@.capacity
            ||| exists|semaphore: Arc<Semaphore>|
                *semaphore == asked@.gate && #[trigger] call_ensures(
                    try_acquire,
                    (semaphore,),
                    SlotAnswer::Closed,
                )
        },
        r.0 == DispatchOutcome::Dropped ==> r.1 is None && final(settles)@.dropped == (
        old(settles)@.dropped + 1) % 0x1_0000_0000_0000_0000,
        r.0 == DispatchOutcome::Spawned ==> final(settles)@.dropped == old(settles)@.dropped && (
        r.1 matches Some(p) && permit_origin(p) == asked@.gate && permit_slots(p) == 1),
{
    if r.0 == DispatchOutcome::Dropped && is_full(asked@.gate, asked@.capacity) {
        let held = choose|held: Seq<OwnedSemaphorePermit>|
            #[trigger] are_permits_of(held, asked@.gate) && slots_of(held) >= asked@.capacity;
        assert(slots_of(held) >= asked@.capacity);
    }
}

/// The same, with the two reasons for a refusal by name.
pub proof fn refused_permits_mean_saturation(
    asked: &BoundedTaskDispatcher,
    permit: Option<OwnedSemaphorePermit>,
)
    requires
        call_ensures(BoundedTaskDispatcher::try_permit, (asked,), permit),
        !was_closed(asked@.gate),
    ensures
        permit is None ==> exists|held: Seq<OwnedSemaphorePermit>|
            held.no_duplicates() && (forall|i: int|
                0 <= i < held.len() ==> permit_origin(#[trigger] held[i]) == asked@.gate)
                && #[trigger] slots_of(held) >= asked@.capacity,
{
    if permit is None {
        let held = choose|held: Seq<OwnedSemaphorePermit>|
            #[trigger] are_permits_of(held, asked@.gate) && slots_of(held) >= asked@.capacity;
        assert(slots_of(held) >= asked@.capacity);
    }
}

/// A task runs exactly if it has a permit, and with that permit. One that goes
/// without is counted exactly if it is of low priority. Capacity and semaphore stay.
pub proof fn tasks_run_with_their_permit(
    dispatcher: &mut BoundedTaskDispatcher,
    priority: TaskPriority,
    permit: Option<OwnedSemaphorePermit>,
    r: (DispatchOutcome, Option<OwnedSemaphorePermit>),
)
    requires
        call_ensures(BoundedTaskDispatcher::dispatch, (dispatcher, priority, permit), r),
    ensures
        r.0 == DispatchOutcome::Spawned <==> permit is Some,
        r.1 == permit,
        final(dispatcher)@.capacity == old(dispatcher)@.capacity,
        final(dispatcher)@.gate == old(dispatcher)@.gate,
        permit is None && priority == TaskPriority::Low ==> final(dispatcher)@.dropped == (
        old(dispatcher)@.dropped + 1) % 0x1_0000_0000_0000_0000,
        permit is Some || priority == TaskPriority::Normal ==> final(dispatcher)@.dropped
            == old(dispatcher)@.dropped,
{
}

/// A new dispatcher has as many slots as it was asked for and has dropped nothing,
/// and whoever waits for a slot waits on the semaphore that has them.
pub proof fn new_dispatchers_have_their_slots(
    capacity: usize,
    dispatcher: BoundedTaskDispatcher,
    semaphore: Arc<Semaphore>,
    limit: usize,
    dropped: u64,
)
    requires
        call_ensures(BoundedTaskDispatcher::new, (capacity,), dispatcher),
        call_ensures(BoundedTaskDispatcher::semaphore, (&dispatcher,), semaphore),
        call_ensures(BoundedTaskDispatcher::capacity, (&dispatcher,), limit),
        call_ensures(BoundedTaskDispatcher::dropped_count, (&dispatcher,), dropped),
    ensures
        initial_permits(*semaphore) == capacity,
        *semaphore == dispatcher@.gate,
        limit == capacity,
        dropped == 0,
{
}

/// Default capacity for the telemetry event broadcast buffer.
pub const DEFAULT_TELEMETRY_CAPACITY: usize = 1024;

/// A JSON value.
#[verifier::external_type_specification]
#[verifier::external_body]
pub struct ExValue(serde_json::Value);

/// Cloning a JSON value gives an equal one.
pub assume_specification[ <serde_json::Value as Clone>::clone ](v: &serde_json::Value) -> (r:
    serde_json::Value)
    ensures
        r == *v,
;

/// A structured telemetry event emitted across the live broadcast queue.
#[derive(Debug, PartialEq)]
pub struct TelemetryEvent {
    /// Unique event identifier.
    pub id: String,
    /// Name or topic of the event, such as `simulation.step`.
    pub name: String,
    /// Event data payload.
    pub payload: serde_json::Value,
    /// When the event occurred.
    pub timestamp: Timestamp,
    /// Associated key-value metadata tags.
    pub tags: Vec<(String, String)>,
}

/// What an event says.
pub struct EventData {
    /// Unique event identifier.
    pub id: Seq<char>,
    /// Name or topic of the event.
    pub name: Seq<char>,
    /// Event data payload.
    pub payload: serde_json::Value,
    /// When the event occurred.
    pub timestamp: Timestamp,
    /// Associated key-value metadata tags.
    pub tags: Seq<(Seq<char>, Seq<char>)>,
}

/// The texts of a list of tags.
pub open spec fn tag_texts(tags: Seq<(String, String)>) -> Seq<(Seq<char>, Seq<char>)> {
    tags.map_values(|t: (String, String)| (t.0@, t.1@))
}

impl View for TelemetryEvent {
    type V = EventData;

    open spec fn view(&self) -> EventData {
        EventData {
            id: self.id@,
            name: self.name@,
            payload: self.payload,
            timestamp: self.timestamp,
            tags: tag_texts(self.tags@),
        }
    }
}

impl TelemetryEvent {
    /// A new event with a fresh random identifier, the current time and no tags.
    pub fn new(name: &str, payload: serde_json::Value) -> (r: TelemetryEvent)
        ensures
            crate::tokens::is_random_uuid_text(r@.id),
            r@.name == name@,
            r@.payload == payload,
            r@.timestamp.subsec_nanos < 1_000_000_000,
            r@.tags.len() == 0,
    {
        TelemetryEvent {
            id: random_uuid(),
            name: name.to_owned(),
            payload,
            timestamp: utc_now(),
            tags: Vec::new(),
        }
    }

    /// Attaches a key-value tag to this event, after those it has.
    pub fn with_tag(self, key: &str, value: &str) -> (r: TelemetryEvent)
        ensures
            r@ == (EventData { tags: self@.tags.push((key@, value@)), ..self@ }),
    {
        let mut event = self;
        event.tags.push((key.to_owned(), value.to_owned()));
        assert(event@.tags == self@.tags.push((key@, value@)));
        event
    }
}

impl Clone for TelemetryEvent {
    fn clone(&self) -> (r: TelemetryEvent)
        ensures
            r@ == self@,
    {
        let mut tags: Vec<(String, String)> = Vec::new();
        for i in 0..self.tags.len()
            invariant
                tag_texts(tags@) == tag_texts(self.tags@).take(i as int),
        {
            let ghost before = tags@;
            let tag: &(String, String) = &self.tags[i];
            tags.push((tag.0.clone(), tag.1.clone()));
            assert(tag_texts(tags@) == tag_texts(before).push((tag.0@, tag.1@)));
            assert(tag_texts(self.tags@)[i as int] == (tag.0@, tag.1@));
            assert(tag_texts(tags@) == tag_texts(self.tags@).take(i + 1));
        }
        assert(tag_texts(tags@) == tag_texts(self.tags@));
        TelemetryEvent {
            id: self.id.clone(),
            name: self.name.clone(),
            payload: self.payload.clone(),
            timestamp: self.timestamp,
            tags,
        }
    }
}

/// Error encountered during telemetry event receiving.
#[derive(Debug, Clone, Copy, PartialEq, Eq, Structural)]
pub enum TelemetryRecvError {
    /// The broadcast channel was closed.
    Closed,
    /// The subscriber lagged behind and skipped that many events.
    Lagged(u64),
}

/// Error encountered when receiving without waiting.
#[derive(Debug, Clone, Copy, PartialEq, Eq, Structural)]
pub enum TelemetryTryRecvError {
    /// No event is currently available.
    Empty,
    /// The broadcast channel was closed.
    Closed,
    /// The subscriber lagged behind and skipped that many events.
    Lagged(u64),
}

/// What is said about a lag of `n` events.
pub open spec fn lag_text(n: u64) -> Seq<char> {
    "subscriber lagged behind and dropped "@ + crate::text::decimal(n as nat) + " events"@
}

fn lag_message(n: u64) -> (r: String)
    ensures
        r@ == lag_text(n),
{
    "subscriber lagged behind and dropped ".to_owned().concat(decimal_text(n).as_str()).concat(
        " events",
    )
}

impl TelemetryRecvError {
    /// The error in words.
    pub fn to_string(&self) -> (r: String)
        ensures
            r@ == (match *self {
                TelemetryRecvError::Closed => "telemetry broadcast channel closed"@,
                TelemetryRecvError::Lagged(n) => lag_text(n),
            }),
    {
        match self {
            TelemetryRecvError::Closed => "telemetry broadcast channel closed".to_owned(),
            TelemetryRecvError::Lagged(n) => lag_message(*n),
        }
    }
}

impl TelemetryTryRecvError {
    /// The error in words.
    pub fn to_string(&self) -> (r: String)
        ensures
            r@ == (match *self {
                TelemetryTryRecvError::Empty => "no telemetry event available"@,
                TelemetryTryRecvError::Closed => "telemetry broadcast channel closed"@,
                TelemetryTryRecvError::Lagged(n) => lag_text(n),
            }),
    {
        match self {
            TelemetryTryRecvError::Empty => "no telemetry event available".to_owned(),
            TelemetryTryRecvError::Closed => "telemetry broadcast channel closed".to_owned(),
            TelemetryTryRecvError::Lagged(n) => lag_message(*n),
        }
    }
}

/// The sending half of a broadcast channel.
#[verifier::external_type_specification]
#[verifier::external_body]
#[verifier::reject_recursive_types(T)]
pub struct ExSender<T>(Sender<T>);

/// The receiving half of a broadcast channel.
#[verifier::external_type_specification]
#[verifier::external_body]
#[verifier::reject_recursive_types(T)]
pub struct ExReceiver<T>(Receiver<T>);

/// Which channel a sender sends on. A channel that is opened here has one sender
/// and no other handle that could send.
pub uninterp spec fn sender_channel(s: Sender<TelemetryEvent>) -> nat;

/// The events that were sent on the channel of a sender so far.
pub uninterp spec fn channel_log(s: Sender<TelemetryEvent>) -> Seq<EventData>;

/// The number of events that the channel of a sender retains for receivers.
pub uninterp spec fn channel_slots(s: Sender<TelemetryEvent>) -> nat;

/// An upper bound of the receivers that a channel has: those that subscribed and
/// were not given up again.
pub uninterp spec fn channel_receivers(s: Sender<TelemetryEvent>) -> nat;

/// Which channel a receiver receives from.
pub uninterp spec fn receiver_channel(r: Receiver<TelemetryEvent>) -> nat;

/// The position in the channel's log of the next event that a receiver will see.
pub uninterp spec fn receiver_position(r: Receiver<TelemetryEvent>) -> nat;

/// The position of the oldest event that a channel still retains.
pub open spec fn oldest_retained(s: Sender<TelemetryEvent>) -> int {
    if channel_log(s).len() > channel_slots(s) {
        channel_log(s).len() - channel_slots(s)
    } else {
        0
    }
}

/// `broadcast::channel` opens a channel on which nothing was sent yet, and rounds
/// the capacity up to a power of two. Its first receiver is dropped. It panics on a
/// capacity of zero or beyond half the range of `usize`.
#[verifier::external_body]
fn open_channel(capacity: usize) -> (r: Sender<TelemetryEvent>)
    requires
        0 < capacity <= usize::MAX / 2,
    ensures
        capacity <= channel_slots(r) < 2 * capacity,
        channel_log(r).len() == 0,
        channel_receivers(r) == 0,
{
    tokio::sync::broadcast::channel(capacity).0
}

/// The number of places that are taken.
pub open spec fn taken<T>(places: Seq<Option<T>>) -> nat
    decreases places.len(),
{
    if places.len() == 0 {
        0
    } else {
        taken(places.drop_last()) + if places.last() is Some {
            1nat
        } else {
            0nat
        }
    }
}

/// The receivers in some places all belong to the channel of a sender.
pub open spec fn all_listen(
    listeners: Seq<Option<Receiver<TelemetryEvent>>>,
    s: Sender<TelemetryEvent>,
) -> bool {
    forall|i: int|
        0 <= i < listeners.len() ==> (#[trigger] listeners[i] matches Some(r) ==> receiver_channel(
            r,
        ) == sender_channel(s))
}

/// `Sender::send` appends the event to the log and returns the number of
/// receivers at that time, or fails, without sending, when there is none. The
/// receivers that are given are all different and count; nobody else does who
/// never subscribed or was given up.
#[verifier::external_body]
fn send(
    s: &mut Sender<TelemetryEvent>,
    listeners: &Vec<Option<Receiver<TelemetryEvent>>>,
    event: TelemetryEvent,
) -> (r: Option<usize>)
    requires
        all_listen(listeners@, *old(s)),
    ensures
        match r {
            Some(receivers) => 1 <= receivers && taken(listeners@) <= receivers
                <= channel_receivers(*old(s)),
            None => taken(listeners@) == 0,
        },
        channel_log(*final(s)) == if r is Some {
            channel_log(*old(s)).push(event@)
        } else {
            channel_log(*old(s))
        },
        sender_channel(*final(s)) == sender_channel(*old(s)),
        channel_slots(*final(s)) == channel_slots(*old(s)),
        channel_receivers(*final(s)) == channel_receivers(*old(s)),
{
    let _ = listeners;
    s.send(event).ok()
}

/// `Sender::receiver_count` counts the receivers that exist at the moment: those
/// that are given, which are all different, and nobody who never subscribed or
/// was given up.
#[verifier::external_body]
fn receiver_count(
    s: &Sender<TelemetryEvent>,
    listeners: &Vec<Option<Receiver<TelemetryEvent>>>,
) -> (r: usize)
    requires
        all_listen(listeners@, *s),
    ensures
        taken(listeners@) <= r <= channel_receivers(*s),
{
    let _ = listeners;
    s.receiver_count()
}

/// Dropping a receiver takes it off its channel.
#[verifier::external_body]
fn give_up(s: &mut Sender<TelemetryEvent>, receiver: Receiver<TelemetryEvent>)
    requires
        receiver_channel(receiver) == sender_channel(*old(s)),
        channel_receivers(*old(s)) > 0,
    ensures
        channel_receivers(*final(s)) == channel_receivers(*old(s)) - 1,
        sender_channel(*final(s)) == sender_channel(*old(s)),
        channel_log(*final(s)) == channel_log(*old(s)),
        channel_slots(*final(s)) == channel_slots(*old(s)),
{
    let _ = s;
    drop(receiver)
}

/// `Sender::subscribe` makes a receiver of the same channel, which will see the
/// events that are sent from now on. It panics only beyond a quarter of the
/// range of `usize` of receivers.
#[verifier::external_body]
fn subscribe_to(s: &mut Sender<TelemetryEvent>) -> (r: Receiver<TelemetryEvent>)
    ensures
        receiver_channel(r) == sender_channel(*old(s)),
        receiver_position(r) == channel_log(*old(s)).len(),
        sender_channel(*final(s)) == sender_channel(*old(s)),
        channel_log(*final(s)) == channel_log(*old(s)),
        channel_slots(*final(s)) == channel_slots(*old(s)),
        channel_receivers(*final(s)) == channel_receivers(*old(s)) + 1,
{
    s.subscribe()
}

/// `Receiver::len` counts the events that were sent and that the receiver has
/// yet to receive, those that the channel no longer retains among them. Nothing
/// is said of a count that does not fit the result.
#[verifier::external_body]
fn unread_events(r: &Receiver<TelemetryEvent>, sender: &Sender<TelemetryEvent>) -> (n: usize)
    requires
        receiver_channel(*r) == sender_channel(*sender),
    ensures
        channel_log(*sender).len() - receiver_position(*r) <= usize::MAX ==> n == channel_log(
            *sender,
        ).len() - receiver_position(*r),
{
    let _ = sender;
    r.len()
}

/// What a receiver came to, without waiting.
enum Polled {
    Event(TelemetryEvent),
    Empty,
    Closed,
    Lagged(u64),
}

/// `Receiver::try_recv` returns a clone of the event at the receiver's position
/// and moves on by one; or, when that event is no longer retained, moves to the
/// oldest retained one and reports how many were skipped; or, at the end of the
/// log, stays and reports that there is nothing, or that the channel is closed.
#[verifier::external_body]
fn poll(r: &mut Receiver<TelemetryEvent>, sender: &Sender<TelemetryEvent>) -> (outcome: Polled)
    requires
        receiver_channel(*old(r)) == sender_channel(*sender),
    ensures
        receiver_channel(*final(r)) == receiver_channel(*old(r)),
        match outcome {
            Polled::Event(event) => {
                &&& oldest_retained(*sender) <= receiver_position(*old(r))
                &&& receiver_position(*old(r)) < channel_log(*sender).len()
                &&& event@ == channel_log(*sender)[receiver_position(*old(r)) as int]
                &&& receiver_position(*final(r)) == receiver_position(*old(r)) + 1
            },
            Polled::Lagged(skipped) => {
                &&& skipped >= 1
                &&& receiver_position(*old(r)) + skipped == oldest_retained(*sender)
                &&& receiver_position(*final(r)) == oldest_retained(*sender)
            },
            Polled::Empty => {
                &&& receiver_position(*old(r)) == channel_log(*sender).len()
                &&& receiver_position(*final(r)) == receiver_position(*old(r))
            },
            Polled::Closed => {
                &&& receiver_position(*old(r)) == channel_log(*sender).len()
                &&& receiver_position(*final(r)) == receiver_position(*old(r))
            },
        },
{
    let _ = sender;
    match r.try_recv() {
        Ok(event) => Polled::Event(event),
        Err(tokio::sync::broadcast::error::TryRecvError::Empty) => Polled::Empty,
        Err(tokio::sync::broadcast::error::TryRecvError::Closed) => Polled::Closed,
        Err(tokio::sync::broadcast::error::TryRecvError::Lagged(skipped)) => Polled::Lagged(skipped),
    }
}

/// The number of subscribers that sending an event reached, given the number of
/// receivers, or `None` if sending failed for want of any.
pub fn subscribers_reached(sent: Option<usize>) -> (r: usize)
    ensures
        r == (match sent {
            Some(receivers) => receivers,
            None => 0,
        }),
{
    match sent {
        Some(receivers) => receivers,
        None => 0,
    }
}

/// Broadcast queue of live telemetry events, for many producers and many
/// subscribers.
///
/// - Publishing never blocks.
/// - Every subscriber receives its own clone of the event stream.
/// - A subscriber that falls behind the buffer loses its oldest unread events,
///   without holding up publishers or other subscribers.
/// - Lost events are counted for the queue and for each subscriber.
pub struct TelemetryEventQueue {
    sender: Sender<TelemetryEvent>,
    /// The receivers of the subscribers, each in its seat.
    listeners: Vec<Option<Receiver<TelemetryEvent>>>,
    capacity: usize,
    dropped_events: u64,
    total_published: u64,
    closed: bool,
}

/// The state of a queue.
pub struct QueueState {
    /// Which channel it broadcasts on.
    pub channel: nat,
    /// The events that were broadcast, in order.
    pub sent: Seq<EventData>,
    /// The number of unread events that are kept for a subscriber.
    pub capacity: usize,
    /// The seats of the subscribers: in each the position in the stream of the next
    /// event that its subscriber will see, or `None` if it is free.
    pub seats: Seq<Option<nat>>,
    /// The number of events that subscribers lost.
    pub dropped_events: u64,
    /// The number of events that were published.
    pub total_published: u64,
    /// No more events will come.
    pub closed: bool,
}

/// The positions of the receivers in some places.
pub open spec fn positions(listeners: Seq<Option<Receiver<TelemetryEvent>>>) -> Seq<Option<nat>> {
    listeners.map_values(
        |l: Option<Receiver<TelemetryEvent>>|
            match l {
                Some(r) => Some(receiver_position(r)),
                None => None,
            },
    )
}

/// Taking or freeing a place changes the number of places that are taken.
proof fn lemma_taken_update<T>(places: Seq<Option<T>>, i: int, place: Option<T>)
    requires
        0 <= i < places.len(),
    ensures
        taken(places.update(i, place)) == taken(places) - (if places[i] is Some {
            1int
        } else {
            0int
        }) + (if place is Some {
            1int
        } else {
            0int
        }),
    decreases places.len(),
{
    let updated = places.update(i, place);
    if i == places.len() - 1 {
        assert(updated.drop_last() == places.drop_last());
    } else {
        assert(updated.drop_last() == places.drop_last().update(i, place));
        lemma_taken_update(places.drop_last(), i, place);
    }
}

/// As many seats are taken as there are receivers.
proof fn lemma_taken_positions(listeners: Seq<Option<Receiver<TelemetryEvent>>>)
    ensures
        taken(positions(listeners)) == taken(listeners),
    decreases listeners.len(),
{
    if listeners.len() > 0 {
        assert(positions(listeners).drop_last() == positions(listeners.drop_last()));
        lemma_taken_positions(listeners.drop_last());
    }
}

impl View for TelemetryEventQueue {
    type V = QueueState;

    closed spec fn view(&self) -> QueueState {
        QueueState {
            channel: sender_channel(self.sender),
            sent: channel_log(self.sender),
            capacity: self.capacity,
            seats: positions(self.listeners@),
            dropped_events: self.dropped_events,
            total_published: self.total_published,
            closed: self.closed,
        }
    }
}

/// The buffer capacity for a requested one: zero asks for the default.
pub open spec fn effective_capacity(capacity: usize) -> usize {
    if capacity == 0 {
        DEFAULT_TELEMETRY_CAPACITY
    } else {
        capacity
    }
}

/// The state of a queue after an event was published: it is counted, and broadcast
/// if there is any subscriber.
pub open spec fn published(queue: QueueState, event: EventData) -> QueueState {
    QueueState {
        sent: if taken(queue.seats) > 0 {
            queue.sent.push(event)
        } else {
            queue.sent
        },
        total_published: counted(queue.total_published, 1),
        ..queue
    }
}

/// The state of a queue after a subscriber has joined in a seat.
pub open spec fn joined(queue: QueueState, seat: int) -> QueueState {
    QueueState {
        seats: if seat < queue.seats.len() {
            queue.seats.update(seat, Some(queue.sent.len()))
        } else {
            queue.seats.push(Some(queue.sent.len()))
        },
        ..queue
    }
}

/// The state of a queue after the subscriber in a seat has left.
pub open spec fn left(queue: QueueState, seat: int) -> QueueState {
    QueueState {
        seats: if 0 <= seat < queue.seats.len() {
            queue.seats.update(seat, None)
        } else {
            queue.seats
        },
        ..queue
    }
}

impl TelemetryEventQueue {
    /// The channel retains at least as many events as the queue promises, and it
    /// has exactly the receivers of the subscribers.
    pub closed spec fn wf(&self) -> bool {
        &&& 1 <= self.capacity <= channel_slots(self.sender)
        &&& all_listen(self.listeners@, self.sender)
        &&& channel_receivers(self.sender) == taken(self.listeners@)
    }

    /// A queue with the given buffer capacity, or the default one for zero.
    pub fn new(capacity: usize) -> (r: TelemetryEventQueue)
        requires
            capacity <= usize::MAX / 2,
        ensures
            r.wf(),
            r@.sent.len() == 0,
            r@.capacity == effective_capacity(capacity),
            r@.seats.len() == 0,
            r@.dropped_events == 0,
            r@.total_published == 0,
            !r@.closed,
    {
        let capacity: usize = if capacity == 0 {
            DEFAULT_TELEMETRY_CAPACITY
        } else {
            capacity
        };
        TelemetryEventQueue {
            sender: open_channel(capacity),
            listeners: Vec::new(),
            capacity,
            dropped_events: 0,
            total_published: 0,
            closed: false,
        }
    }

    /// Buffer capacity per subscriber before old events are dropped.
    pub fn capacity(&self) -> (r: usize)
        ensures
            r == self@.capacity,
            self.wf() ==> r >= 1,
    {
        self.capacity
    }

    /// Number of active subscribers currently listening.
    pub fn subscriber_count(&self) -> (r: usize)
        requires
            self.wf(),
        ensures
            r == taken(self@.seats),
    {
        proof {
            lemma_taken_positions(self.listeners@);
        }
        receiver_count(&self.sender, &self.listeners)
    }

    /// Total number of events dropped across all subscribers.
    pub fn dropped_events_count(&self) -> (r: u64)
        ensures
            r == self@.dropped_events,
    {
        self.dropped_events
    }

    /// Total number of events published to the queue.
    pub fn total_published(&self) -> (r: u64)
        ensures
            r == self@.total_published,
    {
        self.total_published
    }

    /// Broadcasts an event to all active subscribers and returns how many there
    /// are. Never blocks. Without subscribers the event is discarded.
    pub fn publish(&mut self, event: TelemetryEvent) -> (r: usize)
        requires
            old(self).wf(),
        ensures
            r == taken(old(self)@.seats),
            final(self)@ == published(old(self)@, event@),
            final(self).wf(),
    {
        proof {
            lemma_taken_positions(self.listeners@);
        }
        self.total_published = self.total_published.wrapping_add(1);
        subscribers_reached(send(&mut self.sender, &self.listeners, event))
    }

    /// Finds a seat for a subscriber: a free one, or the one behind the last.
    fn free_seat(&self) -> (r: usize)
        ensures
            r <= self.listeners@.len(),
            r < self.listeners@.len() ==> self.listeners@[r as int] is None,
    {
        for i in 0..self.listeners.len() {
            if self.listeners[i].is_none() {
                return i;
            }
        }
        self.listeners.len()
    }

    /// Subscribes to the event stream, from the next event on.
    pub fn subscribe(&mut self) -> (r: TelemetrySubscriber)
        requires
            old(self).wf(),
        ensures
            r@.channel == old(self)@.channel,
            r@.local_dropped == 0,
            r@.seat <= old(self)@.seats.len(),
            r@.seat < old(self)@.seats.len() ==> old(self)@.seats[r@.seat as int] is None,
            final(self)@ == joined(old(self)@, r@.seat as int),
            final(self).wf(),
    {
        let seat: usize = self.free_seat();
        let receiver = subscribe_to(&mut self.sender);
        let ghost before = self.listeners@;
        if seat < self.listeners.len() {
            self.listeners.set(seat, Some(receiver));
            proof {
                lemma_taken_update(before, seat as int, Some(receiver));
                assert(positions(self.listeners@) == positions(before).update(
                    seat as int,
                    Some(receiver_position(receiver)),
                ));
            }
        } else {
            self.listeners.push(Some(receiver));
            proof {
                assert(self.listeners@.drop_last() == before);
                assert(positions(self.listeners@) == positions(before).push(
                    Some(receiver_position(receiver)),
                ));
            }
        }
        TelemetrySubscriber { channel: Ghost(sender_channel(self.sender)), seat, local_dropped: 0 }
    }

    /// Ends a subscription to this queue.
    pub fn unsubscribe(&mut self, subscriber: TelemetrySubscriber)
        requires
            old(self).wf(),
            subscriber@.channel == old(self)@.channel,
        ensures
            final(self)@ == left(old(self)@, subscriber@.seat as int),
            final(self).wf(),
    {
        let seat: usize = subscriber.seat;
        if seat >= self.listeners.len() {
            return;
        }
        let ghost before = self.listeners@;
        let mut listener: Option<Receiver<TelemetryEvent>> = None;
        std::mem::swap(&mut self.listeners[seat], &mut listener);
        proof {
            assert(self.listeners@ == before.update(seat as int, None));
            lemma_taken_update(before, seat as int, None);
            assert(positions(self.listeners@) == positions(before).update(seat as int, None));
        }
        if let Some(receiver) = listener {
            give_up(&mut self.sender, receiver);
        }
    }

    /// A producer handle for publishing to this queue. There may be any number of
    /// them.
    pub fn producer(&self) -> (r: TelemetryEventProducer)
        ensures
            r.channel() == self@.channel,
    {
        TelemetryEventProducer { channel: Ghost(sender_channel(self.sender)) }
    }

    /// Marks the end of the stream: once every producer is gone, subscribers that
    /// have read all events learn that no more will come.
    pub fn close(&mut self)
        ensures
            final(self)@ == (QueueState { closed: true, ..old(self)@ }),
            old(self).wf() ==> final(self).wf(),
    {
        self.closed = true;
    }

    fn count_dropped(&mut self, n: u64)
        ensures
            final(self)@ == (QueueState {
                dropped_events: counted(old(self)@.dropped_events, n as int),
                ..old(self)@
            }),
            final(self).sender == old(self).sender,
            final(self).listeners == old(self).listeners,
            final(self).capacity == old(self).capacity,
            final(self).closed == old(self).closed,
    {
        self.dropped_events = self.dropped_events.wrapping_add(n);
    }
}

impl Default for TelemetryEventQueue {
    fn default() -> (r: TelemetryEventQueue)
        ensures
            r.wf(),
            r@.sent.len() == 0,
            r@.capacity == DEFAULT_TELEMETRY_CAPACITY,
            r@.seats.len() == 0,
            r@.dropped_events == 0,
            r@.total_published == 0,
            !r@.closed,
    {
        TelemetryEventQueue::new(DEFAULT_TELEMETRY_CAPACITY)
    }
}

/// Producer handle for publishing telemetry events to a queue.
pub struct TelemetryEventProducer {
    channel: Ghost<nat>,
}

impl TelemetryEventProducer {
    /// Which channel it publishes to.
    pub closed spec fn channel(&self) -> nat {
        self.channel@
    }

    /// Publishes an event to its queue and returns the number of active
    /// subscribers, as publishing on the queue itself does.
    pub fn publish(&self, queue: &mut TelemetryEventQueue, event: TelemetryEvent) -> (r: usize)
        requires
            old(queue).wf(),
            self.channel() == old(queue)@.channel,
        ensures
            r == taken(old(queue)@.seats),
            final(queue)@ == published(old(queue)@, event@),
            final(queue).wf(),
    {
        queue.publish(event)
    }

    /// Total number of events published to its queue.
    pub fn total_published(&self, queue: &TelemetryEventQueue) -> (r: u64)
        requires
            self.channel() == queue@.channel,
        ensures
            r == queue@.total_published,
    {
        queue.total_published()
    }
}

impl Clone for TelemetryEventProducer {
    /// Another producer of the same queue.
    fn clone(&self) -> (r: TelemetryEventProducer)
        ensures
            r.channel() == self.channel(),
    {
        TelemetryEventProducer { channel: self.channel }
    }
}

/// Consumer handle for receiving live telemetry events: a seat at a queue.
pub struct TelemetrySubscriber {
    channel: Ghost<nat>,
    seat: usize,
    local_dropped: u64,
}

/// The state of a subscriber.
pub struct SubscriberState {
    /// Which channel it listens to.
    pub channel: nat,
    /// Its seat at the queue.
    pub seat: usize,
    /// Its count of dropped events.
    pub local_dropped: u64,
}

impl View for TelemetrySubscriber {
    type V = SubscriberState;

    closed spec fn view(&self) -> SubscriberState {
        SubscriberState {
            channel: self.channel@,
            seat: self.seat,
            local_dropped: self.local_dropped,
        }
    }
}

/// What receiving came to.
pub enum Received {
    /// An event.
    Event(EventData),
    /// There was nothing to receive.
    Empty,
    /// There is nothing to receive and no more will come.
    Closed,
    /// That many events were lost.
    Lagged(u64),
}

/// What a receiving call returned.
pub open spec fn received(r: Result<TelemetryEvent, TelemetryTryRecvError>) -> Received {
    match r {
        Ok(event) => Received::Event(event@),
        Err(TelemetryTryRecvError::Empty) => Received::Empty,
        Err(TelemetryTryRecvError::Closed) => Received::Closed,
        Err(TelemetryTryRecvError::Lagged(n)) => Received::Lagged(n),
    }
}

/// What a receiving call that asks to wait with `None` returned.
pub open spec fn waited_for(r: Option<Result<TelemetryEvent, TelemetryRecvError>>) -> Received {
    match r {
        None => Received::Empty,
        Some(Ok(event)) => Received::Event(event@),
        Some(Err(TelemetryRecvError::Closed)) => Received::Closed,
        Some(Err(TelemetryRecvError::Lagged(n))) => Received::Lagged(n),
    }
}

/// The position of the next event that a subscriber will see, if it has a seat.
pub open spec fn position_of(queue: QueueState, subscriber: SubscriberState) -> Option<nat> {
    if subscriber.seat < queue.seats.len() {
        queue.seats[subscriber.seat as int]
    } else {
        None
    }
}

/// The queue with a subscriber at another position.
pub open spec fn moved(queue: QueueState, subscriber: SubscriberState, position: nat) -> QueueState {
    QueueState { seats: queue.seats.update(subscriber.seat as int, Some(position)), ..queue }
}

/// The number of events that a subscriber has yet to see.
pub open spec fn unread(queue: QueueState, subscriber: SubscriberState) -> int {
    match position_of(queue, subscriber) {
        Some(position) if position < queue.sent.len() => queue.sent.len() - position,
        _ => 0,
    }
}

/// What receiving comes to, and the queue and the subscriber afterwards. With
/// more unread events than the queue keeps, the oldest of them are lost, skipped
/// and counted on both sides. Else the oldest unread event comes. Without unread
/// events there is nothing, for good once the queue is closed; and so for a
/// subscriber without a seat.
pub open spec fn receive(queue: QueueState, subscriber: SubscriberState) -> (
    Received,
    QueueState,
    SubscriberState,
) {
    let unread = unread(queue, subscriber);
    match position_of(queue, subscriber) {
        None => (Received::Closed, queue, subscriber),
        Some(position) => if unread == 0 {
            (
                if queue.closed {
                    Received::Closed
                } else {
                    Received::Empty
                },
                queue,
                subscriber,
            )
        } else if unread <= queue.capacity {
            (
                Received::Event(queue.sent[position as int]),
                moved(queue, subscriber, position + 1),
                subscriber,
            )
        } else {
            let lost = unread - queue.capacity;
            (
                Received::Lagged(lost as u64),
                QueueState {
                    dropped_events: counted(queue.dropped_events, lost),
                    ..moved(queue, subscriber, (position + lost) as nat)
                },
                SubscriberState {
                    local_dropped: counted(subscriber.local_dropped, lost),
                    ..subscriber
                },
            )
        },
    }
}

/// As `receive`, but passes over a loss to the event behind it.
pub open spec fn receive_lossy(queue: QueueState, subscriber: SubscriberState) -> (
    Received,
    QueueState,
    SubscriberState,
) {
    let (outcome, queue_after, subscriber_after) = receive(queue, subscriber);
    if outcome is Lagged {
        receive(queue_after, subscriber_after)
    } else {
        (outcome, queue_after, subscriber_after)
    }
}

impl TelemetryEventQueue {
    /// Moves the listener in a seat by one event, or to the oldest retained event
    /// if its next one is not retained any more.
    fn poll_seat(&mut self, seat: usize) -> (outcome: Polled)
        requires
            old(self).wf(),
            seat < old(self)@.seats.len(),
            old(self)@.seats[seat as int] is Some,
        ensures
            final(self).wf(),
            final(self).sender == old(self).sender,
            final(self).capacity == old(self).capacity,
            final(self)@ == (QueueState { seats: final(self)@.seats, ..old(self)@ }),
            final(self)@.seats.len() == old(self)@.seats.len(),
            final(self)@.seats[seat as int] is Some,
            final(self)@.seats == old(self)@.seats.update(
                seat as int,
                final(self)@.seats[seat as int],
            ),
            match outcome {
                Polled::Event(event) => {
                    let position = old(self)@.seats[seat as int]->0;
                    &&& oldest_retained(old(self).sender) <= position < old(self)@.sent.len()
                    &&& event@ == old(self)@.sent[position as int]
                    &&& final(self)@.seats[seat as int]->0 == position + 1
                },
                Polled::Lagged(skipped) => {
                    let position = old(self)@.seats[seat as int]->0;
                    &&& skipped >= 1
                    &&& position + skipped == oldest_retained(old(self).sender)
                    &&& final(self)@.seats[seat as int]->0 == position + skipped
                },
                Polled::Empty | Polled::Closed => {
                    &&& old(self)@.seats[seat as int]->0 == old(self)@.sent.len()
                    &&& final(self)@.seats[seat as int] == old(self)@.seats[seat as int]
                },
            },
    {
        let ghost before = self.listeners@;
        let mut listener: Option<Receiver<TelemetryEvent>> = None;
        std::mem::swap(&mut self.listeners[seat], &mut listener);
        let outcome = match &mut listener {
            Some(receiver) => poll(receiver, &self.sender),
            None => Polled::Closed,
        };
        self.listeners.set(seat, listener);
        proof {
            let after = self.listeners@;
            assert(after == before.update(seat as int, listener));
            lemma_taken_update(before, seat as int, listener);
            assert(positions(after) == positions(before).update(
                seat as int,
                positions(after)[seat as int],
            ));
        }
        outcome
    }
}

impl TelemetrySubscriber {
    /// Receives the next event of its queue without waiting. If more events are
    /// unread than the queue keeps, the loss is reported and counted, for this
    /// subscriber and for the queue; receiving again resumes with the events that
    /// are still there.
    pub fn try_recv(&mut self, queue: &mut TelemetryEventQueue) -> (r: Result<
        TelemetryEvent,
        TelemetryTryRecvError,
    >)
        requires
            old(queue).wf(),
            old(self)@.channel == old(queue)@.channel,
        ensures
            final(queue).wf(),
            final(queue)@.sent == old(queue)@.sent,
            final(queue)@.channel == old(queue)@.channel,
            final(self)@.channel == old(self)@.channel,
            final(self)@.seat == old(self)@.seat,
            received(r) is Lagged ==> unread(final(queue)@, final(self)@) < unread(
                old(queue)@,
                old(self)@,
            ),
            unread(old(queue)@, old(self)@) <= usize::MAX ==> (
                received(r),
                final(queue)@,
                final(self)@,
            ) == receive(old(queue)@, old(self)@),
    {
        let seat: usize = self.seat;
        if seat >= queue.listeners.len() {
            return Err(TelemetryTryRecvError::Closed);
        }
        let unread: usize = match &queue.listeners[seat] {
            Some(receiver) => unread_events(receiver, &queue.sender),
            None => {
                return Err(TelemetryTryRecvError::Closed);
            },
        };
        let ghost start = queue@.seats[seat as int]->0;
        let ghost total = queue@.sent.len();
        if unread <= queue.capacity {
            match queue.poll_seat(seat) {
                Polled::Event(event) => Ok(event),
                Polled::Lagged(lost) => {
                    self.local_dropped = self.local_dropped.wrapping_add(lost);
                    queue.count_dropped(lost);
                    Err(TelemetryTryRecvError::Lagged(lost))
                },
                Polled::Empty | Polled::Closed => {
                    assert(queue@.seats == old(queue)@.seats);
                    if queue.closed {
                        Err(TelemetryTryRecvError::Closed)
                    } else {
                        Err(TelemetryTryRecvError::Empty)
                    }
                },
            }
        } else {
            let lost: u64 = (unread - queue.capacity) as u64;
            let mut skipped: u64 = 0;
            while skipped < lost
                invariant
                    queue.wf(),
                    queue.sender == old(queue).sender,
                    queue@ == (QueueState { seats: queue@.seats, ..old(queue)@ }),
                    queue@.seats.len() == old(queue)@.seats.len(),
                    seat < queue@.seats.len(),
                    queue@.seats[seat as int] is Some,
                    queue@.seats == old(queue)@.seats.update(
                        seat as int,
                        queue@.seats[seat as int],
                    ),
                    old(queue)@.seats[seat as int] == Some(start),
                    total == queue@.sent.len(),
                    skipped <= lost,
                    lost >= 1,
                    skipped == 0 ==> queue@.seats[seat as int]->0 == start,
                    skipped > 0 ==> start < queue@.seats[seat as int]->0 <= total,
                    start != total || lost == 0,
                    total - start <= usize::MAX ==> {
                        &&& total - start == queue@.capacity + lost
                        &&& queue@.seats[seat as int]->0 == start + skipped
                    },
                decreases lost - skipped,
            {
                match queue.poll_seat(seat) {
                    Polled::Event(_) => {
                        skipped = skipped + 1;
                    },
                    Polled::Lagged(n) => {
                        if n <= lost - skipped {
                            skipped = skipped + n;
                        } else {
                            skipped = lost;
                        }
                    },
                    Polled::Empty | Polled::Closed => {
                        skipped = lost;
                    },
                }
            }
            self.local_dropped = self.local_dropped.wrapping_add(lost);
            queue.count_dropped(lost);
            Err(TelemetryTryRecvError::Lagged(lost))
        }
    }

    /// Receives the next event of its queue as `try_recv` does, for a caller that
    /// waits: `None` asks to wait for the next event and to call again.
    pub fn recv(&mut self, queue: &mut TelemetryEventQueue) -> (r: Option<
        Result<TelemetryEvent, TelemetryRecvError>,
    >)
        requires
            old(queue).wf(),
            old(self)@.channel == old(queue)@.channel,
        ensures
            final(queue).wf(),
            final(queue)@.channel == old(queue)@.channel,
            final(self)@.channel == old(self)@.channel,
            final(self)@.seat == old(self)@.seat,
            unread(old(queue)@, old(self)@) <= usize::MAX ==> (
                waited_for(r),
                final(queue)@,
                final(self)@,
            ) == receive(old(queue)@, old(self)@),
    {
        match self.try_recv(queue) {
            Ok(event) => Some(Ok(event)),
            Err(TelemetryTryRecvError::Lagged(lost)) => Some(Err(TelemetryRecvError::Lagged(lost))),
            Err(TelemetryTryRecvError::Closed) => Some(Err(TelemetryRecvError::Closed)),
            Err(TelemetryTryRecvError::Empty) => None,
        }
    }

    /// Receives the next event of its queue as `recv` does, but passes over a
    /// loss, which is counted, to the event behind it.
    pub fn recv_lossy(&mut self, queue: &mut TelemetryEventQueue) -> (r: Option<
        Result<TelemetryEvent, TelemetryRecvError>,
    >)
        requires
            old(queue).wf(),
            old(self)@.channel == old(queue)@.channel,
        ensures
            final(queue).wf(),
            final(queue)@.channel == old(queue)@.channel,
            final(self)@.channel == old(self)@.channel,
            final(self)@.seat == old(self)@.seat,
            !(waited_for(r) is Lagged),
            unread(old(queue)@, old(self)@) <= usize::MAX ==> (
                waited_for(r),
                final(queue)@,
                final(self)@,
            ) == receive_lossy(old(queue)@, old(self)@),
        decreases unread(old(queue)@, old(self)@),
    {
        match self.try_recv(queue) {
            Ok(event) => Some(Ok(event)),
            Err(TelemetryTryRecvError::Lagged(_)) => self.recv_lossy(queue),
            Err(TelemetryTryRecvError::Closed) => Some(Err(TelemetryRecvError::Closed)),
            Err(TelemetryTryRecvError::Empty) => None,
        }
    }

    /// Number of dropped events observed by this subscriber instance.
    pub fn local_dropped_count(&self) -> (r: u64)
        ensures
            r == self@.local_dropped,
    {
        self.local_dropped
    }
}

/// `later` is a state of the same queue after more events, or none, were
/// published.
pub open spec fn continues(queue: QueueState, later: QueueState) -> bool {
    &&& queue.channel == later.channel
    &&& queue.capacity == later.capacity
    &&& queue.sent.len() <= later.sent.len()
    &&& later.sent.take(queue.sent.len() as int) == queue.sent
}

/// A receiving call: the queue and the subscriber when it was made.
pub struct ReceiveCall {
    /// The queue.
    pub queue: QueueState,
    /// The subscriber, which has a seat there.
    pub subscriber: SubscriberState,
}

impl ReceiveCall {
    /// What the call came to.
    pub open spec fn outcome(self) -> Received {
        receive(self.queue, self.subscriber).0
    }

    /// Where the subscriber stood before the call.
    pub open spec fn position(self) -> nat {
        position_of(self.queue, self.subscriber)->0
    }

    /// Where the subscriber stands after the call.
    pub open spec fn position_after(self) -> nat {
        position_of(
            receive(self.queue, self.subscriber).1,
            receive(self.queue, self.subscriber).2,
        )->0
    }

    /// The subscriber after the call.
    pub open spec fn subscriber_after(self) -> SubscriberState {
        receive(self.queue, self.subscriber).2
    }

    /// The subscriber listens to the queue and has a seat there, and the number of
    /// its unread events fits a counter.
    pub open spec fn is_valid(self) -> bool {
        &&& self.subscriber.channel == self.queue.channel
        &&& position_of(self.queue, self.subscriber) is Some
        &&& unread(self.queue, self.subscriber) <= u64::MAX
    }
}

/// Some receiving calls of one subscriber in order. Between two of them others
/// may publish, subscribe and receive, but the subscriber stays where it is.
pub open spec fn is_run(calls: Seq<ReceiveCall>) -> bool {
    &&& forall|i: int| 0 <= i < calls.len() ==> (#[trigger] calls[i]).is_valid()
    &&& forall|i: int, j: int|
        0 <= i && j == i + 1 && j < calls.len() ==> {
            &&& (#[trigger] calls[j]).subscriber == (#[trigger] calls[i]).subscriber_after()
            &&& calls[j].position() == calls[i].position_after()
        }
    &&& forall|i: int, j: int|
        0 <= i <= j < calls.len() ==> continues(
            (#[trigger] calls[i]).queue,
            (#[trigger] calls[j]).queue,
        )
}

/// The number of events that some calls received.
pub open spec fn events_received(calls: Seq<ReceiveCall>) -> nat
    decreases calls.len(),
{
    if calls.len() == 0 {
        0
    } else {
        events_received(calls.drop_last()) + if calls.last().outcome() is Event {
            1nat
        } else {
            0nat
        }
    }
}

/// The number of events that some calls reported as lost.
pub open spec fn events_lost(calls: Seq<ReceiveCall>) -> nat
    decreases calls.len(),
{
    if calls.len() == 0 {
        0
    } else {
        events_lost(calls.drop_last()) + match calls.last().outcome() {
            Received::Lagged(n) => n as nat,
            _ => 0nat,
        }
    }
}

/// Counting twice is counting the sum.
proof fn lemma_counted_twice(count: u64, m: int, n: int)
    requires
        0 <= m,
        0 <= n,
    ensures
        counted(counted(count, m), n) == counted(count, m + n),
{
    let range: int = 0x1_0000_0000_0000_0000;
    vstd::arithmetic::div_mod::lemma_add_mod_noop(count + m, n, range);
    vstd::arithmetic::div_mod::lemma_mod_twice(count + m, range);
    vstd::arithmetic::div_mod::lemma_add_mod_noop((count + m) % range, n, range);
}

/// What one more call adds to the numbers of a run.
proof fn lemma_one_more_call(calls: Seq<ReceiveCall>)
    requires
        calls.len() > 0,
    ensures
        events_received(calls) == events_received(calls.drop_last()) + (if calls.last().outcome()
            is Event {
            1int
        } else {
            0int
        }),
        events_lost(calls) == events_lost(calls.drop_last()) + (match calls.last().outcome() {
            Received::Lagged(n) => n as int,
            _ => 0int,
        }),
{
}

/// A run without its last call is a run.
proof fn lemma_shorter_run(calls: Seq<ReceiveCall>)
    requires
        is_run(calls),
        calls.len() > 1,
    ensures
        is_run(calls.drop_last()),
        calls.last().subscriber == calls.drop_last().last().subscriber_after(),
        calls.last().position() == calls.drop_last().last().position_after(),
        calls.last().is_valid(),
{
    let shorter = calls.drop_last();
    let n = calls.len() - 1;
    assert(calls[n].is_valid());
    assert(calls[n].subscriber == calls[n - 1].subscriber_after());
    assert forall|i: int| 0 <= i < shorter.len() implies (#[trigger] shorter[i]).is_valid() by {
        assert(calls[i].is_valid());
    }
    assert forall|i: int, j: int| 0 <= i && j == i + 1 && j < shorter.len() implies {
        &&& (#[trigger] shorter[j]).subscriber == (#[trigger] shorter[i]).subscriber_after()
        &&& shorter[j].position() == shorter[i].position_after()
    } by {
        assert(calls[j].subscriber == calls[i].subscriber_after());
    }
    assert forall|i: int, j: int| 0 <= i <= j < shorter.len() implies continues(
        (#[trigger] shorter[i]).queue,
        (#[trigger] shorter[j]).queue,
    ) by {
        assert(continues(calls[i].queue, calls[j].queue));
    }
}

/// Over any number of receiving calls, every position that a subscriber passes
/// is either an event that it received or a loss that it was told of, and its
/// counter shows those losses.
pub proof fn every_event_is_received_or_counted(calls: Seq<ReceiveCall>)
    requires
        is_run(calls),
        calls.len() > 0,
    ensures
        calls.last().position_after() == calls.first().position() + events_received(calls)
            + events_lost(calls),
        calls.last().subscriber_after().local_dropped == counted(
            calls.first().subscriber.local_dropped,
            events_lost(calls) as int,
        ),
    decreases calls.len(),
{
    lemma_one_more_call(calls);
    if calls.len() == 1 {
        assert(calls[0].is_valid());
        lemma_call_accounts(calls[0]);
        assert(events_received(calls.drop_last()) == 0);
        assert(events_lost(calls.drop_last()) == 0);
        lemma_counted_twice(calls[0].subscriber.local_dropped, 0, 0);
    } else {
        let shorter = calls.drop_last();
        lemma_shorter_run(calls);
        every_event_is_received_or_counted(shorter);
        lemma_call_accounts(calls.last());
        if let Received::Lagged(n) = calls.last().outcome() {
            lemma_counted_twice(
                calls.first().subscriber.local_dropped,
                events_lost(shorter) as int,
                n as int,
            );
        }
    }
}

/// One call accounts for the positions that it passes.
proof fn lemma_call_accounts(call: ReceiveCall)
    requires
        call.is_valid(),
    ensures
        call.position_after() == call.position() + (match call.outcome() {
            Received::Event(_) => 1int,
            Received::Lagged(n) => n as int,
            _ => 0int,
        }),
        call.subscriber_after().local_dropped == (match call.outcome() {
            Received::Lagged(n) => counted(call.subscriber.local_dropped, n as int),
            _ => call.subscriber.local_dropped,
        }),
{
}

/// Events reach a subscriber in the order in which they were published: of two
/// events received in a run, the earlier one has the smaller position in the
/// stream.
pub proof fn events_arrive_in_order(calls: Seq<ReceiveCall>, i: int, j: int)
    requires
        is_run(calls),
        0 <= i < j < calls.len(),
        calls[i].outcome() is Event,
        calls[j].outcome() is Event,
    ensures
        calls[i].position() < calls[j].position() < calls[j].queue.sent.len(),
        calls[i].outcome() == Received::Event(calls[j].queue.sent[calls[i].position() as int]),
        calls[j].outcome() == Received::Event(calls[j].queue.sent[calls[j].position() as int]),
{
    assert(calls[i].is_valid());
    assert(calls[j].is_valid());
    lemma_call_accounts(calls[i]);
    lemma_position_never_decreases(calls, i + 1, j);
    assert(calls[i + 1].subscriber == calls[i].subscriber_after());
    assert(continues(calls[i].queue, calls[j].queue));
    let p = calls[i].position() as int;
    assert(calls[i].queue.sent[p] == calls[j].queue.sent.take(
        calls[i].queue.sent.len() as int,
    )[p]);
}

proof fn lemma_position_never_decreases(calls: Seq<ReceiveCall>, i: int, j: int)
    requires
        is_run(calls),
        0 <= i <= j < calls.len(),
    ensures
        calls[i].position() <= calls[j].position(),
    decreases j - i,
{
    if i < j {
        lemma_position_never_decreases(calls, i, j - 1);
        assert(calls[j - 1].is_valid());
        lemma_call_accounts(calls[j - 1]);
        assert(calls[j].subscriber == calls[j - 1].subscriber_after());
    }
}

/// Two subscribers of one queue that stand at the same position and both receive
/// an event, at whatever times, receive the same event.
pub proof fn subscribers_see_the_same_stream(first: ReceiveCall, second: ReceiveCall)
    requires
        continues(first.queue, second.queue),
        first.position() == second.position(),
        first.outcome() is Event,
        second.outcome() is Event,
    ensures
        first.outcome() == second.outcome(),
        first.position_after() == second.position_after(),
{
    let p = first.position() as int;
    assert(first.queue.sent[p] == second.queue.sent.take(first.queue.sent.len() as int)[p]);
}

/// A queue keeps exactly as many unread events as its capacity: a subscriber
/// loses events exactly when it has more than that unread, it loses the oldest of
/// them, and the next call gives the first of those that were kept.
pub proof fn losses_are_exactly_the_overflow(queue: QueueState, subscriber: SubscriberState)
    requires
        queue.capacity >= 1,
        position_of(queue, subscriber) is Some,
        unread(queue, subscriber) <= u64::MAX,
    ensures
        receive(queue, subscriber).0 is Lagged <==> unread(queue, subscriber) > queue.capacity,
        receive(queue, subscriber).0 matches Received::Lagged(n) ==> {
            let (_, queue_after, after) = receive(queue, subscriber);
            &&& n == unread(queue, subscriber) - queue.capacity
            &&& unread(queue_after, after) == queue.capacity
            &&& receive(queue_after, after).0 == Received::Event(
                queue.sent[queue.sent.len() - queue.capacity],
            )
        },
{
}

/// A subscriber learns that the stream has ended exactly when the queue is closed
/// and it has seen or lost every event that was published.
pub proof fn the_end_comes_last(queue: QueueState, subscriber: SubscriberState)
    requires
        queue.capacity >= 1,
        position_of(queue, subscriber) is Some,
        unread(queue, subscriber) <= u64::MAX,
    ensures
        receive(queue, subscriber).0 is Closed <==> queue.closed && unread(queue, subscriber) == 0,
        receive_lossy(queue, subscriber).0 is Closed <==> queue.closed && unread(queue, subscriber)
            == 0,
{
}

/// What one subscriber does leaves the others where they are.
pub proof fn receiving_leaves_others_alone(
    queue: QueueState,
    subscriber: SubscriberState,
    other: SubscriberState,
)
    requires
        subscriber.seat != other.seat,
    ensures
        position_of(receive(queue, subscriber).1, other) == position_of(queue, other),
        receive(queue, subscriber).1.sent == queue.sent,
{
}

/// A subscriber that joins receives none of the events that were published
/// before, and every one after until it falls behind: its first unread event is
/// the next one that is published.
pub proof fn new_subscriber_starts_at_the_end(queue: QueueState, seat: usize, event: EventData)
    requires
        seat <= queue.seats.len(),
        queue.capacity >= 1,
    ensures
        ({
            let subscriber = SubscriberState { channel: queue.channel, seat, local_dropped: 0 };
            &&& unread(joined(queue, seat as int), subscriber) == 0
            &&& receive(published(joined(queue, seat as int), event), subscriber).0
                == Received::Event(event)
        }),
{
    let seats = joined(queue, seat as int).seats;
    lemma_taken_at(seats, seat as int);
}

/// A place that is taken counts.
proof fn lemma_taken_at<T>(places: Seq<Option<T>>, i: int)
    requires
        0 <= i < places.len(),
        places[i] is Some,
    ensures
        taken(places) > 0,
    decreases places.len(),
{
    if i < places.len() - 1 {
        lemma_taken_at(places.drop_last(), i);
    }
}

/// A queue with its subscribers, each in a seat of its own.
pub struct TelemetrySystem {
    /// The queue.
    pub queue: QueueState,
    /// Its subscribers.
    pub subscribers: Seq<SubscriberState>,
}

/// What happens in such a system.
pub enum SystemStep {
    /// An event is published.
    Publish(EventData),
    /// A subscriber joins in a seat.
    Subscribe(usize),
    /// A subscriber receives.
    Receive(int),
}

/// The system after a step.
pub open spec fn system_after(system: TelemetrySystem, step: SystemStep) -> TelemetrySystem {
    match step {
        SystemStep::Publish(event) => TelemetrySystem {
            queue: published(system.queue, event),
            ..system
        },
        SystemStep::Subscribe(seat) => TelemetrySystem {
            queue: joined(system.queue, seat as int),
            subscribers: system.subscribers.push(
                SubscriberState { channel: system.queue.channel, seat, local_dropped: 0 },
            ),
        },
        SystemStep::Receive(i) => if 0 <= i < system.subscribers.len() {
            let (_, queue, subscriber) = receive(system.queue, system.subscribers[i]);
            TelemetrySystem { queue, subscribers: system.subscribers.update(i, subscriber) }
        } else {
            system
        },
    }
}

/// The system after some steps.
pub open spec fn system_after_all(
    system: TelemetrySystem,
    steps: Seq<SystemStep>,
) -> TelemetrySystem
    decreases steps.len(),
{
    if steps.len() == 0 {
        system
    } else {
        system_after(system_after_all(system, steps.drop_last()), steps.last())
    }
}

/// The sum of what subscribers lost.
pub open spec fn losses(subscribers: Seq<SubscriberState>) -> nat
    decreases subscribers.len(),
{
    if subscribers.len() == 0 {
        0
    } else {
        losses(subscribers.drop_last()) + subscribers.last().local_dropped as nat
    }
}

/// The number of events that some steps publish.
pub open spec fn publications(steps: Seq<SystemStep>) -> nat
    decreases steps.len(),
{
    if steps.len() == 0 {
        0
    } else {
        publications(steps.drop_last()) + if steps.last() is Publish {
            1nat
        } else {
            0nat
        }
    }
}

/// Changing the count of one subscriber changes the sum by as much.
proof fn lemma_losses_update(subscribers: Seq<SubscriberState>, i: int, s: SubscriberState)
    requires
        0 <= i < subscribers.len(),
    ensures
        losses(subscribers.update(i, s)) == losses(subscribers) - subscribers[i].local_dropped
            + s.local_dropped,
    decreases subscribers.len(),
{
    let n = subscribers.len() - 1;
    let updated = subscribers.update(i, s);
    if i == n {
        assert(updated.drop_last() == subscribers.drop_last());
    } else {
        assert(updated.drop_last() == subscribers.drop_last().update(i, s));
        lemma_losses_update(subscribers.drop_last(), i, s);
    }
}

/// Adding the same to two counts that agree keeps them in agreement.
proof fn lemma_counts_agree(count: u64, sum: nat, local: u64, n: int)
    requires
        count == sum % 0x1_0000_0000_0000_0000,
        0 <= n,
        local <= sum,
    ensures
        counted(count, n) == (sum - local + counted(local, n)) % 0x1_0000_0000_0000_0000,
{
    let range: int = 0x1_0000_0000_0000_0000;
    let wrapped = (local + n) / range;
    vstd::arithmetic::div_mod::lemma_fundamental_div_mod(local + n, range);
    assert(sum - local + counted(local, n) == sum + n - range * wrapped);
    vstd::arithmetic::div_mod::lemma_mod_multiples_vanish(-wrapped, sum + n, range);
    assert(range * (-wrapped) == -(range * wrapped)) by (nonlinear_arith);
    vstd::arithmetic::div_mod::lemma_add_mod_noop(sum as int, n, range);
    vstd::arithmetic::div_mod::lemma_add_mod_noop(sum as int % range, n, range);
    vstd::arithmetic::div_mod::lemma_mod_twice(sum as int, range);
}

/// No subscriber lost more than all of them.
proof fn lemma_losses_bound(subscribers: Seq<SubscriberState>, i: int)
    requires
        0 <= i < subscribers.len(),
    ensures
        subscribers[i].local_dropped <= losses(subscribers),
    decreases subscribers.len(),
{
    if i < subscribers.len() - 1 {
        lemma_losses_bound(subscribers.drop_last(), i);
    }
}

/// How receiving changes the two counts.
proof fn lemma_receive_counts(queue: QueueState, subscriber: SubscriberState) -> (n: int)
    ensures
        n >= 0,
        n == 0 ==> receive(queue, subscriber).1.dropped_events == queue.dropped_events
            && receive(queue, subscriber).2.local_dropped == subscriber.local_dropped,
        n > 0 ==> receive(queue, subscriber).1.dropped_events == counted(queue.dropped_events, n)
            && receive(queue, subscriber).2.local_dropped == counted(subscriber.local_dropped, n),
        receive(queue, subscriber).1.total_published == queue.total_published,
{
    let unread = unread(queue, subscriber);
    if position_of(queue, subscriber) is Some && unread > queue.capacity {
        unread - queue.capacity
    } else {
        0
    }
}

/// One step keeps the queue's count of lost events in agreement with the sum.
proof fn lemma_step_adds_up(before: TelemetrySystem, step: SystemStep)
    requires
        before.queue.dropped_events == losses(before.subscribers) % 0x1_0000_0000_0000_0000,
    ensures
        system_after(before, step).queue.dropped_events == losses(
            system_after(before, step).subscribers,
        ) % 0x1_0000_0000_0000_0000,
        system_after(before, step).queue.total_published == (if step is Publish {
            counted(before.queue.total_published, 1)
        } else {
            before.queue.total_published
        }),
{
    match step {
        SystemStep::Publish(_) => {},
        SystemStep::Subscribe(seat) => {
            let after = system_after(before, step);
            assert(after.subscribers.drop_last() == before.subscribers);
        },
        SystemStep::Receive(i) => {
            if 0 <= i < before.subscribers.len() {
                let s = before.subscribers[i];
                let n = lemma_receive_counts(before.queue, s);
                lemma_losses_update(before.subscribers, i, receive(before.queue, s).2);
                lemma_losses_bound(before.subscribers, i);
                if n > 0 {
                    lemma_counts_agree(
                        before.queue.dropped_events,
                        losses(before.subscribers),
                        s.local_dropped,
                        n,
                    );
                }
            }
        },
    }
}

/// Whatever is published and received, by however many subscribers, the queue's
/// count of lost events is the sum of what its subscribers lost, and its count of
/// published events is their number, as 64-bit counters show them.
pub proof fn counters_add_up(system: TelemetrySystem, steps: Seq<SystemStep>)
    requires
        system.queue.dropped_events == losses(system.subscribers) % 0x1_0000_0000_0000_0000,
    ensures
        ({
            let after = system_after_all(system, steps);
            &&& after.queue.dropped_events == losses(after.subscribers)
                % 0x1_0000_0000_0000_0000
            &&& after.queue.total_published == counted(
                system.queue.total_published,
                publications(steps) as int,
            )
        }),
    decreases steps.len(),
{
    if steps.len() > 0 {
        counters_add_up(system, steps.drop_last());
        let before = system_after_all(system, steps.drop_last());
        lemma_step_adds_up(before, steps.last());
        if steps.last() is Publish {
            lemma_counted_twice(
                system.queue.total_published,
                publications(steps.drop_last()) as int,
                1,
            );
        }
    } else {
        lemma_counted_twice(system.queue.total_published, 0, 0);
    }
}

/// Joining takes a free seat at the end of the stream and leaves every other
/// subscriber where it is, so that what it has to read, and what it will receive
/// next, stay the same. There is one subscriber more, and nothing else changes.
pub proof fn joining_leaves_others_alone(
    queue: &mut TelemetryEventQueue,
    subscriber: TelemetrySubscriber,
    other: SubscriberState,
)
    requires
        call_ensures(TelemetryEventQueue::subscribe, (queue,), subscriber),
        other.seat != subscriber@.seat,
        other.seat < old(queue)@.seats.len(),
    ensures
        final(queue)@.seats.len() >= old(queue)@.seats.len(),
        final(queue)@.seats[other.seat as int] == old(queue)@.seats[other.seat as int],
        unread(final(queue)@, other) == unread(old(queue)@, other),
        receive(final(queue)@, other).0 == receive(old(queue)@, other).0,
{
}

/// A subscriber that joins has a seat that nobody had, its own count of losses is
/// zero, and its first event is the next one. The stream and the counts stay.
pub proof fn joining_starts_at_the_end(
    queue: &mut TelemetryEventQueue,
    subscriber: TelemetrySubscriber,
    seat: int,
)
    requires
        call_ensures(TelemetryEventQueue::subscribe, (queue,), subscriber),
        seat == subscriber@.seat,
    ensures
        seat < old(queue)@.seats.len() ==> old(queue)@.seats[seat] is None,
        seat < final(queue)@.seats.len(),
        final(queue)@.seats[seat] == Some(old(queue)@.sent.len()),
        final(queue)@.seats.len() <= old(queue)@.seats.len() + 1,
        taken(final(queue)@.seats) == taken(old(queue)@.seats) + 1,
        subscriber@.local_dropped == 0,
        subscriber@.channel == old(queue)@.channel,
        final(queue)@.channel == old(queue)@.channel,
        final(queue)@.sent == old(queue)@.sent,
        final(queue)@.capacity == old(queue)@.capacity,
        final(queue)@.dropped_events == old(queue)@.dropped_events,
        final(queue)@.total_published == old(queue)@.total_published,
        final(queue)@.closed == old(queue)@.closed,
{
    let seats = old(queue)@.seats;
    if seat < seats.len() {
        lemma_taken_update(seats, seat, Some(old(queue)@.sent.len()));
    } else {
        assert(final(queue)@.seats.drop_last() == seats);
    }
}

/// Leaving frees the subscriber's own seat and leaves every other subscriber where it
/// is. The stream and the counts stay.
pub proof fn leaving_leaves_others_alone(
    queue: &mut TelemetryEventQueue,
    subscriber: TelemetrySubscriber,
    other: int,
)
    requires
        call_ensures(TelemetryEventQueue::unsubscribe, (queue, subscriber), ()),
        subscriber@.seat < old(queue)@.seats.len(),
    ensures
        final(queue)@.seats.len() == old(queue)@.seats.len(),
        final(queue)@.seats[subscriber@.seat as int] is None,
        0 <= other < old(queue)@.seats.len() && other != subscriber@.seat ==>
            final(queue)@.seats[other] == old(queue)@.seats[other],
        old(queue)@.seats[subscriber@.seat as int] is Some ==> taken(final(queue)@.seats) == taken(
            old(queue)@.seats,
        ) - 1,
        final(queue)@.channel == old(queue)@.channel,
        final(queue)@.sent == old(queue)@.sent,
        final(queue)@.capacity == old(queue)@.capacity,
        final(queue)@.dropped_events == old(queue)@.dropped_events,
        final(queue)@.total_published == old(queue)@.total_published,
        final(queue)@.closed == old(queue)@.closed,
{
    lemma_taken_update(old(queue)@.seats, subscriber@.seat as int, None);
}

/// Publishing counts the event and returns how many subscribers there are. If there
/// is any, the event is the next in the stream, behind all others; no subscriber
/// moves, and nothing is lost by it. A producer publishes as the queue itself does.
pub proof fn publishing_appends_to_the_stream(
    queue: &mut TelemetryEventQueue,
    event: TelemetryEvent,
    reached: usize,
    producer: &TelemetryEventProducer,
    also: &mut TelemetryEventQueue,
    also_reached: usize,
    count: usize,
    seat: int,
)
    requires
        call_ensures(TelemetryEventQueue::publish, (queue, event), reached),
        *also == *queue,
        call_ensures(TelemetryEventProducer::publish, (producer, also, event), also_reached),
        call_ensures(TelemetryEventQueue::subscriber_count, (&*old(queue),), count),
    ensures
        reached == count,
        also_reached == reached,
        final(also)@ == final(queue)@,
        final(queue)@.total_published == (old(queue)@.total_published + 1)
            % 0x1_0000_0000_0000_0000,
        reached == 0 ==> final(queue)@.sent == old(queue)@.sent,
        reached > 0 ==> final(queue)@.sent == old(queue)@.sent.push(event@),
        0 <= seat < old(queue)@.seats.len() && old(queue)@.seats[seat] is Some ==> reached > 0,
        final(queue)@.seats == old(queue)@.seats,
        final(queue)@.channel == old(queue)@.channel,
        final(queue)@.capacity == old(queue)@.capacity,
        final(queue)@.dropped_events == old(queue)@.dropped_events,
        final(queue)@.closed == old(queue)@.closed,
{
    if 0 <= seat < old(queue)@.seats.len() && old(queue)@.seats[seat] is Some {
        lemma_taken_at(old(queue)@.seats, seat);
    }
}

/// Receiving without waiting gives the oldest unread event, as long as no more are
/// unread than the queue keeps, and moves on by one. With more unread, it tells how
/// many are too many and moves past exactly these, which are counted for the queue
/// and for the subscriber. With none unread there is nothing, for good if the queue
/// is closed. No other subscriber is moved, and the stream stays.
pub proof fn receiving_follows_the_stream(
    subscriber: &mut TelemetrySubscriber,
    queue: &mut TelemetryEventQueue,
    r: Result<TelemetryEvent, TelemetryTryRecvError>,
    position: nat,
    other: int,
)
    requires
        call_ensures(TelemetrySubscriber::try_recv, (subscriber, queue), r),
        old(subscriber)@.seat < old(queue)@.seats.len(),
        old(queue)@.seats[old(subscriber)@.seat as int] == Some(position),
        position <= old(queue)@.sent.len(),
        old(queue)@.sent.len() - position <= usize::MAX,
    ensures
        ({
            let seat = old(subscriber)@.seat as int;
            let sent = old(queue)@.sent;
            let unread = sent.len() - position;
            let kept = old(queue)@.capacity;
            let lost = if unread > kept {
                unread - kept
            } else {
                0
            };
            &&& unread == 0 && !old(queue)@.closed ==> r == Err::<TelemetryEvent, _>(
                TelemetryTryRecvError::Empty,
            )
            &&& unread == 0 && old(queue)@.closed ==> r == Err::<TelemetryEvent, _>(
                TelemetryTryRecvError::Closed,
            )
            &&& 0 < unread <= kept ==> (r matches Ok(event) && event@ == sent[position as int])
            &&& unread > kept ==> (r matches Err(TelemetryTryRecvError::Lagged(n)) && n == lost)
            &&& final(queue)@.seats[seat] == Some(
                if unread == 0 {
                    position
                } else if unread <= kept {
                    position + 1
                } else {
                    (position + lost) as nat
                },
            )
            &&& final(queue)@.dropped_events == (old(queue)@.dropped_events + lost)
                % 0x1_0000_0000_0000_0000
            &&& final(subscriber)@.local_dropped == (old(subscriber)@.local_dropped + lost)
                % 0x1_0000_0000_0000_0000
        }),
        final(queue)@.seats.len() == old(queue)@.seats.len(),
        0 <= other < old(queue)@.seats.len() && other != old(subscriber)@.seat ==>
            final(queue)@.seats[other] == old(queue)@.seats[other],
        final(queue)@.sent == old(queue)@.sent,
        final(queue)@.channel == old(queue)@.channel,
        final(queue)@.capacity == old(queue)@.capacity,
        final(queue)@.total_published == old(queue)@.total_published,
        final(queue)@.closed == old(queue)@.closed,
        final(subscriber)@.seat == old(subscriber)@.seat,
        final(subscriber)@.channel == old(subscriber)@.channel,
{
}

/// Receiving for a caller that waits comes to the same as receiving without waiting,
/// but asks to wait where there is nothing yet.
pub proof fn waiting_receives_the_same(
    subscriber: &mut TelemetrySubscriber,
    queue: &mut TelemetryEventQueue,
    r: Result<TelemetryEvent, TelemetryTryRecvError>,
    waiting: &mut TelemetrySubscriber,
    there: &mut TelemetryEventQueue,
    w: Option<Result<TelemetryEvent, TelemetryRecvError>>,
)
    requires
        call_ensures(TelemetrySubscriber::try_recv, (subscriber, queue), r),
        call_ensures(TelemetrySubscriber::recv, (waiting, there), w),
        *waiting == *subscriber,
        *there == *queue,
        unread(old(queue)@, old(subscriber)@) <= usize::MAX,
    ensures
        final(there)@ == final(queue)@,
        final(waiting)@ == final(subscriber)@,
        match r {
            Ok(event) => w matches Some(Ok(same)) && same@ == event@,
            Err(TelemetryTryRecvError::Empty) => w is None,
            Err(TelemetryTryRecvError::Closed) => w matches Some(Err(TelemetryRecvError::Closed)),
            Err(TelemetryTryRecvError::Lagged(n)) => w matches Some(
                Err(TelemetryRecvError::Lagged(m)),
            ) && m == n,
        },
{
    assert(waited_for(w) == received(r));
}

/// Lossy receiving gives the oldest event that the queue still keeps for the
/// subscriber and moves behind it; what was lost before it is counted.
pub proof fn lossy_receiving_gives_what_is_kept(
    subscriber: &mut TelemetrySubscriber,
    queue: &mut TelemetryEventQueue,
    w: Option<Result<TelemetryEvent, TelemetryRecvError>>,
    position: nat,
    other: int,
)
    requires
        call_ensures(TelemetrySubscriber::recv_lossy, (subscriber, queue), w),
        old(queue)@.capacity >= 1,
        old(subscriber)@.seat < old(queue)@.seats.len(),
        old(queue)@.seats[old(subscriber)@.seat as int] == Some(position),
        position <= old(queue)@.sent.len(),
        old(queue)@.sent.len() - position <= usize::MAX,
    ensures
        ({
            let seat = old(subscriber)@.seat as int;
            let sent = old(queue)@.sent;
            let unread = sent.len() - position;
            let lost = if unread > old(queue)@.capacity {
                unread - old(queue)@.capacity
            } else {
                0
            };
            &&& unread == 0 && !old(queue)@.closed ==> w is None
            &&& unread == 0 && old(queue)@.closed ==> (w matches Some(
                Err(TelemetryRecvError::Closed),
            ))
            &&& unread > 0 ==> (w matches Some(Ok(event)) && event@ == sent[position + lost])
            &&& unread > 0 ==> final(queue)@.seats[seat] == Some((position + lost + 1) as nat)
            &&& unread == 0 ==> final(queue)@.seats[seat] == Some(position)
            &&& final(queue)@.dropped_events == (old(queue)@.dropped_events + lost)
                % 0x1_0000_0000_0000_0000
            &&& final(subscriber)@.local_dropped == (old(subscriber)@.local_dropped + lost)
                % 0x1_0000_0000_0000_0000
        }),
        final(queue)@.seats.len() == old(queue)@.seats.len(),
        0 <= other < old(queue)@.seats.len() && other != old(subscriber)@.seat ==>
            final(queue)@.seats[other] == old(queue)@.seats[other],
        final(queue)@.sent == old(queue)@.sent,
        final(queue)@.channel == old(queue)@.channel,
        final(queue)@.capacity == old(queue)@.capacity,
        final(queue)@.total_published == old(queue)@.total_published,
        final(queue)@.closed == old(queue)@.closed,
        final(subscriber)@.seat == old(subscriber)@.seat,
        final(subscriber)@.channel == old(subscriber)@.channel,
{
}

/// A new queue keeps as many unread events as it was asked to, or 1024 if it was
/// asked for none; nothing was published and nobody listens. Closing it changes
/// nothing else.
pub proof fn new_queues_are_empty(
    capacity: usize,
    queue: TelemetryEventQueue,
    usual: TelemetryEventQueue,
    kept: usize,
    listening: usize,
    closes: &mut TelemetryEventQueue,
)
    requires
        call_ensures(TelemetryEventQueue::new, (capacity,), queue),
        call_ensures(<TelemetryEventQueue as Default>::default, (), usual),
        call_ensures(TelemetryEventQueue::capacity, (&queue,), kept),
        call_ensures(TelemetryEventQueue::subscriber_count, (&queue,), listening),
        call_ensures(TelemetryEventQueue::close, (closes,), ()),
    ensures
        kept == if capacity == 0 {
            1024
        } else {
            capacity
        },
        queue@.capacity == kept,
        usual@.capacity == 1024,
        listening == 0,
        queue@.sent.len() == 0,
        queue@.dropped_events == 0,
        queue@.total_published == 0,
        !queue@.closed,
        final(closes)@.closed,
        final(closes)@ == (QueueState { closed: true, ..old(closes)@ }),
{
}

/// A tag comes behind those that an event has; everything else of it stays. A clone
/// of an event has the same identifier, name, payload, time and tags.
pub proof fn events_keep_what_they_say(
    event: TelemetryEvent,
    key: &str,
    value: &str,
    tagged: TelemetryEvent,
    copy: TelemetryEvent,
    i: int,
)
    requires
        call_ensures(TelemetryEvent::with_tag, (event, key, value), tagged),
        call_ensures(<TelemetryEvent as Clone>::clone, (&event,), copy),
    ensures
        tagged.id@ == event.id@ && tagged.name@ == event.name@,
        tagged.payload == event.payload && tagged.timestamp == event.timestamp,
        tagged.tags@.len() == event.tags@.len() + 1,
        0 <= i < event.tags@.len() ==> tagged.tags@[i].0@ == event.tags@[i].0@ && tagged.tags@[i].1@
            == event.tags@[i].1@,
        tagged.tags@[event.tags@.len() as int].0@ == key@,
        tagged.tags@[event.tags@.len() as int].1@ == value@,
        copy.id@ == event.id@ && copy.name@ == event.name@,
        copy.payload == event.payload && copy.timestamp == event.timestamp,
        copy.tags@.len() == event.tags@.len(),
        0 <= i < event.tags@.len() ==> copy.tags@[i].0@ == event.tags@[i].0@ && copy.tags@[i].1@
            == event.tags@[i].1@,
{
    let n = event.tags@.len() as int;
    assert(tagged@.tags.len() == tagged.tags@.len());
    assert(event@.tags.len() == n);
    assert(copy@.tags.len() == copy.tags@.len());
    assert(tagged@.tags[n] == (key@, value@));
    if 0 <= i < n {
        assert(tagged@.tags[i] == event@.tags[i]);
        assert(copy@.tags[i] == event@.tags[i]);
    }
}

/// A new event has the name and the payload that it was given, and no tags.
pub proof fn new_events_are_as_given(name: &str, payload: serde_json::Value, event: TelemetryEvent)
    requires
        call_ensures(TelemetryEvent::new, (name, payload), event),
    ensures
        event.name@ == name@,
        event.payload == payload,
        event.tags@.len() == 0,
        event.id@.len() == 36,
        event.timestamp.subsec_nanos < 1_000_000_000,
{
    assert(event@.tags.len() == event.tags@.len());
}

/// A lag is told in words with the number of lost events in decimal digits.
pub proof fn lags_are_told_in_numbers(n: u64, r: String, t: String)
    requires
        call_ensures(TelemetryRecvError::to_string, (&TelemetryRecvError::Lagged(n),), r),
        call_ensures(TelemetryTryRecvError::to_string, (&TelemetryTryRecvError::Lagged(n),), t),
    ensures
        r@ == "subscriber lagged behind and dropped "@ + crate::text::decimal(n as nat)
            + " events"@,
        t@ == r@,
{
}

/// Two events that say the same have the same identifier, name, payload, time and
/// tags.
pub proof fn events_say_everything(a: TelemetryEvent, b: TelemetryEvent, i: int)
    requires
        a@ == b@,
    ensures
        a.id@ == b.id@,
        a.name@ == b.name@,
        a.payload == b.payload,
        a.timestamp == b.timestamp,
        a.tags@.len() == b.tags@.len(),
        0 <= i < a.tags@.len() ==> a.tags@[i].0@ == b.tags@[i].0@ && a.tags@[i].1@
            == b.tags@[i].1@,
{
    assert(a@.tags.len() == a.tags@.len());
    assert(b@.tags.len() == b.tags@.len());
    if 0 <= i < a.tags@.len() {
        assert(a@.tags[i] == b@.tags[i]);
    }
}

/// What is published to a queue is what its subscribers receive: a subscriber that had
/// read everything receives the event that is published next, with everything that it
/// says, and nothing after it.
pub proof fn published_events_are_received(
    queue: &mut TelemetryEventQueue,
    event: TelemetryEvent,
    reached: usize,
    subscriber: &mut TelemetrySubscriber,
    there: &mut TelemetryEventQueue,
    r: Result<TelemetryEvent, TelemetryTryRecvError>,
)
    requires
        call_ensures(TelemetryEventQueue::publish, (queue, event), reached),
        *there == *final(queue),
        call_ensures(TelemetrySubscriber::try_recv, (subscriber, there), r),
        old(queue)@.capacity >= 1,
        old(subscriber)@.seat < old(queue)@.seats.len(),
        old(queue)@.seats[old(subscriber)@.seat as int] == Some(old(queue)@.sent.len()),
    ensures
        r matches Ok(got) && got.id@ == event.id@ && got.name@ == event.name@ && got.payload
            == event.payload && got.timestamp == event.timestamp && got.tags@.len()
            == event.tags@.len(),
        unread(final(there)@, final(subscriber)@) == 0,
{
    lemma_taken_at(old(queue)@.seats, old(subscriber)@.seat as int);
    if let Ok(got) = r {
        events_say_everything(got, event, 0);
    }
}

/// The counts that a queue, a producer and a subscriber tell are those that they keep,
/// and a producer publishes to the queue that it comes from.
pub proof fn counts_are_told(
    queue: &TelemetryEventQueue,
    published: u64,
    dropped: u64,
    producer: TelemetryEventProducer,
    other: TelemetryEventProducer,
    produced: u64,
    subscriber: &TelemetrySubscriber,
    lost: u64,
    sent: Option<usize>,
    reached: usize,
)
    requires
        call_ensures(TelemetryEventQueue::total_published, (queue,), published),
        call_ensures(TelemetryEventQueue::dropped_events_count, (queue,), dropped),
        call_ensures(TelemetryEventQueue::producer, (queue,), producer),
        call_ensures(<TelemetryEventProducer as Clone>::clone, (&producer,), other),
        call_ensures(TelemetryEventProducer::total_published, (&other, queue), produced),
        call_ensures(TelemetrySubscriber::local_dropped_count, (subscriber,), lost),
        call_ensures(subscribers_reached, (sent,), reached),
    ensures
        published == queue@.total_published,
        dropped == queue@.dropped_events,
        producer.channel() == queue@.channel,
        other.channel() == queue@.channel,
        produced == published,
        lost == subscriber@.local_dropped,
        sent matches Some(n) ==> reached == n,
        sent is None ==> reached == 0,
{
}

/// A task of normal priority waits for its permit and is never counted as dropped; one
/// of low priority takes a permit at once or goes without, and is counted then.
pub proof fn priority_decides(
    priority: TaskPriority,
    mode: PermitMode,
    permitted: bool,
    counts: bool,
)
    requires
        call_ensures(permit_mode, (priority,), mode),
        call_ensures(counts_as_dropped, (priority, permitted), counts),
    ensures
        priority == TaskPriority::Normal ==> mode == PermitMode::Wait && !counts,
        priority == TaskPriority::Low ==> mode == PermitMode::TryNow && counts == !permitted,
{
}

} // verus!
