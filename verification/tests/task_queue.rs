use serde_json::Value;
use soroscope_core::task_queue::{
    counts_as_dropped, permit_mode, subscribers_reached, BoundedTaskDispatcher, DispatchOutcome,
    PermitMode, TaskPriority, TelemetryEvent, TelemetryEventQueue, TelemetryRecvError,
    TelemetrySubscriber, TelemetryTryRecvError, DEFAULT_TELEMETRY_CAPACITY,
};
use std::future::Future;
use std::sync::{Arc, Mutex};
use std::time::Duration;
use tokio::sync::Notify;

fn block_on<F: Future>(future: F) -> F::Output {
    tokio::runtime::Builder::new_current_thread().enable_all().build().unwrap().block_on(future)
}

fn json(text: &str) -> Value {
    serde_json::from_str(text).unwrap()
}

type Shared<T> = Arc<Mutex<T>>;

fn shared<T>(value: T) -> Shared<T> {
    Arc::new(Mutex::new(value))
}

async fn dispatch<F>(
    dispatcher: &Shared<BoundedTaskDispatcher>,
    priority: TaskPriority,
    task: F,
) -> DispatchOutcome
where
    F: Future<Output = ()> + Send + 'static,
{
    let permit = match permit_mode(priority) {
        PermitMode::Wait => {
            let semaphore = dispatcher.lock().unwrap().semaphore();
            semaphore.acquire_owned().await.ok()
        }
        PermitMode::TryNow => dispatcher.lock().unwrap().try_permit(),
    };
    let (outcome, permit) = dispatcher.lock().unwrap().dispatch(priority, permit);
    if let Some(permit) = permit {
        tokio::spawn(async move {
            task.await;
            drop(permit);
        });
    }
    outcome
}

/// Receives an event that is there.
fn recv(
    subscriber: &mut TelemetrySubscriber,
    queue: &mut TelemetryEventQueue,
) -> Result<TelemetryEvent, TelemetryRecvError> {
    subscriber.recv(queue).expect("nothing to receive")
}

#[test]
fn low_priority_tasks_are_dropped_once_saturated() {
    block_on(async {
        let dispatcher = shared(BoundedTaskDispatcher::new(1));
        let (started_tx, started_rx) = tokio::sync::oneshot::channel();
        let (release_tx, release_rx) = tokio::sync::oneshot::channel::<()>();

        let outcome = dispatch(&dispatcher, TaskPriority::Low, async move {
            let _ = started_tx.send(());
            let _ = release_rx.await;
        })
        .await;
        assert_eq!(outcome, DispatchOutcome::Spawned);

        started_rx.await.expect("first task must start and acquire permit");

        let evicted = dispatch(&dispatcher, TaskPriority::Low, async {
            unreachable!("dropped tasks must never run");
        })
        .await;
        assert_eq!(evicted, DispatchOutcome::Dropped);
        assert_eq!(dispatcher.lock().unwrap().dropped_count(), 1);

        let _ = release_tx.send(());
    });
}

#[test]
fn normal_priority_tasks_wait_for_a_free_slot_instead_of_dropping() {
    block_on(async {
        let dispatcher = shared(BoundedTaskDispatcher::new(1));
        let (first_started_tx, first_started_rx) = tokio::sync::oneshot::channel();
        let (first_release_tx, first_release_rx) = tokio::sync::oneshot::channel::<()>();
        let (second_completed_tx, second_completed_rx) = tokio::sync::oneshot::channel();

        let outcome_1 = dispatch(&dispatcher, TaskPriority::Low, async move {
            let _ = first_started_tx.send(());
            let _ = first_release_rx.await;
        })
        .await;
        assert_eq!(outcome_1, DispatchOutcome::Spawned);

        first_started_rx.await.expect("first task must start and acquire permit");

        let second_task = dispatch(&dispatcher, TaskPriority::Normal, async move {
            let _ = second_completed_tx.send(());
        });

        let _ = first_release_tx.send(());

        let outcome_2 = tokio::time::timeout(Duration::from_secs(5), second_task)
            .await
            .expect("normal-priority dispatch should not hang indefinitely");
        assert_eq!(outcome_2, DispatchOutcome::Spawned);

        second_completed_rx.await.expect("second task must complete after permit is released");
        assert_eq!(dispatcher.lock().unwrap().dropped_count(), 0);
    });
}

#[test]
fn capacity_and_dropped_count_are_reported() {
    let dispatcher = BoundedTaskDispatcher::new(4);
    assert_eq!(dispatcher.capacity(), 4);
    assert_eq!(dispatcher.dropped_count(), 0);
}

#[test]
fn dispatcher_admits_exactly_its_capacity() {
    let dispatcher = BoundedTaskDispatcher::new(3);
    let mut permits = Vec::new();
    for _ in 0..3 {
        permits.push(dispatcher.try_permit().expect("a free slot"));
    }
    assert!(Arc::ptr_eq(permits[0].semaphore(), &dispatcher.semaphore()));
    assert!(dispatcher.try_permit().is_none());
    permits.pop();
    assert!(dispatcher.try_permit().is_some());
    assert_eq!(dispatcher.semaphore().available_permits(), 1);
}

#[test]
fn slots_come_back_to_those_who_wait() {
    block_on(async {
        let dispatcher = shared(BoundedTaskDispatcher::new(2));
        let mut releases = Vec::new();
        for _ in 0..2 {
            let (release_tx, release_rx) = tokio::sync::oneshot::channel::<()>();
            let outcome = dispatch(&dispatcher, TaskPriority::Low, async move {
                let _ = release_rx.await;
            })
            .await;
            assert_eq!(outcome, DispatchOutcome::Spawned);
            releases.push(release_tx);
        }
        assert_eq!(dispatcher.lock().unwrap().semaphore().available_permits(), 0);

        let (waiting_tx, waiting_rx) = tokio::sync::oneshot::channel();
        let waiter = dispatcher.clone();
        let normal = tokio::spawn(async move {
            let _ = waiting_tx.send(());
            dispatch(&waiter, TaskPriority::Normal, async {}).await
        });
        waiting_rx.await.unwrap();
        tokio::task::yield_now().await;
        assert_eq!(
            dispatch(&dispatcher, TaskPriority::Low, async {}).await,
            DispatchOutcome::Dropped
        );

        drop(releases);
        assert_eq!(normal.await.unwrap(), DispatchOutcome::Spawned);
        let all = dispatcher.lock().unwrap().semaphore();
        drop(all.acquire_many(2).await.unwrap());
        assert_eq!(all.available_permits(), 2);
        assert_eq!(dispatcher.lock().unwrap().dropped_count(), 1);
    });
}

#[test]
fn panicking_tasks_give_their_slot_back() {
    block_on(async {
        let dispatcher = shared(BoundedTaskDispatcher::new(1));
        let outcome = dispatch(&dispatcher, TaskPriority::Low, async {
            panic!("a task that fails");
        })
        .await;
        assert_eq!(outcome, DispatchOutcome::Spawned);
        let outcome = dispatch(&dispatcher, TaskPriority::Normal, async {}).await;
        assert_eq!(outcome, DispatchOutcome::Spawned);
        assert_eq!(dispatcher.lock().unwrap().dropped_count(), 0);
    });
}

#[test]
fn zero_capacity_admits_nothing() {
    let mut dispatcher = BoundedTaskDispatcher::new(0);
    let permit = dispatcher.try_permit();
    let (outcome, permit) = dispatcher.dispatch(TaskPriority::Low, permit);
    assert_eq!(outcome, DispatchOutcome::Dropped);
    assert!(permit.is_none());
    assert_eq!(dispatcher.dropped_count(), 1);
}

#[test]
fn only_saturation_counts_as_a_drop() {
    assert_eq!(permit_mode(TaskPriority::Normal), PermitMode::Wait);
    assert_eq!(permit_mode(TaskPriority::Low), PermitMode::TryNow);
    assert!(counts_as_dropped(TaskPriority::Low, false));
    assert!(!counts_as_dropped(TaskPriority::Low, true));
    assert!(!counts_as_dropped(TaskPriority::Normal, false));

    let mut dispatcher = BoundedTaskDispatcher::new(1);
    dispatcher.semaphore().close();
    let permit = block_on(dispatcher.semaphore().acquire_owned()).ok();
    let (outcome, _) = dispatcher.dispatch(TaskPriority::Normal, permit);
    assert_eq!(outcome, DispatchOutcome::Dropped);
    assert_eq!(dispatcher.dropped_count(), 0);
}

#[test]
fn telemetry_event_creation_and_tags() {
    let event = TelemetryEvent::new("job.progress", json(r#"{"percent": 50}"#))
        .with_tag("job_id", "123")
        .with_tag("mode", "simulate");

    assert_eq!(event.name, "job.progress");
    assert_eq!(event.payload["percent"], 50);
    assert_eq!(event.tags.len(), 2);
    assert_eq!(event.tags[0], ("job_id".to_string(), "123".to_string()));
    assert_eq!(event.tags[1], ("mode".to_string(), "simulate".to_string()));
    assert!(!event.id.is_empty());
}

#[test]
fn cloned_event_is_equal() {
    let event = TelemetryEvent::new("a", json(r#"{"n": [1, null, "x"]}"#)).with_tag("k", "v");
    let copy = event.clone();
    assert_eq!(copy, event);
    assert!(event.timestamp.unix_seconds > 1_500_000_000);
    assert!(event.timestamp.subsec_nanos < 1_000_000_000);
    assert_ne!(TelemetryEvent::new("a", Value::Null).id, event.id);
}

#[test]
fn telemetry_broadcast_multi_consumer() {
    let mut queue = TelemetryEventQueue::new(32);
    assert_eq!(queue.subscriber_count(), 0);

    let mut sub1 = queue.subscribe();
    let mut sub2 = queue.subscribe();
    assert_eq!(queue.subscriber_count(), 2);

    let event = TelemetryEvent::new("metric.cpu", json(r#"{"usage": 42.5}"#));
    let receivers = queue.publish(event.clone());
    assert_eq!(receivers, 2);
    assert_eq!(queue.total_published(), 1);

    let received1 = recv(&mut sub1, &mut queue).expect("sub1 must receive event");
    let received2 = recv(&mut sub2, &mut queue).expect("sub2 must receive event");

    assert_eq!(received1.name, "metric.cpu");
    assert_eq!(received2.name, "metric.cpu");
    assert_eq!(received1.payload, received2.payload);
    assert_eq!(received1, event);
}

#[test]
fn telemetry_multi_producer_broadcast() {
    let mut queue = TelemetryEventQueue::new(64);
    let mut subscriber = queue.subscribe();

    let prod1 = queue.producer();
    let prod2 = queue.producer();

    prod1.publish(&mut queue, TelemetryEvent::new("event.from_p1", json(r#"{"sender": 1}"#)));
    prod2.publish(&mut queue, TelemetryEvent::new("event.from_p2", json(r#"{"sender": 2}"#)));
    assert_eq!(prod1.total_published(&queue), 2);
    assert_eq!(prod2.clone().total_published(&queue), 2);

    let e1 = recv(&mut subscriber, &mut queue).expect("must receive event 1");
    let e2 = recv(&mut subscriber, &mut queue).expect("must receive event 2");

    assert_eq!(e1.name, "event.from_p1");
    assert_eq!(e2.name, "event.from_p2");
    assert_eq!(queue.total_published(), 2);
}

#[test]
fn telemetry_zero_subscribers_does_not_fail() {
    let mut queue = TelemetryEventQueue::new(16);
    let receivers = queue.publish(TelemetryEvent::new("lonely.event", json("{}")));
    assert_eq!(receivers, 0);
    assert_eq!(queue.total_published(), 1);
    assert_eq!(queue.dropped_events_count(), 0);
    let mut late = queue.subscribe();
    assert_eq!(late.try_recv(&mut queue).err(), Some(TelemetryTryRecvError::Empty));
    assert_eq!(subscribers_reached(None), 0);
    assert_eq!(subscribers_reached(Some(3)), 3);
}

#[test]
fn slow_subscribers_drop_events_without_blocking_queue() {
    let capacity = 4;
    let mut queue = TelemetryEventQueue::new(capacity);

    let mut slow_sub = queue.subscribe();
    let mut fast_sub = queue.subscribe();

    for i in 0..12 {
        queue.publish(TelemetryEvent::new("stream", json(&format!("{{\"seq\": {i}}}"))));
        let fast_ev = recv(&mut fast_sub, &mut queue).expect("fast sub must receive immediately");
        assert_eq!(fast_ev.payload["seq"], i);
    }

    assert_eq!(fast_sub.local_dropped_count(), 0);

    let slow_res = recv(&mut slow_sub, &mut queue);
    assert!(matches!(slow_res, Err(TelemetryRecvError::Lagged(_))));
    assert!(slow_sub.local_dropped_count() > 0);
    assert!(queue.dropped_events_count() > 0);
    assert_eq!(slow_res.err(), Some(TelemetryRecvError::Lagged(8)));
    assert_eq!(slow_sub.local_dropped_count(), 8);
    assert_eq!(queue.dropped_events_count(), 8);

    let next_ev = recv(&mut slow_sub, &mut queue).expect("must receive latest event");
    assert!(next_ev.payload["seq"].as_i64().unwrap() >= 8);
    assert_eq!(next_ev.payload["seq"], 8);
}

#[test]
fn high_throughput_zero_deadlock() {
    let runtime = tokio::runtime::Builder::new_multi_thread().enable_all().build().unwrap();
    runtime.block_on(async {
        let queue = shared(TelemetryEventQueue::new(128));
        let news = Arc::new(Notify::new());
        let num_producers = 8;
        let events_per_producer = 500;
        let num_subscribers = 4;

        let mut subscriber_tasks = Vec::new();
        for _ in 0..num_subscribers {
            let queue = queue.clone();
            let news = news.clone();
            let mut sub = queue.lock().unwrap().subscribe();
            let handle = tokio::spawn(async move {
                let mut count = 0;
                while count < events_per_producer {
                    let waiting = news.notified();
                    let outcome = sub.recv_lossy(&mut queue.lock().unwrap());
                    match outcome {
                        Some(Ok(_)) => count += 1,
                        Some(Err(_)) => break,
                        None => waiting.await,
                    }
                }
                count
            });
            subscriber_tasks.push(handle);
        }

        let mut producer_tasks = Vec::new();
        for p in 0..num_producers {
            let queue = queue.clone();
            let news = news.clone();
            let producer = queue.lock().unwrap().producer();
            let handle = tokio::spawn(async move {
                for i in 0..events_per_producer {
                    let event = TelemetryEvent::new(
                        "load.test",
                        json(&format!("{{\"producer\": {p}, \"i\": {i}}}")),
                    );
                    producer.publish(&mut queue.lock().unwrap(), event);
                    news.notify_waiters();
                    if i % 50 == 0 {
                        tokio::task::yield_now().await;
                    }
                }
            });
            producer_tasks.push(handle);
        }

        for p_handle in producer_tasks {
            tokio::time::timeout(Duration::from_secs(10), p_handle)
                .await
                .expect("producer timeout: deadlock detected")
                .expect("producer panic");
        }

        assert_eq!(
            queue.lock().unwrap().total_published(),
            (num_producers * events_per_producer) as u64
        );

        for s_handle in subscriber_tasks {
            let _ = tokio::time::timeout(Duration::from_secs(1), s_handle).await;
        }
    });
}

#[test]
fn receiving_without_waiting_accounts_for_every_event() {
    let mut queue = TelemetryEventQueue::new(4);
    let mut subscriber = queue.subscribe();
    assert_eq!(subscriber.try_recv(&mut queue).err(), Some(TelemetryTryRecvError::Empty));
    for i in 0..11 {
        queue.publish(TelemetryEvent::new("n", Value::from(i)));
    }
    assert_eq!(subscriber.try_recv(&mut queue).err(), Some(TelemetryTryRecvError::Lagged(7)));
    for i in 7..11 {
        assert_eq!(subscriber.try_recv(&mut queue).unwrap().payload, i);
    }
    assert_eq!(subscriber.try_recv(&mut queue).err(), Some(TelemetryTryRecvError::Empty));
    assert_eq!(subscriber.local_dropped_count(), 7);
}

#[test]
fn closed_queue_is_drained_first() {
    let mut queue = TelemetryEventQueue::new(4);
    let mut subscriber = queue.subscribe();
    queue.publish(TelemetryEvent::new("n", Value::from(1)));
    queue.close();
    assert_eq!(subscriber.recv(&mut queue).unwrap().unwrap().payload, 1);
    assert_eq!(subscriber.try_recv(&mut queue).err(), Some(TelemetryTryRecvError::Closed));
    assert_eq!(subscriber.recv(&mut queue).unwrap().err(), Some(TelemetryRecvError::Closed));
    assert_eq!(subscriber.recv_lossy(&mut queue).unwrap().err(), Some(TelemetryRecvError::Closed));
}

#[test]
fn exactly_the_capacity_is_kept() {
    let mut queue = TelemetryEventQueue::new(3);
    assert_eq!(queue.capacity(), 3);
    let mut subscriber = queue.subscribe();
    for i in 0..3 {
        queue.publish(TelemetryEvent::new("n", Value::from(i)));
    }
    assert_eq!(subscriber.try_recv(&mut queue).unwrap().payload, 0);
    for i in 3..5 {
        queue.publish(TelemetryEvent::new("n", Value::from(i)));
    }
    // Four events are unread now, one more than the queue keeps.
    assert_eq!(subscriber.try_recv(&mut queue).err(), Some(TelemetryTryRecvError::Lagged(1)));
    assert_eq!(subscriber.try_recv(&mut queue).unwrap().payload, 2);

    let mut other = TelemetryEventQueue::new(5);
    let mut slow = other.subscribe();
    for i in 0..20 {
        other.publish(TelemetryEvent::new("n", Value::from(i)));
    }
    assert_eq!(slow.try_recv(&mut other).err(), Some(TelemetryTryRecvError::Lagged(15)));
    assert_eq!(slow.try_recv(&mut other).unwrap().payload, 15);
    assert_eq!(other.dropped_events_count(), 15);
}

#[test]
fn subscribers_share_the_stream_and_the_drop_counter() {
    let mut queue = TelemetryEventQueue::new(2);
    let mut a = queue.subscribe();
    let mut b = queue.subscribe();
    for i in 0..4 {
        queue.producer().publish(&mut queue, TelemetryEvent::new("n", Value::from(i)));
    }
    assert_eq!(a.try_recv(&mut queue).err(), Some(TelemetryTryRecvError::Lagged(2)));
    assert_eq!(b.try_recv(&mut queue).err(), Some(TelemetryTryRecvError::Lagged(2)));
    assert_eq!(a.try_recv(&mut queue).unwrap(), b.try_recv(&mut queue).unwrap());
    assert_eq!(a.local_dropped_count(), 2);
    assert_eq!(queue.dropped_events_count(), 4);
}

#[test]
fn seats_are_freed_and_taken_again() {
    let mut queue = TelemetryEventQueue::new(2);
    let a = queue.subscribe();
    let mut b = queue.subscribe();
    queue.unsubscribe(a);
    assert_eq!(queue.subscriber_count(), 1);
    assert_eq!(queue.publish(TelemetryEvent::new("n", Value::from(7))), 1);
    let mut c = queue.subscribe();
    assert_eq!(queue.subscriber_count(), 2);
    assert_eq!(c.try_recv(&mut queue).err(), Some(TelemetryTryRecvError::Empty));
    assert_eq!(b.try_recv(&mut queue).unwrap().payload, 7);
    queue.unsubscribe(b);
    queue.unsubscribe(c);
    assert_eq!(queue.subscriber_count(), 0);
    assert_eq!(queue.publish(TelemetryEvent::new("n", Value::Null)), 0);
}

#[test]
fn lossy_receiving_passes_over_a_lag() {
    let mut queue = TelemetryEventQueue::new(1);
    let mut subscriber = queue.subscribe();
    for i in 0..3 {
        queue.publish(TelemetryEvent::new("n", Value::from(i)));
    }
    assert_eq!(subscriber.recv_lossy(&mut queue).unwrap().unwrap().payload, 2);
    assert_eq!(subscriber.local_dropped_count(), 2);
    assert_eq!(queue.dropped_events_count(), 2);
    assert!(subscriber.recv_lossy(&mut queue).is_none());
    assert!(subscriber.recv(&mut queue).is_none());
}

#[test]
fn zero_capacity_means_the_default() {
    assert_eq!(TelemetryEventQueue::new(0).capacity(), DEFAULT_TELEMETRY_CAPACITY);
    assert_eq!(TelemetryEventQueue::default().capacity(), 1024);
}

#[test]
fn receive_errors_in_words() {
    assert_eq!(TelemetryRecvError::Closed.to_string(), "telemetry broadcast channel closed");
    assert_eq!(
        TelemetryRecvError::Lagged(12).to_string(),
        "subscriber lagged behind and dropped 12 events"
    );
    assert_eq!(TelemetryTryRecvError::Empty.to_string(), "no telemetry event available");
    assert_eq!(TelemetryTryRecvError::Closed.to_string(), "telemetry broadcast channel closed");
    assert_eq!(
        TelemetryTryRecvError::Lagged(u64::MAX).to_string(),
        "subscriber lagged behind and dropped 18446744073709551615 events"
    );
}
