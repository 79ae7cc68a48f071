//! The verified core of a contract simulation server: structured logging,
//! inbound webhook authentication, leader election, background task admission,
//! live telemetry, contract event streaming and metrics.

use std::sync::Arc;
use vstd::prelude::*;

pub mod clock;
pub mod descriptor;
pub mod grpc;
pub mod json;
pub mod leader_lock;
pub mod logging;
pub mod metrics;
pub mod pem;
pub mod task_queue;
pub mod text;
pub mod tokens;
pub mod webhook_validation;
pub mod webhooks;
pub mod ws;

pub use logging::{build_env_filter, LogFormat};
pub use metrics::AppMetrics;
pub use task_queue::{TelemetryEvent, TelemetryEventQueue, TelemetrySubscriber};

verus! {

/// What the request handlers share: the job queue and the simulation bus.
pub struct AppState<Q, B> {
    /// The queue of simulation jobs.
    pub job_queue: Arc<Q>,
    /// The bus that simulation events are announced on.
    pub simulation_bus: Arc<B>,
}

impl<Q, B> Clone for AppState<Q, B> {
    /// Another handle to the same queue and the same bus.
    fn clone(&self) -> (r: AppState<Q, B>)
        ensures
            r == *self,
    {
        AppState { job_queue: self.job_queue.clone(), simulation_bus: self.simulation_bus.clone() }
    }
}

/// A clone shares the queue and the bus.
pub proof fn clones_share_queue_and_bus<Q, B>(state: AppState<Q, B>, other: AppState<Q, B>)
    requires
        call_ensures(<AppState<Q, B> as Clone>::clone, (&state,), other),
    ensures
        other.job_queue == state.job_queue,
        other.simulation_bus == state.simulation_bus,
{
}

} // verus!
