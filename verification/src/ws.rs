//! The events of the simulation bus.

use crate::clock::Timestamp;
use vstd::prelude::*;

verus! {

/// What a finished simulation cost.
#[derive(Debug, Clone, Copy, PartialEq, Eq)]
pub struct CompletedPayload {
    /// CPU instructions executed.
    pub cpu_instructions: u64,
    /// Memory used, in bytes.
    pub ram_bytes: u64,
    /// Bytes read from the ledger.
    pub ledger_read_bytes: u64,
    /// Bytes written to the ledger.
    pub ledger_write_bytes: u64,
    /// Size of the transaction in bytes.
    pub transaction_size_bytes: u64,
    /// Fee in stroops.
    pub cost_stroops: u64,
}

/// How far a simulation has come.
#[derive(Debug, Clone, PartialEq, Eq)]
pub struct ProgressPayload {
    /// Percentage done.
    pub percent: u8,
    /// What is being done.
    pub message: String,
}

/// An event on the simulation bus.
#[allow(inconsistent_fields)]
#[derive(Debug, Clone, PartialEq, Eq)]
pub enum SimulationEvent {
    /// A simulation has finished.
    Completed { job_id: String, data: CompletedPayload, timestamp: Timestamp },
    /// A simulation has made progress.
    Progress { job_id: String, data: ProgressPayload, timestamp: Timestamp },
    /// Any other internal event, such as a failover.
    Internal,
}

} // verus!
