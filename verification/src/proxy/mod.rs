//! The proxy: the accept loop as a state machine, and under it the routing
//! table, the balancers and the connection processor.

use crate::mem::SmartBufferAllocator;
use vstd::prelude::*;

pub mod host;
pub mod loadbalancer;
pub mod ppv2;
pub mod proxy_processor;

verus! {

/// The byte capacity of every pooled buffer.
pub const BUFFER_CAPA: usize = 0xFFFF;

/// The baseline of the buffer pool.
pub const POOL_BASELINE: usize = 6;

/// Where the accept loop stands.
#[derive(Clone, Copy, Debug, PartialEq, Eq, Structural)]
pub enum ServerPhase {
    /// Connections are accepted.
    Accepting,
    /// Shutdown was requested: no connection is accepted any more, and the
    /// ones in flight are given time to finish.
    Draining,
    /// The loop is over; `failed` where accepting broke it.
    Stopped { failed: bool },
}

/// What the accept loop is told.
#[derive(Clone, Copy, Debug, PartialEq, Eq, Structural)]
pub enum ServerEvent {
    /// The shutdown notification came.
    ShutdownRequested,
    /// A client connected.
    Accepted,
    /// Accepting failed.
    AcceptFailed,
    /// Every connection task finished.
    Drained,
    /// The grace period ran out with tasks still in flight.
    DrainTimedOut,
}

/// What the accept loop is to do next.
#[derive(Clone, Copy, Debug, PartialEq, Eq, Structural)]
pub enum ServerAction {
    /// Start a task for the connection that was accepted, and go on
    /// accepting.
    Spawn,
    /// Broadcast the cancellation signal, then wait for the connection tasks,
    /// `timeout_sec` seconds at most.
    Drain { timeout_sec: u64 },
    /// Go on waiting for what is under way.
    Wait,
    /// Leave the loop; `failed` where accepting broke it.
    Exit { failed: bool },
}

/// The accept loop's transitions: the phase that follows, and what to do.
///
/// While accepting, a connection is spawned, a shutdown request starts the
/// drain, and a failed accept ends the loop at once. While draining, the end
/// of the tasks or of the grace period ends the loop, whichever comes first;
/// nothing is spawned any more. A loop that is over stays over.
pub open spec fn server_step(phase: ServerPhase, event: ServerEvent, timeout_sec: u64) -> (
    ServerPhase,
    ServerAction,
) {
    match phase {
        ServerPhase::Accepting => match event {
            ServerEvent::Accepted => (ServerPhase::Accepting, ServerAction::Spawn),
            ServerEvent::ShutdownRequested => (
                ServerPhase::Draining,
                ServerAction::Drain { timeout_sec },
            ),
            ServerEvent::AcceptFailed => (
                ServerPhase::Stopped { failed: true },
                ServerAction::Exit { failed: true },
            ),
            _ => (ServerPhase::Accepting, ServerAction::Wait),
        },
        ServerPhase::Draining => match event {
            ServerEvent::Drained => (
                ServerPhase::Stopped { failed: false },
                ServerAction::Exit { failed: false },
            ),
            ServerEvent::DrainTimedOut => (
                ServerPhase::Stopped { failed: false },
                ServerAction::Exit { failed: false },
            ),
            _ => (ServerPhase::Draining, ServerAction::Wait),
        },
        ServerPhase::Stopped { failed } => (phase, ServerAction::Exit { failed }),
    }
}

/// The phase of an accept loop after it was told `events`, one after the
/// other.
pub open spec fn server_run(phase: ServerPhase, events: Seq<ServerEvent>, timeout_sec: u64)
    -> ServerPhase
    decreases events.len(),
{
    if events.len() == 0 {
        phase
    } else {
        server_step(server_run(phase, events.drop_last(), timeout_sec), events.last(), timeout_sec).0
    }
}

/// The proxy application.
pub struct Application;

impl Application {
    pub fn new() -> (r: Self) {
        Application {  }
    }

    /// The buffer pool that the connections of one proxy share: six buffers
    /// of 65535 bytes to begin with.
    pub fn buffer_pool(&self) -> (r: SmartBufferAllocator)
        ensures
            r.spec_capacity() == POOL_BASELINE,
    {
        SmartBufferAllocator::new(POOL_BASELINE, BUFFER_CAPA)
    }

    /// Takes the accept loop one step on (`server_step`).
    pub fn step(&self, phase: ServerPhase, event: ServerEvent, timeout_sec: u64) -> (r: (
        ServerPhase,
        ServerAction,
    ))
        ensures
            r == server_step(phase, event, timeout_sec),
    {
        match phase {
            ServerPhase::Accepting => match event {
                ServerEvent::Accepted => (ServerPhase::Accepting, ServerAction::Spawn),
                ServerEvent::ShutdownRequested => (
                    ServerPhase::Draining,
                    ServerAction::Drain { timeout_sec },
                ),
                ServerEvent::AcceptFailed => (
                    ServerPhase::Stopped { failed: true },
                    ServerAction::Exit { failed: true },
                ),
                _ => (ServerPhase::Accepting, ServerAction::Wait),
            },
            ServerPhase::Draining => match event {
                ServerEvent::Drained | ServerEvent::DrainTimedOut => (
                    ServerPhase::Stopped { failed: false },
                    ServerAction::Exit { failed: false },
                ),
                _ => (ServerPhase::Draining, ServerAction::Wait),
            },
            ServerPhase::Stopped { failed } => (phase, ServerAction::Exit { failed }),
        }
    }
}

/// Once shutdown was requested no connection is accepted any more: whatever
/// the loop is told afterwards, it never answers `Spawn` and never goes back
/// to accepting.
pub proof fn lemma_nothing_is_spawned_after_shutdown(
    later: Seq<ServerEvent>,
    event: ServerEvent,
    timeout_sec: u64,
)
    ensures
        ({
            let draining = server_step(
                ServerPhase::Accepting,
                ServerEvent::ShutdownRequested,
                timeout_sec,
            ).0;
            let reached = server_run(draining, later, timeout_sec);
            &&& reached != ServerPhase::Accepting
            &&& server_step(reached, event, timeout_sec).1 != ServerAction::Spawn
            &&& server_step(reached, event, timeout_sec).0 != ServerPhase::Accepting
        }),
    decreases later.len(),
{
    if later.len() > 0 {
        lemma_nothing_is_spawned_after_shutdown(later.drop_last(), later.last(), timeout_sec);
    }
}

/// The drain is bounded by the configured grace period: it is started with
/// that limit, and the end of the limit ends the loop whether or not tasks are
/// still in flight.
pub proof fn lemma_drain_is_bounded(timeout_sec: u64)
    ensures
        server_step(ServerPhase::Accepting, ServerEvent::ShutdownRequested, timeout_sec) == (
            ServerPhase::Draining,
            ServerAction::Drain { timeout_sec },
        ),
        server_step(ServerPhase::Draining, ServerEvent::DrainTimedOut, timeout_sec) == (
            ServerPhase::Stopped { failed: false },
            ServerAction::Exit { failed: false },
        ),
        server_step(ServerPhase::Draining, ServerEvent::Drained, timeout_sec) == (
            ServerPhase::Stopped { failed: false },
            ServerAction::Exit { failed: false },
        ),
{
}

} // verus!
