use vstd::prelude::*;

use crate::error::TransportError;

verus! {

/// What the client does next while bringing up its connection.
#[derive(Debug, Clone, Copy, PartialEq, Eq, Structural)]
pub enum BootstrapStep {
    /// The connection is up; bootstrapping is over.
    Connected,
    /// No server answered: start one, then try again.
    SpawnServer,
    /// Wait this many milliseconds, then try again.
    Retry { wait_ms: u64 },
}

/// The decisions of "connect, starting the server if absent", fed with the outcome of each
/// connection attempt and the time at which it ended.
#[derive(Debug, Clone, Copy, PartialEq, Eq, Structural)]
pub struct Bootstrap {
    /// How long after the spawn to keep trying.
    pub timeout_ms: u64,
    /// How long to wait between attempts.
    pub retry_ms: u64,
    /// When the server was spawned, once it was.
    pub spawned_at: Option<u64>,
}

/// Milliseconds from `from` to `to`, or zero if the clock went back.
pub open spec fn elapsed(from: u64, to: u64) -> int {
    if to >= from {
        to - from
    } else {
        0
    }
}

/// The state and decision after an attempt that ended at `now_ms`.
pub open spec fn next_step(b: Bootstrap, connected: bool, now_ms: u64) -> (
    Bootstrap,
    Result<BootstrapStep, TransportError>,
) {
    if connected {
        (b, Ok(BootstrapStep::Connected))
    } else {
        match b.spawned_at {
            None => (Bootstrap { spawned_at: Some(now_ms), ..b }, Ok(BootstrapStep::SpawnServer)),
            Some(t) => if elapsed(t, now_ms) > b.timeout_ms {
                (b, Err(TransportError::ServerStartupTimeout))
            } else {
                (b, Ok(BootstrapStep::Retry { wait_ms: b.retry_ms }))
            },
        }
    }
}

/// How many servers a run of attempts spawns; each attempt is its outcome and its end time,
/// and the run stops at the first decision that is not to try again.
pub open spec fn spawns(b: Bootstrap, attempts: Seq<(bool, u64)>) -> nat
    decreases attempts.len(),
{
    if attempts.len() == 0 {
        0
    } else {
        let (b2, r) = next_step(b, attempts[0].0, attempts[0].1);
        let here: nat = if r == Ok::<BootstrapStep, TransportError>(BootstrapStep::SpawnServer) {
            1
        } else {
            0
        };
        if r is Err || r == Ok::<BootstrapStep, TransportError>(BootstrapStep::Connected) {
            here
        } else {
            here + spawns(b2, attempts.drop_first())
        }
    }
}

/// Once a server has been spawned, no run of attempts spawns another.
pub proof fn lemma_no_second_spawn(b: Bootstrap, attempts: Seq<(bool, u64)>)
    requires
        b.spawned_at is Some,
    ensures
        spawns(b, attempts) == 0,
    decreases attempts.len(),
{
    if attempts.len() > 0 {
        lemma_no_second_spawn(b, attempts.drop_first());
    }
}

/// Bootstrapping spawns at most one server, whatever the attempts bring.
pub proof fn lemma_spawns_at_most_once(b: Bootstrap, attempts: Seq<(bool, u64)>)
    ensures
        spawns(b, attempts) <= 1,
    decreases attempts.len(),
{
    if attempts.len() > 0 {
        let (b2, r) = next_step(b, attempts[0].0, attempts[0].1);
        if b.spawned_at is Some {
            lemma_no_second_spawn(b, attempts);
        } else if !attempts[0].0 {
            lemma_no_second_spawn(b2, attempts.drop_first());
        }
    }
}

/// Once the server was spawned and the deadline has passed, a failed attempt ends bootstrapping
/// with `ServerStartupTimeout`.
pub proof fn lemma_times_out(b: Bootstrap, now_ms: u64)
    requires
        b.spawned_at matches Some(t) && elapsed(t, now_ms) > b.timeout_ms,
    ensures
        next_step(b, false, now_ms) == (b, Err::<BootstrapStep, TransportError>(
            TransportError::ServerStartupTimeout,
        )),
{
}

impl Bootstrap {
    /// Bootstrapping that has spawned nothing yet.
    pub fn new(timeout_ms: u64, retry_ms: u64) -> (r: Bootstrap)
        ensures
            r == (Bootstrap { timeout_ms, retry_ms, spawned_at: None }),
    {
        Bootstrap { timeout_ms, retry_ms, spawned_at: None }
    }

    /// Decides what follows an attempt to connect that ended at `now_ms`.
    pub fn after_attempt(&mut self, connected: bool, now_ms: u64) -> (r: Result<
        BootstrapStep,
        TransportError,
    >)
        ensures
            (*final(self), r) == next_step(*old(self), connected, now_ms),
    {
        if connected {
            return Ok(BootstrapStep::Connected);
        }
        match self.spawned_at {
            None => {
                self.spawned_at = Some(now_ms);
                Ok(BootstrapStep::SpawnServer)
            },
            Some(t) => {
                let waited: u64 = if now_ms >= t {
                    now_ms - t
                } else {
                    0
                };
                if waited > self.timeout_ms {
                    Err(TransportError::ServerStartupTimeout)
                } else {
                    Ok(BootstrapStep::Retry { wait_ms: self.retry_ms })
                }
            },
        }
    }
}

/// How a server takes the endpoint.
#[derive(Debug, Clone, Copy, PartialEq, Eq, Structural)]
pub enum Startup {
    /// Nothing is at the path: bind there.
    Bind,
    /// A stale endpoint nobody answers on is at the path: remove it, then bind.
    RemoveStaleThenBind,
}

/// Decides how a server starts, from whether a probe connection to the endpoint was answered
/// and whether the endpoint's path exists. A live server is never displaced.
pub fn plan_startup(probe_answered: bool, path_exists: bool) -> (r: Result<Startup, TransportError>)
    ensures
        probe_answered ==> r == Err::<Startup, TransportError>(
            TransportError::ServerAlreadyRunning,
        ),
        !probe_answered && path_exists ==> r == Ok::<Startup, TransportError>(
            Startup::RemoveStaleThenBind,
        ),
        !probe_answered && !path_exists ==> r == Ok::<Startup, TransportError>(Startup::Bind),
{
    if probe_answered {
        Err(TransportError::ServerAlreadyRunning)
    } else if path_exists {
        Ok(Startup::RemoveStaleThenBind)
    } else {
        Ok(Startup::Bind)
    }
}

} // verus!
