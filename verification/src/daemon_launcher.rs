//! How the desktop app reaches the background daemon when no live endpoint
//! exists yet.
use vstd::prelude::*;

verus! {

/// How long to wait for the daemon to publish its endpoint, in milliseconds.
pub const DAEMON_STARTUP_TIMEOUT_MS: u64 = 20000;

/// How often to look for the endpoint while waiting, in milliseconds.
pub const DAEMON_POLL_INTERVAL_MS: u64 = 150;

/// How to obtain a daemon connection once no live one already exists.
#[derive(Clone, Copy, Debug, PartialEq, Eq, Structural)]
pub enum ConnectStrategy {
    /// A managed service owns the daemon and is running; wait for its endpoint.
    AwaitService,
    /// A managed service is installed but stopped; ask the user to restart it.
    ServiceStopped,
    /// The platform mandates the managed service, but it isn't installed.
    ServiceRequired,
    /// No managed service is in play; run a daemon ad-hoc for this session.
    SpawnAdHoc,
}

/// How to connect given the managed-service status: an installed service is
/// always deferred to (awaited when running, else the user is asked to
/// restart it); without one, Windows (`windows_requires_service`) stops,
/// other platforms run a daemon ad hoc.
pub open spec fn strategy_for(
    supported: bool,
    installed: bool,
    running: bool,
    windows_requires_service: bool,
) -> ConnectStrategy {
    if supported && installed {
        if running {
            ConnectStrategy::AwaitService
        } else {
            ConnectStrategy::ServiceStopped
        }
    } else if supported && windows_requires_service {
        ConnectStrategy::ServiceRequired
    } else {
        ConnectStrategy::SpawnAdHoc
    }
}

pub fn connect_strategy(
    supported: bool,
    installed: bool,
    running: bool,
    windows_requires_service: bool,
) -> (res: ConnectStrategy)
    ensures
        res == strategy_for(supported, installed, running, windows_requires_service),
{
    if supported && installed {
        return if running {
            ConnectStrategy::AwaitService
        } else {
            ConnectStrategy::ServiceStopped
        };
    }
    if supported && windows_requires_service {
        return ConnectStrategy::ServiceRequired;
    }
    ConnectStrategy::SpawnAdHoc
}

/// An installed managed service is never raced by a daemon of the app's own,
/// and a running one is always awaited.
pub proof fn lemma_installed_service_never_raced(
    installed: bool,
    running: bool,
    windows_requires_service: bool,
)
    ensures
        installed ==> strategy_for(true, installed, running, windows_requires_service)
            != ConnectStrategy::SpawnAdHoc,
        installed && running ==> strategy_for(true, installed, running, windows_requires_service)
            == ConnectStrategy::AwaitService,
{
}

/// What the user is told when the strategy cannot proceed on its own.
pub open spec fn strategy_message(s: ConnectStrategy) -> Option<Seq<char>> {
    match s {
        ConnectStrategy::ServiceStopped => Some("Restart the background service to continue."@),
        ConnectStrategy::ServiceRequired => Some("Install the background service to continue."@),
        _ => None,
    }
}

pub fn strategy_error(s: ConnectStrategy) -> (res: Option<String>)
    ensures
        match (res, strategy_message(s)) {
            (Some(m), Some(v)) => m@ == v,
            (None, None) => true,
            _ => false,
        },
{
    match s {
        ConnectStrategy::ServiceStopped => Some(
            crate::models::owned("Restart the background service to continue."),
        ),
        ConnectStrategy::ServiceRequired => Some(
            crate::models::owned("Install the background service to continue."),
        ),
        _ => None,
    }
}

/// Whether waiting for the daemon has run out of time.
pub fn startup_timed_out(elapsed_ms: u64) -> (res: bool)
    ensures
        res == (elapsed_ms >= DAEMON_STARTUP_TIMEOUT_MS),
{
    elapsed_ms >= DAEMON_STARTUP_TIMEOUT_MS
}

} // verus!
