//! The decisions of the display-change watcher: a burst of notifications is
//! answered by one refresh, once no notification came for a quiet period.
use vstd::prelude::*;

verus! {

/// How long, in milliseconds, no notification must come before a burst is
/// taken as over.
pub const DEBOUNCE_QUIET_MS: u64 = 500;

/// What the watcher's wait ended with.
#[derive(Debug, Clone, Copy, PartialEq, Eq, Structural)]
pub enum WatchEvent {
    /// A display or power notification arrived.
    Notified,
    /// The quiet period passed without a notification.
    QuietTimeout,
    /// The notification channel was closed.
    Disconnected,
}

/// What the watcher does next.
#[derive(Debug, Clone, Copy, PartialEq, Eq, Structural)]
pub enum WatchAction {
    /// Wait for the next notification, without a time limit.
    Wait,
    /// Wait for the quiet period to pass.
    KeepWaiting,
    /// Refresh the displays, then wait for the next notification.
    Refresh,
    /// Stop watching.
    Stop,
}

/// One step of the watcher. `waiting` says whether a burst is being waited
/// out, `running` whether the watcher is still meant to run, and `ev` how
/// the last wait ended. Gives whether a burst is being waited out next, and
/// what to do: a notification starts or extends the quiet period; the quiet
/// period passing ends the burst with one refresh; a closed channel, or a
/// watcher that was stopped, stops.
pub fn debounce_step(waiting: bool, running: bool, ev: WatchEvent) -> (r: (bool, WatchAction))
    ensures
        ev == WatchEvent::Disconnected ==> r.1 == WatchAction::Stop,
        !running ==> r.1 == WatchAction::Stop,
        running && ev == WatchEvent::Notified ==> r == (true, WatchAction::KeepWaiting),
        running && waiting && ev == WatchEvent::QuietTimeout ==> r == (false, WatchAction::Refresh),
        running && !waiting && ev == WatchEvent::QuietTimeout ==> r == (false, WatchAction::Wait),
        r.1 == WatchAction::Stop ==> !r.0,
{
    match ev {
        WatchEvent::Disconnected => (false, WatchAction::Stop),
        WatchEvent::Notified => {
            if running {
                (true, WatchAction::KeepWaiting)
            } else {
                (false, WatchAction::Stop)
            }
        },
        WatchEvent::QuietTimeout => {
            if !running {
                (false, WatchAction::Stop)
            } else if waiting {
                (false, WatchAction::Refresh)
            } else {
                (false, WatchAction::Wait)
            }
        },
    }
}

} // verus!
