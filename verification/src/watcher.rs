//! The rotation-tracking state machine around discovery and tailing.
//!
//! A watcher is either idle or tailing one path. On every discovery tick it
//! compares the newest discovered path with the one currently tailed and
//! decides what the surrounding shell must do: nothing while the source is
//! unchanged, stop the superseded tailer, start a fresh one, or both. A
//! failed discovery tick changes nothing: transient errors never cross the
//! loop.
use vstd::prelude::*;

use crate::discovery::DiscoveryError;
use crate::text::bytes_eq;
use crate::text::slice_to_vec;

verus! {

/// What the shell must do after one discovery tick.
#[derive(Debug, Clone, PartialEq, Eq)]
pub enum WatchAction {
    /// The source is unchanged (or the tick failed): leave the running
    /// tailer alone, so line delivery has no gap.
    Keep,
    /// The source disappeared: cancel the running tailer.
    Stop,
    /// A source appeared where none was tailed: start a tailer on it.
    Start(Vec<u8>),
    /// The source rotated: cancel the running tailer and start one on the
    /// new path.
    Switch(Vec<u8>),
}

/// Tracks which log file is current. `Idle` is the state with no path.
pub struct LogWatcher {
    current: Option<Vec<u8>>,
}

impl Default for LogWatcher {
    fn default() -> (w: Self)
        ensures
            w.current_spec() is None,
    {
        LogWatcher::new()
    }
}

/// The path an optional owned path stands for.
pub open spec fn path_view(p: Option<Vec<u8>>) -> Option<Seq<u8>> {
    match p {
        Some(v) => Some(v@),
        None => None,
    }
}

impl LogWatcher {
    /// The path currently tailed, if any.
    pub closed spec fn current_spec(&self) -> Option<Seq<u8>> {
        path_view(self.current)
    }

    /// A fresh watcher tails nothing.
    pub fn new() -> (w: Self)
        ensures
            w.current_spec() is None,
    {
        LogWatcher { current: None }
    }

    /// Decides one tick from the newest discovered path. The tailer is
    /// restarted exactly when the path changed; a tick that rediscovers the
    /// tailed path keeps the tailer running untouched.
    pub fn step(&mut self, discovered: Option<Vec<u8>>) -> (action: WatchAction)
        ensures
            final(self).current_spec() == path_view(discovered),
            match (old(self).current_spec(), path_view(discovered)) {
                (None, None) => action == WatchAction::Keep,
                (Some(c), None) => action == WatchAction::Stop,
                (None, Some(d)) => action matches WatchAction::Start(p) && p@ == d,
                (Some(c), Some(d)) => if c == d {
                    action == WatchAction::Keep
                } else {
                    action matches WatchAction::Switch(p) && p@ == d
                },
            },
    {
        match (&self.current, &discovered) {
            (None, None) => WatchAction::Keep,
            (Some(_), None) => {
                self.current = None;
                WatchAction::Stop
            },
            (None, Some(d)) => {
                let p = slice_to_vec(d.as_slice());
                self.current = discovered;
                WatchAction::Start(p)
            },
            (Some(c), Some(d)) => {
                if bytes_eq(c.as_slice(), d.as_slice()) {
                    WatchAction::Keep
                } else {
                    let p = slice_to_vec(d.as_slice());
                    self.current = discovered;
                    WatchAction::Switch(p)
                }
            },
        }
    }

    /// Decides one tick from the outcome of discovery. A failed tick is
    /// treated as "no source available this tick": nothing changes and the
    /// shell retries on the next tick.
    pub fn step_checked(&mut self, discovered: Result<Option<Vec<u8>>, DiscoveryError>) -> (action:
        WatchAction)
        ensures
            match discovered {
                Ok(d) => final(self).current_spec() == path_view(d) && match (
                    old(self).current_spec(),
                    path_view(d),
                ) {
                    (None, None) => action == WatchAction::Keep,
                    (Some(c), None) => action == WatchAction::Stop,
                    (None, Some(p)) => action matches WatchAction::Start(q) && q@ == p,
                    (Some(c), Some(p)) => if c == p {
                        action == WatchAction::Keep
                    } else {
                        action matches WatchAction::Switch(q) && q@ == p
                    },
                },
                Err(_) => action == WatchAction::Keep && final(self).current_spec() == old(
                    self,
                ).current_spec(),
            },
    {
        match discovered {
            Ok(d) => self.step(d),
            Err(_) => WatchAction::Keep,
        }
    }
}

} // verus!
