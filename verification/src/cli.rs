//! What the command line comes to.

use vstd::prelude::*;

use crate::feed::FeedConfig;
use crate::text::{to_upper, trim, trimmed, upper};
use crate::time::Span;

verus! {

/// Shortest interval that may be asked for, in seconds.
pub const SHORTEST_INTERVAL: u64 = 1;

/// Rows that are replayed unless told otherwise.
pub const REPLAY: usize = 3;

/// The options that shape the polling.
#[derive(Debug, Clone, Copy, PartialEq, Eq, Structural)]
pub struct Options {
    pub history: Span,
    pub replay: Option<usize>,
    pub poll_interval: Span,
    pub slow_interval: Span,
    pub fast_window: Span,
    pub lag_margin: Span,
    pub idle_poll: Option<Span>,
    pub once: bool,
}

impl Options {
    /// Every span is well formed.
    pub open spec fn wf(self) -> bool {
        &&& self.history.wf()
        &&& self.poll_interval.wf()
        &&& self.slow_interval.wf()
        &&& self.fast_window.wf()
        &&& self.lag_margin.wf()
        &&& self.idle_poll matches Some(d) ==> d.wf()
    }

    /// How many historical rows to replay: as many as told, or else a few, or
    /// all when nothing else is shown.
    pub open spec fn replayed(self) -> usize {
        match self.replay {
            Some(n) => n,
            None => if self.once {
                usize::MAX
            } else {
                REPLAY
            },
        }
    }

    /// The settings that the options come to.
    pub open spec fn settings(self) -> FeedConfig {
        FeedConfig {
            history: self.history,
            replay: self.replayed(),
            poll_interval: self.poll_interval,
            slow_interval: self.slow_interval,
            fast_window: self.fast_window,
            lag_margin: self.lag_margin,
            idle_poll: self.idle_poll,
        }
    }

    /// The first option that asks for an interval that is too short.
    pub open spec fn too_short(self) -> Option<Seq<char>> {
        if self.poll_interval.secs < SHORTEST_INTERVAL {
            Some("--poll-interval"@)
        } else if self.slow_interval.secs < SHORTEST_INTERVAL {
            Some("--slow-interval"@)
        } else {
            match self.idle_poll {
                Some(d) if d.secs < SHORTEST_INTERVAL => Some("--idle-poll"@),
                _ => None,
            }
        }
    }

    /// Makes the settings, unless an interval is shorter than a second.
    pub fn config(&self) -> (r: Result<FeedConfig, String>)
        requires
            self.wf(),
        ensures
            match (self.too_short(), r) {
                (None, Ok(cfg)) => cfg == self.settings() && cfg.wf(),
                (Some(flag), Err(message)) => message@ == flag + " must be at least 1s"@,
                _ => false,
            },
    {
        if self.poll_interval.secs < SHORTEST_INTERVAL {
            return Err(at_least("--poll-interval"));
        }
        if self.slow_interval.secs < SHORTEST_INTERVAL {
            return Err(at_least("--slow-interval"));
        }
        if let Some(d) = self.idle_poll {
            if d.secs < SHORTEST_INTERVAL {
                return Err(at_least("--idle-poll"));
            }
        }
        let replay: usize = match self.replay {
            Some(n) => n,
            None => if self.once {
                usize::MAX
            } else {
                REPLAY
            },
        };
        Ok(
            FeedConfig {
                history: self.history,
                replay,
                poll_interval: self.poll_interval,
                slow_interval: self.slow_interval,
                fast_window: self.fast_window,
                lag_margin: self.lag_margin,
                idle_poll: self.idle_poll,
            },
        )
    }
}

fn at_least(flag: &str) -> (r: String)
    ensures
        r@ == flag@ + " must be at least 1s"@,
{
    let mut r = flag.to_owned();
    r.append(" must be at least 1s");
    assert(r@ =~= flag@ + " must be at least 1s"@);
    r
}

/// The identifier of a station as it is asked for: without the white space
/// around it, and in upper case.
pub fn station_id(s: &str) -> (r: String)
    ensures
        r@ == upper(trim(s@)),
{
    let t = trimmed(s);
    to_upper(t.as_str())
}

/// The token for Synoptic Data, which the service cannot do without.
pub fn synoptic_token(token: Option<String>) -> (r: Result<String, String>)
    ensures
        match token {
            Some(t) => r == Ok::<String, String>(t),
            None => r matches Err(message) && message@
                == "--source synoptic needs --token or SYNOPTIC_TOKEN"@,
        },
{
    match token {
        Some(t) => Ok(t),
        None => Err("--source synoptic needs --token or SYNOPTIC_TOKEN".to_owned()),
    }
}

} // verus!
