//! Per-station polling, as a machine that is told the time and what came of
//! its requests, and answers with what to report and what to do next.
//!
//! For each expected observation time: sleep until just before the report is
//! likely to be out, then poll quickly until it shows up. If it never does,
//! slow down and move on to the next slot; a late row is still reported the
//! moment any later poll sees it. A station without a cadence is polled at the
//! slow interval throughout.

use vstd::prelude::*;

use crate::feed::{
    all_reported, backoff, backoff_ns, has_horizon, horizon_fits, rows_wf, slot_filled, Event,
    Feed, Row,
};
use crate::order::in_order;
use crate::schedule::{
    can_add, can_be_earlier, can_be_later, can_sub, greatest, moved_earlier, moved_later, until,
    Cadence, LagModel,
};
use crate::time::{elapsed_ns, Span, Time};

verus! {

/// The times that govern the polling for one expected report.
#[derive(Debug, Clone, Copy, PartialEq, Eq, Structural)]
pub struct Slot {
    /// When the station is due to observe.
    pub expected: Time,
    /// When polling starts.
    pub poll_from: Time,
    /// When fast polling ends.
    pub fast_until: Time,
    /// When the report counts as missed.
    pub deadline: Time,
}

impl Slot {
    /// Every time lies in the calendar.
    pub open spec fn wf(self) -> bool {
        self.expected.wf() && self.poll_from.wf() && self.fast_until.wf() && self.deadline.wf()
    }

    /// The phase of polling at `now`.
    pub open spec fn phase_at(self, now: Time) -> Phase {
        if now.precedes(self.poll_from) {
            Phase::Idle
        } else if now.precedes(self.fast_until) {
            Phase::Fast
        } else {
            Phase::Slow
        }
    }

    /// The phase of polling at `now`.
    pub fn phase(&self, now: Time) -> (r: Phase)
        ensures
            r == self.phase_at(now),
    {
        if now.is_before(self.poll_from) {
            Phase::Idle
        } else if now.is_before(self.fast_until) {
            Phase::Fast
        } else {
            Phase::Slow
        }
    }
}

/// How eagerly a report is polled for.
#[derive(Debug, Clone, Copy, PartialEq, Eq, Structural)]
pub enum Phase {
    Idle,
    Fast,
    Slow,
}

/// Where the machine stands.
#[derive(Debug, Clone, Copy, PartialEq, Eq, Structural)]
pub enum Stage {
    /// The next slot is to be chosen.
    Plan,
    /// The phase is to be settled.
    Look { slot: Slot, errors: u32 },
    /// A poll for the slot is under way.
    Poll { slot: Slot, phase: Phase, errors: u32 },
    /// The wait before the next poll is to be settled.
    Settle { slot: Slot, phase: Phase, errors: u32 },
    /// A poll without a schedule is under way.
    Browse { errors: u32 },
    /// Between two polls without a schedule.
    Rest { errors: u32 },
}

/// What the machine is told.
pub enum Input {
    /// It is this time now; after a sleep, that the sleep is over.
    Clock(Time),
    /// A poll returned these rows, at this time.
    Rows(Vec<Row>, Time),
    /// A poll failed.
    Failure(String),
}

/// What the machine asks for.
#[derive(Debug, Clone, Copy, PartialEq, Eq, Structural)]
pub enum Action {
    /// The time.
    ReadClock,
    /// The rows of the trailing window.
    Fetch(Span),
    /// The time, after a sleep.
    Sleep(Span),
}

impl Feed {
    /// How long after the expected time polling starts.
    pub open spec fn start(self) -> Span {
        Span::of_ns(LagModel::start_ns(self.lag@, self.cfg.lag_margin))
    }

    /// How long after the expected time polling stays fast.
    pub open spec fn fast(self) -> Span {
        Span::of_ns(LagModel::fast_ns(self.lag@, self.cfg.lag_margin, self.cfg.fast_window))
    }

    /// How far back a slot may lie: one period plus the usual publish lag.
    pub open spec fn reach(self, c: Cadence) -> Span {
        Span::of_ns(c.period.ns() + self.start().ns())
    }

    /// The time after which the next slot is looked for.
    pub open spec fn anchor(self, c: Cadence, now: Time) -> Time {
        let floor = moved_earlier(now, self.reach(c));
        match self.last_time {
            Some(t) => t.max_of(floor),
            None => floor,
        }
    }

    /// The slot to poll for at `now`.
    pub open spec fn slot_for(self, c: Cadence, now: Time) -> Slot {
        let expected = c.next(self.anchor(c, now));
        Slot {
            expected,
            poll_from: moved_later(expected, self.start()),
            fast_until: moved_later(expected, self.fast()),
            deadline: moved_later(c.next(expected), self.start()),
        }
    }

    /// The fast window can be counted.
    pub open spec fn fast_fits(self) -> bool {
        greatest(self.lag@) matches Some(m) ==> m * 1_000_000_000 + self.cfg.lag_margin.ns()
            <= Span::longest()
    }

    /// Every time of the slot lies in the calendar.
    pub open spec fn slot_fits(self, c: Cadence, now: Time) -> bool {
        let expected = c.next(self.anchor(c, now));
        &&& self.fast_fits()
        &&& can_be_earlier(now, self.reach(c))
        &&& can_be_later(expected, self.start())
        &&& can_be_later(expected, self.fast())
        &&& can_be_later(c.next(expected), self.start())
    }

    fn start_span(&self) -> (r: Span)
        requires
            self.wf(),
        ensures
            r == self.start(),
            r.wf(),
            r.ns() <= LagModel::LONGEST * 1_000_000_000,
    {
        let r = self.lag.start_offset(self.cfg.lag_margin);
        proof {
            crate::time::lemma_span_of_ns(r);
        }
        r
    }

    fn fast_span(&self) -> (r: Span)
        requires
            self.wf(),
            self.fast_fits(),
        ensures
            r == self.fast(),
            r.wf(),
    {
        let r = self.lag.fast_window(self.cfg.lag_margin, self.cfg.fast_window);
        proof {
            crate::time::lemma_span_of_ns(r);
        }
        r
    }

    fn reach_span(&self, c: Cadence) -> (r: Span)
        requires
            self.wf(),
            c.wf(),
        ensures
            r == self.reach(c),
            r.wf(),
    {
        let r = c.period.plus(self.start_span());
        proof {
            crate::time::lemma_span_of_ns(r);
        }
        r
    }

    fn due(&self, c: Cadence, now: Time) -> (r: Time)
        requires
            self.wf(),
            c.wf(),
            now.wf(),
            can_be_earlier(now, self.reach(c)),
        ensures
            r == c.next(self.anchor(c, now)),
            r.wf(),
    {
        // Never chase a slot older than one period plus the usual publish
        // lag (rows can lag by several periods on slow feeds); a later poll
        // still reports anything that turns up after that.
        let floor = crate::schedule::sub(now, self.reach_span(c));
        let anchor = match self.last_time {
            Some(t) => t.latest(floor),
            None => floor,
        };
        proof {
            lemma_slot_is_countable(c, anchor);
        }
        c.next_after(anchor)
    }

    /// Whether every time of the slot at `now` lies in the calendar.
    pub fn can_plan(&self, c: Cadence, now: Time) -> (r: bool)
        requires
            self.wf(),
            c.wf(),
            now.wf(),
        ensures
            r == self.slot_fits(c, now),
    {
        proof {
            crate::schedule::lemma_extremes(self.lag@);
        }
        let countable = match self.lag.max() {
            Some(m) => {
                let room: u64 = u64::MAX - m as u64;
                self.cfg.lag_margin.secs <= room
            },
            None => true,
        };
        assert(countable == self.fast_fits());
        if !countable || !can_sub(now, self.reach_span(c)) {
            return false;
        }
        let start = self.start_span();
        let expected = self.due(c, now);
        proof {
            lemma_slot_is_countable(c, expected);
        }
        can_add(expected, start) && can_add(expected, self.fast_span()) && can_add(
            c.next_after(expected),
            start,
        )
    }

    /// Chooses the slot to poll for: the first scheduled time after the last
    /// row, but none that is older than one period plus the usual publish lag.
    pub fn plan(&self, c: Cadence, now: Time) -> (r: Slot)
        requires
            self.wf(),
            c.wf(),
            now.wf(),
            self.slot_fits(c, now),
        ensures
            r == self.slot_for(c, now),
            r.wf(),
    {
        let start = self.start_span();
        let expected = self.due(c, now);
        proof {
            lemma_slot_is_countable(c, expected);
        }
        Slot {
            expected,
            poll_from: crate::schedule::add(expected, start),
            fast_until: crate::schedule::add(expected, self.fast_span()),
            deadline: crate::schedule::add(c.next_after(expected), start),
        }
    }

    /// Whether a poll is due in `phase`.
    pub open spec fn polls_in(self, phase: Phase) -> bool {
        !(phase is Idle) || self.cfg.idle_poll is Some
    }

    /// Whether a poll is due in `phase`.
    pub fn polls(&self, phase: Phase) -> (r: bool)
        ensures
            r == self.polls_in(phase),
    {
        match phase {
            Phase::Idle => self.cfg.idle_poll.is_some(),
            _ => true,
        }
    }

    /// A configured interval, raised to the shortest that is of use.
    pub open spec fn raised(configured: Span, shortest: Span) -> Span {
        if configured.ns() <= shortest.ns() {
            shortest
        } else {
            configured
        }
    }

    /// Configured interval, raised to whatever the backend can usefully serve.
    pub fn poll_interval(configured: Span, shortest: Span) -> (r: Span)
        requires
            configured.wf(),
            shortest.wf(),
        ensures
            r == Self::raised(configured, shortest),
            r.wf(),
    {
        configured.longer(shortest)
    }

    /// Nanoseconds from `now` to `t`, or none once `t` has passed.
    pub open spec fn left_ns(t: Time, now: Time) -> nat {
        if elapsed_ns(t, now) > 0 {
            elapsed_ns(t, now) as nat
        } else {
            0
        }
    }

    /// The wait between polls in `phase`, before any growth after errors.
    pub open spec fn pause(self, slot: Slot, phase: Phase, shortest: Span, now: Time) -> Span {
        match phase {
            Phase::Idle => {
                let remaining = Span::of_ns(Self::left_ns(slot.poll_from, now));
                match self.cfg.idle_poll {
                    Some(d) if d.ns() <= remaining.ns() => d,
                    _ => remaining,
                }
            },
            Phase::Fast => Self::raised(self.cfg.poll_interval, shortest),
            Phase::Slow => Self::raised(self.cfg.slow_interval, shortest),
        }
    }

    /// The wait before the next look, in nanoseconds: grown after errors, and
    /// never past the deadline.
    pub open spec fn wait_ns(
        self,
        slot: Slot,
        phase: Phase,
        errors: u32,
        shortest: Span,
        now: Time,
    ) -> nat {
        let grown = backoff_ns(self.pause(slot, phase, shortest, now), errors);
        let left = Self::left_ns(slot.deadline, now);
        if grown <= left {
            grown
        } else {
            left
        }
    }

    fn pause_span(&self, slot: Slot, phase: Phase, shortest: Span, now: Time) -> (r: Span)
        requires
            self.wf(),
            slot.wf(),
            shortest.wf(),
            now.wf(),
        ensures
            r == self.pause(slot, phase, shortest, now),
            r.wf(),
    {
        match phase {
            Phase::Idle => {
                let remaining = until(slot.poll_from, now);
                proof {
                    crate::time::lemma_span_of_ns(remaining);
                }
                match self.cfg.idle_poll {
                    Some(d) => d.shorter(remaining),
                    None => remaining,
                }
            },
            Phase::Fast => Self::poll_interval(self.cfg.poll_interval, shortest),
            Phase::Slow => Self::poll_interval(self.cfg.slow_interval, shortest),
        }
    }

    /// The wait before the next look.
    pub fn wait(&self, slot: Slot, phase: Phase, errors: u32, shortest: Span, now: Time) -> (r:
        Span)
        requires
            self.wf(),
            slot.wf(),
            shortest.wf(),
            now.wf(),
        ensures
            r.wf(),
            r.ns() == self.wait_ns(slot, phase, errors, shortest, now),
    {
        let base = self.pause_span(slot, phase, shortest, now);
        backoff(base, errors).shorter(until(slot.deadline, now))
    }
}

/// The slot after any time in the calendar can be counted in seconds.
proof fn lemma_slot_is_countable(c: Cadence, t: Time)
    requires
        c.wf(),
        t.wf(),
    ensures
        c.slot_after(t.secs as int) <= i64::MAX,
{
    crate::schedule::law_next_slot_is_the_first_after(c, t.secs as int);
}

/// A feed whose history is being loaded.
pub struct Primer {
    pub feed: Feed,
    /// Attempts that failed so far.
    pub attempts: u32,
}

impl Primer {
    /// Nothing was tried yet. The window to fetch is the history.
    pub fn new(feed: Feed) -> (r: (Primer, Action))
        requires
            feed.wf(),
        ensures
            r.0.feed == feed,
            r.0.attempts == 0,
            r.1 == Action::Fetch(feed.cfg.history),
    {
        let window = feed.cfg.history;
        (Primer { feed, attempts: 0 }, Action::Fetch(window))
    }

    /// Takes the failure of an attempt: says so, and how long to wait before
    /// the next one.
    pub fn fail(&mut self, error: &str) -> (r: (Event, Action))
        requires
            old(self).attempts < u32::MAX,
        ensures
            old(self).failed_into(*final(self)),
            r.0 matches Event::Error { station, message } && station == old(self).feed.station
                && message@ == Feed::history_failure_text(final(self).attempts, error@),
            r.1 == Action::Sleep(
                Span::of_ns(backoff_ns(Span { secs: 5, nanos: 0 }, final(self).attempts)),
            ),
    {
        self.attempts = self.attempts + 1;
        let (event, wait) = self.feed.history_failed(self.attempts, error);
        proof {
            crate::time::lemma_span_of_ns(wait);
        }
        (event, Action::Sleep(wait))
    }

    /// What follows a wait: another attempt, for as long as none succeeds.
    pub open spec fn retry(self) -> Action {
        Action::Fetch(self.feed.cfg.history)
    }

    /// Says what to do once a wait is over.
    pub fn rested(&self) -> (r: Action)
        ensures
            r == self.retry(),
    {
        Action::Fetch(self.feed.cfg.history)
    }

    /// `after` is what the failure of an attempt turned `self` into.
    pub open spec fn failed_into(self, after: Primer) -> bool {
        &&& after.feed == self.feed
        &&& after.attempts == self.attempts + 1
    }
}

/// However often an attempt fails, the wait that follows each failure ends in
/// another fetch of the same history, and the waits go by the failures so far.
pub proof fn law_the_history_is_fetched_until_it_comes(primers: Seq<Primer>, i: int)
    requires
        0 <= i < primers.len(),
        primers[0].attempts == 0,
        forall|k: int|
            0 < k < primers.len() ==> #[trigger] primers[k - 1].failed_into(primers[k]),
    ensures
        primers[i].retry() == Action::Fetch(primers[0].feed.cfg.history),
        primers[i].attempts == i,
    decreases i,
{
    if i > 0 {
        law_the_history_is_fetched_until_it_comes(primers, i - 1);
        assert(primers[i - 1].failed_into(primers[i]));
    }
}

/// The polling of one station.
pub struct Watch {
    pub feed: Feed,
    /// Shortest poll interval that the source can usefully serve.
    pub shortest: Span,
    pub stage: Stage,
}

impl Watch {
    /// The parts are well formed; a slot is polled for only by a cadence.
    pub open spec fn wf(self) -> bool {
        &&& self.feed.wf()
        &&& self.shortest.wf()
        &&& match self.stage {
            Stage::Plan => self.feed.cadence is Some,
            Stage::Look { slot, .. } => self.feed.cadence is Some && slot.wf(),
            Stage::Poll { slot, .. } => self.feed.cadence is Some && slot.wf(),
            Stage::Settle { slot, .. } => self.feed.cadence is Some && slot.wf(),
            Stage::Browse { .. } => true,
            Stage::Rest { .. } => true,
        }
    }

    /// The wait between polls without a schedule.
    pub open spec fn interval(self) -> Span {
        Feed::raised(self.feed.cfg.slow_interval, self.shortest)
    }

    /// The input is one that the machine asked for, and what it leads to can
    /// be counted and dated.
    pub open spec fn accepts(self, input: Input) -> bool {
        match (self.stage, input) {
            (Stage::Plan, Input::Clock(now)) => now.wf() && self.feed.slot_fits(
                self.feed.cadence->0,
                now,
            ),
            (Stage::Look { .. }, Input::Clock(now)) => now.wf(),
            (Stage::Poll { .. }, Input::Rows(rows, now)) => rows_wf(rows@) && now.wf()
                && horizon_fits(self.feed.cfg.history, now),
            (Stage::Poll { errors, .. }, Input::Failure(_)) => errors < u32::MAX,
            (Stage::Settle { .. }, Input::Clock(now)) => now.wf(),
            (Stage::Browse { .. }, Input::Rows(rows, now)) => rows_wf(rows@) && now.wf()
                && horizon_fits(self.feed.cfg.history, now),
            (Stage::Browse { errors }, Input::Failure(_)) => errors < u32::MAX,
            (Stage::Rest { .. }, Input::Clock(_)) => true,
            _ => false,
        }
    }

    /// The feed took in the rows of a batch, and reported `events`.
    pub open spec fn took(
        self,
        after: Watch,
        rows: Seq<Row>,
        expected: Option<Time>,
        now: Time,
        events: Seq<Event>,
    ) -> bool {
        &&& after.feed.same_setting(self.feed)
        &&& after.feed.memory() == self.feed.memory_after(rows, now)
        &&& events == all_reported(
            self.feed.station,
            self.feed.memory(),
            in_order(rows),
            expected,
            now,
        )
    }

    /// What `step` makes of an input.
    pub open spec fn steps(
        self,
        input: Input,
        after: Watch,
        events: Seq<Event>,
        action: Action,
    ) -> bool {
        match (self.stage, input) {
            (Stage::Plan, Input::Clock(now)) => {
                let slot = self.feed.slot_for(self.feed.cadence->0, now);
                &&& after.feed == self.feed
                &&& after.stage == Stage::Look { slot, errors: 0 }
                &&& events == seq![
                    Event::Waiting {
                        station: self.feed.station,
                        expected: slot.expected,
                        poll_from: slot.poll_from,
                        poll_every_s: Feed::raised(
                            self.feed.cfg.poll_interval,
                            self.shortest,
                        ).secs,
                    },
                ]
                &&& action == Action::ReadClock
            },
            (Stage::Look { slot, errors }, Input::Clock(now)) => {
                let phase = slot.phase_at(now);
                &&& after.feed == self.feed
                &&& events.len() == 0
                &&& if self.feed.polls_in(phase) {
                    &&& after.stage == Stage::Poll { slot, phase, errors }
                    &&& action == Action::Fetch(self.feed.poll_window)
                } else {
                    &&& after.stage == Stage::Settle { slot, phase, errors }
                    &&& action == Action::ReadClock
                }
            },
            (Stage::Poll { slot, phase, errors }, Input::Rows(rows, now)) => {
                &&& self.took(after, rows@, Some(slot.expected), now, events)
                &&& after.stage == if slot_filled(
                    self.feed.memory(),
                    in_order(rows@),
                    Some(slot.expected),
                    now,
                ) {
                    Stage::Plan
                } else {
                    Stage::Settle { slot, phase, errors: 0 }
                }
                &&& action == Action::ReadClock
            },
            (Stage::Poll { slot, phase, errors }, Input::Failure(error)) => {
                &&& after.feed == self.feed
                &&& after.stage == Stage::Settle { slot, phase, errors: (errors + 1) as u32 }
                &&& events.len() == 1
                &&& self.feed.tells_failure(events[0], (errors + 1) as u32, error@)
                &&& action == Action::ReadClock
            },
            (Stage::Settle { slot, phase, errors }, Input::Clock(now)) => {
                &&& after.feed == self.feed
                &&& if now.precedes(slot.deadline) {
                    &&& after.stage == Stage::Look { slot, errors }
                    &&& events.len() == 0
                    &&& action == Action::Sleep(
                        Span::of_ns(self.feed.wait_ns(slot, phase, errors, self.shortest, now)),
                    )
                } else {
                    &&& after.stage == Stage::Plan
                    &&& events == seq![
                        Event::Missed { station: self.feed.station, expected: slot.expected },
                    ]
                    &&& action == Action::ReadClock
                }
            },
            (Stage::Browse { errors }, Input::Rows(rows, now)) => {
                &&& self.took(after, rows@, None, now, events)
                &&& after.stage == Stage::Rest { errors: 0 }
                &&& action == Action::Sleep(self.interval())
            },
            (Stage::Browse { errors }, Input::Failure(error)) => {
                &&& after.feed == self.feed
                &&& after.stage == Stage::Rest { errors: (errors + 1) as u32 }
                &&& events.len() == 1
                &&& self.feed.tells_failure(events[0], (errors + 1) as u32, error@)
                &&& action == Action::Sleep(
                    Span::of_ns(backoff_ns(self.interval(), (errors + 1) as u32)),
                )
            },
            (Stage::Rest { errors }, Input::Clock(_)) => {
                &&& after.feed == self.feed
                &&& after.stage == Stage::Browse { errors }
                &&& events.len() == 0
                &&& action == Action::Fetch(self.feed.poll_window)
            },
            _ => false,
        }
    }

    /// Whether the machine can take the time `now`.
    pub fn can_take_time(&self, now: Time) -> (r: bool)
        requires
            self.wf(),
        ensures
            r == self.accepts(Input::Clock(now)),
    {
        match self.stage {
            Stage::Plan => match self.feed.cadence {
                Some(c) => now.is_valid() && self.feed.can_plan(c, now),
                None => false,
            },
            Stage::Look { .. } => now.is_valid(),
            Stage::Settle { .. } => now.is_valid(),
            Stage::Rest { .. } => true,
            _ => false,
        }
    }

    /// Whether the machine can take rows that were seen at `now`.
    pub fn can_take_rows(&self, rows: &Vec<Row>, now: Time) -> (r: bool)
        requires
            self.wf(),
        ensures
            r == self.accepts(Input::Rows(*rows, now)),
    {
        let polling = match self.stage {
            Stage::Poll { .. } => true,
            Stage::Browse { .. } => true,
            _ => false,
        };
        if !polling || !now.is_valid() || !has_horizon(self.feed.cfg.history, now) {
            return false;
        }
        let mut i: usize = 0;
        while i < rows.len()
            invariant
                i <= rows@.len(),
                forall|k: int| 0 <= k < i ==> (#[trigger] rows@[k]).obs.wf(),
            decreases rows@.len() - i,
        {
            let obs = &rows[i].obs;
            let received_valid = match obs.received {
                Some(t) => t.is_valid(),
                None => true,
            };
            if !obs.time.is_valid() || !received_valid {
                assert(!rows@[i as int].obs.wf());
                return false;
            }
            i += 1;
        }
        true
    }

    /// Whether the machine can take one more failure.
    pub fn can_take_failure(&self) -> (r: bool)
        requires
            self.wf(),
        ensures
            forall|error: String| r == #[trigger] self.accepts(Input::Failure(error)),
    {
        match self.stage {
            Stage::Poll { errors, .. } => errors < u32::MAX,
            Stage::Browse { errors } => errors < u32::MAX,
            _ => false,
        }
    }

    fn choose_slot(&mut self, now: Time) -> (r: (Vec<Event>, Action))
        requires
            old(self).wf(),
            old(self).stage is Plan,
            old(self).accepts(Input::Clock(now)),
        ensures
            final(self).wf(),
            final(self).shortest == old(self).shortest,
            old(self).steps(Input::Clock(now), *final(self), r.0@, r.1),
    {
        let mut events: Vec<Event> = Vec::new();
        if let Some(c) = self.feed.cadence {
            let slot = self.feed.plan(c, now);
            let fast = Feed::poll_interval(self.feed.cfg.poll_interval, self.shortest);
            events.push(
                Event::Waiting {
                    station: self.feed.station.clone(),
                    expected: slot.expected,
                    poll_from: slot.poll_from,
                    poll_every_s: fast.secs,
                },
            );
            self.stage = Stage::Look { slot, errors: 0 };
        }
        (events, Action::ReadClock)
    }

    fn look(&mut self, now: Time) -> (r: (Vec<Event>, Action))
        requires
            old(self).wf(),
            old(self).stage is Look,
            old(self).accepts(Input::Clock(now)),
        ensures
            final(self).wf(),
            final(self).shortest == old(self).shortest,
            old(self).steps(Input::Clock(now), *final(self), r.0@, r.1),
    {
        if let Stage::Look { slot, errors } = self.stage {
            let phase = slot.phase(now);
            if self.feed.polls(phase) {
                self.stage = Stage::Poll { slot, phase, errors };
                return (Vec::new(), Action::Fetch(self.feed.poll_window));
            }
            self.stage = Stage::Settle { slot, phase, errors };
        }
        (Vec::new(), Action::ReadClock)
    }

    fn take_polled(&mut self, rows: Vec<Row>, now: Time) -> (r: (Vec<Event>, Action))
        requires
            old(self).wf(),
            old(self).stage is Poll,
            old(self).accepts(Input::Rows(rows, now)),
        ensures
            final(self).wf(),
            final(self).shortest == old(self).shortest,
            old(self).steps(Input::Rows(rows, now), *final(self), r.0@, r.1),
    {
        let mut events: Vec<Event> = Vec::new();
        if let Stage::Poll { slot, phase, errors: _ } = self.stage {
            let (found, reported) = self.feed.ingest(rows, Some(slot.expected), now);
            events = reported;
            self.stage =
            if found {
                Stage::Plan
            } else {
                Stage::Settle { slot, phase, errors: 0 }
            };
        }
        (events, Action::ReadClock)
    }

    fn fail_polled(&mut self, error: String) -> (r: (Vec<Event>, Action))
        requires
            old(self).wf(),
            old(self).stage is Poll,
            old(self).accepts(Input::Failure(error)),
        ensures
            final(self).wf(),
            final(self).shortest == old(self).shortest,
            old(self).steps(Input::Failure(error), *final(self), r.0@, r.1),
    {
        let mut events: Vec<Event> = Vec::new();
        if let Stage::Poll { slot, phase, errors } = self.stage {
            events.push(self.feed.poll_failed(errors + 1, error.as_str()));
            self.stage = Stage::Settle { slot, phase, errors: errors + 1 };
        }
        (events, Action::ReadClock)
    }

    fn settle(&mut self, now: Time) -> (r: (Vec<Event>, Action))
        requires
            old(self).wf(),
            old(self).stage is Settle,
            old(self).accepts(Input::Clock(now)),
        ensures
            final(self).wf(),
            final(self).shortest == old(self).shortest,
            old(self).steps(Input::Clock(now), *final(self), r.0@, r.1),
    {
        let mut events: Vec<Event> = Vec::new();
        if let Stage::Settle { slot, phase, errors } = self.stage {
            if now.is_before(slot.deadline) {
                let wait = self.feed.wait(slot, phase, errors, self.shortest, now);
                proof {
                    crate::time::lemma_span_of_ns(wait);
                }
                self.stage = Stage::Look { slot, errors };
                return (events, Action::Sleep(wait));
            }
            events.push(
                Event::Missed { station: self.feed.station.clone(), expected: slot.expected },
            );
            self.stage = Stage::Plan;
        }
        (events, Action::ReadClock)
    }

    fn take_browsed(&mut self, rows: Vec<Row>, now: Time) -> (r: (Vec<Event>, Action))
        requires
            old(self).wf(),
            old(self).stage is Browse,
            old(self).accepts(Input::Rows(rows, now)),
        ensures
            final(self).wf(),
            final(self).shortest == old(self).shortest,
            old(self).steps(Input::Rows(rows, now), *final(self), r.0@, r.1),
    {
        let (_, reported) = self.feed.ingest(rows, None, now);
        self.stage = Stage::Rest { errors: 0 };
        let interval = Feed::poll_interval(self.feed.cfg.slow_interval, self.shortest);
        (reported, Action::Sleep(backoff(interval, 0)))
    }

    fn fail_browsed(&mut self, error: String) -> (r: (Vec<Event>, Action))
        requires
            old(self).wf(),
            old(self).stage is Browse,
            old(self).accepts(Input::Failure(error)),
        ensures
            final(self).wf(),
            final(self).shortest == old(self).shortest,
            old(self).steps(Input::Failure(error), *final(self), r.0@, r.1),
    {
        let mut events: Vec<Event> = Vec::new();
        let mut wait = self.shortest;
        if let Stage::Browse { errors } = self.stage {
            events.push(self.feed.poll_failed(errors + 1, error.as_str()));
            self.stage = Stage::Rest { errors: errors + 1 };
            let interval = Feed::poll_interval(self.feed.cfg.slow_interval, self.shortest);
            wait = backoff(interval, errors + 1);
            proof {
                crate::time::lemma_span_of_ns(wait);
            }
        }
        (events, Action::Sleep(wait))
    }

    /// Takes one input and answers with what to report and what to do next.
    pub fn step(&mut self, input: Input) -> (r: (Vec<Event>, Action))
        requires
            old(self).wf(),
            old(self).accepts(input),
        ensures
            final(self).wf(),
            final(self).shortest == old(self).shortest,
            old(self).steps(input, *final(self), r.0@, r.1),
    {
        match (self.stage, input) {
            (Stage::Plan, Input::Clock(now)) => self.choose_slot(now),
            (Stage::Look { .. }, Input::Clock(now)) => self.look(now),
            (Stage::Poll { .. }, Input::Rows(rows, now)) => self.take_polled(rows, now),
            (Stage::Poll { .. }, Input::Failure(error)) => self.fail_polled(error),
            (Stage::Settle { .. }, Input::Clock(now)) => self.settle(now),
            (Stage::Browse { .. }, Input::Rows(rows, now)) => self.take_browsed(rows, now),
            (Stage::Browse { .. }, Input::Failure(error)) => self.fail_browsed(error),
            (Stage::Rest { errors }, Input::Clock(_)) => {
                self.stage = Stage::Browse { errors };
                (Vec::new(), Action::Fetch(self.feed.poll_window))
            },
            _ => (Vec::new(), Action::ReadClock),
        }
    }
}

impl Feed {
    /// Starts polling: by the cadence where there is one, else at once.
    pub fn run(self, shortest: Span) -> (r: (Watch, Action))
        requires
            self.wf(),
            shortest.wf(),
        ensures
            r.0.wf(),
            r.0.feed == self,
            r.0.shortest == shortest,
            r.0.stage == if self.cadence is Some {
                Stage::Plan
            } else {
                Stage::Browse { errors: 0 }
            },
            r.1 == if self.cadence is Some {
                Action::ReadClock
            } else {
                Action::Fetch(self.poll_window)
            },
    {
        if self.cadence.is_some() {
            (Watch { feed: self, shortest, stage: Stage::Plan }, Action::ReadClock)
        } else {
            let window = self.poll_window;
            (
                Watch { feed: self, shortest, stage: Stage::Browse { errors: 0 } },
                Action::Fetch(window),
            )
        }
    }
}

} // verus!
