//! What the polling does in each stage, and how long it waits.

use vstd::prelude::*;

use crate::feed::{backoff_ns, Event, Feed, Row};
use crate::laws::reports::no_earlier;
use crate::time::{Span, Time};
use crate::watch::{Action, Input, Phase, Slot, Stage, Watch};

verus! {

/// The length of a span in nanoseconds.
pub open spec fn length(d: Span) -> int {
    d.secs * 1_000_000_000 + d.nanos
}

/// Nanoseconds from `now` to `t`, and none once it has passed.
pub open spec fn time_left(t: Time, now: Time) -> int {
    let ns = (t.secs - now.secs) * 1_000_000_000 + t.nanos - now.nanos;
    if ns > 0 {
        ns
    } else {
        0
    }
}

/// An instant outside any leap second.
pub open spec fn plain_time(t: Time) -> bool {
    t.wf() && t.nanos < 1_000_000_000
}

/// Nothing is polled for before polling starts; then polling is fast until the
/// fast window ends, and slow from there on.
pub proof fn law_the_phase_goes_by_the_clock(slot: Slot, now: Time)
    ensures
        slot.phase_at(now) is Idle <==> !no_earlier(now, slot.poll_from),
        slot.phase_at(now) is Fast <==> no_earlier(now, slot.poll_from) && !no_earlier(
            now,
            slot.fast_until,
        ),
        slot.phase_at(now) is Slow <==> no_earlier(now, slot.poll_from) && no_earlier(
            now,
            slot.fast_until,
        ),
{
}

/// An interval is the longer one of what is configured and what is of use.
pub proof fn law_intervals_are_raised(configured: Span, shortest: Span)
    ensures
        length(Feed::raised(configured, shortest)) >= length(configured),
        length(Feed::raised(configured, shortest)) >= length(shortest),
        Feed::raised(configured, shortest) == configured || Feed::raised(configured, shortest)
            == shortest,
{
}

/// Between polls, the wait is the fast interval while polling is fast and the
/// slow one while it is slow. Before polling starts it lasts until then, or for
/// the background interval where that is shorter.
pub proof fn law_pauses_go_by_the_phase(feed: Feed, slot: Slot, shortest: Span, now: Time)
    requires
        feed.wf(),
        slot.wf(),
        plain_time(now),
        plain_time(slot.poll_from),
        shortest.wf(),
    ensures
        feed.pause(slot, Phase::Fast, shortest, now) == Feed::raised(
            feed.cfg.poll_interval,
            shortest,
        ),
        feed.pause(slot, Phase::Slow, shortest, now) == Feed::raised(
            feed.cfg.slow_interval,
            shortest,
        ),
        feed.cfg.idle_poll is None ==> length(feed.pause(slot, Phase::Idle, shortest, now))
            == time_left(slot.poll_from, now),
        feed.cfg.idle_poll matches Some(d) ==> length(feed.pause(slot, Phase::Idle, shortest, now))
            == if length(d) <= time_left(slot.poll_from, now) {
            length(d)
        } else {
            time_left(slot.poll_from, now)
        },
{
    assert(crate::time::elapsed_ns(slot.poll_from, now) == (slot.poll_from.secs - now.secs)
        * 1_000_000_000 + slot.poll_from.nanos - now.nanos);
}

/// A wait is the pause, grown after errors, but never longer than what is left
/// until the deadline.
pub proof fn law_waits_are_cut_at_the_deadline(
    feed: Feed,
    slot: Slot,
    phase: Phase,
    errors: u32,
    shortest: Span,
    now: Time,
)
    requires
        plain_time(now),
        plain_time(slot.deadline),
    ensures
        ({
            let grown = backoff_ns(feed.pause(slot, phase, shortest, now), errors);
            let wait = feed.wait_ns(slot, phase, errors, shortest, now);
            &&& wait <= grown
            &&& wait <= time_left(slot.deadline, now)
            &&& wait == grown || wait == time_left(slot.deadline, now)
        }),
{
}

/// A poll is made in every phase but the idle one, and in that one too where
/// there is a background interval.
pub proof fn law_idle_polls_are_asked_for(feed: Feed)
    ensures
        feed.polls_in(Phase::Fast),
        feed.polls_in(Phase::Slow),
        feed.polls_in(Phase::Idle) <==> feed.cfg.idle_poll is Some,
{
}

/// The choice of a slot is told with its own times and with the fast interval
/// in whole seconds.
pub proof fn law_a_slot_is_announced(
    w: Watch,
    input: Input,
    after: Watch,
    told: Seq<Event>,
    a: Action,
)
    requires
        w.stage is Plan,
        w.steps(input, after, told, a),
    ensures
        a == Action::ReadClock,
        after.feed == w.feed,
        after.stage matches Stage::Look { slot, errors } && errors == 0 && told.len() == 1 && (
        told[0] matches Event::Waiting { station, expected, poll_from, poll_every_s } && station
            == w.feed.station && expected == slot.expected && poll_from == slot.poll_from
            && poll_every_s == Feed::raised(w.feed.cfg.poll_interval, w.shortest).secs),
{
}

/// A failed poll is told, counts as one more error, and changes nothing that is
/// known. One that succeeds clears the count.
pub proof fn law_errors_are_counted_in_a_row(
    w: Watch,
    input: Input,
    after: Watch,
    told: Seq<Event>,
    a: Action,
)
    requires
        w.accepts(input),
        w.steps(input, after, told, a),
    ensures
        w.stage matches Stage::Poll { slot, phase, errors } ==> (input is Failure ==> after.feed
            == w.feed && told.len() == 1 && told[0] is Error && after.stage == (Stage::Settle {
            slot,
            phase,
            errors: (errors + 1) as u32,
        })),
        w.stage matches Stage::Poll { slot, phase, .. } ==> (input is Rows ==> after.stage is Plan
            || after.stage == (Stage::Settle { slot, phase, errors: 0 })),
        w.stage matches Stage::Browse { errors } ==> (input is Failure ==> after.feed == w.feed
            && told.len() == 1 && told[0] is Error && after.stage == (Stage::Rest {
            errors: (errors + 1) as u32,
        })),
        w.stage is Browse && input is Rows ==> after.stage == (Stage::Rest { errors: 0 }),
{
}

/// Without a schedule, a poll is followed by a wait of the slow interval, grown
/// after errors, and a wait is followed by a poll of the whole window.
pub proof fn law_polling_without_a_schedule_goes_on(
    w: Watch,
    input: Input,
    after: Watch,
    told: Seq<Event>,
    a: Action,
)
    requires
        w.accepts(input),
        w.steps(input, after, told, a),
    ensures
        w.stage is Browse && input is Rows ==> a == Action::Sleep(
            Feed::raised(w.feed.cfg.slow_interval, w.shortest),
        ),
        w.stage matches Stage::Browse { errors } ==> (input is Failure ==> a == Action::Sleep(
            Span::of_ns(
                backoff_ns(
                    Feed::raised(w.feed.cfg.slow_interval, w.shortest),
                    (errors + 1) as u32,
                ),
            ),
        )),
        w.stage matches Stage::Rest { errors } ==> a == Action::Fetch(w.feed.poll_window)
            && after.stage == (Stage::Browse { errors }) && after.feed == w.feed && told.len() == 0,
{
}

/// A batch leaves the lags and the latest time as its rows, in order of time,
/// make them; forgetting touches neither.
pub proof fn law_forgetting_keeps_what_was_learned(feed: Feed, rows: Seq<Row>, now: Time)
    ensures
        ({
            let kept = feed.memory_after(rows, now);
            let all = crate::feed::after_rows(feed.memory(), crate::order::in_order(rows), now);
            &&& kept.lag == all.lag
            &&& kept.last_time == all.last_time
            &&& forall|t: Time| #[trigger]
                kept.seen.contains_key(t) ==> all.seen.contains_key(t) && kept.seen[t]
                    == all.seen[t]
        }),
{
}

} // verus!
