//! What holds of the polling for one slot, from the choice of the slot to that
//! of the next.

use vstd::prelude::*;

use crate::feed::{after_rows, all_reported, reported, slot_filled, Event, Feed, Memory, Row};
use crate::order::in_order;
use crate::schedule::{moved_later, Cadence};
use crate::time::{Span, Time};
use crate::watch::{Action, Input, Slot, Stage, Watch};

verus! {

/// One step of the polling.
pub struct Turn {
    pub before: Watch,
    pub input: Input,
    pub after: Watch,
    pub events: Seq<Event>,
    pub action: Action,
}

impl Turn {
    /// The machine took the input, and this is what came of it.
    pub open spec fn taken(self) -> bool {
        &&& self.before.wf()
        &&& self.before.accepts(self.input)
        &&& self.before.steps(self.input, self.after, self.events, self.action)
    }

    /// The step took rows of which one fills the slot.
    pub open spec fn fills(self, slot: Slot) -> bool {
        self.input matches Input::Rows(rows, now) && slot_filled(
            self.before.feed.memory(),
            in_order(rows@),
            Some(slot.expected),
            now,
        )
    }
}

/// The `i`th step begins where the one before it ended.
pub open spec fn goes_on(turns: Seq<Turn>, i: int) -> bool {
    turns[i].before == turns[i - 1].after
}

/// Steps that follow one another.
pub open spec fn run_on(turns: Seq<Turn>) -> bool {
    &&& forall|i: int| 0 <= i < turns.len() ==> #[trigger] turns[i].taken()
    &&& forall|i: int| 0 < i < turns.len() ==> #[trigger] goes_on(turns, i)
}

/// The steps of one slot: the first one chooses the slot, and none of the
/// others chooses another.
pub open spec fn of_one_slot(turns: Seq<Turn>) -> bool {
    &&& run_on(turns)
    &&& turns.len() > 0
    &&& turns[0].before.stage is Plan
    &&& forall|i: int| 0 < i < turns.len() ==> !((#[trigger] turns[i]).before.stage is Plan)
}

/// The cadence by which the slot is chosen.
pub open spec fn cadence_in(turns: Seq<Turn>) -> Cadence {
    turns[0].before.feed.cadence->0
}

/// The slot that the first step chooses.
pub open spec fn slot_in(turns: Seq<Turn>) -> Slot {
    turns[0].before.feed.slot_for(cadence_in(turns), turns[0].input->Clock_0)
}

/// The slot that a stage is about.
pub open spec fn slot_of(stage: Stage) -> Option<Slot> {
    match stage {
        Stage::Look { slot, .. } => Some(slot),
        Stage::Poll { slot, .. } => Some(slot),
        Stage::Settle { slot, .. } => Some(slot),
        _ => None,
    }
}

/// How many polls for a slot have failed in a row.
pub open spec fn errors_of(stage: Stage) -> u32 {
    match stage {
        Stage::Look { errors, .. } => errors,
        Stage::Poll { errors, .. } => errors,
        Stage::Settle { errors, .. } => errors,
        _ => 0,
    }
}

/// The slot, once chosen, stays the same, and so do the settings.
proof fn lemma_the_slot_stays(turns: Seq<Turn>, i: int)
    requires
        of_one_slot(turns),
        0 < i < turns.len(),
    ensures
        slot_of(turns[i].before.stage) == Some(slot_in(turns)),
        turns[i].before.feed.same_setting(turns[0].before.feed),
    decreases i,
{
    assert(goes_on(turns, i));
    assert(turns[i - 1].taken());
    if i > 1 {
        lemma_the_slot_stays(turns, i - 1);
    }
}

/// A batch reports new rows and corrections, and no slot as missed.
proof fn lemma_rows_tell_of_no_miss(
    station: String,
    m: Memory,
    rows: Seq<Row>,
    expected: Option<Time>,
    now: Time,
)
    ensures
        forall|k: int|
            0 <= k < all_reported(station, m, rows, expected, now).len() ==> !((
            #[trigger] all_reported(station, m, rows, expected, now)[k]) is Missed),
    decreases rows.len(),
{
    if rows.len() > 0 {
        let head = rows.drop_last();
        lemma_rows_tell_of_no_miss(station, m, head, expected, now);
        let a = all_reported(station, m, head, expected, now);
        let b = reported(station, after_rows(m, head, now), rows.last(), expected, now);
        assert(all_reported(station, m, rows, expected, now) == a + b);
    }
}

/// The slot is reported as missed in the `k`th event of the `i`th step.
pub open spec fn tells_miss(turns: Seq<Turn>, i: int, k: int) -> bool {
    &&& 0 <= i < turns.len()
    &&& 0 <= k < turns[i].events.len()
    &&& turns[i].events[k] is Missed
}

/// A step reports a miss only of its own slot, at or past the deadline, and
/// nothing else with it.
proof fn lemma_a_miss_comes_with_the_deadline(turn: Turn, k: int)
    requires
        turn.taken(),
        turn.before.stage is Plan || slot_of(turn.before.stage) is Some,
        0 <= k < turn.events.len(),
        turn.events[k] is Missed,
    ensures
        turn.before.stage is Settle,
        turn.input matches Input::Clock(now) && !now.precedes(
            slot_of(turn.before.stage)->0.deadline,
        ),
        turn.events[k] == (Event::Missed {
            station: turn.before.feed.station,
            expected: slot_of(turn.before.stage)->0.expected,
        }),
        turn.events.len() == 1,
        turn.after.stage is Plan,
{
    if let Input::Rows(rows, now) = turn.input {
        lemma_rows_tell_of_no_miss(
            turn.before.feed.station,
            turn.before.feed.memory(),
            in_order(rows@),
            Some(slot_of(turn.before.stage)->0.expected),
            now,
        );
    }
}

/// A slot is reported as missed only once its deadline has come, which is when
/// polling would start for the next slot; only if no poll brought a new row at
/// or after the expected time; and with that the slot is over.
pub proof fn law_a_miss_ends_the_slot(turns: Seq<Turn>, i: int, k: int)
    requires
        of_one_slot(turns),
        tells_miss(turns, i, k),
    ensures
        ({
            let slot = slot_in(turns);
            let first = turns[0].before.feed;
            &&& turns[i].events[k] == Event::Missed {
                station: first.station,
                expected: slot.expected,
            }
            &&& turns[i].input matches Input::Clock(now) && !now.precedes(slot.deadline)
            &&& slot.deadline == moved_later(
                cadence_in(turns).next(slot.expected),
                first.start(),
            )
            &&& forall|j: int| 0 <= j < turns.len() ==> !(#[trigger] turns[j]).fills(slot)
            &&& i == turns.len() - 1
            &&& turns[i].events.len() == 1
        }),
{
    let slot = slot_in(turns);
    assert(turns[i].taken());
    if i > 0 {
        lemma_the_slot_stays(turns, i);
    }
    lemma_a_miss_comes_with_the_deadline(turns[i], k);
    assert(i > 0);
    if i + 1 < turns.len() {
        assert(goes_on(turns, i + 1));
    }
    assert forall|j: int| 0 <= j < turns.len() implies !(#[trigger] turns[j]).fills(slot) by {
        if turns[j].fills(slot) {
            law_a_filled_slot_is_over(turns, j);
        }
    }
}

/// A slot is reported as missed at most once.
pub proof fn law_a_slot_is_missed_at_most_once(turns: Seq<Turn>, i: int, k: int, j: int, l: int)
    requires
        of_one_slot(turns),
        tells_miss(turns, i, k),
        tells_miss(turns, j, l),
    ensures
        i == j,
        k == l,
{
    law_a_miss_ends_the_slot(turns, i, k);
    law_a_miss_ends_the_slot(turns, j, l);
}

/// Once a new row at or after the expected time has come, the slot is over, and
/// it is not reported as missed.
pub proof fn law_a_filled_slot_is_over(turns: Seq<Turn>, j: int)
    requires
        of_one_slot(turns),
        0 <= j < turns.len(),
        turns[j].fills(slot_in(turns)),
    ensures
        j == turns.len() - 1,
        turns[j].after.stage is Plan,
        forall|k: int|
            0 <= k < turns[j].events.len() ==> !((#[trigger] turns[j].events[k]) is Missed),
{
    let slot = slot_in(turns);
    assert(turns[0].taken());
    assert(turns[j].taken());
    if j > 0 {
        lemma_the_slot_stays(turns, j);
    }
    if j + 1 < turns.len() {
        assert(goes_on(turns, j + 1));
    }
    if let Input::Rows(rows, now) = turns[j].input {
        lemma_rows_tell_of_no_miss(
            turns[j].before.feed.station,
            turns[j].before.feed.memory(),
            in_order(rows@),
            Some(slot.expected),
            now,
        );
    }
}

/// No poll fails.
pub open spec fn without_failure(turns: Seq<Turn>) -> bool {
    forall|i: int| 0 <= i < turns.len() ==> !((#[trigger] turns[i]).input is Failure)
}

/// Without a failed poll there are no errors to count.
proof fn lemma_no_errors(turns: Seq<Turn>, i: int)
    requires
        of_one_slot(turns),
        without_failure(turns),
        0 < i < turns.len(),
    ensures
        errors_of(turns[i].before.stage) == 0,
    decreases i,
{
    assert(goes_on(turns, i));
    assert(turns[i - 1].taken());
    if i > 1 {
        lemma_no_errors(turns, i - 1);
        lemma_the_slot_stays(turns, i - 1);
    }
}

/// Without background polls, nothing is fetched for a slot before polling
/// starts.
pub proof fn law_no_fetch_before_polling_starts(turns: Seq<Turn>, i: int)
    requires
        of_one_slot(turns),
        turns[0].before.feed.cfg.idle_poll is None,
        0 <= i < turns.len(),
        turns[i].action is Fetch,
    ensures
        i > 0,
        turns[i].action == Action::Fetch(turns[0].before.feed.poll_window),
        turns[i].input matches Input::Clock(now) && !now.precedes(slot_in(turns).poll_from),
{
    assert(turns[i].taken());
    if i > 0 {
        lemma_the_slot_stays(turns, i);
    }
}

/// The wait after a fetch that began at `begun`, in nanoseconds: that of fast
/// polling while the slot is in its fast window, else that of slow polling,
/// cut at the deadline.
pub open spec fn wait_after(feed: Feed, slot: Slot, begun: Time, shortest: Span, now: Time) -> nat {
    let every = if begun.precedes(slot.fast_until) {
        Feed::raised(feed.cfg.poll_interval, shortest)
    } else {
        Feed::raised(feed.cfg.slow_interval, shortest)
    };
    if every.ns() <= Feed::left_ns(slot.deadline, now) {
        every.ns()
    } else {
        Feed::left_ns(slot.deadline, now)
    }
}

/// Without background polls and failures, a fetch is followed by its rows.
/// Where these do not end the slot, and the deadline has not come, a wait
/// follows: the fast interval after a fetch that began within the fast window,
/// the slow interval after a later one, each cut at the deadline. The fast
/// window is as long after the expected time as it was when the slot was
/// chosen.
pub proof fn law_waits_go_by_when_the_fetch_began(turns: Seq<Turn>, i: int)
    requires
        of_one_slot(turns),
        without_failure(turns),
        turns[0].before.feed.cfg.idle_poll is None,
        0 <= i < turns.len(),
        turns[i].action is Fetch,
    ensures
        ({
            let slot = slot_in(turns);
            let first = turns[0].before.feed;
            &&& slot.fast_until == moved_later(slot.expected, first.fast())
            &&& i + 1 < turns.len() ==> turns[i + 1].input is Rows
            &&& i + 1 < turns.len() && !turns[i + 1].fills(slot) ==> turns[i + 1].action
                == Action::ReadClock
            &&& i + 2 < turns.len() ==> {
                &&& turns[i + 2].input is Clock
                &&& ({
                    let begun = turns[i].input->Clock_0;
                    let now = turns[i + 2].input->Clock_0;
                    now.precedes(slot.deadline) ==> turns[i + 2].action == Action::Sleep(
                        Span::of_ns(
                            wait_after(first, slot, begun, turns[i + 2].before.shortest, now),
                        ),
                    )
                })
            }
        }),
{
    let slot = slot_in(turns);
    law_no_fetch_before_polling_starts(turns, i);
    lemma_the_slot_stays(turns, i);
    lemma_no_errors(turns, i);
    assert(turns[i].taken());
    if i + 1 < turns.len() {
        assert(turns[i + 1].taken());
        assert(goes_on(turns, i + 1));
        lemma_the_slot_stays(turns, i + 1);
        assert(!(turns[i + 1].input is Failure));
        if i + 2 < turns.len() {
            assert(turns[i + 2].taken());
            assert(goes_on(turns, i + 2));
            lemma_the_slot_stays(turns, i + 2);
            lemma_no_errors(turns, i + 2);
        }
    }
}

} // verus!
