//! The rows already reported, by observation time.

use vstd::prelude::*;

use crate::time::Time;

verus! {

struct Sighting {
    time: Time,
    fingerprint: String,
}

/// Observation time and content fingerprint of every row already reported.
pub struct Seen {
    entries: Vec<Sighting>,
}

/// `t` is the time of some entry.
spec fn listed(entries: Seq<Sighting>, t: Time) -> bool {
    exists|i: int| 0 <= i < entries.len() && (#[trigger] entries[i]).time == t
}

/// Where the entry for `t` stands.
spec fn place(entries: Seq<Sighting>, t: Time) -> int {
    choose|i: int| 0 <= i < entries.len() && (#[trigger] entries[i]).time == t
}

/// No time has two entries.
spec fn distinct(entries: Seq<Sighting>) -> bool {
    forall|i: int, j: int|
        0 <= i < j < entries.len() ==> (#[trigger] entries[i]).time != (#[trigger] entries[j]).time
}

/// `x` is among the first `n` entries.
spec fn among(entries: Seq<Sighting>, n: int, x: Sighting) -> bool {
    exists|i: int| 0 <= i < n && #[trigger] entries[i] == x
}

impl View for Seen {
    type V = Map<Time, Seq<char>>;

    closed spec fn view(&self) -> Map<Time, Seq<char>> {
        Map::new(
            |t: Time| listed(self.entries@, t),
            |t: Time| self.entries@[place(self.entries@, t)].fingerprint@,
        )
    }
}

/// `t` does not come before `horizon`, or is one of the times in `spared`.
pub open spec fn stays(t: Time, horizon: Time, spared: Seq<Time>) -> bool {
    !t.precedes(horizon) || spared.contains(t)
}

/// Whether `times` lists `t`.
fn lists(times: &Vec<Time>, t: Time) -> (r: bool)
    ensures
        r == times@.contains(t),
{
    let mut i: usize = 0;
    while i < times.len()
        invariant
            i <= times@.len(),
            forall|k: int| 0 <= k < i ==> times@[k] != t,
        decreases times@.len() - i,
    {
        if times[i] == t {
            assert(times@[i as int] == t);
            return true;
        }
        i += 1;
    }
    false
}

impl Seen {
    /// No observation time is listed twice.
    pub closed spec fn wf(&self) -> bool {
        distinct(self.entries@)
    }

    proof fn lemma_entry(&self, i: int)
        requires
            self.wf(),
            0 <= i < self.entries@.len(),
        ensures
            self@.contains_key(self.entries@[i].time),
            self@[self.entries@[i].time] == self.entries@[i].fingerprint@,
    {
        let t = self.entries@[i].time;
        assert(listed(self.entries@, t));
        let k = place(self.entries@, t);
        assert(self.entries@[k].time == t);
        if k < i {
            assert(self.entries@[k].time != self.entries@[i].time);
        }
        if i < k {
            assert(self.entries@[i].time != self.entries@[k].time);
        }
    }

    /// Nothing reported yet.
    pub fn new() -> (r: Seen)
        ensures
            r.wf(),
            r@ == Map::<Time, Seq<char>>::empty(),
    {
        let r = Seen { entries: Vec::new() };
        assert(r@ =~= Map::<Time, Seq<char>>::empty());
        r
    }

    fn find(&self, t: Time) -> (r: Option<usize>)
        requires
            self.wf(),
        ensures
            match r {
                Some(i) => i < self.entries@.len() && self.entries@[i as int].time == t,
                None => !listed(self.entries@, t),
            },
    {
        let mut i: usize = 0;
        while i < self.entries.len()
            invariant
                i <= self.entries@.len(),
                forall|j: int| 0 <= j < i ==> (#[trigger] self.entries@[j]).time != t,
            decreases self.entries@.len() - i,
        {
            if self.entries[i].time == t {
                return Some(i);
            }
            i += 1;
        }
        None
    }

    /// The fingerprint of the row reported for `t`.
    pub fn get(&self, t: Time) -> (r: Option<&String>)
        requires
            self.wf(),
        ensures
            match r {
                Some(f) => self@.contains_key(t) && f@ == self@[t],
                None => !self@.contains_key(t),
            },
    {
        match self.find(t) {
            Some(i) => {
                proof {
                    self.lemma_entry(i as int);
                }
                Some(&self.entries[i].fingerprint)
            },
            None => None,
        }
    }

    /// Records the row reported for `t`, in place of any earlier one.
    pub fn insert(&mut self, t: Time, fingerprint: String)
        requires
            old(self).wf(),
        ensures
            final(self).wf(),
            final(self)@ == old(self)@.insert(t, fingerprint@),
    {
        let ghost before = *self;
        match self.find(t) {
            Some(i) => {
                self.entries.set(i, Sighting { time: t, fingerprint });
                proof {
                    assert forall|u: Time| #[trigger]
                        self@.contains_key(u) == before@.insert(t, fingerprint@).contains_key(u) by {
                        if listed(before.entries@, u) {
                            let k = place(before.entries@, u);
                            assert(self.entries@[k].time == u);
                        }
                        if listed(self.entries@, u) {
                            let k = place(self.entries@, u);
                            assert(before.entries@[k].time == u);
                        }
                    }
                    assert(distinct(self.entries@)) by {
                        assert forall|a: int, b: int| 0 <= a < b < self.entries@.len() implies (
                        #[trigger] self.entries@[a]).time != (#[trigger] self.entries@[b]).time by {
                            assert(before.entries@[a].time != before.entries@[b].time);
                        }
                    }
                    assert forall|u: Time| #[trigger] self@.contains_key(u) implies self@[u]
                        == before@.insert(t, fingerprint@)[u] by {
                        let k = place(self.entries@, u);
                        self.lemma_entry(k);
                        if k != i {
                            before.lemma_entry(k);
                            assert(self.entries@[k].time != self.entries@[i as int].time);
                        }
                    }
                    assert(self@ =~= before@.insert(t, fingerprint@));
                }
            },
            None => {
                self.entries.push(Sighting { time: t, fingerprint });
                proof {
                    let n = before.entries@.len() as int;
                    assert(distinct(self.entries@)) by {
                        assert forall|a: int, b: int| 0 <= a < b < self.entries@.len() implies (
                        #[trigger] self.entries@[a]).time != (#[trigger] self.entries@[b]).time by {
                            if b < n {
                                assert(before.entries@[a].time != before.entries@[b].time);
                            } else {
                                assert(before.entries@[a].time == self.entries@[a].time);
                            }
                        }
                    }
                    assert forall|u: Time| #[trigger]
                        self@.contains_key(u) == before@.insert(t, fingerprint@).contains_key(u) by {
                        if listed(before.entries@, u) {
                            let k = place(before.entries@, u);
                            assert(self.entries@[k].time == u);
                        }
                        if u == t {
                            assert(self.entries@[n].time == u);
                        }
                        if listed(self.entries@, u) {
                            let k = place(self.entries@, u);
                            if k < n {
                                assert(before.entries@[k].time == u);
                            }
                        }
                    }
                    assert forall|u: Time| #[trigger] self@.contains_key(u) implies self@[u]
                        == before@.insert(t, fingerprint@)[u] by {
                        let k = place(self.entries@, u);
                        self.lemma_entry(k);
                        if k < n {
                            before.lemma_entry(k);
                        }
                    }
                    assert(self@ =~= before@.insert(t, fingerprint@));
                }
            },
        }
    }

    /// What is left of a record when everything before `horizon` is forgotten
    /// but the times in `spared`.
    pub open spec fn kept_from(
        m: Map<Time, Seq<char>>,
        horizon: Time,
        spared: Seq<Time>,
    ) -> Map<Time, Seq<char>> {
        Map::new(|t: Time| m.contains_key(t) && stays(t, horizon, spared), |t: Time| m[t])
    }

    /// Forgets every row from before `horizon` but those of the times in
    /// `spared`.
    pub fn keep_from(&mut self, horizon: Time, spared: &Vec<Time>)
        requires
            old(self).wf(),
        ensures
            final(self).wf(),
            final(self)@ == Self::kept_from(old(self)@, horizon, spared@),
    {
        let ghost before = *self;
        let mut kept: Vec<Sighting> = Vec::new();
        let mut rest: Vec<Sighting> = Vec::new();
        std::mem::swap(&mut rest, &mut self.entries);
        for entry in it: rest
            invariant
                it.seq() == before.entries@,
                before.wf(),
                distinct(kept@),
                forall|k: int|
                    0 <= k < kept@.len() ==> among(
                        before.entries@,
                        it.index() as int,
                        #[trigger] kept@[k],
                    ),
                forall|k: int|
                    0 <= k < kept@.len() ==> stays((#[trigger] kept@[k]).time, horizon, spared@),
                forall|i: int|
                    0 <= i < it.index() && stays(
                        (#[trigger] before.entries@[i]).time,
                        horizon,
                        spared@,
                    ) ==> kept@.contains(before.entries@[i]),
        {
            let ghost n = it.index() as int;
            let ghost had = kept@;
            if !entry.time.is_before(horizon) || lists(spared, entry.time) {
                kept.push(entry);
                proof {
                    assert(kept@[had.len() as int] == before.entries@[n]);
                    assert forall|a: int, b: int| 0 <= a < b < kept@.len() implies (
                    #[trigger] kept@[a]).time != (#[trigger] kept@[b]).time by {
                        if b == had.len() {
                            assert(had[a] == kept@[a]);
                            assert(among(before.entries@, n, had[a]));
                            let i = choose|i: int|
                                0 <= i < n && #[trigger] before.entries@[i] == had[a];
                            assert(before.entries@[i].time != before.entries@[n].time);
                        } else {
                            assert(had[a] == kept@[a] && had[b] == kept@[b]);
                        }
                    }
                    assert forall|k: int| 0 <= k < kept@.len() implies among(
                        before.entries@,
                        n + 1,
                        #[trigger] kept@[k],
                    ) by {
                        if k < had.len() {
                            assert(had[k] == kept@[k]);
                            assert(among(before.entries@, n, had[k]));
                            let i = choose|i: int|
                                0 <= i < n && #[trigger] before.entries@[i] == had[k];
                            assert(before.entries@[i] == kept@[k]);
                        }
                    }
                    assert forall|i: int|
                        0 <= i < n + 1 && stays(
                            (#[trigger] before.entries@[i]).time,
                            horizon,
                            spared@,
                        ) implies kept@.contains(before.entries@[i]) by {
                        if i < n {
                            let k = choose|k: int|
                                0 <= k < had.len() && had[k] == before.entries@[i];
                            assert(kept@[k] == before.entries@[i]);
                        }
                    }
                }
            } else {
                proof {
                    assert forall|k: int| 0 <= k < kept@.len() implies among(
                        before.entries@,
                        n + 1,
                        #[trigger] kept@[k],
                    ) by {
                        assert(among(before.entries@, n, had[k]));
                        let i = choose|i: int|
                            0 <= i < n && #[trigger] before.entries@[i] == had[k];
                        assert(before.entries@[i] == kept@[k]);
                    }
                }
            }
        }
        self.entries = kept;
        proof {
            assert forall|u: Time| #[trigger]
                self@.contains_key(u) == Self::kept_from(before@, horizon, spared@).contains_key(u) by {
                if self@.contains_key(u) {
                    let k = place(self.entries@, u);
                    assert(among(before.entries@, before.entries@.len() as int, self.entries@[k]));
                    let i = choose|i: int|
                        0 <= i < before.entries@.len() && #[trigger] before.entries@[i]
                            == self.entries@[k];
                    before.lemma_entry(i);
                }
                if Self::kept_from(before@, horizon, spared@).contains_key(u) {
                    let i = place(before.entries@, u);
                    assert(self.entries@.contains(before.entries@[i]));
                    let k = choose|k: int|
                        0 <= k < self.entries@.len() && self.entries@[k] == before.entries@[i];
                    assert(self.entries@[k].time == u);
                }
            }
            assert forall|u: Time| #[trigger] self@.contains_key(u) implies self@[u]
                == Self::kept_from(before@, horizon, spared@)[u] by {
                let k = place(self.entries@, u);
                assert(among(before.entries@, before.entries@.len() as int, self.entries@[k]));
                let i = choose|i: int|
                    0 <= i < before.entries@.len() && #[trigger] before.entries@[i]
                        == self.entries@[k];
                before.lemma_entry(i);
                self.lemma_entry(k);
            }
            assert(self@ =~= Self::kept_from(before@, horizon, spared@));
        }
    }
}

} // verus!
