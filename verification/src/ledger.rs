//! The availability ledger: an open period for the link's current state and
//! two chronological histories of closed periods, with derived statistics.
//!
//! Time is carried as whole seconds on a single monotone axis (`now`
//! parameters). The open period is the trailing entry of the history that
//! matches the current state, so the live and the finalized duration share
//! one code path.

use vstd::prelude::*;
use crate::duration::{duration_display, format_duration};
use crate::datefmt::{date_display, fmt_timestamp};

verus! {

/// One contiguous span the link spent in a single state: its start instant
/// (seconds) and, once finalized, its frozen length in seconds.
#[derive(Clone, Copy, Debug)]
pub struct Period {
    pub start: u64,
    pub closed_len: Option<u64>,
}

/// The length of a period as read at instant `now`: the frozen length once
/// closed, the live `now - start` while open.
pub open spec fn period_elapsed(p: Period, now: int) -> int {
    match p.closed_len {
        Option::Some(l) => l as int,
        Option::None => now - p.start,
    }
}

/// Every period of the sequence has been finalized.
pub open spec fn all_closed(s: Seq<Period>) -> bool {
    forall|i: int| 0 <= i < s.len() ==> s[i].closed_len is Some
}

/// Sum of the elapsed lengths of a sequence of periods, read at `now`.
pub open spec fn sum_elapsed(s: Seq<Period>, now: int) -> int
    decreases s.len(),
{
    if s.len() == 0 {
        0
    } else {
        sum_elapsed(s.drop_last(), now) + period_elapsed(s.last(), now)
    }
}

/// The longest elapsed length in a sequence of periods, read at `now`;
/// zero for an empty sequence.
pub open spec fn max_elapsed(s: Seq<Period>, now: int) -> int
    decreases s.len(),
{
    if s.len() == 0 {
        0
    } else {
        let m = max_elapsed(s.drop_last(), now);
        let e = period_elapsed(s.last(), now);
        if e > m {
            e
        } else {
            m
        }
    }
}

impl Period {
    /// Opens a period starting at `now`.
    pub fn new(now: u64) -> (p: Period)
        ensures
            p == (Period { start: now, closed_len: None }),
    {
        Period { start: now, closed_len: None }
    }

    /// Closes the period at `now`, freezing its length; callable exactly once
    /// per period.
    pub fn finalize(&mut self, now: u64)
        requires
            old(self).closed_len is None,
            now >= old(self).start,
        ensures
            *final(self) == (Period {
                start: old(self).start,
                closed_len: Some((now - old(self).start) as u64),
            }),
    {
        self.closed_len = Some(now - self.start);
    }

    /// The period's length in seconds as read at `now`.
    pub fn elapsed(&self, now: u64) -> (r: u64)
        requires
            self.closed_len is None ==> now >= self.start,
        ensures
            r as int == period_elapsed(*self, now as int),
    {
        match self.closed_len {
            Some(l) => l,
            None => now - self.start,
        }
    }

    /// The calendar rendering of the period's start instant.
    pub fn date(&self) -> (r: String)
        ensures
            r@ == date_display(self.start),
    {
        fmt_timestamp(self.start)
    }
}

/// The availability ledger. The trailing entry of `uptimes` (when up) or of
/// `downtimes` (when down) is the one open period; every other period is
/// closed, and the closed periods tile the time axis from `start` to the open
/// period's start without gap or overlap.
pub struct TimeTracker {
    pub start: u64,
    pub up: bool,
    pub uptimes: Vec<Period>,
    pub downtimes: Vec<Period>,
}

impl TimeTracker {
    /// The history holding the open period.
    pub open spec fn active(self) -> Seq<Period> {
        if self.up {
            self.uptimes@
        } else {
            self.downtimes@
        }
    }

    /// The history whose periods are all closed.
    pub open spec fn passive(self) -> Seq<Period> {
        if self.up {
            self.downtimes@
        } else {
            self.uptimes@
        }
    }

    /// Start instant of the open period: the moment of the last transition
    /// (or of construction).
    pub open spec fn open_start(self) -> int {
        self.active().last().start as int
    }

    /// Well-formedness: one open period at the tail of the active history,
    /// balanced history lengths, and closed periods that sum to exactly the
    /// time between construction and the last transition.
    pub open spec fn wf(self) -> bool {
        &&& self.uptimes@.len() >= 1
        &&& (if self.up {
            self.uptimes@.len() == self.downtimes@.len() + 1
        } else {
            self.uptimes@.len() == self.downtimes@.len()
        })
        &&& self.active().len() >= 1
        &&& self.active().last().closed_len is None
        &&& all_closed(self.active().drop_last())
        &&& all_closed(self.passive())
        &&& self.start <= self.open_start()
        &&& sum_elapsed(self.active().drop_last(), self.open_start()) + sum_elapsed(
            self.passive(),
            self.open_start(),
        ) == self.open_start() - self.start
    }

    /// Seconds the link has been up in total, as read at `now`.
    pub open spec fn total_up(self, now: int) -> int {
        sum_elapsed(self.uptimes@, now)
    }

    /// Seconds the link has been down in total, as read at `now`.
    pub open spec fn total_down(self, now: int) -> int {
        sum_elapsed(self.downtimes@, now)
    }

    /// Live length of the open uptime period, zero while down.
    pub open spec fn current_up(self, now: int) -> int {
        if self.up {
            now - self.open_start()
        } else {
            0
        }
    }

    /// Live length of the open downtime period, zero while up.
    pub open spec fn current_down(self, now: int) -> int {
        if self.up {
            0
        } else {
            now - self.open_start()
        }
    }
}

proof fn lemma_all_closed_drop_last(s: Seq<Period>)
    requires
        all_closed(s),
        s.len() >= 1,
    ensures
        all_closed(s.drop_last()),
{
    assert forall|i: int| 0 <= i < s.drop_last().len() implies s.drop_last()[i].closed_len
        is Some by {
        assert(s.drop_last()[i] == s[i]);
    }
}

/// A sum over closed periods does not depend on when it is read.
proof fn lemma_sum_all_closed(s: Seq<Period>, n1: int, n2: int)
    requires
        all_closed(s),
    ensures
        sum_elapsed(s, n1) == sum_elapsed(s, n2),
    decreases s.len(),
{
    if s.len() > 0 {
        lemma_all_closed_drop_last(s);
        lemma_sum_all_closed(s.drop_last(), n1, n2);
        assert(s.last().closed_len is Some);
    }
}

proof fn lemma_sum_push(s: Seq<Period>, p: Period, now: int)
    ensures
        sum_elapsed(s.push(p), now) == sum_elapsed(s, now) + period_elapsed(p, now),
{
    assert(s.push(p).drop_last() =~= s);
    assert(s.push(p).last() == p);
}

proof fn lemma_sum_nonneg(s: Seq<Period>, now: int)
    requires
        forall|i: int| 0 <= i < s.len() ==> period_elapsed(s[i], now) >= 0,
    ensures
        sum_elapsed(s, now) >= 0,
    decreases s.len(),
{
    if s.len() > 0 {
        assert forall|i: int| 0 <= i < s.drop_last().len() implies period_elapsed(
            s.drop_last()[i],
            now,
        ) >= 0 by {
            assert(s.drop_last()[i] == s[i]);
        }
        lemma_sum_nonneg(s.drop_last(), now);
        assert(period_elapsed(s.last(), now) >= 0);
    }
}

proof fn lemma_sum_take_succ(s: Seq<Period>, now: int, i: int)
    requires
        0 <= i < s.len(),
    ensures
        sum_elapsed(s.take(i + 1), now) == sum_elapsed(s.take(i), now) + period_elapsed(
            s[i],
            now,
        ),
{
    assert(s.take(i + 1).drop_last() =~= s.take(i));
    assert(s.take(i + 1).last() == s[i]);
}

proof fn lemma_sum_take_le(s: Seq<Period>, now: int, i: int)
    requires
        0 <= i <= s.len(),
        forall|j: int| 0 <= j < s.len() ==> period_elapsed(s[j], now) >= 0,
    ensures
        sum_elapsed(s.take(i), now) <= sum_elapsed(s, now),
    decreases s.len() - i,
{
    if i < s.len() {
        lemma_sum_take_succ(s, now, i);
        lemma_sum_take_le(s, now, i + 1);
    } else {
        assert(s.take(i) =~= s);
    }
}

proof fn lemma_max_take_succ(s: Seq<Period>, now: int, i: int)
    requires
        0 <= i < s.len(),
    ensures
        max_elapsed(s.take(i + 1), now) == (if period_elapsed(s[i], now) > max_elapsed(
            s.take(i),
            now,
        ) {
            period_elapsed(s[i], now)
        } else {
            max_elapsed(s.take(i), now)
        }),
{
    assert(s.take(i + 1).drop_last() =~= s.take(i));
    assert(s.take(i + 1).last() == s[i]);
}

/// The longest period of a history is at least as long as each of its
/// members, the open one included.
pub proof fn lemma_max_elapsed_ge(s: Seq<Period>, now: int, i: int)
    requires
        0 <= i < s.len(),
    ensures
        max_elapsed(s, now) >= period_elapsed(s[i], now),
    decreases s.len(),
{
    if i == s.len() - 1 {
        assert(s.last() == s[i]);
    } else {
        lemma_max_elapsed_ge(s.drop_last(), now, i);
        assert(s.drop_last()[i] == s[i]);
    }
}

/// Every instant since construction is accounted to exactly one of the two
/// histories: at any read instant past the last transition, total uptime and
/// total downtime sum to the ledger's whole lifetime, and neither is
/// negative.
pub proof fn lemma_time_partition(t: TimeTracker, now: int)
    requires
        t.wf(),
        now >= t.open_start(),
    ensures
        t.total_up(now) + t.total_down(now) == now - t.start,
        0 <= t.total_up(now) <= now - t.start,
        0 <= t.total_down(now) <= now - t.start,
{
    let act = t.active();
    let pas = t.passive();
    lemma_sum_all_closed(act.drop_last(), now, t.open_start());
    lemma_sum_all_closed(pas, now, t.open_start());
    assert(sum_elapsed(act, now) == sum_elapsed(act.drop_last(), now) + period_elapsed(
        act.last(),
        now,
    ));
    assert(period_elapsed(act.last(), now) == now - t.open_start());
    assert(sum_elapsed(act, now) + sum_elapsed(pas, now) == now - t.start);
    assert forall|i: int| 0 <= i < act.drop_last().len() implies period_elapsed(
        act.drop_last()[i],
        now,
    ) >= 0 by {}
    lemma_sum_nonneg(act.drop_last(), now);
    assert forall|i: int| 0 <= i < pas.len() implies period_elapsed(pas[i], now) >= 0 by {}
    lemma_sum_nonneg(pas, now);
}

/// Balanced histories: while up there is one more uptime period than
/// downtime periods; while down the counts are equal. Any alternating run of
/// transitions keeps the ledger in one of these two shapes.
pub proof fn lemma_history_lengths(t: TimeTracker)
    requires
        t.wf(),
    ensures
        t.up ==> t.uptimes@.len() == t.downtimes@.len() + 1,
        !t.up ==> t.uptimes@.len() == t.downtimes@.len(),
{
}

impl TimeTracker {
    /// A fresh ledger: the link is assumed up, and the single open uptime
    /// period starts at `now`.
    pub fn new(now: u64) -> (t: TimeTracker)
        ensures
            t.wf(),
            t.up,
            t.start == now,
            t.open_start() == now,
            t.uptimes@ == seq![(Period { start: now, closed_len: None })],
            t.downtimes@.len() == 0,
    {
        let mut uptimes: Vec<Period> = Vec::new();
        uptimes.push(Period::new(now));
        let t = TimeTracker { start: now, up: true, uptimes, downtimes: Vec::new() };
        proof {
            assert(t.uptimes@ =~= seq![(Period { start: now, closed_len: None })]);
            assert(t.active().drop_last() =~= Seq::<Period>::empty());
        }
        t
    }

    /// Records the up-to-down edge at `now`: freezes the open uptime period
    /// and opens a downtime period. Calling it while already down is a caller
    /// contract violation, ruled out here.
    pub fn down(&mut self, now: u64)
        requires
            old(self).wf(),
            old(self).up,
            now >= old(self).open_start(),
        ensures
            final(self).wf(),
            !final(self).up,
            final(self).start == old(self).start,
            final(self).open_start() == now,
            final(self).uptimes@ == old(self).uptimes@.drop_last().push(
                (Period {
                    start: old(self).uptimes@.last().start,
                    closed_len: Some((now - old(self).open_start()) as u64),
                }),
            ),
            final(self).downtimes@ == old(self).downtimes@.push(
                (Period { start: now, closed_len: None }),
            ),
    {
        let ghost oldt = *self;
        let mut last = self.uptimes.pop().unwrap();
        last.finalize(now);
        self.uptimes.push(last);
        self.up = false;
        self.downtimes.push(Period::new(now));
        proof {
            let t = *self;
            let nowi = now as int;
            let oos = oldt.open_start();
            assert(t.active() =~= oldt.passive().push((Period { start: now, closed_len: None })));
            assert(t.active().drop_last() =~= oldt.passive());
            assert(t.passive() =~= oldt.active().drop_last().push(last));
            assert forall|i: int| 0 <= i < t.passive().len() implies t.passive()[i].closed_len
                is Some by {
                if i < t.passive().len() - 1 {
                    assert(t.passive()[i] == oldt.active().drop_last()[i]);
                }
            }
            lemma_sum_push(oldt.active().drop_last(), last, nowi);
            lemma_sum_all_closed(oldt.active().drop_last(), nowi, oos);
            lemma_sum_all_closed(oldt.passive(), nowi, oos);
            assert(sum_elapsed(t.passive(), nowi) == sum_elapsed(oldt.active().drop_last(), oos) + (
            nowi - oos));
            lemma_sum_all_closed(t.passive(), nowi, t.open_start());
            lemma_sum_all_closed(t.active().drop_last(), nowi, t.open_start());
        }
    }

    /// Records the down-to-up edge at `now`: freezes the open downtime period
    /// and opens an uptime period. Calling it while already up is a caller
    /// contract violation, ruled out here.
    pub fn up(&mut self, now: u64)
        requires
            old(self).wf(),
            !old(self).up,
            now >= old(self).open_start(),
        ensures
            final(self).wf(),
            final(self).up,
            final(self).start == old(self).start,
            final(self).open_start() == now,
            final(self).downtimes@ == old(self).downtimes@.drop_last().push(
                (Period {
                    start: old(self).downtimes@.last().start,
                    closed_len: Some((now - old(self).open_start()) as u64),
                }),
            ),
            final(self).uptimes@ == old(self).uptimes@.push(
                (Period { start: now, closed_len: None }),
            ),
    {
        let ghost oldt = *self;
        let mut last = self.downtimes.pop().unwrap();
        last.finalize(now);
        self.downtimes.push(last);
        self.up = true;
        self.uptimes.push(Period::new(now));
        proof {
            let t = *self;
            let nowi = now as int;
            let oos = oldt.open_start();
            assert(t.active() =~= oldt.passive().push((Period { start: now, closed_len: None })));
            assert(t.active().drop_last() =~= oldt.passive());
            assert(t.passive() =~= oldt.active().drop_last().push(last));
            assert forall|i: int| 0 <= i < t.passive().len() implies t.passive()[i].closed_len
                is Some by {
                if i < t.passive().len() - 1 {
                    assert(t.passive()[i] == oldt.active().drop_last()[i]);
                }
            }
            lemma_sum_push(oldt.active().drop_last(), last, nowi);
            lemma_sum_all_closed(oldt.active().drop_last(), nowi, oos);
            lemma_sum_all_closed(oldt.passive(), nowi, oos);
            assert(sum_elapsed(t.passive(), nowi) == sum_elapsed(oldt.active().drop_last(), oos) + (
            nowi - oos));
            lemma_sum_all_closed(t.passive(), nowi, t.open_start());
            lemma_sum_all_closed(t.active().drop_last(), nowi, t.open_start());
        }
    }

    /// True while the link is considered down.
    pub fn is_down(&self) -> (r: bool)
        ensures
            r == !self.up,
    {
        !self.up
    }

    /// True while the link is considered up.
    pub fn is_up(&self) -> (r: bool)
        ensures
            r == self.up,
    {
        self.up
    }

    /// The downtime history; its trailing entry is the open downtime period
    /// while the link is down.
    pub fn downtimes(&self) -> (r: &Vec<Period>)
        ensures
            r@ == self.downtimes@,
    {
        &self.downtimes
    }

    /// The uptime history; its trailing entry is the open uptime period while
    /// the link is up.
    pub fn uptimes(&self) -> (r: &Vec<Period>)
        ensures
            r@ == self.uptimes@,
    {
        &self.uptimes
    }

    /// The instant of the last transition (or of construction): the start of
    /// the open period. Readings and transitions take a `now` no earlier than
    /// this.
    pub fn last_transition(&self) -> (r: u64)
        requires
            self.wf(),
        ensures
            r as int == self.open_start(),
    {
        if self.up {
            let n = self.uptimes.len();
            self.uptimes[n - 1].start
        } else {
            let n = self.downtimes.len();
            self.downtimes[n - 1].start
        }
    }
}

fn sum_secs(v: &Vec<Period>, now: u64) -> (r: u64)
    requires
        forall|i: int|
            0 <= i < v@.len() ==> (v@[i].closed_len is None ==> now >= v@[i].start),
        sum_elapsed(v@, now as int) <= u64::MAX,
    ensures
        r as int == sum_elapsed(v@, now as int),
{
    proof {
        assert forall|j: int| 0 <= j < v@.len() implies period_elapsed(v@[j], now as int)
            >= 0 by {}
    }
    let mut acc: u64 = 0;
    let mut i: usize = 0;
    while i < v.len()
        invariant
            i <= v@.len(),
            forall|j: int|
                0 <= j < v@.len() ==> (v@[j].closed_len is None ==> now >= v@[j].start),
            forall|j: int| 0 <= j < v@.len() ==> period_elapsed(v@[j], now as int) >= 0,
            sum_elapsed(v@, now as int) <= u64::MAX,
            acc as int == sum_elapsed(v@.take(i as int), now as int),
        decreases v@.len() - i,
    {
        proof {
            lemma_sum_take_succ(v@, now as int, i as int);
            lemma_sum_take_le(v@, now as int, i as int + 1);
            lemma_sum_nonneg(v@.take(i as int + 1), now as int);
            assert forall|j: int| 0 <= j < v@.take(i as int).len() implies period_elapsed(
                v@.take(i as int)[j],
                now as int,
            ) >= 0 by {}
            lemma_sum_nonneg(v@.take(i as int), now as int);
        }
        acc = acc + v[i].elapsed(now);
        i = i + 1;
    }
    proof {
        assert(v@.take(v@.len() as int) =~= v@);
    }
    acc
}

fn max_secs(v: &Vec<Period>, now: u64) -> (r: u64)
    requires
        forall|i: int|
            0 <= i < v@.len() ==> (v@[i].closed_len is None ==> now >= v@[i].start),
    ensures
        r as int == max_elapsed(v@, now as int),
        forall|i: int| 0 <= i < v@.len() ==> r as int >= period_elapsed(v@[i], now as int),
{
    let mut best: u64 = 0;
    let mut i: usize = 0;
    while i < v.len()
        invariant
            i <= v@.len(),
            forall|j: int|
                0 <= j < v@.len() ==> (v@[j].closed_len is None ==> now >= v@[j].start),
            best as int == max_elapsed(v@.take(i as int), now as int),
        decreases v@.len() - i,
    {
        proof {
            lemma_max_take_succ(v@, now as int, i as int);
        }
        let e = v[i].elapsed(now);
        if e > best {
            best = e;
        }
        i = i + 1;
    }
    proof {
        assert(v@.take(v@.len() as int) =~= v@);
        assert forall|i: int| 0 <= i < v@.len() implies best as int >= period_elapsed(
            v@[i],
            now as int,
        ) by {
            lemma_max_elapsed_ge(v@, now as int, i);
        }
    }
    best
}

impl TimeTracker {
    /// Each history entry that is still open (there is at most one, the
    /// trailing entry of the active history) started no later than `now`.
    proof fn lemma_open_entries_started(&self, now: int)
        requires
            self.wf(),
            now >= self.open_start(),
        ensures
            forall|i: int|
                0 <= i < self.uptimes@.len() ==> (self.uptimes@[i].closed_len is None
                    ==> now >= self.uptimes@[i].start),
            forall|i: int|
                0 <= i < self.downtimes@.len() ==> (self.downtimes@[i].closed_len is None
                    ==> now >= self.downtimes@[i].start),
    {
        let act = self.active();
        assert forall|i: int| 0 <= i < act.len() implies (act[i].closed_len is None ==> now
            >= act[i].start) by {
            if i < act.len() - 1 {
                assert(act.drop_last()[i] == act[i]);
            }
        }
    }

    /// Total seconds up, as read at `now`.
    pub fn total_up_secs(&self, now: u64) -> (r: u64)
        requires
            self.wf(),
            now >= self.open_start(),
        ensures
            r as int == self.total_up(now as int),
            r <= now - self.start,
    {
        proof {
            self.lemma_open_entries_started(now as int);
            lemma_time_partition(*self, now as int);
        }
        sum_secs(&self.uptimes, now)
    }

    /// Total seconds down, as read at `now`.
    pub fn total_down_secs(&self, now: u64) -> (r: u64)
        requires
            self.wf(),
            now >= self.open_start(),
        ensures
            r as int == self.total_down(now as int),
            r <= now - self.start,
    {
        proof {
            self.lemma_open_entries_started(now as int);
            lemma_time_partition(*self, now as int);
        }
        sum_secs(&self.downtimes, now)
    }

    /// Live length of the open downtime period rendered `hh:mm:ss`;
    /// `00:00:00` while up.
    pub fn downtime_str(&self, now: u64) -> (r: String)
        requires
            self.wf(),
            now >= self.open_start(),
        ensures
            r@ == duration_display(self.current_down(now as int) as nat),
    {
        if !self.up {
            let n = self.downtimes.len();
            let last = self.downtimes[n - 1];
            format_duration(last.elapsed(now))
        } else {
            format_duration(0)
        }
    }

    /// Live length of the open uptime period rendered `hh:mm:ss`;
    /// `00:00:00` while down.
    pub fn uptime_str(&self, now: u64) -> (r: String)
        requires
            self.wf(),
            now >= self.open_start(),
        ensures
            r@ == duration_display(self.current_up(now as int) as nat),
    {
        if self.up {
            let n = self.uptimes.len();
            let last = self.uptimes[n - 1];
            format_duration(last.elapsed(now))
        } else {
            format_duration(0)
        }
    }

    /// Total downtime rendered `hh:mm:ss`.
    pub fn total_downtime_str(&self, now: u64) -> (r: String)
        requires
            self.wf(),
            now >= self.open_start(),
        ensures
            r@ == duration_display(self.total_down(now as int) as nat),
    {
        format_duration(self.total_down_secs(now))
    }

    /// Total uptime rendered `hh:mm:ss`.
    pub fn total_uptime_str(&self, now: u64) -> (r: String)
        requires
            self.wf(),
            now >= self.open_start(),
        ensures
            r@ == duration_display(self.total_up(now as int) as nat),
    {
        format_duration(self.total_up_secs(now))
    }

    /// Length of the longest uptime period, the open one included, as read
    /// at `now`.
    pub fn longest_up_secs(&self, now: u64) -> (r: u64)
        requires
            self.wf(),
            now >= self.open_start(),
        ensures
            r as int == max_elapsed(self.uptimes@, now as int),
            forall|i: int|
                0 <= i < self.uptimes@.len() ==> r as int >= period_elapsed(
                    self.uptimes@[i],
                    now as int,
                ),
    {
        proof {
            self.lemma_open_entries_started(now as int);
        }
        max_secs(&self.uptimes, now)
    }

    /// Length of the longest downtime period, the open one included, as read
    /// at `now`.
    pub fn longest_down_secs(&self, now: u64) -> (r: u64)
        requires
            self.wf(),
            now >= self.open_start(),
        ensures
            r as int == max_elapsed(self.downtimes@, now as int),
            forall|i: int|
                0 <= i < self.downtimes@.len() ==> r as int >= period_elapsed(
                    self.downtimes@[i],
                    now as int,
                ),
    {
        proof {
            self.lemma_open_entries_started(now as int);
        }
        max_secs(&self.downtimes, now)
    }

    /// Longest uptime rendered `hh:mm:ss`.
    pub fn longest_uptime_str(&self, now: u64) -> (r: String)
        requires
            self.wf(),
            now >= self.open_start(),
        ensures
            r@ == duration_display(max_elapsed(self.uptimes@, now as int) as nat),
    {
        format_duration(self.longest_up_secs(now))
    }

    /// Longest downtime rendered `hh:mm:ss`.
    pub fn longest_downtime_str(&self, now: u64) -> (r: String)
        requires
            self.wf(),
            now >= self.open_start(),
        ensures
            r@ == duration_display(max_elapsed(self.downtimes@, now as int) as nat),
    {
        format_duration(self.longest_down_secs(now))
    }

    /// Availability over the ledger's whole lifetime, in hundredths of a
    /// percent (10000 stands for 100%); zero at the instant of construction.
    /// Never exceeds 10000: uptime cannot outgrow the lifetime itself.
    pub fn uptime_percentage(&self, now: u64) -> (r: u64)
        requires
            self.wf(),
            now >= self.open_start(),
        ensures
            r <= 10000,
            now == self.start ==> r == 0,
            now > self.start ==> r as int == self.total_up(now as int) * 10000 / (now
                - self.start),
    {
        proof {
            lemma_time_partition(*self, now as int);
        }
        if now == self.start {
            return 0;
        }
        let up_secs = self.total_up_secs(now);
        let total = now - self.start;
        let bp: u128 = (up_secs as u128) * 10000 / (total as u128);
        proof {
            vstd::arithmetic::mul::lemma_mul_inequality(up_secs as int, total as int, 10000);
            vstd::arithmetic::div_mod::lemma_div_is_ordered(
                up_secs as int * 10000,
                total as int * 10000,
                total as int,
            );
            vstd::arithmetic::div_mod::lemma_div_multiples_vanish(10000, total as int);
            assert((total as int * 10000) / (total as int) == 10000);
            assert(bp <= 10000);
        }
        bp as u64
    }
}

} // verus!
