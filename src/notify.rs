use vstd::prelude::*;

verus! {

/// The alerting state carried from one polling cycle to the next. Times
/// and thresholds share one unit, on a clock that does not go back.
#[derive(Clone, Copy, Debug, PartialEq, Eq, Structural)]
pub struct NotificationState {
    pub last_state_up: bool,
    pub last_reminder_time: Option<u64>,
}

/// Whether a `down` verdict at `now` calls for an alert: the server was up
/// on the previous cycle, or no alert went out in this outage, or more than
/// `reminder_threshold` units of time passed since the last one.
pub open spec fn alert_due(s: NotificationState, now: u64, reminder_threshold: u64) -> bool {
    s.last_state_up || s.last_reminder_time is None || now - s.last_reminder_time->0
        > reminder_threshold
}

/// The state after the verdict `up` at `now`.
pub open spec fn next_state(s: NotificationState, up: bool, now: u64, reminder_threshold: u64) -> NotificationState {
    if up {
        NotificationState { last_state_up: true, last_reminder_time: None }
    } else if alert_due(s, now, reminder_threshold) {
        NotificationState { last_state_up: false, last_reminder_time: Some(now) }
    } else {
        NotificationState { last_state_up: false, last_reminder_time: s.last_reminder_time }
    }
}

/// The state in which monitoring starts.
pub open spec fn initial_state() -> NotificationState {
    NotificationState { last_state_up: true, last_reminder_time: None }
}

/// The state after the verdicts `events`, each a verdict (`true` for up)
/// with its time.
pub open spec fn run(events: Seq<(bool, u64)>, reminder_threshold: u64) -> NotificationState
    decreases events.len(),
{
    if events.len() == 0 {
        initial_state()
    } else {
        next_state(
            run(events.drop_last(), reminder_threshold),
            events.last().0,
            events.last().1,
            reminder_threshold,
        )
    }
}

/// Whether the `i`-th verdict of `events` sent an alert.
pub open spec fn alert_at(events: Seq<(bool, u64)>, reminder_threshold: u64, i: int) -> bool {
    !events[i].0 && alert_due(run(events.take(i), reminder_threshold), events[i].1, reminder_threshold)
}

/// The time of the last alert among the first `i` verdicts of `events`.
pub open spec fn last_alert_before(events: Seq<(bool, u64)>, reminder_threshold: u64, i: int) -> Option<u64>
    decreases i,
{
    if i <= 0 {
        None
    } else if alert_at(events, reminder_threshold, i - 1) {
        Some(events[i - 1].1)
    } else {
        last_alert_before(events, reminder_threshold, i - 1)
    }
}

impl NotificationState {
    /// No reminder time is kept while the server is up.
    pub open spec fn wf(&self) -> bool {
        self.last_state_up ==> self.last_reminder_time is None
    }

    /// The state in which monitoring starts: up, no alert sent.
    pub fn new() -> (r: NotificationState)
        ensures
            r == initial_state(),
            r.wf(),
    {
        NotificationState { last_state_up: true, last_reminder_time: None }
    }

    /// Records the verdict of one polling cycle at time `now` and says
    /// whether an alert is to be sent. The alert counts as sent whether or
    /// not its delivery succeeds.
    pub fn on_verdict(&mut self, up: bool, now: u64, reminder_threshold: u64) -> (alert: bool)
        ensures
            alert == (!up && alert_due(*old(self), now, reminder_threshold)),
            *final(self) == next_state(*old(self), up, now, reminder_threshold),
            final(self).wf(),
    {
        if up {
            self.last_state_up = true;
            self.last_reminder_time = None;
            return false;
        }
        let due = match self.last_reminder_time {
            None => true,
            Some(t) => now >= t && now - t > reminder_threshold,
        };
        let alert = self.last_state_up || due;
        if alert {
            self.last_reminder_time = Some(now);
        }
        self.last_state_up = false;
        alert
    }
}

/// After the first `k` verdicts the state says whether the last one was up,
/// and while down it holds the time of the last alert, which exists.
pub proof fn lemma_run_state(events: Seq<(bool, u64)>, reminder_threshold: u64, k: int)
    requires
        0 <= k <= events.len(),
    ensures
        run(events.take(k), reminder_threshold).last_state_up == (k == 0 || events[k - 1].0),
        run(events.take(k), reminder_threshold).last_reminder_time == if k == 0 || events[k - 1].0 {
            None
        } else {
            last_alert_before(events, reminder_threshold, k)
        },
        !(k == 0 || events[k - 1].0) ==> last_alert_before(events, reminder_threshold, k) is Some,
    decreases k,
{
    if k > 0 {
        lemma_run_state(events, reminder_threshold, k - 1);
        assert(events.take(k).drop_last() =~= events.take(k - 1));
        assert(events.take(k).last() == events[k - 1]);
    }
}

/// For every sequence of verdicts, a `down` verdict sends an alert exactly
/// when the verdict before it was `up` (or there was none), or more than
/// the reminder threshold passed since the last alert.
pub proof fn lemma_alert_iff(events: Seq<(bool, u64)>, reminder_threshold: u64, i: int)
    requires
        0 <= i < events.len(),
        !events[i].0,
    ensures
        alert_at(events, reminder_threshold, i) <==> (i == 0 || events[i - 1].0 || ({
            let last = last_alert_before(events, reminder_threshold, i);
            &&& last is Some
            &&& events[i].1 - last->0 > reminder_threshold
        })),
{
    lemma_run_state(events, reminder_threshold, i);
}

/// An `up` verdict clears the reminder time, and the next `down` verdict
/// sends an alert whatever the threshold.
pub proof fn lemma_up_clears_reminder(
    s: NotificationState,
    up_time: u64,
    down_time: u64,
    reminder_threshold: u64,
)
    ensures
        next_state(s, true, up_time, reminder_threshold).last_reminder_time is None,
        alert_due(next_state(s, true, up_time, reminder_threshold), down_time, reminder_threshold),
{
}

} // verus!

verus! {

/// The state after `ticks` `down` verdicts, one per unit of time from `start`,
/// the server having been up before.
pub open spec fn down_streak(start: u64, ticks: nat, reminder_threshold: u64) -> NotificationState
    decreases ticks,
{
    if ticks == 0 {
        initial_state()
    } else {
        next_state(
            down_streak(start, (ticks - 1) as nat, reminder_threshold),
            false,
            (start + ticks - 1) as u64,
            reminder_threshold,
        )
    }
}

/// How many of the first `ticks` verdicts of such a streak sent an alert.
pub open spec fn streak_alerts(start: u64, ticks: nat, reminder_threshold: u64) -> nat
    decreases ticks,
{
    if ticks == 0 {
        0
    } else {
        let j = (ticks - 1) as nat;
        streak_alerts(start, j, reminder_threshold) + if alert_due(
            down_streak(start, j, reminder_threshold),
            (start + j) as u64,
            reminder_threshold,
        ) {
            1nat
        } else {
            0nat
        }
    }
}

/// In a `down` streak checked once per unit of time, the first verdict
/// alerts and then one verdict in every `reminder_threshold + 1`: the verdict
/// at time `j` of the streak alerts exactly when `j` is a multiple of
/// `reminder_threshold + 1`, so over the first `ticks` verdicts
/// `(ticks - 1) / (reminder_threshold + 1) + 1` alerts go out. (An alert needs
/// strictly more than the threshold to have passed, so the period is one unit
/// longer than the threshold.)
pub proof fn lemma_streak_alerts(start: u64, ticks: nat, reminder_threshold: u64)
    requires
        ticks >= 1,
        start + ticks <= u64::MAX,
        reminder_threshold < u64::MAX,
    ensures
        down_streak(start, ticks, reminder_threshold).last_reminder_time == Some(
            (start + ((ticks - 1) as int / (reminder_threshold + 1)) * (reminder_threshold + 1)) as u64,
        ),
        !down_streak(start, ticks, reminder_threshold).last_state_up,
        alert_due(
            down_streak(start, (ticks - 1) as nat, reminder_threshold),
            (start + ticks - 1) as u64,
            reminder_threshold,
        ) <==> (ticks - 1) as int % (reminder_threshold + 1) == 0,
        streak_alerts(start, ticks, reminder_threshold) == (ticks - 1) as int / (reminder_threshold
            + 1) + 1,
    decreases ticks,
{
    let m = reminder_threshold + 1;
    if ticks == 1 {
        assert(0int / m == 0) by (nonlinear_arith)
            requires
                m > 0,
        ;
        assert(0int % m == 0) by (nonlinear_arith)
            requires
                m > 0,
        ;
        assert(streak_alerts(start, 0, reminder_threshold) == 0);
    } else {
        let k = (ticks - 1) as nat;
        lemma_streak_alerts(start, k, reminder_threshold);
        let q = (k - 1) as int / m;
        let rem = (k - 1) as int % m;
        vstd::arithmetic::div_mod::lemma_fundamental_div_mod((k - 1) as int, m as int);
        assert(0 <= rem < m) by {
            vstd::arithmetic::div_mod::lemma_mod_bound((k - 1) as int, m as int);
        }
        assert(q >= 0) by {
            vstd::arithmetic::div_mod::lemma_div_pos_is_pos((k - 1) as int, m as int);
        }
        assert(q * m <= k - 1) by (nonlinear_arith)
            requires
                k - 1 == m * q + rem,
                rem >= 0,
        ;
        let prev = down_streak(start, k, reminder_threshold);
        assert(prev.last_reminder_time == Some((start + q * m) as u64));
        assert((start + k) - (start + q * m) == rem + 1);
        if rem == reminder_threshold {
            assert(k as int == (q + 1) * m) by (nonlinear_arith)
                requires
                    k - 1 == m * q + rem,
                    rem == m - 1,
            ;
            vstd::arithmetic::div_mod::lemma_fundamental_div_mod_converse(k as int, m as int, q + 1, 0);
        } else {
            vstd::arithmetic::div_mod::lemma_fundamental_div_mod_converse(k as int, m as int, q, rem + 1);
        }
    }
}

} // verus!
