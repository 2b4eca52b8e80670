//! Tracking activity, to react to its absence: a counter of the running
//! activities whose waiters are told whenever the absence of activity
//! starts or ends.

use vstd::prelude::*;

verus! {

/// The most activities that may run at once; beyond it the process aborts,
/// as the shared reference count of the standard library does.
pub const MAX_ACTIVE: usize = isize::MAX as usize;

/// The activity tracker: the number of running activities, or `None` for a
/// disabled tracker, which always sees activity.
pub struct Inactivity {
    active: Option<usize>,
}

impl Inactivity {
    /// The number of running activities; `None` where tracking is disabled.
    pub closed spec fn count(&self) -> Option<usize> {
        self.active
    }

    /// A tracker without activity.
    pub fn new() -> (t: Self)
        ensures
            t.count() == Some(0usize),
    {
        Inactivity { active: Some(0) }
    }

    /// A disabled tracker: there is always activity.
    pub fn disabled() -> (t: Self)
        ensures
            t.count() is None,
    {
        Inactivity { active: None }
    }

    /// Whether no activity runs.
    pub fn no_activity(&self) -> (b: bool)
        ensures
            b == (self.count() == Some(0usize)),
    {
        match self.active {
            Some(n) => n == 0,
            None => false,
        }
    }

    /// Start an activity; whether the waiters are told, which they are when
    /// the first activity starts.
    pub fn increment(&mut self) -> (notify: bool)
        requires
            old(self).count() matches Some(n) ==> n <= MAX_ACTIVE,
        ensures
            match old(self).count() {
                Some(n) => final(self).count() == Some((n + 1) as usize) && notify == (n == 0),
                None => final(self).count() is None && !notify,
            },
            final(self).count() == started(old(self).count()),
    {
        match self.active {
            Some(n) => {
                self.active = Some(n + 1);
                n == 0
            },
            None => false,
        }
    }

    /// Stop an activity; whether the waiters are told, which they are when
    /// the last activity stops.
    pub fn decrement(&mut self) -> (notify: bool)
        requires
            old(self).count() matches Some(n) ==> 1 <= n <= MAX_ACTIVE,
        ensures
            match old(self).count() {
                Some(n) => final(self).count() == Some((n - 1) as usize) && notify == (n == 1),
                None => final(self).count() is None && !notify,
            },
            final(self).count() == stopped(old(self).count()),
    {
        match self.active {
            Some(n) => {
                self.active = Some(n - 1);
                n == 1
            },
            None => false,
        }
    }
}

/// What a waiter for inactivity does next.
#[derive(Clone, Copy, Debug, PartialEq, Eq, Structural)]
pub enum WaitStep {
    /// Wait until the activity changes.
    WaitForChange,
    /// Wait for the timeout, or until the activity changes first.
    WaitForTimeout,
    /// The inactivity lasted: stop waiting.
    Done,
}

/// The step that follows for a waiter that sees `no_activity` (after the
/// timeout where `after_timeout`).
pub open spec fn next_wait_step(no_activity: bool, after_timeout: bool) -> WaitStep {
    if !no_activity {
        WaitStep::WaitForChange
    } else if after_timeout {
        WaitStep::Done
    } else {
        WaitStep::WaitForTimeout
    }
}

/// The next step of a waiter: with activity it waits for a change; without
/// it, it waits out the timeout and is done where there still is none
/// (`after_timeout`).
pub fn wait_step(no_activity: bool, after_timeout: bool) -> (s: WaitStep)
    ensures
        s == next_wait_step(no_activity, after_timeout),
{
    if !no_activity {
        WaitStep::WaitForChange
    } else if after_timeout {
        WaitStep::Done
    } else {
        WaitStep::WaitForTimeout
    }
}

/// No activity runs under the count `c`.
pub open spec fn idle(c: Option<usize>) -> bool {
    c == Some(0usize)
}

/// The count once an activity starts under the count `c`.
pub open spec fn started(c: Option<usize>) -> Option<usize> {
    match c {
        Some(n) => Some((n + 1) as usize),
        None => None,
    }
}

/// The count once an activity stops under the count `c`.
pub open spec fn stopped(c: Option<usize>) -> Option<usize> {
    match c {
        Some(n) => Some((n - 1) as usize),
        None => None,
    }
}

/// Stopping an activity undoes starting one: the count comes back to what
/// it was, on an enabled tracker and on a disabled one.
pub proof fn lemma_stop_undoes_start(c: Option<usize>)
    requires
        c matches Some(n) ==> n < MAX_ACTIVE,
    ensures
        stopped(started(c)) == c,
{
}

/// A waiter is done only where no activity runs, and a disabled tracker
/// never lets it finish; where no activity runs once the timeout has passed,
/// it is done.
pub proof fn lemma_wait_ends_only_without_activity(c: Option<usize>, after_timeout: bool)
    ensures
        next_wait_step(idle(c), after_timeout) == WaitStep::Done <==> (idle(c) && after_timeout),
        c is None ==> next_wait_step(idle(c), after_timeout) != WaitStep::Done,
        !idle(c) ==> next_wait_step(idle(c), after_timeout) == WaitStep::WaitForChange,
{
}

/// The waiters are told exactly when the absence of activity starts or
/// ends: starting an activity tells them where none ran before, and
/// stopping one tells them where none runs after.
pub proof fn lemma_notify_on_change(n: usize)
    requires
        n < MAX_ACTIVE,
    ensures
        (n == 0) == (idle(Some(n)) != idle(Some((n + 1) as usize))),
        n >= 1 ==> ((n == 1) == (idle(Some(n)) != idle(Some((n - 1) as usize)))),
{
}

/// Where a waiter finishes, given the counts it reads at its checks in order,
/// the first read after a timed wait where `timed`: the position of the
/// check at which it is done, if any. After a check without activity it
/// waits for the timeout (or a change before it) and checks again; after a
/// check with activity it waits for a change.
pub open spec fn wait_done_at(counts: Seq<Option<usize>>, timed: bool) -> Option<int>
    decreases counts.len(),
{
    if counts.len() == 0 {
        None
    } else {
        match next_wait_step(idle(counts[0]), timed) {
            WaitStep::Done => Some(0),
            s => match wait_done_at(counts.drop_first(), s == WaitStep::WaitForTimeout) {
                Some(k) => Some(k + 1),
                None => None,
            },
        }
    }
}

/// A wait never finishes while an activity runs, nor on a disabled tracker:
/// it is done only at a check without activity that follows a timed wait
/// that began without activity. Once the activity has stopped for good, it
/// finishes at the check after the first timed wait.
pub proof fn lemma_wait_run(counts: Seq<Option<usize>>, timed: bool)
    ensures
        wait_done_at(counts, timed) matches Some(k) ==> 0 <= k < counts.len() && idle(counts[k]) && (k == 0
            ==> timed) && (k > 0 ==> idle(counts[k - 1])),
        (forall|i: int| 0 <= i < counts.len() ==> !idle(#[trigger] counts[i])) ==> wait_done_at(counts, timed)
            is None,
        counts.len() >= 2 && idle(counts[0]) && idle(counts[1]) ==> (wait_done_at(counts, timed) matches Some(
            k,
        ) && k <= 1),
    decreases counts.len(),
{
    if counts.len() > 0 {
        let rest = counts.drop_first();
        let s = next_wait_step(idle(counts[0]), timed);
        lemma_wait_run(rest, s == WaitStep::WaitForTimeout);
        match wait_done_at(counts, timed) {
            Some(k) => {
                if k > 0 {
                    assert(counts[k] == rest[k - 1]);
                    if k > 1 {
                        assert(counts[k - 1] == rest[k - 2]);
                    } else {
                        assert(rest[0] == counts[1]);
                    }
                }
            },
            None => {},
        }
        if forall|i: int| 0 <= i < counts.len() ==> !idle(#[trigger] counts[i]) {
            assert(!idle(counts[0]));
            assert forall|i: int| 0 <= i < rest.len() implies !idle(#[trigger] rest[i]) by {
                assert(rest[i] == counts[i + 1]);
            }
        }
        if counts.len() >= 2 && idle(counts[0]) && idle(counts[1]) {
            assert(rest[0] == counts[1]);
        }
    }
}

/// The count after a run of starts (`true`) and stops (`false`) of
/// activities from the count `c`.
pub open spec fn count_after(c: Option<usize>, ops: Seq<bool>) -> Option<usize>
    decreases ops.len(),
{
    if ops.len() == 0 {
        c
    } else {
        let before = count_after(c, ops.drop_last());
        if ops.last() {
            started(before)
        } else {
            stopped(before)
        }
    }
}

/// The number of `true` in `ops`.
pub open spec fn count_true(ops: Seq<bool>) -> nat
    decreases ops.len(),
{
    if ops.len() == 0 {
        0
    } else {
        count_true(ops.drop_last()) + if ops.last() {
            1nat
        } else {
            0nat
        }
    }
}

/// Stopping an activity, explicitly or by dropping it, and starting one, by
/// the tracker or by cloning an activity, each move the count by one: after
/// any run in which every stop stops a running activity and the count stays
/// within the limit, the count is the starts minus the stops; a disabled
/// tracker stays disabled.
pub proof fn lemma_count_after(n: usize, ops: Seq<bool>)
    requires
        forall|i: int|
            0 <= i <= ops.len() ==> (#[trigger] count_after(Some(n), ops.take(i)) matches Some(m) && m <= MAX_ACTIVE),
        forall|i: int|
            0 <= i < ops.len() && !(#[trigger] ops[i]) ==> (count_after(Some(n), ops.take(i)) matches Some(m) && m >= 1),
    ensures
        count_after(Some(n), ops) == Some((n + count_true(ops) - (ops.len() - count_true(ops))) as usize),
        0 <= n + count_true(ops) - (ops.len() - count_true(ops)) <= MAX_ACTIVE,
        forall|o: Seq<bool>| #[trigger] count_after(None, o) is None,
    decreases ops.len(),
{
    assert forall|o: Seq<bool>| #[trigger] count_after(None, o) is None by {
        lemma_disabled_stays(o);
    }
    if ops.len() > 0 {
        let pre = ops.drop_last();
        let k = ops.len() - 1;
        assert forall|i: int| 0 <= i <= pre.len() implies (#[trigger] count_after(Some(n), pre.take(i)) matches Some(m)
            && m <= MAX_ACTIVE) by {
            assert(pre.take(i) =~= ops.take(i));
        }
        assert forall|i: int| 0 <= i < pre.len() && !(#[trigger] pre[i]) implies (count_after(Some(n), pre.take(i))
            matches Some(m) && m >= 1) by {
            assert(pre.take(i) =~= ops.take(i));
            assert(pre[i] == ops[i]);
        }
        lemma_count_after(n, pre);
        assert(ops.take(k) =~= pre);
        assert(ops.take(ops.len() as int) =~= ops);
        assert(count_after(Some(n), ops.take(k)) matches Some(m) && m <= MAX_ACTIVE);
        assert(count_after(Some(n), ops.take(ops.len() as int)) matches Some(m) && m <= MAX_ACTIVE);
        if !ops[k] {
            assert(count_after(Some(n), ops.take(k)) matches Some(m) && m >= 1);
        }
        let m = n + count_true(pre) - (pre.len() - count_true(pre));
        assert(MAX_ACTIVE < usize::MAX);
        assert(ops.last() == ops[k]);
        if ops[k] {
            assert(count_true(ops) == count_true(pre) + 1);
            assert(count_after(Some(n), ops) == started(Some(m as usize)));
        } else {
            assert(count_true(ops) == count_true(pre));
            assert(count_after(Some(n), ops) == stopped(Some(m as usize)));
        }
    }
}

proof fn lemma_disabled_stays(ops: Seq<bool>)
    ensures
        count_after(None, ops) is None,
    decreases ops.len(),
{
    if ops.len() > 0 {
        lemma_disabled_stays(ops.drop_last());
    }
}

} // verus!
