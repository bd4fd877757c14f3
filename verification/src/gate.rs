//! The debounce gate: at most one accepted invocation per cool-down window.
//!
//! Time is a reading of a monotonic clock in nanoseconds. A gate's whole
//! state is the reading at which it last accepted an invocation, so its
//! behaviour is stated over `Option<u128>`: [`admits`] says whether an
//! invocation passes, [`stamped`] what is remembered afterwards.

use crate::clock::Clock;
use vstd::prelude::*;

verus! {

/// Length of the cool-down window, in nanoseconds (500 ms).
pub const DEBOUNCE_NANOS: u128 = 500_000_000;

/// Time that has passed at `now` since `since`. A reading earlier than
/// `since` counts as no time at all.
pub open spec fn elapsed(since: u128, now: u128) -> nat {
    if now >= since {
        (now - since) as nat
    } else {
        0
    }
}

/// Whether an invocation at `now` passes a gate that last accepted at `last`:
/// nothing was accepted before, or the cool-down window since then is over.
pub open spec fn admits(last: Option<u128>, now: u128) -> bool {
    match last {
        None => true,
        Some(at) => elapsed(at, now) >= DEBOUNCE_NANOS,
    }
}

/// What a gate remembers after an invocation at `now`: `now` if the
/// invocation passed, and what it remembered before if it was dropped.
pub open spec fn stamped(last: Option<u128>, now: u128) -> Option<u128> {
    if admits(last, now) {
        Some(now)
    } else {
        last
    }
}

/// What a gate that remembered `last` remembers after the invocations at
/// `times`, taken in this order.
pub open spec fn remembered(last: Option<u128>, times: Seq<u128>) -> Option<u128>
    decreases times.len(),
{
    if times.len() == 0 {
        last
    } else {
        stamped(remembered(last, times.drop_last()), times.last())
    }
}

/// Whether the invocation at `times[k]` is accepted, coming after those
/// before it in `times`.
pub open spec fn accepted(last: Option<u128>, times: Seq<u128>, k: int) -> bool
    recommends
        0 <= k < times.len(),
{
    admits(remembered(last, times.take(k)), times[k])
}

/// How many of the invocations at `times` are accepted.
pub open spec fn accepted_count(last: Option<u128>, times: Seq<u128>) -> nat
    decreases times.len(),
{
    if times.len() == 0 {
        0
    } else {
        let here: nat = if accepted(last, times, times.len() - 1) {
            1
        } else {
            0
        };
        accepted_count(last, times.drop_last()) + here
    }
}

/// Whether any two of `times` are less than one cool-down window apart.
pub open spec fn within_one_window(times: Seq<u128>) -> bool {
    forall|i: int, j: int|
        0 <= i < times.len() && 0 <= j < times.len() ==> #[trigger] times[i] < #[trigger] times[j]
            + DEBOUNCE_NANOS
}

/// Remembers when the last invocation was accepted.
///
/// The decision and the update are one call on `&mut self`, so no two callers
/// can both see the window as over: a gate shared between threads sits behind
/// a lock that is held for that one call.
#[derive(Debug)]
pub struct DebounceGate {
    last_accepted: Option<u128>,
}

impl View for DebounceGate {
    type V = Option<u128>;

    closed spec fn view(&self) -> Option<u128> {
        self.last_accepted
    }
}

impl DebounceGate {
    /// A gate that has accepted nothing yet.
    pub fn new() -> (gate: Self)
        ensures
            gate@ is None,
    {
        DebounceGate { last_accepted: None }
    }

    /// Decides on an invocation at `now`, and remembers `now` if it passes.
    /// A dropped invocation changes nothing.
    pub fn accept_at(&mut self, now: u128) -> (accepted: bool)
        ensures
            accepted == admits(old(self)@, now),
            final(self)@ == stamped(old(self)@, now),
    {
        let open = match self.last_accepted {
            None => true,
            Some(at) => now >= at && now - at >= DEBOUNCE_NANOS,
        };
        if open {
            self.last_accepted = Some(now);
        }
        open
    }

    /// Decides on an invocation at the present reading of `clock`. Whatever
    /// the clock says, that reading is treated as [`Self::accept_at`] treats
    /// it. So a gate that has accepted nothing yet accepts, and a dropped
    /// invocation changes nothing.
    pub fn accept(&mut self, clock: &Clock) -> (accepted: bool)
        ensures
            exists|now: u128|
                accepted == #[trigger] admits(old(self)@, now) && final(self)@ == stamped(
                    old(self)@,
                    now,
                ),
            old(self)@ is None ==> accepted,
            accepted ==> final(self)@ is Some,
            !accepted ==> final(self)@ == old(self)@,
    {
        let now = clock.now();
        self.accept_at(now)
    }

    /// The reading at which an invocation was last accepted.
    pub fn last_accepted(&self) -> (last: Option<u128>)
        ensures
            last == self@,
    {
        self.last_accepted
    }
}

/// Once a full window has passed since the last accepted invocation, the next
/// invocation is accepted.
pub proof fn lemma_admitted_after_window(last: u128, now: u128)
    requires
        now >= last + DEBOUNCE_NANOS,
    ensures
        admits(Some(last), now),
        stamped(Some(last), now) == Some(now),
{
}

/// Of two invocations less than a window apart, at most one is accepted,
/// whatever was remembered before.
pub proof fn lemma_window_admits_at_most_one(last: Option<u128>, first: u128, second: u128)
    requires
        first < second + DEBOUNCE_NANOS,
        second < first + DEBOUNCE_NANOS,
    ensures
        !(admits(last, first) && admits(stamped(last, first), second)),
{
}

/// If the first of two invocations less than a window apart is accepted, the
/// second is dropped and changes nothing of what the first left behind.
pub proof fn lemma_second_in_window_is_dropped(last: Option<u128>, first: u128, second: u128)
    requires
        first < second + DEBOUNCE_NANOS,
        second < first + DEBOUNCE_NANOS,
        admits(last, first),
    ensures
        !admits(stamped(last, first), second),
        stamped(stamped(last, first), second) == stamped(last, first),
{
}

/// Once an invocation is accepted, what is remembered never falls behind
/// its reading again.
proof fn lemma_remembered_keeps_up(last: Option<u128>, times: Seq<u128>, i: int, k: int)
    requires
        0 <= i < k <= times.len(),
        accepted(last, times, i),
    ensures
        remembered(last, times.take(k)) is Some,
        remembered(last, times.take(k))->0 >= times[i],
    decreases k,
{
    assert(times.take(k).drop_last() =~= times.take(k - 1));
    if k > i + 1 {
        lemma_remembered_keeps_up(last, times, i, k - 1);
    }
}

/// Any two accepted invocations are at least a full window apart, and the
/// later one has the later reading: whatever arrives, and in whatever order,
/// no window holds two accepted invocations.
pub proof fn lemma_accepted_are_a_window_apart(
    last: Option<u128>,
    times: Seq<u128>,
    i: int,
    j: int,
)
    requires
        0 <= i < j < times.len(),
        accepted(last, times, i),
        accepted(last, times, j),
    ensures
        times[j] >= times[i] + DEBOUNCE_NANOS,
{
    lemma_remembered_keeps_up(last, times, i, j);
}

/// Leaving out the last invocation changes nothing for those before it.
proof fn lemma_accepted_without_last(last: Option<u128>, times: Seq<u128>, k: int)
    requires
        0 <= k < times.len() - 1,
    ensures
        accepted(last, times.drop_last(), k) == accepted(last, times, k),
{
    assert(times.drop_last().take(k) =~= times.take(k));
}

/// The count is zero exactly when no invocation is accepted.
proof fn lemma_count_is_zero_iff_none_accepted(last: Option<u128>, times: Seq<u128>)
    ensures
        accepted_count(last, times) == 0 <==> forall|k: int|
            0 <= k < times.len() ==> !#[trigger] accepted(last, times, k),
    decreases times.len(),
{
    if times.len() > 0 {
        let front = times.drop_last();
        lemma_count_is_zero_iff_none_accepted(last, front);
        assert forall|k: int| 0 <= k < front.len() implies #[trigger] accepted(last, front, k)
            == accepted(last, times, k) by {
            lemma_accepted_without_last(last, times, k);
        }
        if accepted_count(last, times) == 0 {
            assert forall|k: int| 0 <= k < times.len() implies !#[trigger] accepted(
                last,
                times,
                k,
            ) by {
                if k < front.len() {
                    assert(!accepted(last, front, k));
                }
            }
        } else if !accepted(last, times, times.len() - 1) {
            assert(accepted_count(last, front) != 0);
            let k = choose|k: int| 0 <= k < front.len() && #[trigger] accepted(last, front, k);
            assert(accepted(last, times, k));
        }
    }
}

/// Of any number of invocations that all fall within one window, in whatever
/// order they arrive, at most one is accepted; and if the one that arrived
/// first found the window over, exactly one is: that one.
pub proof fn lemma_burst_admits_one(last: Option<u128>, times: Seq<u128>)
    requires
        within_one_window(times),
    ensures
        accepted_count(last, times) <= 1,
        times.len() > 0 && admits(last, times[0]) ==> accepted_count(last, times) == 1
            && accepted(last, times, 0),
    decreases times.len(),
{
    if times.len() > 0 {
        let front = times.drop_last();
        let end = times.len() - 1;
        assert forall|i: int, j: int| 0 <= i < front.len() && 0 <= j < front.len() implies
            #[trigger] front[i] < #[trigger] front[j] + DEBOUNCE_NANOS by {
            assert(front[i] == times[i]);
            assert(front[j] == times[j]);
        }
        lemma_burst_admits_one(last, front);
        lemma_count_is_zero_iff_none_accepted(last, front);
        lemma_count_is_zero_iff_none_accepted(last, times);
        assert(times.take(0) =~= Seq::<u128>::empty());
        if accepted(last, times, end) && accepted_count(last, front) != 0 {
            let k = choose|k: int| 0 <= k < front.len() && #[trigger] accepted(last, front, k);
            lemma_accepted_without_last(last, times, k);
            lemma_accepted_are_a_window_apart(last, times, k, end);
            assert(times[end] < times[k] + DEBOUNCE_NANOS);
        }
        if admits(last, times[0]) {
            assert(accepted(last, times, 0));
        }
    }
}

} // verus!
