//! Traces of the state machine, and the guarantees that hold of every trace.
//!
//! An [`Event`] is one occurrence the system reacts to: a sensor edge
//! delivering a new level, or one iteration of the idle monitor's poll, which
//! carries the level a re-sample of the sensor would read at that moment. A
//! trace is a sequence of events; [`run`] folds the transitions of
//! [`crate::state`] over it, and [`actions`] collects the power actions the
//! trace asks the actuator for. The proof functions below state the timing
//! guarantees of the state machine over arbitrary traces.

use vstd::prelude::*;

use crate::state::PinLevel;
use crate::state::PowerAction;
use crate::state::TimingState;
use crate::state::edge_action;
use crate::state::edge_step;
use crate::state::idle_expired_spec;
use crate::state::poll_action;
use crate::state::poll_step;

verus! {

/// How an event reaches the state machine: as an asynchronous sensor edge or
/// as one iteration of the idle monitor's poll.
#[derive(Clone, Copy, Debug, PartialEq, Eq, Structural)]
pub enum EventKind {
    Edge,
    Poll,
}

/// One occurrence in a trace: at time `at` (whole seconds), either a sensor
/// edge whose new level is `level`, or a poll for which a re-sample of the
/// sensor would read `level`.
#[derive(Clone, Copy, Debug, PartialEq, Eq, Structural)]
pub struct Event {
    pub kind: EventKind,
    pub level: PinLevel,
    pub at: i64,
}

/// The state after one event.
pub open spec fn step_state(s: TimingState, e: Event, timeout: i64) -> TimingState {
    match e.kind {
        EventKind::Edge => edge_step(s, e.level, e.at),
        EventKind::Poll => poll_step(s, e.at, e.level, timeout),
    }
}

/// The action one event asks the actuator for, if any.
pub open spec fn step_action(s: TimingState, e: Event, timeout: i64) -> Option<PowerAction> {
    match e.kind {
        EventKind::Edge => edge_action(e.level),
        EventKind::Poll => poll_action(s, e.at, e.level, timeout),
    }
}

/// The state after a whole trace, folded left to right.
pub open spec fn run(s: TimingState, es: Seq<Event>, timeout: i64) -> TimingState
    decreases es.len(),
{
    if es.len() == 0 {
        s
    } else {
        run(step_state(s, es[0], timeout), es.subrange(1, es.len() as int), timeout)
    }
}

/// The actions a whole trace asks the actuator for, in order.
pub open spec fn actions(s: TimingState, es: Seq<Event>, timeout: i64) -> Seq<PowerAction>
    decreases es.len(),
{
    if es.len() == 0 {
        Seq::empty()
    } else {
        let head = match step_action(s, es[0], timeout) {
            Some(a) => seq![a],
            None => Seq::empty(),
        };
        head + actions(step_state(s, es[0], timeout), es.subrange(1, es.len() as int), timeout)
    }
}

/// The state just before the event at index `i` is processed.
pub open spec fn state_at(s: TimingState, es: Seq<Event>, i: int, timeout: i64) -> TimingState {
    run(s, es.subrange(0, i), timeout)
}

/// The action the event at index `i` asks for, if any.
pub open spec fn action_at(s: TimingState, es: Seq<Event>, i: int, timeout: i64) -> Option<
    PowerAction,
> {
    step_action(state_at(s, es, i, timeout), es[i], timeout)
}

/// Event times never decrease along the trace: the clock only moves forward.
pub open spec fn times_ascending(es: Seq<Event>) -> bool {
    forall|i: int, j: int| 0 <= i < j < es.len() ==> es[i].at <= es[j].at
}

/// Event times strictly increase along the trace.
pub open spec fn times_strictly_ascending(es: Seq<Event>) -> bool {
    forall|i: int, j: int| 0 <= i < j < es.len() ==> es[i].at < es[j].at
}

/// The state's timestamps all lie at or before every event of the trace: the
/// trace starts no earlier than whatever the state already recorded.
pub open spec fn state_before(s: TimingState, es: Seq<Event>) -> bool {
    forall|i: int|
        0 <= i < es.len() ==> s.last_on <= es[i].at && s.last_off <= es[i].at
            && s.last_no_motion <= es[i].at
}

/// A sensor edge that reports motion.
pub open spec fn is_high_edge(e: Event) -> bool {
    e.kind is Edge && e.level is High
}

/// A sensor edge that reports no motion.
pub open spec fn is_low_edge(e: Event) -> bool {
    e.kind is Edge && e.level is Low
}

/// The polls' re-samples reflect the delivered edges: whenever a poll reads
/// `Low`, every earlier `High` edge has been followed, still before the poll,
/// by a `Low` edge. A sensor whose level is re-sampled as `Low` cannot still
/// be on the high level some earlier rising edge announced.
pub open spec fn faithful_sampling(es: Seq<Event>) -> bool {
    forall|j: int, m: int|
        0 <= m < j < es.len() && es[j].kind is Poll && es[j].level is Low && is_high_edge(es[m])
            ==> exists|m2: int| m < m2 < j && is_low_edge(#[trigger] es[m2])
}

/// Monotonicity: over any trace whose event times never decrease and start no
/// earlier than the given state, each of the three timestamps is
/// non-decreasing; in particular the final state's timestamps are at least
/// the initial state's. Applied to a prefix and a longer prefix of one trace
/// (see [`lemma_timestamps_monotonic_between`]), this says the timestamps
/// never decrease over time.
pub proof fn lemma_timestamps_monotonic(s: TimingState, es: Seq<Event>, timeout: i64)
    requires
        times_ascending(es),
        state_before(s, es),
    ensures
        run(s, es, timeout).last_on >= s.last_on,
        run(s, es, timeout).last_off >= s.last_off,
        run(s, es, timeout).last_no_motion >= s.last_no_motion,
    decreases es.len(),
{
    if es.len() > 0 {
        let s1 = step_state(s, es[0], timeout);
        let rest = es.subrange(1, es.len() as int);
        assert forall|i: int| 0 <= i < rest.len() implies s1.last_on <= rest[i].at
            && s1.last_off <= rest[i].at && s1.last_no_motion <= rest[i].at by {
            assert(rest[i] == es[i + 1]);
            assert(es[0].at <= es[i + 1].at);
        }
        assert forall|i: int, j: int| 0 <= i < j < rest.len() implies rest[i].at <= rest[j].at by {
            assert(rest[i] == es[i + 1]);
            assert(rest[j] == es[j + 1]);
        }
        lemma_timestamps_monotonic(s1, rest, timeout);
    }
}

/// Splitting a trace: running the concatenation of two traces is running the
/// first and then the second.
pub proof fn lemma_run_append(s: TimingState, es1: Seq<Event>, es2: Seq<Event>, timeout: i64)
    ensures
        run(s, es1 + es2, timeout) == run(run(s, es1, timeout), es2, timeout),
    decreases es1.len(),
{
    if es1.len() == 0 {
        assert(es1 + es2 =~= es2);
    } else {
        let all = es1 + es2;
        let s1 = step_state(s, all[0], timeout);
        assert(all[0] == es1[0]);
        assert(all.subrange(1, all.len() as int) =~= es1.subrange(1, es1.len() as int) + es2);
        lemma_run_append(s1, es1.subrange(1, es1.len() as int), es2, timeout);
    }
}

/// Monotonicity between two observation points of one trace: the timestamps
/// at the later point are at least the timestamps at the earlier one.
pub proof fn lemma_timestamps_monotonic_between(
    s: TimingState,
    es: Seq<Event>,
    timeout: i64,
    i: int,
    j: int,
)
    requires
        times_ascending(es),
        state_before(s, es),
        0 <= i <= j <= es.len(),
    ensures
        state_at(s, es, j, timeout).last_on >= state_at(s, es, i, timeout).last_on,
        state_at(s, es, j, timeout).last_off >= state_at(s, es, i, timeout).last_off,
        state_at(s, es, j, timeout).last_no_motion >= state_at(s, es, i, timeout).last_no_motion,
{
    let pre = es.subrange(0, i);
    let mid = es.subrange(i, j);
    assert(es.subrange(0, j) =~= pre + mid);
    lemma_run_append(s, pre, mid, timeout);
    let si = state_at(s, es, i, timeout);
    lemma_state_before_prefix(s, es, timeout, i);
    assert forall|a: int| 0 <= a < mid.len() implies si.last_on <= mid[a].at && si.last_off
        <= mid[a].at && si.last_no_motion <= mid[a].at by {
        assert(mid[a] == es[i + a]);
        lemma_state_at_bounded(s, es, timeout, i, i + a);
    }
    assert forall|a: int, b: int| 0 <= a < b < mid.len() implies mid[a].at <= mid[b].at by {
        assert(mid[a] == es[i + a]);
        assert(mid[b] == es[i + b]);
    }
    lemma_timestamps_monotonic(si, mid, timeout);
}

/// Restriction: the hypotheses of the monotonicity lemma carry over to any
/// prefix of the trace.
proof fn lemma_state_before_prefix(s: TimingState, es: Seq<Event>, timeout: i64, i: int)
    requires
        state_before(s, es),
        times_ascending(es),
        0 <= i <= es.len(),
    ensures
        state_before(s, es.subrange(0, i)),
        times_ascending(es.subrange(0, i)),
{
    let pre = es.subrange(0, i);
    assert forall|a: int| 0 <= a < pre.len() implies s.last_on <= pre[a].at && s.last_off
        <= pre[a].at && s.last_no_motion <= pre[a].at by {
        assert(pre[a] == es[a]);
    }
    assert forall|a: int, b: int| 0 <= a < b < pre.len() implies pre[a].at <= pre[b].at by {
        assert(pre[a] == es[a]);
        assert(pre[b] == es[b]);
    }
}

/// The state reached after processing events up to index `i` has all its
/// timestamps at or before the time of any event at index `j >= i`.
proof fn lemma_state_at_bounded(s: TimingState, es: Seq<Event>, timeout: i64, i: int, j: int)
    requires
        times_ascending(es),
        state_before(s, es),
        0 <= i <= j < es.len(),
    ensures
        state_at(s, es, i, timeout).last_on <= es[j].at,
        state_at(s, es, i, timeout).last_off <= es[j].at,
        state_at(s, es, i, timeout).last_no_motion <= es[j].at,
    decreases i,
{
    if i == 0 {
        assert(es.subrange(0, 0) =~= Seq::<Event>::empty());
    } else {
        let pre = es.subrange(0, i);
        let shorter = es.subrange(0, i - 1);
        assert(pre =~= shorter + seq![es[i - 1]]);
        lemma_run_append(s, shorter, seq![es[i - 1]], timeout);
        lemma_state_at_bounded(s, es, timeout, i - 1, j);
        let sp = state_at(s, es, i - 1, timeout);
        let one = seq![es[i - 1]];
        assert(one[0] == es[i - 1]);
        assert(one.subrange(1, 1) =~= Seq::<Event>::empty());
        assert(run(step_state(sp, one[0], timeout), one.subrange(1, 1), timeout) == step_state(
            sp,
            one[0],
            timeout,
        ));
        assert(run(sp, one, timeout) == step_state(sp, es[i - 1], timeout));
        assert(es[i - 1].at <= es[j].at);
    }
}

/// A `Low` edge leaves its mark: after the whole trace, `last_no_motion` is
/// at least the time of any `Low` edge the trace contains.
proof fn lemma_low_edge_floor(s: TimingState, es: Seq<Event>, timeout: i64, m: int)
    requires
        times_ascending(es),
        state_before(s, es),
        0 <= m < es.len(),
        is_low_edge(es[m]),
    ensures
        run(s, es, timeout).last_no_motion >= es[m].at,
    decreases es.len(),
{
    let s1 = step_state(s, es[0], timeout);
    let rest = es.subrange(1, es.len() as int);
    assert forall|i: int| 0 <= i < rest.len() implies s1.last_on <= rest[i].at && s1.last_off
        <= rest[i].at && s1.last_no_motion <= rest[i].at by {
        assert(rest[i] == es[i + 1]);
        assert(es[0].at <= es[i + 1].at);
    }
    assert forall|i: int, j: int| 0 <= i < j < rest.len() implies rest[i].at <= rest[j].at by {
        assert(rest[i] == es[i + 1]);
        assert(rest[j] == es[j + 1]);
    }
    if m == 0 {
        assert(s1.last_no_motion == es[0].at);
        lemma_timestamps_monotonic(s1, rest, timeout);
    } else {
        assert(rest[m - 1] == es[m]);
        lemma_low_edge_floor(s1, rest, timeout, m - 1);
    }
}

/// No premature power-off: once a `High` edge has occurred at some time `T`,
/// no poll that happens before `T` plus the idle timeout asks for a
/// power-off — even if a `Low` edge follows immediately after `T` — provided
/// the polls' re-samples reflect the delivered edges.
pub proof fn lemma_no_premature_off(
    s: TimingState,
    es: Seq<Event>,
    timeout: i64,
    k: int,
    j: int,
)
    requires
        times_ascending(es),
        state_before(s, es),
        faithful_sampling(es),
        0 <= k < j < es.len(),
        is_high_edge(es[k]),
        es[j].kind is Poll,
        es[j].at < es[k].at + timeout,
    ensures
        action_at(s, es, j, timeout) != Some(PowerAction::PowerOff),
{
    if es[j].level is Low {
        let m2 = choose|m2: int| k < m2 < j && is_low_edge(#[trigger] es[m2]);
        assert(k < m2 < j && is_low_edge(es[m2]));
        let pre = es.subrange(0, j);
        lemma_state_before_prefix(s, es, timeout, j);
        assert(pre[m2] == es[m2]);
        lemma_low_edge_floor(s, pre, timeout, m2);
        let sj = state_at(s, es, j, timeout);
        assert(sj.last_no_motion >= es[m2].at);
        assert(es[k].at <= es[m2].at);
        assert(es[j].at - sj.last_no_motion < timeout);
        assert(!idle_expired_spec(sj, es[j].at, timeout));
    }
}

/// Idempotent power-on: between two `High` edges in quick succession — the
/// second falls within the idle timeout of the first — no poll asks for a
/// power-off, however many such edges repeat. Each `High` edge itself asks
/// for a power-on and never for a power-off (see
/// [`crate::state::edge_action`]).
pub proof fn lemma_rapid_motion_no_off(
    s: TimingState,
    es: Seq<Event>,
    timeout: i64,
    k1: int,
    k2: int,
    j: int,
)
    requires
        times_ascending(es),
        state_before(s, es),
        faithful_sampling(es),
        0 <= k1 < j < k2 < es.len(),
        is_high_edge(es[k1]),
        is_high_edge(es[k2]),
        es[k2].at < es[k1].at + timeout,
        es[j].kind is Poll,
    ensures
        action_at(s, es, j, timeout) != Some(PowerAction::PowerOff),
{
    assert(es[j].at <= es[k2].at);
    lemma_no_premature_off(s, es, timeout, k1, j);
}

/// How the actuator-call history reads as a power state: the display counts
/// as on when the most recent call was a power-on, and keeps its previous
/// standing when no call was made at all.
pub open spec fn on_per_actions(acts: Seq<PowerAction>, was_on: bool) -> bool {
    if acts.len() == 0 {
        was_on
    } else {
        acts.last() is PowerOn
    }
}

/// Derived-state consistency over any suffix: the power state derived from
/// the timestamps after the trace matches the last actuator call the trace
/// issued, starting from a state whose power-on lies no later and whose
/// power-off lies strictly earlier than every event.
proof fn lemma_state_matches_actions_from(s: TimingState, es: Seq<Event>, timeout: i64)
    requires
        times_strictly_ascending(es),
        forall|i: int|
            0 <= i < es.len() ==> s.last_on <= es[i].at && s.last_off < es[i].at,
    ensures
        run(s, es, timeout).is_on() == on_per_actions(actions(s, es, timeout), s.is_on()),
    decreases es.len(),
{
    if es.len() > 0 {
        let e0 = es[0];
        let s1 = step_state(s, e0, timeout);
        let rest = es.subrange(1, es.len() as int);
        assert forall|i: int| 0 <= i < rest.len() implies s1.last_on <= rest[i].at && s1.last_off
            < rest[i].at by {
            assert(rest[i] == es[i + 1]);
            assert(es[0].at < es[i + 1].at);
        }
        assert forall|i: int, j: int| 0 <= i < j < rest.len() implies rest[i].at < rest[j].at by {
            assert(rest[i] == es[i + 1]);
            assert(rest[j] == es[j + 1]);
        }
        lemma_state_matches_actions_from(s1, rest, timeout);
        let head_act = step_action(s, e0, timeout);
        let rest_acts = actions(s1, rest, timeout);
        match head_act {
            Some(a) => {
                if a is PowerOn {
                    assert(s1.last_on == e0.at && s1.last_off == s.last_off);
                    assert(s1.is_on());
                } else {
                    assert(s1.last_off == e0.at && s1.last_on == s.last_on);
                    assert(!s1.is_on());
                }
                assert(actions(s, es, timeout) == seq![a] + rest_acts);
                if rest_acts.len() == 0 {
                    assert((seq![a] + rest_acts).last() == a);
                }
            },
            None => {
                assert(s1.last_on == s.last_on && s1.last_off == s.last_off);
                assert(s1.is_on() == s.is_on());
                assert(actions(s, es, timeout) == Seq::<PowerAction>::empty() + rest_acts);
                assert(Seq::<PowerAction>::empty() + rest_acts =~= rest_acts);
            },
        }
    }
}

/// Derived-state consistency: starting from the initial state, over any trace
/// of non-negative, strictly increasing event times, the power state derived
/// from `last_on` and `last_off` matches the sequence of actuator calls the
/// trace issued — on exactly when at least one call was made and the most
/// recent one was a power-on.
pub proof fn lemma_display_state_matches_actions(es: Seq<Event>, timeout: i64)
    requires
        times_strictly_ascending(es),
        forall|i: int| 0 <= i < es.len() ==> (#[trigger] es[i].at) >= 0,
    ensures
        ({
            let acts = actions(TimingState::initial(), es, timeout);
            run(TimingState::initial(), es, timeout).is_on() == (acts.len() > 0 && acts.last()
                is PowerOn)
        }),
{
    let s0 = TimingState::initial();
    assert(!s0.is_on());
    lemma_state_matches_actions_from(s0, es, timeout);
}

} // verus!
