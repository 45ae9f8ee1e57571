//! The change-detection and throttle policy: given the previously broadcast
//! configuration, a candidate new one and the elapsed time since the last
//! send, decide whether the update is worth sending now.
//!
//! The policy: an unchanged value is never sent; any change beyond mere
//! progress motion is sent immediately; a progress-only change while paused
//! (manual scrubbing) is sent immediately; a progress-only change while
//! playing is sent only once the configured throttle interval has elapsed
//! since the last send, so continuous auto-advance is coalesced.

use crate::state::{only_progress_differs, ConfigView, TeleprompterConfig};
use vstd::prelude::*;

verus! {

/// The send decision as a pure predicate over the previous broadcast
/// state, the candidate, the elapsed milliseconds since the last send and
/// the configured throttle interval. A throttle interval of `0` disables
/// throttling altogether.
pub open spec fn spec_should_send(
    prev: ConfigView,
    next: ConfigView,
    elapsed_ms: int,
    throttle_ms: int,
) -> bool {
    &&& next != prev
    &&& (only_progress_differs(prev, next) && next.playing ==> elapsed_ms >= throttle_ms)
}

/// Exec form of [`spec_should_send`]: the pure decision function of the
/// policy, usable by any producer loop.
pub fn should_send(
    prev: &TeleprompterConfig,
    next: &TeleprompterConfig,
    elapsed_ms: u64,
    throttle_ms: u64,
) -> (send: bool)
    ensures
        send == spec_should_send(prev@, next@, elapsed_ms as int, throttle_ms as int),
{
    if prev == next {
        false
    } else if !prev.only_progress_changed(next) {
        true
    } else if !next.playing {
        true
    } else {
        elapsed_ms >= throttle_ms
    }
}

/// The mathematical value of a [`ChangeGate`].
#[verifier::ext_equal]
pub ghost struct GateView {
    pub throttle_ms: u64,
    pub last_sent: ConfigView,
    pub last_send_at: u64,
}

/// What an offer does to a gate: if the decision is to send, the candidate
/// becomes the reference state and the offer time the reference time;
/// otherwise nothing moves.
pub open spec fn spec_offer(g: GateView, next: ConfigView, now_ms: u64) -> (bool, GateView) {
    if spec_should_send(g.last_sent, next, now_ms - g.last_send_at, g.throttle_ms as int) {
        (true, GateView { last_sent: next, last_send_at: now_ms, ..g })
    } else {
        (false, g)
    }
}

/// Stateful form of the policy: remembers the last configuration it let
/// through and when, and judges each candidate against them.
pub struct ChangeGate {
    throttle_ms: u64,
    last_sent: TeleprompterConfig,
    last_send_at: u64,
}

impl View for ChangeGate {
    type V = GateView;

    closed spec fn view(&self) -> GateView {
        GateView {
            throttle_ms: self.throttle_ms,
            last_sent: self.last_sent@,
            last_send_at: self.last_send_at,
        }
    }
}

impl ChangeGate {
    /// A gate whose reference point is `initial`, treated as sent at
    /// `now_ms` on a monotonic millisecond clock.
    pub fn new(initial: TeleprompterConfig, throttle_ms: u64, now_ms: u64) -> (g: ChangeGate)
        ensures
            g@ == (GateView { throttle_ms, last_sent: initial@, last_send_at: now_ms }),
    {
        ChangeGate { throttle_ms, last_sent: initial, last_send_at: now_ms }
    }

    /// Judge a candidate at time `now_ms` (same monotonic clock as the
    /// constructor): returns whether to send it, and if so adopts it as
    /// the new reference point.
    pub fn offer(&mut self, next: &TeleprompterConfig, now_ms: u64) -> (send: bool)
        requires
            now_ms >= old(self)@.last_send_at,
        ensures
            send == spec_offer(old(self)@, next@, now_ms).0,
            final(self)@ == spec_offer(old(self)@, next@, now_ms).1,
            send == spec_should_send(
                old(self)@.last_sent,
                next@,
                now_ms - old(self)@.last_send_at,
                old(self)@.throttle_ms as int,
            ),
            send ==> final(self)@.last_sent == next@ && final(self)@.last_send_at == now_ms,
            !send ==> final(self)@ == old(self)@,
            final(self)@.throttle_ms == old(self)@.throttle_ms,
            final(self)@.last_send_at >= old(self)@.last_send_at,
    {
        let elapsed = now_ms - self.last_send_at;
        let send = should_send(&self.last_sent, next, elapsed, self.throttle_ms);
        if send {
            self.last_sent = next.clone();
            self.last_send_at = now_ms;
        }
        proof {
            assert(self@ =~= spec_offer(old(self)@, next@, now_ms).1);
        }
        send
    }
}

/// One timed candidate in a run of producer offers.
#[verifier::ext_equal]
pub ghost struct TimedOffer {
    pub next: ConfigView,
    pub at: u64,
}

/// The state a gate reaches after judging a whole run of offers in
/// order.
pub open spec fn gate_after(g: GateView, run: Seq<TimedOffer>) -> GateView
    decreases run.len(),
{
    if run.len() == 0 {
        g
    } else {
        spec_offer(gate_after(g, run.drop_last()), run.last().next, run.last().at).1
    }
}

/// Whether offer `k` of the run is let through.
pub open spec fn accepted_at(g: GateView, run: Seq<TimedOffer>, k: int) -> bool {
    spec_offer(gate_after(g, run.take(k)), run[k].next, run[k].at).0
}

/// A run's clock is sound when every offer happens at or after the last
/// send recorded at that point — what the exec entry point demands of
/// each call.
pub open spec fn run_clock_ok(g: GateView, run: Seq<TimedOffer>) -> bool {
    forall|m: int|
        0 <= m < run.len() ==> (#[trigger] run[m].at) >= gate_after(g, run.take(m)).last_send_at
}

/// Judging offers never changes the configured throttle interval.
proof fn lemma_gate_after_throttle(g: GateView, run: Seq<TimedOffer>)
    ensures
        gate_after(g, run).throttle_ms == g.throttle_ms,
    decreases run.len(),
{
    if run.len() > 0 {
        lemma_gate_after_throttle(g, run.drop_last());
    }
}

/// Once offer `i` is accepted, the recorded send time never falls below
/// its time again: later offers either keep the record or move it
/// forward.
proof fn lemma_send_time_persists(g: GateView, run: Seq<TimedOffer>, i: int, k: int)
    requires
        0 <= i < k <= run.len(),
        run_clock_ok(g, run),
        accepted_at(g, run, i),
    ensures
        gate_after(g, run.take(k)).last_send_at >= run[i].at,
    decreases k - i,
{
    if k == i + 1 {
        assert(run.take(k).drop_last() =~= run.take(i));
        assert(run.take(k).last() == run[i]);
    } else {
        lemma_send_time_persists(g, run, i, k - 1);
        assert(run.take(k).drop_last() =~= run.take(k - 1));
        assert(run.take(k).last() == run[k - 1]);
        assert(run[k - 1].at >= gate_after(g, run.take(k - 1)).last_send_at);
    }
}

/// Throttle correctness over a whole run: any accepted progress-only
/// send while playing lies at least the throttle interval after every
/// earlier accepted send, whatever rejected offers came in between.
pub proof fn lemma_throttle_spacing_in_run(g: GateView, run: Seq<TimedOffer>, i: int, j: int)
    requires
        0 <= i < j < run.len(),
        run_clock_ok(g, run),
        accepted_at(g, run, i),
        accepted_at(g, run, j),
        only_progress_differs(gate_after(g, run.take(j)).last_sent, run[j].next),
        run[j].next.playing,
    ensures
        run[j].at - run[i].at >= g.throttle_ms,
{
    lemma_gate_after_throttle(g, run.take(j));
    lemma_send_time_persists(g, run, i, j);
}

/// Throttle correctness, spacing half: when an accepted send is followed
/// by an accepted progress-only send while playing, the two lie at least
/// the throttle interval apart. A rejected offer leaves the state as it
/// was, so this covers any two accepted sends in a run of offers with
/// rejections in between.
pub proof fn lemma_throttle_spacing(
    g: GateView,
    n1: ConfigView,
    t1: u64,
    n2: ConfigView,
    t2: u64,
)
    requires
        t1 >= g.last_send_at,
        spec_offer(g, n1, t1).0,
        t2 >= spec_offer(g, n1, t1).1.last_send_at,
        spec_offer(spec_offer(g, n1, t1).1, n2, t2).0,
        only_progress_differs(n1, n2),
        n2.playing,
    ensures
        t2 - t1 >= g.throttle_ms,
{
}

/// Throttle correctness, bypass half: a change that touches any field
/// other than `progress` is sent whatever the elapsed time.
pub proof fn lemma_non_progress_bypasses_throttle(
    prev: ConfigView,
    next: ConfigView,
    elapsed_ms: int,
    throttle_ms: int,
)
    requires
        prev != next,
        !only_progress_differs(prev, next),
    ensures
        spec_should_send(prev, next, elapsed_ms, throttle_ms),
{
}

/// Pause bypass: while not playing, a progress-only change (manual
/// scrubbing) is sent whatever the elapsed time.
pub proof fn lemma_pause_bypass(
    prev: ConfigView,
    next: ConfigView,
    elapsed_ms: int,
    throttle_ms: int,
)
    requires
        only_progress_differs(prev, next),
        !next.playing,
    ensures
        spec_should_send(prev, next, elapsed_ms, throttle_ms),
{
}

/// An unchanged configuration is never sent.
pub proof fn lemma_unchanged_never_sent(
    prev: ConfigView,
    next: ConfigView,
    elapsed_ms: int,
    throttle_ms: int,
)
    requires
        prev == next,
    ensures
        !spec_should_send(prev, next, elapsed_ms, throttle_ms),
{
}

/// A throttle interval of zero disables throttling: every change is sent.
pub proof fn lemma_zero_throttle_disables(
    prev: ConfigView,
    next: ConfigView,
    elapsed_ms: int,
)
    requires
        elapsed_ms >= 0,
    ensures
        spec_should_send(prev, next, elapsed_ms, 0) == (prev != next),
{
}

} // verus!
