//! The pub/sub hub: decouples the single producer from any number of
//! viewers. The hub retains the latest published configuration, and keeps
//! one bounded drop-oldest queue per subscriber, under an explicit
//! registry. A late joiner gets the retained value as its snapshot; a slow
//! subscriber loses the oldest queued values but never sees anything out
//! of publish order; a broken subscriber is simply unsubscribed and never
//! disturbs the producer or the other subscribers.
//!
//! The hub carries a ghost publish log (the initial value followed by
//! every published value) and, per subscriber, ghost sequences of the
//! values already handed out and of the log positions they and the queued
//! values came from. The central invariant: each subscriber's handed-out
//! values followed by its queued values sit at strictly increasing
//! positions of the log.

use crate::state::{ConfigView, TeleprompterConfig};
use vstd::prelude::*;

verus! {

/// The mathematical value of one subscriber slot: whether it is still
/// subscribed, the values already handed to it (its snapshot first), and
/// the values queued for it, oldest first.
#[verifier::ext_equal]
pub ghost struct SubView {
    pub active: bool,
    pub delivered: Seq<ConfigView>,
    pub queue: Seq<ConfigView>,
}

/// The mathematical value of the hub: the publish log (initial value
/// first), the subscriber slots in subscription order, and the queue
/// bound.
#[verifier::ext_equal]
pub ghost struct HubView {
    pub log: Seq<ConfigView>,
    pub subs: Seq<SubView>,
    pub cap: nat,
}

/// `idx` maps each element of `a` to a strictly increasing position of
/// `b` holding the same value.
pub open spec fn increasing_indices_into(
    idx: Seq<int>,
    a: Seq<ConfigView>,
    b: Seq<ConfigView>,
) -> bool {
    &&& idx.len() == a.len()
    &&& forall|k: int|
        0 <= k < idx.len() ==> 0 <= #[trigger] idx[k] < b.len() && a[k] == b[idx[k]]
    &&& forall|k: int| 0 < k < idx.len() ==> idx[k - 1] < #[trigger] idx[k]
}

/// `a` is a subsequence of `b`: its values appear in `b` in the same
/// order, possibly with gaps.
pub open spec fn subsequence_of(a: Seq<ConfigView>, b: Seq<ConfigView>) -> bool {
    exists|idx: Seq<int>| increasing_indices_into(idx, a, b)
}

impl SubView {
    /// A slot is well formed against a log and bound when its queue is
    /// within the bound and everything it has seen or will see is a
    /// subsequence of the log.
    pub open spec fn wf(self, log: Seq<ConfigView>, cap: nat) -> bool {
        &&& self.queue.len() <= cap
        &&& subsequence_of(self.delivered + self.queue, log)
    }
}

impl HubView {
    pub open spec fn wf(self) -> bool {
        &&& self.log.len() >= 1
        &&& self.cap >= 1
        &&& forall|i: int|
            0 <= i < self.subs.len() ==> (#[trigger] self.subs[i]).wf(self.log, self.cap)
    }
}

/// A bounded push: room permitting the value goes to the back, otherwise
/// the oldest queued value is dropped to make room (drop-oldest policy).
pub open spec fn spec_push_bounded(q: Seq<ConfigView>, v: ConfigView, cap: nat) -> Seq<
    ConfigView,
> {
    if q.len() >= cap {
        q.drop_first().push(v)
    } else {
        q.push(v)
    }
}

/// What a publish does to one slot: an active slot is offered the value
/// through a bounded push; an inactive slot is left alone.
pub open spec fn spec_publish_sub(s: SubView, v: ConfigView, cap: nat) -> SubView {
    if s.active {
        SubView { queue: spec_push_bounded(s.queue, v, cap), ..s }
    } else {
        s
    }
}

/// What a publish does to the hub: the value is appended to the log and
/// offered to every slot.
pub open spec fn spec_publish(h: HubView, v: ConfigView) -> HubView {
    HubView {
        log: h.log.push(v),
        subs: h.subs.map_values(|s: SubView| spec_publish_sub(s, v, h.cap)),
        cap: h.cap,
    }
}

/// What a subscribe does to the hub: a fresh active slot whose snapshot
/// is the last value of the log.
pub open spec fn spec_subscribe(h: HubView) -> HubView {
    HubView {
        subs: h.subs.push(
            SubView { active: true, delivered: seq![h.log.last()], queue: Seq::empty() },
        ),
        ..h
    }
}

/// What an unsubscribe does to the hub: the slot, if there is one, goes
/// inactive and its queue is released; anything else is a no-op.
pub open spec fn spec_unsubscribe(h: HubView, i: int) -> HubView {
    if 0 <= i < h.subs.len() {
        HubView {
            subs: h.subs.update(
                i,
                SubView { active: false, queue: Seq::empty(), ..h.subs[i] },
            ),
            ..h
        }
    } else {
        h
    }
}

/// What shutting the hub down does: every slot goes inactive with its
/// queue released, so every streaming session observes closure; the log
/// and the delivered histories stay.
pub open spec fn spec_shutdown(h: HubView) -> HubView {
    HubView {
        subs: h.subs.map_values(
            |s: SubView| SubView { active: false, queue: Seq::empty(), ..s },
        ),
        ..h
    }
}

/// What a receive does to the hub: the oldest queued value of an active
/// slot moves to its delivered side; an empty or released slot yields
/// nothing.
pub open spec fn spec_recv(h: HubView, i: int) -> (Option<ConfigView>, HubView) {
    if 0 <= i < h.subs.len() && h.subs[i].active && h.subs[i].queue.len() > 0 {
        let v = h.subs[i].queue.first();
        (
            Some(v),
            HubView {
                subs: h.subs.update(
                    i,
                    SubView {
                        active: true,
                        delivered: h.subs[i].delivered.push(v),
                        queue: h.subs[i].queue.drop_first(),
                    },
                ),
                ..h
            },
        )
    } else {
        (None, h)
    }
}

/// One registered subscriber: its bounded queue of pending values plus
/// the ghost record of what it already received and where in the log
/// everything came from.
struct SubscriberSlot {
    active: bool,
    queue: Vec<TeleprompterConfig>,
    delivered: Ghost<Seq<ConfigView>>,
    didx: Ghost<Seq<int>>,
    qidx: Ghost<Seq<int>>,
}

/// The value of a slot, queued configurations taken at their views.
spec fn slot_view(s: SubscriberSlot) -> SubView {
    SubView {
        active: s.active,
        delivered: s.delivered@,
        queue: s.queue@.map_values(|c: TeleprompterConfig| c@),
    }
}

/// The slot's ghost indices really index the log, increasingly.
spec fn slot_inv(s: SubscriberSlot, log: Seq<ConfigView>, cap: nat) -> bool {
    &&& s.queue@.len() <= cap
    &&& s.didx@.len() == s.delivered@.len()
    &&& s.qidx@.len() == s.queue@.len()
    &&& forall|k: int|
        0 <= k < s.didx@.len() ==> 0 <= #[trigger] s.didx@[k] < log.len() && s.delivered@[k]
            == log[s.didx@[k]]
    &&& forall|k: int|
        0 <= k < s.qidx@.len() ==> 0 <= #[trigger] s.qidx@[k] < log.len() && s.queue@[k]@
            == log[s.qidx@[k]]
    &&& forall|k: int| 0 < k < s.didx@.len() ==> s.didx@[k - 1] < #[trigger] s.didx@[k]
    &&& forall|k: int| 0 < k < s.qidx@.len() ==> s.qidx@[k - 1] < #[trigger] s.qidx@[k]
    &&& (s.didx@.len() > 0 && s.qidx@.len() > 0 ==> s.didx@.last() < s.qidx@.first())
}

/// A slot that is well formed against a log stays well formed when the
/// log grows at the back.
proof fn lemma_slot_inv_push_log(s: SubscriberSlot, log: Seq<ConfigView>, cap: nat, v: ConfigView)
    requires
        slot_inv(s, log, cap),
    ensures
        slot_inv(s, log.push(v), cap),
{
}

/// The concatenation of a slot's ghost index sequences witnesses that its
/// history is a subsequence of the log.
proof fn lemma_slot_inv_wf(s: SubscriberSlot, log: Seq<ConfigView>, cap: nat)
    requires
        slot_inv(s, log, cap),
    ensures
        slot_view(s).wf(log, cap),
{
    let w = s.didx@ + s.qidx@;
    let a = slot_view(s).delivered + slot_view(s).queue;
    assert forall|k: int| 0 <= k < w.len() implies 0 <= #[trigger] w[k] < log.len() && a[k]
        == log[w[k]] by {
        if k < s.didx@.len() {
            assert(w[k] == s.didx@[k]);
            assert(a[k] == s.delivered@[k]);
        } else {
            assert(w[k] == s.qidx@[k - s.didx@.len()]);
            assert(a[k] == s.queue@.map_values(|c: TeleprompterConfig| c@)[k - s.didx@.len()]);
        }
    }
    assert forall|k: int| 0 < k < w.len() implies w[k - 1] < #[trigger] w[k] by {
        let d = s.didx@.len() as int;
        if k < d {
        } else if k == d {
            assert(w[k - 1] == s.didx@.last());
            assert(w[k] == s.qidx@.first());
        } else {
            assert(w[k - 1] == s.qidx@[k - 1 - d]);
            assert(w[k] == s.qidx@[k - d]);
        }
    }
    assert(increasing_indices_into(w, a, log));
}

/// The fan-out hub itself.
pub struct BroadcastHub {
    current: TeleprompterConfig,
    cap: usize,
    subs: Vec<SubscriberSlot>,
    log: Ghost<Seq<ConfigView>>,
}

impl View for BroadcastHub {
    type V = HubView;

    closed spec fn view(&self) -> HubView {
        HubView {
            log: self.log@,
            subs: self.subs@.map_values(|s: SubscriberSlot| slot_view(s)),
            cap: self.cap as nat,
        }
    }
}

impl BroadcastHub {
    /// The hub's internal invariant; every method takes and returns a hub
    /// satisfying it.
    pub closed spec fn inv(&self) -> bool {
        &&& self.log@.len() >= 1
        &&& self.cap >= 1
        &&& self.current@ == self.log@.last()
        &&& forall|i: int|
            0 <= i < self.subs@.len() ==> slot_inv(
                #[trigger] self.subs@[i],
                self.log@,
                self.cap as nat,
            )
    }

    /// A well-formed hub view follows from the invariant.
    pub proof fn lemma_inv_wf(&self)
        requires
            self.inv(),
        ensures
            self@.wf(),
    {
        assert forall|i: int| 0 <= i < self@.subs.len() implies (#[trigger] self@.subs[i]).wf(
            self@.log,
            self@.cap,
        ) by {
            assert(self@.subs[i] == slot_view(self.subs@[i]));
            lemma_slot_inv_wf(self.subs@[i], self.log@, self.cap as nat);
        }
    }

    /// A hub retaining `initial`, with no subscribers yet and the given
    /// per-subscriber queue bound.
    pub fn new(initial: TeleprompterConfig, cap: usize) -> (hub: BroadcastHub)
        requires
            cap >= 1,
        ensures
            hub.inv(),
            hub@.wf(),
            hub@ == (HubView {
                log: seq![initial@],
                subs: Seq::<SubView>::empty(),
                cap: cap as nat,
            }),
    {
        let ghost l: Seq<ConfigView> = seq![initial@];
        let hub = BroadcastHub { current: initial, cap, subs: Vec::new(), log: Ghost(l) };
        proof {
            assert(hub@ =~~= HubView {
                log: seq![initial@],
                subs: Seq::<SubView>::empty(),
                cap: cap as nat,
            });
            hub.lemma_inv_wf();
        }
        hub
    }

    /// Publish a new configuration: it becomes the retained value and is
    /// offered to every subscriber's queue under the drop-oldest policy.
    /// Publishing never fails and never depends on any subscriber's
    /// state.
    pub fn publish(&mut self, s: &TeleprompterConfig)
        requires
            old(self).inv(),
        ensures
            final(self).inv(),
            final(self)@.wf(),
            final(self)@ == spec_publish(old(self)@, s@),
    {
        proof {
            self.log@ = self.log@.push(s@);
        }
        self.current = s.clone();
        let ghost h0 = *old(self);
        let n = self.subs.len();
        let mut i: usize = 0;
        while i < n
            invariant
                n == self.subs@.len(),
                i <= n,
                self.cap == h0.cap,
                self.cap >= 1,
                self.log@ == h0.log@.push(s@),
                self.current@ == s@,
                forall|j: int| i <= j < n ==> self.subs@[j] == h0.subs@[j],
                forall|j: int|
                    i <= j < n ==> slot_inv(#[trigger] self.subs@[j], h0.log@, self.cap as nat),
                forall|j: int|
                    0 <= j < i ==> slot_inv(#[trigger] self.subs@[j], self.log@, self.cap as nat),
                forall|j: int|
                    0 <= j < i ==> slot_view(#[trigger] self.subs@[j]) == spec_publish_sub(
                        slot_view(h0.subs@[j]),
                        s@,
                        self.cap as nat,
                    ),
            decreases n - i,
        {
            let ghost pre = self.subs@[i as int];
            let slot = &mut self.subs[i];
            if slot.active {
                if slot.queue.len() >= self.cap {
                    let _dropped = slot.queue.remove(0);
                    proof {
                        slot.qidx@ = slot.qidx@.drop_first();
                        assert(slot.queue@ =~= pre.queue@.drop_first());
                    }
                }
                slot.queue.push(s.clone());
                proof {
                    slot.qidx@ = slot.qidx@.push(h0.log@.len() as int);
                }
                proof {
                    let cap = self.cap as nat;
                    assert forall|k: int|
                        0 <= k < slot.qidx@.len() implies 0 <= #[trigger] slot.qidx@[k]
                        < self.log@.len() && slot.queue@[k]@ == self.log@[slot.qidx@[k]] by {
                        if k < slot.qidx@.len() - 1 {
                            if pre.queue@.len() >= cap {
                                assert(slot.qidx@[k] == pre.qidx@[k + 1]);
                                assert(slot.queue@[k] == pre.queue@[k + 1]);
                            } else {
                                assert(slot.qidx@[k] == pre.qidx@[k]);
                                assert(slot.queue@[k] == pre.queue@[k]);
                            }
                        } else {
                            assert(slot.qidx@[k] == h0.log@.len() as int);
                            assert(slot.queue@[k]@ == s@);
                        }
                    }
                    assert(slot_inv(*slot, self.log@, cap));
                    assert(slot_view(*slot).queue =~= spec_push_bounded(
                        slot_view(pre).queue,
                        s@,
                        cap,
                    ));
                    assert(slot_view(*slot) =~= spec_publish_sub(slot_view(pre), s@, cap));
                }
            } else {
                proof {
                    lemma_slot_inv_push_log(*slot, h0.log@, self.cap as nat, s@);
                }
            }
            i = i + 1;
        }
        proof {
            assert(self@.subs =~= spec_publish(h0@, s@).subs);
            assert(self@ =~~= spec_publish(h0@, s@));
            self.lemma_inv_wf();
        }
    }

    /// Subscribe a new viewer: returns its session identifier and, as the
    /// snapshot, exactly the value most recently published (or the
    /// initial value when nothing was published yet). Subscribing never
    /// waits for a publish.
    pub fn subscribe(&mut self) -> (r: (usize, TeleprompterConfig))
        requires
            old(self).inv(),
        ensures
            final(self).inv(),
            final(self)@.wf(),
            final(self)@ == spec_subscribe(old(self)@),
            r.0 == old(self)@.subs.len(),
            r.1@ == old(self)@.log.last(),
    {
        let id = self.subs.len();
        let snapshot = self.current.clone();
        let ghost d: Seq<ConfigView> = seq![self.current@];
        let ghost di: Seq<int> = seq![self.log@.len() - 1];
        self.subs.push(
            SubscriberSlot {
                active: true,
                queue: Vec::new(),
                delivered: Ghost(d),
                didx: Ghost(di),
                qidx: Ghost(Seq::empty()),
            },
        );
        proof {
            assert(self@.subs =~~= spec_subscribe(old(self)@).subs);
            assert(self@ =~~= spec_subscribe(old(self)@));
            self.lemma_inv_wf();
        }
        (id, snapshot)
    }

    /// Release a subscriber's slot. Safe on any identifier, live, already
    /// released or never issued; releasing twice is the same as releasing
    /// once.
    pub fn unsubscribe(&mut self, id: usize)
        requires
            old(self).inv(),
        ensures
            final(self).inv(),
            final(self)@.wf(),
            final(self)@ == spec_unsubscribe(old(self)@, id as int),
    {
        if id < self.subs.len() {
            let slot = &mut self.subs[id];
            slot.active = false;
            slot.queue.clear();
            proof {
                slot.qidx@ = Seq::empty();
                assert(self@.subs =~~= spec_unsubscribe(old(self)@, id as int).subs);
                assert(self@ =~~= spec_unsubscribe(old(self)@, id as int));
            }
        } else {
            proof {
                assert(self@ =~~= spec_unsubscribe(old(self)@, id as int));
            }
        }
        proof {
            self.lemma_inv_wf();
        }
    }

    /// Hand the subscriber its next pending value, oldest first, or
    /// nothing when its queue is empty or its slot was released.
    pub fn recv(&mut self, id: usize) -> (r: Option<TeleprompterConfig>)
        requires
            old(self).inv(),
        ensures
            final(self).inv(),
            final(self)@.wf(),
            final(self)@ == spec_recv(old(self)@, id as int).1,
            (match r {
                Some(c) => Some(c@),
                None => None::<ConfigView>,
            }) == spec_recv(old(self)@, id as int).0,
    {
        if id < self.subs.len() && self.subs[id].active && self.subs[id].queue.len() > 0 {
            let ghost pre = self.subs@[id as int];
            let slot = &mut self.subs[id];
            let c = slot.queue.remove(0);
            proof {
                slot.delivered@ = slot.delivered@.push(c@);
                slot.didx@ = slot.didx@.push(pre.qidx@.first());
                slot.qidx@ = slot.qidx@.drop_first();
                assert(slot.queue@ =~= pre.queue@.drop_first());
                assert(slot_inv(*slot, self.log@, self.cap as nat));
                assert(slot_view(*slot).queue =~= slot_view(pre).queue.drop_first());
                assert(self@.subs =~= spec_recv(old(self)@, id as int).1.subs);
                assert(self@ =~~= spec_recv(old(self)@, id as int).1);
                self.lemma_inv_wf();
            }
            Some(c)
        } else {
            proof {
                assert(self@ =~~= spec_recv(old(self)@, id as int).1);
                self.lemma_inv_wf();
            }
            None
        }
    }

    /// Close every subscription at once, as process shutdown does: every
    /// session still streaming sees its stream end and transitions out
    /// on its own exit path.
    pub fn shutdown(&mut self)
        requires
            old(self).inv(),
        ensures
            final(self).inv(),
            final(self)@.wf(),
            final(self)@ == spec_shutdown(old(self)@),
    {
        let n = self.subs.len();
        let mut i: usize = 0;
        while i < n
            invariant
                old(self).inv(),
                n == self.subs@.len(),
                n == old(self).subs@.len(),
                i <= n,
                self.cap == old(self).cap,
                self.log@ == old(self).log@,
                self.current == old(self).current,
                forall|j: int| i <= j < n ==> self.subs@[j] == old(self).subs@[j],
                forall|j: int|
                    i <= j < n ==> slot_inv(#[trigger] self.subs@[j], self.log@, self.cap as nat),
                forall|j: int|
                    0 <= j < i ==> slot_view(#[trigger] self.subs@[j]) == (SubView {
                        active: false,
                        queue: Seq::empty(),
                        ..slot_view(old(self).subs@[j])
                    }),
                forall|j: int|
                    0 <= j < i ==> slot_inv(#[trigger] self.subs@[j], self.log@, self.cap as nat),
            decreases n - i,
        {
            let slot = &mut self.subs[i];
            slot.active = false;
            slot.queue.clear();
            proof {
                slot.qidx@ = Seq::empty();
            }
            proof {
                assert(slot_view(self.subs@[i as int]).queue =~= Seq::<ConfigView>::empty());
                assert(slot_inv(self.subs@[i as int], self.log@, self.cap as nat));
            }
            i = i + 1;
        }
        proof {
            assert(self@.subs =~~= spec_shutdown(old(self)@).subs);
            assert(self@ =~~= spec_shutdown(old(self)@));
            self.lemma_inv_wf();
        }
    }

    /// Whether the slot behind `id` is still subscribed: false once it
    /// was released, the hub was shut down, or the handle was never
    /// issued.
    pub fn is_subscribed(&self, id: usize) -> (b: bool)
        ensures
            b == (id < self@.subs.len() && self@.subs[id as int].active),
    {
        proof {
            assert(self@.subs.len() == self.subs@.len());
            if id < self.subs@.len() {
                assert(self@.subs[id as int] == slot_view(self.subs@[id as int]));
            }
        }
        id < self.subs.len() && self.subs[id].active
    }

    /// How many subscriber slots the hub has issued (released ones
    /// included).
    pub fn subscriber_count(&self) -> (n: usize)
        ensures
            n == self@.subs.len(),
    {
        proof {
            assert(self@.subs.len() == self.subs@.len());
        }
        self.subs.len()
    }
}

/// Snapshot coherence: a publish makes the published value the last of
/// the log, and a subscribe hands out exactly the last of the log, so a
/// subscriber joining after any sequence of publishes gets the most
/// recently published value.
pub proof fn lemma_snapshot_coherence(h: HubView, v: ConfigView)
    ensures
        spec_publish(h, v).log.last() == v,
        spec_subscribe(spec_publish(h, v)).subs.last().delivered == seq![v],
{
    assert(spec_subscribe(spec_publish(h, v)).subs.last().delivered =~= seq![v]);
}

/// Order preservation: everything a well-formed hub has handed or will
/// hand to one subscriber — snapshot first, then streamed values, drops
/// allowed — is a subsequence of the publish order, never reordered.
pub proof fn lemma_order_preservation(h: HubView, i: int)
    requires
        h.wf(),
        0 <= i < h.subs.len(),
    ensures
        subsequence_of(h.subs[i].delivered + h.subs[i].queue, h.log),
{
}

/// A subscriber that sees (snapshot and deliveries together) a suffix of
/// the log keeps seeing a suffix through a publish, as long as its queue
/// had room: with no drop, nothing is skipped either. A fresh
/// subscription starts such a suffix at the last value of the log, so a
/// subscriber that never overflows observes exactly the publish order
/// from its join onwards.
pub proof fn lemma_no_drop_publish_keeps_suffix(h: HubView, v: ConfigView, i: int, p: int)
    requires
        0 <= i < h.subs.len(),
        h.subs[i].active,
        h.subs[i].queue.len() < h.cap,
        0 <= p <= h.log.len(),
        h.subs[i].delivered + h.subs[i].queue == h.log.skip(p),
    ensures
        spec_publish(h, v).subs[i].delivered + spec_publish(h, v).subs[i].queue
            == spec_publish(h, v).log.skip(p),
{
    assert(spec_publish(h, v).subs[i].delivered + spec_publish(h, v).subs[i].queue =~= (
    h.subs[i].delivered + h.subs[i].queue).push(v));
    assert(h.log.push(v).skip(p) =~= h.log.skip(p).push(v));
}

/// Handing a subscriber its next value moves it within the same suffix:
/// delivery changes what is pending, never what is seen overall.
pub proof fn lemma_recv_keeps_suffix(h: HubView, i: int, p: int)
    requires
        0 <= i < h.subs.len(),
        0 <= p <= h.log.len(),
        h.subs[i].delivered + h.subs[i].queue == h.log.skip(p),
    ensures
        spec_recv(h, i).1.subs[i].delivered + spec_recv(h, i).1.subs[i].queue == spec_recv(
            h,
            i,
        ).1.log.skip(p),
{
    if h.subs[i].active && h.subs[i].queue.len() > 0 {
        assert(spec_recv(h, i).1.subs[i].delivered + spec_recv(h, i).1.subs[i].queue
            =~= h.subs[i].delivered + h.subs[i].queue);
    }
}

/// A fresh subscription opens a suffix of the log: its snapshot is the
/// log's last value.
pub proof fn lemma_subscribe_starts_suffix(h: HubView)
    requires
        h.log.len() >= 1,
    ensures
        spec_subscribe(h).subs.last().delivered + spec_subscribe(h).subs.last().queue
            == spec_subscribe(h).log.skip(h.log.len() - 1),
{
    assert(spec_subscribe(h).subs.last().delivered + spec_subscribe(h).subs.last().queue =~= h.log.skip(
        h.log.len() - 1,
    ));
}

/// Unsubscribe is idempotent: releasing the same slot twice leaves the
/// hub exactly as releasing it once does.
pub proof fn lemma_unsubscribe_idempotent(h: HubView, i: int)
    ensures
        spec_unsubscribe(spec_unsubscribe(h, i), i) == spec_unsubscribe(h, i),
{
    if 0 <= i < h.subs.len() {
        assert(spec_unsubscribe(spec_unsubscribe(h, i), i).subs =~= spec_unsubscribe(
            h,
            i,
        ).subs);
    }
    assert(spec_unsubscribe(spec_unsubscribe(h, i), i) =~~= spec_unsubscribe(h, i));
}

/// Isolation: dropping one broken subscriber changes nothing a publish
/// does to the log or to any other subscriber, and the dropped slot
/// itself stays released and empty through any later publish.
pub proof fn lemma_isolation(h: HubView, broken: int, v: ConfigView, j: int)
    requires
        0 <= j < h.subs.len(),
        j != broken,
    ensures
        spec_publish(spec_unsubscribe(h, broken), v).log == spec_publish(h, v).log,
        spec_publish(spec_unsubscribe(h, broken), v).subs[j] == spec_publish(h, v).subs[j],
        0 <= broken < h.subs.len() ==> spec_publish(spec_unsubscribe(h, broken), v).subs[broken]
            == (SubView {
            active: false,
            delivered: h.subs[broken].delivered,
            queue: Seq::<ConfigView>::empty(),
        }),
{
    assert(spec_unsubscribe(h, broken).subs[j] == h.subs[j]);
}

/// A publish leaves an inactive slot untouched: nothing is queued for a
/// subscriber that is gone.
pub proof fn lemma_publish_skips_inactive(h: HubView, v: ConfigView, i: int)
    requires
        0 <= i < h.subs.len(),
        !h.subs[i].active,
    ensures
        spec_publish(h, v).subs[i] == h.subs[i],
{
}

} // verus!
