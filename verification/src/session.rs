//! Per-connection protocol handling: one `ViewerSession` per connected
//! viewer, driving the hub on the session's behalf.
//!
//! A session is born `Connected` with the hub's current snapshot to send;
//! a successful snapshot write moves it to `Streaming`, where pending
//! values are drained in order; any of the exit causes — a write failure,
//! the inbound side reporting closure, the stream being shut — funnels
//! into [`ViewerSession::close`], the single exit latch, which releases
//! the hub slot exactly once however often it is hit. A broken session is
//! never reconnected here: the transport makes a brand-new connection,
//! which subscribes afresh and so starts from a fresh snapshot.
//!
//! The module also keeps the connection roster the transport layer shows
//! in its logs: who connected, and when.

use crate::hub::{spec_recv, spec_subscribe, spec_unsubscribe, BroadcastHub};
use crate::state::{ConfigView, TeleprompterConfig};
use vstd::prelude::*;

verus! {

/// Lifecycle of one viewer connection.
#[derive(Clone, Copy, Debug, PartialEq, Eq, Structural)]
pub enum SessionPhase {
    /// The snapshot is being sent; the connection never carried anything.
    Connected,
    /// The snapshot went out; pending values are streamed in order.
    Streaming,
    /// The connection is done; the hub slot is released.
    Closed,
}

/// The mathematical value of a [`ViewerSession`].
#[verifier::ext_equal]
pub ghost struct SessionView {
    pub id: int,
    pub phase: SessionPhase,
    pub unsubscribed: bool,
}

/// One viewer's session: its hub slot, its lifecycle phase, and the latch
/// recording whether the slot was already released.
pub struct ViewerSession {
    id: usize,
    phase: SessionPhase,
    unsubscribed: bool,
}

impl View for ViewerSession {
    type V = SessionView;

    closed spec fn view(&self) -> SessionView {
        SessionView { id: self.id as int, phase: self.phase, unsubscribed: self.unsubscribed }
    }
}

impl ViewerSession {
    /// A new transport connection: subscribe to the hub and hand back the
    /// session together with the snapshot that must be written first —
    /// exactly the most recently published configuration.
    pub fn connect(hub: &mut BroadcastHub) -> (r: (ViewerSession, TeleprompterConfig))
        requires
            old(hub).inv(),
        ensures
            final(hub).inv(),
            final(hub)@.wf(),
            final(hub)@ == spec_subscribe(old(hub)@),
            r.0@ == (SessionView {
                id: old(hub)@.subs.len() as int,
                phase: SessionPhase::Connected,
                unsubscribed: false,
            }),
            r.1@ == old(hub)@.log.last(),
    {
        let (id, snapshot) = hub.subscribe();
        let session = ViewerSession { id, phase: SessionPhase::Connected, unsubscribed: false };
        (session, snapshot)
    }

    /// Report how writing the snapshot went: on success the session starts
    /// streaming; on failure the connection never became usable and the
    /// session closes at once.
    pub fn snapshot_result(&mut self, hub: &mut BroadcastHub, ok: bool)
        requires
            old(hub).inv(),
            old(self)@.phase == SessionPhase::Connected,
            !old(self)@.unsubscribed,
        ensures
            final(hub).inv(),
            final(self)@.id == old(self)@.id,
            ok ==> final(self)@.phase == SessionPhase::Streaming && !final(self)@.unsubscribed
                && final(hub)@ == old(hub)@,
            !ok ==> final(self)@.phase == SessionPhase::Closed && final(self)@.unsubscribed
                && final(hub)@ == spec_unsubscribe(old(hub)@, old(self)@.id),
    {
        if ok {
            self.phase = SessionPhase::Streaming;
        } else {
            self.close(hub);
        }
    }

    /// The session's next outbound value, oldest first: what the hub has
    /// queued for this slot, or nothing when the session is not streaming
    /// or nothing is pending.
    pub fn next(&self, hub: &mut BroadcastHub) -> (r: Option<TeleprompterConfig>)
        requires
            old(hub).inv(),
        ensures
            final(hub).inv(),
            final(hub)@.wf(),
            self@.phase == SessionPhase::Streaming ==> {
                &&& final(hub)@ == spec_recv(old(hub)@, self@.id).1
                &&& (match r {
                    Some(c) => Some(c@),
                    None => None::<ConfigView>,
                }) == spec_recv(old(hub)@, self@.id).0
            },
            self@.phase != SessionPhase::Streaming ==> final(hub)@ == old(hub)@ && r is None,
    {
        if self.phase == SessionPhase::Streaming {
            hub.recv(self.id)
        } else {
            proof {
                hub.lemma_inv_wf();
            }
            None
        }
    }

    /// Whether the hub still carries this session's subscription: false
    /// once the slot was released or the hub was shut down, the cue for
    /// a streaming session to take its exit path.
    pub fn stream_open(&self, hub: &BroadcastHub) -> (b: bool)
        ensures
            b == (self@.id < hub@.subs.len() && hub@.subs[self@.id].active),
    {
        hub.is_subscribed(self.id)
    }

    /// Where the session stands in its lifecycle.
    pub fn phase(&self) -> (p: SessionPhase)
        ensures
            p == self@.phase,
    {
        self.phase
    }

    /// The single exit latch: whatever ended the connection — a write
    /// failure, the inbound side reporting closure or error, or the
    /// stream being shut — the session moves to `Closed` and its hub slot
    /// is released exactly once; hitting the latch again changes nothing.
    pub fn close(&mut self, hub: &mut BroadcastHub)
        requires
            old(hub).inv(),
        ensures
            final(hub).inv(),
            final(hub)@.wf(),
            final(self)@.phase == SessionPhase::Closed,
            final(self)@.unsubscribed,
            final(self)@.id == old(self)@.id,
            !old(self)@.unsubscribed ==> final(hub)@ == spec_unsubscribe(
                old(hub)@,
                old(self)@.id,
            ),
            old(self)@.unsubscribed ==> final(hub)@ == old(hub)@,
    {
        self.phase = SessionPhase::Closed;
        if !self.unsubscribed {
            hub.unsubscribe(self.id);
            self.unsubscribed = true;
        } else {
            proof {
                hub.lemma_inv_wf();
            }
        }
    }
}

/// One connected viewer as the transport bookkeeping records it.
#[derive(Debug)]
pub struct Teleprompter {
    pub ip: String,
    pub connected_at: i64,
}

/// The mathematical value of a [`Teleprompter`] roster entry.
#[verifier::ext_equal]
pub ghost struct TeleprompterView {
    pub ip: Seq<char>,
    pub connected_at: i64,
}

impl View for Teleprompter {
    type V = TeleprompterView;

    open spec fn view(&self) -> TeleprompterView {
        TeleprompterView { ip: self.ip@, connected_at: self.connected_at }
    }
}

impl Clone for Teleprompter {
    fn clone(&self) -> (c: Self)
        ensures
            c == *self,
    {
        Teleprompter { ip: self.ip.clone(), connected_at: self.connected_at }
    }
}

/// The roster at its mathematical value.
pub open spec fn roster_view(s: Seq<Teleprompter>) -> Seq<TeleprompterView> {
    s.map_values(|t: Teleprompter| t@)
}

/// The roster with every entry of the given address removed, order kept.
pub open spec fn spec_without_ip(s: Seq<TeleprompterView>, ip: Seq<char>) -> Seq<
    TeleprompterView,
>
    decreases s.len(),
{
    if s.len() == 0 {
        Seq::empty()
    } else if s.first().ip == ip {
        spec_without_ip(s.drop_first(), ip)
    } else {
        seq![s.first()] + spec_without_ip(s.drop_first(), ip)
    }
}

/// Removing an address distributes over appending one entry at the back.
proof fn lemma_without_ip_push(s: Seq<TeleprompterView>, ip: Seq<char>, t: TeleprompterView)
    ensures
        spec_without_ip(s.push(t), ip) == if t.ip == ip {
            spec_without_ip(s, ip)
        } else {
            spec_without_ip(s, ip).push(t)
        },
    decreases s.len(),
{
    let sp = s.push(t);
    assert(sp.len() == s.len() + 1);
    if s.len() == 0 {
        assert(sp.first() == t);
        assert(sp.drop_first() =~= Seq::<TeleprompterView>::empty());
        assert(spec_without_ip(Seq::<TeleprompterView>::empty(), ip) == Seq::<
            TeleprompterView,
        >::empty());
        assert(spec_without_ip(s, ip) == Seq::<TeleprompterView>::empty());
        if t.ip == ip {
            assert(spec_without_ip(sp, ip) == spec_without_ip(sp.drop_first(), ip));
        } else {
            assert(spec_without_ip(sp, ip) == seq![t] + spec_without_ip(sp.drop_first(), ip));
            assert(seq![t] + Seq::<TeleprompterView>::empty() =~= Seq::<
                TeleprompterView,
            >::empty().push(t));
        }
    } else {
        assert(sp.first() == s.first());
        assert(sp.drop_first() =~= s.drop_first().push(t));
        lemma_without_ip_push(s.drop_first(), ip, t);
        if s.first().ip == ip {
            assert(spec_without_ip(sp, ip) == spec_without_ip(s.drop_first().push(t), ip));
            assert(spec_without_ip(s, ip) == spec_without_ip(s.drop_first(), ip));
        } else {
            assert(spec_without_ip(sp, ip) == seq![s.first()] + spec_without_ip(
                s.drop_first().push(t),
                ip,
            ));
            assert(spec_without_ip(s, ip) == seq![s.first()] + spec_without_ip(
                s.drop_first(),
                ip,
            ));
            if t.ip != ip {
                assert(seq![s.first()] + spec_without_ip(s.drop_first(), ip).push(t) =~= (
                seq![s.first()] + spec_without_ip(s.drop_first(), ip)).push(t));
            }
        }
    }
}

/// Record a newly connected viewer at the back of the roster.
pub fn roster_connect(clients: &mut Vec<Teleprompter>, ip: String, connected_at: i64)
    ensures
        roster_view(final(clients)@) == roster_view(old(clients)@).push(
            TeleprompterView { ip: ip@, connected_at },
        ),
{
    let ghost ipv = ip@;
    clients.push(Teleprompter { ip, connected_at });
    proof {
        assert(roster_view(clients@) =~= roster_view(old(clients)@).push(
            TeleprompterView { ip: ipv, connected_at },
        ));
    }
}

/// Drop every roster entry carrying the given address, keeping the order
/// of the rest.
pub fn roster_disconnect(clients: &mut Vec<Teleprompter>, ip: &String)
    ensures
        roster_view(final(clients)@) == spec_without_ip(roster_view(old(clients)@), ip@),
{
    let mut kept: Vec<Teleprompter> = Vec::new();
    let n = clients.len();
    let mut i: usize = 0;
    while i < n
        invariant
            n == clients@.len(),
            i <= n,
            clients@ == old(clients)@,
            roster_view(kept@) == spec_without_ip(
                roster_view(clients@.take(i as int)),
                ip@,
            ),
        decreases n - i,
    {
        let ghost pre = kept@;
        if clients[i].ip != *ip {
            let entry = clients[i].clone();
            kept.push(entry);
        }
        proof {
            assert(roster_view(clients@.take(i + 1)) =~= roster_view(
                clients@.take(i as int),
            ).push(clients@[i as int]@));
            lemma_without_ip_push(roster_view(clients@.take(i as int)), ip@, clients@[i as int]@);
            if clients@[i as int]@.ip != ip@ {
                assert(roster_view(kept@) =~= roster_view(pre).push(clients@[i as int]@));
            }
        }
        i = i + 1;
    }
    proof {
        assert(clients@.take(n as int) =~= clients@);
    }
    *clients = kept;
}

} // verus!
