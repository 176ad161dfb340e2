//! The hot-reload subsystem's logic.
//!
//! A filesystem watcher publishes change notifications into a broadcast
//! hub; every WebSocket peer subscribed before an event sees it, a peer
//! subscribing later does not. Each connection runs the same small state
//! machine: send `reload` while events are pending, close on peer close,
//! empty read or socket error. The sockets and the watcher itself live
//! with the caller; only the decisions are here.

use crate::strutil::{spec_decimal, u64_to_dec};
use vstd::prelude::*;

verus! {

/// The script served to browsers, up to the port number.
pub open spec fn spec_js_prefix() -> Seq<char> {
    "\nconst ws = new WebSocket(\"ws://127.0.0.1:"@
}

/// The script served to browsers, after the port number.
pub open spec fn spec_js_suffix() -> Seq<char> {
    "\")\nws.onmessage = function(event) {\n  if (event.data === \"reload\") {\n    location.reload()\n  }\n};\n\nws.onopen = (event) => {\n  console.log(\"Hot-reload connected\")\n}\n\n// On unload send disconnect message\nwindow.beforeunload = () => {\n  ws.close()\n}\n"@
}

/// The page-reload script, pointed at the hot-reload port.
pub fn get_hotreload_js(port: u16) -> (r: String)
    ensures
        r@ == spec_js_prefix() + spec_decimal(port as nat) + spec_js_suffix(),
{
    let mut s = "\nconst ws = new WebSocket(\"ws://127.0.0.1:".to_owned();
    let digits = u64_to_dec(port as u64);
    s.append(digits.as_str());
    s.append(
        "\")\nws.onmessage = function(event) {\n  if (event.data === \"reload\") {\n    location.reload()\n  }\n};\n\nws.onopen = (event) => {\n  console.log(\"Hot-reload connected\")\n}\n\n// On unload send disconnect message\nwindow.beforeunload = () => {\n  ws.close()\n}\n",
    );
    proof {
        assert(s@ =~= spec_js_prefix() + spec_decimal(port as nat) + spec_js_suffix());
    }
    s
}

/// What a filesystem notification reports, reduced to what the watcher
/// decides on.
#[derive(Clone, Copy, Debug, PartialEq, Eq, Structural)]
pub enum WatchEventKind {
    Create,
    Modify,
    Remove,
    Other,
}

/// Only creations, modifications and removals are forwarded to the
/// browser; any other notification is dropped.
pub open spec fn spec_should_forward(kind: WatchEventKind) -> bool {
    kind == WatchEventKind::Create || kind == WatchEventKind::Modify || kind
        == WatchEventKind::Remove
}

/// Decide whether a filesystem notification becomes a reload event.
pub fn should_forward(kind: WatchEventKind) -> (r: bool)
    ensures
        r == spec_should_forward(kind),
{
    match kind {
        WatchEventKind::Create => true,
        WatchEventKind::Modify => true,
        WatchEventKind::Remove => true,
        WatchEventKind::Other => false,
    }
}

/// The broadcast hub: one writer, any number of independent readers.
/// `published` counts the events published so far; each subscriber's
/// cursor counts the events it has already observed, so a subscriber is
/// behind exactly the events published after it subscribed.
pub struct ReloadHub {
    published: u64,
    cursors: Vec<u64>,
}

impl ReloadHub {
    /// The number of events published so far.
    pub closed spec fn spec_published(&self) -> nat {
        self.published as nat
    }

    /// Every subscriber's cursor.
    pub closed spec fn spec_cursors(&self) -> Seq<nat> {
        self.cursors@.map(|i: int, c: u64| c as nat)
    }

    /// No subscriber is ahead of the writer.
    pub open spec fn wf(&self) -> bool {
        forall|i: int|
            0 <= i < self.spec_cursors().len() ==> self.spec_cursors()[i]
                <= self.spec_published()
    }

    /// A hub with no events and no subscribers.
    pub fn new() -> (r: ReloadHub)
        ensures
            r.wf(),
            r.spec_published() == 0,
            r.spec_cursors() =~= Seq::<nat>::empty(),
    {
        let r = ReloadHub { published: 0, cursors: Vec::new() };
        proof {
            assert(r.spec_cursors() =~= Seq::<nat>::empty());
        }
        r
    }

    /// Add a reader. It starts at the current event count, so it will
    /// observe exactly the events published from now on.
    pub fn subscribe(&mut self) -> (id: usize)
        requires
            old(self).wf(),
        ensures
            final(self).wf(),
            id == old(self).spec_cursors().len(),
            final(self).spec_published() == old(self).spec_published(),
            final(self).spec_cursors() =~= old(self).spec_cursors().push(
                old(self).spec_published(),
            ),
    {
        let id = self.cursors.len();
        self.cursors.push(self.published);
        proof {
            assert(self.spec_cursors() =~= old(self).spec_cursors().push(
                old(self).spec_published(),
            ));
        }
        id
    }

    /// Publish one event. Nobody's cursor moves, so every current
    /// subscriber now has it pending. Once the event counter is
    /// exhausted, further events are dropped.
    pub fn publish(&mut self)
        requires
            old(self).wf(),
        ensures
            final(self).wf(),
            final(self).spec_cursors() == old(self).spec_cursors(),
            final(self).spec_published() == if old(self).spec_published() < u64::MAX {
                old(self).spec_published() + 1
            } else {
                old(self).spec_published()
            },
    {
        if self.published < u64::MAX {
            self.published = self.published + 1;
        }
        proof {
            assert(self.spec_cursors() =~= old(self).spec_cursors());
        }
    }

    /// Whether subscriber `id` has an unobserved event.
    pub open spec fn spec_pending(&self, id: int) -> bool {
        self.spec_cursors()[id] < self.spec_published()
    }

    /// Poll for subscriber `id`: reports whether an event was pending,
    /// and if so observes exactly one.
    pub fn poll(&mut self, id: usize) -> (r: bool)
        requires
            old(self).wf(),
            id < old(self).spec_cursors().len(),
        ensures
            final(self).wf(),
            r == old(self).spec_pending(id as int),
            final(self).spec_published() == old(self).spec_published(),
            final(self).spec_cursors() =~= if r {
                old(self).spec_cursors().update(id as int, (old(self).spec_cursors()[id as int]
                    + 1) as nat)
            } else {
                old(self).spec_cursors()
            },
    {
        let cur = self.cursors[id];
        if cur < self.published {
            self.cursors.set(id, cur + 1);
            proof {
                assert(self.spec_cursors() =~= old(self).spec_cursors().update(
                    id as int,
                    (old(self).spec_cursors()[id as int] + 1) as nat,
                ));
            }
            true
        } else {
            proof {
                assert(self.spec_cursors() =~= old(self).spec_cursors());
            }
            false
        }
    }
}

/// Broadcast-after-connect: when two peers subscribe and an event is
/// then published, both have it pending; a peer that subscribes after
/// the event does not. Stated over the hub's model: `p0` events
/// published and cursors `cs0` at the start, each subscription pushing
/// the current count, publication incrementing it.
pub proof fn lemma_broadcast_after_connect(p0: nat, cs0: Seq<nat>)
    requires
        p0 < u64::MAX,
    ensures
        ({
            let cs_two = cs0.push(p0).push(p0);
            let p1 = p0 + 1;
            let a = cs0.len() as int;
            let b = cs0.len() + 1;
            &&& cs_two[a] < p1
            &&& cs_two[b as int] < p1
            &&& !(cs_two.push((p0 + 1) as nat)[cs0.len() + 2int] < p1)
        }),
{
}

/// One reload connection's state.
#[derive(Clone, Copy, Debug, PartialEq, Eq, Structural)]
pub enum ConnState {
    /// Waiting: nothing pending.
    Idle,
    /// A reload frame is being sent.
    Sending,
    /// The connection is finished; its task stops.
    Closed,
}

/// What one cycle of a connection's loop observed.
#[derive(Clone, Copy, Debug, PartialEq, Eq, Structural)]
pub enum ConnEvent {
    /// The hub has an event pending for this subscriber.
    EventPending,
    /// Nothing pending on the hub.
    NoEvent,
    /// The peer sent an ordinary frame; it is discarded.
    InboundData,
    /// The peer closed, or the read came back empty.
    InboundClose,
    /// Reading or writing the socket failed.
    SocketError,
}

/// What the connection's task must do next.
#[derive(Clone, Copy, Debug, PartialEq, Eq, Structural)]
pub enum ConnAction {
    /// Send a `reload` text frame to the peer.
    SendReload,
    /// Nothing to do this cycle.
    Keep,
    /// Stop this connection's task; others are unaffected.
    Terminate,
}

/// The connection state machine: pending events are answered with a
/// `reload` frame; a peer close, empty read or socket error finishes
/// the connection, and a finished connection stays finished.
pub open spec fn spec_conn_step(s: ConnState, e: ConnEvent) -> (ConnState, ConnAction) {
    if s == ConnState::Closed {
        (ConnState::Closed, ConnAction::Terminate)
    } else {
        match e {
            ConnEvent::EventPending => (ConnState::Sending, ConnAction::SendReload),
            ConnEvent::NoEvent => (ConnState::Idle, ConnAction::Keep),
            ConnEvent::InboundData => (ConnState::Idle, ConnAction::Keep),
            ConnEvent::InboundClose => (ConnState::Closed, ConnAction::Terminate),
            ConnEvent::SocketError => (ConnState::Closed, ConnAction::Terminate),
        }
    }
}

/// Advance one reload connection by one observation.
pub fn conn_step(s: ConnState, e: ConnEvent) -> (r: (ConnState, ConnAction))
    ensures
        r == spec_conn_step(s, e),
{
    if matches!(s, ConnState::Closed) {
        (ConnState::Closed, ConnAction::Terminate)
    } else {
        match e {
            ConnEvent::EventPending => (ConnState::Sending, ConnAction::SendReload),
            ConnEvent::NoEvent => (ConnState::Idle, ConnAction::Keep),
            ConnEvent::InboundData => (ConnState::Idle, ConnAction::Keep),
            ConnEvent::InboundClose => (ConnState::Closed, ConnAction::Terminate),
            ConnEvent::SocketError => (ConnState::Closed, ConnAction::Terminate),
        }
    }
}

/// A peer-initiated close, an empty read or a socket error always ends
/// the connection's task, from every state.
pub proof fn lemma_close_terminates(s: ConnState, e: ConnEvent)
    requires
        e == ConnEvent::InboundClose || e == ConnEvent::SocketError,
    ensures
        spec_conn_step(s, e).0 == ConnState::Closed,
        spec_conn_step(s, e).1 == ConnAction::Terminate,
{
}

} // verus!
