//! The subscription stream as a state machine: `Idle`, then `Streaming`
//! while registered on the bus, then `Terminated` for good. The caller runs
//! the waiting and the sending; each decision is made here.
use crate::bus::{Bus, BusView, RecvResult, RecvView, SubscriberId, recv_spec, subscribe_spec, unsubscribe_spec};
use crate::message::{Message, MessageView};
use vstd::prelude::*;

verus! {

/// Where a subscription stream stands.
#[derive(Debug, Clone, Copy, PartialEq, Eq, Structural)]
pub enum Stage {
    Idle,
    Streaming(SubscriberId),
    Terminated,
}

/// What the caller does after a poll.
#[derive(Debug)]
pub enum Action {
    /// Send this message to the client as one event.
    Emit(Message),
    /// A gap was skipped; poll again at once, sending nothing.
    Continue,
    /// Nothing is buffered; wait for a publish or for cancellation, then poll.
    Wait,
    /// The stream is over; close the connection.
    Finish,
}

/// The mathematical value of an [`Action`].
pub enum ActionView {
    Emit(MessageView),
    Continue,
    Wait,
    Finish,
}

impl View for Action {
    type V = ActionView;

    open spec fn view(&self) -> ActionView {
        match self {
            Action::Emit(m) => ActionView::Emit(m@),
            Action::Continue => ActionView::Continue,
            Action::Wait => ActionView::Wait,
            Action::Finish => ActionView::Finish,
        }
    }
}

/// One subscription stream.
#[derive(Debug)]
pub struct Subscription {
    pub stage: Stage,
}

/// Connecting subscribes an idle stream; in any other stage nothing happens.
pub open spec fn start_spec(st: Stage, b: BusView) -> (Stage, BusView) {
    match st {
        Stage::Idle => {
            let (nb, k) = subscribe_spec(b);
            (Stage::Streaming(SubscriberId { index: k as usize }), nb)
        },
        _ => (st, b),
    }
}

/// A poll reads the bus once. A message is emitted, a lag is absorbed, an
/// empty ring means waiting, and closure ends the stream and frees its
/// registration. A stream that is not streaming finishes.
pub open spec fn poll_spec(st: Stage, b: BusView) -> (Stage, BusView, ActionView) {
    match st {
        Stage::Streaming(id) => {
            let (nb, r) = recv_spec(b, id.index as nat);
            match r {
                RecvView::Message(m) => (st, nb, ActionView::Emit(m)),
                RecvView::Lagged(_) => (st, nb, ActionView::Continue),
                RecvView::Empty => (st, nb, ActionView::Wait),
                RecvView::Closed => (
                    Stage::Terminated,
                    unsubscribe_spec(nb, id.index as nat),
                    ActionView::Finish,
                ),
            }
        },
        _ => (Stage::Terminated, b, ActionView::Finish),
    }
}

/// Cancellation (client gone, or process shutdown) terminates the stream,
/// freeing its registration if it had one.
pub open spec fn cancel_spec(st: Stage, b: BusView) -> (Stage, BusView) {
    match st {
        Stage::Streaming(id) => (Stage::Terminated, unsubscribe_spec(b, id.index as nat)),
        _ => (Stage::Terminated, b),
    }
}

/// `n` polls in a row, and the action of each.
pub open spec fn poll_many(st: Stage, b: BusView, n: nat) -> (Stage, BusView, Seq<ActionView>)
    decreases n,
{
    if n == 0 {
        (st, b, Seq::empty())
    } else {
        let (s1, b1, a) = poll_spec(st, b);
        let (s2, b2, acts) = poll_many(s1, b1, (n - 1) as nat);
        (s2, b2, seq![a] + acts)
    }
}

/// How many polls a stream on a closed bus still makes before it ends: the
/// lag notice if it is behind, the buffered messages, and the final read.
pub open spec fn polls_left(st: Stage, b: BusView) -> nat {
    match st {
        Stage::Streaming(id) => {
            let i = id.index as nat;
            if !b.is_active(i) {
                1
            } else if b.cursor(i) < b.oldest() {
                (b.log.len() - b.oldest() + 2) as nat
            } else {
                (b.log.len() - b.cursor(i) + 1) as nat
            }
        },
        Stage::Idle => 1,
        Stage::Terminated => 0,
    }
}

proof fn lemma_terminated_stays(b: BusView, n: nat)
    ensures
        poll_many(Stage::Terminated, b, n).0 == Stage::Terminated,
        poll_many(Stage::Terminated, b, n).1 == b,
    decreases n,
{
    if n > 0 {
        lemma_terminated_stays(b, (n - 1) as nat);
    }
}

proof fn lemma_closed_bus_ends(st: Stage, b: BusView, n: nat)
    requires
        b.wf(),
        b.closed,
        n >= polls_left(st, b),
    ensures
        poll_many(st, b, n).0 == Stage::Terminated,
        st matches Stage::Streaming(id) ==> !poll_many(st, b, n).1.is_active(id.index as nat),
    decreases polls_left(st, b),
{
    if n > 0 {
        let (s1, b1, a) = poll_spec(st, b);
        if let Stage::Streaming(id) = st {
            crate::bus::lemma_recv_wf(b, id.index as nat);
            if s1 == Stage::Terminated {
                lemma_terminated_stays(b1, (n - 1) as nat);
            } else {
                lemma_closed_bus_ends(s1, b1, (n - 1) as nat);
            }
        } else {
            lemma_terminated_stays(b1, (n - 1) as nat);
        }
    }
}

/// Shutdown termination: once the bus is closed, every stream ends within
/// `capacity + 2` polls and its registration is freed.
pub proof fn lemma_shutdown_terminates(st: Stage, b: BusView)
    requires
        b.wf(),
        b.closed,
    ensures
        poll_many(st, b, b.capacity + 2).0 == Stage::Terminated,
        st matches Stage::Streaming(id) ==> !poll_many(st, b, b.capacity + 2).1.is_active(
            id.index as nat,
        ),
{
    lemma_closed_bus_ends(st, b, b.capacity + 2);
}

/// Cancellation ends a stream from any stage, frees a streaming registration,
/// and has no effect a second time.
pub proof fn lemma_cancel_once(st: Stage, b: BusView)
    ensures
        cancel_spec(st, b).0 == Stage::Terminated,
        st matches Stage::Streaming(id) ==> !cancel_spec(st, b).1.is_active(id.index as nat),
        cancel_spec(cancel_spec(st, b).0, cancel_spec(st, b).1) == cancel_spec(st, b),
{
}

impl Subscription {
    /// A stream that has not subscribed yet.
    pub fn new() -> (r: Subscription)
        ensures
            r.stage == Stage::Idle,
    {
        Subscription { stage: Stage::Idle }
    }

    /// `Idle -> Streaming`: registers on the bus.
    pub fn start(&mut self, bus: &mut Bus)
        requires
            old(bus).wf(),
        ensures
            final(bus).wf(),
            (final(self).stage, final(bus)@) == start_spec(old(self).stage, old(bus)@),
    {
        if let Stage::Idle = self.stage {
            let id = bus.subscribe();
            self.stage = Stage::Streaming(id);
        }
    }

    /// Reads the bus once and says what to do next.
    pub fn poll(&mut self, bus: &mut Bus) -> (a: Action)
        requires
            old(bus).wf(),
        ensures
            final(bus).wf(),
            (final(self).stage, final(bus)@, a@) == poll_spec(old(self).stage, old(bus)@),
    {
        match self.stage {
            Stage::Streaming(id) => {
                match bus.recv(id) {
                    RecvResult::Message(m) => Action::Emit(m),
                    RecvResult::Lagged(_) => Action::Continue,
                    RecvResult::Empty => Action::Wait,
                    RecvResult::Closed => {
                        bus.unsubscribe(id);
                        self.stage = Stage::Terminated;
                        Action::Finish
                    },
                }
            },
            _ => {
                self.stage = Stage::Terminated;
                Action::Finish
            },
        }
    }

    /// Ends the stream on cancellation. Returns whether a registration was
    /// freed, which happens only on leaving `Streaming`.
    pub fn cancel(&mut self, bus: &mut Bus) -> (released: bool)
        requires
            old(bus).wf(),
        ensures
            final(bus).wf(),
            (final(self).stage, final(bus)@) == cancel_spec(old(self).stage, old(bus)@),
            released == old(self).stage is Streaming,
    {
        match self.stage {
            Stage::Streaming(id) => {
                bus.unsubscribe(id);
                self.stage = Stage::Terminated;
                true
            },
            _ => {
                self.stage = Stage::Terminated;
                false
            },
        }
    }
}

} // verus!
