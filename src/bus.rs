//! The broadcast bus: a bounded ring of the most recent messages, and a
//! registry of subscriber cursors into it.
//!
//! Every message that is published while someone listens gets the next
//! sequence number. A subscriber's cursor is the sequence number it reads
//! next. The ring keeps the last `capacity` messages; a cursor that falls
//! behind the oldest kept message is moved forward to it and the reader is
//! told how many it missed.
use crate::message::{Message, MessageView};
use vstd::prelude::*;

verus! {

/// Capacity of the bus that the server runs on.
pub const DEFAULT_CAPACITY: usize = 1024;

/// A handle to one registration on a [`Bus`].
#[derive(Debug, Clone, Copy, PartialEq, Eq, Structural)]
pub struct SubscriberId {
    pub index: usize,
}

/// What one read from the bus gives a subscriber.
#[derive(Debug)]
pub enum RecvResult {
    /// The next message in publish order.
    Message(Message),
    /// The cursor had fallen behind the ring; this many messages were skipped
    /// and the cursor now stands at the oldest one kept.
    Lagged(u64),
    /// Nothing new yet: the reader should wait for the next publish.
    Empty,
    /// The bus is shut down (or the handle is not registered): the stream ends.
    Closed,
}

/// The mathematical value of a [`RecvResult`].
pub enum RecvView {
    Message(MessageView),
    Lagged(nat),
    Empty,
    Closed,
}

impl View for RecvResult {
    type V = RecvView;

    open spec fn view(&self) -> RecvView {
        match self {
            RecvResult::Message(m) => RecvView::Message(m@),
            RecvResult::Lagged(n) => RecvView::Lagged(*n as nat),
            RecvResult::Empty => RecvView::Empty,
            RecvResult::Closed => RecvView::Closed,
        }
    }
}

/// The abstract state of a bus.
pub struct BusView {
    /// Every message the bus has taken, in publish order; the index is the
    /// sequence number.
    pub log: Seq<MessageView>,
    /// How many of the latest messages the ring keeps.
    pub capacity: nat,
    /// One entry per registry slot: the cursor of an active subscriber, or
    /// `None` for a free slot.
    pub cursors: Seq<Option<nat>>,
    /// Whether the bus has been shut down.
    pub closed: bool,
}

impl BusView {
    /// Sequence number of the oldest message still kept in the ring.
    pub open spec fn oldest(self) -> nat {
        if self.log.len() > self.capacity {
            (self.log.len() - self.capacity) as nat
        } else {
            0
        }
    }

    pub open spec fn is_active(self, id: nat) -> bool {
        id < self.cursors.len() && self.cursors[id as int] is Some
    }

    pub open spec fn cursor(self, id: nat) -> nat {
        self.cursors[id as int].unwrap()
    }

    pub open spec fn has_subscribers(self) -> bool {
        exists|i: nat| #[trigger] self.is_active(i)
    }

    /// A positive capacity, and no cursor ahead of the log.
    pub open spec fn wf(self) -> bool {
        &&& self.capacity > 0
        &&& forall|i: nat| #[trigger] self.is_active(i) ==> self.cursor(i) <= self.log.len()
    }
}

/// The empty bus of the given capacity.
pub open spec fn new_spec(capacity: nat) -> BusView {
    BusView { log: Seq::empty(), capacity, cursors: Seq::empty(), closed: false }
}

/// Publishing appends to the log when the bus is open and someone listens;
/// otherwise nothing changes.
pub open spec fn publish_spec(b: BusView, m: MessageView) -> BusView {
    if b.closed || !b.has_subscribers() {
        b
    } else {
        BusView { log: b.log.push(m), ..b }
    }
}

/// The first free registry slot at or after `i`, or the length of the
/// registry when there is none.
pub open spec fn first_free(cursors: Seq<Option<nat>>, i: nat) -> nat
    decreases cursors.len() - i,
{
    if i >= cursors.len() {
        cursors.len()
    } else if cursors[i as int] is None {
        i
    } else {
        first_free(cursors, i + 1)
    }
}

/// Subscribing takes the first free slot (or a new one) with its cursor at
/// the end of the log, so only later messages are seen.
pub open spec fn subscribe_spec(b: BusView) -> (BusView, nat) {
    let k = first_free(b.cursors, 0);
    let cursors = if k < b.cursors.len() {
        b.cursors.update(k as int, Some(b.log.len()))
    } else {
        b.cursors.push(Some(b.log.len()))
    };
    (BusView { cursors, ..b }, k)
}

/// Unsubscribing frees the slot.
pub open spec fn unsubscribe_spec(b: BusView, id: nat) -> BusView {
    if id < b.cursors.len() {
        BusView { cursors: b.cursors.update(id as int, None), ..b }
    } else {
        b
    }
}

/// Shutting down marks the bus closed; buffered messages stay readable.
pub open spec fn close_spec(b: BusView) -> BusView {
    BusView { closed: true, ..b }
}

/// One read by subscriber `id`.
pub open spec fn recv_spec(b: BusView, id: nat) -> (BusView, RecvView) {
    if !b.is_active(id) {
        (b, RecvView::Closed)
    } else {
        let c = b.cursor(id);
        if c < b.oldest() {
            (
                BusView { cursors: b.cursors.update(id as int, Some(b.oldest())), ..b },
                RecvView::Lagged((b.oldest() - c) as nat),
            )
        } else if c < b.log.len() {
            (
                BusView { cursors: b.cursors.update(id as int, Some(c + 1)), ..b },
                RecvView::Message(b.log[c as int]),
            )
        } else if b.closed {
            (b, RecvView::Closed)
        } else {
            (b, RecvView::Empty)
        }
    }
}

/// Publishing each of `ps` in turn.
pub open spec fn publish_all(b: BusView, ps: Seq<MessageView>) -> BusView
    decreases ps.len(),
{
    if ps.len() == 0 {
        b
    } else {
        publish_spec(publish_all(b, ps.drop_last()), ps.last())
    }
}

/// `n` reads in a row by subscriber `id`, and what each gave.
pub open spec fn recv_many(b: BusView, id: nat, n: nat) -> (BusView, Seq<RecvView>)
    decreases n,
{
    if n == 0 {
        (b, Seq::empty())
    } else {
        let (b1, r) = recv_spec(b, id);
        let (b2, rs) = recv_many(b1, id, (n - 1) as nat);
        (b2, seq![r] + rs)
    }
}

/// Each message as a successful read.
pub open spec fn as_reads(ms: Seq<MessageView>) -> Seq<RecvView> {
    ms.map_values(|m: MessageView| RecvView::Message(m))
}

proof fn lemma_publish_wf(b: BusView, m: MessageView)
    requires
        b.wf(),
    ensures
        publish_spec(b, m).wf(),
        publish_spec(b, m).cursors == b.cursors,
        publish_spec(b, m).capacity == b.capacity,
        publish_spec(b, m).closed == b.closed,
{
    let nb = publish_spec(b, m);
    assert forall|i: nat| #[trigger] nb.is_active(i) implies nb.cursor(i) <= nb.log.len() by {
        assert(b.is_active(i));
    }
}

pub(crate) proof fn lemma_recv_wf(b: BusView, id: nat)
    requires
        b.wf(),
    ensures
        recv_spec(b, id).0.wf(),
{
    let nb = recv_spec(b, id).0;
    assert forall|i: nat| #[trigger] nb.is_active(i) implies nb.cursor(i) <= nb.log.len() by {
        assert(b.is_active(i));
    }
}

proof fn lemma_first_free(cursors: Seq<Option<nat>>, i: nat)
    requires
        i <= cursors.len(),
    ensures
        i <= first_free(cursors, i) <= cursors.len(),
        first_free(cursors, i) < cursors.len() ==> cursors[first_free(cursors, i) as int] is None,
    decreases cursors.len() - i,
{
    if i < cursors.len() && cursors[i as int] is Some {
        lemma_first_free(cursors, i + 1);
    }
}

proof fn lemma_subscribe(b: BusView)
    requires
        b.wf(),
    ensures
        subscribe_spec(b).0.wf(),
        subscribe_spec(b).0.is_active(subscribe_spec(b).1),
        subscribe_spec(b).0.cursor(subscribe_spec(b).1) == b.log.len(),
        subscribe_spec(b).0.log == b.log,
        subscribe_spec(b).0.capacity == b.capacity,
        subscribe_spec(b).0.closed == b.closed,
{
    lemma_first_free(b.cursors, 0);
    let (nb, k) = subscribe_spec(b);
    assert forall|i: nat| #[trigger] nb.is_active(i) implies nb.cursor(i) <= nb.log.len() by {
        if i != k {
            assert(b.is_active(i));
        }
    }
}

proof fn lemma_publish_all(b: BusView, ps: Seq<MessageView>, id: nat)
    requires
        b.wf(),
        !b.closed,
        b.is_active(id),
    ensures
        publish_all(b, ps).wf(),
        publish_all(b, ps).log == b.log + ps,
        publish_all(b, ps).cursors == b.cursors,
        publish_all(b, ps).capacity == b.capacity,
        !publish_all(b, ps).closed,
    decreases ps.len(),
{
    if ps.len() > 0 {
        let b1 = publish_all(b, ps.drop_last());
        lemma_publish_all(b, ps.drop_last(), id);
        assert(b1.is_active(id));
        lemma_publish_wf(b1, ps.last());
        assert(b.log + ps =~= (b.log + ps.drop_last()).push(ps.last()));
    }
}

/// A subscriber that is not behind the ring reads every buffered message, in
/// order, one per read.
proof fn lemma_drain(b: BusView, id: nat)
    requires
        b.wf(),
        b.is_active(id),
        b.oldest() <= b.cursor(id),
    ensures
        ({
            let (nb, rs) = recv_many(b, id, (b.log.len() - b.cursor(id)) as nat);
            &&& rs == as_reads(b.log.subrange(b.cursor(id) as int, b.log.len() as int))
            &&& nb.wf()
            &&& nb.is_active(id)
            &&& nb.cursor(id) == b.log.len()
            &&& nb.log == b.log
            &&& nb.closed == b.closed
        }),
    decreases b.log.len() - b.cursor(id),
{
    let c = b.cursor(id);
    let n = (b.log.len() - c) as nat;
    if n > 0 {
        let (b1, r) = recv_spec(b, id);
        lemma_recv_wf(b, id);
        assert(b1.cursor(id) == c + 1);
        lemma_drain(b1, id);
        let tail = b.log.subrange(c as int, b.log.len() as int);
        assert(as_reads(tail) =~= seq![r] + as_reads(
            b1.log.subrange(c + 1 as int, b1.log.len() as int),
        ));
    } else {
        assert(as_reads(b.log.subrange(c as int, b.log.len() as int)) =~= Seq::empty());
    }
}

/// Ordering: a subscriber that is caught up before `ps` are published, and
/// that does not fall behind the ring, reads them back exactly in publish
/// order.
pub proof fn lemma_ordering(b: BusView, id: nat, ps: Seq<MessageView>)
    requires
        b.wf(),
        !b.closed,
        b.is_active(id),
        b.cursor(id) == b.log.len(),
        ps.len() <= b.capacity,
    ensures
        recv_many(publish_all(b, ps), id, ps.len()).1 == as_reads(ps),
{
    let b2 = publish_all(b, ps);
    lemma_publish_all(b, ps, id);
    lemma_drain(b2, id);
    assert(b2.log.subrange(b.log.len() as int, b2.log.len() as int) =~= ps);
}

/// Fan-out: a message published while subscribers are caught up is the next
/// read of each of them, whatever any other subscriber reads in between.
pub proof fn lemma_fan_out(b: BusView, m: MessageView)
    requires
        b.wf(),
        !b.closed,
    ensures
        forall|i: nat|
            b.is_active(i) && b.cursor(i) == b.log.len() ==> #[trigger] recv_spec(
                publish_spec(b, m),
                i,
            ).1 == RecvView::Message(m),
        forall|i: nat, j: nat|
            b.is_active(i) && b.cursor(i) == b.log.len() && i != j ==> #[trigger] recv_spec(
                #[trigger] recv_spec(publish_spec(b, m), j).0,
                i,
            ).1 == RecvView::Message(m),
{
    assert forall|i: nat|
        b.is_active(i) && b.cursor(i) == b.log.len() implies #[trigger] recv_spec(
        publish_spec(b, m),
        i,
    ).1 == RecvView::Message(m) by {
        assert(b.has_subscribers());
    }
    assert forall|i: nat, j: nat|
        b.is_active(i) && b.cursor(i) == b.log.len() && i != j implies #[trigger] recv_spec(
        #[trigger] recv_spec(publish_spec(b, m), j).0,
        i,
    ).1 == RecvView::Message(m) by {
        assert(b.has_subscribers());
        let b1 = publish_spec(b, m);
        let b2 = recv_spec(b1, j).0;
        assert(b2.is_active(i));
        assert(b2.cursor(i) == b.log.len());
    }
}

/// A publish with no subscriber registered changes nothing.
pub proof fn lemma_publish_unheard(b: BusView, m: MessageView)
    requires
        !b.has_subscribers(),
    ensures
        publish_spec(b, m) == b,
{
}

/// Lag recovery: a subscriber behind the ring is told how many it missed,
/// then reads every message still kept, in order, with its registration intact.
pub proof fn lemma_lag_recovery(b: BusView, id: nat)
    requires
        b.wf(),
        b.is_active(id),
        b.cursor(id) < b.oldest(),
    ensures
        ({
            let (b1, r) = recv_spec(b, id);
            &&& r == RecvView::Lagged((b.oldest() - b.cursor(id)) as nat)
            &&& b1.is_active(id)
            &&& recv_many(b1, id, b.capacity).1 == as_reads(
                b.log.subrange(b.oldest() as int, b.log.len() as int),
            )
        }),
{
    let b1 = recv_spec(b, id).0;
    lemma_recv_wf(b, id);
    assert(b1.cursor(id) == b.oldest());
    lemma_drain(b1, id);
}

/// Late subscriber isolation: a subscriber that joins between two publishes
/// reads the second message and then finds nothing more; the first never
/// reaches it.
pub proof fn lemma_late_subscriber(b: BusView, m1: MessageView, m2: MessageView)
    requires
        b.wf(),
        !b.closed,
    ensures
        ({
            let b1 = publish_spec(b, m1);
            let (b2, k) = subscribe_spec(b1);
            let b3 = publish_spec(b2, m2);
            recv_many(b3, k, 2).1 == seq![RecvView::Message(m2), RecvView::Empty]
        }),
{
    let b1 = publish_spec(b, m1);
    lemma_publish_wf(b, m1);
    lemma_subscribe(b1);
    let (b2, k) = subscribe_spec(b1);
    assert(b2.has_subscribers()) by {
        assert(b2.is_active(k));
    }
    let b3 = publish_spec(b2, m2);
    let (b4, r1) = recv_spec(b3, k);
    assert(r1 == RecvView::Message(m2));
    let (b5, r2) = recv_spec(b4, k);
    assert(r2 == RecvView::Empty);
    assert(recv_many(b5, k, 0).1 =~= Seq::<RecvView>::empty());
    assert(recv_many(b4, k, 1).1 =~= seq![RecvView::Empty]);
    assert(recv_many(b3, k, 2).1 =~= seq![RecvView::Message(m2), RecvView::Empty]);
}

spec fn cursor_view(c: Option<u64>) -> Option<nat> {
    match c {
        Some(v) => Some(v as nat),
        None => None,
    }
}

/// A bounded multi-subscriber broadcast channel.
pub struct Bus {
    ring: Vec<Message>,
    capacity: usize,
    tail: u64,
    cursors: Vec<Option<u64>>,
    closed: bool,
    log: Ghost<Seq<MessageView>>,
}

proof fn lemma_mod_distinct(a: int, b: int, c: int)
    requires
        0 <= a < b,
        b - a < c,
    ensures
        a % c != b % c,
{
    assert(a % c != b % c) by (nonlinear_arith)
        requires
            0 <= a < b,
            b - a < c,
    ;
}

impl View for Bus {
    type V = BusView;

    closed spec fn view(&self) -> BusView {
        BusView {
            log: self.log@,
            capacity: self.capacity as nat,
            cursors: self.cursors@.map_values(|c: Option<u64>| cursor_view(c)),
            closed: self.closed,
        }
    }
}

impl Bus {
    /// The ring holds exactly the retained suffix of the log, each message at
    /// its sequence number modulo the capacity.
    pub closed spec fn wf(&self) -> bool {
        &&& self.capacity > 0
        &&& self.tail == self.log@.len()
        &&& self.ring@.len() == if self.log@.len() < self.capacity {
            self.log@.len()
        } else {
            self.capacity as nat
        }
        &&& forall|s: int|
            self@.oldest() <= s < self.log@.len() ==> (#[trigger] self.ring@[s % (
            self.capacity as int)])@ == self.log@[s]
        &&& forall|i: int|
            0 <= i < self.cursors@.len() && #[trigger] self.cursors@[i] is Some
                ==> self.cursors@[i].unwrap() <= self.tail
    }

    /// The abstract state of a well-formed bus is well-formed, so the laws
    /// stated over `BusView` apply to it.
    pub proof fn lemma_view_wf(&self)
        requires
            self.wf(),
        ensures
            self@.wf(),
    {
        assert forall|i: nat| #[trigger] self@.is_active(i) implies self@.cursor(i)
            <= self@.log.len() by {
            assert(self.cursors@[i as int] is Some);
        }
    }

    /// An empty, open bus keeping the last `capacity` messages.
    pub fn new(capacity: usize) -> (r: Bus)
        requires
            capacity > 0,
        ensures
            r.wf(),
            r@ == new_spec(capacity as nat),
    {
        let r = Bus {
            ring: Vec::new(),
            capacity,
            tail: 0,
            cursors: Vec::new(),
            closed: false,
            log: Ghost(Seq::empty()),
        };
        assert(r@.cursors =~= Seq::<Option<nat>>::empty());
        r
    }

    pub fn capacity(&self) -> (r: usize)
        ensures
            r == self@.capacity,
    {
        self.capacity
    }

    /// How many messages the bus has taken so far.
    pub fn published(&self) -> (r: u64)
        requires
            self.wf(),
        ensures
            r == self@.log.len(),
    {
        self.tail
    }

    pub fn is_closed(&self) -> (r: bool)
        ensures
            r == self@.closed,
    {
        self.closed
    }

    /// Whether any subscriber is registered.
    pub fn has_subscribers(&self) -> (r: bool)
        ensures
            r == self@.has_subscribers(),
    {
        let mut i: usize = 0;
        while i < self.cursors.len()
            invariant
                i <= self.cursors@.len(),
                forall|j: nat| j < i ==> !(#[trigger] self@.is_active(j)),
            decreases self.cursors@.len() - i,
        {
            if self.cursors[i].is_some() {
                assert(self@.is_active(i as nat));
                return true;
            }
            assert(!self@.is_active(i as nat));
            i = i + 1;
        }
        false
    }
    /// Offers `m` to every current subscriber. Never blocks: when the ring is
    /// full the oldest message is overwritten. With the bus closed or nobody
    /// subscribed nothing happens. Returns whether the message was taken.
    pub fn publish(&mut self, m: Message) -> (taken: bool)
        requires
            old(self).wf(),
            old(self)@.log.len() < u64::MAX,
        ensures
            final(self).wf(),
            final(self)@ == publish_spec(old(self)@, m@),
            taken == (!old(self)@.closed && old(self)@.has_subscribers()),
    {
        if self.closed || !self.has_subscribers() {
            return false;
        }
        let ghost old_log = self.log@;
        let ghost mv = m@;
        let cap = self.capacity;
        let slot = (self.tail % (cap as u64)) as usize;
        if self.ring.len() < cap {
            proof {
                vstd::arithmetic::div_mod::lemma_small_mod(self.tail as nat, cap as nat);
            }
            self.ring.push(m);
        } else {
            self.ring.set(slot, m);
        }
        self.log = Ghost(old_log.push(mv));
        self.tail = self.tail + 1;
        proof {
            let n = self.log@.len() as int;
            assert forall|s: int| self@.oldest() <= s < n implies (#[trigger] self.ring@[s % (
            cap as int)])@ == self.log@[s] by {
                if s < n - 1 {
                    lemma_mod_distinct(s, n - 1, cap as int);
                    if old_log.len() < cap {
                        vstd::arithmetic::div_mod::lemma_small_mod(s as nat, cap as nat);
                    }
                }
            }
            assert(self@.cursors =~= old(self)@.cursors);
        }
        true
    }

    /// Registers a new subscriber whose cursor stands at the end of the log.
    pub fn subscribe(&mut self) -> (id: SubscriberId)
        requires
            old(self).wf(),
        ensures
            final(self).wf(),
            (final(self)@, id.index as nat) == subscribe_spec(old(self)@),
    {
        let ghost cv = self@.cursors;
        let mut i: usize = 0;
        while i < self.cursors.len() && self.cursors[i].is_some()
            invariant
                i <= self.cursors@.len(),
                cv == self@.cursors,
                first_free(cv, 0) == first_free(cv, i as nat),
            decreases self.cursors@.len() - i,
        {
            i = i + 1;
        }
        let t = self.tail;
        if i < self.cursors.len() {
            self.cursors.set(i, Some(t));
        } else {
            self.cursors.push(Some(t));
        }
        proof {
            let (nb, k) = subscribe_spec(old(self)@);
            assert(self@.cursors =~= nb.cursors);
        }
        SubscriberId { index: i }
    }

    /// Frees the registration of `id`; its reads then report `Closed`.
    pub fn unsubscribe(&mut self, id: SubscriberId)
        requires
            old(self).wf(),
        ensures
            final(self).wf(),
            final(self)@ == unsubscribe_spec(old(self)@, id.index as nat),
    {
        if id.index < self.cursors.len() {
            self.cursors.set(id.index, None);
            assert(self@.cursors =~= old(self)@.cursors.update(id.index as int, None));
        }
    }

    /// Shuts the bus down: readers drain what is buffered, then see `Closed`.
    pub fn close(&mut self)
        requires
            old(self).wf(),
        ensures
            final(self).wf(),
            final(self)@ == close_spec(old(self)@),
    {
        self.closed = true;
    }

    /// One non-blocking read by subscriber `id`.
    pub fn recv(&mut self, id: SubscriberId) -> (r: RecvResult)
        requires
            old(self).wf(),
        ensures
            final(self).wf(),
            (final(self)@, r@) == recv_spec(old(self)@, id.index as nat),
    {
        if id.index >= self.cursors.len() {
            return RecvResult::Closed;
        }
        let c = match self.cursors[id.index] {
            None => {
                return RecvResult::Closed;
            },
            Some(c) => c,
        };
        let cap = self.capacity as u64;
        let oldest: u64 = if self.tail > cap {
            self.tail - cap
        } else {
            0
        };
        if c < oldest {
            self.cursors.set(id.index, Some(oldest));
            assert(self@.cursors =~= old(self)@.cursors.update(
                id.index as int,
                Some(oldest as nat),
            ));
            RecvResult::Lagged(oldest - c)
        } else if c < self.tail {
            proof {
                if self.tail < cap {
                    vstd::arithmetic::div_mod::lemma_small_mod(c as nat, cap as nat);
                }
            }
            let m = self.ring[(c % cap) as usize].duplicate();
            self.cursors.set(id.index, Some(c + 1));
            assert(self@.cursors =~= old(self)@.cursors.update(
                id.index as int,
                Some((c + 1) as nat),
            ));
            RecvResult::Message(m)
        } else if self.closed {
            RecvResult::Closed
        } else {
            RecvResult::Empty
        }
    }
}

} // verus!
