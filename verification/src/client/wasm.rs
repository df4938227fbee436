use std::collections::VecDeque;
use vstd::multiset::Multiset;
use vstd::prelude::*;

use crate::address::SocketAddress;
use crate::client::error::NaiaClientSocketError;
use crate::client::packet::Packet;
use crate::client::packet_receiver_trait::PacketReceiverTrait;
use crate::client::resend::{
    after_attempt, begin, frames_packets, held, is_idle, is_ready, is_settled,
    lemma_idle_holds_dropped, lemma_outcome_keeps_packets, lemma_send_keeps_packets,
    lemma_run_start, lemma_send_tries_oldest_first, lemma_settle, settle, ResendModel,
    ResendQueue,
};
use crate::client::resend_progress::{
    lemma_attempt_makes_progress, lemma_bounded, lemma_encode_bound, place, progress,
};

verus! {

broadcast use vstd::seq_lib::group_to_multiset_ensures, vstd::multiset::group_multiset_axioms;

/// Receives the packets that the WebRTC data channel delivered, in the order
/// in which they arrived.
pub struct PacketReceiverImpl {
    message_queue: VecDeque<Packet>,
}

impl PacketReceiverImpl {
    /// The packets that arrived and were not received yet, oldest first.
    pub closed spec fn queue(&self) -> Seq<Packet> {
        self.message_queue@
    }

    /// A receiver to which nothing has arrived yet.
    pub fn new() -> (res: PacketReceiverImpl)
        ensures
            res.queue() == Seq::<Packet>::empty(),
    {
        PacketReceiverImpl { message_queue: VecDeque::new() }
    }

    /// Records a packet that the data channel delivered.
    pub fn push_message(&mut self, packet: Packet)
        ensures
            final(self).queue() == old(self).queue().push(packet),
    {
        self.message_queue.push_back(packet);
    }
}

impl PacketReceiverTrait for PacketReceiverImpl {
    /// The oldest packet that arrived and was not received yet, or `Ok(None)`.
    fn receive(&mut self) -> (res: Result<Option<Packet>, NaiaClientSocketError>)
        ensures
            old(self).queue().len() == 0 ==> res == Ok::<Option<Packet>, NaiaClientSocketError>(
                None,
            ) && final(self).queue() == old(self).queue(),
            old(self).queue().len() > 0 ==> res == Ok::<Option<Packet>, NaiaClientSocketError>(
                Some(old(self).queue()[0]),
            ) && final(self).queue() == old(self).queue().drop_first(),
    {
        match self.message_queue.pop_front() {
            Some(packet) => {
                proof {
                    assert(self.queue() =~= old(self).queue().drop_first());
                }
                Ok(Some(packet))
            },
            None => Ok(None),
        }
    }
}

/// The outgoing side when nothing was ever sent.
pub open spec fn no_outgoing() -> ResendModel {
    ResendModel { dropped: Seq::empty(), frames: Seq::empty() }
}

/// The outgoing side and the packets left to resend after an attempt during
/// a receive: the send in progress goes on, and when it ends the oldest packet
/// left to resend is sent next.
pub open spec fn receive_step(o: ResendModel, r: Seq<Packet>, delivered: bool) -> (
    ResendModel,
    Seq<Packet>,
) {
    let a = settle(after_attempt(o, delivered));
    if is_idle(a) && r.len() > 0 {
        (settle(begin(a, r[0])), r.drop_first())
    } else {
        (a, r)
    }
}

/// Every packet a socket still has to deliver: those of its outgoing side and
/// those left to resend.
pub open spec fn undelivered(o: ResendModel, r: Seq<Packet>) -> Multiset<Packet> {
    held(o).add(r.to_multiset())
}

/// Starting a receive neither loses nor duplicates a packet: the refused
/// packets are all still to be delivered.
pub proof fn lemma_begin_receive_keeps_packets(o: ResendModel)
    requires
        is_idle(o),
        o.dropped.len() > 0,
    ensures
        undelivered(settle(begin(no_outgoing(), o.dropped[0])), o.dropped.drop_first())
            == held(o),
{
    let d = o.dropped;
    lemma_send_keeps_packets(no_outgoing(), d[0]);
    lemma_idle_holds_dropped(o);
    lemma_idle_holds_dropped(no_outgoing());
    assert(Seq::<Packet>::empty().to_multiset() =~= Multiset::empty());
    assert(d.remove(0) =~= d.drop_first());
    assert(d.contains(d[0]));
    assert(undelivered(settle(begin(no_outgoing(), d[0])), d.drop_first()) =~= held(o));
}

/// An attempt during a receive takes a packet out of what is still to be
/// delivered only when the channel took it; the packets left to resend stay.
pub proof fn lemma_receive_step_keeps_packets(o: ResendModel, r: Seq<Packet>, delivered: bool)
    requires
        is_ready(o),
    ensures
        undelivered(receive_step(o, r, delivered).0, receive_step(o, r, delivered).1) == if delivered {
            undelivered(o, r).remove(o.frames.last().packet)
        } else {
            undelivered(o, r)
        },
{
    let a = settle(after_attempt(o, delivered));
    lemma_outcome_keeps_packets(o, delivered);
    lemma_settle(after_attempt(o, delivered));
    let top = o.frames.last().packet;
    assert(held(o).count(top) > 0) by {
        assert(o.frames.last().resend =~= Seq::<Packet>::empty());
        assert(frames_packets(o.frames) == frames_packets(o.frames.drop_last()).add(
            o.frames.last().resend.to_multiset(),
        ).insert(top));
    }
    if is_idle(a) && r.len() > 0 {
        lemma_send_keeps_packets(a, r[0]);
        assert(r.remove(0) =~= r.drop_first());
        assert(r.contains(r[0]));
    }
    if delivered {
        assert(undelivered(receive_step(o, r, delivered).0, receive_step(o, r, delivered).1)
            =~= undelivered(o, r).remove(top));
    } else {
        assert(undelivered(receive_step(o, r, delivered).0, receive_step(o, r, delivered).1)
            =~= undelivered(o, r));
    }
}

/// A measure of the work a receive has left, for a socket that has at most
/// `n` packets to deliver: the packets left to resend, each weighing more than
/// any state of the outgoing side, plus the progress measure of that side.
pub open spec fn receive_measure(o: ResendModel, r: Seq<Packet>, n: nat) -> nat {
    r.len() * place(n, (n + 1) as nat) + progress(o, n)
}

/// During a receive, an attempt leaves the packets still to resend as they
/// were, or, when it ends a send, starts a send of the oldest of them and
/// leaves the others in their order; it never puts a packet back among them.
pub proof fn lemma_receive_step_order(o: ResendModel, r: Seq<Packet>, delivered: bool)
    requires
        is_ready(o),
    ensures
        ({
            let (o2, r2) = receive_step(o, r, delivered);
            ||| r2 == r && o2 == settle(after_attempt(o, delivered))
            ||| r.len() > 0 && r2 == r.drop_first() && is_ready(o2) && o2.frames[0].packet == r[0]
        }),
{
    let a = settle(after_attempt(o, delivered));
    lemma_settle(after_attempt(o, delivered));
    if is_idle(a) && r.len() > 0 {
        lemma_run_start(a, r[0]);
        lemma_send_tries_oldest_first(a, r[0]);
    }
}

/// A receive ends after finitely many attempts, whatever the channel answers:
/// each attempt lowers [`receive_measure`], a natural number, and the socket
/// goes on having at most `n` packets to deliver.
pub proof fn lemma_receive_ends(o: ResendModel, r: Seq<Packet>, delivered: bool, n: nat)
    requires
        is_ready(o),
        undelivered(o, r).len() <= n,
    ensures
        undelivered(receive_step(o, r, delivered).0, receive_step(o, r, delivered).1).len() <= n,
        receive_measure(receive_step(o, r, delivered).0, receive_step(o, r, delivered).1, n)
            < receive_measure(o, r, n),
{
    let top = o.frames.last().packet;
    let (o2, r2) = receive_step(o, r, delivered);
    lemma_receive_step_keeps_packets(o, r, delivered);
    assert(held(o).count(top) > 0) by {
        assert(o.frames.last().resend =~= Seq::<Packet>::empty());
        assert(frames_packets(o.frames) == frames_packets(o.frames.drop_last()).add(
            o.frames.last().resend.to_multiset(),
        ).insert(top));
    }
    if delivered {
        assert(Multiset::singleton(top).subset_of(undelivered(o, r)));
    }
    assert(undelivered(o2, r2).len() <= undelivered(o, r).len());
    assert(held(o).len() <= n);
    let a = settle(after_attempt(o, delivered));
    lemma_attempt_makes_progress(o, delivered, n);
    let p = place(n, (n + 1) as nat);
    if is_idle(a) && r.len() > 0 {
        assert(held(o2).len() <= n);
        lemma_bounded(o2, n);
        lemma_encode_bound(o2.frames, n, 0);
        assert(progress(o2, n) < p);
        let k = r.len();
        assert((k - 1) * p + p == k * p) by (nonlinear_arith)
            requires
                k >= 1,
        ;
        assert(r2.len() == k - 1);
    } else {
        assert(o2 == a);
        assert(r2 == r);
    }
}

/// What a browser client socket keeps: the server's address, the results that
/// its data channel reported, oldest first, the outgoing side of the channel
/// (packets the channel refused, sends in progress), and, while it receives,
/// the refused packets it still has to send again.
///
/// A receive first sends every packet that the channel refused so far, each
/// as a send of its own, oldest first, whatever becomes of the others; only
/// then does it hand back the oldest result that arrived. The channel stays
/// outside: the owner tries the packet of [`ClientSocket::next_attempt`] on it
/// and reports the outcome with [`ClientSocket::report_outcome`].
pub struct ClientSocket {
    address: SocketAddress,
    message_queue: VecDeque<Result<Option<Packet>, NaiaClientSocketError>>,
    outgoing: ResendQueue,
    resending: VecDeque<Packet>,
}

impl ClientSocket {
    /// The address of the server.
    pub closed spec fn server_address(&self) -> SocketAddress {
        self.address
    }

    /// The results that arrived and were not received yet, oldest first.
    pub closed spec fn queue(&self) -> Seq<Result<Option<Packet>, NaiaClientSocketError>> {
        self.message_queue@
    }

    /// The outgoing side of the data channel.
    pub closed spec fn outgoing(&self) -> ResendModel {
        self.outgoing.model()
    }

    /// The refused packets that the current receive has still to send, oldest first.
    pub closed spec fn resending(&self) -> Seq<Packet> {
        self.resending@
    }

    /// The socket waits for the outside world, and it has packets left to
    /// resend only while a send is in progress.
    pub open spec fn wf(&self) -> bool {
        &&& is_settled(self.outgoing())
        &&& self.resending().len() > 0 ==> !is_idle(self.outgoing())
    }

    /// Neither a send nor a receive is in progress.
    pub open spec fn is_quiet(&self) -> bool {
        is_idle(self.outgoing()) && self.resending().len() == 0
    }

    /// A socket for the server at `address`, to which nothing has arrived yet
    /// and which has sent nothing.
    pub fn new(address: SocketAddress) -> (res: ClientSocket)
        ensures
            res.server_address() == address,
            res.queue() == Seq::<Result<Option<Packet>, NaiaClientSocketError>>::empty(),
            res.outgoing() == no_outgoing(),
            res.resending() == Seq::<Packet>::empty(),
            res.wf(),
    {
        ClientSocket {
            address,
            message_queue: VecDeque::new(),
            outgoing: ResendQueue::new(),
            resending: VecDeque::new(),
        }
    }

    /// The address of the server.
    pub fn address(&self) -> (res: SocketAddress)
        ensures
            res == self.server_address(),
    {
        self.address
    }

    /// Whether neither a send nor a receive is in progress.
    pub fn quiet(&self) -> (res: bool)
        ensures
            res == self.is_quiet(),
    {
        !self.outgoing.is_sending() && self.resending.len() == 0
    }

    /// Records a result that the data channel reported.
    pub fn push_message(&mut self, message: Result<Option<Packet>, NaiaClientSocketError>)
        ensures
            final(self).queue() == old(self).queue().push(message),
            final(self).server_address() == old(self).server_address(),
            final(self).outgoing() == old(self).outgoing(),
            final(self).resending() == old(self).resending(),
    {
        self.message_queue.push_back(message);
    }

    /// Starts a send of `packet` on the data channel (see [`ResendQueue::start_send`]).
    pub fn send(&mut self, packet: Packet)
        requires
            old(self).is_quiet(),
        ensures
            final(self).outgoing() == settle(begin(old(self).outgoing(), packet)),
            final(self).resending() == old(self).resending(),
            final(self).queue() == old(self).queue(),
            final(self).server_address() == old(self).server_address(),
            final(self).wf(),
    {
        self.outgoing.start_send(packet);
    }

    /// The packet to try on the data channel now, or `None` when neither a
    /// send nor the resends of a receive are left.
    pub fn next_attempt(&self) -> (res: Option<&Packet>)
        requires
            self.wf(),
        ensures
            match res {
                Some(p) => is_ready(self.outgoing()) && *p == self.outgoing().frames.last().packet,
                None => self.is_quiet(),
            },
    {
        self.outgoing.next_attempt()
    }

    /// Records whether the data channel took the packet of
    /// [`ClientSocket::next_attempt`]; when that ends a send and the receive
    /// has refused packets left, the oldest of them is sent next.
    pub fn report_outcome(&mut self, delivered: bool)
        requires
            is_ready(old(self).outgoing()),
            old(self).wf(),
        ensures
            (final(self).outgoing(), final(self).resending()) == receive_step(
                old(self).outgoing(),
                old(self).resending(),
                delivered,
            ),
            final(self).resending() == old(self).resending() || (old(self).resending().len() > 0
                && final(self).resending() == old(self).resending().drop_first() && is_ready(
                final(self).outgoing(),
            ) && final(self).outgoing().frames[0].packet == old(self).resending()[0]),
            forall|n: nat|
                undelivered(old(self).outgoing(), old(self).resending()).len() <= n ==> (
                #[trigger] receive_measure(final(self).outgoing(), final(self).resending(), n))
                    < receive_measure(old(self).outgoing(), old(self).resending(), n),
            final(self).queue() == old(self).queue(),
            final(self).server_address() == old(self).server_address(),
            final(self).wf(),
    {
        proof {
            lemma_receive_step_order(old(self).outgoing(), old(self).resending(), delivered);
            assert forall|n: nat|
                undelivered(old(self).outgoing(), old(self).resending()).len() <= n implies #[trigger] receive_measure(
                receive_step(old(self).outgoing(), old(self).resending(), delivered).0,
                receive_step(old(self).outgoing(), old(self).resending(), delivered).1,
                n,
            ) < receive_measure(old(self).outgoing(), old(self).resending(), n) by {
                lemma_receive_ends(old(self).outgoing(), old(self).resending(), delivered, n);
            }
        }
        self.outgoing.report_outcome(delivered);
        if !self.outgoing.is_sending() {
            if self.resending.len() > 0 {
                let next = self.resending.pop_front().unwrap();
                let ghost o = self.outgoing.model();
                self.outgoing.start_send(next);
                proof {
                    lemma_send_tries_oldest_first(o, next);
                }
            }
        }
    }

    /// Starts a receive: takes every packet that the data channel refused so
    /// far, and starts a send of the oldest of them; the others follow, in
    /// order, as each send ends.
    pub fn begin_receive(&mut self)
        requires
            old(self).is_quiet(),
        ensures
            old(self).outgoing().dropped.len() == 0 ==> final(self).outgoing() == old(
                self,
            ).outgoing() && final(self).resending() == old(self).resending(),
            old(self).outgoing().dropped.len() > 0 ==> final(self).outgoing() == settle(
                begin(no_outgoing(), old(self).outgoing().dropped[0]),
            ) && final(self).resending() == old(self).outgoing().dropped.drop_first(),
            final(self).queue() == old(self).queue(),
            final(self).server_address() == old(self).server_address(),
            final(self).wf(),
    {
        if self.outgoing.dropped_len() == 0 {
            return;
        }
        let mut taken = self.outgoing.take_dropped();
        let first = taken.pop_front().unwrap();
        proof {
            assert(taken@ =~= old(self).outgoing().dropped.drop_first());
            assert(self.outgoing.model() == no_outgoing());
        }
        self.outgoing.start_send(first);
        self.resending = taken;
        proof {
            lemma_send_tries_oldest_first(no_outgoing(), first);
        }
    }

    /// Ends a receive: the oldest result that arrived and was not received
    /// yet, or `Ok(None)`.
    pub fn receive(&mut self) -> (res: Result<Option<Packet>, NaiaClientSocketError>)
        requires
            old(self).is_quiet(),
        ensures
            final(self).server_address() == old(self).server_address(),
            final(self).outgoing() == old(self).outgoing(),
            final(self).resending() == old(self).resending(),
            old(self).queue().len() == 0 ==> res == Ok::<Option<Packet>, NaiaClientSocketError>(
                None,
            ) && final(self).queue() == old(self).queue(),
            old(self).queue().len() > 0 ==> res == old(self).queue()[0] && final(self).queue()
                == old(self).queue().drop_first(),
    {
        if self.message_queue.len() == 0 {
            return Ok(None);
        }
        match self.message_queue.pop_front() {
            Some(message) => {
                proof {
                    assert(self.queue() =~= old(self).queue().drop_first());
                }
                message
            },
            None => Ok(None),
        }
    }
}

} // verus!
