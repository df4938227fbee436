use std::collections::VecDeque;
use vstd::multiset::Multiset;
use vstd::prelude::*;

use crate::client::packet::Packet;

verus! {

broadcast use vstd::seq_lib::group_to_multiset_ensures, vstd::multiset::group_multiset_axioms;

/// One call of `send` that has not returned yet, as the specification sees it.
///
/// `started` tells whether the call has already taken the dropped packets to
/// resend them; `resend` holds those of them it has not handed on yet, oldest
/// first.
pub struct SendFrame {
    pub packet: Packet,
    pub resend: Seq<Packet>,
    pub started: bool,
}

/// The state of the outgoing side of a data channel, as the specification sees it:
/// the packets that the channel refused, oldest first, and the calls of `send`
/// in progress, outermost first.
pub struct ResendModel {
    pub dropped: Seq<Packet>,
    pub frames: Seq<SendFrame>,
}

/// No send is in progress.
pub open spec fn is_idle(s: ResendModel) -> bool {
    s.frames.len() == 0
}

/// The innermost call is about to try its own packet on the channel.
pub open spec fn is_ready(s: ResendModel) -> bool {
    &&& s.frames.len() > 0
    &&& s.frames.last().started
    &&& s.frames.last().resend.len() == 0
}

/// The state waits for the outside world: it is idle, or it waits for the
/// outcome of an attempt.
pub open spec fn is_settled(s: ResendModel) -> bool {
    is_idle(s) || is_ready(s)
}

/// One step of the innermost call that needs no channel.
///
/// A call that has not started takes all the dropped packets, to resend them
/// before its own; a call that still has packets to resend hands the oldest
/// of them to a new, nested call of `send`.
pub open spec fn advance(s: ResendModel) -> ResendModel {
    let last = s.frames.len() - 1;
    let top = s.frames.last();
    if !top.started {
        ResendModel {
            dropped: Seq::empty(),
            frames: s.frames.update(
                last,
                SendFrame { packet: top.packet, resend: top.resend + s.dropped, started: true },
            ),
        }
    } else {
        ResendModel {
            dropped: s.dropped,
            frames: s.frames.update(
                last,
                SendFrame { packet: top.packet, resend: top.resend.drop_first(), started: true },
            ).push(SendFrame { packet: top.resend[0], resend: Seq::empty(), started: false }),
        }
    }
}

/// Twice the packets waiting in the calls to be resent, plus the calls not started.
pub open spec fn frames_weight(frames: Seq<SendFrame>) -> nat
    decreases frames.len(),
{
    if frames.len() == 0 {
        0
    } else {
        frames_weight(frames.drop_last()) + 2 * frames.last().resend.len() + if frames.last().started {
            0nat
        } else {
            1nat
        }
    }
}

/// A measure that each step without the channel makes smaller.
pub open spec fn weight(s: ResendModel) -> nat {
    2 * s.dropped.len() + frames_weight(s.frames)
}

/// The steps without the channel always come to an end: each one lowers the weight.
pub proof fn lemma_advance_decreases(s: ResendModel)
    requires
        !is_settled(s),
    ensures
        weight(advance(s)) < weight(s),
{
    let last = s.frames.len() - 1;
    let top = s.frames.last();
    let t = advance(s);
    if !top.started {
        let f = SendFrame { packet: top.packet, resend: top.resend + s.dropped, started: true };
        assert(s.frames.update(last, f).drop_last() =~= s.frames.drop_last());
        assert(frames_weight(t.frames) == frames_weight(s.frames.drop_last()) + 2 * (
        top.resend.len() + s.dropped.len()));
    } else {
        let f = SendFrame { packet: top.packet, resend: top.resend.drop_first(), started: true };
        let g = SendFrame { packet: top.resend[0], resend: Seq::empty(), started: false };
        let u = s.frames.update(last, f);
        assert(u.drop_last() =~= s.frames.drop_last());
        assert(u.push(g).drop_last() =~= u);
        assert(frames_weight(u) == frames_weight(s.frames.drop_last()) + 2 * (top.resend.len()
            - 1));
        assert(frames_weight(u.push(g)) == frames_weight(u) + 1);
    }
}

/// Runs the steps without the channel until the state waits for the outside world.
pub open spec fn settle(s: ResendModel) -> ResendModel
    decreases weight(s),
{
    if is_settled(s) {
        s
    } else {
        proof {
            lemma_advance_decreases(s);
        }
        settle(advance(s))
    }
}

/// The packets that the calls in progress hold: their own and those they are to resend.
pub open spec fn frames_packets(frames: Seq<SendFrame>) -> Multiset<Packet>
    decreases frames.len(),
{
    if frames.len() == 0 {
        Multiset::empty()
    } else {
        frames_packets(frames.drop_last()).add(frames.last().resend.to_multiset()).insert(
            frames.last().packet,
        )
    }
}

/// Every packet that the state holds and has not delivered yet.
pub open spec fn held(s: ResendModel) -> Multiset<Packet> {
    s.dropped.to_multiset().add(frames_packets(s.frames))
}

/// A step without the channel neither loses nor duplicates a packet.
pub proof fn lemma_advance_keeps_packets(s: ResendModel)
    requires
        !is_settled(s),
    ensures
        held(advance(s)) == held(s),
{
    let last = s.frames.len() - 1;
    let top = s.frames.last();
    let t = advance(s);
    let below = frames_packets(s.frames.drop_last());
    if !top.started {
        let f = SendFrame { packet: top.packet, resend: top.resend + s.dropped, started: true };
        assert(s.frames.update(last, f).drop_last() =~= s.frames.drop_last());
        vstd::seq_lib::lemma_multiset_commutative(top.resend, s.dropped);
        assert(held(t) =~= held(s));
    } else {
        let f = SendFrame { packet: top.packet, resend: top.resend.drop_first(), started: true };
        let g = SendFrame { packet: top.resend[0], resend: Seq::empty(), started: false };
        let u = s.frames.update(last, f);
        assert(u.drop_last() =~= s.frames.drop_last());
        assert(u.push(g).drop_last() =~= u);
        assert(Seq::<Packet>::empty().to_multiset() =~= Multiset::empty());
        assert(top.resend.remove(0) =~= top.resend.drop_first());
        assert(top.resend.contains(top.resend[0]));
        assert(top.resend.to_multiset() =~= top.resend.drop_first().to_multiset().insert(
            top.resend[0],
        ));
        assert(frames_packets(u) == below.add(top.resend.drop_first().to_multiset()).insert(
            top.packet,
        ));
        assert(frames_packets(u.push(g)) == frames_packets(u).add(
            Seq::<Packet>::empty().to_multiset(),
        ).insert(top.resend[0]));
        assert(t.frames == u.push(g));
        assert(held(t) =~= held(s));
    }
}

/// Settling ends in a state that waits for the outside world and holds the same packets.
pub proof fn lemma_settle(s: ResendModel)
    ensures
        is_settled(settle(s)),
        held(settle(s)) == held(s),
    decreases weight(s),
{
    if !is_settled(s) {
        lemma_advance_decreases(s);
        lemma_advance_keeps_packets(s);
        lemma_settle(advance(s));
    }
}


/// The state after the outcome of an attempt: the innermost call returns, and
/// its packet joins the dropped ones unless the channel took it.
pub open spec fn after_attempt(s: ResendModel, delivered: bool) -> ResendModel {
    ResendModel {
        dropped: if delivered {
            s.dropped
        } else {
            s.dropped.push(s.frames.last().packet)
        },
        frames: s.frames.drop_last(),
    }
}

/// The state at the start of a send of `packet`.
pub open spec fn begin(s: ResendModel, packet: Packet) -> ResendModel {
    ResendModel {
        dropped: s.dropped,
        frames: seq![SendFrame { packet, resend: Seq::empty(), started: false }],
    }
}

/// A send neither loses nor duplicates a packet: once it waits for the
/// channel, the state holds exactly the packets it held before, and the new one.
pub proof fn lemma_send_keeps_packets(s: ResendModel, packet: Packet)
    requires
        is_idle(s),
    ensures
        held(settle(begin(s, packet))) == held(s).insert(packet),
{
    let b = begin(s, packet);
    lemma_settle(b);
    assert(b.frames.drop_last() =~= Seq::<SendFrame>::empty());
    assert(frames_packets(b.frames.drop_last()) =~= Multiset::empty());
    assert(Seq::<Packet>::empty().to_multiset() =~= Multiset::empty());
    assert(frames_packets(b.frames) =~= Multiset::empty().insert(packet));
    assert(s.frames =~= Seq::<SendFrame>::empty());
    assert(held(s) =~= s.dropped.to_multiset());
    assert(held(b) =~= held(s).insert(packet));
}

/// An attempt takes a packet out of the state only when the channel took it;
/// a refused packet stays, among the dropped ones.
pub proof fn lemma_outcome_keeps_packets(s: ResendModel, delivered: bool)
    requires
        is_ready(s),
    ensures
        held(settle(after_attempt(s, delivered))) == if delivered {
            held(s).remove(s.frames.last().packet)
        } else {
            held(s)
        },
{
    let a = after_attempt(s, delivered);
    let top = s.frames.last();
    lemma_settle(a);
    assert(top.resend =~= Seq::<Packet>::empty());
    assert(Seq::<Packet>::empty().to_multiset() =~= Multiset::empty());
    assert(frames_packets(s.frames) == frames_packets(s.frames.drop_last()).add(
        top.resend.to_multiset(),
    ).insert(top.packet));
    if delivered {
        assert(held(a) =~= held(s).remove(top.packet));
    } else {
        assert(held(a) =~= held(s));
    }
}

/// When no send is in progress, every packet that was not delivered waits
/// among the dropped ones.
pub proof fn lemma_idle_holds_dropped(s: ResendModel)
    requires
        is_idle(s),
    ensures
        held(s) == s.dropped.to_multiset(),
{
    assert(s.frames =~= Seq::<SendFrame>::empty());
    assert(held(s) =~= s.dropped.to_multiset());
}

/// A send first tries the oldest dropped packet; only when none is dropped
/// does it try its own packet at once.
pub proof fn lemma_send_tries_oldest_first(s: ResendModel, packet: Packet)
    requires
        is_idle(s),
    ensures
        is_ready(settle(begin(s, packet))),
        settle(begin(s, packet)).frames.last().packet == if s.dropped.len() > 0 {
            s.dropped[0]
        } else {
            packet
        },
{
    let b = begin(s, packet);
    let a1 = advance(b);
    assert(a1.frames.last().resend =~= s.dropped);
    if s.dropped.len() == 0 {
        assert(is_ready(a1));
        assert(settle(b) == settle(a1));
    } else {
        let a2 = advance(a1);
        let a3 = advance(a2);
        assert(!is_settled(a2));
        assert(a2.dropped.len() == 0);
        assert(a3.frames.last().resend =~= Seq::<Packet>::empty());
        assert(is_ready(a3));
        assert(settle(b) == settle(a1));
        assert(settle(a1) == settle(a2));
        assert(settle(a2) == settle(a3));
    }
}

/// With nothing dropped, a send that the channel takes leaves the state as it
/// found it.
pub proof fn lemma_delivered_send_leaves_nothing(s: ResendModel, packet: Packet)
    requires
        is_idle(s),
        s.dropped.len() == 0,
    ensures
        settle(after_attempt(settle(begin(s, packet)), true)) == s,
{
    lemma_send_tries_oldest_first(s, packet);
    let b = begin(s, packet);
    let a1 = advance(b);
    assert(a1.frames.last().resend =~= Seq::<Packet>::empty());
    assert(is_ready(a1));
    assert(settle(b) == settle(a1));
    assert(settle(b) == a1);
    let c = after_attempt(a1, true);
    assert(c.frames =~= Seq::<SendFrame>::empty());
    assert(c.dropped =~= s.dropped);
    assert(s.frames =~= Seq::<SendFrame>::empty());
    assert(c == s);
}

/// The state after `k` attempts that the channel all took.
pub open spec fn delivered_run(s: ResendModel, k: nat) -> ResendModel
    decreases k,
{
    if k == 0 {
        s
    } else {
        settle(after_attempt(delivered_run(s, (k - 1) as nat), true))
    }
}

/// While a send of `packet` resends the dropped packets `d` on a channel that
/// takes everything: it waits for the attempt of `d[k]`, with the packets
/// after `d[k]` still to resend.
pub open spec fn resending_state(packet: Packet, d: Seq<Packet>, k: int) -> ResendModel {
    ResendModel {
        dropped: Seq::empty(),
        frames: seq![
            SendFrame { packet, resend: d.skip(k + 1), started: true },
            SendFrame { packet: d[k], resend: Seq::empty(), started: true },
        ],
    }
}

/// A send of `packet` that waits for the attempt of its own packet, with
/// nothing left to resend.
pub open spec fn own_attempt_state(packet: Packet) -> ResendModel {
    ResendModel {
        dropped: Seq::empty(),
        frames: seq![SendFrame { packet, resend: Seq::empty(), started: true }],
    }
}

/// What a send starts with, whatever came before: with nothing dropped it
/// tries its own packet at once; otherwise it hands the oldest dropped packet
/// to a send of its own, which tries it at once, and keeps the others, in
/// their order, to resend after it.
pub proof fn lemma_run_start(s: ResendModel, packet: Packet)
    requires
        is_idle(s),
    ensures
        s.dropped.len() > 0 ==> settle(begin(s, packet)) == resending_state(packet, s.dropped, 0),
        s.dropped.len() == 0 ==> settle(begin(s, packet)) == own_attempt_state(packet),
{
    let d = s.dropped;
    let b = begin(s, packet);
    let a1 = advance(b);
    assert(a1.frames.last().resend =~= d);
    assert(settle(b) == settle(a1));
    if d.len() == 0 {
        assert(is_ready(a1));
        assert(a1.frames =~= own_attempt_state(packet).frames);
        assert(a1.dropped =~= Seq::<Packet>::empty());
    } else {
        let a2 = advance(a1);
        let a3 = advance(a2);
        assert(a2.dropped.len() == 0);
        assert(a3.frames.last().resend =~= Seq::<Packet>::empty());
        assert(is_ready(a3));
        assert(settle(a1) == settle(a2));
        assert(settle(a2) == settle(a3));
        let r = resending_state(packet, d, 0);
        assert(a3.frames[0].resend =~= d.skip(1));
        assert(a3.frames[0] == r.frames[0]);
        assert(a3.frames[1] == r.frames[1]);
        assert(a3.frames =~= r.frames);
        assert(a3.dropped =~= r.dropped);
    }
}

proof fn lemma_run_step(packet: Packet, d: Seq<Packet>, k: int)
    requires
        0 <= k < d.len(),
    ensures
        k + 1 < d.len() ==> settle(after_attempt(resending_state(packet, d, k), true))
            == resending_state(packet, d, k + 1),
        k + 1 == d.len() ==> settle(after_attempt(resending_state(packet, d, k), true))
            == own_attempt_state(packet),
{
    let m = resending_state(packet, d, k);
    let a = after_attempt(m, true);
    assert(a.frames =~= seq![SendFrame { packet, resend: d.skip(k + 1), started: true }]);
    assert(a.dropped =~= Seq::<Packet>::empty());
    if k + 1 == d.len() {
        assert(d.skip(k + 1) =~= Seq::<Packet>::empty());
        assert(is_ready(a));
        assert(a.frames =~= own_attempt_state(packet).frames);
    } else {
        let a1 = advance(a);
        let a2 = advance(a1);
        assert(!is_settled(a));
        assert(!is_settled(a1));
        assert(a2.frames.last().resend =~= Seq::<Packet>::empty());
        assert(is_ready(a2));
        assert(settle(a) == settle(a1));
        assert(settle(a1) == settle(a2));
        let r = resending_state(packet, d, k + 1);
        assert(d.skip(k + 1).drop_first() =~= d.skip(k + 2));
        assert(a2.frames[0] == r.frames[0]);
        assert(a2.frames[1] == r.frames[1]);
        assert(a2.frames =~= r.frames);
        assert(a2.dropped =~= r.dropped);
    }
}

proof fn lemma_run_prefix(s: ResendModel, packet: Packet, k: nat)
    requires
        is_idle(s),
        k <= s.dropped.len(),
    ensures
        k < s.dropped.len() ==> delivered_run(settle(begin(s, packet)), k) == resending_state(
            packet,
            s.dropped,
            k as int,
        ),
        k == s.dropped.len() ==> delivered_run(settle(begin(s, packet)), k) == own_attempt_state(
            packet,
        ),
    decreases k,
{
    lemma_run_start(s, packet);
    if k > 0 {
        lemma_run_prefix(s, packet, (k - 1) as nat);
        lemma_run_step(packet, s.dropped, k - 1);
    }
}

/// On a channel that takes everything, a send tries the dropped packets one
/// by one, oldest first, and then its own packet; after that last attempt
/// nothing is in progress and nothing is dropped.
pub proof fn lemma_delivered_send_order(s: ResendModel, packet: Packet)
    requires
        is_idle(s),
    ensures
        forall|k: nat|
            k <= s.dropped.len() ==> is_ready(#[trigger] delivered_run(settle(begin(s, packet)), k)),
        forall|k: nat|
            k < s.dropped.len() ==> (#[trigger] delivered_run(settle(begin(s, packet)), k)).frames.last().packet
                == s.dropped[k as int],
        delivered_run(settle(begin(s, packet)), s.dropped.len()).frames.last().packet == packet,
        delivered_run(settle(begin(s, packet)), s.dropped.len() + 1) == (ResendModel {
            dropped: Seq::empty(),
            frames: Seq::empty(),
        }),
{
    let n = s.dropped.len();
    assert forall|k: nat| k <= n implies is_ready(
        #[trigger] delivered_run(settle(begin(s, packet)), k),
    ) && (k < n ==> delivered_run(settle(begin(s, packet)), k).frames.last().packet
        == s.dropped[k as int]) by {
        lemma_run_prefix(s, packet, k);
    }
    lemma_run_prefix(s, packet, n);
    let last = own_attempt_state(packet);
    let a = after_attempt(last, true);
    assert(a.frames =~= Seq::<SendFrame>::empty());
    assert(a.dropped =~= Seq::<Packet>::empty());
    assert(delivered_run(settle(begin(s, packet)), n + 1) == settle(a));
}

/// Every call in progress has started.
pub open spec fn all_started(s: ResendModel) -> bool {
    forall|i: int| 0 <= i < s.frames.len() ==> (#[trigger] s.frames[i]).started
}

/// What follows an attempt, whatever the channel answered and whatever came
/// before. The innermost call returns; its packet joins the dropped ones,
/// at the end, unless it was delivered. Then the call it returns to goes on:
/// - if it was the outermost call, the send is over;
/// - if its caller has nothing left to resend, the caller tries its own packet;
/// - otherwise the caller hands the oldest packet it still has to resend to a
///   new send, which keeps the rest in their order; that send takes all the
///   dropped packets, and tries the oldest of them, keeping the others in
///   their order; with none dropped it tries its own packet.
pub proof fn lemma_outcome_next(s: ResendModel, delivered: bool)
    requires
        is_ready(s),
        all_started(s),
    ensures
        ({
            let d = if delivered {
                s.dropped
            } else {
                s.dropped.push(s.frames.last().packet)
            };
            let below = s.frames.drop_last();
            let t = settle(after_attempt(s, delivered));
            if below.len() == 0 {
                t == ResendModel { dropped: d, frames: below }
            } else if below.last().resend.len() == 0 {
                t == ResendModel { dropped: d, frames: below }
            } else {
                let caller = below.last();
                let l = caller.resend;
                let kept = below.drop_last().push(
                    SendFrame { packet: caller.packet, resend: l.drop_first(), started: true },
                );
                if d.len() == 0 {
                    t == ResendModel {
                        dropped: Seq::empty(),
                        frames: kept.push(
                            SendFrame { packet: l[0], resend: Seq::empty(), started: true },
                        ),
                    }
                } else {
                    t == ResendModel {
                        dropped: Seq::empty(),
                        frames: kept.push(
                            SendFrame { packet: l[0], resend: d.drop_first(), started: true },
                        ).push(SendFrame { packet: d[0], resend: Seq::empty(), started: true }),
                    }
                }
            }
        }),
        all_started(settle(after_attempt(s, delivered))),
        is_settled(settle(after_attempt(s, delivered))),
{
    let d = if delivered {
        s.dropped
    } else {
        s.dropped.push(s.frames.last().packet)
    };
    let below = s.frames.drop_last();
    let a = after_attempt(s, delivered);
    assert(a.frames == below);
    assert(a.dropped == d);
    lemma_settle(a);
    if below.len() == 0 {
        assert(is_idle(a));
    } else if below.last().resend.len() == 0 {
        assert(below.last().started);
        assert(is_ready(a));
    } else {
        let caller = below.last();
        let l = caller.resend;
        assert(caller.started);
        let kept = below.drop_last().push(
            SendFrame { packet: caller.packet, resend: l.drop_first(), started: true },
        );
        let a1 = advance(a);
        assert(!is_settled(a));
        assert(a1.frames =~= kept.push(
            SendFrame { packet: l[0], resend: Seq::empty(), started: false },
        ));
        assert(a1.dropped == d);
        let a2 = advance(a1);
        assert(!is_settled(a1));
        assert(settle(a) == settle(a1));
        assert(a2.frames.last().resend =~= d);
        assert(a2.frames =~= kept.push(SendFrame { packet: l[0], resend: d, started: true }));
        assert(a2.dropped =~= Seq::<Packet>::empty());
        assert(settle(a1) == settle(a2));
        if d.len() == 0 {
            assert(is_ready(a2));
            let r = kept.push(SendFrame { packet: l[0], resend: Seq::empty(), started: true });
            assert(a2.frames =~= r);
        } else {
            let a3 = advance(a2);
            assert(!is_settled(a2));
            assert(settle(a2) == settle(a3));
            let a4 = advance(a3);
            assert(a3.frames =~= kept.push(
                SendFrame { packet: l[0], resend: d.drop_first(), started: true },
            ).push(SendFrame { packet: d[0], resend: Seq::empty(), started: false }));
            assert(a3.dropped =~= Seq::<Packet>::empty());
            assert(!is_settled(a3));
            assert(settle(a3) == settle(a4));
            assert(a4.frames.last().resend =~= Seq::<Packet>::empty());
            assert(is_ready(a4));
            let r = kept.push(
                SendFrame { packet: l[0], resend: d.drop_first(), started: true },
            ).push(SendFrame { packet: d[0], resend: Seq::empty(), started: true });
            assert(a4.frames =~= r);
            assert(a4.dropped =~= Seq::<Packet>::empty());
        }
    }
    let t = settle(a);
    assert forall|i: int| 0 <= i < t.frames.len() implies (#[trigger] t.frames[i]).started by {
        if i < below.len() - 1 {
            assert(t.frames[i] == s.frames[i]);
        }
        if i < below.len() && below.len() > 0 && below.last().resend.len() == 0 {
            assert(t.frames[i] == s.frames[i]);
        }
    }
}

/// A call of `send` in progress.
struct SendCall {
    packet: Packet,
    resend: VecDeque<Packet>,
    started: bool,
}

impl SendCall {
    closed spec fn model(&self) -> SendFrame {
        SendFrame { packet: self.packet, resend: self.resend@, started: self.started }
    }
}

/// The outgoing side of a data channel that may refuse packets.
///
/// A packet that the channel refuses is kept, and every later send first
/// resends the kept packets, oldest first, each as a send of its own, before
/// its own packet. The channel itself stays outside: the owner asks which
/// packet to try next with [`ResendQueue::next_attempt`] and reports whether the
/// channel took it with [`ResendQueue::report_outcome`].
pub struct ResendQueue {
    dropped: VecDeque<Packet>,
    calls: Vec<SendCall>,
}

impl ResendQueue {
    /// The state of the queue.
    pub closed spec fn model(&self) -> ResendModel {
        ResendModel {
            dropped: self.dropped@,
            frames: self.calls@.map_values(|c: SendCall| c.model()),
        }
    }

    /// The queue waits for the outside world.
    pub open spec fn wf(&self) -> bool {
        is_settled(self.model())
    }

    /// An empty queue, with no send in progress.
    pub fn new() -> (res: ResendQueue)
        ensures
            res.model() == (ResendModel { dropped: Seq::empty(), frames: Seq::empty() }),
            res.wf(),
            all_started(res.model()),
    {
        let res = ResendQueue { dropped: VecDeque::new(), calls: Vec::new() };
        assert(res.model().frames =~= Seq::<SendFrame>::empty());
        res
    }

    /// Whether a send is in progress.
    pub fn is_sending(&self) -> (res: bool)
        ensures
            res == !is_idle(self.model()),
    {
        self.calls.len() > 0
    }

    /// The number of packets that the channel refused and that wait to be resent.
    pub fn dropped_len(&self) -> (res: usize)
        ensures
            res == self.model().dropped.len(),
    {
        self.dropped.len()
    }

    /// Runs the steps that need no channel until the queue waits for the outside world.
    fn settle(&mut self)
        ensures
            final(self).model() == settle(old(self).model()),
    {
        let ghost start = self.model();
        loop
            invariant
                settle(self.model()) == settle(start),
            ensures
                self.model() == settle(start),
            decreases weight(self.model()),
        {
            let ghost before = self.model();
            let n = self.calls.len();
            if n == 0 {
                break;
            }
            let mut top = self.calls.pop().unwrap();
            proof {
                assert(self.calls@.map_values(|c: SendCall| c.model()) =~= before.frames.drop_last());
            }
            if top.started && top.resend.len() == 0 {
                self.calls.push(top);
                proof {
                    assert(self.model().frames =~= before.frames);
                }
                break;
            }
            proof {
                lemma_advance_decreases(before);
            }
            if !top.started {
                top.started = true;
                top.resend.append(&mut self.dropped);
                self.calls.push(top);
            } else {
                let next = top.resend.pop_front().unwrap();
                self.calls.push(top);
                self.calls.push(SendCall { packet: next, resend: VecDeque::new(), started: false });
            }
            proof {
                assert(self.model().frames =~= advance(before).frames);
                assert(self.model().dropped =~= advance(before).dropped);
            }
        }
    }

    /// Starts a send of `packet` and runs it until it needs the channel.
    pub fn start_send(&mut self, packet: Packet)
        requires
            is_idle(old(self).model()),
        ensures
            final(self).model() == settle(begin(old(self).model(), packet)),
            final(self).wf(),
            all_started(final(self).model()),
    {
        self.calls.push(SendCall { packet, resend: VecDeque::new(), started: false });
        proof {
            assert(self.model().frames =~= begin(old(self).model(), packet).frames);
        }
        self.settle();
        proof {
            lemma_settle(begin(old(self).model(), packet));
            lemma_run_start(old(self).model(), packet);
        }
    }

    /// The packet to try on the channel now, or `None` when no send is in progress.
    pub fn next_attempt(&self) -> (res: Option<&Packet>)
        requires
            self.wf(),
        ensures
            match res {
                Some(p) => is_ready(self.model()) && *p == self.model().frames.last().packet,
                None => is_idle(self.model()),
            },
    {
        let n = self.calls.len();
        if n == 0 {
            None
        } else {
            Some(&self.calls[n - 1].packet)
        }
    }

    /// Records whether the channel took the packet of [`ResendQueue::next_attempt`],
    /// then runs the send on until it needs the channel again or is done.
    pub fn report_outcome(&mut self, delivered: bool)
        requires
            is_ready(old(self).model()),
        ensures
            final(self).model() == settle(after_attempt(old(self).model(), delivered)),
            final(self).wf(),
            all_started(old(self).model()) ==> all_started(final(self).model()),
    {
        let top = self.calls.pop().unwrap();
        if !delivered {
            self.dropped.push_back(top.packet);
        }
        proof {
            assert(self.model().frames =~= after_attempt(old(self).model(), delivered).frames);
            assert(self.model().dropped =~= after_attempt(old(self).model(), delivered).dropped);
        }
        self.settle();
        proof {
            lemma_settle(after_attempt(old(self).model(), delivered));
            if all_started(old(self).model()) {
                lemma_outcome_next(old(self).model(), delivered);
            }
        }
    }

    /// Takes all the packets that wait to be resent, oldest first.
    pub fn take_dropped(&mut self) -> (res: VecDeque<Packet>)
        requires
            is_idle(old(self).model()),
        ensures
            res@ == old(self).model().dropped,
            final(self).model() == (ResendModel { dropped: Seq::empty(), frames: Seq::empty() }),
            final(self).wf(),
            all_started(final(self).model()),
    {
        let mut taken = VecDeque::new();
        std::mem::swap(&mut taken, &mut self.dropped);
        proof {
            assert(self.model().frames =~= Seq::<SendFrame>::empty());
        }
        taken
    }
}

} // verus!
