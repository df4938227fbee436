//! Every send on a [`ResendQueue`](crate::client::resend::ResendQueue) ends
//! after finitely many attempts, whatever the channel answers: each attempt
//! lowers a natural number computed from the state.

use vstd::prelude::*;

use crate::client::packet::Packet;
use crate::client::resend::{
    advance, after_attempt, frames_packets, held, is_ready, is_settled, lemma_advance_decreases,
    lemma_advance_keeps_packets, lemma_settle, settle, weight,
    ResendModel, SendFrame,
};

verus! {

broadcast use vstd::seq_lib::group_to_multiset_ensures, vstd::multiset::group_multiset_axioms;

/// `(n + 3)` to the power `m`: the weight of a position in [`progress`].
pub open spec fn place(n: nat, m: nat) -> nat
    decreases m,
{
    if m == 0 {
        1
    } else {
        (n + 3) * place(n, (m - 1) as nat)
    }
}

/// The digit of a call: one more than the packets it still has to resend once
/// it has started, and `n + 2`, more than any such, before.
pub open spec fn frame_digit(f: SendFrame, n: nat) -> nat {
    if f.started {
        f.resend.len() + 1
    } else {
        n + 2
    }
}

/// The digit of the call at depth `i`, or 0 below the innermost call.
pub open spec fn digit(frames: Seq<SendFrame>, i: nat, n: nat) -> nat {
    if i < frames.len() {
        frame_digit(frames[i as int], n)
    } else {
        0
    }
}

/// The digits from depth `i` to depth `n`, read as a number in base `n + 3`.
pub open spec fn encode_from(frames: Seq<SendFrame>, n: nat, i: nat) -> nat
    decreases n + 1 - i,
{
    if i > n {
        0
    } else {
        digit(frames, i, n) * place(n, (n - i) as nat) + encode_from(frames, n, i + 1)
    }
}

/// The progress measure of a state whose held packets number at most `n`.
pub open spec fn progress(s: ResendModel, n: nat) -> nat {
    encode_from(s.frames, n, 0)
}

/// Every digit is at most `n + 2`.
pub open spec fn digits_bounded(frames: Seq<SendFrame>, n: nat) -> bool {
    forall|k: int| 0 <= k < frames.len() ==> #[trigger] frame_digit(frames[k], n) <= n + 2
}

proof fn lemma_frames_packets_len(frames: Seq<SendFrame>)
    ensures
        frames.len() <= frames_packets(frames).len(),
        forall|k: int|
            0 <= k < frames.len() ==> #[trigger] frames[k].resend.len() <= frames_packets(
                frames,
            ).len(),
    decreases frames.len(),
{
    if frames.len() > 0 {
        let below = frames.drop_last();
        lemma_frames_packets_len(below);
        let last = frames.last();
        assert(frames_packets(frames) == frames_packets(below).add(last.resend.to_multiset()).insert(
            last.packet,
        ));
        assert(frames_packets(frames).len() == frames_packets(below).len() + last.resend.len()
            + 1);
        assert forall|k: int| 0 <= k < frames.len() implies #[trigger] frames[k].resend.len()
            <= frames_packets(frames).len() by {
            if k < frames.len() - 1 {
                assert(frames[k] == below[k]);
            }
        }
    }
}

/// A state that holds at most `n` packets has at most `n` calls, and each
/// digit is at most `n + 2`.
pub(crate) proof fn lemma_bounded(s: ResendModel, n: nat)
    requires
        held(s).len() <= n,
    ensures
        s.frames.len() <= n,
        digits_bounded(s.frames, n),
{
    lemma_frames_packets_len(s.frames);
    assert(held(s).len() == s.dropped.len() + frames_packets(s.frames).len());
}

pub(crate) proof fn lemma_encode_bound(frames: Seq<SendFrame>, n: nat, i: nat)
    requires
        i <= n + 1,
        digits_bounded(frames, n),
    ensures
        encode_from(frames, n, i) < place(n, (n + 1 - i) as nat),
    decreases n + 1 - i,
{
    if i <= n {
        lemma_encode_bound(frames, n, i + 1);
        let d = digit(frames, i, n);
        let p = place(n, (n - i) as nat);
        let rest = encode_from(frames, n, i + 1);
        assert(place(n, (n + 1 - i) as nat) == (n + 3) * p);
        assert(d <= n + 2) by {
            if i < frames.len() {
                assert(frame_digit(frames[i as int], n) <= n + 2);
            }
        }
        assert(d * p + p <= (n + 3) * p) by (nonlinear_arith)
            requires
                d <= n + 2,
        ;
        assert(encode_from(frames, n, i) == d * p + rest);
    }
}

/// Two states that agree on their digits above depth `j` and differ there
/// are ordered by that digit.
proof fn lemma_encode_lex(a: Seq<SendFrame>, b: Seq<SendFrame>, n: nat, j: nat, i: nat)
    requires
        i <= j <= n,
        digits_bounded(a, n),
        forall|k: nat| i <= k < j ==> #[trigger] digit(a, k, n) == digit(b, k, n),
        digit(a, j, n) < digit(b, j, n),
    ensures
        encode_from(a, n, i) < encode_from(b, n, i),
    decreases j - i,
{
    let p = place(n, (n - i) as nat);
    if i < j {
        lemma_encode_lex(a, b, n, j, i + 1);
        assert(digit(a, i, n) == digit(b, i, n));
    } else {
        lemma_encode_bound(a, n, j + 1);
        assert(place(n, (n + 1 - (j + 1)) as nat) == p);
        let da = digit(a, j, n);
        let db = digit(b, j, n);
        assert(da * p + p <= db * p) by (nonlinear_arith)
            requires
                da < db,
        ;
    }
}

/// A step without the channel lowers the progress measure.
proof fn lemma_advance_progress(s: ResendModel, n: nat)
    requires
        !is_settled(s),
        held(s).len() <= n,
    ensures
        held(advance(s)).len() <= n,
        progress(advance(s), n) < progress(s, n),
{
    lemma_advance_keeps_packets(s);
    let t = advance(s);
    lemma_bounded(s, n);
    lemma_bounded(t, n);
    let k = (s.frames.len() - 1) as nat;
    assert forall|i: nat| 0 <= i < k implies #[trigger] digit(t.frames, i, n) == digit(
        s.frames,
        i,
        n,
    ) by {
        assert(t.frames[i as int] == s.frames[i as int]);
    }
    if !s.frames.last().started {
        assert(frame_digit(t.frames[k as int], n) <= n + 2);
        assert(t.frames[k as int].started);
        assert(t.frames[k as int].resend.len() + 1 <= n + 1) by {
            lemma_frames_packets_len(t.frames);
            assert(held(t).len() == t.dropped.len() + frames_packets(t.frames).len());
        }
    }
    lemma_encode_lex(t.frames, s.frames, n, k, 0);
}

/// Settling never raises the progress measure.
proof fn lemma_settle_progress(s: ResendModel, n: nat)
    requires
        held(s).len() <= n,
    ensures
        progress(settle(s), n) <= progress(s, n),
    decreases weight(s),
{
    lemma_settle(s);
    if !is_settled(s) {
        lemma_advance_decreases(s);
        lemma_advance_progress(s, n);
        lemma_settle_progress(advance(s), n);
    }
}

/// Each attempt, delivered or refused, lowers the progress measure of a
/// state that holds at most `n` packets, and the state goes on holding at
/// most `n`. As the measure is a natural number, a send ends after at most
/// `progress` attempts, whatever the channel answers.
pub proof fn lemma_attempt_makes_progress(s: ResendModel, delivered: bool, n: nat)
    requires
        is_ready(s),
        held(s).len() <= n,
    ensures
        held(settle(after_attempt(s, delivered))).len() <= n,
        progress(settle(after_attempt(s, delivered)), n) < progress(s, n),
{
    let a = after_attempt(s, delivered);
    lemma_settle(a);
    lemma_bounded(s, n);
    assert(held(a).len() <= n) by {
        lemma_outcome_keeps_packets_now(s, delivered);
    }
    let k = (s.frames.len() - 1) as nat;
    assert(digits_bounded(a.frames, n)) by {
        assert forall|i: int| 0 <= i < a.frames.len() implies #[trigger] frame_digit(
            a.frames[i],
            n,
        ) <= n + 2 by {
            assert(a.frames[i] == s.frames[i]);
        }
    }
    assert forall|i: nat| 0 <= i < k implies #[trigger] digit(a.frames, i, n) == digit(
        s.frames,
        i,
        n,
    ) by {
        assert(a.frames[i as int] == s.frames[i as int]);
    }
    lemma_encode_lex(a.frames, s.frames, n, k, 0);
    lemma_settle_progress(a, n);
}

/// The outcome of an attempt, before settling, holds no more packets than before.
proof fn lemma_outcome_keeps_packets_now(s: ResendModel, delivered: bool)
    requires
        is_ready(s),
    ensures
        held(after_attempt(s, delivered)).len() <= held(s).len(),
{
    let a = after_attempt(s, delivered);
    let top = s.frames.last();
    assert(top.resend =~= Seq::<Packet>::empty());
    assert(frames_packets(s.frames) == frames_packets(s.frames.drop_last()).add(
        top.resend.to_multiset(),
    ).insert(top.packet));
    assert(held(s).len() == s.dropped.len() + frames_packets(s.frames.drop_last()).len() + 1);
    assert(held(a).len() == a.dropped.len() + frames_packets(s.frames.drop_last()).len());
}

} // verus!
