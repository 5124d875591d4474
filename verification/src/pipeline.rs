//! What forwarders do over whole streams of messages: laws about the
//! sequence numbers that flow down a pipeline and about notification.
use vstd::prelude::*;
use vstd::arithmetic::div_mod::{lemma_fundamental_div_mod, lemma_fundamental_div_mod_converse, lemma_small_mod};
use crate::async_forwarder::{async_receive_step, AsyncForwarderView, TestMessage};
use crate::forwarder::{receive_step, wrap_add, Dispatch, ForwarderView, FwdMessage};

verus! {

/// Receiving `msgs` one after the other from state `v`: the last state and each
/// message's result, in order.
pub open spec fn run<S>(v: ForwarderView<S>, msgs: Seq<FwdMessage<S>>)
    -> (ForwarderView<S>, Seq<Result<(Seq<Dispatch>, Option<usize>), FwdMessage<S>>>)
    decreases msgs.len(),
{
    if msgs.len() == 0 {
        (v, Seq::empty())
    } else {
        let (vp, rs) = run(v, msgs.drop_last());
        let (vn, r) = receive_step(vp, msgs.last());
        (vn, rs.push(r))
    }
}

/// The data messages that carry `seqs`.
pub open spec fn data_messages<S>(seqs: Seq<usize>) -> Seq<FwdMessage<S>> {
    seqs.map_values(|s: usize| FwdMessage::<S>::TestData(s))
}

/// The sequence numbers 0, 1, ..., n - 1, as a lane is driven.
pub open spec fn in_order(n: nat) -> Seq<usize> {
    Seq::new(n, |i: int| i as usize)
}

/// Whether every message was accepted.
pub open spec fn all_accepted<S>(rs: Seq<Result<(Seq<Dispatch>, Option<usize>), FwdMessage<S>>>) -> bool {
    forall|i: int| 0 <= i < rs.len() ==> #[trigger] rs[i] is Ok
}

/// The sequence numbers sent on, in the order they were sent.
pub open spec fn forwarded<S>(rs: Seq<Result<(Seq<Dispatch>, Option<usize>), FwdMessage<S>>>) -> Seq<usize>
    decreases rs.len(),
{
    if rs.len() == 0 {
        Seq::empty()
    } else {
        forwarded(rs.drop_last()) + match rs.last() {
            Ok((ds, _)) => ds.map_values(|d: Dispatch| d.seq),
            Err(_) => Seq::empty(),
        }
    }
}

/// The notification each message caused, if any.
pub open spec fn notifications<S>(rs: Seq<Result<(Seq<Dispatch>, Option<usize>), FwdMessage<S>>>) -> Seq<Option<usize>> {
    rs.map_values(
        |r: Result<(Seq<Dispatch>, Option<usize>), FwdMessage<S>>|
            match r {
                Ok((_, n)) => n,
                Err(_) => None,
            },
    )
}

/// A stream that starts at 0 and in which every number is a restart at 0 or
/// one more than the number before it.
pub open spec fn counts_or_restarts(s: Seq<usize>) -> bool {
    &&& (s.len() > 0 ==> s[0] == 0)
    &&& forall|i: int| 0 < i < s.len() ==> #[trigger] s[i] == 0 || s[i] == s[i - 1] + 1
}

proof fn lemma_data_messages_drop_last<S>(s: Seq<usize>)
    requires
        s.len() > 0,
    ensures
        data_messages::<S>(s).drop_last() == data_messages::<S>(s.drop_last()),
        data_messages::<S>(s).last() == FwdMessage::<S>::TestData(s.last()),
{
    assert(data_messages::<S>(s).drop_last() =~= data_messages::<S>(s.drop_last()));
}

/// A forwarder accepts every stream that counts up from 0 and may restart at 0:
/// a forwarder without senders accepts anything, and one with senders expects
/// one more than the last number it saw. Afterwards it expects one more than
/// the last number of the stream.
pub proof fn lemma_counting_stream_accepted<S>(v: ForwarderView<S>, s: Seq<usize>)
    requires
        v.senders.len() == 0 || counts_or_restarts(s),
        v.senders.len() > 0 ==> forall|i: int| 0 <= i < s.len() ==> #[trigger] s[i] < usize::MAX,
    ensures
        all_accepted(run(v, data_messages::<S>(s)).1),
        run(v, data_messages::<S>(s)).1.len() == s.len(),
        run(v, data_messages::<S>(s)).0.senders == v.senders,
        run(v, data_messages::<S>(s)).0.notify_count == v.notify_count,
        v.senders.len() > 0 && s.len() > 0 ==> run(v, data_messages::<S>(s)).0.next_seq == s.last() + 1,
    decreases s.len(),
{
    if s.len() > 0 {
        let p = s.drop_last();
        lemma_data_messages_drop_last::<S>(s);
        assert(v.senders.len() == 0 || counts_or_restarts(p)) by {
            if v.senders.len() > 0 {
                assert forall|i: int| 0 < i < p.len() implies #[trigger] p[i] == 0 || p[i] == p[i - 1] + 1 by {
                    assert(s[i] == 0 || s[i] == s[i - 1] + 1);
                }
            }
        }
        assert(v.senders.len() > 0 ==> forall|i: int| 0 <= i < p.len() ==> #[trigger] p[i] < usize::MAX) by {
            if v.senders.len() > 0 {
                assert forall|i: int| 0 <= i < p.len() implies #[trigger] p[i] < usize::MAX by {
                    assert(s[i] < usize::MAX);
                }
            }
        }
        lemma_counting_stream_accepted(v, p);
        let (vp, rs) = run(v, data_messages::<S>(p));
        if v.senders.len() > 0 && p.len() > 0 {
            assert(s[s.len() - 1] == 0 || s[s.len() - 1] == s[s.len() - 2] + 1);
        }
        let (vn, r) = receive_step(vp, FwdMessage::<S>::TestData(s.last()));
        assert(r is Ok);
        assert forall|i: int| 0 <= i < rs.push(r).len() implies #[trigger] rs.push(r)[i] is Ok by {
            if i < rs.len() {
                assert(rs[i] is Ok);
            }
        }
    }
}

/// Sequence numbers 0, 1, 2, ... are accepted by any forwarder.
pub proof fn lemma_in_order_stream_accepted<S>(v: ForwarderView<S>, n: nat)
    requires
        n <= usize::MAX,
    ensures
        all_accepted(run(v, data_messages::<S>(in_order(n))).1),
        v.senders.len() > 0 && n > 0 ==> run(v, data_messages::<S>(in_order(n))).0.next_seq == n,
{
    let s = in_order(n);
    assert forall|i: int| 0 < i < s.len() implies #[trigger] s[i] == 0 || s[i] == s[i - 1] + 1 by {}
    assert forall|i: int| 0 <= i < s.len() implies #[trigger] s[i] < usize::MAX by {}
    lemma_counting_stream_accepted(v, s);
}

/// What a forwarder with one sender and a multiplier of 1, starting with its send
/// counter at 0, does with the in-order stream of `k` messages: it accepts them all
/// and forwards a stream that counts up from 0 and restarts at 0 only where it notified.
proof fn lemma_single_sender_forwards_counting_stream<S>(up: ForwarderView<S>, k: nat)
    requires
        up.senders.len() == 1,
        up.forwarding_multiplier == 1,
        up.send_count == 0,
        k <= usize::MAX,
    ensures
        all_accepted(run(up, data_messages::<S>(in_order(k))).1),
        run(up, data_messages::<S>(in_order(k))).1.len() == k,
        run(up, data_messages::<S>(in_order(k))).0.senders == up.senders,
        run(up, data_messages::<S>(in_order(k))).0.forwarding_multiplier == 1,
        k > 0 ==> run(up, data_messages::<S>(in_order(k))).0.next_seq == k,
        ({
            let f = forwarded(run(up, data_messages::<S>(in_order(k))).1);
            let sc = run(up, data_messages::<S>(in_order(k))).0.send_count;
            &&& f.len() == k
            &&& counts_or_restarts(f)
            &&& forall|i: int| 0 <= i < f.len() ==> #[trigger] f[i] <= i
            &&& (k == 0 ==> sc == 0)
            &&& (k > 0 ==> sc == 0 || sc == f.last() + 1)
        }),
    decreases k,
{
    if k > 0 {
        let km = (k - 1) as nat;
        let s = in_order(k);
        lemma_data_messages_drop_last::<S>(s);
        assert(s.drop_last() =~= in_order(km));
        lemma_single_sender_forwards_counting_stream(up, km);
        let (vp, rs) = run(up, data_messages::<S>(in_order(km)));
        let fp = forwarded(rs);
        let msg = FwdMessage::<S>::TestData(km as usize);
        assert(s.last() == km as usize);
        assert(vp.in_sequence(msg));
        let v1 = vp.validated(msg);
        let v2 = v1.acted();
        let sc = vp.send_count;
        assert(sc <= km) by {
            if km > 0 && sc != 0 {
                assert(fp[fp.len() - 1] <= fp.len() - 1);
            }
        }
        lemma_small_mod(sc as nat, (usize::MAX + 1) as nat);
        lemma_small_mod((sc + 1) as nat, (usize::MAX + 1) as nat);
        assert(v1.dispatch_count() == 1);
        assert(v1.dispatches() =~= seq![Dispatch { sender: 0, seq: sc }]);
        assert(v2.send_count == sc + 1);
        let (vn, r) = receive_step(vp, msg);
        assert(r == Ok::<(Seq<Dispatch>, Option<usize>), FwdMessage<S>>((v1.dispatches(), v2.notification())));
        let rsn = rs.push(r);
        assert(rsn.drop_last() =~= rs);
        assert(v1.dispatches().map_values(|d: Dispatch| d.seq) =~= seq![sc]);
        let f = forwarded(rsn);
        assert(f =~= fp.push(sc));
        assert forall|i: int| 0 <= i < rsn.len() implies #[trigger] rsn[i] is Ok by {
            if i < rs.len() {
                assert(rs[i] is Ok);
            }
        }
        assert forall|i: int| 0 < i < f.len() implies #[trigger] f[i] == 0 || f[i] == f[i - 1] + 1 by {
            if i < fp.len() {
                assert(fp[i] == 0 || fp[i] == fp[i - 1] + 1);
            }
        }
        assert forall|i: int| 0 <= i < f.len() implies #[trigger] f[i] <= i by {
            if i < fp.len() {
                assert(fp[i] <= i);
            }
        }
    }
}

/// A pipeline step never sends the next step out of sequence: when a forwarder
/// with one sender and a forwarding multiplier of 1, its send counter at 0, is
/// driven with the sequence numbers 0, 1, ..., n - 1, it accepts all of them, and
/// any forwarder downstream accepts every message it forwards.
pub proof fn lemma_pipeline_stays_in_sequence<S>(up: ForwarderView<S>, down: ForwarderView<S>, n: nat)
    requires
        up.senders.len() == 1,
        up.forwarding_multiplier == 1,
        up.send_count == 0,
        n <= usize::MAX,
    ensures
        all_accepted(run(up, data_messages::<S>(in_order(n))).1),
        all_accepted(run(down, data_messages::<S>(forwarded(run(up, data_messages::<S>(in_order(n))).1))).1),
{
    lemma_single_sender_forwards_counting_stream(up, n);
    let f = forwarded(run(up, data_messages::<S>(in_order(n))).1);
    assert forall|i: int| 0 <= i < f.len() implies #[trigger] f[i] < usize::MAX by {
        assert(f[i] <= i);
    }
    lemma_counting_stream_accepted(down, f);
}

/// Counting towards a notification: before the count is reached nothing is sent
/// and the received count is the number of messages seen; at the count, the
/// notifier is told the count and the counters go back to 0.
proof fn lemma_counts_towards_notification<S>(v: ForwarderView<S>, s: Seq<usize>)
    requires
        v.notify_count > 0,
        v.received_count == 0,
        s.len() <= v.notify_count,
        v.senders.len() == 0 || counts_or_restarts(s),
        v.senders.len() > 0 ==> forall|i: int| 0 <= i < s.len() ==> #[trigger] s[i] < usize::MAX,
    ensures
        ({
            let (vn, rs) = run(v, data_messages::<S>(s));
            &&& rs.len() == s.len()
            &&& vn.notify_count == v.notify_count
            &&& s.len() < v.notify_count ==> vn.received_count == s.len()
            &&& s.len() == v.notify_count ==> vn.received_count == 0 && vn.send_count == 0
            &&& forall|i: int| 0 <= i < s.len() ==> #[trigger] notifications(rs)[i] == (if i == v.notify_count - 1 {
                Some(v.notify_count)
            } else {
                None
            })
        }),
    decreases s.len(),
{
    lemma_counting_stream_accepted(v, s);
    if s.len() > 0 {
        let p = s.drop_last();
        lemma_data_messages_drop_last::<S>(s);
        assert(v.senders.len() == 0 || counts_or_restarts(p)) by {
            if v.senders.len() > 0 {
                assert forall|i: int| 0 < i < p.len() implies #[trigger] p[i] == 0 || p[i] == p[i - 1] + 1 by {
                    assert(s[i] == 0 || s[i] == s[i - 1] + 1);
                }
            }
        }
        assert(v.senders.len() > 0 ==> forall|i: int| 0 <= i < p.len() ==> #[trigger] p[i] < usize::MAX) by {
            if v.senders.len() > 0 {
                assert forall|i: int| 0 <= i < p.len() implies #[trigger] p[i] < usize::MAX by {
                    assert(s[i] < usize::MAX);
                }
            }
        }
        lemma_counts_towards_notification(v, p);
        let (vp, rs) = run(v, data_messages::<S>(p));
        let msg = FwdMessage::<S>::TestData(s.last());
        let (vn, r) = receive_step(vp, msg);
        let rsn = rs.push(r);
        assert(rsn[rsn.len() - 1] is Ok);
        assert(vp.in_sequence(msg));
        let v1 = vp.validated(msg);
        let v2 = v1.acted();
        lemma_small_mod((p.len() + 1) as nat, (usize::MAX + 1) as nat);
        assert(v1.received_count == p.len() + 1);
        assert(v2.received_count == p.len() + 1);
        assert(notifications(rsn) =~= notifications(rs).push(v2.notification()));
    }
}

/// A forwarder set to notify after `c` messages, with its received count at 0,
/// tells its notifier exactly once over the next `c` data messages: at the last of
/// them, with the count `c`; its counters are then back at 0, ready for the next round.
pub proof fn lemma_notifies_once_per_count<S>(v: ForwarderView<S>, s: Seq<usize>)
    requires
        v.notify_count > 0,
        v.received_count == 0,
        s.len() == v.notify_count,
        v.senders.len() == 0 || counts_or_restarts(s),
        v.senders.len() > 0 ==> forall|i: int| 0 <= i < s.len() ==> #[trigger] s[i] < usize::MAX,
    ensures
        all_accepted(run(v, data_messages::<S>(s)).1),
        forall|i: int| 0 <= i < s.len() ==> #[trigger] notifications(run(v, data_messages::<S>(s)).1)[i] == (if i == s.len() - 1 {
            Some(v.notify_count)
        } else {
            None
        }),
        run(v, data_messages::<S>(s)).0.received_count == 0,
        run(v, data_messages::<S>(s)).0.send_count == 0,
        run(v, data_messages::<S>(s)).0.notify_count == v.notify_count,
{
    lemma_counting_stream_accepted(v, s);
    lemma_counts_towards_notification(v, s);
}

// ---------------------------------------------------------------------------
// The same laws for the forwarder of the earlier experiments.

/// Handling `msgs` one after the other from state `v` with an `AsyncForwarder`.
pub open spec fn async_run<S>(v: AsyncForwarderView<S>, msgs: Seq<TestMessage<S>>)
    -> (AsyncForwarderView<S>, Seq<Result<(Seq<Dispatch>, Option<usize>), TestMessage<S>>>)
    decreases msgs.len(),
{
    if msgs.len() == 0 {
        (v, Seq::empty())
    } else {
        let (vp, rs) = async_run(v, msgs.drop_last());
        let (vn, r) = async_receive_step(vp, msgs.last());
        (vn, rs.push(r))
    }
}

/// The test messages that carry `seqs`.
pub open spec fn test_data<S>(seqs: Seq<usize>) -> Seq<TestMessage<S>> {
    seqs.map_values(|s: usize| TestMessage::<S>::TestData(s))
}

/// Whether every test message was accepted.
pub open spec fn all_handled<S>(rs: Seq<Result<(Seq<Dispatch>, Option<usize>), TestMessage<S>>>) -> bool {
    forall|i: int| 0 <= i < rs.len() ==> #[trigger] rs[i] is Ok
}

/// The notification each test message caused, if any.
pub open spec fn async_notifications<S>(rs: Seq<Result<(Seq<Dispatch>, Option<usize>), TestMessage<S>>>) -> Seq<Option<usize>> {
    rs.map_values(
        |r: Result<(Seq<Dispatch>, Option<usize>), TestMessage<S>>|
            match r {
                Ok((_, n)) => n,
                Err(_) => None,
            },
    )
}

proof fn lemma_test_data_drop_last<S>(s: Seq<usize>)
    requires
        s.len() > 0,
    ensures
        test_data::<S>(s).drop_last() == test_data::<S>(s.drop_last()),
        test_data::<S>(s).last() == TestMessage::<S>::TestData(s.last()),
{
    assert(test_data::<S>(s).drop_last() =~= test_data::<S>(s.drop_last()));
}

/// An `AsyncForwarder` accepts every stream that counts up from 0 and may restart
/// at 0, and afterwards expects one more than the stream's last number.
pub proof fn lemma_async_counting_stream_accepted<S>(v: AsyncForwarderView<S>, s: Seq<usize>)
    requires
        v.senders.len() == 0 || counts_or_restarts(s),
        v.senders.len() > 0 ==> forall|i: int| 0 <= i < s.len() ==> #[trigger] s[i] < usize::MAX,
    ensures
        all_handled(async_run(v, test_data::<S>(s)).1),
        async_run(v, test_data::<S>(s)).1.len() == s.len(),
        async_run(v, test_data::<S>(s)).0.senders == v.senders,
        async_run(v, test_data::<S>(s)).0.notify_count == v.notify_count,
        async_run(v, test_data::<S>(s)).0.notify_sender == v.notify_sender,
        v.senders.len() > 0 && s.len() > 0 ==> async_run(v, test_data::<S>(s)).0.next_seq == s.last() + 1,
    decreases s.len(),
{
    if s.len() > 0 {
        let p = s.drop_last();
        lemma_test_data_drop_last::<S>(s);
        assert(v.senders.len() == 0 || counts_or_restarts(p)) by {
            if v.senders.len() > 0 {
                assert forall|i: int| 0 < i < p.len() implies #[trigger] p[i] == 0 || p[i] == p[i - 1] + 1 by {
                    assert(s[i] == 0 || s[i] == s[i - 1] + 1);
                }
            }
        }
        assert(v.senders.len() > 0 ==> forall|i: int| 0 <= i < p.len() ==> #[trigger] p[i] < usize::MAX) by {
            if v.senders.len() > 0 {
                assert forall|i: int| 0 <= i < p.len() implies #[trigger] p[i] < usize::MAX by {
                    assert(s[i] < usize::MAX);
                }
            }
        }
        lemma_async_counting_stream_accepted(v, p);
        let (vp, rs) = async_run(v, test_data::<S>(p));
        if v.senders.len() > 0 && p.len() > 0 {
            assert(s[s.len() - 1] == 0 || s[s.len() - 1] == s[s.len() - 2] + 1);
        }
        let (vn, r) = async_receive_step(vp, TestMessage::<S>::TestData(s.last()));
        assert(r is Ok);
        assert forall|i: int| 0 <= i < rs.push(r).len() implies #[trigger] rs.push(r)[i] is Ok by {
            if i < rs.len() {
                assert(rs[i] is Ok);
            }
        }
    }
}

proof fn lemma_async_counts_towards_notification<S>(v: AsyncForwarderView<S>, s: Seq<usize>)
    requires
        v.notify_count > 0,
        v.received_count == 0,
        s.len() <= v.notify_count,
        v.senders.len() == 0 || counts_or_restarts(s),
        v.senders.len() > 0 ==> forall|i: int| 0 <= i < s.len() ==> #[trigger] s[i] < usize::MAX,
    ensures
        ({
            let (vn, rs) = async_run(v, test_data::<S>(s));
            &&& rs.len() == s.len()
            &&& vn.notify_count == v.notify_count
            &&& s.len() < v.notify_count ==> vn.received_count == s.len()
            &&& s.len() == v.notify_count ==> vn.received_count == 0 && vn.send_count == 0
            &&& forall|i: int| 0 <= i < s.len() ==> #[trigger] async_notifications(rs)[i] == (if i == v.notify_count - 1
                && v.notify_sender is Some {
                Some(v.notify_count)
            } else {
                None
            })
        }),
    decreases s.len(),
{
    lemma_async_counting_stream_accepted(v, s);
    if s.len() > 0 {
        let p = s.drop_last();
        lemma_test_data_drop_last::<S>(s);
        assert(v.senders.len() == 0 || counts_or_restarts(p)) by {
            if v.senders.len() > 0 {
                assert forall|i: int| 0 < i < p.len() implies #[trigger] p[i] == 0 || p[i] == p[i - 1] + 1 by {
                    assert(s[i] == 0 || s[i] == s[i - 1] + 1);
                }
            }
        }
        assert(v.senders.len() > 0 ==> forall|i: int| 0 <= i < p.len() ==> #[trigger] p[i] < usize::MAX) by {
            if v.senders.len() > 0 {
                assert forall|i: int| 0 <= i < p.len() implies #[trigger] p[i] < usize::MAX by {
                    assert(s[i] < usize::MAX);
                }
            }
        }
        lemma_async_counts_towards_notification(v, p);
        lemma_async_counting_stream_accepted(v, p);
        let (vp, rs) = async_run(v, test_data::<S>(p));
        let msg = TestMessage::<S>::TestData(s.last());
        let (vn, r) = async_receive_step(vp, msg);
        let rsn = rs.push(r);
        assert(rsn[rsn.len() - 1] is Ok);
        assert(vp.in_sequence(msg));
        let v1 = vp.validated(msg);
        let v2 = v1.acted();
        assert(v2.received_count == p.len() + 1);
        assert(async_notifications(rsn) =~= async_notifications(rs).push(v2.notification()));
    }
}

/// An `AsyncForwarder` set to notify after `c` messages, with its received count
/// at 0 and a notifier set, tells the notifier exactly once over the next `c`
/// data messages: at the last of them, with the count `c`; its counters are then
/// back at 0.
pub proof fn lemma_async_notifies_once_per_count<S>(v: AsyncForwarderView<S>, s: Seq<usize>)
    requires
        v.notify_count > 0,
        v.received_count == 0,
        v.notify_sender is Some,
        s.len() == v.notify_count,
        v.senders.len() == 0 || counts_or_restarts(s),
        v.senders.len() > 0 ==> forall|i: int| 0 <= i < s.len() ==> #[trigger] s[i] < usize::MAX,
    ensures
        all_handled(async_run(v, test_data::<S>(s)).1),
        forall|i: int| 0 <= i < s.len() ==> #[trigger] async_notifications(async_run(v, test_data::<S>(s)).1)[i] == (if i
            == s.len() - 1 {
            Some(v.notify_count)
        } else {
            None
        }),
        async_run(v, test_data::<S>(s)).0.received_count == 0,
        async_run(v, test_data::<S>(s)).0.send_count == 0,
{
    lemma_async_counting_stream_accepted(v, s);
    lemma_async_counts_towards_notification(v, s);
}

/// The sequence numbers an `AsyncForwarder` sent on, in the order they were sent.
pub open spec fn async_forwarded<S>(rs: Seq<Result<(Seq<Dispatch>, Option<usize>), TestMessage<S>>>) -> Seq<usize>
    decreases rs.len(),
{
    if rs.len() == 0 {
        Seq::empty()
    } else {
        async_forwarded(rs.drop_last()) + match rs.last() {
            Ok((ds, _)) => ds.map_values(|d: Dispatch| d.seq),
            Err(_) => Seq::empty(),
        }
    }
}

proof fn lemma_async_single_sender_forwards_counting_stream<S>(up: AsyncForwarderView<S>, k: nat)
    requires
        up.senders.len() == 1,
        up.forwarding_multiplier == 1,
        up.send_count == 0,
        k <= usize::MAX,
    ensures
        all_handled(async_run(up, test_data::<S>(in_order(k))).1),
        async_run(up, test_data::<S>(in_order(k))).1.len() == k,
        async_run(up, test_data::<S>(in_order(k))).0.senders == up.senders,
        async_run(up, test_data::<S>(in_order(k))).0.forwarding_multiplier == 1,
        k > 0 ==> async_run(up, test_data::<S>(in_order(k))).0.next_seq == k,
        ({
            let f = async_forwarded(async_run(up, test_data::<S>(in_order(k))).1);
            let sc = async_run(up, test_data::<S>(in_order(k))).0.send_count;
            &&& f.len() == k
            &&& counts_or_restarts(f)
            &&& forall|i: int| 0 <= i < f.len() ==> #[trigger] f[i] <= i
            &&& (k == 0 ==> sc == 0)
            &&& (k > 0 ==> sc == 0 || sc == f.last() + 1)
        }),
    decreases k,
{
    if k > 0 {
        let km = (k - 1) as nat;
        let s = in_order(k);
        lemma_test_data_drop_last::<S>(s);
        assert(s.drop_last() =~= in_order(km));
        lemma_async_single_sender_forwards_counting_stream(up, km);
        let (vp, rs) = async_run(up, test_data::<S>(in_order(km)));
        let fp = async_forwarded(rs);
        let msg = TestMessage::<S>::TestData(km as usize);
        assert(s.last() == km as usize);
        assert(vp.in_sequence(msg));
        let v1 = vp.validated(msg);
        let v2 = v1.acted();
        let sc = vp.send_count;
        assert(sc <= km) by {
            if km > 0 && sc != 0 {
                assert(fp[fp.len() - 1] <= fp.len() - 1);
            }
        }
        assert(v1.dispatch_count() == 1);
        assert(v1.dispatches() =~= seq![Dispatch { sender: 0, seq: sc }]);
        assert(v2.send_count == sc + 1);
        let (vn, r) = async_receive_step(vp, msg);
        let rsn = rs.push(r);
        assert(rsn.drop_last() =~= rs);
        assert(v1.dispatches().map_values(|d: Dispatch| d.seq) =~= seq![sc]);
        let f = async_forwarded(rsn);
        assert(f =~= fp.push(sc));
        assert forall|i: int| 0 <= i < rsn.len() implies #[trigger] rsn[i] is Ok by {
            if i < rs.len() {
                assert(rs[i] is Ok);
            }
        }
        assert forall|i: int| 0 < i < f.len() implies #[trigger] f[i] == 0 || f[i] == f[i - 1] + 1 by {
            if i < fp.len() {
                assert(fp[i] == 0 || fp[i] == fp[i - 1] + 1);
            }
        }
        assert forall|i: int| 0 <= i < f.len() implies #[trigger] f[i] <= i by {
            if i < fp.len() {
                assert(fp[i] <= i);
            }
        }
    }
}

/// A daisy chain of `AsyncForwarder`s never sends the next stage out of sequence:
/// a stage with one sender and a forwarding multiplier of 1, its send counter at 0,
/// driven with 0, 1, ..., n - 1, accepts all of them, and any stage downstream
/// accepts every message it forwards.
pub proof fn lemma_async_pipeline_stays_in_sequence<S>(up: AsyncForwarderView<S>, down: AsyncForwarderView<S>, n: nat)
    requires
        up.senders.len() == 1,
        up.forwarding_multiplier == 1,
        up.send_count == 0,
        n <= usize::MAX,
    ensures
        all_handled(async_run(up, test_data::<S>(in_order(n))).1),
        all_handled(async_run(down, test_data::<S>(async_forwarded(async_run(up, test_data::<S>(in_order(n))).1))).1),
{
    lemma_async_single_sender_forwards_counting_stream(up, n);
    let f = async_forwarded(async_run(up, test_data::<S>(in_order(n))).1);
    assert forall|i: int| 0 <= i < f.len() implies #[trigger] f[i] < usize::MAX by {
        assert(f[i] <= i);
    }
    lemma_async_counting_stream_accepted(down, f);
}

// ---------------------------------------------------------------------------
// Notification over any number of rounds.

/// Counting one more: the remainder of `q + 1` by `n` is one more than that of
/// `q`, or 0 when that reaches `n`.
proof fn lemma_mod_step(q: nat, n: nat)
    requires
        n > 0,
    ensures
        (q % n) + 1 < n ==> (q + 1) % n == (q % n) + 1,
        (q % n) + 1 == n ==> (q + 1) % n == 0,
        (q % n) < n,
{
    let qi = q as int;
    let ni = n as int;
    lemma_fundamental_div_mod(qi, ni);
    let d = qi / ni;
    let r = qi % ni;
    vstd::arithmetic::div_mod::lemma_mod_bound(qi, ni);
    assert(ni * d == d * ni) by (nonlinear_arith);
    if r + 1 < ni {
        lemma_fundamental_div_mod_converse(qi + 1, ni, d, r + 1);
    } else {
        assert(ni * d + ni == (d + 1) * ni) by (nonlinear_arith);
        lemma_fundamental_div_mod_converse(qi + 1, ni, d + 1, 0);
    }
}

/// A forwarder set to notify after every `n` messages, starting from a received
/// count of 0, over any number of data messages it accepts: it tells its notifier
/// the count `n` at every `n`-th message and at no other, and in between its
/// received count is the number of messages seen so far, modulo `n`.
pub proof fn lemma_notifies_every_count<S>(v: ForwarderView<S>, s: Seq<usize>)
    requires
        v.notify_count > 0,
        v.received_count == 0,
        v.senders.len() == 0 || counts_or_restarts(s),
        v.senders.len() > 0 ==> forall|i: int| 0 <= i < s.len() ==> #[trigger] s[i] < usize::MAX,
    ensures
        all_accepted(run(v, data_messages::<S>(s)).1),
        run(v, data_messages::<S>(s)).1.len() == s.len(),
        run(v, data_messages::<S>(s)).0.received_count == s.len() % (v.notify_count as nat),
        forall|i: int| 0 <= i < s.len() ==> #[trigger] notifications(run(v, data_messages::<S>(s)).1)[i] == (if (i + 1)
            % (v.notify_count as int) == 0 {
            Some(v.notify_count)
        } else {
            None
        }),
    decreases s.len(),
{
    lemma_counting_stream_accepted(v, s);
    let n = v.notify_count as nat;
    if s.len() > 0 {
        let p = s.drop_last();
        lemma_data_messages_drop_last::<S>(s);
        assert(v.senders.len() == 0 || counts_or_restarts(p)) by {
            if v.senders.len() > 0 {
                assert forall|i: int| 0 < i < p.len() implies #[trigger] p[i] == 0 || p[i] == p[i - 1] + 1 by {
                    assert(s[i] == 0 || s[i] == s[i - 1] + 1);
                }
            }
        }
        assert(v.senders.len() > 0 ==> forall|i: int| 0 <= i < p.len() ==> #[trigger] p[i] < usize::MAX) by {
            if v.senders.len() > 0 {
                assert forall|i: int| 0 <= i < p.len() implies #[trigger] p[i] < usize::MAX by {
                    assert(s[i] < usize::MAX);
                }
            }
        }
        lemma_notifies_every_count(v, p);
        lemma_counting_stream_accepted(v, p);
        let (vp, rs) = run(v, data_messages::<S>(p));
        let msg = FwdMessage::<S>::TestData(s.last());
        let (vn, r) = receive_step(vp, msg);
        let rsn = rs.push(r);
        assert(rsn[rsn.len() - 1] is Ok);
        assert(vp.in_sequence(msg));
        lemma_mod_step(p.len(), n);
        let v1 = vp.validated(msg);
        let v2 = v1.acted();
        lemma_small_mod((vp.received_count + 1) as nat, (usize::MAX + 1) as nat);
        assert(v1.received_count == vp.received_count + 1);
        assert(v2.received_count == vp.received_count + 1);
        assert(notifications(rsn) =~= notifications(rs).push(v2.notification()));
    }
}

/// The same for an `AsyncForwarder` with a notifier: it tells the notifier the
/// count `n` at every `n`-th data message it accepts and at no other, and in
/// between its received count is the number of messages seen, modulo `n`.
pub proof fn lemma_async_notifies_every_count<S>(v: AsyncForwarderView<S>, s: Seq<usize>)
    requires
        v.notify_count > 0,
        v.received_count == 0,
        v.notify_sender is Some,
        v.senders.len() == 0 || counts_or_restarts(s),
        v.senders.len() > 0 ==> forall|i: int| 0 <= i < s.len() ==> #[trigger] s[i] < usize::MAX,
    ensures
        all_handled(async_run(v, test_data::<S>(s)).1),
        async_run(v, test_data::<S>(s)).1.len() == s.len(),
        async_run(v, test_data::<S>(s)).0.received_count == s.len() % (v.notify_count as nat),
        forall|i: int| 0 <= i < s.len() ==> #[trigger] async_notifications(async_run(v, test_data::<S>(s)).1)[i] == (if (i
            + 1) % (v.notify_count as int) == 0 {
            Some(v.notify_count)
        } else {
            None
        }),
    decreases s.len(),
{
    lemma_async_counting_stream_accepted(v, s);
    let n = v.notify_count as nat;
    if s.len() > 0 {
        let p = s.drop_last();
        lemma_test_data_drop_last::<S>(s);
        assert(v.senders.len() == 0 || counts_or_restarts(p)) by {
            if v.senders.len() > 0 {
                assert forall|i: int| 0 < i < p.len() implies #[trigger] p[i] == 0 || p[i] == p[i - 1] + 1 by {
                    assert(s[i] == 0 || s[i] == s[i - 1] + 1);
                }
            }
        }
        assert(v.senders.len() > 0 ==> forall|i: int| 0 <= i < p.len() ==> #[trigger] p[i] < usize::MAX) by {
            if v.senders.len() > 0 {
                assert forall|i: int| 0 <= i < p.len() implies #[trigger] p[i] < usize::MAX by {
                    assert(s[i] < usize::MAX);
                }
            }
        }
        lemma_async_notifies_every_count(v, p);
        lemma_async_counting_stream_accepted(v, p);
        let (vp, rs) = async_run(v, test_data::<S>(p));
        let msg = TestMessage::<S>::TestData(s.last());
        let (vn, r) = async_receive_step(vp, msg);
        let rsn = rs.push(r);
        assert(rsn[rsn.len() - 1] is Ok);
        assert(vp.in_sequence(msg));
        lemma_mod_step(p.len(), n);
        let v1 = vp.validated(msg);
        let v2 = v1.acted();
        assert(v2.received_count == vp.received_count + 1);
        assert(async_notifications(rsn) =~= async_notifications(rs).push(v2.notification()));
    }
}

// ---------------------------------------------------------------------------
// A whole experiment.

/// A stage as a driver's setup leaves it: one sender, a forwarding multiplier
/// of 1, its send counter at 0 and no notification.
pub open spec fn fresh_stage<S>(v: ForwarderView<S>) -> bool {
    &&& v.senders.len() == 1
    &&& v.forwarding_multiplier == 1
    &&& v.send_count == 0
    &&& v.notify_count == 0
}

/// A stage that is never told to notify forwards the in-order stream unchanged.
proof fn lemma_fresh_stage_forwards_unchanged<S>(up: ForwarderView<S>, k: nat)
    requires
        fresh_stage(up),
        k <= usize::MAX,
    ensures
        all_accepted(run(up, data_messages::<S>(in_order(k))).1),
        forwarded(run(up, data_messages::<S>(in_order(k))).1) == in_order(k),
        run(up, data_messages::<S>(in_order(k))).0.send_count == k,
        run(up, data_messages::<S>(in_order(k))).0.senders == up.senders,
        run(up, data_messages::<S>(in_order(k))).0.forwarding_multiplier == 1,
        run(up, data_messages::<S>(in_order(k))).0.notify_count == 0,
        k > 0 ==> run(up, data_messages::<S>(in_order(k))).0.next_seq == k,
    decreases k,
{
    if k > 0 {
        let km = (k - 1) as nat;
        let s = in_order(k);
        lemma_data_messages_drop_last::<S>(s);
        assert(s.drop_last() =~= in_order(km));
        lemma_fresh_stage_forwards_unchanged(up, km);
        let (vp, rs) = run(up, data_messages::<S>(in_order(km)));
        let msg = FwdMessage::<S>::TestData(km as usize);
        assert(s.last() == km as usize);
        assert(vp.in_sequence(msg));
        let v1 = vp.validated(msg);
        let v2 = v1.acted();
        lemma_small_mod(km, (usize::MAX + 1) as nat);
        lemma_small_mod((km + 1) as nat, (usize::MAX + 1) as nat);
        assert(v1.dispatch_count() == 1);
        assert(v1.dispatches() =~= seq![Dispatch { sender: 0, seq: km as usize }]);
        let (vn, r) = receive_step(vp, msg);
        let rsn = rs.push(r);
        assert(rsn.drop_last() =~= rs);
        assert(v1.dispatches().map_values(|d: Dispatch| d.seq) =~= seq![km as usize]);
        assert(forwarded(rsn) =~= in_order(k));
        assert forall|i: int| 0 <= i < rsn.len() implies #[trigger] rsn[i] is Ok by {
            if i < rs.len() {
                assert(rs[i] is Ok);
            }
        }
    }
}

/// What comes out at the end of a lane of `stages`, each forwarding what the one
/// before it forwarded, when `input` goes in at the first.
pub open spec fn lane_output<S>(stages: Seq<ForwarderView<S>>, input: Seq<usize>) -> Seq<usize>
    decreases stages.len(),
{
    if stages.len() == 0 {
        input
    } else {
        lane_output(stages.drop_first(), forwarded(run(stages[0], data_messages::<S>(input)).1))
    }
}

/// Whether every stage of the lane accepts all that reaches it when `input` goes in at the first.
pub open spec fn lane_accepts<S>(stages: Seq<ForwarderView<S>>, input: Seq<usize>) -> bool
    decreases stages.len(),
{
    stages.len() == 0 || (all_accepted(run(stages[0], data_messages::<S>(input)).1) && lane_accepts(
        stages.drop_first(),
        forwarded(run(stages[0], data_messages::<S>(input)).1),
    ))
}

/// A lane of stages as a setup leaves them, driven with 0, 1, ..., n - 1: every
/// stage accepts everything, and the lane delivers the same n messages, in order.
pub proof fn lemma_lane_delivers_its_messages<S>(stages: Seq<ForwarderView<S>>, n: nat)
    requires
        forall|i: int| 0 <= i < stages.len() ==> fresh_stage(#[trigger] stages[i]),
        n <= usize::MAX,
    ensures
        lane_accepts(stages, in_order(n)),
        lane_output(stages, in_order(n)) == in_order(n),
    decreases stages.len(),
{
    if stages.len() > 0 {
        assert(fresh_stage(stages[0]));
        lemma_fresh_stage_forwards_unchanged(stages[0], n);
        let rest = stages.drop_first();
        assert forall|i: int| 0 <= i < rest.len() implies fresh_stage(#[trigger] rest[i]) by {
            assert(fresh_stage(stages[i + 1]));
        }
        lemma_lane_delivers_its_messages(rest, n);
    }
}

/// A whole experiment: each lane of stages as a setup leaves them, driven with
/// 0, 1, ..., n - 1, accepts everything and delivers n messages to the
/// concentrator; the concentrator, which forwards nowhere and is told to notify
/// after all `lanes * n` of them, tells the notifier exactly once, when the last
/// of them arrives, whatever the order in which the lanes' messages arrive, and
/// with the count `lanes * n`.
pub proof fn lemma_experiment_notifies_once_when_all_lanes_complete<S>(
    lanes: Seq<Seq<ForwarderView<S>>>,
    concentrator: ForwarderView<S>,
    n: nat,
    arrivals: Seq<usize>,
)
    requires
        forall|l: int, i: int| 0 <= l < lanes.len() && 0 <= i < lanes[l].len() ==> fresh_stage(#[trigger] lanes[l][i]),
        n <= usize::MAX,
        concentrator.senders.len() == 0,
        concentrator.received_count == 0,
        concentrator.notify_count == lanes.len() * n,
        concentrator.notify_count > 0,
        arrivals.len() == lanes.len() * n,
    ensures
        forall|l: int| 0 <= l < lanes.len() ==> lane_accepts(#[trigger] lanes[l], in_order(n)) && lane_output(
            lanes[l],
            in_order(n),
        ).len() == n,
        all_accepted(run(concentrator, data_messages::<S>(arrivals)).1),
        forall|i: int| 0 <= i < arrivals.len() ==> #[trigger] notifications(run(concentrator, data_messages::<S>(arrivals)).1)[i]
            == (if i == arrivals.len() - 1 {
            Some(concentrator.notify_count)
        } else {
            None
        }),
{
    assert forall|l: int| 0 <= l < lanes.len() implies lane_accepts(#[trigger] lanes[l], in_order(n)) && lane_output(
        lanes[l],
        in_order(n),
    ).len() == n by {
        assert forall|i: int| 0 <= i < lanes[l].len() implies fresh_stage(#[trigger] lanes[l][i]) by {}
        lemma_lane_delivers_its_messages(lanes[l], n);
    }
    lemma_notifies_every_count(concentrator, arrivals);
    let m = concentrator.notify_count as int;
    let rs = run(concentrator, data_messages::<S>(arrivals)).1;
    assert forall|i: int| 0 <= i < arrivals.len() implies #[trigger] notifications(rs)[i] == (if i == arrivals.len()
        - 1 {
        Some(concentrator.notify_count)
    } else {
        None
    }) by {
        if i + 1 < m {
            lemma_small_mod((i + 1) as nat, m as nat);
        } else {
            vstd::arithmetic::div_mod::lemma_mod_self_0(m);
        }
    }
}

} // verus!
