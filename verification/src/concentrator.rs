//! The concentrator at the end of the lanes of the smol experiment: it counts
//! every value it receives, recognises the last value of a lane, and once every
//! lane has finished it reports how many values arrived in the round.
use vstd::prelude::*;

verus! {

/// The abstract state of a concentrator.
pub struct ConcentratorView {
    /// The value that ends a lane (the lanes send 1 ..= messages).
    pub messages: usize,
    /// The number of lanes.
    pub lanes: usize,
    /// Lanes finished in this round.
    pub lane_notifications: usize,
    /// Values received in this round.
    pub msg_recv: usize,
}

/// What one received value brought about.
pub struct Arrival {
    /// When the value ended a lane: the number of lanes finished in this round, counting it.
    pub lane_notifications: Option<usize>,
    /// When the value finished the last lane: the number of values received in
    /// the round, which is sent to the notifier.
    pub report: Option<usize>,
}

impl ConcentratorView {
    /// Whether receiving a value would overflow a counter.
    pub open spec fn overflows(self, value: usize) -> bool {
        ||| self.msg_recv == usize::MAX
        ||| (value == self.messages && self.lane_notifications == usize::MAX)
    }

    /// The state after receiving `value`.
    pub open spec fn received(self, value: usize) -> ConcentratorView {
        if value != self.messages {
            ConcentratorView { msg_recv: (self.msg_recv + 1) as usize, ..self }
        } else if self.lane_notifications + 1 == self.lanes {
            ConcentratorView { msg_recv: 0, lane_notifications: 0, ..self }
        } else {
            ConcentratorView {
                msg_recv: (self.msg_recv + 1) as usize,
                lane_notifications: (self.lane_notifications + 1) as usize,
                ..self
            }
        }
    }

    /// The lane count that receiving `value` reports, if the value ends a lane.
    pub open spec fn lane_report(self, value: usize) -> Option<usize> {
        if value == self.messages { Some((self.lane_notifications + 1) as usize) } else { None }
    }

    /// The round total that receiving `value` reports, if it finishes the last lane.
    pub open spec fn round_report(self, value: usize) -> Option<usize> {
        if value == self.messages && self.lane_notifications + 1 == self.lanes {
            Some((self.msg_recv + 1) as usize)
        } else {
            None
        }
    }
}

/// The concentrator that collects the lanes.
pub struct Concentrator {
    messages: usize,
    lanes: usize,
    lane_notifications: usize,
    msg_recv: usize,
}

impl View for Concentrator {
    type V = ConcentratorView;

    closed spec fn view(&self) -> ConcentratorView {
        ConcentratorView {
            messages: self.messages,
            lanes: self.lanes,
            lane_notifications: self.lane_notifications,
            msg_recv: self.msg_recv,
        }
    }
}

impl Concentrator {
    /// A concentrator for `lanes` lanes whose last value is `messages`, with nothing received yet.
    pub fn new(messages: usize, lanes: usize) -> (c: Self)
        ensures
            c@ == (ConcentratorView { messages, lanes, lane_notifications: 0, msg_recv: 0 }),
    {
        Concentrator { messages, lanes, lane_notifications: 0, msg_recv: 0 }
    }

    /// Whether receiving `value` would overflow a counter: the caller tests this
    /// first and fails there, as the unchecked increments would.
    pub fn overflows(&self, value: usize) -> (b: bool)
        ensures
            b == self@.overflows(value),
    {
        self.msg_recv == usize::MAX || (value == self.messages && self.lane_notifications == usize::MAX)
    }

    /// Receive one value: count it; when it ends a lane count the lane; when that
    /// was the last lane, report the round's total and start a new round.
    pub fn receive(&mut self, value: usize) -> (a: Arrival)
        requires
            !old(self)@.overflows(value),
        ensures
            final(self)@ == old(self)@.received(value),
            a.lane_notifications == old(self)@.lane_report(value),
            a.report == old(self)@.round_report(value),
    {
        self.msg_recv = self.msg_recv + 1;
        if value == self.messages {
            self.lane_notifications = self.lane_notifications + 1;
            let lane_count = self.lane_notifications;
            if self.lane_notifications == self.lanes {
                let total = self.msg_recv;
                self.lane_notifications = 0;
                self.msg_recv = 0;
                Arrival { lane_notifications: Some(lane_count), report: Some(total) }
            } else {
                Arrival { lane_notifications: Some(lane_count), report: None }
            }
        } else {
            Arrival { lane_notifications: None, report: None }
        }
    }
}

/// Receiving `values` one after the other: the last state and each value's round report.
pub open spec fn collect(c: ConcentratorView, values: Seq<usize>) -> (ConcentratorView, Seq<Option<usize>>)
    decreases values.len(),
{
    if values.len() == 0 {
        (c, Seq::empty())
    } else {
        let (cp, rs) = collect(c, values.drop_last());
        (cp.received(values.last()), rs.push(cp.round_report(values.last())))
    }
}

/// How many of `values` equal `v`.
pub open spec fn count_of(values: Seq<usize>, v: usize) -> nat
    decreases values.len(),
{
    if values.len() == 0 {
        0
    } else {
        count_of(values.drop_last(), v) + if values.last() == v { 1nat } else { 0nat }
    }
}

/// Within a round, however the lanes interleave: before the last lane ends the
/// concentrator reports nothing and has counted every value and every lane end;
/// the value that ends the last lane reports the number of values in the round,
/// itself included, and starts a new round.
pub proof fn lemma_reports_once_all_lanes_end(c: ConcentratorView, values: Seq<usize>)
    requires
        c.lane_notifications == 0,
        c.msg_recv == 0,
        c.lanes > 0,
        values.len() < usize::MAX,
        values.len() > 0 ==> count_of(values.drop_last(), c.messages) < c.lanes,
    ensures
        ({
            let (cn, rs) = collect(c, values);
            &&& rs.len() == values.len()
            &&& forall|i: int| 0 <= i < values.len() - 1 ==> #[trigger] rs[i] is None
            &&& values.len() > 0 && count_of(values, c.messages) == c.lanes ==> rs[values.len() - 1] == Some(values.len() as usize)
                && cn.msg_recv == 0 && cn.lane_notifications == 0
            &&& values.len() > 0 && count_of(values, c.messages) < c.lanes ==> rs[values.len() - 1] is None
            &&& count_of(values, c.messages) < c.lanes ==> cn.msg_recv == values.len()
                && cn.lane_notifications == count_of(values, c.messages)
            &&& cn.messages == c.messages && cn.lanes == c.lanes
        }),
    decreases values.len(),
{
    if values.len() > 0 {
        let p = values.drop_last();
        lemma_reports_once_all_lanes_end(c, p);
        let (cp, rs) = collect(c, p);
        assert(cp.msg_recv == p.len());
        assert(cp.lane_notifications == count_of(p, c.messages));
        let rsn = rs.push(cp.round_report(values.last()));
        assert forall|i: int| 0 <= i < values.len() - 1 implies #[trigger] rsn[i] is None by {
            if i < p.len() - 1 {
                assert(rs[i] is None);
            } else {
                assert(rsn[i] == rs[i]);
            }
        }
    }
}

} // verus!
