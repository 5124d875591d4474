//! The programmable forwarder that every pipeline step runs.
//!
//! A forwarder receives `FwdMessage` values and treats them as instructions:
//! configuration messages give it a sender to forward to or a notifier to tell
//! once a number of messages has arrived, and data messages carry a sequence
//! number that it checks and forwards. The sending itself is asynchronous work
//! done by the caller: every decision here returns what has to be sent.
use vstd::prelude::*;
use vstd::arithmetic::div_mod::{lemma_add_mod_noop, lemma_fundamental_div_mod_converse, lemma_mod_self_0, lemma_small_mod};
use crate::config::Verbosity;
use crate::text::{decimal, decimal_text};

verus! {

/// `FwdMessage` is the instruction set a forwarder understands. `S` is the kind
/// of channel sender that configuration messages carry.
#[derive(Debug)]
pub enum FwdMessage<S> {
    /// TestData contains a sequence number or count.
    TestData(usize),
    /// AddSender provides the receiver a forwarder for received messages.
    AddSender(S),
    /// Notify provides the receiver a notifier and message count for notifying the notifier.
    Notify(S, usize),
}

/// The number `x + k`, taken around the range of `usize` as a wrapping counter does.
pub open spec fn wrap_add(x: usize, k: int) -> usize {
    ((x + k) % (usize::MAX as int + 1)) as usize
}

/// One data message to send: `TestData(seq)` goes to the forwarder's sender at index `sender`.
#[derive(Debug, Copy, Clone, PartialEq, Eq, Structural)]
pub struct Dispatch {
    pub sender: usize,
    pub seq: usize,
}

/// The abstract state of a forwarder.
pub struct ForwarderView<S> {
    pub pipeline: usize,
    pub lane: usize,
    pub senders: Seq<S>,
    pub received_count: usize,
    pub send_count: usize,
    pub notify_count: usize,
    pub notify_sender: Option<S>,
    pub forwarding_multiplier: usize,
    pub next_seq: usize,
    pub verbosity: Verbosity,
}

impl<S> ForwarderView<S> {
    /// A forwarder with a positive notification count always holds a notifier.
    pub open spec fn notifier_ready(self) -> bool {
        self.notify_count > 0 ==> self.notify_sender is Some
    }

    /// Whether `msg` passes the sequence check: a forwarder without senders
    /// accepts everything; one that forwards accepts data whose sequence number
    /// is 0 (a reset) or the next one expected.
    pub open spec fn in_sequence(self, msg: FwdMessage<S>) -> bool {
        match msg {
            FwdMessage::TestData(seq) => self.senders.len() == 0 || seq == 0 || seq == self.next_seq,
            _ => true,
        }
    }

    /// Whether accepting `msg` would take the expected sequence number past
    /// `usize::MAX` (the one input on which the check panics).
    pub open spec fn sequence_overflows(self, msg: FwdMessage<S>) -> bool {
        match msg {
            FwdMessage::TestData(seq) => self.senders.len() > 0 && seq == usize::MAX && seq == self.next_seq,
            _ => false,
        }
    }

    /// The state after an accepted message: the expected sequence number becomes
    /// one past the data just seen (when forwarding), and the received count grows by one.
    pub open spec fn validated(self, msg: FwdMessage<S>) -> ForwarderView<S> {
        ForwarderView {
            next_seq: match msg {
                FwdMessage::TestData(seq) => if self.senders.len() > 0 { (seq + 1) as usize } else { self.next_seq },
                _ => self.next_seq,
            },
            received_count: wrap_add(self.received_count, 1),
            ..self
        }
    }

    /// The state after a configuration message.
    pub open spec fn configured(self, msg: FwdMessage<S>) -> ForwarderView<S> {
        match msg {
            FwdMessage::Notify(s, n) => ForwarderView { notify_sender: Some(s), notify_count: n, ..self },
            FwdMessage::AddSender(s) => ForwarderView { senders: self.senders.push(s), ..self },
            FwdMessage::TestData(_) => self,
        }
    }

    /// The `j`-th data message sent when acting on one data message: the senders
    /// in order, each sent `forwarding_multiplier` messages, numbered from `send_count` on.
    pub open spec fn dispatch_at(self, j: int) -> Dispatch {
        Dispatch { sender: (j / self.forwarding_multiplier as int) as usize, seq: wrap_add(self.send_count, j) }
    }

    /// How many messages acting on one data message sends.
    pub open spec fn dispatch_count(self) -> nat {
        self.senders.len() * self.forwarding_multiplier as nat
    }

    /// Everything sent when acting on one data message, in order.
    pub open spec fn dispatches(self) -> Seq<Dispatch> {
        Seq::new(self.dispatch_count(), |j: int| self.dispatch_at(j))
    }

    /// The state after acting on one data message.
    pub open spec fn acted(self) -> ForwarderView<S> {
        ForwarderView { send_count: wrap_add(self.send_count, self.dispatch_count() as int), ..self }
    }

    /// Whether the notifier is due: a positive notification count that the received count has reached.
    pub open spec fn notification_due(self) -> bool {
        self.notify_count > 0 && self.received_count == self.notify_count
    }

    /// The state after the notification check: counters cleared when a notification is due.
    pub open spec fn notified(self) -> ForwarderView<S> {
        if self.notification_due() {
            ForwarderView { received_count: 0, send_count: 0, ..self }
        } else {
            self
        }
    }

    /// What the notification check sends to the notifier, if anything: the notification count.
    pub open spec fn notification(self) -> Option<usize> {
        if self.notification_due() { Some(self.notify_count) } else { None }
    }
}

/// The result of handling one message in full.
pub struct Reaction {
    /// The data messages to send, in order.
    pub forwards: Vec<Dispatch>,
    /// `Some(count)` when `TestData(count)` is to be sent to the notifier.
    pub notification: Option<usize>,
}

/// What receiving `msg` in state `v` does: the next state, and either the data
/// to forward and the notification to send, or the message back when it is out
/// of sequence (in which case the state is unchanged).
pub open spec fn receive_step<S>(v: ForwarderView<S>, msg: FwdMessage<S>)
    -> (ForwarderView<S>, Result<(Seq<Dispatch>, Option<usize>), FwdMessage<S>>)
{
    match msg {
        FwdMessage::TestData(_) => {
            if v.in_sequence(msg) {
                let v1 = v.validated(msg);
                let v2 = v1.acted();
                (v2.notified(), Ok((v1.dispatches(), v2.notification())))
            } else {
                (v, Err(msg))
            }
        },
        _ => (v.configured(msg), Ok((Seq::empty(), None))),
    }
}

/// A forwarder that forwards refuses data out of sequence: data whose number is
/// neither 0 nor the next expected comes back unchanged as the error, the
/// forwarder's state stays as it was, nothing is forwarded and nobody is notified.
/// `receive` is never called with such data: its caller fails first, naming the
/// forwarder's tag and the number it expected.
pub proof fn lemma_out_of_sequence_refused<S>(v: ForwarderView<S>, seq: usize)
    requires
        v.senders.len() > 0,
        seq != 0,
        seq != v.next_seq,
    ensures
        receive_step(v, FwdMessage::TestData(seq)) == (v, Err::<(Seq<Dispatch>, Option<usize>), FwdMessage<S>>(
            FwdMessage::TestData(seq),
        )),
{
}

/// Builder is a Forwarder factory.
#[derive(Copy, Clone)]
pub struct Builder {
    /// The Forwarder's pipeline id.
    pipeline: usize,
    /// The Forwarder's lane id.
    lane: usize,
    /// The Forwarder's logging verbosity.
    verbosity: Verbosity,
}

/// The settings a builder holds.
pub struct BuilderView {
    pub pipeline: usize,
    pub lane: usize,
    pub verbosity: Verbosity,
}

impl View for Builder {
    type V = BuilderView;

    closed spec fn view(&self) -> BuilderView {
        BuilderView { pipeline: self.pipeline, lane: self.lane, verbosity: self.verbosity }
    }
}

impl Default for Builder {
    fn default() -> (b: Self)
        ensures
            b@ == (BuilderView { pipeline: 0, lane: 0, verbosity: Verbosity::Off }),
    {
        Builder { pipeline: 0, lane: 0, verbosity: Verbosity::Off }
    }
}

impl Builder {
    /// Construct the Builder.
    pub fn new() -> (b: Self)
        ensures
            b@ == (BuilderView { pipeline: 0, lane: 0, verbosity: Verbosity::Off }),
    {
        Self::default()
    }

    /// Override the pipeline identifier for the Forwarder.
    pub fn pipeline(self, pipeline: usize) -> (b: Builder)
        ensures
            b@ == (BuilderView { pipeline, ..self@ }),
    {
        let mut b = self;
        b.pipeline = pipeline;
        b
    }

    /// Override the lane identifier for the Forwarder.
    pub fn lane(self, lane: usize) -> (b: Builder)
        ensures
            b@ == (BuilderView { lane, ..self@ }),
    {
        let mut b = self;
        b.lane = lane;
        b
    }

    /// Override the verbosity used in logging by the Forwarder.
    pub fn verbosity(self, verbosity: Verbosity) -> (b: Builder)
        ensures
            b@ == (BuilderView { verbosity, ..self@ }),
    {
        let mut b = self;
        b.verbosity = verbosity;
        b
    }

    /// The Forwarder that scheduling this builder runs: the builder's ids and
    /// verbosity, a forwarding multiplier of 1, and everything else empty or zero.
    pub fn build<S>(self) -> (f: Forwarder<S>)
        ensures
            f@ == (ForwarderView::<S> {
                pipeline: self@.pipeline,
                lane: self@.lane,
                senders: Seq::empty(),
                received_count: 0,
                send_count: 0,
                notify_count: 0,
                notify_sender: None,
                forwarding_multiplier: 1,
                next_seq: 0,
                verbosity: self@.verbosity,
            }),
    {
        Forwarder {
            pipeline: self.pipeline,
            lane: self.lane,
            senders: Vec::new(),
            received_count: 0,
            send_count: 0,
            notify_count: 0,
            notify_sender: None,
            forwarding_multiplier: 1,
            next_seq: 0,
            verbosity: self.verbosity,
        }
    }
}

/// Forwarder implements a programmable object which can forward received
/// messages and notify when it has received a configured number of messages.
pub struct Forwarder<S> {
    /// The pipeline id, mostly used for logging.
    pipeline: usize,
    /// The lane id, mostly used for logging.
    lane: usize,
    /// The collection of senders, each will be sent any received message.
    senders: Vec<S>,
    /// The count of messages received.
    received_count: usize,
    /// The count of messages sent.
    send_count: usize,
    /// The count of received messages that triggers notification.
    notify_count: usize,
    /// The notifier, which is sent the total number of messages received.
    notify_sender: Option<S>,
    /// The forwarding multiplier is the count of messages to send for every message received.
    forwarding_multiplier: usize,
    /// The expected next sequence number for `FwdMessage::TestData`.
    next_seq: usize,
    /// The logging verbosity.
    verbosity: Verbosity,
}

impl<S> View for Forwarder<S> {
    type V = ForwarderView<S>;

    closed spec fn view(&self) -> ForwarderView<S> {
        ForwarderView {
            pipeline: self.pipeline,
            lane: self.lane,
            senders: self.senders@,
            received_count: self.received_count,
            send_count: self.send_count,
            notify_count: self.notify_count,
            notify_sender: self.notify_sender,
            forwarding_multiplier: self.forwarding_multiplier,
            next_seq: self.next_seq,
            verbosity: self.verbosity,
        }
    }
}

/// `x + 1` around the range of `usize`.
fn wrapping_inc(x: usize) -> (r: usize)
    ensures
        r == wrap_add(x, 1),
{
    proof {
        let m = usize::MAX as int + 1;
        if x == usize::MAX {
            lemma_mod_self_0(m);
        } else {
            lemma_small_mod((x + 1) as nat, m as nat);
        }
    }
    if x == usize::MAX {
        0
    } else {
        x + 1
    }
}

/// Adding one more to a wrapped sum is the wrapped sum with one more.
proof fn lemma_wrap_add_step(x: usize, k: int)
    ensures
        wrap_add(wrap_add(x, k), 1) == wrap_add(x, k + 1),
{
    let m = usize::MAX as int + 1;
    lemma_add_mod_noop(x + k, 1, m);
    lemma_small_mod(1, m as nat);
    let r = (x + k) % m;
    assert(0 <= r < m) by {
        vstd::arithmetic::div_mod::lemma_mod_bound(x + k, m);
    }
}

impl<S> Forwarder<S> {
    #[verifier::type_invariant]
    spec fn notifier_held(&self) -> bool {
        self@.notifier_ready()
    }

    /// Get the pipeline id.
    pub fn pipeline(&self) -> (p: usize)
        ensures
            p == self@.pipeline,
    {
        self.pipeline
    }

    /// Get the lane id.
    pub fn lane(&self) -> (l: usize)
        ensures
            l == self@.lane,
    {
        self.lane
    }

    /// Get a tag that can be used in logging.
    pub fn tag(&self) -> (t: String)
        ensures
            t@ == "fwd pipeline "@ + decimal(self@.pipeline as nat) + " lane "@ + decimal(self@.lane as nat),
    {
        let pipeline = decimal_text(self.pipeline);
        let lane = decimal_text(self.lane);
        "fwd pipeline ".to_owned().concat(pipeline.as_str()).concat(" lane ").concat(lane.as_str())
    }

    /// Get the logging verbosity.
    pub fn verbosity(&self) -> (v: Verbosity)
        ensures
            v == self@.verbosity,
    {
        self.verbosity
    }

    /// Get the sequence number expected next.
    pub fn next_seq(&self) -> (n: usize)
        ensures
            n == self@.next_seq,
    {
        self.next_seq
    }

    /// Get the number of senders messages are forwarded to.
    pub fn sender_count(&self) -> (n: usize)
        ensures
            n == self@.senders.len(),
    {
        self.senders.len()
    }

    /// Get the sender at `index`.
    pub fn sender(&self, index: usize) -> (s: &S)
        requires
            index < self@.senders.len(),
        ensures
            *s == self@.senders[index as int],
    {
        &self.senders[index]
    }

    /// Get the notifier, if one was configured.
    pub fn notifier(&self) -> (s: Option<&S>)
        ensures
            s is Some <==> self@.notify_sender is Some,
            s is Some ==> *s->0 == self@.notify_sender->0,
    {
        match &self.notify_sender {
            Some(s) => Some(s),
            None => None,
        }
    }

    /// Whether `validate_sequence` would overflow on `msg`: the caller tests this
    /// first and fails there, as an unchecked increment would.
    pub fn sequence_overflows(&self, msg: &FwdMessage<S>) -> (b: bool)
        ensures
            b == self@.sequence_overflows(*msg),
    {
        match msg {
            FwdMessage::TestData(seq) => self.senders.len() > 0 && *seq == usize::MAX && *seq == self.next_seq,
            _ => false,
        }
    }

    /// For FwdMessage::TestData, validate the sequence number. A sequence number of 0 is
    /// treated as a reset, setting the next expected sequence to 1. An Ok return indicates
    /// proper sequencing, while an Err indicates improper sequencing. A forwarder without
    /// senders accepts everything, as it is likely a notifier.
    pub fn validate_sequence(&mut self, msg: FwdMessage<S>) -> (r: Result<FwdMessage<S>, FwdMessage<S>>)
        requires
            !old(self)@.sequence_overflows(msg),
        ensures
            old(self)@.in_sequence(msg) ==> r == Ok::<FwdMessage<S>, FwdMessage<S>>(msg) && final(self)@ == old(self)@.validated(msg),
            !old(self)@.in_sequence(msg) ==> r == Err::<FwdMessage<S>, FwdMessage<S>>(msg) && final(self)@ == old(self)@,
    {
        proof {
            use_type_invariant(&*self);
        }
        if self.senders.len() > 0 {
            match msg {
                FwdMessage::TestData(seq) => {
                    if seq == 0 {
                        self.next_seq = 1;
                    } else if seq == self.next_seq {
                        self.next_seq = self.next_seq + 1;
                    } else {
                        return Err(msg);
                    }
                },
                _ => {},
            }
        }
        self.received_count = wrapping_inc(self.received_count);
        Ok(msg)
    }

    /// Handle a configuration instruction, adding a sender or notifier. An error is returned
    /// if the message is not a configuration message.
    pub fn handle_config(&mut self, msg: FwdMessage<S>) -> (r: Result<(), FwdMessage<S>>)
        ensures
            msg is TestData ==> r == Err::<(), FwdMessage<S>>(msg),
            !(msg is TestData) ==> r is Ok,
            final(self)@ == old(self)@.configured(msg),
    {
        proof {
            use_type_invariant(&*self);
        }
        match msg {
            FwdMessage::Notify(sender, on_receive_count) => {
                self.notify_sender = Some(sender);
                self.notify_count = on_receive_count;
            },
            FwdMessage::AddSender(sender) => {
                let mut senders = Vec::new();
                std::mem::swap(&mut senders, &mut self.senders);
                senders.push(sender);
                self.senders = senders;
            },
            msg => return Err(msg),
        }
        Ok(())
    }

    /// Handle an action instruction: the data messages to send for one received data
    /// message, each sender in turn sent `forwarding_multiplier` messages numbered by
    /// the send counter, which counts them.
    pub fn handle_action(&mut self, cmd: FwdMessage<S>) -> (out: Vec<Dispatch>)
        requires
            cmd is TestData,
        ensures
            out@ == old(self)@.dispatches(),
            final(self)@ == old(self)@.acted(),
    {
        proof {
            use_type_invariant(&*self);
        }
        let ghost v0 = self@;
        let n = self.senders.len();
        let m = self.forwarding_multiplier;
        let mut out: Vec<Dispatch> = Vec::new();
        let mut i: usize = 0;
        while i < n
            invariant
                v0 == old(self)@,
                v0.notifier_ready(),
                n == v0.senders.len(),
                m == v0.forwarding_multiplier,
                i <= n,
                self@ == (ForwarderView { send_count: self@.send_count, ..v0 }),
                self@.send_count == wrap_add(v0.send_count, i * m),
                out@.len() == i * m,
                forall|j: int| 0 <= j < out@.len() ==> #[trigger] out@[j] == v0.dispatch_at(j),
            decreases n - i,
        {
            let mut k: usize = 0;
            while k < m
                invariant
                    v0 == old(self)@,
                    v0.notifier_ready(),
                    n == v0.senders.len(),
                    m == v0.forwarding_multiplier,
                    i < n,
                    k <= m,
                    self@ == (ForwarderView { send_count: self@.send_count, ..v0 }),
                    self@.send_count == wrap_add(v0.send_count, i * m + k),
                    out@.len() == i * m + k,
                    forall|j: int| 0 <= j < out@.len() ==> #[trigger] out@[j] == v0.dispatch_at(j),
                decreases m - k,
            {
                proof {
                    lemma_fundamental_div_mod_converse(i * m + k, m as int, i as int, k as int);
                    lemma_wrap_add_step(v0.send_count, i * m + k);
                }
                out.push(Dispatch { sender: i, seq: self.send_count });
                self.send_count = wrapping_inc(self.send_count);
                k = k + 1;
            }
            proof {
                assert((i + 1) * m == i * m + m) by (nonlinear_arith);
            }
            i = i + 1;
        }
        proof {
            assert(out@ =~= v0.dispatches());
        }
        out
    }

    /// Handle the notification check: when the positive notification count has been
    /// reached, clear the counters and return the count to send to the notifier.
    pub fn handle_notification(&mut self) -> (r: Option<usize>)
        ensures
            r == old(self)@.notification(),
            final(self)@ == old(self)@.notified(),
            r is Some ==> final(self)@.notify_sender is Some,
    {
        proof {
            use_type_invariant(&*self);
        }
        if self.notify_count > 0 && self.received_count == self.notify_count {
            let count = self.notify_count;
            self.clear_counters();
            Some(count)
        } else {
            None
        }
    }

    /// Clear all counters.
    fn clear_counters(&mut self)
        ensures
            final(self)@ == (ForwarderView { received_count: 0, send_count: 0, ..old(self)@ }),
    {
        proof {
            use_type_invariant(&*self);
        }
        self.received_count = 0;
        self.send_count = 0;
    }

    /// Whether `msg` passes the sequence check: the caller tests this before
    /// `receive` and fails there, naming the forwarder's tag and the number it expected.
    pub fn in_sequence(&self, msg: &FwdMessage<S>) -> (b: bool)
        ensures
            b == self@.in_sequence(*msg),
    {
        match msg {
            FwdMessage::TestData(seq) => self.senders.len() == 0 || *seq == 0 || *seq == self.next_seq,
            _ => true,
        }
    }

    /// Handle a received FwdMessage command: configuration is applied; data is
    /// checked for sequence, then acted on, then the notification check runs.
    /// Data out of sequence is a failure of the caller's (test it with `in_sequence`).
    pub fn receive(&mut self, cmd: FwdMessage<S>) -> (r: Reaction)
        requires
            !old(self)@.sequence_overflows(cmd),
            old(self)@.in_sequence(cmd),
        ensures
            final(self)@ == receive_step(old(self)@, cmd).0,
            match receive_step(old(self)@, cmd).1 {
                Ok((forwards, notification)) => r.forwards@ == forwards && r.notification == notification,
                Err(_) => false,
            },
            r.notification is Some ==> final(self)@.notify_sender is Some,
    {
        match self.handle_config(cmd) {
            Ok(_) => Reaction { forwards: Vec::new(), notification: None },
            Err(msg) => match self.validate_sequence(msg) {
                Ok(msg) => {
                    let forwards = self.handle_action(msg);
                    let notification = self.handle_notification();
                    Reaction { forwards, notification }
                },
                Err(_) => Reaction { forwards: Vec::new(), notification: None },
            },
        }
    }
}

} // verus!
