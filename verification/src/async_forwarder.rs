//! The forwarder that the driver tasks of the earlier experiments share. It
//! forwards received data and notifies a receiver when it has received a
//! configured number of messages. Unlike `forwarder::Forwarder` its counters do
//! not wrap, and it checks for notification even with a count of zero.
use vstd::prelude::*;
use vstd::arithmetic::div_mod::lemma_fundamental_div_mod_converse;
use crate::forwarder::{Dispatch, Reaction};

verus! {

/// The messages the earlier experiments send. `S` is the kind of channel
/// sender that configuration messages carry.
#[derive(Debug)]
pub enum TestMessage<S> {
    /// TestData has a single parameter: a sequence number or a count.
    TestData(usize),
    /// AddSender pushes a sender onto the list of senders.
    AddSender(S),
    /// Notify sets up a notification via TestData, where usize is a message count.
    Notify(S, usize),
}

/// The abstract state of an `AsyncForwarder`.
pub struct AsyncForwarderView<S> {
    pub id: usize,
    pub senders: Seq<S>,
    pub received_count: usize,
    pub send_count: usize,
    pub notify_count: usize,
    pub notify_sender: Option<S>,
    pub forwarding_multiplier: usize,
    pub next_seq: usize,
}

impl<S> AsyncForwarderView<S> {
    /// Whether `msg` passes the sequence check: without senders everything does;
    /// with senders, data must carry the next number expected or 0 (a reset).
    pub open spec fn in_sequence(self, msg: TestMessage<S>) -> bool {
        match msg {
            TestMessage::TestData(seq) => self.senders.len() == 0 || seq == self.next_seq || seq == 0,
            _ => true,
        }
    }

    /// Whether the sequence check would overflow a counter on `msg`.
    pub open spec fn validation_overflows(self, msg: TestMessage<S>) -> bool {
        ||| (self.in_sequence(msg) && self.received_count == usize::MAX)
        ||| (self.senders.len() > 0 && (msg matches TestMessage::TestData(seq) && seq == self.next_seq
            && seq == usize::MAX))
    }

    /// The state after an accepted message.
    pub open spec fn validated(self, msg: TestMessage<S>) -> AsyncForwarderView<S> {
        AsyncForwarderView {
            next_seq: match msg {
                TestMessage::TestData(seq) => if self.senders.len() > 0 { (seq + 1) as usize } else { self.next_seq },
                _ => self.next_seq,
            },
            received_count: (self.received_count + 1) as usize,
            ..self
        }
    }

    /// The state after a configuration message.
    pub open spec fn configured(self, msg: TestMessage<S>) -> AsyncForwarderView<S> {
        match msg {
            TestMessage::Notify(s, n) => AsyncForwarderView { notify_sender: Some(s), notify_count: n, ..self },
            TestMessage::AddSender(s) => AsyncForwarderView { senders: self.senders.push(s), ..self },
            TestMessage::TestData(_) => self,
        }
    }

    /// How many messages acting on one data message sends.
    pub open spec fn dispatch_count(self) -> nat {
        self.senders.len() * self.forwarding_multiplier as nat
    }

    /// Whether acting on one data message would overflow the send counter.
    pub open spec fn action_overflows(self) -> bool {
        self.send_count + self.dispatch_count() > usize::MAX
    }

    /// The `j`-th message sent when acting on one data message.
    pub open spec fn dispatch_at(self, j: int) -> Dispatch {
        Dispatch { sender: (j / self.forwarding_multiplier as int) as usize, seq: (self.send_count + j) as usize }
    }

    /// Everything sent when acting on one data message: each sender in turn is sent
    /// `forwarding_multiplier` messages numbered by the send counter.
    pub open spec fn dispatches(self) -> Seq<Dispatch> {
        Seq::new(self.dispatch_count(), |j: int| self.dispatch_at(j))
    }

    /// The state after acting on one data message.
    pub open spec fn acted(self) -> AsyncForwarderView<S> {
        AsyncForwarderView { send_count: (self.send_count + self.dispatch_count()) as usize, ..self }
    }

    /// The state after the notification check: when the received count equals the
    /// notification count, both counters are cleared.
    pub open spec fn notified(self) -> AsyncForwarderView<S> {
        if self.received_count == self.notify_count {
            AsyncForwarderView { received_count: 0, send_count: 0, ..self }
        } else {
            self
        }
    }

    /// What the notification check sends: the received count, when it equals the
    /// notification count and a notifier is configured.
    pub open spec fn notification(self) -> Option<usize> {
        if self.received_count == self.notify_count && self.notify_sender is Some {
            Some(self.received_count)
        } else {
            None
        }
    }

    /// Whether handling `msg` in full would overflow a counter.
    pub open spec fn receive_overflows(self, msg: TestMessage<S>) -> bool {
        match msg {
            TestMessage::TestData(_) => self.in_sequence(msg) && (self.validation_overflows(msg)
                || self.validated(msg).action_overflows()),
            _ => false,
        }
    }
}

/// What handling `msg` in state `v` does: the next state, and either what to
/// forward and notify, or the message back when it is out of sequence.
pub open spec fn async_receive_step<S>(v: AsyncForwarderView<S>, msg: TestMessage<S>)
    -> (AsyncForwarderView<S>, Result<(Seq<Dispatch>, Option<usize>), TestMessage<S>>)
{
    match msg {
        TestMessage::TestData(_) => {
            if v.in_sequence(msg) {
                let v1 = v.validated(msg);
                let v2 = v1.acted();
                (v2.notified(), Ok((v1.dispatches(), v2.notification())))
            } else {
                (v, Err(msg))
            }
        },
        _ => (v.configured(msg), Ok((Seq::empty(), None))),
    }
}

/// AsyncForwarder implements a forwarder which can forward received messages and
/// notify a receiver when it has received a configured number of messages.
pub struct AsyncForwarder<S> {
    /// An id, mostly used for logging.
    id: usize,
    /// Collection of senders, each will be sent any received message.
    senders: Vec<S>,
    /// The count of messages received by this forwarder.
    received_count: usize,
    /// The count of messages sent by this forwarder.
    send_count: usize,
    /// Compared against received_count for means of notification.
    notify_count: usize,
    /// Sent a TestData message with the data being the number of messages received.
    notify_sender: Option<S>,
    /// Forwarding multiplier.
    forwarding_multiplier: usize,
    /// For TestData, this is the next in sequence.
    next_seq: usize,
}

impl<S> View for AsyncForwarder<S> {
    type V = AsyncForwarderView<S>;

    closed spec fn view(&self) -> AsyncForwarderView<S> {
        AsyncForwarderView {
            id: self.id,
            senders: self.senders@,
            received_count: self.received_count,
            send_count: self.send_count,
            notify_count: self.notify_count,
            notify_sender: self.notify_sender,
            forwarding_multiplier: self.forwarding_multiplier,
            next_seq: self.next_seq,
        }
    }
}

impl<S> AsyncForwarder<S> {
    /// Construct a new AsyncForwarder.
    pub fn new(id: usize) -> (f: Self)
        ensures
            f@ == (AsyncForwarderView::<S> {
                id,
                senders: Seq::empty(),
                received_count: 0,
                send_count: 0,
                notify_count: 0,
                notify_sender: None,
                forwarding_multiplier: 1,
                next_seq: 0,
            }),
    {
        AsyncForwarder {
            id,
            senders: Vec::new(),
            received_count: 0,
            send_count: 0,
            notify_count: 0,
            notify_sender: None,
            forwarding_multiplier: 1,
            next_seq: 0,
        }
    }

    /// Get the id.
    pub fn id(&self) -> (i: usize)
        ensures
            i == self@.id,
    {
        self.id
    }

    /// Get the number of senders messages are forwarded to.
    pub fn sender_count(&self) -> (n: usize)
        ensures
            n == self@.senders.len(),
    {
        self.senders.len()
    }

    /// Get the sender at `index`.
    pub fn sender(&self, index: usize) -> (s: &S)
        requires
            index < self@.senders.len(),
        ensures
            *s == self@.senders[index as int],
    {
        &self.senders[index]
    }

    /// Get the notifier, if one was configured.
    pub fn notifier(&self) -> (s: Option<&S>)
        ensures
            s is Some <==> self@.notify_sender is Some,
            s is Some ==> *s->0 == self@.notify_sender->0,
    {
        match &self.notify_sender {
            Some(s) => Some(s),
            None => None,
        }
    }

    /// Whether handling `msg` in full would overflow a counter: the caller tests
    /// this first and fails there, as the unchecked increments would.
    pub fn receive_overflows(&self, msg: &TestMessage<S>) -> (b: bool)
        ensures
            b == self@.receive_overflows(*msg),
    {
        match msg {
            TestMessage::TestData(seq) => {
                let seq = *seq;
                let accepted = self.senders.len() == 0 || seq == self.next_seq || seq == 0;
                if !accepted {
                    false
                } else if self.received_count == usize::MAX {
                    true
                } else if self.senders.len() > 0 && seq == self.next_seq && seq == usize::MAX {
                    true
                } else {
                    let n = self.senders.len();
                    let m = self.forwarding_multiplier;
                    if n == 0 || m == 0 {
                        false
                    } else {
                        // n * m fits when m <= (MAX - send_count) / n does
                        let room = usize::MAX - self.send_count;
                        let fits = m <= room / n;
                        proof {
                            let q = room / n;
                            vstd::arithmetic::div_mod::lemma_fundamental_div_mod(room as int, n as int);
                            let r = room % n;
                            assert(room == n * q + r);
                            assert(0 <= r < n) by {
                                vstd::arithmetic::div_mod::lemma_mod_bound(room as int, n as int);
                            }
                            if m <= q {
                                assert(n * m <= n * q) by (nonlinear_arith)
                                    requires m <= q, n > 0;
                            } else {
                                assert(n * m >= n * (q + 1)) by (nonlinear_arith)
                                    requires m >= q + 1, n > 0;
                                assert(n * (q + 1) == n * q + n) by (nonlinear_arith);
                            }
                            assert(self@.dispatch_count() == n * m) by (nonlinear_arith)
                                requires self@.senders.len() == n, self@.forwarding_multiplier == m;
                        }
                        !fits
                    }
                }
            },
            _ => false,
        }
    }

    /// If msg is TestData, validate the sequence or reset if 0. A forwarder without
    /// senders accepts everything and counts it.
    pub fn validate_sequence(&mut self, msg: TestMessage<S>) -> (r: Result<TestMessage<S>, TestMessage<S>>)
        requires
            !old(self)@.validation_overflows(msg),
        ensures
            old(self)@.in_sequence(msg) ==> r == Ok::<TestMessage<S>, TestMessage<S>>(msg) && final(self)@ == old(self)@.validated(msg),
            !old(self)@.in_sequence(msg) ==> r == Err::<TestMessage<S>, TestMessage<S>>(msg) && final(self)@ == old(self)@,
    {
        if self.senders.len() == 0 {
            self.received_count = self.received_count + 1;
            return Ok(msg);
        }
        match msg {
            TestMessage::TestData(seq) => {
                if seq == self.next_seq {
                    self.next_seq = self.next_seq + 1;
                } else if seq == 0 {
                    self.next_seq = 1;
                } else {
                    return Err(msg);
                }
            },
            _ => {},
        }
        self.received_count = self.received_count + 1;
        Ok(msg)
    }

    /// If msg is a configuration msg, handle it, otherwise return it as an error.
    pub fn handle_config(&mut self, msg: TestMessage<S>) -> (r: Result<(), TestMessage<S>>)
        ensures
            msg is TestData ==> r == Err::<(), TestMessage<S>>(msg),
            !(msg is TestData) ==> r is Ok,
            final(self)@ == old(self)@.configured(msg),
    {
        match msg {
            TestMessage::Notify(sender, on_receive_count) => {
                self.notify_sender = Some(sender);
                self.notify_count = on_receive_count;
            },
            TestMessage::AddSender(sender) => {
                self.senders.push(sender);
            },
            msg => return Err(msg),
        }
        Ok(())
    }

    /// Handle the action messages: for each sender, `forwarding_multiplier`
    /// messages numbered by the send counter, which counts them.
    pub fn handle_action(&mut self, cmd: TestMessage<S>) -> (out: Vec<Dispatch>)
        requires
            cmd is TestData,
            !old(self)@.action_overflows(),
        ensures
            out@ == old(self)@.dispatches(),
            final(self)@ == old(self)@.acted(),
    {
        let ghost v0 = self@;
        let n = self.senders.len();
        let m = self.forwarding_multiplier;
        let mut out: Vec<Dispatch> = Vec::new();
        let mut i: usize = 0;
        while i < n
            invariant
                v0 == old(self)@,
                !v0.action_overflows(),
                n == v0.senders.len(),
                m == v0.forwarding_multiplier,
                i <= n,
                self@ == (AsyncForwarderView { send_count: self@.send_count, ..v0 }),
                self@.send_count == v0.send_count + i * m,
                out@.len() == i * m,
                forall|j: int| 0 <= j < out@.len() ==> #[trigger] out@[j] == v0.dispatch_at(j),
            decreases n - i,
        {
            proof {
                assert((i + 1) * m <= n * m) by (nonlinear_arith)
                    requires i < n;
                assert((i + 1) * m == i * m + m) by (nonlinear_arith);
            }
            let mut k: usize = 0;
            while k < m
                invariant
                    v0 == old(self)@,
                    !v0.action_overflows(),
                    n == v0.senders.len(),
                    m == v0.forwarding_multiplier,
                    i < n,
                    k <= m,
                    (i + 1) * m <= n * m,
                    self@ == (AsyncForwarderView { send_count: self@.send_count, ..v0 }),
                    self@.send_count == v0.send_count + i * m + k,
                    out@.len() == i * m + k,
                    forall|j: int| 0 <= j < out@.len() ==> #[trigger] out@[j] == v0.dispatch_at(j),
                decreases m - k,
            {
                proof {
                    lemma_fundamental_div_mod_converse(i * m + k, m as int, i as int, k as int);
                    assert(i * m + k < (i + 1) * m) by (nonlinear_arith)
                        requires k < m;
                }
                out.push(Dispatch { sender: i, seq: self.send_count });
                self.send_count = self.send_count + 1;
                k = k + 1;
            }
            proof {
                assert((i + 1) * m == i * m + m) by (nonlinear_arith);
            }
            i = i + 1;
        }
        proof {
            assert(out@ =~= v0.dispatches());
        }
        out
    }

    /// Handle the notification check: when the received count equals the notification
    /// count, clear the counters, and return the count to send when a notifier is set.
    pub fn handle_notification(&mut self) -> (r: Option<usize>)
        ensures
            r == old(self)@.notification(),
            final(self)@ == old(self)@.notified(),
            r is Some ==> final(self)@.notify_sender is Some,
    {
        if self.received_count == self.notify_count {
            let count = self.get_and_clear_received_count();
            if self.notify_sender.is_some() {
                Some(count)
            } else {
                None
            }
        } else {
            None
        }
    }

    /// Get the current received count and clear the counters.
    fn get_and_clear_received_count(&mut self) -> (c: usize)
        ensures
            c == old(self)@.received_count,
            final(self)@ == (AsyncForwarderView { received_count: 0, send_count: 0, ..old(self)@ }),
    {
        let received_count = self.received_count;
        self.received_count = 0;
        self.send_count = 0;
        received_count
    }

    /// Whether `msg` passes the sequence check: the caller tests this before
    /// `receive` and fails there.
    pub fn in_sequence(&self, msg: &TestMessage<S>) -> (b: bool)
        ensures
            b == self@.in_sequence(*msg),
    {
        match msg {
            TestMessage::TestData(seq) => self.senders.len() == 0 || *seq == self.next_seq || *seq == 0,
            _ => true,
        }
    }

    /// Handle a received command as the driver tasks do: configuration is applied;
    /// data is checked for sequence, acted on, then checked for notification. Data
    /// out of sequence is a failure of the caller's (test it with `in_sequence`).
    pub fn receive(&mut self, cmd: TestMessage<S>) -> (r: Reaction)
        requires
            !old(self)@.receive_overflows(cmd),
            old(self)@.in_sequence(cmd),
        ensures
            final(self)@ == async_receive_step(old(self)@, cmd).0,
            match async_receive_step(old(self)@, cmd).1 {
                Ok((forwards, notification)) => r.forwards@ == forwards && r.notification == notification,
                Err(_) => false,
            },
            r.notification is Some ==> final(self)@.notify_sender is Some,
    {
        match self.handle_config(cmd) {
            Ok(_) => Reaction { forwards: Vec::new(), notification: None },
            Err(msg) => match self.validate_sequence(msg) {
                Ok(msg) => {
                    let forwards = self.handle_action(msg);
                    let notification = self.handle_notification();
                    Reaction { forwards, notification }
                },
                Err(_) => Reaction { forwards: Vec::new(), notification: None },
            },
        }
    }
}

} // verus!
