//! How the experiments wire their pipelines together. Each lane is a pipeline
//! of stages; the stages of a lane are numbered from 1, as are the lanes; every
//! lane ends in the common concentrator, which tells the notifier when a round
//! is complete. The functions here compute the wiring that a driver's setup
//! performs: which configuration message goes to which stage, which stage
//! forwards to which, and which senders drive the lanes.
use vstd::prelude::*;

verus! {

/// A channel endpoint of an experiment.
#[derive(Debug, Copy, Clone, PartialEq, Eq, Hash, Structural)]
pub enum Node {
    /// The concentrator every lane ends in.
    Concentrator,
    /// The notifier the concentrator reports to.
    Notifier,
    /// The stage `pipeline` of lane `lane`.
    Stage { lane: usize, pipeline: usize },
}

/// A configuration message of the wiring.
#[derive(Debug, Copy, Clone, PartialEq, Eq, Structural)]
pub enum Instruction {
    /// `to` is sent `AddSender(sender)`.
    AddSender { to: Node, sender: Node },
    /// `to` is sent `Notify(notifier, count)`.
    Notify { to: Node, notifier: Node, count: usize },
}

/// A task that receives from a stage and sends on whatever arrives.
#[derive(Debug, Copy, Clone, PartialEq, Eq, Structural)]
pub struct Relay {
    pub from: Node,
    pub to: Node,
    pub pipeline: usize,
    pub lane: usize,
}

/// The wiring of an experiment whose stages are configured by messages.
pub struct Wiring {
    /// The configuration messages, in the order they are sent.
    pub instructions: Vec<Instruction>,
    /// The senders that drive the lanes, in order.
    pub heads: Vec<Node>,
}

/// The wiring of an experiment whose stages are plain relay tasks.
pub struct RelayWiring {
    /// The relay tasks, in the order they are spawned.
    pub relays: Vec<Relay>,
    /// The senders that drive the lanes, in order.
    pub heads: Vec<Node>,
}

/// The stage `pipeline` of lane `lane`.
pub open spec fn stage(lane: int, pipeline: int) -> Node {
    Node::Stage { lane: lane as usize, pipeline: pipeline as usize }
}

// ---------------------------------------------------------------------------
// Daisy chains: the first stage of a lane is its head, each stage is given the
// next one as its sender, and the last one is told to notify the concentrator.

/// The configuration messages of lane `l` in a daisy chain of `p` stages.
pub open spec fn chain_lane(l: int, p: nat, messages: usize) -> Seq<Instruction> {
    Seq::new(p, |k: int| if k + 1 < p {
        Instruction::AddSender { to: stage(l, k + 1), sender: stage(l, k + 2) }
    } else {
        Instruction::Notify { to: stage(l, p as int), notifier: Node::Concentrator, count: messages }
    })
}

/// The configuration messages of the first `lanes` lanes of a daisy chain.
pub open spec fn chain_lanes(lanes: nat, p: nat, messages: usize) -> Seq<Instruction>
    decreases lanes,
{
    if lanes == 0 {
        Seq::empty()
    } else {
        chain_lanes((lanes - 1) as nat, p, messages) + chain_lane(lanes as int, p, messages)
    }
}

/// Build the daisy chains of `lanes` lanes of `pipelines` stages each: every
/// lane's first stage is its head; each stage is sent `AddSender` of the next;
/// the last is sent `Notify(concentrator, messages)`; finally the concentrator is
/// sent `Notify(notifier, lanes)`. Lanes without stages have no last stage to tell,
/// so at least one stage is needed when there is a lane.
pub fn chain_wiring(pipelines: usize, lanes: usize, messages: usize) -> (w: Wiring)
    requires
        lanes == 0 || pipelines > 0,
    ensures
        w.instructions@ == chain_lanes(lanes as nat, pipelines as nat, messages).push(
            Instruction::Notify { to: Node::Concentrator, notifier: Node::Notifier, count: lanes },
        ),
        w.heads@ == Seq::new(lanes as nat, |i: int| stage(i + 1, 1)),
{
    let mut instructions: Vec<Instruction> = Vec::new();
    let mut heads: Vec<Node> = Vec::new();
    let mut l: usize = 0;
    while l < lanes
        invariant
            l <= lanes,
            lanes == 0 || pipelines > 0,
            instructions@ == chain_lanes(l as nat, pipelines as nat, messages),
            heads@ == Seq::new(l as nat, |i: int| stage(i + 1, 1)),
        decreases lanes - l,
    {
        let lane = l + 1;
        let ghost before = instructions@;
        let mut prev: Option<Node> = None;
        let mut id: usize = 0;
        while id < pipelines
            invariant
                l < lanes,
                lane == l + 1,
                id <= pipelines,
                id == 0 <==> prev is None,
                id > 0 ==> prev == Some(stage(lane as int, id as int)),
                instructions@ == before + chain_lane(lane as int, pipelines as nat, messages).take(
                    if id == 0 { 0 } else { id - 1 },
                ),
                heads@ == Seq::new(l as nat, |i: int| stage(i + 1, 1)) + (if id == 0 {
                    Seq::<Node>::empty()
                } else {
                    seq![stage(lane as int, 1)]
                }),
            decreases pipelines - id,
        {
            let s = Node::Stage { lane, pipeline: id + 1 };
            match prev {
                Some(p) => {
                    instructions.push(Instruction::AddSender { to: p, sender: s });
                },
                None => {
                    heads.push(s);
                },
            }
            proof {
                let cl = chain_lane(lane as int, pipelines as nat, messages);
                if id > 0 {
                    assert(cl.take(id as int) =~= cl.take(id - 1).push(cl[id - 1]));
                }
            }
            prev = Some(s);
            id = id + 1;
        }
        match prev {
            Some(p) => {
                instructions.push(Instruction::Notify { to: p, notifier: Node::Concentrator, count: messages });
            },
            None => {},
        }
        proof {
            let cl = chain_lane(lane as int, pipelines as nat, messages);
            assert(cl.take(pipelines - 1).push(cl[pipelines - 1]) =~= cl);
            assert(heads@ =~= Seq::new((l + 1) as nat, |i: int| stage(i + 1, 1)));
        }
        l = lane;
    }
    instructions.push(Instruction::Notify { to: Node::Concentrator, notifier: Node::Notifier, count: lanes });
    Wiring { instructions, heads }
}

// ---------------------------------------------------------------------------
// Stacked lanes: the senders of a lane and the concentrator are pushed on a
// stack, and each sender popped off is added to the one below it, until only
// the lane's head sender is left.

/// The senders of lane `l` as they are stacked: its stages in order, then the concentrator.
pub open spec fn stacked_lane(l: int, p: nat) -> Seq<Node> {
    Seq::new(p + 1, |i: int| if i < p { stage(l, i + 1) } else { Node::Concentrator })
}

/// The `AddSender` messages of lane `l`, in the order they are sent: the `k`-th
/// pop adds the sender popped to the one below it, so the last stage is given the
/// concentrator and every other stage the next one.
pub open spec fn stacked_lane_instructions(l: int, p: nat) -> Seq<Instruction> {
    Seq::new(p, |k: int| Instruction::AddSender {
        to: stacked_lane(l, p)[p - 1 - k],
        sender: stacked_lane(l, p)[p - k],
    })
}

/// The sender left on the stack for lane `l`, which drives it: its first stage,
/// or the concentrator when the lane has no stages.
pub open spec fn stacked_lane_heads(l: int, p: nat) -> Seq<Node> {
    stacked_lane(l, p).take(1)
}

/// The `AddSender` messages of the first `lanes` lanes.
pub open spec fn stacked_instructions(lanes: nat, p: nat) -> Seq<Instruction>
    decreases lanes,
{
    if lanes == 0 {
        Seq::empty()
    } else {
        stacked_instructions((lanes - 1) as nat, p) + stacked_lane_instructions(lanes as int, p)
    }
}

/// The senders left on the stack by the first `lanes` lanes.
pub open spec fn stacked_heads(lanes: nat, p: nat) -> Seq<Node>
    decreases lanes,
{
    if lanes == 0 {
        Seq::empty()
    } else {
        stacked_heads((lanes - 1) as nat, p) + stacked_lane_heads(lanes as int, p)
    }
}

/// Build the wiring of the forwarder experiments (flume with async-executor, and
/// tokio): for each lane, the stage senders and then the concentrator are pushed
/// on a stack; once per stage, the top sender is popped and added, by `AddSender`,
/// to the sender now on top. What stays on the stack is just the head sender of
/// each lane. Finally the concentrator is sent `Notify(notifier, lanes * messages)`.
pub fn stacked_wiring(pipelines: usize, lanes: usize, messages: usize) -> (w: Wiring)
    requires
        lanes * messages <= usize::MAX,
    ensures
        w.instructions@ == stacked_instructions(lanes as nat, pipelines as nat).push(
            Instruction::Notify { to: Node::Concentrator, notifier: Node::Notifier, count: (lanes * messages) as usize },
        ),
        w.heads@ == stacked_heads(lanes as nat, pipelines as nat),
{
    let mut instructions: Vec<Instruction> = Vec::new();
    let mut senders: Vec<Node> = Vec::new();
    let ghost p = pipelines as nat;
    let mut l: usize = 0;
    while l < lanes
        invariant
            l <= lanes,
            p == pipelines,
            instructions@ == stacked_instructions(l as nat, p),
            senders@ == stacked_heads(l as nat, p),
        decreases lanes - l,
    {
        let lane = l + 1;
        let ghost below = senders@;
        let ghost before = instructions@;
        let ghost chain = stacked_lane(lane as int, p);
        let mut i: usize = 0;
        while i < pipelines
            invariant
                lane == l + 1,
                i <= pipelines,
                p == pipelines,
                chain == stacked_lane(lane as int, p),
                senders@ == below + chain.take(i as int),
                instructions@ == before,
            decreases pipelines - i,
        {
            senders.push(Node::Stage { lane, pipeline: i + 1 });
            proof {
                assert(chain.take(i + 1) =~= chain.take(i as int).push(chain[i as int]));
            }
            i = i + 1;
        }
        senders.push(Node::Concentrator);
        proof {
            assert(chain.take(pipelines as int).push(Node::Concentrator) =~= chain.take(p + 1 - 0));
        }
        let pop_count: usize = pipelines;
        let mut k: usize = 0;
        while k < pop_count
            invariant
                lane == l + 1,
                p == pipelines,
                pop_count == p,
                k <= pop_count,
                chain == stacked_lane(lane as int, p),
                senders@ == below + chain.take(p + 1 - k),
                instructions@ == before + stacked_lane_instructions(lane as int, p).take(k as int),
            decreases pop_count - k,
        {
            let sender = senders.pop().unwrap();
            let last_sender = *senders.last().unwrap();
            instructions.push(Instruction::AddSender { to: last_sender, sender });
            proof {
                let li = stacked_lane_instructions(lane as int, p);
                assert(li.take(k + 1) =~= li.take(k as int).push(li[k as int]));
                assert(chain.take(p + 1 - (k + 1)) =~= chain.take(p + 1 - k).drop_last());
            }
            k = k + 1;
        }
        proof {
            let li = stacked_lane_instructions(lane as int, p);
            assert(li.take(p as int) =~= li);
        }
        l = lane;
    }
    instructions.push(Instruction::Notify { to: Node::Concentrator, notifier: Node::Notifier, count: lanes * messages });
    Wiring { instructions, heads: senders }
}

// ---------------------------------------------------------------------------
// Relay lanes: stage channels are pushed on a stack with the concentrator's
// sender on top; popping them in pairs starts a relay from each stage to the next.

/// The relays of lane `l`: the `k`-th one popped relays stage `p - k` to the
/// sender above it on the stack.
pub open spec fn relay_lane(l: int, p: nat) -> Seq<Relay> {
    Seq::new(p, |k: int| Relay {
        from: stage(l, p - k),
        to: stacked_lane(l, p)[p - k],
        pipeline: (p - k) as usize,
        lane: l as usize,
    })
}

/// The relays of the first `lanes` lanes.
pub open spec fn relays(lanes: nat, p: nat) -> Seq<Relay>
    decreases lanes,
{
    if lanes == 0 {
        Seq::empty()
    } else {
        relays((lanes - 1) as nat, p) + relay_lane(lanes as int, p)
    }
}

/// The senders that drive the first `lanes` lanes: each lane's first stage, or the
/// concentrator itself when a lane has no stages.
pub open spec fn relay_heads(lanes: nat, p: nat) -> Seq<Node>
    decreases lanes,
{
    if lanes == 0 {
        Seq::empty()
    } else {
        relay_heads((lanes - 1) as nat, p) + stacked_lane(lanes as int, p).take(1)
    }
}

/// Build the wiring of the smol experiment: for each lane the stage channels are
/// pushed (senders and receivers on two stacks), then the concentrator's sender;
/// for each stage from the last to the first, a sender and a receiver are popped
/// and a relay from that receiver to that sender is started. What stays on the
/// sender stack drives the lanes.
pub fn relay_wiring(pipelines: usize, lanes: usize) -> (w: RelayWiring)
    ensures
        w.relays@ == relays(lanes as nat, pipelines as nat),
        w.heads@ == relay_heads(lanes as nat, pipelines as nat),
{
    let mut relays_out: Vec<Relay> = Vec::new();
    let mut senders: Vec<Node> = Vec::new();
    let mut receivers: Vec<Node> = Vec::new();
    let ghost p = pipelines as nat;
    let mut l: usize = 0;
    while l < lanes
        invariant
            l <= lanes,
            p == pipelines,
            relays_out@ == relays(l as nat, p),
            senders@ == relay_heads(l as nat, p),
            receivers@ == Seq::<Node>::empty(),
        decreases lanes - l,
    {
        let lane = l + 1;
        let ghost below = senders@;
        let ghost before = relays_out@;
        let ghost chain = stacked_lane(lane as int, p);
        let mut i: usize = 0;
        while i < pipelines
            invariant
                lane == l + 1,
                i <= pipelines,
                p == pipelines,
                chain == stacked_lane(lane as int, p),
                senders@ == below + chain.take(i as int),
                receivers@ == chain.take(i as int),
                relays_out@ == before,
            decreases pipelines - i,
        {
            let s = Node::Stage { lane, pipeline: i + 1 };
            senders.push(s);
            receivers.push(s);
            proof {
                assert(chain.take(i + 1) =~= chain.take(i as int).push(chain[i as int]));
            }
            i = i + 1;
        }
        senders.push(Node::Concentrator);
        proof {
            assert(chain.take(pipelines as int).push(Node::Concentrator) =~= chain.take((p + 1) as int));
        }
        let mut pipeline: usize = pipelines;
        while pipeline > 0
            invariant
                lane == l + 1,
                p == pipelines,
                pipeline <= pipelines,
                chain == stacked_lane(lane as int, p),
                senders@ == below + chain.take(pipeline + 1),
                receivers@ == chain.take(pipeline as int),
                relays_out@ == before + relay_lane(lane as int, p).take(p - pipeline),
            decreases pipeline,
        {
            let sender = senders.pop().unwrap();
            let receiver = receivers.pop().unwrap();
            relays_out.push(Relay { from: receiver, to: sender, pipeline, lane });
            proof {
                let rl = relay_lane(lane as int, p);
                let k = p - pipeline;
                assert(rl.take(k + 1) =~= rl.take(k).push(rl[k]));
                assert(chain.take(pipeline as int) =~= chain.take(pipeline + 1).drop_last());
                assert(chain.take(pipeline - 1) =~= chain.take(pipeline as int).drop_last());
            }
            pipeline = pipeline - 1;
        }
        proof {
            let rl = relay_lane(lane as int, p);
            assert(rl.take(p as int) =~= rl);
            assert(receivers@ =~= Seq::<Node>::empty());
        }
        l = lane;
    }
    RelayWiring { relays: relays_out, heads: senders }
}

// ---------------------------------------------------------------------------
// Where each stage sends.

proof fn lemma_chain_lanes_contains(lanes: nat, p: nat, messages: usize, l: int, k: int)
    requires
        1 <= l <= lanes,
        0 <= k < p,
    ensures
        chain_lanes(lanes, p, messages).contains(chain_lane(l, p, messages)[k]),
    decreases lanes,
{
    let prev = chain_lanes((lanes - 1) as nat, p, messages);
    let all = chain_lanes(lanes, p, messages);
    if l == lanes {
        assert(all[prev.len() + k] == chain_lane(l, p, messages)[k]);
    } else {
        lemma_chain_lanes_contains((lanes - 1) as nat, p, messages, l, k);
        let i = choose|i: int| 0 <= i < prev.len() && prev[i] == chain_lane(l, p, messages)[k];
        assert(all[i] == prev[i]);
    }
}

/// In a daisy chain, in every lane each stage is given the next stage as its
/// sender, and the last stage is told to notify the concentrator after the lane's messages.
pub proof fn lemma_chain_links_each_stage_to_the_next(pipelines: usize, lanes: usize, messages: usize, l: int, k: int)
    requires
        1 <= l <= lanes,
        1 <= k <= pipelines,
    ensures
        k < pipelines ==> chain_lanes(lanes as nat, pipelines as nat, messages).contains(
            Instruction::AddSender { to: stage(l, k), sender: stage(l, k + 1) },
        ),
        k == pipelines ==> chain_lanes(lanes as nat, pipelines as nat, messages).contains(
            Instruction::Notify { to: stage(l, k), notifier: Node::Concentrator, count: messages },
        ),
{
    lemma_chain_lanes_contains(lanes as nat, pipelines as nat, messages, l, k - 1);
}

proof fn lemma_stacked_instructions_contains(lanes: nat, p: nat, l: int, k: int)
    requires
        1 <= l <= lanes,
        0 <= k < p,
    ensures
        stacked_instructions(lanes, p).contains(stacked_lane_instructions(l, p)[k]),
    decreases lanes,
{
    let prev = stacked_instructions((lanes - 1) as nat, p);
    let all = stacked_instructions(lanes, p);
    if l == lanes {
        assert(all[prev.len() + k] == stacked_lane_instructions(l, p)[k]);
    } else {
        lemma_stacked_instructions_contains((lanes - 1) as nat, p, l, k);
        let i = choose|i: int| 0 <= i < prev.len() && prev[i] == stacked_lane_instructions(l, p)[k];
        assert(all[i] == prev[i]);
    }
}

/// In the stacked wiring, in every lane each stage is given the next stage as its
/// sender and the last stage is given the concentrator.
pub proof fn lemma_stacked_links_each_stage_to_the_next(pipelines: usize, lanes: usize, l: int, k: int)
    requires
        1 <= l <= lanes,
        1 <= k <= pipelines,
    ensures
        k < pipelines ==> stacked_instructions(lanes as nat, pipelines as nat).contains(
            Instruction::AddSender { to: stage(l, k), sender: stage(l, k + 1) },
        ),
        k == pipelines ==> stacked_instructions(lanes as nat, pipelines as nat).contains(
            Instruction::AddSender { to: stage(l, k), sender: Node::Concentrator },
        ),
{
    let p = pipelines as nat;
    lemma_stacked_instructions_contains(lanes as nat, p, l, p - k);
}

/// In the stacked wiring one sender drives each lane: its first stage, or the
/// concentrator when lanes have no stages.
pub proof fn lemma_stacked_one_head_per_lane(pipelines: usize, lanes: nat)
    ensures
        stacked_heads(lanes, pipelines as nat) == Seq::new(lanes, |i: int| if pipelines > 0 {
            stage(i + 1, 1)
        } else {
            Node::Concentrator
        }),
    decreases lanes,
{
    if lanes > 0 {
        lemma_stacked_one_head_per_lane(pipelines, (lanes - 1) as nat);
        assert(stacked_heads(lanes, pipelines as nat) =~= Seq::new(lanes, |i: int| if pipelines > 0 {
            stage(i + 1, 1)
        } else {
            Node::Concentrator
        }));
    } else {
        assert(stacked_heads(lanes, pipelines as nat) =~= Seq::new(lanes, |i: int| if pipelines > 0 {
            stage(i + 1, 1)
        } else {
            Node::Concentrator
        }));
    }
}

proof fn lemma_relays_contains(lanes: nat, p: nat, l: int, k: int)
    requires
        1 <= l <= lanes,
        0 <= k < p,
    ensures
        relays(lanes, p).contains(relay_lane(l, p)[k]),
    decreases lanes,
{
    let prev = relays((lanes - 1) as nat, p);
    let all = relays(lanes, p);
    if l == lanes {
        assert(all[prev.len() + k] == relay_lane(l, p)[k]);
    } else {
        lemma_relays_contains((lanes - 1) as nat, p, l, k);
        let i = choose|i: int| 0 <= i < prev.len() && prev[i] == relay_lane(l, p)[k];
        assert(all[i] == prev[i]);
    }
}

/// In the relay wiring, in every lane each stage relays to the next one, and the
/// last stage relays to the concentrator.
pub proof fn lemma_relays_link_each_stage_to_the_next(pipelines: usize, lanes: usize, l: int, k: int)
    requires
        1 <= l <= lanes,
        1 <= k <= pipelines,
    ensures
        k < pipelines ==> relays(lanes as nat, pipelines as nat).contains(
            Relay { from: stage(l, k), to: stage(l, k + 1), pipeline: k as usize, lane: l as usize },
        ),
        k == pipelines ==> relays(lanes as nat, pipelines as nat).contains(
            Relay { from: stage(l, k), to: Node::Concentrator, pipeline: k as usize, lane: l as usize },
        ),
{
    let p = pipelines as nat;
    lemma_relays_contains(lanes as nat, p, l, p - k);
}

// ---------------------------------------------------------------------------
// How many instructions and relays there are, and who drives the lanes.

/// The daisy chain sends one configuration message to each stage of each lane,
/// and nothing else: with the stage links it contains, this makes each stage
/// addressed exactly once.
pub proof fn lemma_chain_addresses_each_stage_once(lanes: nat, p: nat, messages: usize)
    ensures
        chain_lanes(lanes, p, messages).len() == lanes * p,
    decreases lanes,
{
    if lanes > 0 {
        lemma_chain_addresses_each_stage_once((lanes - 1) as nat, p, messages);
        assert(((lanes - 1) as nat) * p + p == lanes * p) by (nonlinear_arith)
            requires
                lanes > 0,
        ;
    } else {
        assert(lanes * p == 0) by (nonlinear_arith)
            requires
                lanes == 0,
        ;
    }
}

/// The whole daisy chain wiring: one message per stage and the concentrator's
/// notification, and one head per lane, the lane's first stage.
pub proof fn lemma_chain_wiring_shape(pipelines: usize, lanes: usize, messages: usize)
    ensures
        chain_lanes(lanes as nat, pipelines as nat, messages).push(
            Instruction::Notify { to: Node::Concentrator, notifier: Node::Notifier, count: lanes },
        ).len() == lanes * pipelines + 1,
{
    lemma_chain_addresses_each_stage_once(lanes as nat, pipelines as nat, messages);
}

/// The stacked wiring gives each stage of each lane one sender and sends no
/// other `AddSender`: with the stage links it contains, this makes each stage
/// given exactly one sender.
pub proof fn lemma_stacked_addresses_each_stage_once(lanes: nat, p: nat)
    ensures
        stacked_instructions(lanes, p).len() == lanes * p,
        forall|i: int| 0 <= i < stacked_instructions(lanes, p).len() ==> #[trigger] stacked_instructions(lanes, p)[i] is AddSender,
    decreases lanes,
{
    if lanes > 0 {
        lemma_stacked_addresses_each_stage_once((lanes - 1) as nat, p);
        assert(((lanes - 1) as nat) * p + p == lanes * p) by (nonlinear_arith)
            requires
                lanes > 0,
        ;
        let prev = stacked_instructions((lanes - 1) as nat, p);
        let all = stacked_instructions(lanes, p);
        assert forall|i: int| 0 <= i < all.len() implies #[trigger] all[i] is AddSender by {
            if i < prev.len() {
                assert(prev[i] is AddSender);
            } else {
                assert(all[i] == stacked_lane_instructions(lanes as int, p)[i - prev.len()]);
            }
        }
    } else {
        assert(lanes * p == 0) by (nonlinear_arith)
            requires
                lanes == 0,
        ;
    }
}

/// The relay wiring starts one relay per stage of each lane and no other: with
/// the stage links it contains, this makes each stage relayed exactly once.
pub proof fn lemma_relays_one_per_stage(lanes: nat, p: nat)
    ensures
        relays(lanes, p).len() == lanes * p,
    decreases lanes,
{
    if lanes > 0 {
        lemma_relays_one_per_stage((lanes - 1) as nat, p);
        assert(((lanes - 1) as nat) * p + p == lanes * p) by (nonlinear_arith)
            requires
                lanes > 0,
        ;
    } else {
        assert(lanes * p == 0) by (nonlinear_arith)
            requires
                lanes == 0,
        ;
    }
}

/// In the relay wiring one sender drives each lane, in lane order: the lane's
/// first stage, or the concentrator when lanes have no stages.
pub proof fn lemma_relay_one_head_per_lane(pipelines: usize, lanes: nat)
    ensures
        relay_heads(lanes, pipelines as nat) == Seq::new(lanes, |i: int| if pipelines > 0 {
            stage(i + 1, 1)
        } else {
            Node::Concentrator
        }),
    decreases lanes,
{
    if lanes > 0 {
        lemma_relay_one_head_per_lane(pipelines, (lanes - 1) as nat);
    }
    assert(relay_heads(lanes, pipelines as nat) =~= Seq::new(lanes, |i: int| if pipelines > 0 {
        stage(i + 1, 1)
    } else {
        Node::Concentrator
    }));
}

} // verus!
