//! Whole experiments run synchronously: messages are queued and delivered in
//! order instead of through channels and tasks.
use std::collections::{HashMap, VecDeque};

use experiment_lib::async_forwarder::{AsyncForwarder, TestMessage};
use experiment_lib::concentrator::Concentrator;
use experiment_lib::forwarder::{Builder, Forwarder, FwdMessage};
use experiment_lib::wiring::{chain_wiring, relay_wiring, stacked_wiring, Instruction, Node};

/// Run a forwarder experiment wired by `stacked_wiring`; returns what the notifier received.
fn run_stacked(pipelines: usize, lanes: usize, messages: usize) -> Vec<usize> {
    let mut forwarders: HashMap<Node, Forwarder<Node>> = HashMap::new();
    forwarders.insert(Node::Concentrator, Builder::new().build());
    for lane in 1..=lanes {
        for pipeline in 1..=pipelines {
            forwarders.insert(Node::Stage { lane, pipeline }, Builder::new().pipeline(pipeline).lane(lane).build());
        }
    }
    let wiring = stacked_wiring(pipelines, lanes, messages);
    let mut queue: VecDeque<(Node, FwdMessage<Node>)> = VecDeque::new();
    for i in wiring.instructions {
        match i {
            Instruction::AddSender { to, sender } => queue.push_back((to, FwdMessage::AddSender(sender))),
            Instruction::Notify { to, notifier, count } => queue.push_back((to, FwdMessage::Notify(notifier, count))),
        }
    }
    for msg_id in 0..messages {
        for head in &wiring.heads {
            queue.push_back((*head, FwdMessage::TestData(msg_id)));
        }
    }
    let mut notified = Vec::new();
    while let Some((to, msg)) = queue.pop_front() {
        if to == Node::Notifier {
            if let FwdMessage::TestData(n) = msg {
                notified.push(n);
            }
            continue;
        }
        let f = forwarders.get_mut(&to).unwrap();
        assert!(f.in_sequence(&msg), "sequence error");
        let r = f.receive(msg);
        for d in r.forwards {
            queue.push_back((*f.sender(d.sender), FwdMessage::TestData(d.seq)));
        }
        if let Some(count) = r.notification {
            queue.push_back((*f.notifier().unwrap(), FwdMessage::TestData(count)));
        }
    }
    notified
}

#[test]
fn stacked_experiment_notifies_once_with_all_messages() {
    assert_eq!(run_stacked(5, 4, 10), vec![40]);
    assert_eq!(run_stacked(2, 3, 7), vec![21]);
    assert_eq!(run_stacked(1, 3, 7), vec![21]);
    assert_eq!(run_stacked(0, 2, 5), vec![10]);
}

/// Run an experiment of the earlier forwarders wired by `chain_wiring`; returns what the notifier received.
fn run_chain(pipelines: usize, lanes: usize, messages: usize) -> Vec<usize> {
    let mut forwarders: HashMap<Node, AsyncForwarder<Node>> = HashMap::new();
    forwarders.insert(Node::Concentrator, AsyncForwarder::new(0));
    for lane in 1..=lanes {
        for pipeline in 1..=pipelines {
            forwarders.insert(Node::Stage { lane, pipeline }, AsyncForwarder::new(pipeline));
        }
    }
    let wiring = chain_wiring(pipelines, lanes, messages);
    let mut queue: VecDeque<(Node, TestMessage<Node>)> = VecDeque::new();
    for i in wiring.instructions {
        match i {
            Instruction::AddSender { to, sender } => queue.push_back((to, TestMessage::AddSender(sender))),
            Instruction::Notify { to, notifier, count } => queue.push_back((to, TestMessage::Notify(notifier, count))),
        }
    }
    for id in 0..messages {
        for head in &wiring.heads {
            queue.push_back((*head, TestMessage::TestData(id)));
        }
    }
    let mut notified = Vec::new();
    while let Some((to, msg)) = queue.pop_front() {
        if to == Node::Notifier {
            if let TestMessage::TestData(n) = msg {
                notified.push(n);
            }
            continue;
        }
        let f = forwarders.get_mut(&to).unwrap();
        assert!(f.in_sequence(&msg), "sequence error");
        let r = f.receive(msg);
        for d in r.forwards {
            queue.push_back((*f.sender(d.sender), TestMessage::TestData(d.seq)));
        }
        if let Some(count) = r.notification {
            queue.push_back((*f.notifier().unwrap(), TestMessage::TestData(count)));
        }
    }
    notified
}

#[test]
fn chain_experiment_notifies_once_per_round() {
    assert_eq!(run_chain(5, 4, 10), vec![4]);
    assert_eq!(run_chain(1, 1, 3), vec![1]);
}

#[test]
fn relay_experiment_reports_every_value() {
    // the smol experiment: relays move values down the lanes; the concentrator counts
    let (pipelines, lanes, messages) = (3, 4, 5);
    let wiring = relay_wiring(pipelines, lanes);
    let next: HashMap<Node, Node> = wiring.relays.iter().map(|r| (r.from, r.to)).collect();
    let mut concentrator = Concentrator::new(messages, lanes);
    let mut reports = Vec::new();
    for msg_id in 1..=messages {
        for head in &wiring.heads {
            let mut at = *head;
            while at != Node::Concentrator {
                at = next[&at];
            }
            if let Some(total) = concentrator.receive(msg_id).report {
                reports.push(total);
            }
        }
    }
    assert_eq!(reports, vec![lanes * messages]);
}
