use experiment_lib::wiring::{chain_wiring, relay_wiring, stacked_wiring, Instruction, Node, Relay};

fn st(lane: usize, pipeline: usize) -> Node {
    Node::Stage { lane, pipeline }
}

#[test]
fn chain_of_three_stages() {
    let w = chain_wiring(3, 2, 10);
    assert_eq!(w.heads, vec![st(1, 1), st(2, 1)]);
    assert_eq!(
        w.instructions,
        vec![
            Instruction::AddSender { to: st(1, 1), sender: st(1, 2) },
            Instruction::AddSender { to: st(1, 2), sender: st(1, 3) },
            Instruction::Notify { to: st(1, 3), notifier: Node::Concentrator, count: 10 },
            Instruction::AddSender { to: st(2, 1), sender: st(2, 2) },
            Instruction::AddSender { to: st(2, 2), sender: st(2, 3) },
            Instruction::Notify { to: st(2, 3), notifier: Node::Concentrator, count: 10 },
            Instruction::Notify { to: Node::Concentrator, notifier: Node::Notifier, count: 2 },
        ]
    );
}

#[test]
fn chain_without_lanes() {
    let w = chain_wiring(0, 0, 5);
    assert!(w.heads.is_empty());
    assert_eq!(w.instructions, vec![Instruction::Notify { to: Node::Concentrator, notifier: Node::Notifier, count: 0 }]);
}

#[test]
fn stacked_lanes_leave_one_head() {
    let w = stacked_wiring(3, 2, 10);
    assert_eq!(w.heads, vec![st(1, 1), st(2, 1)]);
    assert_eq!(
        w.instructions,
        vec![
            Instruction::AddSender { to: st(1, 3), sender: Node::Concentrator },
            Instruction::AddSender { to: st(1, 2), sender: st(1, 3) },
            Instruction::AddSender { to: st(1, 1), sender: st(1, 2) },
            Instruction::AddSender { to: st(2, 3), sender: Node::Concentrator },
            Instruction::AddSender { to: st(2, 2), sender: st(2, 3) },
            Instruction::AddSender { to: st(2, 1), sender: st(2, 2) },
            Instruction::Notify { to: Node::Concentrator, notifier: Node::Notifier, count: 20 },
        ]
    );
}

#[test]
fn stacked_lanes_of_one_or_no_stage() {
    let w = stacked_wiring(1, 2, 4);
    assert_eq!(w.heads, vec![st(1, 1), st(2, 1)]);
    assert_eq!(
        w.instructions,
        vec![
            Instruction::AddSender { to: st(1, 1), sender: Node::Concentrator },
            Instruction::AddSender { to: st(2, 1), sender: Node::Concentrator },
            Instruction::Notify { to: Node::Concentrator, notifier: Node::Notifier, count: 8 },
        ]
    );
    let w = stacked_wiring(0, 1, 4);
    assert_eq!(w.heads, vec![Node::Concentrator]);
}

#[test]
fn relays_run_from_last_stage_to_first() {
    let w = relay_wiring(3, 1);
    assert_eq!(w.heads, vec![st(1, 1)]);
    assert_eq!(
        w.relays,
        vec![
            Relay { from: st(1, 3), to: Node::Concentrator, pipeline: 3, lane: 1 },
            Relay { from: st(1, 2), to: st(1, 3), pipeline: 2, lane: 1 },
            Relay { from: st(1, 1), to: st(1, 2), pipeline: 1, lane: 1 },
        ]
    );
    let w = relay_wiring(0, 2);
    assert_eq!(w.heads, vec![Node::Concentrator, Node::Concentrator]);
    assert!(w.relays.is_empty());
}
