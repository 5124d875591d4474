use experiment_lib::config::Verbosity;
use experiment_lib::forwarder::{Builder, Dispatch, Forwarder, FwdMessage};

fn fresh() -> Forwarder<&'static str> {
    Builder::new().pipeline(2).lane(7).verbosity(Verbosity::All).build()
}

fn seqs(ds: &[Dispatch]) -> Vec<usize> {
    ds.iter().map(|d| d.seq).collect()
}

#[test]
fn builder_sets_ids_and_verbosity() {
    let f = fresh();
    assert_eq!(f.pipeline(), 2);
    assert_eq!(f.lane(), 7);
    assert_eq!(f.verbosity(), Verbosity::All);
    assert_eq!(f.sender_count(), 0);
    assert_eq!(f.next_seq(), 0);
    assert!(f.notifier().is_none());
    let g: Forwarder<u8> = Builder::new().build();
    assert_eq!(g.pipeline(), 0);
    assert_eq!(g.lane(), 0);
    assert_eq!(g.verbosity(), Verbosity::Off);
}

#[test]
fn tag_names_pipeline_and_lane() {
    assert_eq!(fresh().tag(), "fwd pipeline 2 lane 7");
    let f: Forwarder<u8> = Builder::new().pipeline(10).lane(1234).build();
    assert_eq!(f.tag(), "fwd pipeline 10 lane 1234");
}

#[test]
fn config_messages_are_applied() {
    let mut f = fresh();
    assert!(f.handle_config(FwdMessage::AddSender("a")).is_ok());
    assert!(f.handle_config(FwdMessage::AddSender("b")).is_ok());
    assert_eq!(f.sender_count(), 2);
    assert_eq!(*f.sender(1), "b");
    assert!(f.handle_config(FwdMessage::Notify("n", 3)).is_ok());
    assert_eq!(f.notifier(), Some(&"n"));
    match f.handle_config(FwdMessage::TestData(4)) {
        Err(FwdMessage::TestData(4)) => {},
        _ => panic!("data is not configuration"),
    }
}

#[test]
fn sequence_is_checked_only_when_forwarding() {
    let mut sink = fresh();
    assert!(sink.validate_sequence(FwdMessage::TestData(42)).is_ok());
    assert!(sink.validate_sequence(FwdMessage::TestData(7)).is_ok());
    assert_eq!(sink.next_seq(), 0);

    let mut f = fresh();
    f.handle_config(FwdMessage::AddSender("a")).ok();
    assert!(f.validate_sequence(FwdMessage::TestData(0)).is_ok());
    assert_eq!(f.next_seq(), 1);
    assert!(f.validate_sequence(FwdMessage::TestData(1)).is_ok());
    assert!(f.validate_sequence(FwdMessage::TestData(2)).is_ok());
    assert_eq!(f.next_seq(), 3);
    match f.validate_sequence(FwdMessage::TestData(5)) {
        Err(FwdMessage::TestData(5)) => {},
        _ => panic!("5 is out of sequence"),
    }
    assert_eq!(f.next_seq(), 3);
    // zero resets
    assert!(f.validate_sequence(FwdMessage::TestData(0)).is_ok());
    assert_eq!(f.next_seq(), 1);
}

#[test]
fn action_sends_to_every_sender_in_order() {
    let mut f = fresh();
    f.handle_config(FwdMessage::AddSender("a")).ok();
    f.handle_config(FwdMessage::AddSender("b")).ok();
    f.handle_config(FwdMessage::AddSender("c")).ok();
    let out = f.handle_action(FwdMessage::TestData(0));
    assert_eq!(
        out,
        vec![Dispatch { sender: 0, seq: 0 }, Dispatch { sender: 1, seq: 1 }, Dispatch { sender: 2, seq: 2 }]
    );
    let out = f.handle_action(FwdMessage::TestData(1));
    assert_eq!(seqs(&out), vec![3, 4, 5]);
}

#[test]
fn notification_fires_at_the_count_and_clears() {
    let mut f = fresh();
    assert_eq!(f.handle_notification(), None);
    f.handle_config(FwdMessage::Notify("n", 2)).ok();
    f.validate_sequence(FwdMessage::TestData(9)).ok();
    assert_eq!(f.handle_notification(), None);
    f.validate_sequence(FwdMessage::TestData(9)).ok();
    assert_eq!(f.handle_notification(), Some(2));
    // counters were cleared: two more are needed
    f.validate_sequence(FwdMessage::TestData(9)).ok();
    assert_eq!(f.handle_notification(), None);
    f.validate_sequence(FwdMessage::TestData(9)).ok();
    assert_eq!(f.handle_notification(), Some(2));
}

#[test]
fn zero_notify_count_never_notifies() {
    let mut f = fresh();
    f.handle_config(FwdMessage::Notify("n", 0)).ok();
    for i in 0..5 {
        let r = f.receive(FwdMessage::TestData(i));
        assert_eq!(r.notification, None);
    }
}

#[test]
fn receive_forwards_and_notifies() {
    let mut f = fresh();
    assert!(f.receive(FwdMessage::AddSender("next")).forwards.is_empty());
    f.receive(FwdMessage::Notify("n", 3));
    let mut sent = Vec::new();
    let mut notes = Vec::new();
    for i in 0..6 {
        let r = f.receive(FwdMessage::TestData(i));
        sent.extend(seqs(&r.forwards));
        notes.push(r.notification);
    }
    // the notification clears the send counter, so forwarding restarts at 0
    assert_eq!(sent, vec![0, 1, 2, 0, 1, 2]);
    assert_eq!(notes, vec![None, None, Some(3), None, None, Some(3)]);
    assert!(!f.in_sequence(&FwdMessage::TestData(9)));
    assert!(f.in_sequence(&FwdMessage::TestData(6)));
    assert!(f.in_sequence(&FwdMessage::TestData(0)));
    assert!(f.in_sequence(&FwdMessage::Notify("m", 1)));
    assert_eq!(f.next_seq(), 6);
}

#[test]
fn two_step_pipeline_stays_in_sequence() {
    let mut up: Forwarder<u8> = Builder::new().pipeline(1).build();
    let mut down: Forwarder<u8> = Builder::new().pipeline(2).build();
    up.receive(FwdMessage::AddSender(2));
    down.receive(FwdMessage::AddSender(3));
    for i in 0..50 {
        let r = up.receive(FwdMessage::TestData(i));
        for d in r.forwards {
            assert!(down.in_sequence(&FwdMessage::TestData(d.seq)));
            down.receive(FwdMessage::TestData(d.seq));
        }
    }
    assert_eq!(down.next_seq(), 50);
}

#[test]
fn overflow_is_detected_before_it_happens() {
    let mut f = fresh();
    f.handle_config(FwdMessage::AddSender("a")).ok();
    assert!(!f.sequence_overflows(&FwdMessage::TestData(usize::MAX)));
    assert!(!f.sequence_overflows(&FwdMessage::AddSender("b")));
    let mut sink = fresh();
    assert!(!sink.sequence_overflows(&FwdMessage::TestData(usize::MAX)));
    assert!(sink.validate_sequence(FwdMessage::TestData(usize::MAX)).is_ok());
}

#[test]
fn notifier_is_told_every_count() {
    let mut f: Forwarder<u8> = Builder::new().build();
    f.receive(FwdMessage::Notify(1, 3));
    let mut told = Vec::new();
    for i in 0..10 {
        let r = f.receive(FwdMessage::TestData(100 + i));
        if r.notification.is_some() {
            told.push(i);
        }
        assert_eq!(r.notification.is_some(), (i + 1) % 3 == 0);
    }
    assert_eq!(told, vec![2, 5, 8]);
}
