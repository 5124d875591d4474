use experiment_lib::async_forwarder::{AsyncForwarder, TestMessage};

fn seqs(ds: &[experiment_lib::forwarder::Dispatch]) -> Vec<usize> {
    ds.iter().map(|d| d.seq).collect()
}

#[test]
fn new_forwarder_is_empty() {
    let f: AsyncForwarder<u8> = AsyncForwarder::new(4);
    assert_eq!(f.id(), 4);
    assert!(f.notifier().is_none());
}

#[test]
fn async_sequence_checks() {
    let mut f: AsyncForwarder<u8> = AsyncForwarder::new(1);
    assert!(f.validate_sequence(TestMessage::TestData(77)).is_ok());
    f.handle_config(TestMessage::AddSender(9)).ok();
    assert!(f.validate_sequence(TestMessage::TestData(0)).is_ok());
    assert!(f.validate_sequence(TestMessage::TestData(1)).is_ok());
    assert!(matches!(f.validate_sequence(TestMessage::TestData(3)), Err(TestMessage::TestData(3))));
    assert!(f.validate_sequence(TestMessage::TestData(0)).is_ok());
    assert!(f.validate_sequence(TestMessage::TestData(1)).is_ok());
    assert_eq!(*f.sender(0), 9);
}

#[test]
fn async_action_numbers_messages() {
    let mut f: AsyncForwarder<u8> = AsyncForwarder::new(1);
    f.handle_config(TestMessage::AddSender(1)).ok();
    f.handle_config(TestMessage::AddSender(2)).ok();
    let out = f.handle_action(TestMessage::TestData(0));
    assert_eq!(out.iter().map(|d| d.sender).collect::<Vec<_>>(), vec![0, 1]);
    assert_eq!(seqs(&out), vec![0, 1]);
    assert_eq!(seqs(&f.handle_action(TestMessage::TestData(1))), vec![2, 3]);
}

#[test]
fn async_notification_needs_a_notifier_but_always_clears() {
    let mut f: AsyncForwarder<u8> = AsyncForwarder::new(0);
    // notify count 0 and nothing received: the check fires, but there is no notifier
    assert_eq!(f.handle_notification(), None);
    f.handle_config(TestMessage::Notify(5, 2)).ok();
    let r1 = f.receive(TestMessage::TestData(3));
    let r2 = f.receive(TestMessage::TestData(3));
    let r3 = f.receive(TestMessage::TestData(3));
    assert_eq!((r1.notification, r2.notification, r3.notification), (None, Some(2), None));
    assert_eq!(f.notifier(), Some(&5));
}

#[test]
fn async_out_of_sequence_is_detected() {
    let mut f: AsyncForwarder<u8> = AsyncForwarder::new(0);
    f.receive(TestMessage::AddSender(1));
    assert!(f.in_sequence(&TestMessage::TestData(0)));
    f.receive(TestMessage::TestData(0));
    assert!(!f.in_sequence(&TestMessage::TestData(5)));
    assert!(f.in_sequence(&TestMessage::TestData(1)));
    assert!(f.in_sequence(&TestMessage::AddSender(4)));
}

#[test]
fn async_overflow_detection() {
    let mut f: AsyncForwarder<u8> = AsyncForwarder::new(0);
    f.handle_config(TestMessage::AddSender(1)).ok();
    assert!(!f.receive_overflows(&TestMessage::TestData(0)));
    assert!(!f.receive_overflows(&TestMessage::TestData(5)));
    assert!(!f.receive_overflows(&TestMessage::AddSender(2)));
}

#[test]
fn two_step_async_pipeline_stays_in_sequence() {
    let mut up: AsyncForwarder<u8> = AsyncForwarder::new(1);
    let mut down: AsyncForwarder<u8> = AsyncForwarder::new(2);
    up.receive(TestMessage::AddSender(2));
    down.receive(TestMessage::AddSender(3));
    for i in 0..40 {
        let r = up.receive(TestMessage::TestData(i));
        assert_eq!(r.forwards.len(), 1);
        for d in r.forwards {
            assert_eq!(d.seq, i);
            assert!(down.in_sequence(&TestMessage::TestData(d.seq)));
            down.receive(TestMessage::TestData(d.seq));
        }
    }
}
