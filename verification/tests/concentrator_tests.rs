use experiment_lib::concentrator::Concentrator;

#[test]
fn reports_after_every_lane_ends() {
    // two lanes of three messages: values 1, 2, 3 each, interleaved
    let mut c = Concentrator::new(3, 2);
    let mut reports = Vec::new();
    let mut lanes = Vec::new();
    for v in [1, 1, 2, 3, 2, 3] {
        assert!(!c.overflows(v));
        let a = c.receive(v);
        reports.push(a.report);
        lanes.push(a.lane_notifications);
    }
    assert_eq!(reports, vec![None, None, None, None, None, Some(6)]);
    assert_eq!(lanes, vec![None, None, None, Some(1), None, Some(2)]);
    // a new round starts from zero
    assert_eq!(c.receive(3).lane_notifications, Some(1));
    assert_eq!(c.receive(3).report, Some(2));
}
