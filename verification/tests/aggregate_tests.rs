use netscan::aggregate::Aggregator;
use netscan::render::ScanResult;
use netscan::render::Scheme;

fn result_on(port: u16) -> ScanResult {
    ScanResult::new(Scheme::Http, 0x0A000001, port, 200, b"<title>t</title>")
}

#[test]
fn results_leave_in_arrival_order() {
    let mut a = Aggregator::new(100);
    assert!(a.try_send(result_on(8080)).is_none());
    assert!(a.try_send(result_on(80)).is_none());
    assert!(a.try_send(result_on(443)).is_none());
    assert_eq!(a.try_recv().unwrap().port, 8080);
    assert_eq!(a.try_recv().unwrap().port, 80);
    assert_eq!(a.try_recv().unwrap().port, 443);
    assert!(a.try_recv().is_none());
}

#[test]
fn full_buffer_hands_the_result_back() {
    let mut a = Aggregator::new(2);
    assert!(a.try_send(result_on(80)).is_none());
    assert!(a.try_send(result_on(443)).is_none());
    let back = a.try_send(result_on(8080));
    assert_eq!(back.unwrap().port, 8080);
    // draining one makes room again
    assert_eq!(a.try_recv().unwrap().port, 80);
    assert!(a.try_send(result_on(8080)).is_none());
}

#[test]
fn closed_stream_takes_nothing_but_still_drains() {
    let mut a = Aggregator::new(10);
    assert!(a.try_send(result_on(80)).is_none());
    a.close();
    assert!(a.try_send(result_on(443)).is_some());
    assert!(!a.finished());
    assert_eq!(a.try_recv().unwrap().port, 80);
    assert!(a.finished());
}

#[test]
fn open_stream_is_never_finished() {
    let a = Aggregator::new(10);
    assert!(!a.finished());
}
