use netscan::pipeline::address_results;
use netscan::pipeline::attempt_result;
use netscan::pipeline::collect_results;
use netscan::pipeline::fallback_scheme;
use netscan::pipeline::first_scheme;
use netscan::pipeline::ports;
use netscan::pipeline::HTTP_TIMEOUT_MS;
use netscan::pipeline::PING_TIMEOUT_MS;
use netscan::pipeline::TCP_TIMEOUT_MS;
use netscan::render::ScanResult;
use netscan::render::Scheme;

#[test]
fn port_list_is_fixed() {
    assert_eq!(
        ports(),
        vec![80, 443, 8008, 3000, 5000, 9080, 9443, 8000, 8001, 8080, 8443, 9000, 9001]
    );
}

#[test]
fn timeouts_are_fixed() {
    assert_eq!(PING_TIMEOUT_MS, 700);
    assert_eq!(TCP_TIMEOUT_MS, 700);
    assert_eq!(HTTP_TIMEOUT_MS, 6000);
}

#[test]
fn http_falls_back_to_https_only() {
    assert_eq!(first_scheme(), Scheme::Http);
    assert_eq!(fallback_scheme(Scheme::Http), Some(Scheme::Https));
    assert_eq!(fallback_scheme(Scheme::Https), None);
}

#[test]
fn failed_attempt_produces_nothing() {
    assert!(attempt_result(Scheme::Http, 1, 80, None).is_none());
}

#[test]
fn successful_attempt_produces_one_result() {
    let body = b"<title>X</title>".to_vec();
    let r = attempt_result(Scheme::Https, 0x0A000001, 443, Some((403, body))).unwrap();
    assert_eq!(r.scheme, Scheme::Https);
    assert_eq!(r.addr, 0x0A000001);
    assert_eq!(r.port, 443);
    assert_eq!(r.status, 403);
    assert_eq!(r.title, "X");
}

#[test]
fn address_with_no_open_port_yields_no_results() {
    let mut outcomes: Vec<Option<ScanResult>> = Vec::new();
    for _ in 0..13 {
        outcomes.push(None);
    }
    let results = collect_results(outcomes);
    assert!(results.is_empty());
}

#[test]
fn dead_address_is_excluded_silently() {
    let outcomes = vec![Some(res(80))];
    assert!(address_results(false, outcomes).is_empty());
    let live_but_closed = address_results(true, Vec::new());
    assert!(live_but_closed.is_empty());
}

fn res(port: u16) -> ScanResult {
    ScanResult::new(Scheme::Http, 0x0A000001, port, 200, b"<title>t</title>")
}

#[test]
fn produced_results_are_kept_in_arrival_order() {
    let outcomes = vec![None, Some(res(80)), None, Some(res(8080)), Some(res(443)), None];
    let results = collect_results(outcomes);
    assert_eq!(results.len(), 3);
    assert_eq!(results[0].port, 80);
    assert_eq!(results[1].port, 8080);
    assert_eq!(results[2].port, 443);
    for r in &results {
        assert_eq!(r.title, "t");
        assert_eq!(r.status, 200);
    }
}
