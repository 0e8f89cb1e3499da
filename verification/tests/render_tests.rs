use netscan::render::endpoint_string;
use netscan::render::push_decimal;
use netscan::render::push_ip;
use netscan::render::scheme_str;
use netscan::render::status_class;
use netscan::render::trim_str;
use netscan::render::ScanResult;
use netscan::render::Scheme;
use netscan::render::StatusClass;

fn ip(a: u32, b: u32, c: u32, d: u32) -> u32 {
    (a << 24) | (b << 16) | (c << 8) | d
}

#[test]
fn status_classes_follow_the_hundreds() {
    assert_eq!(status_class(200), StatusClass::Success);
    assert_eq!(status_class(299), StatusClass::Success);
    assert_eq!(status_class(300), StatusClass::Redirect);
    assert_eq!(status_class(399), StatusClass::Redirect);
    assert_eq!(status_class(400), StatusClass::ClientError);
    assert_eq!(status_class(404), StatusClass::ClientError);
    assert_eq!(status_class(500), StatusClass::ServerError);
    assert_eq!(status_class(599), StatusClass::ServerError);
    assert_eq!(status_class(199), StatusClass::Other);
    assert_eq!(status_class(600), StatusClass::Other);
    assert_eq!(status_class(0), StatusClass::Other);
}

#[test]
fn decimal_digits_render_exactly() {
    let mut s = String::new();
    push_decimal(&mut s, 0);
    assert_eq!(s, "0");
    let mut s = String::new();
    push_decimal(&mut s, 65535);
    assert_eq!(s, "65535");
    let mut s = String::new();
    push_decimal(&mut s, 4294967295);
    assert_eq!(s, "4294967295");
}

#[test]
fn dotted_quad_renders_exactly() {
    let mut s = String::new();
    push_ip(&mut s, ip(192, 168, 1, 5));
    assert_eq!(s, "192.168.1.5");
    let mut s = String::new();
    push_ip(&mut s, 0);
    assert_eq!(s, "0.0.0.0");
    let mut s = String::new();
    push_ip(&mut s, u32::MAX);
    assert_eq!(s, "255.255.255.255");
}

#[test]
fn scheme_texts() {
    assert_eq!(scheme_str(Scheme::Http), "http");
    assert_eq!(scheme_str(Scheme::Https), "https");
}

#[test]
fn endpoint_text_is_scheme_ip_port() {
    assert_eq!(endpoint_string(Scheme::Http, ip(192, 168, 1, 5), 8080), "http://192.168.1.5:8080");
    assert_eq!(endpoint_string(Scheme::Https, ip(10, 0, 0, 1), 443), "https://10.0.0.1:443");
}

#[test]
fn trimming_removes_white_space_at_both_ends() {
    assert_eq!(trim_str("  hi  "), "hi");
    assert_eq!(trim_str("\t\r\n x \u{3000}\u{00A0}"), "x");
    assert_eq!(trim_str("   \n "), "");
    assert_eq!(trim_str("solid"), "solid");
    assert_eq!(trim_str("a  b"), "a  b");
}

#[test]
fn http_success_line_renders_exactly() {
    let body = b"<html><head><title>Dashboard</title></head></html>";
    let r = ScanResult::new(Scheme::Http, ip(192, 168, 1, 7), 8080, 200, body);
    assert_eq!(r.render_line(), "[200] Dashboard -> http://192.168.1.7:8080");
}

#[test]
fn https_empty_body_line_renders_placeholder() {
    let r = ScanResult::new(Scheme::Https, ip(192, 168, 1, 7), 443, 403, b"");
    assert_eq!(r.render_line(), "[403] No Title Found -> https://192.168.1.7:443");
}

#[test]
fn title_is_trimmed_in_the_line() {
    let body = b"<title>  Pad  </title>";
    let r = ScanResult::new(Scheme::Http, ip(10, 1, 2, 3), 80, 301, body);
    assert_eq!(r.render_line(), "[301] Pad -> http://10.1.2.3:80");
    assert_eq!(r.endpoint(), "http://10.1.2.3:80");
}
