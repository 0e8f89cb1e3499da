use netscan::range::calculate_ip_ranges;

fn ip(a: u32, b: u32, c: u32, d: u32) -> u32 {
    (a << 24) | (b << 16) | (c << 8) | d
}

#[test]
fn slash_24_has_256_ascending_addresses() {
    let base = ip(192, 168, 1, 55);
    let r = calculate_ip_ranges(Some(base), 24);
    assert_eq!(r.len(), 256);
    assert_eq!(r[0], ip(192, 168, 1, 0));
    assert_eq!(r[255], ip(192, 168, 1, 255));
    for i in 1..r.len() {
        assert!(r[i - 1] < r[i]);
    }
    let mut sorted = r.clone();
    sorted.dedup();
    assert_eq!(sorted.len(), 256);
}

#[test]
fn slash_32_is_the_base_alone() {
    let base = ip(10, 0, 0, 7);
    let r = calculate_ip_ranges(Some(base), 32);
    assert_eq!(r.len(), 1);
    assert_eq!(r[0], base);
}

#[test]
fn slash_30_has_four_addresses() {
    let base = ip(10, 0, 0, 6);
    let r = calculate_ip_ranges(Some(base), 30);
    assert_eq!(r, vec![ip(10, 0, 0, 4), ip(10, 0, 0, 5), ip(10, 0, 0, 6), ip(10, 0, 0, 7)]);
}

#[test]
fn non_ipv4_base_yields_empty_range() {
    let r = calculate_ip_ranges(None, 24);
    assert!(r.is_empty());
}
