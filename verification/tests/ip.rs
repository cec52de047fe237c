use kagerou::ip::ip_family;

fn family(s: &str) -> u8 {
    let chars: Vec<char> = s.chars().collect();
    ip_family(&chars)
}

#[test]
fn addresses_are_told_apart_by_family() {
    assert_eq!(family("10.0.0.5"), 4);
    assert_eq!(family("255.255.255.255"), 4);
    assert_eq!(family("fd00::1"), 6);
    assert_eq!(family("::"), 6);
    assert_eq!(family("2001:db8:0:0:0:0:0:1"), 6);
    assert_eq!(family("::ffff:10.0.0.1"), 6);
}

#[test]
fn near_misses_are_no_address() {
    assert_eq!(family("256.0.0.1"), 0);
    assert_eq!(family("01.2.3.4"), 0);
    assert_eq!(family("1.2.3"), 0);
    assert_eq!(family("example.com"), 0);
    assert_eq!(family("1::2::3"), 0);
    assert_eq!(family(""), 0);
}
