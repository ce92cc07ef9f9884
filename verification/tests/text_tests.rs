use wgpu_pcd::text::{decimal_string, parse_u32, strip_prefix};

#[test]
fn decimal_renders_base_ten() {
    assert_eq!(decimal_string(0), "0");
    assert_eq!(decimal_string(7), "7");
    assert_eq!(decimal_string(10), "10");
    assert_eq!(decimal_string(1024), "1024");
    assert_eq!(decimal_string(u64::MAX), "18446744073709551615");
}

#[test]
fn parse_accepts_what_std_accepts() {
    for text in ["0", "7", "+7", "007", "130", "4294967295", "", "+", "-1", "-0", "4294967296", "12a", " 1", "1 ", "99999999999999999999"] {
        assert_eq!(parse_u32(text), text.parse::<u32>().ok(), "input {:?}", text);
    }
}

#[test]
fn parse_values() {
    assert_eq!(parse_u32("130"), Some(130));
    assert_eq!(parse_u32("+42"), Some(42));
    assert_eq!(parse_u32("4294967295"), Some(u32::MAX));
    assert_eq!(parse_u32("4294967296"), None);
    assert_eq!(parse_u32(""), None);
    assert_eq!(parse_u32("x1"), None);
}

#[test]
fn parse_reads_back_decimal() {
    for n in [0u32, 1, 9, 10, 12345, u32::MAX] {
        assert_eq!(parse_u32(&decimal_string(n as u64)), Some(n));
    }
}

#[test]
fn strip_prefix_matches_std() {
    assert_eq!(strip_prefix("Laser_map_130", "Laser_map_"), Some("130"));
    assert_eq!(strip_prefix("Laser_map_130", "Laser_map_130"), Some(""));
    assert_eq!(strip_prefix("Laser", "Laser_map_"), None);
    assert_eq!(strip_prefix("other_1", "Laser_"), None);
    assert_eq!(strip_prefix("añb", "añ"), Some("b"));
}
