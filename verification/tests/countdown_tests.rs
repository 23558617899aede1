use rust_clock::countdown::{clock_text, countdown_is_readable, scan_countdown};
use rust_clock::text::string_of;

fn cs(s: &str) -> Vec<char> {
    s.chars().collect()
}

#[test]
fn twenty_twenty_rule() {
    let cd = cs(":20:,::20");
    let r = scan_countdown(&cd, 0, true);
    assert_eq!((r.ending, r.current, r.left), (None, Some(0), 1200));
    let r = scan_countdown(&cd, 1199, true);
    assert_eq!((r.ending, r.current, r.left), (None, Some(0), 1));
    let r = scan_countdown(&cd, 1200, true);
    assert_eq!((r.ending, r.current, r.left), (Some(0), Some(1), 20));
    let r = scan_countdown(&cd, 1200, false);
    assert_eq!((r.ending, r.current, r.left), (None, Some(1), 20));
    let r = scan_countdown(&cd, 1220, true);
    assert_eq!((r.ending, r.current, r.left), (Some(1), None, 1200));
    let r = scan_countdown(&cd, 5000, true);
    assert_eq!((r.ending, r.current, r.left), (None, None, 1200));
}

#[test]
fn first_shown_length_skips_empty_entries() {
    let cd = cs("::0,1::");
    let r = scan_countdown(&cd, 3600, true);
    assert_eq!((r.ending, r.current, r.left), (Some(1), None, 3600));
    let r = scan_countdown(&cd, 0, true);
    assert_eq!((r.ending, r.current, r.left), (Some(0), Some(1), 3600));
}

#[test]
fn countdown_text_keeps_whole_minutes() {
    assert_eq!(string_of(&clock_text(3700, true)), "01:61:40");
    assert_eq!(string_of(&clock_text(59, true)), "00:00:59");
    assert_eq!(string_of(&clock_text(-5, true)), "00:00:00");
    assert_eq!(string_of(&clock_text(600, false)), "00:10:00");
    assert_eq!(string_of(&clock_text(599, false)), "00:09:59");
    assert_eq!(string_of(&clock_text(-3, false)), "00:00:00");
}

#[test]
fn readability_of_countdown_lists() {
    assert!(countdown_is_readable(&[], 0));
    assert!(countdown_is_readable(&cs(":20:,::20"), 10));
    assert!(!countdown_is_readable(&cs("20"), 10));
    assert!(!countdown_is_readable(&cs("x::"), 10));
    assert!(countdown_is_readable(&cs("::20,bad"), 10));
    assert!(!countdown_is_readable(&cs("::20,bad"), 20));
    assert!(!countdown_is_readable(&cs("600000::"), 0));
    assert!(countdown_is_readable(&cs("596523::"), 0));
    assert!(!countdown_is_readable(&cs("::2147483647"), -5));
}
