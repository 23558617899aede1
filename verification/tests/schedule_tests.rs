use rust_clock::schedule::{match_schedule, schedule_is_readable};

fn cs(s: &str) -> Vec<char> {
    s.chars().collect()
}

#[test]
fn half_hour_entry_matches_every_hour_at_second_zero() {
    let t = cs(":30:");
    for h in [0u32, 9, 15, 23] {
        assert_eq!(match_schedule(&t, h, 30, 0), Some(0));
        assert_eq!(match_schedule(&t, h, 30, 1), None);
        assert_eq!(match_schedule(&t, h, 31, 0), None);
    }
}

#[test]
fn second_entry_matches_every_minute_start_of_fifteen_o_clock() {
    let t = cs(":30:,15::0");
    assert_eq!(match_schedule(&t, 15, 7, 0), Some(1));
    assert_eq!(match_schedule(&t, 15, 30, 0), Some(0));
    assert_eq!(match_schedule(&t, 16, 7, 0), None);
    assert_eq!(match_schedule(&t, 15, 7, 1), None);
}

#[test]
fn fields_may_have_a_leading_zero() {
    let t = cs("09:05:07");
    assert_eq!(match_schedule(&t, 9, 5, 7), Some(0));
    let t = cs("9:5:7");
    assert_eq!(match_schedule(&t, 9, 5, 7), Some(0));
    let t = cs("009:5:7");
    assert_eq!(match_schedule(&t, 9, 5, 7), None);
}

#[test]
fn default_file_times() {
    let t = cs(":30:,:00:");
    assert_eq!(match_schedule(&t, 4, 0, 0), Some(1));
    assert_eq!(match_schedule(&t, 4, 30, 0), Some(0));
    assert_eq!(match_schedule(&t, 4, 15, 0), None);
}

#[test]
fn empty_setting_never_matches() {
    assert_eq!(match_schedule(&[], 0, 0, 0), None);
    assert!(schedule_is_readable(&[], 0, 0, 0));
}

#[test]
fn short_entries_are_unreadable_only_when_looked_at() {
    let t = cs("12");
    assert!(schedule_is_readable(&t, 11, 0, 0));
    assert!(!schedule_is_readable(&t, 12, 0, 0));
    let t = cs("abc");
    for h in 0..24 {
        assert!(schedule_is_readable(&t, h, 0, 0));
    }
    let t = cs("12:30");
    assert!(schedule_is_readable(&t, 12, 29, 0));
    assert!(!schedule_is_readable(&t, 12, 30, 0));
    let t = cs(":30:,12");
    assert!(schedule_is_readable(&t, 12, 30, 0));
    assert!(!schedule_is_readable(&t, 12, 31, 0));
}
