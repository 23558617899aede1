use rust_clock::settings::{entries_are_readable, read_settings, ConfigEntry};

fn entry(section: Option<&str>, key: &str, value: &str) -> ConfigEntry {
    ConfigEntry {
        section: section.map(|s| s.to_string()),
        key: key.to_string(),
        value: value.to_string(),
    }
}

#[test]
fn defaults_without_lines() {
    let s = read_settings(&Vec::new(), &"/opt/clock".to_string());
    assert_eq!(s.sound_path, "/opt/clock/*");
    assert_eq!(s.time_str, "");
    assert_eq!(s.countdown, "");
    assert_eq!(s.pos_dir, "left");
    assert_eq!(s.pos_pc, 0);
    assert_eq!(s.show_time, 1200);
    assert_eq!(s.tips, "");
    assert_eq!(s.font_path, "");
    assert_eq!(s.bg, "");
    assert!(s.init_show);
    assert_eq!(s.timezone, None);
    assert!(s.round);
    assert_eq!(s.time_font, "");
    assert!(!s.time_countdown);
}

#[test]
fn config_lines_are_read() {
    let es = vec![
        entry(Some("Config"), "time", ":30:,:00:"),
        entry(Some("Config"), "sound", "assets/1.mp3|assets/2.mp3"),
        entry(Some("Config"), "countdown", ":20:,::20"),
        entry(Some("Config"), "pos", "right,20%"),
        entry(Some("Config"), "bg_color", "207,210,206,200"),
        entry(Some("Config"), "border_color", "91,105,114"),
        entry(Some("Config"), "number_bg_color", "235,235,235"),
        entry(Some("Config"), "number_color", "0,0,0"),
        entry(Some("Config"), "clock_bg_color", "1,1,1"),
        entry(Some("Other"), "time", "1:2:3"),
        entry(None, "countdown", "::1"),
        entry(Some("Config"), "unknown", "x"),
    ];
    assert!(entries_are_readable(&es));
    let s = read_settings(&es, &"/d".to_string());
    assert_eq!(s.time_str, ":30:,:00:");
    assert_eq!(s.sound_path, "/d/*assets/1.mp3|assets/2.mp3");
    assert_eq!(s.countdown, ":20:,::20");
    assert_eq!(s.pos_dir, "right");
    assert_eq!(s.pos_pc, 20);
    assert_eq!(s.custom_bg_color, "207,210,206,200");
    assert_eq!(s.custom_border_color, "91,105,114");
    assert_eq!(s.custom_number_bg_color, "235,235,235");
    assert_eq!(s.custom_number_color, "0,0,0");
    assert_eq!(s.custom_clock_bg_color, "1,1,1");
}

#[test]
fn sound_lines_add_up_and_later_lines_win() {
    let es = vec![
        entry(Some("Config"), "sound", "a"),
        entry(Some("Config"), "sound", "*b"),
        entry(Some("Config"), "time", "1::"),
        entry(Some("Config"), "time", "2::"),
        entry(Some("Config"), "pos", "left,5%"),
        entry(Some("Config"), "pos", "right"),
    ];
    let s = read_settings(&es, &"/d".to_string());
    assert_eq!(s.sound_path, "/d/*a*b");
    assert_eq!(s.time_str, "2::");
    assert_eq!(s.pos_dir, "right");
    assert_eq!(s.pos_pc, 5);
}

#[test]
fn position_percent_signs_are_dropped() {
    let s = read_settings(&vec![entry(Some("Config"), "pos", "left,%1%5%")], &"/d".to_string());
    assert_eq!(s.pos_pc, 15);
    let s = read_settings(&vec![entry(Some("Config"), "pos", "left,1,2")], &"/d".to_string());
    assert_eq!((s.pos_dir.as_str(), s.pos_pc), ("left", 0));
}

#[test]
fn unreadable_position_is_reported() {
    assert!(!entries_are_readable(&vec![entry(Some("Config"), "pos", "left,five%")]));
    assert!(entries_are_readable(&vec![entry(Some("Other"), "pos", "left,five%")]));
}

#[test]
fn readme_keys_are_read() {
    let es = vec![
        entry(Some("Config"), "show_time", "1000"),
        entry(Some("Config"), "tips", "by the grave and thee"),
        entry(Some("Config"), "font_path", "C:/Windows/Fonts/zongyi.TTF"),
        entry(Some("Config"), "bg", "assets/bg.png"),
        entry(Some("Config"), "init_show", "0"),
        entry(Some("Config"), "timezone", "+9"),
        entry(Some("Config"), "time_font", "C:/Windows/Fonts/zongyi.TTF"),
        entry(Some("Config"), "round", "0"),
        entry(Some("Config"), "time_countdown", "1"),
    ];
    assert!(entries_are_readable(&es));
    let s = read_settings(&es, &"/d".to_string());
    assert_eq!(s.show_time, 1000);
    assert_eq!(s.tips, "by the grave and thee");
    assert_eq!(s.font_path, "C:/Windows/Fonts/zongyi.TTF");
    assert_eq!(s.bg, "assets/bg.png");
    assert!(!s.init_show);
    assert_eq!(s.timezone, Some(9));
    assert_eq!(s.time_font, "C:/Windows/Fonts/zongyi.TTF");
    assert!(!s.round);
    assert!(s.time_countdown);
}

#[test]
fn switches_read_only_their_own_values() {
    let s = read_settings(
        &vec![
            entry(Some("Config"), "init_show", "1"),
            entry(Some("Config"), "round", "no"),
            entry(Some("Config"), "time_countdown", "yes"),
            entry(Some("Config"), "timezone", "-12"),
        ],
        &"/d".to_string(),
    );
    assert!(s.init_show);
    assert!(s.round);
    assert!(!s.time_countdown);
    assert_eq!(s.timezone, Some(-12));
}

#[test]
fn unreadable_numbers_are_reported() {
    assert!(!entries_are_readable(&vec![entry(Some("Config"), "show_time", "1.5")]));
    assert!(!entries_are_readable(&vec![entry(Some("Config"), "show_time", "-1")]));
    assert!(!entries_are_readable(&vec![entry(Some("Config"), "timezone", "UTC")]));
    assert!(entries_are_readable(&vec![entry(Some("Other"), "timezone", "UTC")]));
}
