use rust_clock::clock::{RustClock, TickOutput};
use rust_clock::color::Rgba;
use rust_clock::frame::ImageLayout;
use rust_clock::model::{Action, TickInput};
use rust_clock::settings::{read_settings, ConfigEntry};

const QUIT: u32 = 1;
const COUNTDOWN: u32 = 2;

fn clock(time2show: &str, sound: &str, countdown: &str, tips: &str, show_time: u32) -> RustClock {
    RustClock::new(
        QUIT,
        time2show.to_string(),
        sound.to_string(),
        countdown.to_string(),
        COUNTDOWN,
        "left".to_string(),
        0,
        String::new(),
        String::new(),
        String::new(),
        String::new(),
        String::new(),
        tips.to_string(),
        String::new(),
        show_time,
        None,
    )
    .unwrap()
}

fn at(timestamp: i64, hour: u32, minute: u32, second: u32) -> TickInput {
    TickInput { timestamp, hour, minute, second }
}

fn tick(c: &mut RustClock, inp: TickInput) -> TickOutput {
    assert!(c.tick_is_readable(&inp));
    c.tick(&inp)
}

#[test]
fn first_frame_initializes_once() {
    let mut c = clock("", "/d/*", "", "", 0);
    let out = tick(&mut c, at(0, 10, 0, 1));
    assert_eq!(out.actions, vec![Action::Initialize, Action::RepaintAfter(300)]);
    assert!(out.draw);
    assert_eq!(out.custom_clock, "");
    let out = tick(&mut c, at(1, 10, 0, 2));
    assert_eq!(out.actions, vec![Action::RepaintAfter(300)]);
}

#[test]
fn scheduled_popup_runs_and_ends() {
    let mut c = clock(":30:", "/d/*a.ogg", "", "hello", 0);
    tick(&mut c, at(0, 10, 29, 59));
    let out = tick(&mut c, at(1, 10, 30, 0));
    assert_eq!(
        out.actions,
        vec![
            Action::SaveWindowPos,
            Action::SetVisible(true),
            Action::MoveToStart,
            Action::RequestRepaint,
            Action::RepaintAfter(300),
        ]
    );
    assert_eq!(out.sound, Some("/d/a.ogg".to_string()));
    assert!(c.is_popping());
    let plan = c.frame_plan(&String::new(), &at(0, 10, 30, 0), Rgba { r: 1, g: 2, b: 3, a: 4 });
    assert_eq!(plan.tip, Some("hello".to_string()));
    assert!(!plan.close_button);
    let out = tick(&mut c, at(1, 10, 30, 0));
    assert_eq!(
        out.actions,
        vec![Action::SetMousePassthrough(false), Action::SlideIn(1), Action::RepaintAfter(16)]
    );
    // 100 frames of stay by default; the popup ends in frame 201.
    for _ in 2..=200 {
        tick(&mut c, at(2, 10, 30, 1));
        assert!(c.is_popping());
    }
    let out = tick(&mut c, at(3, 10, 30, 3));
    assert!(!c.is_popping());
    assert_eq!(
        out.actions,
        vec![
            Action::SetMousePassthrough(false),
            Action::SetVisible(true),
            Action::RestoreWindowPos,
            Action::SetMousePassthrough(true),
            Action::RepaintAfter(16),
        ]
    );
    let plan = c.frame_plan(&String::new(), &at(0, 10, 30, 3), Rgba { r: 1, g: 2, b: 3, a: 4 });
    assert_eq!(plan.tip, None);
    assert!(plan.close_button);
}

#[test]
fn slide_out_phase_follows_the_stay() {
    // 1000 ms: 62.5 frames of stay, slide out from frame 113 to 162.
    let mut c = clock("::5", "", "", "", 1000);
    tick(&mut c, at(0, 1, 1, 5));
    let mut outs = Vec::new();
    for _ in 1..=163 {
        outs.push(tick(&mut c, at(0, 1, 1, 6)).actions);
    }
    assert_eq!(outs[48][1], Action::SlideIn(49));
    assert_eq!(outs[49], vec![Action::SetMousePassthrough(false), Action::RepaintAfter(16)]);
    assert_eq!(outs[111], vec![Action::SetMousePassthrough(false), Action::RepaintAfter(16)]);
    assert_eq!(outs[112][1], Action::SlideOut(8));
    assert_eq!(outs[161][1], Action::SlideOut(792));
    assert!(c.is_popping() == false);
    assert_eq!(outs[162][1], Action::SetVisible(true));
}

#[test]
fn hidden_clock_pops_up_and_hides_again() {
    let mut c = clock("::5", "", "", "", 16);
    tick(&mut c, at(0, 1, 1, 4));
    let acts = c.handle_events(true, false, None, 0);
    assert_eq!(acts, vec![Action::SetVisible(false)]);
    assert!(!c.is_visible());
    let out = tick(&mut c, at(0, 1, 1, 5));
    assert_eq!(
        out.actions,
        vec![
            Action::SetVisible(true),
            Action::MoveToStart,
            Action::RequestRepaint,
            Action::RepaintAfter(300),
        ]
    );
    assert!(out.draw);
    let mut last = Vec::new();
    while c.is_popping() {
        last = tick(&mut c, at(0, 1, 1, 6)).actions;
    }
    assert_eq!(
        last,
        vec![
            Action::SetMousePassthrough(false),
            Action::SetVisible(false),
            Action::SetMousePassthrough(true),
            Action::RepaintAfter(16),
        ]
    );
    assert!(!c.is_visible());
}

#[test]
fn default_countdown_counts_ten_minutes_and_repeats() {
    let mut c = clock("", "/d/*a*b", "", "", 0);
    tick(&mut c, at(100, 1, 0, 0));
    let acts = c.handle_events(false, false, Some(COUNTDOWN), 100);
    assert_eq!(acts, vec![Action::SetVisible(true), Action::RequestRepaint]);
    let out = tick(&mut c, at(100, 1, 0, 0));
    assert_eq!(out.custom_clock, "00:10:00");
    let out = tick(&mut c, at(161, 1, 1, 1));
    assert_eq!(out.custom_clock, "00:08:59");
    let out = tick(&mut c, at(700, 1, 10, 0));
    assert_eq!(out.custom_clock, "00:00:00");
    assert!(!c.is_popping());
    let out = tick(&mut c, at(701, 1, 10, 1));
    assert_eq!(out.custom_clock, "00:00:00");
    assert!(c.is_popping());
    assert_eq!(out.sound, Some("/d/b".to_string()));
    let out = tick(&mut c, at(702, 1, 10, 2));
    assert_eq!(out.custom_clock, "00:09:59");
}

#[test]
fn countdown_from_the_setting() {
    let mut c = clock("", "/d/*n*c1|c2", ":20:,::20", "", 0);
    tick(&mut c, at(0, 1, 0, 0));
    c.handle_events(false, false, Some(COUNTDOWN), 0);
    assert_eq!(tick(&mut c, at(0, 1, 0, 0)).custom_clock, "00:20:00");
    assert_eq!(tick(&mut c, at(1199, 1, 0, 0)).custom_clock, "00:00:01");
    let out = tick(&mut c, at(1200, 1, 0, 0));
    assert_eq!(out.custom_clock, "00:00:20");
    assert_eq!(out.sound, Some("/d/c1".to_string()));
    assert!(c.is_popping());
    // Stop the popup with the tray icon, twice.
    c.handle_events(false, true, None, 1205);
    c.handle_events(false, true, None, 1205);
    let out = tick(&mut c, at(1220, 1, 0, 0));
    assert_eq!(out.custom_clock, "00:20:00");
    assert_eq!(out.sound, Some("/d/c2".to_string()));
    assert_eq!(tick(&mut c, at(1221, 1, 0, 0)).custom_clock, "00:19:59");
}

#[test]
fn scheduled_popup_pauses_the_countdown() {
    let mut c = clock("::30", "", "", "", 0);
    tick(&mut c, at(0, 1, 0, 0));
    c.handle_events(false, false, Some(COUNTDOWN), 0);
    let out = tick(&mut c, at(30, 1, 0, 30));
    assert!(c.is_popping());
    assert_eq!(out.custom_clock, "00:09:30");
    let out = tick(&mut c, at(31, 1, 0, 31));
    assert_eq!(out.custom_clock, "");
}

#[test]
fn tray_and_menu_events() {
    let mut c = clock("", "", "", "", 0);
    let acts = c.handle_events(false, true, None, 5);
    assert_eq!(acts, vec![Action::SetVisible(false), Action::SaveWindowPos, Action::RequestRepaint]);
    let acts = c.handle_events(false, true, None, 5);
    assert_eq!(
        acts,
        vec![
            Action::SetVisible(true),
            Action::MoveToTrayPos,
            Action::SetMousePassthrough(true),
            Action::RequestRepaint,
        ]
    );
    assert_eq!(c.handle_events(false, false, Some(QUIT), 5), vec![Action::Quit]);
    assert_eq!(c.handle_events(false, false, Some(99), 5), Vec::<Action>::new());
    c.handle_events(false, false, Some(COUNTDOWN), 5);
    assert_eq!(c.handle_events(false, false, Some(COUNTDOWN), 6), vec![Action::RequestRepaint]);
}

#[test]
fn unreadable_settings_are_reported() {
    let c = clock("12", "", "", "", 0);
    assert!(!c.tick_is_readable(&at(0, 12, 0, 0)));
    assert!(c.tick_is_readable(&at(0, 11, 0, 0)));
    let c = clock("::0", "nostar", "", "", 0);
    assert!(!c.tick_is_readable(&at(0, 3, 3, 0)));
    assert!(c.tick_is_readable(&at(0, 3, 3, 1)));
    let mut c = clock("", "", "20", "", 0);
    assert!(c.tick_is_readable(&at(0, 3, 3, 1)));
    c.handle_events(false, false, Some(COUNTDOWN), 0);
    assert!(!c.tick_is_readable(&at(5, 3, 3, 1)));
    let mut c = clock("", "", "", "", 0);
    c.handle_events(false, false, Some(COUNTDOWN), -9_000_000_000_000_000_000);
    assert!(!c.tick_is_readable(&at(9_000_000_000_000_000_000, 3, 3, 1)));
}

#[test]
fn frame_plan_colours_and_title() {
    let c = RustClock::new(
        QUIT,
        String::new(),
        String::new(),
        String::new(),
        COUNTDOWN,
        "right".to_string(),
        20,
        "1,2,3".to_string(),
        String::new(),
        String::new(),
        "9,8,7,255".to_string(),
        String::new(),
        String::new(),
        "f.ttf".to_string(),
        0,
        Some((80, 80)),
    )
    .unwrap();
    assert!(c.colors_are_readable());
    let text = Rgba { r: 200, g: 200, b: 200, a: 255 };
    let plan = c.frame_plan(&String::new(), &at(0, 7, 5, 9), text);
    assert_eq!(plan.title, "07:05:09");
    assert_eq!(plan.background, Rgba { r: 1, g: 2, b: 3, a: 255 });
    assert_eq!(plan.border, text);
    assert_eq!(plan.number_background, Rgba { r: 0, g: 0, b: 0, a: 255 });
    assert_eq!(plan.number, Rgba { r: 9, g: 8, b: 7, a: 255 });
    assert_eq!(plan.clock_background, text);
    assert!(!plan.clock_face);
    assert_eq!(plan.image, ImageLayout::Face);
    assert_eq!(plan.hands, (7, 5, 9));
    assert!(plan.rounded);
    assert!(!plan.time_font);
    let plan = c.frame_plan(&"00:09:59".to_string(), &at(0, 7, 5, 9), text);
    assert_eq!(plan.title, "00:09:59");
    assert!(c.from_right());
    assert_eq!(c.pos_pc(), 20);
    assert_eq!(c.font_path(), "f.ttf");
    assert_eq!(c.stay16(), 1600);
    let d = clock("", "", "", "", 0);
    let plan = d.frame_plan(&String::new(), &at(0, 23, 59, 0), text);
    assert_eq!(plan.background, Rgba { r: 32, g: 33, b: 36, a: 200 });
    assert!(plan.clock_face);
    assert_eq!(plan.image, ImageLayout::NoImage);
    assert!(!d.from_right());
}


fn entry(key: &str, value: &str) -> ConfigEntry {
    ConfigEntry { section: Some("Config".to_string()), key: key.to_string(), value: value.to_string() }
}

fn from_lines(lines: &[(&str, &str)], image: Option<(u32, u32)>) -> RustClock {
    let es: Vec<ConfigEntry> = lines.iter().map(|(k, v)| entry(k, v)).collect();
    let st = read_settings(&es, &"/d".to_string());
    RustClock::from_settings(QUIT, COUNTDOWN, &st, image)
}

#[test]
fn init_show_off_hides_the_clock_at_start() {
    let mut c = from_lines(&[("init_show", "0")], None);
    let out = tick(&mut c, at(0, 10, 0, 1));
    assert_eq!(
        out.actions,
        vec![Action::Initialize, Action::SetVisible(false), Action::RepaintAfter(300)]
    );
    assert!(!out.draw);
    assert!(!c.is_visible());
    assert_eq!(c.handle_events(false, false, None, 0), Vec::<Action>::new());
    assert!(!c.is_visible());
    let out = tick(&mut c, at(1, 10, 0, 2));
    assert_eq!(out.actions, vec![Action::RepaintAfter(300)]);
    assert!(!c.is_visible());
}

#[test]
fn init_show_on_keeps_the_clock_shown() {
    let mut c = from_lines(&[("init_show", "1")], None);
    let out = tick(&mut c, at(0, 10, 0, 1));
    assert_eq!(out.actions, vec![Action::Initialize, Action::RepaintAfter(300)]);
    assert!(out.draw);
}

#[test]
fn hidden_at_start_still_pops_up() {
    let mut c = from_lines(&[("init_show", "0"), ("time", "::1")], None);
    let out = tick(&mut c, at(0, 10, 0, 1));
    assert_eq!(
        out.actions,
        vec![
            Action::Initialize,
            Action::SetVisible(false),
            Action::SetVisible(true),
            Action::MoveToStart,
            Action::RequestRepaint,
            Action::RepaintAfter(300),
        ]
    );
    assert!(c.is_popping());
    while c.is_popping() {
        tick(&mut c, at(1, 10, 0, 2));
    }
    assert!(!c.is_visible());
}

#[test]
fn time_zone_sets_the_time_of_day() {
    // Timestamp 0 is 00:00:00 UTC: 09:00:00 at +9, 19:00:00 the day before at -5.
    let c = from_lines(&[("timezone", "+9")], None);
    assert_eq!(c.clock_time(&at(0, 3, 4, 5)), (9, 0, 0));
    let plan = c.frame_plan(&String::new(), &at(0, 3, 4, 5), Rgba { r: 0, g: 0, b: 0, a: 255 });
    assert_eq!(plan.title, "09:00:00");
    assert_eq!(plan.hands, (9, 0, 0));
    let c = from_lines(&[("timezone", "-5")], None);
    assert_eq!(c.clock_time(&at(61, 3, 4, 5)), (19, 1, 1));
    let c = from_lines(&[], None);
    assert_eq!(c.clock_time(&at(61, 3, 4, 5)), (3, 4, 5));
}

#[test]
fn time_zone_drives_the_schedule() {
    let mut c = from_lines(&[("timezone", "+1"), ("time", "1:0:0")], None);
    tick(&mut c, at(0, 0, 0, 0));
    assert!(c.is_popping());
    let mut d = from_lines(&[("time", "1:0:0")], None);
    tick(&mut d, at(0, 0, 0, 0));
    assert!(!d.is_popping());
}

#[test]
fn round_and_fonts_reach_the_frame() {
    let c = from_lines(&[("round", "0"), ("time_font", "t.ttf"), ("font_path", "f.ttf")], None);
    let plan = c.frame_plan(&String::new(), &at(0, 1, 2, 3), Rgba { r: 0, g: 0, b: 0, a: 255 });
    assert!(!plan.rounded);
    assert!(plan.time_font);
    assert_eq!(c.time_font(), "t.ttf");
    assert_eq!(c.font_path(), "f.ttf");
    let d = from_lines(&[("round", "1")], None);
    let plan = d.frame_plan(&String::new(), &at(0, 1, 2, 3), Rgba { r: 0, g: 0, b: 0, a: 255 });
    assert!(plan.rounded);
    assert!(!plan.time_font);
}

#[test]
fn image_layout_follows_the_aspect_ratio() {
    let text = Rgba { r: 0, g: 0, b: 0, a: 255 };
    let c = from_lines(&[], Some((320, 100)));
    let plan = c.frame_plan(&String::new(), &at(0, 1, 2, 3), text);
    assert_eq!(plan.image, ImageLayout::Background);
    assert!(!plan.clock_face);
    let c = from_lines(&[], Some((80, 80)));
    assert_eq!(c.frame_plan(&String::new(), &at(0, 1, 2, 3), text).image, ImageLayout::Face);
    let c = from_lines(&[], Some((150, 100)));
    assert_eq!(c.frame_plan(&String::new(), &at(0, 1, 2, 3), text).image, ImageLayout::Face);
    let c = from_lines(&[], Some((151, 100)));
    assert_eq!(c.frame_plan(&String::new(), &at(0, 1, 2, 3), text).image, ImageLayout::Background);
}

#[test]
fn time_countdown_counts_to_the_first_full_time() {
    let mut c = from_lines(&[("time_countdown", "1"), ("time", ":30:,12:00:00,13:00:00")], None);
    assert_eq!(tick(&mut c, at(0, 11, 0, 0)).custom_clock, "01:00:00");
    assert_eq!(tick(&mut c, at(1, 11, 59, 59)).custom_clock, "00:00:01");
    assert_eq!(tick(&mut c, at(2, 12, 0, 1)).custom_clock, "23:59:59");
    let mut d = from_lines(&[("time", "12:00:00")], None);
    assert_eq!(tick(&mut d, at(0, 11, 0, 0)).custom_clock, "");
    let mut e = from_lines(&[("time_countdown", "1"), ("time", ":30:")], None);
    assert_eq!(tick(&mut e, at(0, 11, 0, 0)).custom_clock, "");
}

#[test]
fn menu_countdown_takes_precedence_over_time_countdown() {
    let mut c = from_lines(&[("time_countdown", "1"), ("time", "12:00:00")], None);
    tick(&mut c, at(0, 11, 0, 0));
    c.handle_events(false, false, Some(COUNTDOWN), 0);
    assert_eq!(tick(&mut c, at(1, 11, 0, 1)).custom_clock, "00:09:59");
}

#[test]
fn program_popup_lasts_176_frames() {
    let mut c = from_lines(&[("time", "::5")], None);
    assert_eq!(c.stay16(), 1200);
    tick(&mut c, at(0, 1, 1, 5));
    assert!(c.is_popping());
    for _ in 1..=175 {
        tick(&mut c, at(1, 1, 1, 6));
        assert!(c.is_popping());
    }
    let out = tick(&mut c, at(2, 1, 1, 7));
    assert!(!c.is_popping());
    assert!(out.actions.contains(&Action::SetVisible(true)));
    assert!(out.actions.contains(&Action::RestoreWindowPos));
    assert!(c.is_visible());
}

#[test]
fn setup_runs_once() {
    let mut c = from_lines(&[("time", "::5")], None);
    assert_eq!(tick(&mut c, at(0, 1, 1, 4)).actions[0], Action::Initialize);
    for k in 0..300 {
        let out = tick(&mut c, at(k, 1, 1, (5 + k as u32) % 60));
        assert!(!out.actions.contains(&Action::Initialize));
    }
}
