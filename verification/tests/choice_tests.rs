use rust_clock::choice::{choose_sound, choose_tip, sound_setting_is_ok};
use rust_clock::text::string_of;

fn cs(s: &str) -> Vec<char> {
    s.chars().collect()
}

fn sound(sp: &str, i: usize, scheduled: bool) -> String {
    string_of(&choose_sound(&cs(sp), i, scheduled))
}

fn tip(ts: &str, i: usize, scheduled: bool) -> String {
    string_of(&choose_tip(&cs(ts), i, scheduled))
}

#[test]
fn one_sound_for_every_popup() {
    assert_eq!(sound("/app/*sound.ogg", 0, true), "/app/sound.ogg");
    assert_eq!(sound("/app/*sound.ogg", 3, false), "/app/sound.ogg");
}

#[test]
fn sounds_by_popup_time() {
    let sp = "/app/*assets/1.mp3|assets/2.mp3";
    assert_eq!(sound(sp, 0, true), "/app/assets/1.mp3");
    assert_eq!(sound(sp, 1, true), "/app/assets/2.mp3");
    assert_eq!(sound(sp, 2, true), "/app/assets/1.mp3");
}

#[test]
fn countdown_sounds_after_a_star() {
    let sp = "/app/*assets/1.mp3|assets/2.mp3*assets/3.mp3|assets/4.mp3";
    assert_eq!(sound(sp, 1, true), "/app/assets/2.mp3");
    assert_eq!(sound(sp, 0, false), "/app/assets/3.mp3");
    assert_eq!(sound(sp, 1, false), "/app/assets/4.mp3");
    assert_eq!(sound(sp, 5, false), "/app/assets/3.mp3");
    assert_eq!(sound("/app/*a*b*c", 0, false), "");
}

#[test]
fn no_sound_file_leaves_the_directory() {
    assert_eq!(sound("/app/*", 0, true), "/app/");
}

#[test]
fn sound_setting_needs_a_star() {
    assert!(sound_setting_is_ok(&[]));
    assert!(sound_setting_is_ok(&cs("/app/*")));
    assert!(!sound_setting_is_ok(&cs("/app/sound.ogg")));
}

#[test]
fn tips_like_sounds() {
    assert_eq!(tip("by the grave and thee", 2, true), "by the grave and thee");
    assert_eq!(tip("a|b*c|d", 1, true), "b");
    assert_eq!(tip("a|b*c|d", 1, false), "d");
    assert_eq!(tip("a|b*c|d", 7, false), "c");
    assert_eq!(tip("a*b*c", 0, false), "");
}
