//! Reading the `[Config]` section of `conf.ini`: the popup times, the
//! sounds, the countdown, the position, the colours, the popup's stay and
//! tips, the fonts, the background image, the time zone and the frame.
use vstd::prelude::*;
use crate::countdown::append_chars;
use crate::decimal::{parse_i32, parse_i32_spec, parse_u32, parse_u32_spec};
use crate::text::{chars_equal_str, chars_of, split_chars, split_on, string_of, views};

verus! {

/// One `key=value` line of the file, with the section it stands in (`None`
/// before the first section header).
pub struct ConfigEntry {
    pub section: Option<String>,
    pub key: String,
    pub value: String,
}

/// An entry as plain sequences.
pub struct EntryView {
    pub section: Option<Seq<char>>,
    pub key: Seq<char>,
    pub value: Seq<char>,
}

pub open spec fn entry_view(e: ConfigEntry) -> EntryView {
    EntryView {
        section: match e.section {
            Some(s) => Some(s@),
            None => None,
        },
        key: e.key@,
        value: e.value@,
    }
}

pub open spec fn entry_views(es: Seq<ConfigEntry>) -> Seq<EntryView> {
    es.map_values(|e: ConfigEntry| entry_view(e))
}

/// The settings the clock is made with.
pub struct Settings {
    pub time_str: String,
    pub sound_path: String,
    pub countdown: String,
    pub pos_dir: String,
    pub pos_pc: i32,
    pub custom_bg_color: String,
    pub custom_border_color: String,
    pub custom_number_bg_color: String,
    pub custom_number_color: String,
    pub custom_clock_bg_color: String,
    /// How long a popup stays, in milliseconds.
    pub show_time: u32,
    /// The tips shown by popups, in the form of `sound`.
    pub tips: String,
    /// The font file for the tips.
    pub font_path: String,
    /// The background image's file.
    pub bg: String,
    /// Whether the clock is shown once it has started.
    pub init_show: bool,
    /// The time zone, in hours east of UTC; `None`: the local time.
    pub timezone: Option<i32>,
    /// Whether the frame has rounded corners.
    pub round: bool,
    /// The font file for the digits.
    pub time_font: String,
    /// Whether the clock counts down to the first fully set popup time.
    pub time_countdown: bool,
}

/// The settings as plain sequences.
pub struct SettingsView {
    pub time_str: Seq<char>,
    pub sound_path: Seq<char>,
    pub countdown: Seq<char>,
    pub pos_dir: Seq<char>,
    pub pos_pc: i32,
    pub custom_bg_color: Seq<char>,
    pub custom_border_color: Seq<char>,
    pub custom_number_bg_color: Seq<char>,
    pub custom_number_color: Seq<char>,
    pub custom_clock_bg_color: Seq<char>,
    pub show_time: u32,
    pub tips: Seq<char>,
    pub font_path: Seq<char>,
    pub bg: Seq<char>,
    pub init_show: bool,
    pub timezone: Option<i32>,
    pub round: bool,
    pub time_font: Seq<char>,
    pub time_countdown: bool,
}

pub open spec fn settings_view(s: Settings) -> SettingsView {
    SettingsView {
        time_str: s.time_str@,
        sound_path: s.sound_path@,
        countdown: s.countdown@,
        pos_dir: s.pos_dir@,
        pos_pc: s.pos_pc,
        custom_bg_color: s.custom_bg_color@,
        custom_border_color: s.custom_border_color@,
        custom_number_bg_color: s.custom_number_bg_color@,
        custom_number_color: s.custom_number_color@,
        custom_clock_bg_color: s.custom_clock_bg_color@,
        show_time: s.show_time,
        tips: s.tips@,
        font_path: s.font_path@,
        bg: s.bg@,
        init_show: s.init_show,
        timezone: s.timezone,
        round: s.round,
        time_font: s.time_font@,
        time_countdown: s.time_countdown,
    }
}

/// The settings before any line is read: no popup times, the sounds looked
/// up in the program's directory, the ten-minute countdown, the left edge,
/// a popup of 1200 ms (176 frames in all), no tips, no fonts and no image,
/// shown at start, the local time, rounded corners, no countdown to a
/// popup time.
pub open spec fn default_settings(dir: Seq<char>) -> SettingsView {
    SettingsView {
        time_str: seq![],
        sound_path: dir + "/*"@,
        countdown: seq![],
        pos_dir: "left"@,
        pos_pc: 0,
        custom_bg_color: seq![],
        custom_border_color: seq![],
        custom_number_bg_color: seq![],
        custom_number_color: seq![],
        custom_clock_bg_color: seq![],
        show_time: 1200,
        tips: seq![],
        font_path: seq![],
        bg: seq![],
        init_show: true,
        timezone: None,
        round: true,
        time_font: seq![],
        time_countdown: false,
    }
}

/// `s` without any `c`.
pub open spec fn without_char(s: Seq<char>, c: char) -> Seq<char>
    decreases s.len(),
{
    if s.len() == 0 {
        s
    } else if s.last() == c {
        without_char(s.drop_last(), c)
    } else {
        without_char(s.drop_last(), c).push(s.last())
    }
}

/// The percentage of a `pos` value `direction,height%`.
pub open spec fn pos_percent(value: Seq<char>) -> Option<i32> {
    parse_i32_spec(without_char(split_on(value, ',')[1], '%'))
}

/// Whether a line belongs to the `[Config]` section.
pub open spec fn in_config(e: EntryView) -> bool {
    e.section == Some("Config"@)
}

/// What one line does to the settings: `time`, `countdown`, the colours,
/// `tips`, `font_path`, `bg` and `time_font` replace theirs, `sound` is
/// added after the directory, `pos` gives the direction and, with a second
/// part, the height in percent, `show_time` and `timezone` are numbers,
/// `init_show=0` and `round=0` turn those off, and `time_countdown=1`
/// turns that on.
pub open spec fn apply_entry(st: SettingsView, e: EntryView) -> SettingsView {
    if !in_config(e) {
        st
    } else if e.key == "time"@ {
        SettingsView { time_str: e.value, ..st }
    } else if e.key == "sound"@ {
        SettingsView { sound_path: st.sound_path + e.value, ..st }
    } else if e.key == "countdown"@ {
        SettingsView { countdown: e.value, ..st }
    } else if e.key == "pos"@ {
        let arr = split_on(e.value, ',');
        SettingsView {
            pos_dir: arr[0],
            pos_pc: if arr.len() == 2 {
                pos_percent(e.value).unwrap()
            } else {
                st.pos_pc
            },
            ..st
        }
    } else if e.key == "bg_color"@ {
        SettingsView { custom_bg_color: e.value, ..st }
    } else if e.key == "border_color"@ {
        SettingsView { custom_border_color: e.value, ..st }
    } else if e.key == "number_bg_color"@ {
        SettingsView { custom_number_bg_color: e.value, ..st }
    } else if e.key == "number_color"@ {
        SettingsView { custom_number_color: e.value, ..st }
    } else if e.key == "clock_bg_color"@ {
        SettingsView { custom_clock_bg_color: e.value, ..st }
    } else if e.key == "show_time"@ {
        SettingsView { show_time: parse_u32_spec(e.value).unwrap(), ..st }
    } else if e.key == "tips"@ {
        SettingsView { tips: e.value, ..st }
    } else if e.key == "font_path"@ {
        SettingsView { font_path: e.value, ..st }
    } else if e.key == "bg"@ {
        SettingsView { bg: e.value, ..st }
    } else if e.key == "init_show"@ {
        SettingsView { init_show: e.value != "0"@, ..st }
    } else if e.key == "timezone"@ {
        SettingsView { timezone: parse_i32_spec(e.value), ..st }
    } else if e.key == "round"@ {
        SettingsView { round: e.value != "0"@, ..st }
    } else if e.key == "time_font"@ {
        SettingsView { time_font: e.value, ..st }
    } else if e.key == "time_countdown"@ {
        SettingsView { time_countdown: e.value == "1"@, ..st }
    } else {
        st
    }
}

/// The settings after reading the lines in order.
pub open spec fn settings_from(es: Seq<EntryView>, dir: Seq<char>) -> SettingsView
    decreases es.len(),
{
    if es.len() == 0 {
        default_settings(dir)
    } else {
        apply_entry(settings_from(es.drop_last(), dir), es.last())
    }
}

/// Whether a line can be read: a `pos` line of `[Config]` with two parts
/// has a height that reads as `i32` once its `%` are dropped, a
/// `show_time` line reads as `u32` and a `timezone` line as `i32`.
pub open spec fn entry_readable(e: EntryView) -> bool {
    &&& (in_config(e) && e.key == "pos"@ && split_on(e.value, ',').len() == 2) ==> pos_percent(
        e.value,
    ) is Some
    &&& (in_config(e) && e.key == "show_time"@) ==> parse_u32_spec(e.value) is Some
    &&& (in_config(e) && e.key == "timezone"@) ==> parse_i32_spec(e.value) is Some
}

/// Whether all lines can be read.
pub open spec fn entries_readable(es: Seq<EntryView>) -> bool {
    forall|i: int| 0 <= i < es.len() ==> entry_readable(#[trigger] es[i])
}

/// `s` without any `c`.
fn drop_char(s: &[char], c: char) -> (v: Vec<char>)
    ensures
        v@ == without_char(s@, c),
{
    let mut v: Vec<char> = Vec::new();
    let mut i: usize = 0;
    while i < s.len()
        invariant
            i <= s@.len(),
            v@ == without_char(s@.take(i as int), c),
        decreases s@.len() - i,
    {
        assert(s@.take(i + 1).drop_last() =~= s@.take(i as int));
        if s[i] != c {
            v.push(s[i]);
        }
        i = i + 1;
    }
    assert(s@.take(s@.len() as int) =~= s@);
    v
}

/// The percentage of a `pos` value with two parts.
fn read_pos_percent(value: &[char]) -> (r: Option<i32>)
    requires
        split_on(value@, ',').len() == 2,
    ensures
        r == pos_percent(value@),
{
    let arr = split_chars(value, ',');
    assert(views(arr@)[1] == arr@[1]@);
    let digits = drop_char(arr[1].as_slice(), '%');
    parse_i32(digits.as_slice())
}

/// Whether a line belongs to the `[Config]` section.
fn is_config(e: &ConfigEntry) -> (r: bool)
    ensures
        r == in_config(entry_view(*e)),
{
    match &e.section {
        Some(s) => {
            let sc = chars_of(s.as_str());
            chars_equal_str(sc.as_slice(), "Config")
        },
        None => false,
    }
}

/// Whether all lines can be read.
pub fn entries_are_readable(entries: &Vec<ConfigEntry>) -> (r: bool)
    ensures
        r == entries_readable(entry_views(entries@)),
{
    let ghost es = entry_views(entries@);
    let mut i: usize = 0;
    while i < entries.len()
        invariant
            es == entry_views(entries@),
            i <= entries@.len(),
            forall|j: int| 0 <= j < i ==> entry_readable(#[trigger] es[j]),
        decreases entries@.len() - i,
    {
        let e = &entries[i];
        assert(es[i as int] == entry_view(*e));
        proof {
            reveal_strlit("pos");
            reveal_strlit("show_time");
            reveal_strlit("timezone");
            assert("pos"@.len() == 3 && "show_time"@.len() == 9 && "timezone"@.len() == 8);
        }
        if is_config(e) {
            let k = chars_of(e.key.as_str());
            let v = chars_of(e.value.as_str());
            if chars_equal_str(k.as_slice(), "pos") {
                let arr = split_chars(v.as_slice(), ',');
                if arr.len() == 2 {
                    if read_pos_percent(v.as_slice()).is_none() {
                        assert(!entry_readable(es[i as int]));
                        return false;
                    }
                }
            } else if chars_equal_str(k.as_slice(), "show_time") {
                if parse_u32(v.as_slice()).is_none() {
                    assert(!entry_readable(es[i as int]));
                    return false;
                }
            } else if chars_equal_str(k.as_slice(), "timezone") {
                if parse_i32(v.as_slice()).is_none() {
                    assert(!entry_readable(es[i as int]));
                    return false;
                }
            }
        }
        assert(entry_readable(es[i as int]));
        i = i + 1;
    }
    true
}

/// Settings as growing character vectors.
struct Building {
    time_str: Vec<char>,
    sound_path: Vec<char>,
    countdown: Vec<char>,
    pos_dir: Vec<char>,
    pos_pc: i32,
    bg: Vec<char>,
    border: Vec<char>,
    number_bg: Vec<char>,
    number: Vec<char>,
    clock_bg: Vec<char>,
    show_time: u32,
    tips: Vec<char>,
    font_path: Vec<char>,
    bg_image: Vec<char>,
    init_show: bool,
    timezone: Option<i32>,
    round: bool,
    time_font: Vec<char>,
    time_countdown: bool,
}

spec fn building_view(b: Building) -> SettingsView {
    SettingsView {
        time_str: b.time_str@,
        sound_path: b.sound_path@,
        countdown: b.countdown@,
        pos_dir: b.pos_dir@,
        pos_pc: b.pos_pc,
        custom_bg_color: b.bg@,
        custom_border_color: b.border@,
        custom_number_bg_color: b.number_bg@,
        custom_number_color: b.number@,
        custom_clock_bg_color: b.clock_bg@,
        show_time: b.show_time,
        tips: b.tips@,
        font_path: b.font_path@,
        bg: b.bg_image@,
        init_show: b.init_show,
        timezone: b.timezone,
        round: b.round,
        time_font: b.time_font@,
        time_countdown: b.time_countdown,
    }
}

/// Applies one line.
fn apply(b: &mut Building, e: &ConfigEntry)
    requires
        entry_readable(entry_view(*e)),
    ensures
        building_view(*final(b)) == apply_entry(building_view(*old(b)), entry_view(*e)),
{
    if !is_config(e) {
        return;
    }
    let k = chars_of(e.key.as_str());
    let v = chars_of(e.value.as_str());
    if chars_equal_str(k.as_slice(), "time") {
        b.time_str = v;
    } else if chars_equal_str(k.as_slice(), "sound") {
        append_chars(&mut b.sound_path, v.as_slice());
    } else if chars_equal_str(k.as_slice(), "countdown") {
        b.countdown = v;
    } else if chars_equal_str(k.as_slice(), "pos") {
        let arr = split_chars(v.as_slice(), ',');
        proof {
            crate::text::lemma_split_nonempty(v@, ',');
        }
        assert(views(arr@)[0] == arr@[0]@);
        if arr.len() == 2 {
            b.pos_pc = read_pos_percent(v.as_slice()).unwrap();
        }
        let mut d: Vec<char> = Vec::new();
        append_chars(&mut d, arr[0].as_slice());
        b.pos_dir = d;
    } else if chars_equal_str(k.as_slice(), "bg_color") {
        b.bg = v;
    } else if chars_equal_str(k.as_slice(), "border_color") {
        b.border = v;
    } else if chars_equal_str(k.as_slice(), "number_bg_color") {
        b.number_bg = v;
    } else if chars_equal_str(k.as_slice(), "number_color") {
        b.number = v;
    } else if chars_equal_str(k.as_slice(), "clock_bg_color") {
        b.clock_bg = v;
    } else if chars_equal_str(k.as_slice(), "show_time") {
        b.show_time = parse_u32(v.as_slice()).unwrap();
    } else if chars_equal_str(k.as_slice(), "tips") {
        b.tips = v;
    } else if chars_equal_str(k.as_slice(), "font_path") {
        b.font_path = v;
    } else if chars_equal_str(k.as_slice(), "bg") {
        b.bg_image = v;
    } else if chars_equal_str(k.as_slice(), "init_show") {
        b.init_show = !chars_equal_str(v.as_slice(), "0");
    } else if chars_equal_str(k.as_slice(), "timezone") {
        b.timezone = parse_i32(v.as_slice());
    } else if chars_equal_str(k.as_slice(), "round") {
        b.round = !chars_equal_str(v.as_slice(), "0");
    } else if chars_equal_str(k.as_slice(), "time_font") {
        b.time_font = v;
    } else if chars_equal_str(k.as_slice(), "time_countdown") {
        b.time_countdown = chars_equal_str(v.as_slice(), "1");
    }
}

/// Reads the settings from the lines of the file, in order, starting from
/// the defaults for a program in `exe_dir`.
pub fn read_settings(entries: &Vec<ConfigEntry>, exe_dir: &String) -> (st: Settings)
    requires
        entries_readable(entry_views(entries@)),
    ensures
        settings_view(st) == settings_from(entry_views(entries@), exe_dir@),
{
    let ghost es = entry_views(entries@);
    let mut sound_path = chars_of(exe_dir.as_str());
    let sep = chars_of("/*");
    append_chars(&mut sound_path, sep.as_slice());
    let mut b = Building {
        time_str: Vec::new(),
        sound_path,
        countdown: Vec::new(),
        pos_dir: chars_of("left"),
        pos_pc: 0,
        bg: Vec::new(),
        border: Vec::new(),
        number_bg: Vec::new(),
        number: Vec::new(),
        clock_bg: Vec::new(),
        show_time: 1200,
        tips: Vec::new(),
        font_path: Vec::new(),
        bg_image: Vec::new(),
        init_show: true,
        timezone: None,
        round: true,
        time_font: Vec::new(),
        time_countdown: false,
    };
    assert(building_view(b) == settings_from(es.take(0), exe_dir@));
    let mut i: usize = 0;
    while i < entries.len()
        invariant
            es == entry_views(entries@),
            entries_readable(es),
            i <= entries@.len(),
            building_view(b) == settings_from(es.take(i as int), exe_dir@),
        decreases entries@.len() - i,
    {
        assert(es[i as int] == entry_view(entries@[i as int]));
        assert(entry_readable(es[i as int]));
        apply(&mut b, &entries[i]);
        assert(es.take(i + 1).drop_last() =~= es.take(i as int));
        i = i + 1;
    }
    assert(es.take(entries@.len() as int) =~= es);
    Settings {
        time_str: string_of(b.time_str.as_slice()),
        sound_path: string_of(b.sound_path.as_slice()),
        countdown: string_of(b.countdown.as_slice()),
        pos_dir: string_of(b.pos_dir.as_slice()),
        pos_pc: b.pos_pc,
        custom_bg_color: string_of(b.bg.as_slice()),
        custom_border_color: string_of(b.border.as_slice()),
        custom_number_bg_color: string_of(b.number_bg.as_slice()),
        custom_number_color: string_of(b.number.as_slice()),
        custom_clock_bg_color: string_of(b.clock_bg.as_slice()),
        show_time: b.show_time,
        tips: string_of(b.tips.as_slice()),
        font_path: string_of(b.font_path.as_slice()),
        bg: string_of(b.bg_image.as_slice()),
        init_show: b.init_show,
        timezone: b.timezone,
        round: b.round,
        time_font: string_of(b.time_font.as_slice()),
        time_countdown: b.time_countdown,
    }
}

} // verus!
