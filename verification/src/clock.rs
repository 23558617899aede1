//! The clock itself: its settings and state, and the frame-by-frame rules
//! that pop it up, run its countdown and answer the tray and the menu.
use vstd::prelude::*;
use crate::choice::{choose_sound, choose_tip, sound_setting_is_ok, sound_setting_ok};
use crate::model::{
    begin_popup, clock_time, clock_wf, countdown_stage, elapsed, events_spec, in_i64, init_state,
    lemma_countdown_stage_wf, lemma_events_keep_wf, lemma_tick_keeps_wf, menu_event, popup_stage,
    schedule_stage, slide_phase, stay16, tick_readable, tick_spec, time_countdown_text, tray_event,
    unchanged, Action, ClockView, TickInput,
};
use crate::countdown::{clock_text, countdown_is_readable, countdown_readable, scan_countdown};
use crate::schedule::{
    first_full_time, match_schedule, schedule_is_readable, schedule_match, schedule_readable,
    target_time,
};
use crate::settings::{settings_view, Settings, SettingsView};
use crate::color::{color_denotes, color_of_chars, color_text_is_ok, Rgba};
use crate::frame::{
    black, colors_readable, default_background, frame_title, image_layout, layout_image,
    time_of_day_text, FramePlan,
};
use crate::text::{chars_of, string_of};

verus! {

/// The desktop clock.
pub struct RustClock {
    quit_index: u32,
    time: u64,
    time2show: Vec<char>,
    tikpop: bool,
    visible: bool,
    last_visible: bool,
    sound_path: Vec<char>,
    countdown: Vec<char>,
    countdown_index: u32,
    inited: bool,
    countdown_start: bool,
    countdown_start_time: i64,
    in_time_popup: bool,
    pos_pc: i32,
    pos_dir: Vec<char>,
    custom_bg_color: Vec<char>,
    custom_border_color: Vec<char>,
    custom_number_bg_color: Vec<char>,
    custom_number_color: Vec<char>,
    custom_clock_bg_color: Vec<char>,
    tips_store: Vec<char>,
    show_tips: Vec<char>,
    font_path: Vec<char>,
    show_time: u32,
    image_size: Option<(u32, u32)>,
    init_show: bool,
    timezone: Option<i32>,
    round: bool,
    time_font: Vec<char>,
    time_countdown: bool,
}

impl View for RustClock {
    type V = ClockView;

    closed spec fn view(&self) -> ClockView {
        ClockView {
            quit_index: self.quit_index,
            countdown_index: self.countdown_index,
            time: self.time,
            time2show: self.time2show@,
            tikpop: self.tikpop,
            visible: self.visible,
            last_visible: self.last_visible,
            sound_path: self.sound_path@,
            countdown: self.countdown@,
            inited: self.inited,
            countdown_start: self.countdown_start,
            countdown_start_time: self.countdown_start_time,
            in_time_popup: self.in_time_popup,
            pos_pc: self.pos_pc,
            pos_dir: self.pos_dir@,
            custom_bg_color: self.custom_bg_color@,
            custom_border_color: self.custom_border_color@,
            custom_number_bg_color: self.custom_number_bg_color@,
            custom_number_color: self.custom_number_color@,
            custom_clock_bg_color: self.custom_clock_bg_color@,
            tips_store: self.tips_store@,
            show_tips: self.show_tips@,
            font_path: self.font_path@,
            show_time: self.show_time,
            image_size: self.image_size,
            init_show: self.init_show,
            timezone: self.timezone,
            round: self.round,
            time_font: self.time_font@,
            time_countdown: self.time_countdown,
        }
    }
}

/// The view of an optional string.
pub open spec fn opt_view(o: Option<String>) -> Option<Seq<char>> {
    match o {
        Some(s) => Some(s@),
        None => None,
    }
}

/// The state of a clock just made from its settings.
pub open spec fn initial_view(
    quit_index: u32,
    time2show: Seq<char>,
    sound_path: Seq<char>,
    countdown: Seq<char>,
    countdown_index: u32,
    pos_dir: Seq<char>,
    pos_pc: i32,
    custom_bg_color: Seq<char>,
    custom_border_color: Seq<char>,
    custom_number_bg_color: Seq<char>,
    custom_number_color: Seq<char>,
    custom_clock_bg_color: Seq<char>,
    tips_store: Seq<char>,
    font_path: Seq<char>,
    show_time: u32,
    image_size: Option<(u32, u32)>,
) -> ClockView {
    ClockView {
        quit_index,
        countdown_index,
        time: 0,
        time2show,
        tikpop: false,
        visible: true,
        last_visible: false,
        sound_path,
        countdown,
        inited: false,
        countdown_start: false,
        countdown_start_time: 0,
        in_time_popup: false,
        pos_pc,
        pos_dir,
        custom_bg_color,
        custom_border_color,
        custom_number_bg_color,
        custom_number_color,
        custom_clock_bg_color,
        tips_store,
        show_tips: seq![],
        font_path,
        show_time,
        image_size,
        init_show: true,
        timezone: None,
        round: true,
        time_font: seq![],
        time_countdown: false,
    }
}

/// The state of a clock just made from the settings read from the file and
/// the size of the background image, if one was loaded.
pub open spec fn settings_clock(
    quit_index: u32,
    countdown_index: u32,
    v: SettingsView,
    image_size: Option<(u32, u32)>,
) -> ClockView {
    ClockView {
        quit_index,
        countdown_index,
        time: 0,
        time2show: v.time_str,
        tikpop: false,
        visible: true,
        last_visible: false,
        sound_path: v.sound_path,
        countdown: v.countdown,
        inited: false,
        countdown_start: false,
        countdown_start_time: 0,
        in_time_popup: false,
        pos_pc: v.pos_pc,
        pos_dir: v.pos_dir,
        custom_bg_color: v.custom_bg_color,
        custom_border_color: v.custom_border_color,
        custom_number_bg_color: v.custom_number_bg_color,
        custom_number_color: v.custom_number_color,
        custom_clock_bg_color: v.custom_clock_bg_color,
        tips_store: v.tips,
        show_tips: seq![],
        font_path: v.font_path,
        show_time: v.show_time,
        image_size,
        init_show: v.init_show,
        timezone: v.timezone,
        round: v.round,
        time_font: v.time_font,
        time_countdown: v.time_countdown,
    }
}

/// `x` modulo a day's seconds, in `0..86400`.
fn day_seconds(x: i128) -> (d: u32)
    requires
        -0x1_0000_0000_0000_0000 < x < 0x1_0000_0000_0000_0000,
    ensures
        d as int == x as int % 86400,
        d < 86400,
{
    if x >= 0 {
        let r: u128 = (x as u128) % 86400;
        r as u32
    } else {
        let y: u128 = (-x) as u128;
        let q: u128 = y / 86400;
        let r: u128 = y % 86400;
        proof {
            vstd::arithmetic::div_mod::lemma_fundamental_div_mod(y as int, 86400);
        }
        if r == 0 {
            proof {
                vstd::arithmetic::div_mod::lemma_fundamental_div_mod_converse(
                    x as int,
                    86400,
                    -(q as int),
                    0,
                );
            }
            0
        } else {
            proof {
                vstd::arithmetic::div_mod::lemma_fundamental_div_mod_converse(
                    x as int,
                    86400,
                    -(q as int) - 1,
                    86400 - r as int,
                );
            }
            (86400 - r) as u32
        }
    }
}

/// What a frame gives back to the window.
pub struct TickOutput {
    /// What the window is asked to do, in order.
    pub actions: Vec<Action>,
    /// The sound file to play, if a popup began.
    pub sound: Option<String>,
    /// The countdown text, empty when the clock shows the time of day.
    pub custom_clock: String,
    /// Whether the clock is drawn this frame.
    pub draw: bool,
}

impl RustClock {
    /// The invariant of the clock.
    pub open spec fn wf(&self) -> bool {
        clock_wf(self@)
    }

    /// Makes a clock from its settings; it starts visible, with no popup and
    /// the countdown stopped. `show_time` is in milliseconds (0: 1600), and
    /// `image` is the size of the background image, if one was loaded. The
    /// clock keeps the local time, shows itself at start, has rounded
    /// corners, draws its digits in the tips' font and shows no countdown to
    /// a popup time.
    pub fn new(
        quit_index: u32,
        time2show: String,
        sound_path: String,
        countdown: String,
        countdown_index: u32,
        pos_dir: String,
        pos_pc: i32,
        custom_bg_color: String,
        custom_border_color: String,
        custom_number_bg_color: String,
        custom_number_color: String,
        custom_clock_bg_color: String,
        tips_store: String,
        font_path: String,
        show_time: u32,
        image: Option<(u32, u32)>,
    ) -> (r: Result<RustClock, &'static str>)
        ensures
            r matches Ok(c) && c.wf() && c@ == initial_view(
                quit_index,
                time2show@,
                sound_path@,
                countdown@,
                countdown_index,
                pos_dir@,
                pos_pc,
                custom_bg_color@,
                custom_border_color@,
                custom_number_bg_color@,
                custom_number_color@,
                custom_clock_bg_color@,
                tips_store@,
                font_path@,
                show_time,
                image,
            ),
    {
        let c = RustClock {
            quit_index,
            time: 0,
            time2show: chars_of(time2show.as_str()),
            tikpop: false,
            visible: true,
            last_visible: false,
            sound_path: chars_of(sound_path.as_str()),
            countdown: chars_of(countdown.as_str()),
            countdown_index,
            inited: false,
            countdown_start: false,
            countdown_start_time: 0,
            in_time_popup: false,
            pos_pc,
            pos_dir: chars_of(pos_dir.as_str()),
            custom_bg_color: chars_of(custom_bg_color.as_str()),
            custom_border_color: chars_of(custom_border_color.as_str()),
            custom_number_bg_color: chars_of(custom_number_bg_color.as_str()),
            custom_number_color: chars_of(custom_number_color.as_str()),
            custom_clock_bg_color: chars_of(custom_clock_bg_color.as_str()),
            tips_store: chars_of(tips_store.as_str()),
            show_tips: Vec::new(),
            font_path: chars_of(font_path.as_str()),
            show_time,
            image_size: image,
            init_show: true,
            timezone: None,
            round: true,
            time_font: Vec::new(),
            time_countdown: false,
        };
        Ok(c)
    }

    /// Makes a clock from the settings read from the file and the size of
    /// the background image, if one was loaded.
    pub fn from_settings(
        quit_index: u32,
        countdown_index: u32,
        settings: &Settings,
        image: Option<(u32, u32)>,
    ) -> (c: RustClock)
        ensures
            c.wf(),
            c@ == settings_clock(quit_index, countdown_index, settings_view(*settings), image),
    {
        RustClock {
            quit_index,
            time: 0,
            time2show: chars_of(settings.time_str.as_str()),
            tikpop: false,
            visible: true,
            last_visible: false,
            sound_path: chars_of(settings.sound_path.as_str()),
            countdown: chars_of(settings.countdown.as_str()),
            countdown_index,
            inited: false,
            countdown_start: false,
            countdown_start_time: 0,
            in_time_popup: false,
            pos_pc: settings.pos_pc,
            pos_dir: chars_of(settings.pos_dir.as_str()),
            custom_bg_color: chars_of(settings.custom_bg_color.as_str()),
            custom_border_color: chars_of(settings.custom_border_color.as_str()),
            custom_number_bg_color: chars_of(settings.custom_number_bg_color.as_str()),
            custom_number_color: chars_of(settings.custom_number_color.as_str()),
            custom_clock_bg_color: chars_of(settings.custom_clock_bg_color.as_str()),
            tips_store: chars_of(settings.tips.as_str()),
            show_tips: Vec::new(),
            font_path: chars_of(settings.font_path.as_str()),
            show_time: settings.show_time,
            image_size: image,
            init_show: settings.init_show,
            timezone: settings.timezone,
            round: settings.round,
            time_font: chars_of(settings.time_font.as_str()),
            time_countdown: settings.time_countdown,
        }
    }

    /// The time of day the clock keeps at the given moment: that of its time
    /// zone when one is set, else the local time of day that it is given.
    pub fn clock_time(&self, input: &TickInput) -> (r: (u32, u32, u32))
        ensures
            r == clock_time(self@, *input),
    {
        match self.timezone {
            Some(z) => {
                let x: i128 = input.timestamp as i128 + z as i128 * 3600;
                let d = day_seconds(x);
                (d / 3600, (d % 3600) / 60, d % 60)
            },
            None => (input.hour, input.minute, input.second),
        }
    }

    /// The countdown from the time of day `h:m:sec` to the first fully set
    /// popup time, if there is one.
    fn time_countdown(&self, h: u32, m: u32, sec: u32) -> (r: Option<String>)
        ensures
            match r {
                Some(t) => target_time(self@.time2show) is Some && t@ == time_countdown_text(
                    target_time(self@.time2show).unwrap() as int,
                    h,
                    m,
                    sec,
                ),
                None => target_time(self@.time2show) is None,
            },
    {
        match first_full_time(self.time2show.as_slice()) {
            Some(target) => {
                let now: i64 = h as i64 * 3600 + m as i64 * 60 + sec as i64;
                let left = day_seconds(target as i128 - now as i128);
                Some(time_of_day_text(left / 3600, (left % 3600) / 60, left % 60))
            },
            None => None,
        }
    }

    /// Begins popup `i`.
    fn begin_popup(&mut self, i: usize, scheduled: bool, acts: &mut Vec<Action>) -> (sound:
        Option<String>)
        requires
            sound_setting_ok(old(self)@.sound_path),
        ensures
            final(self)@ == begin_popup(old(self)@, i as nat, scheduled).state,
            final(acts)@ == old(acts)@ + begin_popup(old(self)@, i as nat, scheduled).actions,
            opt_view(sound) == begin_popup(old(self)@, i as nat, scheduled).sound,
    {
        let ghost a0 = acts@;
        self.last_visible = self.visible;
        if self.last_visible {
            acts.push(Action::SaveWindowPos);
        }
        self.visible = true;
        acts.push(Action::SetVisible(true));
        self.time = 0;
        acts.push(Action::MoveToStart);
        let mut sound: Option<String> = None;
        if self.sound_path.len() > 0 {
            let path = choose_sound(self.sound_path.as_slice(), i, scheduled);
            if path.len() > 0 {
                sound = Some(string_of(path.as_slice()));
            }
        }
        if self.tips_store.len() > 0 {
            let tip = choose_tip(self.tips_store.as_slice(), i, scheduled);
            if tip.len() > 0 {
                self.show_tips = tip;
            }
        }
        acts.push(Action::RequestRepaint);
        self.tikpop = true;
        proof {
            let f = begin_popup(old(self)@, i as nat, scheduled);
            assert(acts@ =~= a0 + f.actions);
            assert(self@ == f.state);
        }
        sound
    }

    /// The countdown's part of a frame.
    fn countdown_stage(&mut self, ts: i64, acts: &mut Vec<Action>) -> (r: (
        Option<String>,
        Vec<char>,
    ))
        requires
            (old(self)@.countdown_start && !old(self)@.in_time_popup) ==> in_i64(
                ts - old(self)@.countdown_start_time,
            ) && countdown_readable(old(self)@.countdown, elapsed(old(self)@, ts)),
            (countdown_stage(old(self)@, ts).0.state.tikpop && !old(self)@.tikpop)
                ==> sound_setting_ok(old(self)@.sound_path),
        ensures
            final(self)@ == countdown_stage(old(self)@, ts).0.state,
            final(acts)@ == old(acts)@ + countdown_stage(old(self)@, ts).0.actions,
            opt_view(r.0) == countdown_stage(old(self)@, ts).0.sound,
            r.1@ == countdown_stage(old(self)@, ts).1,
    {
        let ghost s = self@;
        let ghost a0 = acts@;
        if !(self.countdown_start && !self.in_time_popup) {
            assert(acts@ =~= a0 + countdown_stage(s, ts).0.actions);
            return (None, Vec::new());
        }
        let diff: i64 = ts - self.countdown_start_time;
        let over: i32 = #[verifier::truncate] (diff as i32);
        assert(over as int == elapsed(s, ts));
        if self.countdown.len() == 0 {
            let mut sound: Option<String> = None;
            if over > 600 {
                self.countdown_start_time = ts;
                if !self.tikpop {
                    sound = self.begin_popup(0, false, acts);
                }
            }
            let text = clock_text(600 - over as i64, false);
            assert(acts@ =~= a0 + countdown_stage(s, ts).0.actions);
            (sound, text)
        } else {
            let scan = scan_countdown(self.countdown.as_slice(), over, !self.tikpop);
            let ghost items = crate::text::split_on(s.countdown, ',');
            proof {
                crate::countdown::lemma_found_in_list(items, over as int, 0);
            }
            let mut sound: Option<String> = None;
            match scan.ending {
                Some(j) => {
                    sound = self.begin_popup(j, false, acts);
                },
                None => {},
            }
            let ghost f1 = if !s.tikpop && crate::countdown::ending_from(items, over as int, 0) is Some {
                begin_popup(s, crate::countdown::ending_from(items, over as int, 0).unwrap(), false)
            } else {
                unchanged(s)
            };
            assert(acts@ == a0 + f1.actions);
            match scan.current {
                Some(_) => {
                    let text = clock_text(scan.left as i64, true);
                    assert(acts@ =~= a0 + countdown_stage(s, ts).0.actions);
                    (sound, text)
                },
                None => {
                    self.countdown_start_time = ts;
                    if !self.tikpop {
                        sound = self.begin_popup(0, false, acts);
                    }
                    let text = clock_text(scan.left as i64, true);
                    assert(acts@ =~= a0 + countdown_stage(s, ts).0.actions);
                    (sound, text)
                },
            }
        }
    }

    /// A frame of a running popup.
    #[verifier::spinoff_prover]
    #[verifier::rlimit(60)]
    fn popup_stage(&mut self, acts: &mut Vec<Action>)
        requires
            old(self)@.tikpop,
            clock_wf(old(self)@),
        ensures
            final(self)@ == popup_stage(old(self)@).0,
            final(acts)@ == old(acts)@ + popup_stage(old(self)@).1,
    {
        let ghost s = self@;
        let ghost a0 = acts@;
        self.time = self.time + 1;
        acts.push(Action::SetMousePassthrough(false));
        let t = self.time;
        let stay: u64 = if self.show_time == 0 {
            1600
        } else {
            self.show_time as u64
        };
        let t16: u64 = 16 * t;
        if t16 < 800 {
            acts.push(Action::SlideIn(t));
        } else if stay + 800 < t16 && t16 < stay + 1600 {
            acts.push(Action::SlideOut(t16 - stay - 800));
        }
        let ghost a1 = acts@;
        assert(a1 =~= a0 + seq![Action::SetMousePassthrough(false)] + slide_phase(
            t as int,
            stay as int,
        ));
        if t16 > stay + 1600 {
            self.tikpop = false;
            self.show_tips = Vec::new();
            self.in_time_popup = false;
            self.visible = self.last_visible;
            acts.push(Action::SetVisible(self.visible));
            if self.visible {
                acts.push(Action::RestoreWindowPos);
            }
            acts.push(Action::SetMousePassthrough(true));
        }
        if !self.visible {
            self.tikpop = false;
        }
        acts.push(Action::RepaintAfter(16));
        proof {
            let (s3, a3) = popup_stage(s);
            assert(acts@ =~= a0 + a3);
            assert(self@ == s3);
        }
    }

    /// A frame without a popup.
    fn schedule_stage(
        &mut self,
        hour: u32,
        minute: u32,
        second: u32,
        acts: &mut Vec<Action>,
    ) -> (sound: Option<String>)
        requires
            schedule_readable(old(self)@.time2show, hour as nat, minute as nat, second as nat),
            schedule_match(old(self)@.time2show, hour as nat, minute as nat, second as nat) is Some
                ==> sound_setting_ok(old(self)@.sound_path),
        ensures
            final(self)@ == schedule_stage(old(self)@, hour, minute, second).state,
            final(acts)@ == old(acts)@ + schedule_stage(old(self)@, hour, minute, second).actions,
            opt_view(sound) == schedule_stage(old(self)@, hour, minute, second).sound,
    {
        let ghost s = self@;
        let ghost a0 = acts@;
        self.in_time_popup = false;
        let mut sound: Option<String> = None;
        match match_schedule(self.time2show.as_slice(), hour, minute, second) {
            Some(i) => {
                self.in_time_popup = true;
                sound = self.begin_popup(i, true, acts);
            },
            None => {},
        }
        acts.push(Action::RepaintAfter(300));
        proof {
            let f = schedule_stage(s, hour, minute, second);
            assert(acts@ =~= a0 + f.actions);
        }
        sound
    }

    /// Whether a frame can run now: the settings that it reads can be read
    /// (the entries of `time` and `countdown` that are looked at have their
    /// fields and numbers in range, and the sound setting has its `*` when a
    /// popup begins).
    pub fn tick_is_readable(&self, input: &TickInput) -> (r: bool)
        ensures
            r == tick_readable(self@, *input),
    {
        let ghost s = self@;
        let ghost s0 = init_state(s);
        let active = self.countdown_start && !self.in_time_popup;
        let mut fired_cd = false;
        if active {
            let diff = match input.timestamp.checked_sub(self.countdown_start_time) {
                Some(d) => d,
                None => {
                    return false;
                },
            };
            let over: i32 = #[verifier::truncate] (diff as i32);
            assert(over as int == elapsed(s, input.timestamp));
            if !countdown_is_readable(self.countdown.as_slice(), over) {
                return false;
            }
            if !self.tikpop {
                if self.countdown.len() == 0 {
                    fired_cd = over > 600;
                } else {
                    let scan = scan_countdown(self.countdown.as_slice(), over, true);
                    fired_cd = scan.ending.is_some() || scan.current.is_none();
                }
            }
        }
        let popping = self.tikpop || fired_cd;
        let ghost f1 = countdown_stage(s0, input.timestamp).0;
        assert(popping == f1.state.tikpop);
        assert(fired_cd == (f1.state.tikpop && !s.tikpop));
        let mut fires = fired_cd;
        if !popping {
            let (h, m, sec) = self.clock_time(input);
            if !schedule_is_readable(self.time2show.as_slice(), h, m, sec) {
                return false;
            }
            fires = match_schedule(self.time2show.as_slice(), h, m, sec).is_some();
        }
        if fires && !sound_setting_is_ok(self.sound_path.as_slice()) {
            return false;
        }
        true
    }

    /// One frame of the clock at the given time of day: runs the countdown,
    /// advances or ends a running popup, or begins a scheduled one. The
    /// actions are for the window, in order; `draw` says whether the clock is
    /// drawn.
    #[verifier::spinoff_prover]
    #[verifier::rlimit(80)]
    pub fn tick(&mut self, input: &TickInput) -> (out: TickOutput)
        requires
            old(self).wf(),
            tick_readable(old(self)@, *input),
        ensures
            final(self).wf(),
            final(self)@ == tick_spec(old(self)@, *input).state,
            out.actions@ == tick_spec(old(self)@, *input).actions,
            opt_view(out.sound) == tick_spec(old(self)@, *input).sound,
            out.custom_clock@ == tick_spec(old(self)@, *input).custom_clock,
            out.draw == tick_spec(old(self)@, *input).state.visible,
    {
        let ghost s = self@;
        proof {
            lemma_tick_keeps_wf(s, *input);
        }
        let mut acts: Vec<Action> = Vec::new();
        if !self.inited {
            acts.push(Action::Initialize);
            if !self.init_show {
                self.visible = false;
                acts.push(Action::SetVisible(false));
            }
        }
        self.inited = true;
        assert(self@ == init_state(s));
        let (h, m, sec) = self.clock_time(input);
        let (sound1, custom) = self.countdown_stage(input.timestamp, &mut acts);
        proof {
            lemma_countdown_stage_wf(init_state(s), input.timestamp);
        }
        let mut shown = string_of(custom.as_slice());
        if custom.len() == 0 && self.time_countdown {
            match self.time_countdown(h, m, sec) {
                Some(t) => {
                    shown = t;
                },
                None => {},
            }
        }
        let sound = if self.tikpop {
            self.popup_stage(&mut acts);
            sound1
        } else {
            self.schedule_stage(h, m, sec, &mut acts)
        };
        proof {
            let t = tick_spec(s, *input);
            assert(acts@ =~= t.actions);
        }
        TickOutput { actions: acts, sound, custom_clock: shown, draw: self.visible }
    }

    /// A left click on the tray icon.
    fn tray_clicked(&mut self, acts: &mut Vec<Action>)
        ensures
            final(self)@ == tray_event(old(self)@).0,
            final(acts)@ == old(acts)@ + tray_event(old(self)@).1,
    {
        let ghost a0 = acts@;
        self.visible = !self.visible;
        acts.push(Action::SetVisible(self.visible));
        self.tikpop = false;
        self.time = 0;
        if self.visible {
            acts.push(Action::MoveToTrayPos);
            acts.push(Action::SetMousePassthrough(true));
        } else {
            acts.push(Action::SaveWindowPos);
        }
        acts.push(Action::RequestRepaint);
        assert(acts@ =~= a0 + tray_event(old(self)@).1);
    }

    /// A menu item chosen.
    fn menu_chosen(&mut self, id: u32, timestamp: i64, acts: &mut Vec<Action>)
        ensures
            final(self)@ == menu_event(old(self)@, id, timestamp).0,
            final(acts)@ == old(acts)@ + menu_event(old(self)@, id, timestamp).1,
    {
        let ghost a0 = acts@;
        if id == self.quit_index {
            acts.push(Action::Quit);
        } else if id == self.countdown_index {
            self.countdown_start = !self.countdown_start;
            if self.countdown_start {
                self.visible = true;
                acts.push(Action::SetVisible(true));
                self.countdown_start_time = timestamp;
            }
            acts.push(Action::RequestRepaint);
        }
        assert(acts@ =~= a0 + menu_event(old(self)@, id, timestamp).1);
    }

    /// The events after a frame, in the order the window takes them: the
    /// close button (offered only while no popup runs), a left click on the
    /// tray icon, and the menu item chosen, if any.
    pub fn handle_events(
        &mut self,
        close_clicked: bool,
        tray_clicked: bool,
        menu: Option<u32>,
        timestamp: i64,
    ) -> (acts: Vec<Action>)
        requires
            old(self).wf(),
            close_clicked ==> !old(self)@.tikpop,
        ensures
            final(self).wf(),
            final(self)@ == events_spec(old(self)@, close_clicked, tray_clicked, menu, timestamp).0,
            acts@ == events_spec(old(self)@, close_clicked, tray_clicked, menu, timestamp).1,
    {
        let ghost s = self@;
        proof {
            lemma_events_keep_wf(s, close_clicked, tray_clicked, menu, timestamp);
        }
        let mut acts: Vec<Action> = Vec::new();
        if close_clicked {
            self.visible = false;
            acts.push(Action::SetVisible(false));
        }
        if tray_clicked {
            self.tray_clicked(&mut acts);
        }
        match menu {
            Some(id) => self.menu_chosen(id, timestamp, &mut acts),
            None => {},
        }
        proof {
            let e = events_spec(s, close_clicked, tray_clicked, menu, timestamp);
            assert(acts@ =~= e.1);
        }
        acts
    }

    /// Whether the five colour settings can be read.
    pub fn colors_are_readable(&self) -> (r: bool)
        ensures
            r == colors_readable(
                self@.custom_bg_color,
                self@.custom_border_color,
                self@.custom_number_bg_color,
                self@.custom_number_color,
                self@.custom_clock_bg_color,
            ),
    {
        color_text_is_ok(self.custom_bg_color.as_slice()) && color_text_is_ok(
            self.custom_border_color.as_slice(),
        ) && color_text_is_ok(self.custom_number_bg_color.as_slice()) && color_text_is_ok(
            self.custom_number_color.as_slice(),
        ) && color_text_is_ok(self.custom_clock_bg_color.as_slice())
    }

    /// What the frame shows, given the countdown text of the frame, the
    /// moment and the theme's text colour: the background (dark grey by
    /// default), the border, the digits and the clock face (the text colour
    /// by default), the box behind the digits (black by default), the digits
    /// themselves (the countdown, else the clock's time of day), the tip,
    /// the hands at the clock's time of day, where the background image
    /// goes, the face unless an image stands in for it, the corners, the
    /// digits' font, and the close button unless a popup runs.
    pub fn frame_plan(&self, custom_clock: &String, input: &TickInput, text_color: Rgba) -> (plan:
        FramePlan)
        requires
            colors_readable(
                self@.custom_bg_color,
                self@.custom_border_color,
                self@.custom_number_bg_color,
                self@.custom_number_color,
                self@.custom_clock_bg_color,
            ),
            self@.timezone is None ==> input.hour < 24 && input.minute < 60 && input.second < 60,
        ensures
            color_denotes(self@.custom_bg_color, default_background(), plan.background),
            color_denotes(self@.custom_border_color, text_color, plan.border),
            color_denotes(self@.custom_number_bg_color, black(), plan.number_background),
            color_denotes(self@.custom_number_color, text_color, plan.number),
            color_denotes(self@.custom_clock_bg_color, text_color, plan.clock_background),
            plan.hands == clock_time(self@, *input),
            plan.title@ == frame_title(
                custom_clock@,
                plan.hands.0 as nat,
                plan.hands.1 as nat,
                plan.hands.2 as nat,
            ),
            opt_view(plan.tip) == (if self@.show_tips.len() > 0 {
                Some(self@.show_tips)
            } else {
                None
            }),
            plan.image == image_layout(self@.image_size),
            plan.clock_face == (self@.image_size is None),
            plan.rounded == self@.round,
            plan.time_font == (self@.time_font.len() > 0),
            plan.close_button == !self@.tikpop,
    {
        let background = color_of_chars(
            self.custom_bg_color.as_slice(),
            Rgba { r: 32, g: 33, b: 36, a: 200 },
        );
        let border = color_of_chars(self.custom_border_color.as_slice(), text_color);
        let number_background = color_of_chars(
            self.custom_number_bg_color.as_slice(),
            crate::color::opaque_color(0, 0, 0),
        );
        let number = color_of_chars(self.custom_number_color.as_slice(), text_color);
        let clock_background = color_of_chars(self.custom_clock_bg_color.as_slice(), text_color);
        let hands = self.clock_time(input);
        let title = if custom_clock.as_str().unicode_len() > 0 {
            custom_clock.clone()
        } else {
            time_of_day_text(hands.0, hands.1, hands.2)
        };
        let tip = if self.show_tips.len() > 0 {
            Some(string_of(self.show_tips.as_slice()))
        } else {
            None
        };
        FramePlan {
            background,
            border,
            number_background,
            number,
            clock_background,
            title,
            tip,
            hands,
            image: layout_image(self.image_size),
            clock_face: self.image_size.is_none(),
            rounded: self.round,
            time_font: self.time_font.len() > 0,
            close_button: !self.tikpop,
        }
    }

    /// Whether the window slides in from the right edge (`pos` begins with
    /// `right`); otherwise from the left.
    pub fn from_right(&self) -> (r: bool)
        ensures
            r == (self@.pos_dir == "right"@),
    {
        crate::text::chars_equal_str(self.pos_dir.as_slice(), "right")
    }

    /// The start height, in percent of the screen's height (0: the default).
    pub fn pos_pc(&self) -> (r: i32)
        ensures
            r == self@.pos_pc,
    {
        self.pos_pc
    }

    /// The font file to use for the tips (empty: the system's default).
    pub fn font_path(&self) -> (r: String)
        ensures
            r@ == self@.font_path,
    {
        string_of(self.font_path.as_slice())
    }

    /// The font file to use for the digits (empty: the tips' font).
    pub fn time_font(&self) -> (r: String)
        ensures
            r@ == self@.time_font,
    {
        string_of(self.time_font.as_slice())
    }

    /// Whether a popup runs.
    pub fn is_popping(&self) -> (r: bool)
        ensures
            r == self@.tikpop,
    {
        self.tikpop
    }

    /// Whether the clock is shown.
    pub fn is_visible(&self) -> (r: bool)
        ensures
            r == self@.visible,
    {
        self.visible
    }

    /// How long a popup stays, in sixteenths of a frame.
    pub fn stay16(&self) -> (r: u64)
        ensures
            r == stay16(self@.show_time),
    {
        if self.show_time == 0 {
            1600
        } else {
            self.show_time as u64
        }
    }
}

} // verus!
