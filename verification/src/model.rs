//! The clock's state and what one frame, and the events after it, do to it.
use vstd::prelude::*;
use crate::choice::{sound_choice, sound_setting_ok, tip_choice};
use crate::countdown::{
    break_from, countdown_readable, countdown_text, default_countdown_text, ending_from,
    first_nonzero_from, total_upto,
};
use crate::frame::time_text;
use crate::schedule::{schedule_match, schedule_readable, target_time};
use crate::text::split_on;

verus! {

/// What the window and the program are asked to do, in order.
#[derive(Clone, Copy, Debug, PartialEq, Eq, Structural)]
pub enum Action {
    /// The first frame: load the fonts and the background image, and work
    /// out the start position.
    Initialize,
    /// Remember where the window stands now.
    SaveWindowPos,
    /// Show or hide the window.
    SetVisible(bool),
    /// Put the window at its start position, off the screen's edge.
    MoveToStart,
    /// Repaint at once.
    RequestRepaint,
    /// Let the mouse pass through the window, or not.
    SetMousePassthrough(bool),
    /// Slide in: frame `n` of the popup, `n` of 100 half-turns of the sine.
    SlideIn(u64),
    /// Slide out: `k` of 1600 half-turns of the sine.
    SlideOut(u64),
    /// Put the window back where it was remembered.
    RestoreWindowPos,
    /// Repaint after this many milliseconds.
    RepaintAfter(u64),
    /// Put the window at the left edge, at the start height.
    MoveToTrayPos,
    /// End the program.
    Quit,
}

/// The state of the clock.
pub struct ClockView {
    pub quit_index: u32,
    pub countdown_index: u32,
    /// Frames since the popup began.
    pub time: u64,
    /// The `time` setting.
    pub time2show: Seq<char>,
    /// Whether a popup is running.
    pub tikpop: bool,
    pub visible: bool,
    /// Whether the window was visible when the popup began.
    pub last_visible: bool,
    /// The sound setting, after the directory and a `*`.
    pub sound_path: Seq<char>,
    /// The countdown setting.
    pub countdown: Seq<char>,
    pub inited: bool,
    /// Whether the countdown runs.
    pub countdown_start: bool,
    /// When the current countdown round began (seconds since the epoch).
    pub countdown_start_time: i64,
    /// Whether the running popup is a scheduled one.
    pub in_time_popup: bool,
    pub pos_pc: i32,
    pub pos_dir: Seq<char>,
    pub custom_bg_color: Seq<char>,
    pub custom_border_color: Seq<char>,
    pub custom_number_bg_color: Seq<char>,
    pub custom_number_color: Seq<char>,
    pub custom_clock_bg_color: Seq<char>,
    /// The tips setting.
    pub tips_store: Seq<char>,
    /// The tip shown now.
    pub show_tips: Seq<char>,
    pub font_path: Seq<char>,
    /// How long a popup stays, in milliseconds (0: the default).
    pub show_time: u32,
    /// The size of the background image, when one is shown.
    pub image_size: Option<(u32, u32)>,
    /// Whether the clock is shown once it has started.
    pub init_show: bool,
    /// The time zone shown, in hours east of UTC; `None`: the local time.
    pub timezone: Option<i32>,
    /// Whether the frame has rounded corners.
    pub round: bool,
    /// The font file for the digits (empty: the tips' font).
    pub time_font: Seq<char>,
    /// Whether the clock counts down to the first fully set popup time.
    pub time_countdown: bool,
}

/// The popup's stay in sixteenths of a frame: the setting's milliseconds at
/// one frame per 16 ms, or 100 frames when it is 0.
pub open spec fn stay16(ms: u32) -> int {
    if ms == 0 {
        1600
    } else {
        ms as int
    }
}

/// The invariant of the clock: the frame count stays within the popup's
/// length, and a popup runs only while the window is visible.
pub open spec fn clock_wf(s: ClockView) -> bool {
    &&& 16 * s.time <= stay16(s.show_time) + 1616
    &&& s.tikpop ==> 16 * s.time <= stay16(s.show_time) + 1600
    &&& s.tikpop ==> s.visible
    &&& !s.inited ==> !s.tikpop
}

/// A state with the actions and the sound that led to it.
pub struct Fired {
    pub state: ClockView,
    pub actions: Seq<Action>,
    pub sound: Option<Seq<char>>,
}

pub open spec fn unchanged(s: ClockView) -> Fired {
    Fired { state: s, actions: seq![], sound: None }
}

/// Beginning popup `i` (a scheduled one, or the countdown's): remember the
/// visibility and the position, show the window at its start, restart the
/// frame count, choose the sound and the tip.
pub open spec fn begin_popup(s: ClockView, i: nat, scheduled: bool) -> Fired {
    let path = sound_choice(s.sound_path, i, scheduled);
    let tip = tip_choice(s.tips_store, i, scheduled);
    Fired {
        state: ClockView {
            last_visible: s.visible,
            visible: true,
            time: 0,
            tikpop: true,
            show_tips: if s.tips_store.len() > 0 && tip.len() > 0 {
                tip
            } else {
                s.show_tips
            },
            ..s
        },
        actions: (if s.visible {
            seq![Action::SaveWindowPos]
        } else {
            seq![]
        }) + seq![Action::SetVisible(true), Action::MoveToStart, Action::RequestRepaint],
        sound: if s.sound_path.len() > 0 && path.len() > 0 {
            Some(path)
        } else {
            None
        },
    }
}

/// Seconds since the current countdown round began, as an `i32`.
pub open spec fn elapsed(s: ClockView, ts: i64) -> int {
    ((ts - s.countdown_start_time) as i32) as int
}

/// The countdown's part of a frame: the text to show, a new round when the
/// last one is over, and the popup when an entry ends.
pub open spec fn countdown_stage(s: ClockView, ts: i64) -> (Fired, Seq<char>) {
    if !(s.countdown_start && !s.in_time_popup) {
        (unchanged(s), seq![])
    } else {
        let over = elapsed(s, ts);
        if s.countdown.len() == 0 {
            let s1 = if over > 600 {
                ClockView { countdown_start_time: ts, ..s }
            } else {
                s
            };
            let f = if over > 600 && !s.tikpop {
                begin_popup(s1, 0, false)
            } else {
                unchanged(s1)
            };
            (f, default_countdown_text(600 - over))
        } else {
            let items = split_on(s.countdown, ',');
            let f1 = if !s.tikpop && ending_from(items, over, 0) is Some {
                begin_popup(s, ending_from(items, over, 0).unwrap(), false)
            } else {
                unchanged(s)
            };
            match break_from(items, over, 0) {
                Some(k) => (f1, countdown_text(total_upto(items, k + 1) - over)),
                None => {
                    let s2 = ClockView { countdown_start_time: ts, ..f1.state };
                    let f2 = if !s2.tikpop {
                        let g = begin_popup(s2, 0, false);
                        Fired { state: g.state, actions: f1.actions + g.actions, sound: g.sound }
                    } else {
                        Fired { state: s2, actions: f1.actions, sound: f1.sound }
                    };
                    (f2, countdown_text(first_nonzero_from(items, 0)))
                },
            }
        }
    }
}

/// The slide phase for frame `t` of a popup that stays `stay` sixteenths.
pub open spec fn slide_phase(t: int, stay: int) -> Seq<Action> {
    if 16 * t < 800 {
        seq![Action::SlideIn(t as u64)]
    } else if stay + 800 < 16 * t && 16 * t < stay + 1600 {
        seq![Action::SlideOut((16 * t - stay - 800) as u64)]
    } else {
        seq![]
    }
}

/// A frame of a running popup: count it, slide in or out, and end the popup
/// once its stay is over, showing or hiding the window as it was before.
pub open spec fn popup_stage(s: ClockView) -> (ClockView, Seq<Action>) {
    let t = s.time + 1;
    let stay = stay16(s.show_time);
    let s1 = ClockView { time: t as u64, ..s };
    let over = 16 * t > stay + 1600;
    let s2 = if over {
        ClockView {
            tikpop: false,
            show_tips: seq![],
            in_time_popup: false,
            visible: s.last_visible,
            ..s1
        }
    } else {
        s1
    };
    let ending = if over {
        seq![Action::SetVisible(s.last_visible)] + (if s.last_visible {
            seq![Action::RestoreWindowPos]
        } else {
            seq![]
        }) + seq![Action::SetMousePassthrough(true)]
    } else {
        seq![]
    };
    let s3 = if !s2.visible {
        ClockView { tikpop: false, ..s2 }
    } else {
        s2
    };
    (
        s3,
        seq![Action::SetMousePassthrough(false)] + slide_phase(t, stay) + ending + seq![
            Action::RepaintAfter(16),
        ],
    )
}

/// A frame without a popup: begin a scheduled popup when an entry of the
/// `time` setting matches the time of day.
pub open spec fn schedule_stage(s: ClockView, h: u32, m: u32, sec: u32) -> Fired {
    let s1 = ClockView { in_time_popup: false, ..s };
    match schedule_match(s.time2show, h as nat, m as nat, sec as nat) {
        Some(i) => {
            let g = begin_popup(ClockView { in_time_popup: true, ..s1 }, i, true);
            Fired { state: g.state, actions: g.actions + seq![Action::RepaintAfter(300)], sound: g.sound }
        },
        None => Fired { state: s1, actions: seq![Action::RepaintAfter(300)], sound: None },
    }
}

/// What a frame is given: the moment, and the local time of day at it.
#[derive(Clone, Copy, Debug)]
pub struct TickInput {
    /// Seconds since the epoch.
    pub timestamp: i64,
    /// The local time of day, used when no time zone is set.
    pub hour: u32,
    pub minute: u32,
    pub second: u32,
}

/// What a frame does.
pub struct Tick {
    pub state: ClockView,
    pub actions: Seq<Action>,
    pub sound: Option<Seq<char>>,
    /// The countdown text, empty when none is shown.
    pub custom_clock: Seq<char>,
}

/// The seconds into the day at `ts` in the zone `z` hours east of UTC.
pub open spec fn zone_seconds(ts: i64, z: i32) -> int {
    (ts as int + z as int * 3600) % 86400
}

/// The time of day the clock keeps: that of its time zone when one is set,
/// else the local time it is given.
pub open spec fn clock_time(s: ClockView, inp: TickInput) -> (u32, u32, u32) {
    match s.timezone {
        Some(z) => {
            let d = zone_seconds(inp.timestamp, z);
            ((d / 3600) as u32, ((d % 3600) / 60) as u32, (d % 60) as u32)
        },
        None => (inp.hour, inp.minute, inp.second),
    }
}

/// The text for the time left until a time of day: `HH:MM:SS`.
pub open spec fn time_left_text(left: int) -> Seq<char> {
    time_text((left / 3600) as nat, ((left % 3600) / 60) as nat, (left % 60) as nat)
}

/// The seconds from the time of day `now` until the time of day `target`,
/// wrapping at midnight (seconds into the day, both).
pub open spec fn seconds_left(target: int, now: int) -> int {
    (target - now) % 86400
}

/// The countdown to the first fully set popup time, from the time of day
/// `h:m:sec`.
pub open spec fn time_countdown_text(target: int, h: u32, m: u32, sec: u32) -> Seq<char> {
    time_left_text(seconds_left(target, h * 3600 + m * 60 + sec))
}

/// The state after the first-frame setup: hidden when `init_show` is off.
pub open spec fn init_state(s: ClockView) -> ClockView {
    ClockView {
        inited: true,
        visible: if !s.inited && !s.init_show {
            false
        } else {
            s.visible
        },
        ..s
    }
}

/// The first frame's setup actions.
pub open spec fn init_actions(s: ClockView) -> Seq<Action> {
    if !s.inited {
        seq![Action::Initialize] + (if !s.init_show {
            seq![Action::SetVisible(false)]
        } else {
            seq![]
        })
    } else {
        seq![]
    }
}

/// The countdown to the first fully set popup time, when the clock shows
/// one (empty otherwise).
pub open spec fn time_countdown_shown(s: ClockView, inp: TickInput) -> Seq<char> {
    let (h, m, sec) = clock_time(s, inp);
    if s.time_countdown && target_time(s.time2show) is Some {
        time_countdown_text(target_time(s.time2show).unwrap() as int, h, m, sec)
    } else {
        seq![]
    }
}

/// One frame of the clock.
pub open spec fn tick_spec(s: ClockView, inp: TickInput) -> Tick {
    let s0 = init_state(s);
    let a0 = init_actions(s);
    let (h, m, sec) = clock_time(s, inp);
    let (f1, custom) = countdown_stage(s0, inp.timestamp);
    let shown = if custom.len() == 0 {
        time_countdown_shown(s, inp)
    } else {
        custom
    };
    if f1.state.tikpop {
        let (s2, a2) = popup_stage(f1.state);
        Tick { state: s2, actions: a0 + f1.actions + a2, sound: f1.sound, custom_clock: shown }
    } else {
        let f2 = schedule_stage(f1.state, h, m, sec);
        Tick { state: f2.state, actions: a0 + f1.actions + f2.actions, sound: f2.sound, custom_clock: shown }
    }
}

/// The clock after one frame at each moment of `inputs`, in order, with no
/// event between them.
pub open spec fn frames(s: ClockView, inputs: Seq<TickInput>) -> ClockView
    decreases inputs.len(),
{
    if inputs.len() == 0 {
        s
    } else {
        tick_spec(frames(s, inputs.drop_last()), inputs.last()).state
    }
}

pub open spec fn in_i64(x: int) -> bool {
    -9223372036854775808 <= x <= 9223372036854775807
}

/// Whether a frame can run on this state at this time: the settings that it
/// reads are read without running past their ends or out of range.
pub open spec fn tick_readable(s: ClockView, inp: TickInput) -> bool {
    let s0 = init_state(s);
    let (h, m, sec) = clock_time(s, inp);
    let f1 = countdown_stage(s0, inp.timestamp).0;
    let fires = (f1.state.tikpop && !s.tikpop) || (!f1.state.tikpop && schedule_match(
        s.time2show,
        h as nat,
        m as nat,
        sec as nat,
    ) is Some);
    &&& (s.countdown_start && !s.in_time_popup) ==> in_i64(inp.timestamp - s.countdown_start_time)
        && countdown_readable(s.countdown, elapsed(s, inp.timestamp))
    &&& !f1.state.tikpop ==> schedule_readable(s.time2show, h as nat, m as nat, sec as nat)
    &&& fires ==> sound_setting_ok(s.sound_path)
}

/// The close button: hide the window.
pub open spec fn close_event(s: ClockView) -> (ClockView, Seq<Action>) {
    (ClockView { visible: false, ..s }, seq![Action::SetVisible(false)])
}

/// A left click on the tray icon: show a hidden window at the left edge, or
/// hide a shown one remembering its position; any popup stops.
pub open spec fn tray_event(s: ClockView) -> (ClockView, Seq<Action>) {
    let v = !s.visible;
    (
        ClockView { visible: v, tikpop: false, time: 0, ..s },
        seq![Action::SetVisible(v)] + (if v {
            seq![Action::MoveToTrayPos, Action::SetMousePassthrough(true)]
        } else {
            seq![Action::SaveWindowPos]
        }) + seq![Action::RequestRepaint],
    )
}

/// A menu item: quit, or start or stop the countdown (starting it shows the
/// window and begins a round now).
pub open spec fn menu_event(s: ClockView, id: u32, ts: i64) -> (ClockView, Seq<Action>) {
    if id == s.quit_index {
        (s, seq![Action::Quit])
    } else if id == s.countdown_index {
        if !s.countdown_start {
            (
                ClockView { countdown_start: true, visible: true, countdown_start_time: ts, ..s },
                seq![Action::SetVisible(true), Action::RequestRepaint],
            )
        } else {
            (ClockView { countdown_start: false, ..s }, seq![Action::RequestRepaint])
        }
    } else {
        (s, seq![])
    }
}

/// The events after a frame: the close button, a left click on the tray
/// icon, a menu item.
pub open spec fn events_spec(
    s: ClockView,
    close_clicked: bool,
    tray_clicked: bool,
    menu: Option<u32>,
    ts: i64,
) -> (ClockView, Seq<Action>) {
    let (s1, a1) = if close_clicked {
        close_event(s)
    } else {
        (s, seq![])
    };
    let (s2, a2) = if tray_clicked {
        tray_event(s1)
    } else {
        (s1, seq![])
    };
    let (s3, a3) = match menu {
        Some(id) => menu_event(s2, id, ts),
        None => (s2, seq![]),
    };
    (s3, a1 + a2 + a3)
}

/// A popup begins at frame 0, visible.
pub proof fn lemma_begin_popup_wf(s: ClockView, i: nat, scheduled: bool)
    requires
        s.inited,
    ensures
        clock_wf(begin_popup(s, i, scheduled).state),
{
}

/// The countdown's part of a frame keeps the invariant.
pub proof fn lemma_countdown_stage_wf(s: ClockView, ts: i64)
    requires
        clock_wf(s),
        s.inited,
    ensures
        clock_wf(countdown_stage(s, ts).0.state),
{
    let items = split_on(s.countdown, ',');
    let over = elapsed(s, ts);
    if s.countdown_start && !s.in_time_popup && s.countdown.len() > 0 {
        if !s.tikpop && ending_from(items, over, 0) is Some {
            lemma_begin_popup_wf(s, ending_from(items, over, 0).unwrap(), false);
        }
    }
}

/// A frame of a running popup keeps the invariant.
pub proof fn lemma_popup_stage_wf(s: ClockView)
    requires
        clock_wf(s),
        s.tikpop,
    ensures
        clock_wf(popup_stage(s).0),
{
}

/// Every frame keeps the clock's invariant: the frame count stays within the
/// popup's length, and a popup runs only while the window is visible.
pub proof fn lemma_tick_keeps_wf(s: ClockView, inp: TickInput)
    requires
        clock_wf(s),
    ensures
        clock_wf(tick_spec(s, inp).state),
{
    let s0 = init_state(s);
    lemma_countdown_stage_wf(s0, inp.timestamp);
    let f1 = countdown_stage(s0, inp.timestamp).0;
    if f1.state.tikpop {
        lemma_popup_stage_wf(f1.state);
    }
}

/// The events after a frame keep the clock's invariant, the close button
/// being offered only while no popup runs.
pub proof fn lemma_events_keep_wf(
    s: ClockView,
    close_clicked: bool,
    tray_clicked: bool,
    menu: Option<u32>,
    ts: i64,
)
    requires
        clock_wf(s),
        close_clicked ==> !s.tikpop,
    ensures
        clock_wf(events_spec(s, close_clicked, tray_clicked, menu, ts).0),
{
}

} // verus!
