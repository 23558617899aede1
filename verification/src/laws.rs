//! What holds of the clock over all inputs and across calls.
use vstd::prelude::*;
use crate::choice::{pick, sound_choice, tip_choice};
use crate::countdown::{break_from, countdown_text, default_countdown_text, ending_from};
use crate::model::{
    clock_time, clock_wf, countdown_stage, elapsed, events_spec, frames, init_state,
    seconds_left, stay16, tick_readable, tick_spec, time_countdown_shown, zone_seconds, Action,
    ClockView, TickInput,
};
use crate::clock::settings_clock;
use crate::settings::{settings_from, EntryView, SettingsView};
use crate::schedule::{entry_matches, schedule_match};
use crate::color::{color_denotes, Rgba};
use crate::decimal::{decimal, lemma_decimal_digits, parse_u8_spec};
use crate::schedule::{field_matches, second_matches};
use crate::text::{has_char, lemma_split_concat, lemma_split_no_sep, split_on};
use crate::countdown::entry_seconds;
use crate::decimal::parse_i32_spec;
use crate::frame::{image_layout, ImageLayout};
use crate::schedule::target_time;

verus! {

/// While a popup runs, a frame counts it and keeps it running, visible, until
/// its stay is over; the frame first keeps the mouse from passing through
/// the window and last asks for a repaint after 16 ms.
pub proof fn law_popup_runs_its_stay(s: ClockView, inp: TickInput)
    requires
        clock_wf(s),
        s.tikpop,
        16 * (s.time + 1) <= stay16(s.show_time) + 1600,
    ensures
        tick_spec(s, inp).state.tikpop,
        tick_spec(s, inp).state.visible,
        tick_spec(s, inp).state.time == s.time + 1,
        tick_spec(s, inp).state.last_visible == s.last_visible,
        tick_spec(s, inp).actions.len() > 0,
        tick_spec(s, inp).actions[0] == Action::SetMousePassthrough(false),
        tick_spec(s, inp).actions.last() == Action::RepaintAfter(16),
{
    let f1 = countdown_stage(init_state(s), inp.timestamp).0;
    assert(f1.actions =~= Seq::<Action>::empty());
    assert(crate::model::init_actions(s) =~= Seq::<Action>::empty());
    assert(tick_spec(s, inp).actions =~= crate::model::popup_stage(f1.state).1);
}

/// The frame in which a popup's stay is over ends it, showing or hiding the
/// window as it was when the popup began, and clears the tip; it asks the
/// window to show or hide itself so, to go back where it was when it is
/// shown, and to let the mouse pass through again.
pub proof fn law_popup_end_restores_visibility(s: ClockView, inp: TickInput)
    requires
        clock_wf(s),
        s.tikpop,
        16 * (s.time + 1) > stay16(s.show_time) + 1600,
    ensures
        !tick_spec(s, inp).state.tikpop,
        tick_spec(s, inp).state.visible == s.last_visible,
        tick_spec(s, inp).state.show_tips == Seq::<char>::empty(),
        !tick_spec(s, inp).state.in_time_popup,
        tick_spec(s, inp).actions.contains(Action::SetVisible(s.last_visible)),
        s.last_visible ==> tick_spec(s, inp).actions.contains(Action::RestoreWindowPos),
        tick_spec(s, inp).actions.contains(Action::SetMousePassthrough(true)),
{
    let f1 = countdown_stage(init_state(s), inp.timestamp).0;
    assert(f1.actions =~= Seq::<Action>::empty());
    assert(crate::model::init_actions(s) =~= Seq::<Action>::empty());
    let a = tick_spec(s, inp).actions;
    let slide = crate::model::slide_phase(s.time + 1, stay16(s.show_time));
    assert(slide =~= Seq::<Action>::empty());
    let r: Seq<Action> = if s.last_visible {
        seq![Action::RestoreWindowPos]
    } else {
        seq![]
    };
    assert(a =~= seq![Action::SetMousePassthrough(false)] + (seq![Action::SetVisible(s.last_visible)]
        + r + seq![Action::SetMousePassthrough(true)]) + seq![Action::RepaintAfter(16)]);
    assert(a[1] == Action::SetVisible(s.last_visible));
    if s.last_visible {
        assert(a[2] == Action::RestoreWindowPos);
        assert(a[3] == Action::SetMousePassthrough(true));
    } else {
        assert(a[2] == Action::SetMousePassthrough(true));
    }
}

/// A scheduled popup ignores the countdown: while it runs, frames show no
/// countdown (only the countdown to the first popup time, when that is on)
/// and leave the countdown's round where it is.
pub proof fn law_scheduled_popup_ignores_countdown(s: ClockView, inp: TickInput)
    requires
        s.in_time_popup,
    ensures
        tick_spec(s, inp).custom_clock == time_countdown_shown(s, inp),
        tick_spec(s, inp).state.countdown_start_time == s.countdown_start_time,
{
}

/// Without a countdown setting the countdown runs ten minutes: within them
/// it shows what is left as `00:MM:SS` and keeps its round; past them it
/// begins a new round, popping up unless a popup runs.
pub proof fn law_default_countdown_is_ten_minutes(s: ClockView, inp: TickInput)
    requires
        s.countdown_start,
        !s.in_time_popup,
        s.countdown.len() == 0,
    ensures
        tick_spec(s, inp).custom_clock == default_countdown_text(600 - elapsed(s, inp.timestamp)),
        elapsed(s, inp.timestamp) <= 600 ==> tick_spec(s, inp).state.countdown_start_time
            == s.countdown_start_time,
        elapsed(s, inp.timestamp) > 600 ==> tick_spec(s, inp).state.countdown_start_time
            == inp.timestamp,
        elapsed(s, inp.timestamp) > 600 && !s.tikpop ==> countdown_stage(
            init_state(s),
            inp.timestamp,
        ).0.state.tikpop,
{
}

/// The countdown starts over: once the time since the round began reaches
/// the end of the last entry, a new round begins at this frame.
pub proof fn law_countdown_repeats(s: ClockView, inp: TickInput)
    requires
        s.countdown_start,
        !s.in_time_popup,
        s.countdown.len() > 0,
        break_from(split_on(s.countdown, ','), elapsed(s, inp.timestamp), 0) is None,
    ensures
        tick_spec(s, inp).state.countdown_start_time == inp.timestamp,
{
}

/// Within a round the countdown shows what is left of the current entry
/// and keeps its round.
pub proof fn law_countdown_shows_time_left(s: ClockView, inp: TickInput)
    requires
        s.countdown_start,
        !s.in_time_popup,
        s.countdown.len() > 0,
        break_from(split_on(s.countdown, ','), elapsed(s, inp.timestamp), 0) is Some,
    ensures
        tick_spec(s, inp).state.countdown_start_time == s.countdown_start_time,
        tick_spec(s, inp).custom_clock == countdown_text(
            crate::countdown::total_upto(
                split_on(s.countdown, ','),
                break_from(split_on(s.countdown, ','), elapsed(s, inp.timestamp), 0).unwrap() + 1,
            ) - elapsed(s, inp.timestamp),
        ),
{
}

/// When an entry of the countdown ends and no popup runs, a popup begins
/// with that entry's countdown sound and tip, remembering whether the clock
/// was shown (once the frame's setup is done).
pub proof fn law_countdown_entry_end_pops_up(s: ClockView, inp: TickInput)
    requires
        s.countdown_start,
        !s.in_time_popup,
        !s.tikpop,
        s.countdown.len() > 0,
        ending_from(split_on(s.countdown, ','), elapsed(s, inp.timestamp), 0) is Some,
    ensures
        ({
            let j = ending_from(split_on(s.countdown, ','), elapsed(s, inp.timestamp), 0).unwrap();
            let path = sound_choice(s.sound_path, j, false);
            &&& tick_spec(s, inp).state.tikpop
            &&& tick_spec(s, inp).state.visible
            &&& tick_spec(s, inp).state.last_visible == init_state(s).visible
            &&& tick_spec(s, inp).sound == (if s.sound_path.len() > 0 && path.len() > 0 {
                Some(path)
            } else {
                None
            })
        }),
{
}

/// When no popup runs and the countdown does not begin one, the first
/// entry of the `time` setting that matches the clock's time of day begins
/// a scheduled popup with its sound and tip.
pub proof fn law_scheduled_popup(s: ClockView, inp: TickInput)
    requires
        !s.tikpop,
        !(s.countdown_start && !s.in_time_popup),
        ({
            let (h, m, sec) = clock_time(s, inp);
            schedule_match(s.time2show, h as nat, m as nat, sec as nat) is Some
        }),
    ensures
        ({
            let (h, m, sec) = clock_time(s, inp);
            let i = schedule_match(s.time2show, h as nat, m as nat, sec as nat).unwrap();
            let path = sound_choice(s.sound_path, i, true);
            let tip = tip_choice(s.tips_store, i, true);
            &&& tick_spec(s, inp).state.tikpop
            &&& tick_spec(s, inp).state.in_time_popup
            &&& tick_spec(s, inp).state.visible
            &&& tick_spec(s, inp).state.time == 0
            &&& tick_spec(s, inp).sound == (if s.sound_path.len() > 0 && path.len() > 0 {
                Some(path)
            } else {
                None
            })
            &&& (s.tips_store.len() > 0 && tip.len() > 0 ==> tick_spec(s, inp).state.show_tips
                == tip)
        }),
{
}

/// No popup begins while no entry of the `time` setting matches the clock's
/// time of day and the countdown is stopped; the clock stays shown or
/// hidden as the frame's setup leaves it.
pub proof fn law_no_popup_without_match(s: ClockView, inp: TickInput)
    requires
        !s.tikpop,
        !s.countdown_start,
        ({
            let (h, m, sec) = clock_time(s, inp);
            schedule_match(s.time2show, h as nat, m as nat, sec as nat) is None
        }),
    ensures
        !tick_spec(s, inp).state.tikpop,
        tick_spec(s, inp).sound is None,
        tick_spec(s, inp).state.visible == init_state(s).visible,
{
}

/// A left click on the tray icon shows a hidden clock or hides a shown one
/// and stops any popup; a second click undoes the first.
pub proof fn law_tray_click_toggles(s: ClockView, ts: i64)
    ensures
        events_spec(s, false, true, None, ts).0.visible == !s.visible,
        !events_spec(s, false, true, None, ts).0.tikpop,
        events_spec(events_spec(s, false, true, None, ts).0, false, true, None, ts).0.visible
            == s.visible,
{
}

/// The countdown menu item starts a stopped countdown, showing the clock
/// and beginning a round now, and stops a running one; choosing it twice
/// leaves the countdown as it was.
pub proof fn law_countdown_item_toggles(s: ClockView, ts: i64)
    requires
        s.countdown_index != s.quit_index,
    ensures
        events_spec(s, false, false, Some(s.countdown_index), ts).0.countdown_start
            == !s.countdown_start,
        !s.countdown_start ==> events_spec(
            s,
            false,
            false,
            Some(s.countdown_index),
            ts,
        ).0.visible && events_spec(s, false, false, Some(s.countdown_index), ts).0.countdown_start_time
            == ts,
        events_spec(
            events_spec(s, false, false, Some(s.countdown_index), ts).0,
            false,
            false,
            Some(s.countdown_index),
            ts,
        ).0.countdown_start == s.countdown_start,
{
}

/// The quit menu item asks the program to end and changes nothing else.
pub proof fn law_quit_item(s: ClockView, ts: i64)
    ensures
        events_spec(s, false, false, Some(s.quit_index), ts).0 == s,
        events_spec(s, false, false, Some(s.quit_index), ts).1 == seq![Action::Quit],
{
}

/// A sound setting `directory*scheduled` gives every popup the directory
/// followed by its choice among the scheduled sounds; with a countdown list,
/// `directory*scheduled*countdown`, a scheduled popup takes its choice among
/// the scheduled sounds and a countdown popup among the countdown sounds.
pub proof fn law_sound_choices(d: Seq<char>, l1: Seq<char>, l2: Seq<char>, i: nat, scheduled: bool)
    requires
        !has_char(d, '*'),
        !has_char(l1, '*'),
        !has_char(l2, '*'),
    ensures
        sound_choice(d + seq!['*'] + l1, i, scheduled) == d + pick(split_on(l1, '|'), i),
        sound_choice(d + seq!['*'] + l1 + seq!['*'] + l2, i, true) == d + pick(
            split_on(l1, '|'),
            i,
        ),
        sound_choice(d + seq!['*'] + l1 + seq!['*'] + l2, i, false) == d + pick(
            split_on(l2, '|'),
            i,
        ),
{
    lemma_split_no_sep(d, '*');
    lemma_split_no_sep(l1, '*');
    lemma_split_no_sep(l2, '*');
    lemma_split_concat(d, l1, '*');
    assert(split_on(d + seq!['*'] + l1, '*') =~= seq![d, l1]);
    lemma_split_concat(d, l1 + seq!['*'] + l2, '*');
    lemma_split_concat(l1, l2, '*');
    assert(d + seq!['*'] + l1 + seq!['*'] + l2 =~= d + seq!['*'] + (l1 + seq!['*'] + l2));
    assert(split_on(d + seq!['*'] + l1 + seq!['*'] + l2, '*') =~= seq![d, l1, l2]);
}

/// A tips setting without `*` gives every popup its choice among its tips;
/// with a countdown list, `scheduled*countdown`, a scheduled popup takes its
/// choice among the first and a countdown popup among the second.
pub proof fn law_tip_choices(l1: Seq<char>, l2: Seq<char>, i: nat, scheduled: bool)
    requires
        !has_char(l1, '*'),
        !has_char(l2, '*'),
    ensures
        tip_choice(l1, i, scheduled) == pick(split_on(l1, '|'), i),
        tip_choice(l1 + seq!['*'] + l2, i, true) == pick(split_on(l1, '|'), i),
        tip_choice(l1 + seq!['*'] + l2, i, false) == pick(split_on(l2, '|'), i),
{
    lemma_split_no_sep(l1, '*');
    lemma_split_no_sep(l2, '*');
    lemma_split_concat(l1, l2, '*');
}

/// An entry `hour:minute:second` of the `time` setting matches exactly when
/// its hour and minute fields match the time's (an empty field matches any)
/// and its second field matches the second (an empty one matches second 0):
/// `:30:` pops up at half past every hour, `15::0` at the start of every
/// minute from three to four.
pub proof fn law_time_entry(ht: Seq<char>, mt: Seq<char>, st: Seq<char>, h: nat, m: nat, s: nat)
    requires
        !has_char(ht, ':') && !has_char(ht, ','),
        !has_char(mt, ':') && !has_char(mt, ','),
        !has_char(st, ':') && !has_char(st, ','),
    ensures
        schedule_match(ht + seq![':'] + mt + seq![':'] + st, h, m, s) == (if field_matches(ht, h)
            && field_matches(mt, m) && second_matches(st, s) {
            Some(0nat)
        } else {
            None
        }),
{
    let t = ht + seq![':'] + mt + seq![':'] + st;
    lemma_split_no_sep(ht, ':');
    lemma_split_no_sep(mt, ':');
    lemma_split_no_sep(st, ':');
    lemma_split_concat(mt, st, ':');
    lemma_split_concat(ht, mt + seq![':'] + st, ':');
    assert(t =~= ht + seq![':'] + (mt + seq![':'] + st));
    assert(split_on(t, ':') =~= seq![ht, mt, st]);
    assert forall|i: int| 0 <= i < t.len() implies t[i] != ',' by {
        if i < ht.len() {
            assert(t[i] == ht[i]);
        } else if i == ht.len() {
        } else if i < ht.len() + 1 + mt.len() {
            assert(t[i] == mt[i - ht.len() - 1]);
        } else if i == ht.len() + 1 + mt.len() {
        } else {
            assert(t[i] == st[i - ht.len() - 2 - mt.len()]);
        }
    }
    lemma_split_no_sep(t, ',');
    assert(t.len() > 0);
    let items = seq![t];
    assert(crate::schedule::first_match_from(items, h, m, s, 1) == None::<nat>);
    assert(crate::schedule::entry_fields(items, 0) == seq![ht, mt, st]);
    assert(entry_matches(seq![ht, mt, st], h, m, s) == (field_matches(ht, h) && field_matches(mt, m)
        && second_matches(st, s)));
}

/// Decimal notation has no separators.
proof fn lemma_decimal_no_comma(n: nat)
    ensures
        !has_char(decimal(n), ','),
        parse_u8_spec(decimal(n)) == (if n <= 255 {
            Some(n as u8)
        } else {
            None::<u8>
        }),
{
    lemma_decimal_digits(n);
    if has_char(decimal(n), ',') {
        let i = choose|i: int| 0 <= i < decimal(n).len() && decimal(n)[i] == ',';
        assert(crate::decimal::is_digit(decimal(n)[i]));
    }
    assert(crate::decimal::is_digit(decimal(n)[0]));
}

/// A colour written as `r,g,b` in decimal reads back as that colour, opaque,
/// and as nothing else.
pub proof fn law_color_text_reads_back(r: u8, g: u8, b: u8, default: Rgba, c: Rgba)
    ensures
        color_denotes(
            decimal(r as nat) + seq![','] + decimal(g as nat) + seq![','] + decimal(b as nat),
            default,
            c,
        ) == (c == Rgba { r, g, b, a: 255 }),
{
    let (dr, dg, db) = (decimal(r as nat), decimal(g as nat), decimal(b as nat));
    lemma_decimal_no_comma(r as nat);
    lemma_decimal_no_comma(g as nat);
    lemma_decimal_no_comma(b as nat);
    lemma_split_no_sep(dr, ',');
    lemma_split_no_sep(dg, ',');
    lemma_split_no_sep(db, ',');
    lemma_split_concat(dg, db, ',');
    lemma_split_concat(dr, dg + seq![','] + db, ',');
    let t = dr + seq![','] + dg + seq![','] + db;
    assert(t =~= dr + seq![','] + (dg + seq![','] + db));
    assert(split_on(t, ',') =~= seq![dr, dg, db]);
    lemma_decimal_digits(r as nat);
    assert(t.len() > 0);
}

/// An alpha of 255 in the `r,g,b,a` form denotes the same opaque colour as
/// the `r,g,b` form, and anything after the fourth part is not read.
pub proof fn law_opaque_alpha_is_rgb(
    r: Seq<char>,
    g: Seq<char>,
    b: Seq<char>,
    a: Seq<char>,
    rest: Seq<char>,
    default: Rgba,
    c: Rgba,
)
    requires
        !has_char(r, ','),
        !has_char(g, ','),
        !has_char(b, ','),
        !has_char(a, ','),
        parse_u8_spec(a) == Some(255u8),
    ensures
        color_denotes(r + seq![','] + g + seq![','] + b + seq![','] + a, default, c)
            == color_denotes(r + seq![','] + g + seq![','] + b, default, c),
        color_denotes(
            r + seq![','] + g + seq![','] + b + seq![','] + a + seq![','] + rest,
            default,
            c,
        ) == color_denotes(r + seq![','] + g + seq![','] + b, default, c),
{
    lemma_split_no_sep(r, ',');
    lemma_split_no_sep(g, ',');
    lemma_split_no_sep(b, ',');
    lemma_split_no_sep(a, ',');
    lemma_split_concat(g, b, ',');
    lemma_split_concat(r, g + seq![','] + b, ',');
    let t3 = r + seq![','] + g + seq![','] + b;
    assert(t3 =~= r + seq![','] + (g + seq![','] + b));
    assert(split_on(t3, ',') =~= seq![r, g, b]);
    lemma_split_concat(t3, a, ',');
    let t4 = t3 + seq![','] + a;
    assert(split_on(t4, ',') =~= seq![r, g, b, a]);
    lemma_split_concat(t4, rest, ',');
    crate::text::lemma_split_nonempty(rest, ',');
    let t5 = t4 + seq![','] + rest;
    assert(split_on(t5, ',') =~= seq![r, g, b, a] + split_on(rest, ','));
    assert(split_on(t5, ',')[3] == a);
    assert(t3.len() > 0);
}

/// With no event, the events after a frame change nothing and ask nothing.
pub proof fn law_no_event_changes_nothing(s: ClockView, ts: i64)
    ensures
        events_spec(s, false, false, None, ts) == (s, Seq::<Action>::empty()),
{
    assert(events_spec(s, false, false, None, ts).1 =~= Seq::<Action>::empty());
}

/// A running popup stays up, visible, one more frame counted per frame, as
/// long as its stay is not over: for `n` frames when `16 * (time + n)` is at
/// most the stay in sixteenths plus 1600.
pub proof fn law_popup_lasts(s: ClockView, inputs: Seq<TickInput>)
    requires
        clock_wf(s),
        s.tikpop,
        16 * (s.time + inputs.len()) <= stay16(s.show_time) + 1600,
    ensures
        clock_wf(frames(s, inputs)),
        frames(s, inputs).tikpop,
        frames(s, inputs).visible,
        frames(s, inputs).time == s.time + inputs.len(),
        frames(s, inputs).last_visible == s.last_visible,
        frames(s, inputs).show_time == s.show_time,
        frames(s, inputs).countdown_start == s.countdown_start,
        frames(s, inputs).in_time_popup == s.in_time_popup,
    decreases inputs.len(),
{
    if inputs.len() > 0 {
        let rest = inputs.drop_last();
        law_popup_lasts(s, rest);
        let g = frames(s, rest);
        law_popup_runs_its_stay(g, inputs.last());
        crate::model::lemma_tick_keeps_wf(g, inputs.last());
    }
}

/// A running popup ends at the first frame that takes its count past the
/// stay: for `n` frames when `16 * (time + n)` first exceeds the stay in
/// sixteenths plus 1600, the clock is then shown or hidden as it was when
/// the popup began, with no tip and no popup.
pub proof fn law_popup_ends(s: ClockView, inputs: Seq<TickInput>)
    requires
        clock_wf(s),
        s.tikpop,
        inputs.len() > 0,
        16 * (s.time + inputs.len() - 1) <= stay16(s.show_time) + 1600,
        stay16(s.show_time) + 1600 < 16 * (s.time + inputs.len()),
    ensures
        !frames(s, inputs).tikpop,
        frames(s, inputs).visible == s.last_visible,
        frames(s, inputs).show_tips == Seq::<char>::empty(),
        !frames(s, inputs).in_time_popup,
        frames(s, inputs).time == s.time + inputs.len(),
{
    let rest = inputs.drop_last();
    law_popup_lasts(s, rest);
    law_popup_end_restores_visibility(frames(s, rest), inputs.last());
}

/// A frame that begins a popup remembers whether the clock was shown, and
/// counts at most one frame of it.
pub proof fn law_popup_begin_remembers(s: ClockView, inp: TickInput)
    requires
        clock_wf(s),
        !s.tikpop,
        tick_spec(s, inp).state.tikpop,
    ensures
        tick_spec(s, inp).state.last_visible == init_state(s).visible,
        tick_spec(s, inp).state.time <= 1,
        tick_spec(s, inp).state.show_time == s.show_time,
        clock_wf(tick_spec(s, inp).state),
{
    crate::model::lemma_tick_keeps_wf(s, inp);
}

/// The end of a popup undoes its start: after the frame that begins it,
/// the frames up to its end leave the clock shown or hidden as it was
/// before the popup.
pub proof fn law_popup_end_undoes_start(s: ClockView, inp: TickInput, inputs: Seq<TickInput>)
    requires
        clock_wf(s),
        !s.tikpop,
        tick_spec(s, inp).state.tikpop,
        inputs.len() > 0,
        16 * (tick_spec(s, inp).state.time + inputs.len() - 1) <= stay16(s.show_time) + 1600,
        stay16(s.show_time) + 1600 < 16 * (tick_spec(s, inp).state.time + inputs.len()),
    ensures
        !frames(tick_spec(s, inp).state, inputs).tikpop,
        frames(tick_spec(s, inp).state, inputs).visible == init_state(s).visible,
{
    law_popup_begin_remembers(s, inp);
    law_popup_ends(tick_spec(s, inp).state, inputs);
}

/// With the program's stay of 1200 ms, a popup that has just begun (frame
/// count 0) stays up for 175 more frames and ends at the 176th, restoring
/// the clock's visibility.
pub proof fn law_program_popup_length(s: ClockView, inputs: Seq<TickInput>)
    requires
        clock_wf(s),
        s.tikpop,
        s.time == 0,
        s.show_time == 1200,
        inputs.len() == 176,
    ensures
        frames(s, inputs.take(175)).tikpop,
        frames(s, inputs.take(175)).visible,
        !frames(s, inputs).tikpop,
        frames(s, inputs).visible == s.last_visible,
{
    law_popup_lasts(s, inputs.take(175));
    assert(inputs.drop_last() =~= inputs.take(175));
    law_popup_ends(s, inputs);
}

/// With `init_show` off, the first frame hides the clock, unless it begins
/// a popup: it asks for the setup and then for the window to be hidden.
pub proof fn law_init_show_hides(s: ClockView, inp: TickInput)
    requires
        clock_wf(s),
        !s.inited,
        !s.init_show,
    ensures
        tick_spec(s, inp).state.visible == tick_spec(s, inp).state.tikpop,
        tick_spec(s, inp).actions.len() >= 2,
        tick_spec(s, inp).actions[0] == Action::Initialize,
        tick_spec(s, inp).actions[1] == Action::SetVisible(false),
{
}

/// A clock made from settings with `init_show=0` is hidden after its first
/// frame when that frame begins no popup, and stays hidden when no event
/// follows.
pub proof fn law_init_show_setting(
    quit_index: u32,
    countdown_index: u32,
    v: SettingsView,
    image: Option<(u32, u32)>,
    inp: TickInput,
)
    requires
        !v.init_show,
        ({
            let s = settings_clock(quit_index, countdown_index, v, image);
            let (h, m, sec) = clock_time(s, inp);
            schedule_match(s.time2show, h as nat, m as nat, sec as nat) is None
        }),
    ensures
        ({
            let s = settings_clock(quit_index, countdown_index, v, image);
            let t = tick_spec(s, inp).state;
            &&& !t.visible
            &&& !events_spec(t, false, false, None, inp.timestamp).0.visible
        }),
{
    let s = settings_clock(quit_index, countdown_index, v, image);
    law_init_show_hides(s, inp);
}

/// Whether no action of `a` asks for the setup.
spec fn no_setup(a: Seq<Action>) -> bool {
    forall|i: int| 0 <= i < a.len() ==> a[i] != Action::Initialize
}

proof fn lemma_no_setup_concat(a: Seq<Action>, b: Seq<Action>)
    requires
        no_setup(a),
        no_setup(b),
    ensures
        no_setup(a + b),
{
    assert forall|i: int| 0 <= i < (a + b).len() implies (a + b)[i] != Action::Initialize by {
        if i < a.len() {
            assert((a + b)[i] == a[i]);
        } else {
            assert((a + b)[i] == b[i - a.len()]);
        }
    }
}

proof fn lemma_begin_popup_no_setup(s: ClockView, i: nat, scheduled: bool)
    ensures
        no_setup(crate::model::begin_popup(s, i, scheduled).actions),
{
    let head: Seq<Action> = if s.visible {
        seq![Action::SaveWindowPos]
    } else {
        seq![]
    };
    let tail = seq![Action::SetVisible(true), Action::MoveToStart, Action::RequestRepaint];
    assert(no_setup(head));
    assert(no_setup(tail));
    lemma_no_setup_concat(head, tail);
}

proof fn lemma_countdown_no_setup(s: ClockView, ts: i64)
    ensures
        no_setup(countdown_stage(s, ts).0.actions),
{
    let items = split_on(s.countdown, ',');
    let over = elapsed(s, ts);
    if s.countdown_start && !s.in_time_popup {
        if s.countdown.len() == 0 {
            let s1 = if over > 600 {
                ClockView { countdown_start_time: ts, ..s }
            } else {
                s
            };
            lemma_begin_popup_no_setup(s1, 0, false);
        } else {
            if !s.tikpop && ending_from(items, over, 0) is Some {
                lemma_begin_popup_no_setup(s, ending_from(items, over, 0).unwrap(), false);
            }
            let f1 = if !s.tikpop && ending_from(items, over, 0) is Some {
                crate::model::begin_popup(s, ending_from(items, over, 0).unwrap(), false)
            } else {
                crate::model::unchanged(s)
            };
            assert(no_setup(f1.actions));
            let s2 = ClockView { countdown_start_time: ts, ..f1.state };
            lemma_begin_popup_no_setup(s2, 0, false);
            lemma_no_setup_concat(f1.actions, crate::model::begin_popup(s2, 0, false).actions);
        }
    }
}

proof fn lemma_popup_no_setup(s: ClockView)
    ensures
        no_setup(crate::model::popup_stage(s).1),
{
    let t = s.time + 1;
    let stay = stay16(s.show_time);
    let slide = crate::model::slide_phase(t, stay);
    let over = 16 * t > stay + 1600;
    let ending: Seq<Action> = if over {
        seq![Action::SetVisible(s.last_visible)] + (if s.last_visible {
            seq![Action::RestoreWindowPos]
        } else {
            seq![]
        }) + seq![Action::SetMousePassthrough(true)]
    } else {
        seq![]
    };
    let r: Seq<Action> = if s.last_visible {
        seq![Action::RestoreWindowPos]
    } else {
        seq![]
    };
    assert(no_setup(r));
    lemma_no_setup_concat(seq![Action::SetVisible(s.last_visible)], r);
    lemma_no_setup_concat(
        seq![Action::SetVisible(s.last_visible)] + r,
        seq![Action::SetMousePassthrough(true)],
    );
    assert(no_setup(ending));
    assert(no_setup(slide));
    lemma_no_setup_concat(seq![Action::SetMousePassthrough(false)], slide);
    lemma_no_setup_concat(seq![Action::SetMousePassthrough(false)] + slide, ending);
    lemma_no_setup_concat(
        seq![Action::SetMousePassthrough(false)] + slide + ending,
        seq![Action::RepaintAfter(16)],
    );
}

proof fn lemma_schedule_no_setup(s: ClockView, h: u32, m: u32, sec: u32)
    ensures
        no_setup(crate::model::schedule_stage(s, h, m, sec).actions),
{
    let s1 = ClockView { in_time_popup: false, ..s };
    let s2 = ClockView { in_time_popup: true, ..s1 };
    match schedule_match(s.time2show, h as nat, m as nat, sec as nat) {
        Some(i) => {
            lemma_begin_popup_no_setup(s2, i, true);
            lemma_no_setup_concat(
                crate::model::begin_popup(s2, i, true).actions,
                seq![Action::RepaintAfter(300)],
            );
        },
        None => {},
    }
}

/// The setup runs once: a frame of a clock that has had its first frame
/// asks for no setup and keeps the fonts, the position and the stay.
pub proof fn law_setup_runs_once(s: ClockView, inp: TickInput)
    requires
        s.inited,
    ensures
        tick_spec(s, inp).state.inited,
        forall|i: int|
            0 <= i < tick_spec(s, inp).actions.len() ==> tick_spec(s, inp).actions[i]
                != Action::Initialize,
        tick_spec(s, inp).state.font_path == s.font_path,
        tick_spec(s, inp).state.time_font == s.time_font,
        tick_spec(s, inp).state.pos_dir == s.pos_dir,
        tick_spec(s, inp).state.pos_pc == s.pos_pc,
        tick_spec(s, inp).state.show_time == s.show_time,
{
    let s0 = init_state(s);
    assert(crate::model::init_actions(s) =~= Seq::<Action>::empty());
    let (h, m, sec) = clock_time(s, inp);
    let f1 = countdown_stage(s0, inp.timestamp).0;
    lemma_countdown_no_setup(s0, inp.timestamp);
    if f1.state.tikpop {
        lemma_popup_no_setup(f1.state);
        lemma_no_setup_concat(f1.actions, crate::model::popup_stage(f1.state).1);
        assert(tick_spec(s, inp).actions =~= f1.actions + crate::model::popup_stage(f1.state).1);
    } else {
        lemma_schedule_no_setup(f1.state, h, m, sec);
        lemma_no_setup_concat(f1.actions, crate::model::schedule_stage(f1.state, h, m, sec).actions);
        assert(tick_spec(s, inp).actions =~= f1.actions + crate::model::schedule_stage(
            f1.state,
            h,
            m,
            sec,
        ).actions);
    }
    assert(no_setup(tick_spec(s, inp).actions));
}

/// In a set time zone the clock keeps the time of day at the moment in that
/// zone, whatever local time of day it is given.
pub proof fn law_zone_time(s: ClockView, a: TickInput, b: TickInput)
    requires
        s.timezone is Some,
        a.timestamp == b.timestamp,
    ensures
        clock_time(s, a) == clock_time(s, b),
        tick_spec(s, a) == tick_spec(s, b),
        ({
            let (h, m, sec) = clock_time(s, a);
            &&& h < 24 && m < 60 && sec < 60
            &&& h * 3600 + m * 60 + sec == zone_seconds(a.timestamp, s.timezone.unwrap())
        }),
{
}

/// In the time zone `z` hours east of UTC, the clock's hour, minute and
/// second are those of the moment `z` hours later than UTC: they count the
/// seconds since the epoch plus `3600 * z`, modulo a day.
pub proof fn law_zone_time_of_day(s: ClockView, inp: TickInput, z: i32)
    requires
        s.timezone == Some(z),
    ensures
        ({
            let (h, m, sec) = clock_time(s, inp);
            &&& h < 24 && m < 60 && sec < 60
            &&& 3600 * h + 60 * m + sec == (inp.timestamp + 3600 * z) % 86400
        }),
{
}

/// The countdown to a popup time reaches zero at that time, and otherwise
/// loses one second a second, wrapping at midnight.
pub proof fn law_seconds_left(target: int, now: int)
    requires
        0 <= target < 86400,
        0 <= now < 86400,
    ensures
        0 <= seconds_left(target, now) < 86400,
        seconds_left(target, target) == 0,
        seconds_left(target, now) > 0 ==> seconds_left(target, now + 1) == seconds_left(
            target,
            now,
        ) - 1,
        seconds_left(target, now) == 0 ==> now == target,
{
    vstd::arithmetic::div_mod::lemma_fundamental_div_mod_converse(0, 86400, 0, 0);
    if target >= now {
        vstd::arithmetic::div_mod::lemma_fundamental_div_mod_converse(target - now, 86400, 0, target - now);
        if target > now {
            vstd::arithmetic::div_mod::lemma_fundamental_div_mod_converse(
                target - now - 1,
                86400,
                0,
                target - now - 1,
            );
        }
    } else {
        vstd::arithmetic::div_mod::lemma_fundamental_div_mod_converse(
            target - now,
            86400,
            -1,
            target - now + 86400,
        );
        vstd::arithmetic::div_mod::lemma_fundamental_div_mod_converse(
            target - now - 1,
            86400,
            -1,
            target - now - 1 + 86400,
        );
    }
}

/// A frame of a running popup reads no setting while the countdown is
/// stopped or the popup is a scheduled one, so it can always run.
pub proof fn law_popup_frame_is_readable(s: ClockView, inp: TickInput)
    requires
        clock_wf(s),
        s.tikpop,
        !(s.countdown_start && !s.in_time_popup),
    ensures
        tick_readable(s, inp),
{
}

/// Every frame of a running popup, up to and including the one that ends
/// it, can run while the countdown is stopped or the popup is a scheduled
/// one: the frame step's condition holds at each of them.
pub proof fn law_popup_frames_are_readable(s: ClockView, inputs: Seq<TickInput>)
    requires
        clock_wf(s),
        s.tikpop,
        !(s.countdown_start && !s.in_time_popup),
        16 * (s.time + inputs.len()) <= stay16(s.show_time) + 1616,
    ensures
        forall|k: int|
            0 <= k < inputs.len() ==> tick_readable(#[trigger] frames(s, inputs.take(k)), inputs[k]),
{
    assert forall|k: int| 0 <= k < inputs.len() implies tick_readable(
        #[trigger] frames(s, inputs.take(k)),
        inputs[k],
    ) by {
        law_popup_lasts(s, inputs.take(k));
        law_popup_frame_is_readable(frames(s, inputs.take(k)), inputs[k]);
    }
}

/// A decimal numeral holds no character but digits.
proof fn lemma_decimal_lacks(n: nat, c: char)
    requires
        !crate::decimal::is_digit(c),
    ensures
        !has_char(decimal(n), c),
{
    lemma_decimal_digits(n);
    if has_char(decimal(n), c) {
        let i = choose|i: int| 0 <= i < decimal(n).len() && decimal(n)[i] == c;
        assert(crate::decimal::is_digit(decimal(n)[i]));
    }
}

/// A decimal numeral reads back as its number.
proof fn lemma_decimal_parses(n: nat)
    requires
        n <= 2147483647,
    ensures
        parse_i32_spec(decimal(n)) == Some(n as i32),
{
    lemma_decimal_digits(n);
    assert(crate::decimal::is_digit(decimal(n)[0]));
    assert(crate::decimal::without_plus(decimal(n)) == decimal(n));
}

/// Three pieces without the separator, joined by it, split back into them.
proof fn lemma_split_three(a: Seq<char>, b: Seq<char>, c: Seq<char>, sep: char)
    requires
        !has_char(a, sep),
        !has_char(b, sep),
        !has_char(c, sep),
    ensures
        split_on(a + seq![sep] + b + seq![sep] + c, sep) == seq![a, b, c],
{
    lemma_split_no_sep(a, sep);
    lemma_split_no_sep(b, sep);
    lemma_split_no_sep(c, sep);
    lemma_split_concat(b, c, sep);
    lemma_split_concat(a, b + seq![sep] + c, sep);
    assert(a + seq![sep] + b + seq![sep] + c =~= a + seq![sep] + (b + seq![sep] + c));
    assert(split_on(a + seq![sep] + b + seq![sep] + c, sep) =~= seq![a, b, c]);
}

/// `h:m:s` in decimal holds no comma.
proof fn lemma_hms_no_comma(h: nat, m: nat, sec: nat)
    ensures
        forall|i: int|
            0 <= i < (decimal(h) + seq![':'] + decimal(m) + seq![':'] + decimal(sec)).len() ==> (
            decimal(h) + seq![':'] + decimal(m) + seq![':'] + decimal(sec))[i] != ',',
{
    let (dh, dm, ds) = (decimal(h), decimal(m), decimal(sec));
    let t = dh + seq![':'] + dm + seq![':'] + ds;
    lemma_decimal_lacks(h, ',');
    lemma_decimal_lacks(m, ',');
    lemma_decimal_lacks(sec, ',');
    assert forall|i: int| 0 <= i < t.len() implies t[i] != ',' by {
        if i < dh.len() {
            assert(t[i] == dh[i]);
            assert(!(dh[i] == ','));
        } else if i == dh.len() {
        } else if i < dh.len() + 1 + dm.len() {
            assert(t[i] == dm[i - dh.len() - 1]);
            assert(!(dm[i - dh.len() - 1] == ','));
        } else if i == dh.len() + 1 + dm.len() {
        } else {
            assert(t[i] == ds[i - dh.len() - 2 - dm.len()]);
            assert(!(ds[i - dh.len() - 2 - dm.len()] == ','));
        }
    }
}

/// Every valid time of day written `h:m:s` in decimal, as the whole `time`
/// setting, is the target of the countdown to the first popup time, at
/// `3600 * h + 60 * m + s` seconds into the day.
pub proof fn law_full_time_is_target(h: nat, m: nat, sec: nat)
    requires
        h < 24,
        m < 60,
        sec < 60,
    ensures
        target_time(decimal(h) + seq![':'] + decimal(m) + seq![':'] + decimal(sec)) == Some(
            (3600 * h + 60 * m + sec) as u32,
        ),
{
    let (dh, dm, ds) = (decimal(h), decimal(m), decimal(sec));
    let t = dh + seq![':'] + dm + seq![':'] + ds;
    lemma_decimal_lacks(h, ':');
    lemma_decimal_lacks(m, ':');
    lemma_decimal_lacks(sec, ':');
    lemma_split_three(dh, dm, ds, ':');
    lemma_hms_no_comma(h, m, sec);
    lemma_split_no_sep(t, ',');
    lemma_decimal_parses(h);
    lemma_decimal_parses(m);
    lemma_decimal_parses(sec);
    lemma_decimal_digits(h);
    lemma_decimal_digits(m);
    lemma_decimal_digits(sec);
    assert(t.len() > 0);
    assert(crate::schedule::first_full_from(seq![t], 1) == None::<u32>);
}

/// A countdown entry `h:m:s` in decimal lasts `3600 * h + 60 * m + s`
/// seconds, and one `:m:s` with no hour lasts `60 * m + s` seconds.
pub proof fn law_entry_seconds(h: nat, m: nat, sec: nat)
    requires
        3600 * h + 60 * m + sec <= 2147483647,
    ensures
        entry_seconds(split_on(decimal(h) + seq![':'] + decimal(m) + seq![':'] + decimal(sec), ':'))
            == Some((3600 * h + 60 * m + sec) as int),
        entry_seconds(split_on(seq![] + seq![':'] + decimal(m) + seq![':'] + decimal(sec), ':'))
            == Some((60 * m + sec) as int),
{
    let (dh, dm, ds) = (decimal(h), decimal(m), decimal(sec));
    lemma_decimal_lacks(h, ':');
    lemma_decimal_lacks(m, ':');
    lemma_decimal_lacks(sec, ':');
    assert(!has_char(Seq::<char>::empty(), ':'));
    lemma_split_three(dh, dm, ds, ':');
    lemma_split_three(Seq::<char>::empty(), dm, ds, ':');
    lemma_decimal_parses(h);
    lemma_decimal_parses(m);
    lemma_decimal_parses(sec);
    lemma_decimal_digits(h);
    lemma_decimal_digits(m);
    lemma_decimal_digits(sec);
}

/// Choice `i` of a list with more than `i` items is item `i`; past the end
/// it is the first item.
pub proof fn law_pick_is_item(list: Seq<Seq<char>>, i: nat)
    requires
        list.len() > 0,
    ensures
        i < list.len() ==> pick(list, i) == list[i as int],
        i >= list.len() ==> pick(list, i) == list[0],
{
}

/// The `i`-th popup plays the `i`-th sound of its list and shows the `i`-th
/// tip of its list, when the list has that many.
pub proof fn law_nth_popup_gets_nth_choice(
    d: Seq<char>,
    l1: Seq<char>,
    l2: Seq<char>,
    i: nat,
    scheduled: bool,
)
    requires
        !has_char(d, '*'),
        !has_char(l1, '*'),
        !has_char(l2, '*'),
        i < split_on(l1, '|').len(),
    ensures
        sound_choice(d + seq!['*'] + l1, i, scheduled) == d + split_on(l1, '|')[i as int],
        sound_choice(d + seq!['*'] + l2 + seq!['*'] + l1, i, false) == d + split_on(l1, '|')[
            i as int],
        tip_choice(l1, i, scheduled) == split_on(l1, '|')[i as int],
        tip_choice(l2 + seq!['*'] + l1, i, false) == split_on(l1, '|')[i as int],
{
    law_sound_choices(d, l1, l2, i, scheduled);
    law_sound_choices(d, l2, l1, i, scheduled);
    law_tip_choices(l1, l2, i, scheduled);
    law_tip_choices(l2, l1, i, scheduled);
    law_pick_is_item(split_on(l1, '|'), i);
}

/// A background image fills the whole background exactly when it is more
/// than one and a half times as wide as it is high (`w / h > 1.5`, that is
/// `2 * w > 3 * h`); otherwise it stands in for the clock face.
pub proof fn law_image_layout(w: u32, h: u32)
    ensures
        (image_layout(Some((w, h))) == ImageLayout::Background) == (2 * w > 3 * h),
        (image_layout(Some((w, h))) == ImageLayout::Face) == (2 * w <= 3 * h),
        image_layout(None) == ImageLayout::NoImage,
{
}

/// A decimal numeral, or one padded to two digits, denotes one number only.
proof fn lemma_numeral_fields(n: nat, v: nat)
    ensures
        field_matches(decimal(n), v) == (n == v),
        second_matches(decimal(n), v) == (n == v),
        field_matches(crate::decimal::pad2(n), v) == (n == v),
        second_matches(crate::decimal::pad2(n), v) == (n == v),
{
    lemma_decimal_digits(n);
    lemma_decimal_digits(v);
    if decimal(n) == seq!['0'] + decimal(v) {
        assert(decimal(n)[0] == '0');
        assert(decimal(n).len() >= 2);
        if n < 10 {
            assert(decimal(n).len() == 1);
        }
    }
    if n < 10 {
        let z = seq!['0'] + decimal(n);
        if z == decimal(v) {
            assert(decimal(v)[0] == '0');
            assert(decimal(v).len() == 2);
            if v < 10 {
                assert(decimal(v).len() == 1);
            }
        }
        if z == seq!['0'] + decimal(v) {
            assert(decimal(n) =~= z.drop_first());
            assert(decimal(v) =~= (seq!['0'] + decimal(v)).drop_first());
        }
    }
}

/// Writing the fields of an entry of `time` needs no separator inside them.
proof fn lemma_numeral_plain(n: nat)
    ensures
        !has_char(decimal(n), ':') && !has_char(decimal(n), ','),
        !has_char(crate::decimal::pad2(n), ':') && !has_char(crate::decimal::pad2(n), ','),
{
    lemma_decimal_lacks(n, ':');
    lemma_decimal_lacks(n, ',');
    let z = seq!['0'] + decimal(n);
    if has_char(z, ':') {
        let i = choose|i: int| 0 <= i < z.len() && z[i] == ':';
        assert(decimal(n)[i - 1] == ':');
    }
    if has_char(z, ',') {
        let i = choose|i: int| 0 <= i < z.len() && z[i] == ',';
        assert(decimal(n)[i - 1] == ',');
    }
}

/// A `time` setting that names one time of day, `h:m:s` in decimal or with
/// each field padded to two digits, pops up at that time and at no other;
/// one that leaves the hour and the second empty, `:m:`, pops up at minute
/// `m` of every hour, at its second 0.
pub proof fn law_time_of_day_matches(h: nat, m: nat, sec: nat, hh: nat, mm: nat, ss: nat)
    ensures
        schedule_match(decimal(h) + seq![':'] + decimal(m) + seq![':'] + decimal(sec), hh, mm, ss)
            == (if h == hh && m == mm && sec == ss {
            Some(0nat)
        } else {
            None
        }),
        schedule_match(
            crate::decimal::pad2(h) + seq![':'] + crate::decimal::pad2(m) + seq![':']
                + crate::decimal::pad2(sec),
            hh,
            mm,
            ss,
        ) == (if h == hh && m == mm && sec == ss {
            Some(0nat)
        } else {
            None
        }),
        schedule_match(seq![] + seq![':'] + decimal(m) + seq![':'] + seq![], hh, mm, ss) == (if m
            == mm && ss == 0 {
            Some(0nat)
        } else {
            None
        }),
{
    lemma_numeral_plain(h);
    lemma_numeral_plain(m);
    lemma_numeral_plain(sec);
    lemma_numeral_fields(h, hh);
    lemma_numeral_fields(m, mm);
    lemma_numeral_fields(sec, ss);
    let e = Seq::<char>::empty();
    assert(!has_char(e, ':') && !has_char(e, ','));
    law_time_entry(decimal(h), decimal(m), decimal(sec), hh, mm, ss);
    law_time_entry(
        crate::decimal::pad2(h),
        crate::decimal::pad2(m),
        crate::decimal::pad2(sec),
        hh,
        mm,
        ss,
    );
    law_time_entry(e, decimal(m), e, hh, mm, ss);
}

/// What the countdowns show for `h` hours, `m` minutes and `s` seconds
/// left: a countdown from the setting shows the hours, then all the whole
/// minutes left (not reduced by the hours, as the program always showed
/// them), then the seconds; the ten-minute countdown shows `00`, the
/// minutes and the seconds; the countdown to a popup time shows the hours,
/// minutes and seconds; with nothing left, the countdowns show zeros.
pub proof fn law_countdown_texts(h: nat, m: nat, sec: nat)
    requires
        m < 60,
        sec < 60,
    ensures
        ({
            let left = (3600 * h + 60 * m + sec) as int;
            left > 0 ==> countdown_text(left) == crate::decimal::pad2(h) + seq![':']
                + crate::decimal::pad2(60 * h + m) + seq![':'] + crate::decimal::pad2(sec)
        }),
        ({
            let left = (60 * m + sec) as int;
            left > 0 ==> default_countdown_text(left) == seq!['0', '0', ':'] + crate::decimal::pad2(
                m,
            ) + seq![':'] + crate::decimal::pad2(sec)
        }),
        crate::model::time_left_text((3600 * h + 60 * m + sec) as int) == crate::frame::time_text(
            h,
            m,
            sec,
        ),
        countdown_text(0) == crate::frame::time_text(0, 0, 0),
        default_countdown_text(0) == crate::frame::time_text(0, 0, 0),
{
    let left = (3600 * h + 60 * m + sec) as int;
    let ms = (60 * m + sec) as int;
    vstd::arithmetic::div_mod::lemma_fundamental_div_mod_converse(left, 3600, h as int, ms);
    vstd::arithmetic::div_mod::lemma_fundamental_div_mod_converse(
        left,
        60,
        (60 * h + m) as int,
        sec as int,
    );
    vstd::arithmetic::div_mod::lemma_fundamental_div_mod_converse(ms, 60, m as int, sec as int);
}

/// A line of the `[Config]` section.
pub open spec fn config_line(key: Seq<char>, value: Seq<char>) -> EntryView {
    EntryView { section: Some("Config"@), key, value }
}

/// A decimal numeral reads as a `u32` when it is in range, and with a `-`
/// before it as the negative `i32`.
proof fn lemma_numeral_reads(n: nat)
    ensures
        n <= 4294967295 ==> crate::decimal::parse_u32_spec(decimal(n)) == Some(n as u32),
        n <= 2147483648 ==> parse_i32_spec(seq!['-'] + decimal(n)) == Some((-n) as i32),
{
    lemma_decimal_digits(n);
    assert(crate::decimal::is_digit(decimal(n)[0]));
    assert(crate::decimal::without_plus(decimal(n)) == decimal(n));
    assert((seq!['-'] + decimal(n)).drop_first() =~= decimal(n));
}

/// The README's settings, each on a line of its own, read as it describes:
/// `show_time` in milliseconds, `timezone` in hours east (a `-` for west),
/// `init_show=0` and `round=0` switch those off, `time_countdown=1` switches
/// that on, and the paths and tips are kept as written; with no line the
/// popup stays 1200 ms, the clock shows at start, keeps the local time, has
/// rounded corners and no countdown to a popup time.
pub proof fn law_readme_settings(dir: Seq<char>, n: nat, z: nat, v: Seq<char>)
    requires
        n <= 4294967295,
        z <= 12,
    ensures
        settings_from(seq![config_line("show_time"@, decimal(n))], dir).show_time == n,
        settings_from(seq![config_line("timezone"@, decimal(z))], dir).timezone == Some(z as i32),
        settings_from(seq![config_line("timezone"@, seq!['-'] + decimal(z))], dir).timezone == Some(
            (-z) as i32,
        ),
        settings_from(seq![config_line("timezone"@, seq!['+'] + decimal(z))], dir).timezone == Some(
            z as i32,
        ),
        !settings_from(seq![config_line("init_show"@, "0"@)], dir).init_show,
        !settings_from(seq![config_line("round"@, "0"@)], dir).round,
        settings_from(seq![config_line("time_countdown"@, "1"@)], dir).time_countdown,
        settings_from(seq![config_line("tips"@, v)], dir).tips == v,
        settings_from(seq![config_line("font_path"@, v)], dir).font_path == v,
        settings_from(seq![config_line("time_font"@, v)], dir).time_font == v,
        settings_from(seq![config_line("bg"@, v)], dir).bg == v,
        settings_from(Seq::<EntryView>::empty(), dir).show_time == 1200,
        settings_from(Seq::<EntryView>::empty(), dir).init_show,
        settings_from(Seq::<EntryView>::empty(), dir).timezone is None,
        settings_from(Seq::<EntryView>::empty(), dir).round,
        !settings_from(Seq::<EntryView>::empty(), dir).time_countdown,
{
    reveal_strlit("Config");
    reveal_strlit("time");
    reveal_strlit("sound");
    reveal_strlit("countdown");
    reveal_strlit("pos");
    reveal_strlit("bg_color");
    reveal_strlit("border_color");
    reveal_strlit("number_bg_color");
    reveal_strlit("number_color");
    reveal_strlit("clock_bg_color");
    reveal_strlit("show_time");
    reveal_strlit("tips");
    reveal_strlit("font_path");
    reveal_strlit("bg");
    reveal_strlit("init_show");
    reveal_strlit("timezone");
    reveal_strlit("round");
    reveal_strlit("time_font");
    reveal_strlit("time_countdown");
    reveal_strlit("0");
    reveal_strlit("1");
    assert("Config"@.len() == 6 && "time"@.len() == 4 && "sound"@.len() == 5 && "countdown"@.len() == 9 && "pos"@.len() == 3 && "bg_color"@.len() == 8 && "border_color"@.len() == 12 && "number_bg_color"@.len() == 15 && "number_color"@.len() == 12 && "clock_bg_color"@.len() == 14 && "show_time"@.len() == 9 && "tips"@.len() == 4 && "font_path"@.len() == 9 && "bg"@.len() == 2 && "init_show"@.len() == 9 && "timezone"@.len() == 8 && "round"@.len() == 5 && "time_font"@.len() == 9 && "time_countdown"@.len() == 14 && "0"@.len() == 1 && "1"@.len() == 1);
    assert("time"@[2] != "tips"@[2]);
    assert("sound"@[0] != "round"@[0]);
    assert("countdown"@[0] != "show_time"@[0]);
    assert("countdown"@[0] != "font_path"@[0]);
    assert("countdown"@[0] != "init_show"@[0]);
    assert("countdown"@[0] != "time_font"@[0]);
    assert("bg_color"@[0] != "timezone"@[0]);
    assert("border_color"@[0] != "number_color"@[0]);
    assert("clock_bg_color"@[0] != "time_countdown"@[0]);
    assert("show_time"@[0] != "font_path"@[0]);
    assert("show_time"@[0] != "init_show"@[0]);
    assert("show_time"@[0] != "time_font"@[0]);
    assert("font_path"@[0] != "init_show"@[0]);
    assert("font_path"@[0] != "time_font"@[0]);
    assert("init_show"@[0] != "time_font"@[0]);
    lemma_numeral_reads(n);
    lemma_numeral_reads(z);
    lemma_decimal_parses(z);
    lemma_decimal_digits(z);
    assert((seq!['+'] + decimal(z)).drop_first() =~= decimal(z));
    assert(crate::decimal::without_plus(seq!['+'] + decimal(z)) == decimal(z));
    let l1 = config_line("show_time"@, decimal(n));
    let l2 = config_line("timezone"@, decimal(z));
    assert(seq![l1].drop_last() =~= Seq::<EntryView>::empty());
    assert(seq![l2].drop_last() =~= Seq::<EntryView>::empty());
    assert(crate::decimal::parse_u32_spec(l1.value) == Some(n as u32));
    assert(parse_i32_spec(l2.value) == Some(z as i32));
}

/// A number written padded to two digits: below 100 it takes exactly two
/// digits that read back as the number; from 100 on, its plain numeral.
pub proof fn law_two_digits(n: nat)
    ensures
        n < 100 ==> crate::decimal::pad2(n).len() == 2,
        crate::decimal::all_digits(crate::decimal::pad2(n)),
        crate::decimal::digits_value(crate::decimal::pad2(n)) == n,
        n >= 10 ==> crate::decimal::pad2(n) == decimal(n),
{
    lemma_decimal_digits(n);
    if n < 10 {
        let z = seq!['0'] + decimal(n);
        assert(z.drop_last() =~= seq!['0']);
        let zero = seq!['0'];
        assert(zero.len() == 1 && zero.last() == '0');
        assert(zero.drop_last() =~= Seq::<char>::empty());
        assert(crate::decimal::digits_value(Seq::<char>::empty()) == 0);
        assert(crate::decimal::digit_value('0') == 0);
        assert(crate::decimal::digits_value(zero) == crate::decimal::digits_value(zero.drop_last())
            * 10 + crate::decimal::digit_value(zero.last()));
        assert(crate::decimal::digits_value(zero) == 0);
    } else if n < 100 {
        lemma_decimal_digits(n / 10);
        assert(decimal(n / 10).len() == 1);
    }
}

} // verus!
