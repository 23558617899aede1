//! What a frame of the clock shows: its colours, its title, its tip.
use vstd::prelude::*;
use crate::color::{color_text_ok, Rgba};
use crate::decimal::pad2;

verus! {

/// `HH:MM:SS` for a time of day.
pub open spec fn time_text(h: nat, m: nat, s: nat) -> Seq<char> {
    pad2(h) + seq![':'] + pad2(m) + seq![':'] + pad2(s)
}

/// The time of day as the clock shows it.
///
/// Trusted: chrono's `NaiveTime::from_hms_opt(hour, minute, second)`
/// (`Some` for a valid time of day, as its source shows) formatted with
/// `"%H:%M:%S"`, which chrono documents as the hour, minute and second each
/// zero-padded to two digits, separated by `:`.
#[verifier::external_body]
pub(crate) fn time_of_day_text(hour: u32, minute: u32, second: u32) -> (t: String)
    requires
        hour < 24,
        minute < 60,
        second < 60,
    ensures
        t@ == time_text(hour as nat, minute as nat, second as nat),
{
    match chrono::NaiveTime::from_hms_opt(hour, minute, second) {
        Some(time) => time.format("%H:%M:%S").to_string(),
        None => String::new(),
    }
}

/// The default background: dark grey, partly transparent.
pub open spec fn default_background() -> Rgba {
    Rgba { r: 32, g: 33, b: 36, a: 200 }
}

/// Opaque black.
pub open spec fn black() -> Rgba {
    Rgba { r: 0, g: 0, b: 0, a: 255 }
}

/// The title: the countdown when one is shown, else the time of day.
pub open spec fn frame_title(custom_clock: Seq<char>, h: nat, m: nat, s: nat) -> Seq<char> {
    if custom_clock.len() > 0 {
        custom_clock
    } else {
        time_text(h, m, s)
    }
}

/// Where the background image goes.
#[derive(Clone, Copy, Debug, PartialEq, Eq, Structural)]
pub enum ImageLayout {
    /// No image: the clock face is painted.
    NoImage,
    /// A wide image (more than 1.5 times as wide as high) fills the
    /// background, scaled to 100 points high.
    Background,
    /// Any other image stands in for the clock face, scaled to 80 points
    /// high in the face's square.
    Face,
}

/// Where an image of the given size goes: a wide one (`w / h > 1.5`)
/// fills the background, any other stands in for the face.
pub open spec fn image_layout(size: Option<(u32, u32)>) -> ImageLayout {
    match size {
        None => ImageLayout::NoImage,
        Some((w, h)) => if 2 * w > 3 * h {
            ImageLayout::Background
        } else {
            ImageLayout::Face
        },
    }
}

/// Where an image of the given size goes.
pub fn layout_image(size: Option<(u32, u32)>) -> (l: ImageLayout)
    ensures
        l == image_layout(size),
{
    match size {
        None => ImageLayout::NoImage,
        Some((w, h)) => if 2 * (w as u64) > 3 * (h as u64) {
            ImageLayout::Background
        } else {
            ImageLayout::Face
        },
    }
}

/// What a frame of the clock shows.
pub struct FramePlan {
    /// The rounded background.
    pub background: Rgba,
    /// Its border.
    pub border: Rgba,
    /// The box behind the digits and the tip.
    pub number_background: Rgba,
    /// The digits and the tip.
    pub number: Rgba,
    /// The clock face.
    pub clock_background: Rgba,
    /// The digits: the countdown or the time of day.
    pub title: String,
    /// The tip, when one is shown.
    pub tip: Option<String>,
    /// The time of day for the hands: hour, minute, second.
    pub hands: (u32, u32, u32),
    /// Whether the clock face is painted (no background image).
    pub clock_face: bool,
    /// Where the background image goes.
    pub image: ImageLayout,
    /// Whether the frame's corners are rounded.
    pub rounded: bool,
    /// Whether the digits use their own font.
    pub time_font: bool,
    /// Whether the close button is offered (no popup runs).
    pub close_button: bool,
}

/// Whether the five colour settings can be read.
pub open spec fn colors_readable(
    bg: Seq<char>,
    border: Seq<char>,
    number_bg: Seq<char>,
    number: Seq<char>,
    clock_bg: Seq<char>,
) -> bool {
    color_text_ok(bg) && color_text_ok(border) && color_text_ok(number_bg) && color_text_ok(
        number,
    ) && color_text_ok(clock_bg)
}

} // verus!
