//! Colours given in the configuration as `r,g,b` or `r,g,b,a`.
use vstd::prelude::*;
use crate::decimal::{parse_u8, parse_u8_spec};
use crate::text::{chars_of, split_chars, split_on, views};

verus! {

/// A colour as egui's `Color32` holds it: sRGB with premultiplied alpha.
#[derive(Clone, Copy, Debug, PartialEq, Eq, Structural)]
pub struct Rgba {
    pub r: u8,
    pub g: u8,
    pub b: u8,
    pub a: u8,
}

/// Trusted: egui's `Color32::from_rgb(r, g, b)`, which in the source stores
/// `[r, g, b, 255]`.
#[verifier::external_body]
pub(crate) fn opaque_color(r: u8, g: u8, b: u8) -> (c: Rgba)
    ensures
        c == (Rgba { r, g, b, a: 255 }),
{
    let (r, g, b, a) = egui::Color32::from_rgb(r, g, b).to_tuple();
    Rgba { r, g, b, a }
}

/// Trusted: egui's `Color32::from_rgba_unmultiplied(r, g, b, a)`. Its source
/// shows that an alpha of 255 gives `[r, g, b, 255]`, an alpha of 0 gives
/// `[0, 0, 0, 0]`, and any alpha is kept as it is. For other alphas the
/// colour channels go through a gamma conversion built on `f32::powf`,
/// whose precision std leaves to the platform; what they come out as is
/// left unsaid.
#[verifier::external_body]
fn unmultiplied(r: u8, g: u8, b: u8, a: u8) -> (c: Rgba)
    ensures
        a == 255 ==> c == (Rgba { r, g, b, a: 255 }),
        a == 0 ==> c == (Rgba { r: 0, g: 0, b: 0, a: 0 }),
        c.a == a,
{
    let (r, g, b, a) = egui::Color32::from_rgba_unmultiplied(r, g, b, a).to_tuple();
    Rgba { r, g, b, a }
}

/// Whether the first `n` pieces all read as `u8`.
pub open spec fn channels_ok(parts: Seq<Seq<char>>, n: int) -> bool {
    forall|i: int| 0 <= i < n ==> (#[trigger] parse_u8_spec(parts[i])) is Some
}

/// Whether a colour text can be read: empty, fewer than three pieces, or
/// its first three (with a fourth, four) pieces read as `u8`.
pub open spec fn color_text_ok(s: Seq<char>) -> bool {
    let p = split_on(s, ',');
    s.len() == 0 || p.len() < 3 || (p.len() == 3 && channels_ok(p, 3)) || (p.len() > 3
        && channels_ok(p, 4))
}

/// The channel that piece `i` reads as.
pub open spec fn channel(parts: Seq<Seq<char>>, i: int) -> u8 {
    parse_u8_spec(parts[i]).unwrap()
}

/// Whether `c` is a colour that the text `s` denotes: the default when the
/// text is empty, opaque black with fewer than three pieces, opaque `r,g,b`
/// with three, and with more the first four as `r,g,b,a` with unmultiplied
/// alpha: opaque `r,g,b` for an alpha of 255, fully transparent black for
/// 0, and for any other alpha a colour with that alpha (its channels come
/// from egui's gamma conversion). Pieces after the fourth are not read.
pub open spec fn color_denotes(s: Seq<char>, default: Rgba, c: Rgba) -> bool {
    let p = split_on(s, ',');
    if s.len() == 0 {
        c == default
    } else if p.len() < 3 {
        c == (Rgba { r: 0, g: 0, b: 0, a: 255 })
    } else if p.len() == 3 || channel(p, 3) == 255 {
        c == (Rgba { r: channel(p, 0), g: channel(p, 1), b: channel(p, 2), a: 255 })
    } else if channel(p, 3) == 0 {
        c == (Rgba { r: 0, g: 0, b: 0, a: 0 })
    } else {
        c.a == channel(p, 3)
    }
}

/// Reads a colour from its characters.
pub fn color_of_chars(s: &[char], default_color: Rgba) -> (c: Rgba)
    requires
        color_text_ok(s@),
    ensures
        color_denotes(s@, default_color, c),
{
    if s.len() == 0 {
        return default_color;
    }
    let parts = split_chars(s, ',');
    let ghost p = split_on(s@, ',');
    assert(views(parts@) == p);
    if parts.len() < 3 {
        return opaque_color(0, 0, 0);
    }
    assert(parse_u8_spec(p[0]) is Some && parse_u8_spec(p[1]) is Some && parse_u8_spec(p[2])
        is Some);
    let r = parse_u8(parts[0].as_slice()).unwrap();
    let g = parse_u8(parts[1].as_slice()).unwrap();
    let b = parse_u8(parts[2].as_slice()).unwrap();
    if parts.len() == 3 {
        return opaque_color(r, g, b);
    }
    assert(parse_u8_spec(p[3]) is Some);
    let a = parse_u8(parts[3].as_slice()).unwrap();
    unmultiplied(r, g, b, a)
}

/// Reads a colour text such as `207,210,206,200`: the default when the text
/// is empty, opaque black when it has fewer than three components, opaque
/// when it has three, and with the fourth as (unmultiplied) alpha otherwise.
pub fn gene_color(color_str: String, default_color: Rgba) -> (c: Rgba)
    requires
        color_text_ok(color_str@),
    ensures
        color_denotes(color_str@, default_color, c),
{
    let s = chars_of(color_str.as_str());
    color_of_chars(s.as_slice(), default_color)
}

/// Whether a colour text can be read.
pub fn color_text_is_ok(s: &[char]) -> (r: bool)
    ensures
        r == color_text_ok(s@),
{
    if s.len() == 0 {
        return true;
    }
    let parts = split_chars(s, ',');
    let ghost p = split_on(s@, ',');
    if parts.len() < 3 {
        return true;
    }
    let n: usize = if parts.len() == 3 {
        3
    } else {
        4
    };
    let mut i: usize = 0;
    while i < n
        invariant
            views(parts@) == p,
            p == split_on(s@, ','),
            s@.len() > 0,
            p.len() >= 3,
            n == (if p.len() == 3 {
                3usize
            } else {
                4usize
            }),
            i <= n,
            channels_ok(p, i as int),
        decreases n - i,
    {
        assert(views(parts@)[i as int] == parts@[i as int]@);
        if parse_u8(parts[i].as_slice()).is_none() {
            assert(parse_u8_spec(p[i as int]) is None);
            assert(!channels_ok(p, n as int));
            return false;
        }
        i = i + 1;
    }
    true
}

} // verus!
