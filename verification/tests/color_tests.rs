use rust_clock::color::{gene_color, Rgba};

fn rgba(r: u8, g: u8, b: u8, a: u8) -> Rgba {
    Rgba { r, g, b, a }
}

#[test]
fn empty_text_gives_default() {
    let d = rgba(32, 33, 36, 200);
    assert_eq!(gene_color(String::new(), d), d);
}

#[test]
fn fewer_than_three_parts_give_black() {
    let d = rgba(1, 1, 1, 1);
    assert_eq!(gene_color("12,34".to_string(), d), rgba(0, 0, 0, 255));
    assert_eq!(gene_color("abc".to_string(), d), rgba(0, 0, 0, 255));
}

#[test]
fn three_parts_are_opaque() {
    let d = rgba(1, 1, 1, 1);
    assert_eq!(gene_color("91,105,114".to_string(), d), rgba(91, 105, 114, 255));
    assert_eq!(gene_color("+0,007,255".to_string(), d), rgba(0, 7, 255, 255));
}

#[test]
fn four_parts_use_unmultiplied_alpha() {
    let d = rgba(1, 1, 1, 1);
    assert_eq!(gene_color("207,210,206,255".to_string(), d), rgba(207, 210, 206, 255));
    assert_eq!(gene_color("207,210,206,0".to_string(), d), rgba(0, 0, 0, 0));
    let c = gene_color("207,210,206,200".to_string(), d);
    let e = egui::Color32::from_rgba_unmultiplied(207, 210, 206, 200);
    assert_eq!((c.r, c.g, c.b, c.a), (e.r(), e.g(), e.b(), e.a()));
    assert_eq!(c.a, 200);
    assert_ne!((c.r, c.g, c.b), (207, 210, 206));
}

#[test]
fn parts_after_the_fourth_are_not_read() {
    let d = rgba(1, 1, 1, 1);
    assert_eq!(gene_color("1,2,3,255,x".to_string(), d), rgba(1, 2, 3, 255));
    assert_eq!(gene_color("1,2,3,255".to_string(), d), gene_color("1,2,3".to_string(), d));
}
