use reiha::fit::Size;
use reiha::theming::{
    anchor_to_position, draw_numbering, parse_anchor, parse_hex_color, parse_theme, Color, Mark,
    NumberingAnchor, Point, Theme,
};

#[test]
fn hex_colors() {
    assert_eq!(parse_hex_color("#ff0010"), Ok(Color { r: 255, g: 0, b: 16 }));
    assert_eq!(parse_hex_color("ABCDEF"), Ok(Color { r: 0xab, g: 0xcd, b: 0xef }));
    assert_eq!(parse_hex_color("##00ff00"), Ok(Color { r: 0, g: 255, b: 0 }));
    assert_eq!(parse_hex_color("12345"), Err(()));
    assert_eq!(parse_hex_color("1234567"), Err(()));
    assert_eq!(parse_hex_color("gggggg"), Err(()));
    assert_eq!(parse_hex_color(""), Err(()));
}

#[test]
fn named_and_custom_themes() {
    assert_eq!(parse_theme("dark"), Some(Theme::dark()));
    assert_eq!(parse_theme("light"), Some(Theme::light()));
    assert_eq!(
        parse_theme("101010xffffe6"),
        Some(Theme {
            background_color: Color { r: 16, g: 16, b: 16 },
            font_color: Color { r: 255, g: 255, b: 230 },
        })
    );
    assert_eq!(parse_theme("dim"), None);
    assert_eq!(parse_theme("000000x111111x222222"), None);
    assert_eq!(parse_theme("zzzzzzx000000"), None);
}

#[test]
fn swap_exchanges_colors() {
    let d = Theme::dark();
    let s = d.swapped();
    assert_eq!(s.background_color, d.font_color);
    assert_eq!(s.font_color, d.background_color);
    assert_eq!(s, Theme::light());
}

#[test]
fn anchors_on_screen() {
    let screen = Size { width: 1600, height: 1200 };
    assert_eq!(anchor_to_position(NumberingAnchor::BottomRight, screen), Point { x: 1596, y: 1196 });
    assert_eq!(anchor_to_position(NumberingAnchor::BottomLeft, screen), Point { x: 4, y: 1196 });
    assert_eq!(anchor_to_position(NumberingAnchor::TopCenter, screen), Point { x: 800, y: 4 });
    assert_eq!(anchor_to_position(NumberingAnchor::TopRight, screen), Point { x: 1596, y: 4 });
    assert_eq!(parse_anchor("tr"), Some(NumberingAnchor::TopRight));
    assert_eq!(parse_anchor("bc"), Some(NumberingAnchor::BottomCenter));
    assert_eq!(parse_anchor("middle"), None);
}

#[test]
fn outlined_number_marks() {
    let t = Theme::dark();
    let marks = draw_numbering(Point { x: 10, y: 20 }, 2, &t);
    let bg = t.background_color;
    assert_eq!(
        marks,
        vec![
            Mark { at: Point { x: 8, y: 18 }, color: bg },
            Mark { at: Point { x: 8, y: 22 }, color: bg },
            Mark { at: Point { x: 12, y: 18 }, color: bg },
            Mark { at: Point { x: 12, y: 22 }, color: bg },
            Mark { at: Point { x: 10, y: 20 }, color: t.font_color },
        ]
    );
}
