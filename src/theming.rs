//! Colors, themes, and where the slide number goes.

use vstd::prelude::*;
use crate::fit::Size;
use crate::text::{chars_of, same_chars};

verus! {

/// An opaque color, one byte per channel.
#[derive(Clone, Copy, Debug, PartialEq, Eq, Structural)]
pub struct Color {
    pub r: u8,
    pub g: u8,
    pub b: u8,
}

/// The two colors of a presentation.
#[derive(Clone, Copy, Debug, PartialEq, Eq, Structural)]
pub struct Theme {
    pub background_color: Color,
    pub font_color: Color,
}

/// Near-black on off-white text.
pub open spec fn dark_theme() -> Theme {
    Theme {
        background_color: Color { r: 16, g: 16, b: 16 },
        font_color: Color { r: 255, g: 255, b: 230 },
    }
}

/// The dark theme the other way round.
pub open spec fn light_theme() -> Theme {
    Theme { background_color: dark_theme().font_color, font_color: dark_theme().background_color }
}

impl Theme {
    pub fn dark() -> (r: Theme)
        ensures
            r == dark_theme(),
    {
        Theme {
            background_color: Color { r: 16, g: 16, b: 16 },
            font_color: Color { r: 255, g: 255, b: 230 },
        }
    }

    pub fn light() -> (r: Theme)
        ensures
            r == light_theme(),
    {
        Theme {
            background_color: Color { r: 255, g: 255, b: 230 },
            font_color: Color { r: 16, g: 16, b: 16 },
        }
    }

    /// The theme with background and text colors exchanged.
    pub fn swapped(&self) -> (r: Theme)
        ensures
            r.background_color == self.font_color,
            r.font_color == self.background_color,
    {
        Theme { background_color: self.font_color, font_color: self.background_color }
    }
}

/// The value of a hexadecimal digit, either case.
pub open spec fn hex_value(c: char) -> Option<u8> {
    if '0' <= c && c <= '9' {
        Some((c as u32 - '0' as u32) as u8)
    } else if 'a' <= c && c <= 'f' {
        Some((c as u32 - 'a' as u32 + 10) as u8)
    } else if 'A' <= c && c <= 'F' {
        Some((c as u32 - 'A' as u32 + 10) as u8)
    } else {
        None
    }
}

fn hex_digit(c: char) -> (r: Option<u8>)
    ensures
        r == hex_value(c),
{
    if '0' <= c && c <= '9' {
        Some((c as u32 - '0' as u32) as u8)
    } else if 'a' <= c && c <= 'f' {
        Some((c as u32 - 'a' as u32 + 10) as u8)
    } else if 'A' <= c && c <= 'F' {
        Some((c as u32 - 'A' as u32 + 10) as u8)
    } else {
        None
    }
}

/// Number of `'#'` at the start of `s`.
pub open spec fn hashes(s: Seq<char>, i: int) -> int
    decreases s.len() - i,
{
    if 0 <= i < s.len() && s[i] == '#' {
        hashes(s, i + 1)
    } else {
        i
    }
}

/// The byte written by two hexadecimal digits.
pub open spec fn hex_byte(hi: char, lo: char) -> Option<u8> {
    match (hex_value(hi), hex_value(lo)) {
        (Some(h), Some(l)) => Some((16 * h + l) as u8),
        _ => None,
    }
}

/// The color written `rrggbb` in hexadecimal, after any number of `'#'`.
pub open spec fn hex_color(s: Seq<char>) -> Option<Color> {
    let t = s.skip(hashes(s, 0));
    if t.len() != 6 {
        None
    } else {
        match (hex_byte(t[0], t[1]), hex_byte(t[2], t[3]), hex_byte(t[4], t[5])) {
            (Some(r), Some(g), Some(b)) => Some(Color { r, g, b }),
            _ => None,
        }
    }
}

fn byte_of(hi: char, lo: char) -> (r: Option<u8>)
    ensures
        r == hex_byte(hi, lo),
{
    match (hex_digit(hi), hex_digit(lo)) {
        (Some(h), Some(l)) => Some(16 * h + l),
        _ => None,
    }
}

/// Reads a color written `rrggbb` in hexadecimal, after any number of `'#'`.
pub fn parse_hex_color(s: &str) -> (r: Result<Color, ()>)
    ensures
        r matches Ok(c) ==> hex_color(s@) == Some(c),
        r is Err <==> hex_color(s@) is None,
{
    let v = chars_of(s);
    let mut i: usize = 0;
    while i < v.len() && v[i] == '#'
        invariant
            v@ == s@,
            0 <= i <= v@.len(),
            hashes(s@, i as int) == hashes(s@, 0),
        decreases v.len() - i,
    {
        i += 1;
    }
    if v.len() - i != 6 {
        return Err(());
    }
    assert(s@.skip(i as int)[0] == v@[i as int]);
    let ghost t = s@.skip(i as int);
    assert(t[1] == v@[i + 1] && t[2] == v@[i + 2] && t[3] == v@[i + 3]);
    assert(t[4] == v@[i + 4] && t[5] == v@[i + 5]);
    match (byte_of(v[i], v[i + 1]), byte_of(v[i + 2], v[i + 3]), byte_of(v[i + 4], v[i + 5])) {
        (Some(r), Some(g), Some(b)) => Ok(Color { r, g, b }),
        _ => Err(()),
    }
}

/// The theme a setting names: `dark`, `light`, or two colors as
/// `<background>x<text>`, each in hexadecimal.
pub open spec fn theme_named(s: Seq<char>) -> Option<Theme> {
    if s == "dark"@ {
        Some(dark_theme())
    } else if s == "light"@ {
        Some(light_theme())
    } else if exists|k: int| 0 <= k < s.len() && s[k] == 'x' && forall|j: int| 0 <= j < s.len() && s[j] == 'x' ==> j == k {
        let k = choose|k: int| 0 <= k < s.len() && s[k] == 'x' && forall|j: int| 0 <= j < s.len() && s[j] == 'x' ==> j == k;
        match (hex_color(s.take(k)), hex_color(s.skip(k + 1))) {
            (Some(bg), Some(fg)) => Some(Theme { background_color: bg, font_color: fg }),
            _ => None,
        }
    } else {
        None
    }
}


/// Reads a theme setting: `dark`, `light`, or two colors as
/// `<background>x<text>`, each in hexadecimal; `None` for anything else.
pub fn parse_theme(value: &str) -> (r: Option<Theme>)
    ensures
        r == theme_named(value@),
{
    if same_chars(value, "dark") {
        return Some(Theme::dark());
    }
    if same_chars(value, "light") {
        return Some(Theme::light());
    }
    let v = chars_of(value);
    let mut k: usize = 0;
    while k < v.len() && v[k] != 'x'
        invariant
            v@ == value@,
            0 <= k <= v@.len(),
            forall|j: int| 0 <= j < k ==> v@[j] != 'x',
        decreases v.len() - k,
    {
        k += 1;
    }
    if k == v.len() {
        assert(!exists|k: int| 0 <= k < value@.len() && value@[k] == 'x');
        return None;
    }
    let mut j: usize = k + 1;
    while j < v.len() && v[j] != 'x'
        invariant
            v@ == value@,
            k < j <= v@.len(),
            forall|i: int| k < i < j ==> v@[i] != 'x',
        decreases v.len() - j,
    {
        j += 1;
    }
    if j < v.len() {
        assert forall|m: int|
            0 <= m < value@.len() && value@[m] == 'x' implies !(forall|i: int|
            0 <= i < value@.len() && value@[i] == 'x' ==> i == m) by {
            if m == k {
                assert(value@[j as int] == 'x');
            } else {
                assert(value@[k as int] == 'x');
            }
        }
        return None;
    }
    assert(forall|i: int| 0 <= i < value@.len() && value@[i] == 'x' ==> i == k);
    let n = v.len();
    let bg = parse_hex_color(value.substring_char(0, k));
    let fg = parse_hex_color(value.substring_char(k + 1, n));
    assert(value@.subrange(0, k as int) =~= value@.take(k as int));
    assert(value@.subrange(k + 1, n as int) =~= value@.skip(k + 1));
    match (bg, fg) {
        (Ok(b), Ok(f)) => Some(Theme { background_color: b, font_color: f }),
        _ => None,
    }
}

/// One of six places for the slide number: bottom or top, and left,
/// center or right.
#[derive(Clone, Copy, Debug, PartialEq, Eq, Structural)]
pub enum NumberingAnchor {
    BottomLeft,
    BottomCenter,
    BottomRight,
    TopLeft,
    TopCenter,
    TopRight,
}

/// A point on the screen; it may lie off the screen's top or left edge.
#[derive(Clone, Copy, Debug, PartialEq, Eq, Structural)]
pub struct Point {
    pub x: i64,
    pub y: i64,
}

/// Where the slide number goes on a screen of size `screen`: at the left,
/// the center or the right, at the top or the bottom, kept off the edges by
/// a four-hundredth of the width and a three-hundredth of the height.
pub open spec fn anchor_point(anchor: NumberingAnchor, screen: Size) -> Point {
    let mx = screen.width / 400;
    let my = screen.height / 300;
    let x: int = match anchor {
        NumberingAnchor::BottomLeft | NumberingAnchor::TopLeft => mx as int,
        NumberingAnchor::BottomCenter | NumberingAnchor::TopCenter => (screen.width / 2) as int,
        _ => screen.width - mx,
    };
    let y: int = match anchor {
        NumberingAnchor::TopLeft | NumberingAnchor::TopCenter | NumberingAnchor::TopRight => my as int,
        _ => screen.height - my,
    };
    Point { x: x as i64, y: y as i64 }
}

/// Where the slide number goes on a screen of size `screen`.
pub fn anchor_to_position(anchor: NumberingAnchor, screen: Size) -> (r: Point)
    ensures
        r == anchor_point(anchor, screen),
{
    let mx = screen.width / 400;
    let my = screen.height / 300;
    let x = match anchor {
        NumberingAnchor::BottomLeft | NumberingAnchor::TopLeft => mx,
        NumberingAnchor::BottomCenter | NumberingAnchor::TopCenter => screen.width / 2,
        _ => screen.width - mx,
    };
    let y = match anchor {
        NumberingAnchor::TopLeft | NumberingAnchor::TopCenter | NumberingAnchor::TopRight => my,
        _ => screen.height - my,
    };
    Point { x: x as i64, y: y as i64 }
}

/// The anchor a setting names: `bl`, `bc`, `br`, `tl`, `tc` or `tr`.
pub open spec fn anchor_named(s: Seq<char>) -> Option<NumberingAnchor> {
    if s == "bl"@ {
        Some(NumberingAnchor::BottomLeft)
    } else if s == "bc"@ {
        Some(NumberingAnchor::BottomCenter)
    } else if s == "br"@ {
        Some(NumberingAnchor::BottomRight)
    } else if s == "tl"@ {
        Some(NumberingAnchor::TopLeft)
    } else if s == "tc"@ {
        Some(NumberingAnchor::TopCenter)
    } else if s == "tr"@ {
        Some(NumberingAnchor::TopRight)
    } else {
        None
    }
}

/// Reads an anchor setting: `bl`, `bc`, `br`, `tl`, `tc` or `tr`.
pub fn parse_anchor(s: &str) -> (r: Option<NumberingAnchor>)
    ensures
        r == anchor_named(s@),
{
    if same_chars(s, "bl") {
        Some(NumberingAnchor::BottomLeft)
    } else if same_chars(s, "bc") {
        Some(NumberingAnchor::BottomCenter)
    } else if same_chars(s, "br") {
        Some(NumberingAnchor::BottomRight)
    } else if same_chars(s, "tl") {
        Some(NumberingAnchor::TopLeft)
    } else if same_chars(s, "tc") {
        Some(NumberingAnchor::TopCenter)
    } else if same_chars(s, "tr") {
        Some(NumberingAnchor::TopRight)
    } else {
        None
    }
}

/// One copy of the slide number to draw: where, and in which color.
#[derive(Clone, Copy, Debug, PartialEq, Eq, Structural)]
pub struct Mark {
    pub at: Point,
    pub color: Color,
}

/// `p` moved by `dx` and `dy`.
pub open spec fn shifted(p: Point, dx: int, dy: int) -> Point {
    Point { x: (p.x + dx) as i64, y: (p.y + dy) as i64 }
}

/// The five copies of the slide number at `p` that make an outlined number:
/// four shifted by `offset` along the diagonals, in the background color,
/// then one at `p` in the text color, drawn last.
pub open spec fn outline(p: Point, offset: int, theme: Theme) -> Seq<Mark> {
    seq![
        Mark { at: shifted(p, -offset, -offset), color: theme.background_color },
        Mark { at: shifted(p, -offset, offset), color: theme.background_color },
        Mark { at: shifted(p, offset, -offset), color: theme.background_color },
        Mark { at: shifted(p, offset, offset), color: theme.background_color },
        Mark { at: p, color: theme.font_color },
    ]
}

/// The copies of the slide number to draw at `p`, as `outline` has them.
pub fn draw_numbering(p: Point, offset: u32, theme: &Theme) -> (r: Vec<Mark>)
    requires
        i64::MIN + u32::MAX <= p.x <= i64::MAX - u32::MAX,
        i64::MIN + u32::MAX <= p.y <= i64::MAX - u32::MAX,
    ensures
        r@ == outline(p, offset as int, *theme),
{
    let o = offset as i64;
    let bg = theme.background_color;
    let mut r: Vec<Mark> = Vec::new();
    r.push(Mark { at: Point { x: p.x - o, y: p.y - o }, color: bg });
    r.push(Mark { at: Point { x: p.x - o, y: p.y + o }, color: bg });
    r.push(Mark { at: Point { x: p.x + o, y: p.y - o }, color: bg });
    r.push(Mark { at: Point { x: p.x + o, y: p.y + o }, color: bg });
    r.push(Mark { at: p, color: theme.font_color });
    assert(r@ =~= outline(p, offset as int, *theme));
    r
}

} // verus!
