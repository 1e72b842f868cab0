use reiha::fit::{find_max_font_size, scale_to_fit, Scale, Size};

fn screen() -> Size {
    Size { width: 1600, height: 1200 }
}

fn three_wide(s: u16) -> Size {
    Size { width: 3 * s as u32, height: s as u32 }
}

#[test]
fn short_text_uses_large_steps() {
    // 4, 100, ... 484 fit; 580 does not: the search refines down to 508.
    assert_eq!(find_max_font_size("Hi", &three_wide, screen()), 508);
}

#[test]
fn medium_text_uses_step_64() {
    assert_eq!(find_max_font_size("Hello", &three_wide, screen()), 508);
}

#[test]
fn long_text_step_32() {
    let m = |s: u16| Size { width: 10 * s as u32, height: s as u32 };
    // Fits while 10 * s <= 1536, that is s <= 153.
    let r = find_max_font_size("a rather long line of text", &m, screen());
    assert_eq!(r, 152);
    assert!(10 * r as u32 * 100 <= 96 * 1600);
}

#[test]
fn fitted_size_fits_target() {
    for k in 1..40u32 {
        let m = move |s: u16| Size { width: k * s as u32, height: s as u32 / 2 };
        let r = find_max_font_size("Some words", &m, screen());
        assert!(r >= 4 && r <= 1024);
        if r < 1024 {
            assert!(k * r as u32 * 100 <= 96 * 1600, "k = {}", k);
        }
    }
}

#[test]
fn stops_at_maximum() {
    let tiny = |_s: u16| Size { width: 1, height: 1 };
    assert_eq!(find_max_font_size("Hi", &tiny, screen()), 1024);
}

#[test]
fn smallest_size_when_nothing_fits() {
    let huge = |_s: u16| Size { width: 100_000, height: 1 };
    assert_eq!(find_max_font_size("Hi", &huge, screen()), 4);
}

#[test]
fn height_bound_counts() {
    let m = |s: u16| Size { width: 1, height: 2 * s as u32 };
    // Fits while 200 * s <= 96 * 1200, that is s <= 576.
    let r = find_max_font_size("abcd", &m, screen());
    assert!(r <= 576);
    assert!(r >= 560);
}

#[test]
fn image_scale_wide_and_tall() {
    assert_eq!(scale_to_fit(screen(), Size { width: 800, height: 400 }), Scale { num: 1600, den: 800 });
    assert_eq!(scale_to_fit(screen(), Size { width: 400, height: 800 }), Scale { num: 1200, den: 800 });
    assert_eq!(scale_to_fit(screen(), Size { width: 3200, height: 2400 }), Scale { num: 1600, den: 3200 });
}
