use reiha::config::{parse_resolution, Config, Filtering};
use reiha::fit::Size;
use reiha::theming::{NumberingAnchor, Theme};

fn args(v: &[&str]) -> Vec<String> {
    v.iter().map(|s| s.to_string()).collect()
}

#[test]
fn all_settings() {
    let c = Config::from_args(&args(&[
        "-t", "light", "-n", "-r", "1920x1080", "-a", "tc", "-f", "font.ttf", "-p", "-l",
    ]));
    assert_eq!(c.theme, Some(Theme::light()));
    assert_eq!(c.numbering, Some(true));
    assert_eq!(c.virtual_resolution, Some(Size { width: 1920, height: 1080 }));
    assert_eq!(c.numbering_anchor, Some(NumberingAnchor::TopCenter));
    assert_eq!(c.font_path.as_deref(), Some("font.ttf"));
    assert_eq!(c.preview, Some(true));
    assert_eq!(c.filtering, Some(Filtering::Linear));
}

#[test]
fn nothing_set() {
    let c = Config::from_args(&args(&["slides.txt", "--theme"]));
    assert_eq!(c.theme, None);
    assert_eq!(c.filtering, None);
    assert_eq!(c.font_path, None);
    assert_eq!(c.virtual_resolution, None);
    assert_eq!(c.numbering, None);
    assert_eq!(c.preview, None);
    assert_eq!(c.numbering_anchor, None);
}

#[test]
fn last_setting_wins_and_bad_values_skipped() {
    let c = Config::from_args(&args(&[
        "--theme", "dark", "--theme", "purple", "--resolution", "800x600", "--resolution", "5000x100",
        "--numbering_anchor", "bl", "--numbering_anchor", "xx",
    ]));
    assert_eq!(c.theme, Some(Theme::dark()));
    assert_eq!(c.virtual_resolution, Some(Size { width: 800, height: 600 }));
    assert_eq!(c.numbering_anchor, Some(NumberingAnchor::BottomLeft));
}

#[test]
fn resolutions() {
    assert_eq!(parse_resolution("1600x1200"), Some(Size { width: 1600, height: 1200 }));
    assert_eq!(parse_resolution("3840x3840"), Some(Size { width: 3840, height: 3840 }));
    assert_eq!(parse_resolution("0003840x10"), Some(Size { width: 3840, height: 10 }));
    assert_eq!(parse_resolution("3841x10"), None);
    assert_eq!(parse_resolution("800x600x2"), None);
    assert_eq!(parse_resolution("x600"), None);
    assert_eq!(parse_resolution("800"), None);
    assert_eq!(parse_resolution("99999999999999999999x1"), None);
}
