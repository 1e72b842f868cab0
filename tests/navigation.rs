use reiha::document::parse;
use reiha::presentation::{Presentation, Refresh};

fn three() -> Presentation {
    Presentation::new(parse("a\n\nb\n\nc"), false, false)
}

#[test]
fn previous_on_first_stays() {
    let mut p = three();
    for _ in 0..5 {
        p.previous_slide();
        assert_eq!(p.current_index, 0);
    }
}

#[test]
fn next_on_last_stays() {
    let mut p = three();
    p.next_slide();
    p.next_slide();
    assert_eq!(p.current_index, 2);
    for _ in 0..5 {
        p.next_slide();
        assert_eq!(p.current_index, 2);
    }
    p.previous_slide();
    assert_eq!(p.current_index, 1);
    assert_eq!(p.current_slide().unwrap().index, 2);
}

#[test]
fn tick_refreshes_once_a_second() {
    let mut p = three();
    assert_eq!(p.tick(16_000), Some(Refresh { current: 0, next: None }));
    assert_eq!(p.preview_timer, 1_000_000);
    assert_eq!(p.tick(500_000), None);
    assert_eq!(p.preview_timer, 500_000);
    assert_eq!(p.tick(500_000), Some(Refresh { current: 0, next: None }));
}

#[test]
fn moving_makes_refresh_due() {
    let mut p = three();
    p.tick(1);
    p.next_slide();
    assert_eq!(p.preview_timer, 0);
    assert_eq!(p.tick(1), Some(Refresh { current: 1, next: None }));
}

#[test]
fn preview_shows_next_slide() {
    let mut p = three();
    p.tick(1);
    p.toggle_preview();
    assert!(p.preview_enabled);
    assert_eq!(p.preview_timer, 0);
    assert_eq!(p.tick(1), Some(Refresh { current: 0, next: Some(1) }));
    p.next_slide();
    p.next_slide();
    assert_eq!(p.tick(1), Some(Refresh { current: 2, next: None }));
}

#[test]
fn numbering_toggle() {
    let mut p = three();
    p.toggle_numbering();
    assert!(p.numbering_enabled);
    p.toggle_numbering();
    assert!(!p.numbering_enabled);
}

#[test]
fn empty_deck_never_refreshes() {
    let mut p = Presentation::new(Vec::new(), true, true);
    assert!(p.current_slide().is_none());
    assert_eq!(p.tick(2_000_000), None);
    p.next_slide();
    p.previous_slide();
    assert_eq!(p.current_index, 0);
}
