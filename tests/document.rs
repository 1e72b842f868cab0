use reiha::document::{parse, Slide, SlideType};
use reiha::fit::{Scale, Size};

fn body_of(s: &Slide) -> Option<String> {
    s.slide_type.body()
}

#[test]
fn two_text_paragraphs() {
    let deck = parse("Hello\n\nWorld");
    assert_eq!(deck.len(), 2);
    assert!(matches!(&deck[0].slide_type, SlideType::Text { body } if body == "Hello"));
    assert!(matches!(&deck[1].slide_type, SlideType::Text { body } if body == "World"));
    assert_eq!(deck[0].index, 1);
    assert_eq!(deck[1].index, 2);
    assert_eq!(deck[0].notes, None);
    assert_eq!(deck[0].font_size, None);
}

#[test]
fn empty_slide_with_notes() {
    let deck = parse("\\intro\n| note one\n| note two");
    assert_eq!(deck.len(), 1);
    assert!(matches!(deck[0].slide_type, SlideType::Empty));
    assert_eq!(deck[0].notes.as_deref(), Some("note one\nnote two"));
    assert_eq!(body_of(&deck[0]), None);
}

#[test]
fn empty_slide_without_notes() {
    let deck = parse("\\\n\nNext");
    assert_eq!(deck.len(), 2);
    assert!(matches!(deck[0].slide_type, SlideType::Empty));
    assert_eq!(deck[0].notes, None);
}

#[test]
fn image_with_caption() {
    let deck = parse("@img/cat.png\ncaption text");
    assert_eq!(deck.len(), 1);
    match &deck[0].slide_type {
        SlideType::TextImage { body, path } => {
            assert_eq!(path, "img/cat.png");
            assert_eq!(body, "caption text");
        }
        _ => panic!("expected a text and image slide"),
    }
}

#[test]
fn image_alone_with_note() {
    let deck = parse("@  pic.png  \n| look here");
    assert_eq!(deck.len(), 1);
    assert!(matches!(&deck[0].slide_type, SlideType::Image { path } if path == "pic.png"));
    assert_eq!(deck[0].notes.as_deref(), Some("look here"));
    assert_eq!(deck[0].slide_type.image_path().as_deref(), Some("pic.png"));
}

#[test]
fn caption_spacer_line() {
    let deck = parse("@a.png\nfirst\n~\nsecond");
    assert!(matches!(&deck[0].slide_type, SlideType::TextImage { body, .. } if body == "first\n\nsecond"));
}

#[test]
fn comment_paragraph_makes_no_slide() {
    let deck = parse("Title\n\n| only a note\n  | another\n\nEnd");
    assert_eq!(deck.len(), 2);
    assert_eq!(body_of(&deck[0]).as_deref(), Some("Title"));
    assert_eq!(body_of(&deck[1]).as_deref(), Some("End"));
    assert_eq!(deck[1].index, 2);
}

#[test]
fn blank_line_inside_fence_keeps_paragraph() {
    let deck = parse("```\nfn a() {}\n\nfn b() {}\n```");
    assert_eq!(deck.len(), 1);
    assert!(matches!(&deck[0].slide_type, SlideType::Code { body } if body == "fn a() {}\n\nfn b() {}"));
}

#[test]
fn blank_line_without_fence_splits() {
    let deck = parse("fn a() {}\n\nfn b() {}");
    assert_eq!(deck.len(), 2);
}

#[test]
fn fence_inside_text_paragraph() {
    let deck = parse("Example\n```\nx\n\ny\n```\n\nAfter");
    assert_eq!(deck.len(), 2);
    assert_eq!(body_of(&deck[0]).as_deref(), Some("Example\n```\nx\n\ny\n```"));
    assert_eq!(body_of(&deck[1]).as_deref(), Some("After"));
}

#[test]
fn code_slide_notes_after_fence() {
    let deck = parse("```rust\nlet x = 1;\n```\n| explain\nignored");
    assert_eq!(deck.len(), 1);
    assert!(matches!(&deck[0].slide_type, SlideType::Code { body } if body == "let x = 1;"));
    assert_eq!(deck[0].notes.as_deref(), Some("explain"));
}

#[test]
fn empty_code_with_notes_dropped() {
    let deck = parse("```\n```\n| only notes\n\nText");
    assert_eq!(deck.len(), 1);
    assert_eq!(body_of(&deck[0]).as_deref(), Some("Text"));
    assert_eq!(deck[0].index, 1);
}

#[test]
fn text_spacer_and_notes() {
    let deck = parse("a\n~\nb\n   |  indented note  ");
    assert_eq!(deck.len(), 1);
    assert_eq!(body_of(&deck[0]).as_deref(), Some("a\n\nb"));
    assert_eq!(deck[0].notes.as_deref(), Some("indented note"));
}

#[test]
fn crlf_and_whitespace_blank_lines() {
    let deck = parse("Hello\r\n\r\nWorld\n \t \nAgain\n\n\n\n");
    assert_eq!(deck.len(), 3);
    assert_eq!(body_of(&deck[0]).as_deref(), Some("Hello"));
    assert_eq!(body_of(&deck[1]).as_deref(), Some("World"));
    assert_eq!(body_of(&deck[2]).as_deref(), Some("Again"));
}

#[test]
fn empty_and_blank_documents() {
    assert_eq!(parse("").len(), 0);
    assert_eq!(parse("\n  \n\t\n").len(), 0);
}

#[test]
fn parse_twice_same_deck() {
    let src = "T\n\n@i.png\ncap\n| n\n\n```\nc\n\nd\n```\n\n\\\n| e";
    let a = parse(src);
    let b = parse(src);
    assert_eq!(a.len(), 4);
    assert_eq!(a.len(), b.len());
    for i in 0..a.len() {
        assert_eq!(a[i].index, b[i].index);
        assert_eq!(a[i].slide_type.body(), b[i].slide_type.body());
        assert_eq!(a[i].slide_type.image_path(), b[i].slide_type.image_path());
        assert_eq!(a[i].notes, b[i].notes);
    }
}

#[test]
fn indices_count_from_one() {
    let deck = parse("a\n\n| c\n\nb\n\n\\\n\n@x.png\n\nc");
    assert_eq!(deck.len(), 5);
    for (i, s) in deck.iter().enumerate() {
        assert_eq!(s.index, i + 1);
    }
}

#[test]
fn slide_new_fits_text() {
    let m = |s: u16| Size { width: 3 * s as u32, height: s as u32 };
    let target = Size { width: 1600, height: 1200 };
    let s = Slide::new(1, SlideType::Text { body: "Hi".to_string() }, None, &m, None, target);
    assert_eq!(s.font_size, Some(508));
    assert_eq!(s.image_scale, None);
}

#[test]
fn slide_new_fits_image() {
    let m = |s: u16| Size { width: s as u32, height: s as u32 };
    let target = Size { width: 1600, height: 1200 };
    let wide = Slide::new(
        2,
        SlideType::Image { path: "w.png".to_string() },
        None,
        &m,
        Some(Size { width: 800, height: 400 }),
        target,
    );
    assert_eq!(wide.image_scale, Some(Scale { num: 1600, den: 800 }));
    assert_eq!(wide.font_size, None);
    let tall = Slide::new(
        3,
        SlideType::TextImage { body: "c".to_string(), path: "t.png".to_string() },
        Some("n".to_string()),
        &m,
        Some(Size { width: 400, height: 800 }),
        target,
    );
    assert_eq!(tall.image_scale, Some(Scale { num: 1200, den: 800 }));
    assert!(tall.font_size.is_some());
    assert_eq!(tall.index, 3);
}

#[test]
fn console_lines_of_slides() {
    let deck = parse("Body\n| a note\n\n@p.png\n\n\\");
    assert_eq!(deck[0].console_lines(), vec!["========", "Body", "--------", "a note", "========"]);
    assert_eq!(deck[1].console_lines(), vec!["========", "(image)", "========"]);
    assert_eq!(deck[2].console_lines(), vec!["========", "(empty slide)", "========"]);
}
