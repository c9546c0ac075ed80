use winocr::AngleReading;
use winocr::BoundingBox;
use winocr::EngineLine;
use winocr::EngineResult;
use winocr::OcrWord;
use winocr::convert_ocr_result;

fn word(text: &str, x: i64, y: i64, width: i64, height: i64) -> OcrWord {
    OcrWord {
        text: text.to_string(),
        bounds: BoundingBox { x, y, width, height },
    }
}

#[test]
fn line_bounds_are_the_min_max_union() {
    let engine = EngineResult {
        lines: vec![EngineLine {
            words: vec![
                word("Hello", 10, 20, 30, 12),
                word("world", 50, 18, 25, 16),
            ],
        }],
        angle: AngleReading::Absent,
    };
    let r = convert_ocr_result(&engine);
    assert_eq!(r.lines.len(), 1);
    let line = &r.lines[0];
    // min x = 10, min y = 18, max right = 75, max bottom = 34.
    assert_eq!(
        line.bounds,
        BoundingBox { x: 10, y: 18, width: 65, height: 16 }
    );
    assert_eq!(line.text, "Helloworld");
    assert_eq!(line.words.len(), 2);
    assert_eq!(line.words[0].text, "Hello");
    assert_eq!(line.words[1].bounds, BoundingBox { x: 50, y: 18, width: 25, height: 16 });
}

#[test]
fn zero_word_line_gets_zero_bounds_and_empty_text() {
    let engine = EngineResult {
        lines: vec![EngineLine { words: Vec::new() }],
        angle: AngleReading::Absent,
    };
    let r = convert_ocr_result(&engine);
    assert_eq!(r.lines.len(), 1);
    assert_eq!(
        r.lines[0].bounds,
        BoundingBox { x: 0, y: 0, width: 0, height: 0 }
    );
    assert_eq!(r.lines[0].text, "");
    assert!(r.lines[0].words.is_empty());
    // the only contribution to the full text is one newline, trimmed away.
    assert_eq!(r.text, "");
}

#[test]
fn full_text_joins_lines_with_newlines_and_trims() {
    let engine = EngineResult {
        lines: vec![
            EngineLine { words: vec![word("Hello ", 0, 0, 10, 5), word("world", 12, 0, 10, 5)] },
            EngineLine { words: vec![word("Bye", 0, 10, 6, 5)] },
        ],
        angle: AngleReading::Absent,
    };
    let r = convert_ocr_result(&engine);
    assert_eq!(r.lines[0].text, "Hello world");
    assert_eq!(r.lines[1].text, "Bye");
    // joined: "Hello world\nBye\n"; the trailing newline is trimmed.
    assert_eq!(r.text, "Hello world\nBye");
}

#[test]
fn surrounding_whitespace_is_trimmed_from_full_text() {
    let engine = EngineResult {
        lines: vec![
            EngineLine { words: vec![word("  \t", 0, 0, 2, 2)] },
            EngineLine { words: vec![word("mid", 0, 5, 6, 5)] },
            EngineLine { words: vec![word(" \u{3000}", 0, 9, 2, 2)] },
        ],
        angle: AngleReading::Absent,
    };
    let r = convert_ocr_result(&engine);
    // joined: "  \t\nmid\n \u{3000}\n"; both whitespace runs are trimmed,
    // interior newlines stay.
    assert_eq!(r.text, "mid");
}

#[test]
fn readable_angle_is_kept() {
    let engine = EngineResult {
        lines: Vec::new(),
        angle: AngleReading::Present(1.5f64.to_bits()),
    };
    let r = convert_ocr_result(&engine);
    assert_eq!(r.text_angle, Some(1.5f64.to_bits()));
    assert_eq!(f64::from_bits(r.text_angle.unwrap()), 1.5);
    assert_eq!(r.text, "");
    assert!(r.lines.is_empty());
}

#[test]
fn absent_and_unreadable_angles_collapse_to_none() {
    let absent = EngineResult { lines: Vec::new(), angle: AngleReading::Absent };
    assert_eq!(convert_ocr_result(&absent).text_angle, None);
    let unreadable = EngineResult { lines: Vec::new(), angle: AngleReading::Unreadable };
    assert_eq!(convert_ocr_result(&unreadable).text_angle, None);
}

#[test]
fn several_lines_keep_engine_order() {
    let engine = EngineResult {
        lines: vec![
            EngineLine { words: vec![word("one", 0, 0, 5, 5)] },
            EngineLine { words: Vec::new() },
            EngineLine { words: vec![word("three", -7, 30, 5, 5), word("items", 0, 31, 5, 5)] },
        ],
        angle: AngleReading::Absent,
    };
    let r = convert_ocr_result(&engine);
    assert_eq!(r.lines.len(), 3);
    assert_eq!(r.lines[0].text, "one");
    assert_eq!(r.lines[1].text, "");
    assert_eq!(r.lines[2].text, "threeitems");
    assert_eq!(
        r.lines[2].bounds,
        BoundingBox { x: -7, y: 30, width: 12, height: 6 }
    );
    assert_eq!(r.text, "one\n\nthreeitems");
}
