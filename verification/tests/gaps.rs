use winocr::BoundingBox;
use winocr::OcrLine;
use winocr::OcrWord;

fn word(text: &str, x: i64, width: i64) -> OcrWord {
    OcrWord {
        text: text.to_string(),
        bounds: BoundingBox { x, y: 0, width, height: 12 },
    }
}

fn line_of(words: Vec<OcrWord>) -> OcrLine {
    OcrLine {
        text: String::new(),
        bounds: BoundingBox { x: 0, y: 0, width: 0, height: 0 },
        words,
    }
}

#[test]
fn three_words_even_spacing() {
    // words at x 0..10, 15..20, 25..33: gaps of 5 and 5.
    let line = line_of(vec![word("a", 0, 10), word("b", 15, 5), word("c", 25, 8)]);
    assert_eq!(line.compute_word_gaps(), vec![5, 5]);
    let (sum, count) = line.average_word_gap().unwrap();
    assert_eq!(sum, 10);
    assert_eq!(count, 2);
    assert_eq!(sum as f64 / count as f64, 5.0);
    assert_eq!(line.max_word_gap(), Some(5));
    assert_eq!(line.min_word_gap(), Some(5));
}

#[test]
fn overlapping_words_clamp_to_zero() {
    // the second word starts inside the first: the raw gap is negative
    // and collapses to zero.
    let line = line_of(vec![word("a", 0, 10), word("b", 5, 5)]);
    assert_eq!(line.compute_word_gaps(), vec![0]);
    let (sum, count) = line.average_word_gap().unwrap();
    assert_eq!((sum, count), (0, 1));
    assert_eq!(line.max_word_gap(), Some(0));
    assert_eq!(line.min_word_gap(), Some(0));
}

#[test]
fn single_word_has_no_gaps() {
    let line = line_of(vec![word("only", 3, 7)]);
    assert_eq!(line.compute_word_gaps(), Vec::<i64>::new());
    assert_eq!(line.average_word_gap(), None);
    assert_eq!(line.max_word_gap(), None);
    assert_eq!(line.min_word_gap(), None);
}

#[test]
fn empty_line_has_no_gaps() {
    let line = line_of(Vec::new());
    assert_eq!(line.compute_word_gaps(), Vec::<i64>::new());
    assert_eq!(line.average_word_gap(), None);
    assert_eq!(line.max_word_gap(), None);
    assert_eq!(line.min_word_gap(), None);
}

#[test]
fn gap_count_is_one_less_than_word_count() {
    let line = line_of(vec![
        word("w", -4, 2),
        word("x", 10, 1),
        word("y", 11, 30),
        word("z", 20, 5),
    ]);
    let gaps = line.compute_word_gaps();
    assert_eq!(gaps.len(), line.words.len() - 1);
    assert!(gaps.iter().all(|g| *g >= 0));
    // exact values: 10 - (-4 + 2) = 12, 11 - 11 = 0, 20 - 41 clamps to 0.
    assert_eq!(gaps, vec![12, 0, 0]);
    let (sum, count) = line.average_word_gap().unwrap();
    assert_eq!((sum, count), (12, 3));
    assert_eq!(line.max_word_gap(), Some(12));
    assert_eq!(line.min_word_gap(), Some(0));
}

#[test]
fn pixel_range_extremes_give_exact_gaps() {
    // words at the far edges of the pixel range: the gap spans 2^32.
    let line = line_of(vec![word("a", -0x8000_0000, 0), word("b", 0x8000_0000, 1)]);
    assert_eq!(line.compute_word_gaps(), vec![0x1_0000_0000]);
    let (sum, count) = line.average_word_gap().unwrap();
    assert_eq!((sum, count), (0x1_0000_0000, 1));
}

#[test]
fn gaps_beyond_the_representable_range_saturate() {
    // coordinates far outside any pixel space: the raw distance exceeds
    // i64::MAX and the reported gap saturates there.
    let line = line_of(vec![word("a", i64::MIN, 0), word("b", i64::MAX, 1)]);
    assert_eq!(line.compute_word_gaps(), vec![i64::MAX]);
    assert_eq!(line.max_word_gap(), Some(i64::MAX));
}

#[test]
fn statistics_agree_with_gap_list() {
    let line = line_of(vec![word("a", 0, 1), word("b", 4, 1), word("c", 12, 1)]);
    let gaps = line.compute_word_gaps();
    assert_eq!(gaps, vec![3, 7]);
    let (sum, count) = line.average_word_gap().unwrap();
    assert_eq!(sum, gaps.iter().map(|g| *g as i128).sum::<i128>());
    assert_eq!(count, gaps.len());
    assert_eq!(line.max_word_gap(), gaps.iter().copied().max());
    assert_eq!(line.min_word_gap(), gaps.iter().copied().min());
}
