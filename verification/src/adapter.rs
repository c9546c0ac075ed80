use vstd::prelude::*;
use vstd::string::StringExecFns;

use crate::engine::AngleReading;
use crate::engine::EngineLine;
use crate::engine::EngineResult;
use crate::engine::angle_of;
use crate::engine::line_in_pixel_range;
use crate::engine::result_in_pixel_range;
use crate::geometry::BoundingBox;
use crate::geometry::box_in_pixel_range;
use crate::geometry::zero_box;
use crate::model::OcrLine;
use crate::model::OcrRecognitionResult;
use crate::model::OcrWord;
use crate::text::trimmed;
use crate::text::trimmed_string;

verus! {

/// Smallest left edge among the words.
pub open spec fn min_left(ws: Seq<OcrWord>) -> int
    decreases ws.len(),
{
    if ws.len() <= 1 {
        ws[0].bounds.x as int
    } else {
        let m = min_left(ws.drop_last());
        let v = ws.last().bounds.x as int;
        if v < m {
            v
        } else {
            m
        }
    }
}

/// Smallest top edge among the words.
pub open spec fn min_top(ws: Seq<OcrWord>) -> int
    decreases ws.len(),
{
    if ws.len() <= 1 {
        ws[0].bounds.y as int
    } else {
        let m = min_top(ws.drop_last());
        let v = ws.last().bounds.y as int;
        if v < m {
            v
        } else {
            m
        }
    }
}

/// Largest right edge (`x + width`) among the words.
pub open spec fn max_right(ws: Seq<OcrWord>) -> int
    decreases ws.len(),
{
    if ws.len() <= 1 {
        ws[0].bounds.x + ws[0].bounds.width
    } else {
        let m = max_right(ws.drop_last());
        let v = ws.last().bounds.x + ws.last().bounds.width;
        if v > m {
            v
        } else {
            m
        }
    }
}

/// Largest bottom edge (`y + height`) among the words.
pub open spec fn max_bottom(ws: Seq<OcrWord>) -> int
    decreases ws.len(),
{
    if ws.len() <= 1 {
        ws[0].bounds.y + ws[0].bounds.height
    } else {
        let m = max_bottom(ws.drop_last());
        let v = ws.last().bounds.y + ws.last().bounds.height;
        if v > m {
            v
        } else {
            m
        }
    }
}

/// The coordinate-wise min/max union of the word boxes: the box spanning
/// from the smallest left and top edges to the largest right and bottom
/// edges. A line with no words gets the all-zero box.
pub open spec fn line_union_bounds(ws: Seq<OcrWord>) -> BoundingBox {
    if ws.len() == 0 {
        zero_box()
    } else {
        BoundingBox {
            x: min_left(ws) as i64,
            y: min_top(ws) as i64,
            width: (max_right(ws) - min_left(ws)) as i64,
            height: (max_bottom(ws) - min_top(ws)) as i64,
        }
    }
}

/// The law behind `line_union_bounds`: for a line with at least one word,
/// the folded edges are exactly the coordinate-wise minima and maxima of
/// the word boxes — every word box lies between them, and each of the four
/// edges is attained by some word.
pub proof fn lemma_line_union_is_min_max(ws: Seq<OcrWord>)
    requires
        ws.len() > 0,
    ensures
        forall|j: int| 0 <= j < ws.len() ==> min_left(ws) <= (#[trigger] ws[j]).bounds.x,
        forall|j: int| 0 <= j < ws.len() ==> min_top(ws) <= (#[trigger] ws[j]).bounds.y,
        forall|j: int|
            0 <= j < ws.len() ==> (#[trigger] ws[j]).bounds.x + ws[j].bounds.width <= max_right(
                ws,
            ),
        forall|j: int|
            0 <= j < ws.len() ==> (#[trigger] ws[j]).bounds.y + ws[j].bounds.height <= max_bottom(
                ws,
            ),
        exists|j: int| 0 <= j < ws.len() && min_left(ws) == (#[trigger] ws[j]).bounds.x,
        exists|j: int| 0 <= j < ws.len() && min_top(ws) == (#[trigger] ws[j]).bounds.y,
        exists|j: int|
            0 <= j < ws.len() && max_right(ws) == (#[trigger] ws[j]).bounds.x
                + ws[j].bounds.width,
        exists|j: int|
            0 <= j < ws.len() && max_bottom(ws) == (#[trigger] ws[j]).bounds.y
                + ws[j].bounds.height,
    decreases ws.len(),
{
    if ws.len() == 1 {
        assert(min_left(ws) == ws[0].bounds.x);
        assert(min_top(ws) == ws[0].bounds.y);
        assert(max_right(ws) == ws[0].bounds.x + ws[0].bounds.width);
        assert(max_bottom(ws) == ws[0].bounds.y + ws[0].bounds.height);
    } else {
        let head = ws.drop_last();
        lemma_line_union_is_min_max(head);
        assert(forall|j: int| 0 <= j < head.len() ==> head[j] == ws[j]);
        let kx = choose|j: int| 0 <= j < head.len() && min_left(head) == (#[trigger] head[j]).bounds.x;
        let ky = choose|j: int| 0 <= j < head.len() && min_top(head) == (#[trigger] head[j]).bounds.y;
        let kr = choose|j: int|
            0 <= j < head.len() && max_right(head) == (#[trigger] head[j]).bounds.x
                + head[j].bounds.width;
        let kb = choose|j: int|
            0 <= j < head.len() && max_bottom(head) == (#[trigger] head[j]).bounds.y
                + head[j].bounds.height;
        if min_left(ws) == ws.last().bounds.x {
            assert(min_left(ws) == ws[ws.len() - 1].bounds.x);
        } else {
            assert(min_left(ws) == ws[kx].bounds.x);
        }
        if min_top(ws) == ws.last().bounds.y {
            assert(min_top(ws) == ws[ws.len() - 1].bounds.y);
        } else {
            assert(min_top(ws) == ws[ky].bounds.y);
        }
        if max_right(ws) == ws.last().bounds.x + ws.last().bounds.width {
            assert(max_right(ws) == ws[ws.len() - 1].bounds.x + ws[ws.len() - 1].bounds.width);
        } else {
            assert(max_right(ws) == ws[kr].bounds.x + ws[kr].bounds.width);
        }
        if max_bottom(ws) == ws.last().bounds.y + ws.last().bounds.height {
            assert(max_bottom(ws) == ws[ws.len() - 1].bounds.y + ws[ws.len() - 1].bounds.height);
        } else {
            assert(max_bottom(ws) == ws[kb].bounds.y + ws[kb].bounds.height);
        }
    }
}

/// The texts of the words, concatenated in order with no separators.
pub open spec fn concat_word_texts(ws: Seq<OcrWord>) -> Seq<char>
    decreases ws.len(),
{
    if ws.len() == 0 {
        Seq::empty()
    } else {
        concat_word_texts(ws.drop_last()) + ws.last().text@
    }
}

/// The line texts concatenated in order, each followed by a newline.
pub open spec fn joined_line_texts(ls: Seq<EngineLine>) -> Seq<char>
    decreases ls.len(),
{
    if ls.len() == 0 {
        Seq::empty()
    } else {
        joined_line_texts(ls.drop_last()) + concat_word_texts(ls.last().words@) + seq!['\n']
    }
}

/// How the flattened result `r` relates to the engine result `e`: words
/// are copied line by line, each line's text is the concatenation of its
/// words' texts, each line's bounds is the min/max union of its words'
/// boxes, the full text is the newline-joined line texts trimmed of
/// surrounding whitespace, and the angle is kept exactly when readable.
pub open spec fn adapted(e: EngineResult, r: OcrRecognitionResult) -> bool {
    &&& r.lines@.len() == e.lines@.len()
    &&& forall|i: int|
        0 <= i < e.lines@.len() ==> (#[trigger] r.lines@[i]).words@ == e.lines@[i].words@
    &&& forall|i: int|
        0 <= i < e.lines@.len() ==> (#[trigger] r.lines@[i]).text@ == concat_word_texts(
            e.lines@[i].words@,
        )
    &&& forall|i: int|
        0 <= i < e.lines@.len() ==> (#[trigger] r.lines@[i]).bounds == line_union_bounds(
            e.lines@[i].words@,
        )
    &&& r.text@ == trimmed(joined_line_texts(e.lines@))
    &&& r.text_angle == angle_of(e.angle)
}

/// Builds one flattened line from the words the engine reported for it:
/// copies the words, concatenates their texts and folds their boxes into
/// the line's bounding box.
pub fn build_ocr_line(words_in: &Vec<OcrWord>) -> (line: OcrLine)
    requires
        forall|j: int|
            0 <= j < words_in@.len() ==> box_in_pixel_range(#[trigger] words_in@[j].bounds),
    ensures
        line.words@ == words_in@,
        line.text@ == concat_word_texts(words_in@),
        line.bounds == line_union_bounds(words_in@),
{
    let n = words_in.len();
    let mut words: Vec<OcrWord> = Vec::new();
    let mut text = String::new();
    let mut i: usize = 0;
    while i < n
        invariant
            i <= n == words_in@.len(),
            words@ =~= words_in@.take(i as int),
            text@ == concat_word_texts(words_in@.take(i as int)),
        decreases n - i,
    {
        let w = &words_in[i];
        text.append(w.text.as_str());
        words.push(w.clone());
        proof {
            assert(words@ =~= words_in@.take(i + 1 as int));
            assert(words_in@.take(i + 1 as int).drop_last() =~= words_in@.take(i as int));
        }
        i = i + 1;
    }
    proof {
        assert(words_in@.take(n as int) =~= words_in@);
    }
    if n == 0 {
        return OcrLine { text, bounds: BoundingBox { x: 0, y: 0, width: 0, height: 0 }, words };
    }
    let first = &words_in[0].bounds;
    let mut min_x: i64 = first.x;
    let mut min_y: i64 = first.y;
    let mut max_r: i64 = first.x + first.width;
    let mut max_b: i64 = first.y + first.height;
    let mut j: usize = 1;
    while j < n
        invariant
            1 <= j <= n == words_in@.len(),
            forall|k: int|
                0 <= k < words_in@.len() ==> box_in_pixel_range(#[trigger] words_in@[k].bounds),
            min_x == min_left(words_in@.take(j as int)),
            min_y == min_top(words_in@.take(j as int)),
            max_r == max_right(words_in@.take(j as int)),
            max_b == max_bottom(words_in@.take(j as int)),
            -0x8000_0000 <= min_x <= 0x8000_0000,
            -0x8000_0000 <= min_y <= 0x8000_0000,
            -0x8000_0000 <= max_r <= 0x1_0000_0000,
            -0x8000_0000 <= max_b <= 0x1_0000_0000,
        decreases n - j,
    {
        let b = &words_in[j].bounds;
        if b.x < min_x {
            min_x = b.x;
        }
        if b.y < min_y {
            min_y = b.y;
        }
        let r = b.x + b.width;
        if r > max_r {
            max_r = r;
        }
        let bot = b.y + b.height;
        if bot > max_b {
            max_b = bot;
        }
        proof {
            assert(words_in@.take(j + 1 as int).drop_last() =~= words_in@.take(j as int));
        }
        j = j + 1;
    }
    proof {
        assert(words_in@.take(n as int) =~= words_in@);
    }
    let bounds = BoundingBox { x: min_x, y: min_y, width: max_r - min_x, height: max_b - min_y };
    OcrLine { text, bounds, words }
}

/// Flattens the engine's hierarchical result into the caller-facing
/// model. The union and concatenation invariants of every produced line,
/// the trimmed full text and the angle handling are all stated by
/// `adapted`.
pub fn convert_ocr_result(engine: &EngineResult) -> (r: OcrRecognitionResult)
    requires
        result_in_pixel_range(*engine),
    ensures
        adapted(*engine, r),
{
    let mut lines: Vec<OcrLine> = Vec::new();
    let mut full = String::new();
    let mut i: usize = 0;
    while i < engine.lines.len()
        invariant
            i <= engine.lines@.len(),
            result_in_pixel_range(*engine),
            lines@.len() == i,
            forall|k: int|
                0 <= k < i ==> (#[trigger] lines@[k]).words@ == engine.lines@[k].words@,
            forall|k: int|
                0 <= k < i ==> (#[trigger] lines@[k]).text@ == concat_word_texts(
                    engine.lines@[k].words@,
                ),
            forall|k: int|
                0 <= k < i ==> (#[trigger] lines@[k]).bounds == line_union_bounds(
                    engine.lines@[k].words@,
                ),
            full@ == joined_line_texts(engine.lines@.take(i as int)),
        decreases engine.lines@.len() - i,
    {
        proof {
            assert(line_in_pixel_range(engine.lines@[i as int]));
        }
        let line = build_ocr_line(&engine.lines[i].words);
        full.append(line.text.as_str());
        full.append("\n");
        lines.push(line);
        proof {
            reveal_strlit("\n");
            assert("\n"@ =~= seq!['\n']);
            assert(engine.lines@.take(i + 1 as int).drop_last() =~= engine.lines@.take(i as int));
            assert(engine.lines@.take(i + 1 as int).last() == engine.lines@[i as int]);
            assert(full@ =~= joined_line_texts(engine.lines@.take(i + 1 as int)));
        }
        i = i + 1;
    }
    proof {
        assert(engine.lines@.take(engine.lines@.len() as int) =~= engine.lines@);
    }
    let text = trimmed_string(full.as_str());
    let text_angle: Option<u64> = match engine.angle {
        AngleReading::Present(bits) => Some(bits),
        AngleReading::Absent => None,
        AngleReading::Unreadable => None,
    };
    OcrRecognitionResult { lines, text, text_angle }
}

} // verus!
