use vstd::prelude::*;

use crate::geometry::BoundingBox;

verus! {

/// The smallest recognized text unit, owned by its containing line.
#[derive(Debug, PartialEq, Eq)]
pub struct OcrWord {
    /// The word's text content.
    pub text: String,
    /// The rectangle the word occupies in the image.
    pub bounds: BoundingBox,
}

impl Clone for OcrWord {
    fn clone(&self) -> (res: Self)
        ensures
            res == *self,
    {
        OcrWord { text: self.text.clone(), bounds: self.bounds }
    }
}

/// A recognized horizontal grouping of words at comparable vertical
/// position. `text` is the concatenation of the words' texts and `bounds`
/// the min/max union of their boxes; both are fixed at construction.
#[derive(Debug, PartialEq, Eq)]
pub struct OcrLine {
    /// Concatenation of the texts of `words`, with no separators inserted.
    pub text: String,
    /// Coordinate-wise min/max union of the word boxes; all zero when the
    /// line has no words.
    pub bounds: BoundingBox,
    /// The words of the line, in the order the engine reported them.
    pub words: Vec<OcrWord>,
}

/// Two lines carry the same content: same text, same bounds and the same
/// words in the same order.
pub open spec fn line_eq(a: OcrLine, b: OcrLine) -> bool {
    &&& a.text == b.text
    &&& a.bounds == b.bounds
    &&& a.words@ == b.words@
}

impl Clone for OcrLine {
    fn clone(&self) -> (res: Self)
        ensures
            line_eq(res, *self),
    {
        let mut words: Vec<OcrWord> = Vec::new();
        let mut i: usize = 0;
        while i < self.words.len()
            invariant
                i <= self.words@.len(),
                words@ =~= self.words@.take(i as int),
            decreases self.words@.len() - i,
        {
            words.push(self.words[i].clone());
            proof {
                assert(words@ =~= self.words@.take(i + 1 as int));
            }
            i = i + 1;
        }
        proof {
            assert(self.words@.take(self.words@.len() as int) =~= self.words@);
        }
        OcrLine { text: self.text.clone(), bounds: self.bounds, words }
    }
}

/// The flattened result of one recognition call.
#[derive(Debug, PartialEq, Eq)]
pub struct OcrRecognitionResult {
    /// All recognized lines, in engine order.
    pub lines: Vec<OcrLine>,
    /// The newline-joined concatenation of the line texts, trimmed of
    /// leading and trailing whitespace.
    pub text: String,
    /// Estimated skew of the text block in degrees, carried as the bit
    /// pattern of a 64-bit IEEE-754 value; `None` when the engine reports
    /// no readable angle.
    pub text_angle: Option<u64>,
}

impl Clone for OcrRecognitionResult {
    fn clone(&self) -> (res: Self)
        ensures
            res.text == self.text,
            res.text_angle == self.text_angle,
            res.lines@.len() == self.lines@.len(),
            forall|i: int|
                0 <= i < self.lines@.len() ==> line_eq(#[trigger] res.lines@[i], self.lines@[i]),
    {
        let mut lines: Vec<OcrLine> = Vec::new();
        let mut i: usize = 0;
        while i < self.lines.len()
            invariant
                i <= self.lines@.len(),
                lines@.len() == i,
                forall|k: int| 0 <= k < i ==> line_eq(#[trigger] lines@[k], self.lines@[k]),
            decreases self.lines@.len() - i,
        {
            lines.push(self.lines[i].clone());
            i = i + 1;
        }
        OcrRecognitionResult { lines, text: self.text.clone(), text_angle: self.text_angle }
    }
}

/// Signed horizontal distance from the right edge of `a` to the left edge
/// of `b`.
pub open spec fn raw_gap(a: BoundingBox, b: BoundingBox) -> int {
    b.x - (a.x + a.width)
}

/// The gap that is reported between two consecutive words: the raw gap,
/// clamped below at zero (overlapping boxes collapse to a zero gap) and
/// saturated above at the largest representable value.
pub open spec fn clamped_gap(a: BoundingBox, b: BoundingBox) -> int {
    if raw_gap(a, b) < 0 {
        0
    } else if raw_gap(a, b) > i64::MAX {
        i64::MAX as int
    } else {
        raw_gap(a, b)
    }
}

/// The sequence of gaps between consecutive words: one entry per adjacent
/// pair, so `k` words yield `k - 1` gaps and fewer than two words yield
/// none.
pub open spec fn word_gap_seq(ws: Seq<OcrWord>) -> Seq<int> {
    if ws.len() < 2 {
        Seq::empty()
    } else {
        Seq::new((ws.len() - 1) as nat, |i: int| clamped_gap(ws[i].bounds, ws[i + 1].bounds))
    }
}

/// Sum of a sequence of integers.
pub open spec fn int_sum(s: Seq<int>) -> int
    decreases s.len(),
{
    if s.len() == 0 {
        0
    } else {
        int_sum(s.drop_last()) + s.last()
    }
}

/// A sum of values that each lie in `[0, bound]` lies in
/// `[0, len * bound]`.
pub proof fn lemma_int_sum_bounds(s: Seq<int>, bound: int)
    requires
        bound >= 0,
        forall|i: int| 0 <= i < s.len() ==> 0 <= #[trigger] s[i] <= bound,
    ensures
        0 <= int_sum(s) <= s.len() * bound,
    decreases s.len(),
{
    if s.len() == 0 {
    } else {
        lemma_int_sum_bounds(s.drop_last(), bound);
        assert((s.len() - 1) * bound + bound == s.len() * bound) by (nonlinear_arith);
    }
}

impl OcrLine {
    /// The horizontal spacing between consecutive words of the line:
    /// `gaps[i]` is the pixel distance between word `i` and word `i + 1`,
    /// clamped below at zero.
    pub fn compute_word_gaps(&self) -> (gaps: Vec<i64>)
        ensures
            gaps@.len() == word_gap_seq(self.words@).len(),
            forall|i: int|
                0 <= i < gaps@.len() ==> #[trigger] gaps@[i] == word_gap_seq(self.words@)[i],
            forall|i: int| 0 <= i < gaps@.len() ==> #[trigger] gaps@[i] >= 0,
            self.words@.len() >= 2 ==> gaps@.len() == self.words@.len() - 1,
            self.words@.len() < 2 ==> gaps@.len() == 0,
    {
        let mut gaps: Vec<i64> = Vec::new();
        let n = self.words.len();
        if n < 2 {
            return gaps;
        }
        let mut i: usize = 0;
        while i < n - 1
            invariant
                2 <= n == self.words@.len(),
                i <= n - 1,
                gaps@.len() == i,
                forall|k: int|
                    0 <= k < i ==> #[trigger] gaps@[k] == word_gap_seq(self.words@)[k],
                forall|k: int| 0 <= k < i ==> #[trigger] gaps@[k] >= 0,
            decreases n - 1 - i,
        {
            let a = &self.words[i].bounds;
            let b = &self.words[i + 1].bounds;
            let raw: i128 = b.x as i128 - (a.x as i128 + a.width as i128);
            let g: i64 = if raw < 0 {
                0
            } else if raw > i64::MAX as i128 {
                i64::MAX
            } else {
                raw as i64
            };
            assert(g == clamped_gap(self.words@[i as int].bounds, self.words@[i + 1].bounds));
            gaps.push(g);
            i = i + 1;
        }
        gaps
    }

    /// The arithmetic mean of the word gaps, returned exactly as the pair
    /// `(sum of gaps, number of gaps)`; the mean is the quotient of the
    /// two. Absent when the line has fewer than two words.
    pub fn average_word_gap(&self) -> (r: Option<(i128, usize)>)
        ensures
            r is Some <==> self.words@.len() >= 2,
            r matches Some(p) ==> p.0 == int_sum(word_gap_seq(self.words@)),
            r matches Some(p) ==> p.1 == word_gap_seq(self.words@).len()
                && p.1 == self.words@.len() - 1,
    {
        let gaps = self.compute_word_gaps();
        if gaps.len() == 0 {
            return None;
        }
        let ghost gs = word_gap_seq(self.words@);
        proof {
            assert(forall|k: int| 0 <= k < gs.len() ==> 0 <= #[trigger] gs[k] <= i64::MAX);
        }
        let mut sum: i128 = 0;
        let mut j: usize = 0;
        while j < gaps.len()
            invariant
                j <= gaps@.len(),
                gaps@.len() == gs.len(),
                forall|k: int| 0 <= k < gaps@.len() ==> #[trigger] gaps@[k] == gs[k],
                forall|k: int| 0 <= k < gs.len() ==> 0 <= #[trigger] gs[k] <= i64::MAX,
                sum == int_sum(gs.take(j as int)),
                0 <= sum <= (j as int) * (i64::MAX as int),
            decreases gaps@.len() - j,
        {
            proof {
                lemma_int_sum_bounds(gs.take(j + 1 as int), i64::MAX as int);
                assert(gs.take(j + 1 as int).drop_last() =~= gs.take(j as int));
                assert((j + 1 as int) * (i64::MAX as int) <= (usize::MAX as int) * (
                i64::MAX as int)) by (nonlinear_arith)
                    requires
                        0 <= j + 1 <= usize::MAX as int,
                ;
            }
            sum = sum + gaps[j] as i128;
            j = j + 1;
        }
        proof {
            assert(gs.take(gs.len() as int) =~= gs);
        }
        Some((sum, gaps.len()))
    }

    /// The largest word gap of the line; absent when the line has fewer
    /// than two words.
    pub fn max_word_gap(&self) -> (r: Option<i64>)
        ensures
            r is Some <==> self.words@.len() >= 2,
            r matches Some(m) ==> word_gap_seq(self.words@).contains(m as int),
            r matches Some(m) ==> forall|i: int|
                0 <= i < word_gap_seq(self.words@).len() ==> #[trigger] word_gap_seq(
                    self.words@,
                )[i] <= m,
    {
        let gaps = self.compute_word_gaps();
        let ghost gs = word_gap_seq(self.words@);
        if gaps.len() == 0 {
            return None;
        }
        let mut best: i64 = gaps[0];
        let mut j: usize = 1;
        while j < gaps.len()
            invariant
                1 <= j <= gaps@.len(),
                gaps@.len() == gs.len(),
                forall|k: int| 0 <= k < gaps@.len() ==> #[trigger] gaps@[k] == gs[k],
                exists|k: int| 0 <= k < j && gs[k] == best,
                forall|k: int| 0 <= k < j ==> #[trigger] gs[k] <= best,
            decreases gaps@.len() - j,
        {
            if gaps[j] > best {
                best = gaps[j];
            }
            j = j + 1;
        }
        proof {
            let k = choose|k: int| 0 <= k < gs.len() && gs[k] == best;
            assert(gs.contains(best as int));
        }
        Some(best)
    }

    /// The smallest word gap of the line; absent when the line has fewer
    /// than two words.
    pub fn min_word_gap(&self) -> (r: Option<i64>)
        ensures
            r is Some <==> self.words@.len() >= 2,
            r matches Some(m) ==> word_gap_seq(self.words@).contains(m as int),
            r matches Some(m) ==> forall|i: int|
                0 <= i < word_gap_seq(self.words@).len() ==> #[trigger] word_gap_seq(
                    self.words@,
                )[i] >= m,
    {
        let gaps = self.compute_word_gaps();
        let ghost gs = word_gap_seq(self.words@);
        if gaps.len() == 0 {
            return None;
        }
        let mut best: i64 = gaps[0];
        let mut j: usize = 1;
        while j < gaps.len()
            invariant
                1 <= j <= gaps@.len(),
                gaps@.len() == gs.len(),
                forall|k: int| 0 <= k < gaps@.len() ==> #[trigger] gaps@[k] == gs[k],
                exists|k: int| 0 <= k < j && gs[k] == best,
                forall|k: int| 0 <= k < j ==> #[trigger] gs[k] >= best,
            decreases gaps@.len() - j,
        {
            if gaps[j] < best {
                best = gaps[j];
            }
            j = j + 1;
        }
        proof {
            let k = choose|k: int| 0 <= k < gs.len() && gs[k] == best;
            assert(gs.contains(best as int));
        }
        Some(best)
    }
}

} // verus!
