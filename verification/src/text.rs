use vstd::prelude::*;
use vstd::string::StrSliceExecFns;
use vstd::string::StringExecFns;

verus! {

/// The characters treated as whitespace when the full text is trimmed:
/// the Unicode code points with the White_Space property.
pub open spec fn is_space_code(u: u32) -> bool {
    ||| u == 0x09
    ||| u == 0x0A
    ||| u == 0x0B
    ||| u == 0x0C
    ||| u == 0x0D
    ||| u == 0x20
    ||| u == 0x85
    ||| u == 0xA0
    ||| u == 0x1680
    ||| (0x2000 <= u && u <= 0x200A)
    ||| u == 0x2028
    ||| u == 0x2029
    ||| u == 0x202F
    ||| u == 0x205F
    ||| u == 0x3000
}

/// Whether `c` is whitespace for the purpose of trimming.
pub open spec fn is_ocr_space(c: char) -> bool {
    is_space_code(c as u32)
}

/// Executable whitespace test matching `is_ocr_space`.
pub fn is_space_char(c: char) -> (b: bool)
    ensures
        b == is_ocr_space(c),
{
    let u = c as u32;
    u == 0x09 || u == 0x0A || u == 0x0B || u == 0x0C || u == 0x0D || u == 0x20 || u == 0x85
        || u == 0xA0 || u == 0x1680 || (0x2000 <= u && u <= 0x200A) || u == 0x2028 || u == 0x2029
        || u == 0x202F || u == 0x205F || u == 0x3000
}

/// `s` with its leading whitespace removed.
pub open spec fn drop_leading_spaces(s: Seq<char>) -> Seq<char>
    decreases s.len(),
{
    if s.len() > 0 && is_ocr_space(s[0]) {
        drop_leading_spaces(s.drop_first())
    } else {
        s
    }
}

/// `s` with its trailing whitespace removed.
pub open spec fn drop_trailing_spaces(s: Seq<char>) -> Seq<char>
    decreases s.len(),
{
    if s.len() > 0 && is_ocr_space(s.last()) {
        drop_trailing_spaces(s.drop_last())
    } else {
        s
    }
}

/// `s` with leading and trailing whitespace removed.
pub open spec fn trimmed(s: Seq<char>) -> Seq<char> {
    drop_trailing_spaces(drop_leading_spaces(s))
}

/// Dropping leading whitespace ignores a prefix known to be whitespace.
proof fn lemma_drop_leading_prefix(s: Seq<char>, k: int)
    requires
        0 <= k <= s.len(),
        forall|j: int| 0 <= j < k ==> is_ocr_space(#[trigger] s[j]),
    ensures
        drop_leading_spaces(s) == drop_leading_spaces(s.subrange(k, s.len() as int)),
    decreases k,
{
    if k == 0 {
        assert(s.subrange(0, s.len() as int) =~= s);
    } else {
        let t = s.drop_first();
        assert(forall|j: int| 0 <= j < k - 1 ==> is_ocr_space(#[trigger] t[j]));
        lemma_drop_leading_prefix(t, k - 1);
        assert(t.subrange(k - 1, t.len() as int) =~= s.subrange(k, s.len() as int));
    }
}

/// Dropping trailing whitespace ignores a suffix known to be whitespace.
proof fn lemma_drop_trailing_suffix(s: Seq<char>, k: int)
    requires
        0 <= k <= s.len(),
        forall|j: int| k <= j < s.len() ==> is_ocr_space(#[trigger] s[j]),
    ensures
        drop_trailing_spaces(s) == drop_trailing_spaces(s.subrange(0, k)),
    decreases s.len() - k,
{
    if k == s.len() {
        assert(s.subrange(0, k) =~= s);
    } else {
        let t = s.drop_last();
        assert(forall|j: int| k <= j < t.len() ==> is_ocr_space(#[trigger] t[j]));
        lemma_drop_trailing_suffix(t, k);
        assert(t.subrange(0, k) =~= s.subrange(0, k));
    }
}

/// A copy of `s` with leading and trailing whitespace removed.
pub fn trimmed_string(s: &str) -> (r: String)
    ensures
        r@ == trimmed(s@),
{
    let n = s.unicode_len();
    let mut start: usize = 0;
    while start < n && is_space_char(s.get_char(start))
        invariant
            start <= n == s@.len(),
            forall|j: int| 0 <= j < start ==> is_ocr_space(#[trigger] s@[j]),
        decreases n - start,
    {
        start = start + 1;
    }
    proof {
        lemma_drop_leading_prefix(s@, start as int);
    }
    if start == n {
        proof {
            assert(s@.subrange(start as int, n as int) =~= Seq::<char>::empty());
        }
        return String::new();
    }
    let ghost mid = s@.subrange(start as int, n as int);
    proof {
        assert(!is_ocr_space(mid[0]));
        assert(drop_leading_spaces(mid) == mid);
    }
    let mut end: usize = n;
    while end > start && is_space_char(s.get_char(end - 1))
        invariant
            start <= end <= n == s@.len(),
            forall|j: int| end <= j < n ==> is_ocr_space(#[trigger] s@[j]),
        decreases end,
    {
        end = end - 1;
    }
    proof {
        assert(forall|j: int| end - start <= j < mid.len() ==> is_ocr_space(#[trigger] mid[j]));
        lemma_drop_trailing_suffix(mid, end - start);
        let out = mid.subrange(0, end - start);
        if end > start {
            assert(!is_ocr_space(out.last()));
        }
        assert(drop_trailing_spaces(out) == out);
        assert(out =~= s@.subrange(start as int, end as int));
    }
    let piece = s.substring_char(start, end);
    String::from_str(piece)
}

} // verus!
