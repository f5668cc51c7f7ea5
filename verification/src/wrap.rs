//! Breaking a text into lines that fit a width.

use crate::text::texts;
use vstd::prelude::*;
use vstd::string::*;

verus! {

/// Whether a character is white space, as `char::is_whitespace` has it: a character with the
/// Unicode property `White_Space`.
pub open spec fn is_whitespace(c: char) -> bool {
    let code = c as u32;
    ||| 0x09 <= code <= 0x0D
    ||| code == 0x20
    ||| code == 0x85
    ||| code == 0xA0
    ||| code == 0x1680
    ||| 0x2000 <= code <= 0x200A
    ||| code == 0x2028
    ||| code == 0x2029
    ||| code == 0x202F
    ||| code == 0x205F
    ||| code == 0x3000
}

/// Whether a character is white space.
pub fn is_space(c: char) -> (yes: bool)
    ensures
        yes == is_whitespace(c),
{
    let code = c as u32;
    (0x09 <= code && code <= 0x0D) || code == 0x20 || code == 0x85 || code == 0xA0 || code
        == 0x1680 || (0x2000 <= code && code <= 0x200A) || code == 0x2028 || code == 0x2029
        || code == 0x202F || code == 0x205F || code == 0x3000
}

/// The number of white space characters that a text begins with.
pub open spec fn leading_spaces(text: Seq<char>) -> int
    decreases text.len(),
{
    if text.len() > 0 && is_whitespace(text[0]) {
        1 + leading_spaces(text.drop_first())
    } else {
        0
    }
}

/// The number of white space characters that a text ends with.
pub open spec fn trailing_spaces(text: Seq<char>) -> int
    decreases text.len(),
{
    if text.len() > 0 && is_whitespace(text.last()) {
        1 + trailing_spaces(text.drop_last())
    } else {
        0
    }
}

/// A text without the white space that it begins and ends with.
pub open spec fn trimmed(text: Seq<char>) -> Seq<char> {
    let lead = leading_spaces(text);
    if lead >= text.len() {
        Seq::empty()
    } else {
        text.subrange(lead, text.len() - trailing_spaces(text))
    }
}

/// The position of the first line feed among the first `n` characters of a text, or -1 where
/// there is none.
pub open spec fn first_newline(text: Seq<char>, n: int) -> int
    decreases n,
{
    if n <= 0 {
        -1
    } else if first_newline(text, n - 1) >= 0 {
        first_newline(text, n - 1)
    } else if text[n - 1] == '\n' {
        n - 1
    } else {
        -1
    }
}

/// The position of the last white space among the first `n` characters of a text, or -1 where
/// there is none.
pub open spec fn last_space(text: Seq<char>, n: int) -> int
    decreases n,
{
    if n <= 0 {
        -1
    } else if is_whitespace(text[n - 1]) {
        n - 1
    } else {
        last_space(text, n - 1)
    }
}

/// Where a text that is longer than `width` is broken: at the first line feed among its first
/// `width` characters; where there is none, at the last white space among them; and where
/// there is none either, after `width` characters.
pub open spec fn break_at(text: Seq<char>, width: int) -> int {
    if first_newline(text, width) >= 0 {
        first_newline(text, width)
    } else if last_space(text, width) >= 0 {
        last_space(text, width)
    } else {
        width
    }
}

/// What is known of the number of leading white space characters.
pub proof fn lemma_leading_spaces(text: Seq<char>, k: int)
    requires
        0 <= k <= text.len(),
        forall|j: int| 0 <= j < k ==> is_whitespace(#[trigger] text[j]),
        k == text.len() || !is_whitespace(text[k]),
    ensures
        leading_spaces(text) == k,
    decreases text.len(),
{
    if k > 0 {
        let rest = text.drop_first();
        assert forall|j: int| 0 <= j < k - 1 implies is_whitespace(#[trigger] rest[j]) by {
            assert(rest[j] == text[j + 1]);
        }
        lemma_leading_spaces(rest, k - 1);
    }
}

/// What is known of the number of trailing white space characters.
pub proof fn lemma_trailing_spaces(text: Seq<char>, k: int)
    requires
        0 <= k <= text.len(),
        forall|j: int| text.len() - k <= j < text.len() ==> is_whitespace(#[trigger] text[j]),
        k == text.len() || !is_whitespace(text[text.len() - k - 1]),
    ensures
        trailing_spaces(text) == k,
    decreases text.len(),
{
    if k > 0 {
        let rest = text.drop_last();
        assert forall|j: int| rest.len() - (k - 1) <= j < rest.len() implies is_whitespace(
            #[trigger] rest[j],
        ) by {
            assert(rest[j] == text[j]);
        }
        lemma_trailing_spaces(rest, k - 1);
    }
}

/// The white space that a text begins with is white space, and what follows it is not.
pub proof fn lemma_leading_chars(text: Seq<char>)
    ensures
        0 <= leading_spaces(text) <= text.len(),
        forall|j: int| 0 <= j < leading_spaces(text) ==> is_whitespace(#[trigger] text[j]),
        leading_spaces(text) < text.len() ==> !is_whitespace(text[leading_spaces(text)]),
    decreases text.len(),
{
    if text.len() > 0 && is_whitespace(text[0]) {
        let rest = text.drop_first();
        lemma_leading_chars(rest);
        assert forall|j: int| 0 <= j < leading_spaces(text) implies is_whitespace(
            #[trigger] text[j],
        ) by {
            if j > 0 {
                assert(text[j] == rest[j - 1]);
            }
        }
        if leading_spaces(text) < text.len() {
            assert(text[leading_spaces(text)] == rest[leading_spaces(rest)]);
        }
    }
}

/// The white space that a text ends with is white space, and what stands before it is not.
pub proof fn lemma_trailing_chars(text: Seq<char>)
    ensures
        0 <= trailing_spaces(text) <= text.len(),
        forall|j: int|
            text.len() - trailing_spaces(text) <= j < text.len() ==> is_whitespace(
                #[trigger] text[j],
            ),
        trailing_spaces(text) < text.len() ==> !is_whitespace(
            text[text.len() - trailing_spaces(text) - 1],
        ),
    decreases text.len(),
{
    if text.len() > 0 && is_whitespace(text.last()) {
        let rest = text.drop_last();
        lemma_trailing_chars(rest);
        assert forall|j: int|
            text.len() - trailing_spaces(text) <= j < text.len() implies is_whitespace(
            #[trigger] text[j],
        ) by {
            if j < text.len() - 1 {
                assert(text[j] == rest[j]);
            }
        }
        if trailing_spaces(text) < text.len() {
            assert(text[text.len() - trailing_spaces(text) - 1] == rest[rest.len()
                - trailing_spaces(rest) - 1]);
        }
    }
}

/// A text without the white space around it is no longer than the text, and shorter where
/// the text begins with white space.
pub proof fn lemma_trimmed_len(text: Seq<char>)
    ensures
        trimmed(text).len() <= text.len(),
        text.len() > 0 && is_whitespace(text[0]) ==> trimmed(text).len() < text.len(),
        leading_spaces(text) < text.len() ==> leading_spaces(text) + trailing_spaces(text)
            < text.len(),
{
    lemma_leading_chars(text);
    lemma_trailing_chars(text);
    let lead = leading_spaces(text);
    let trail = trailing_spaces(text);
    if lead < text.len() {
        if lead + trail >= text.len() {
            assert(is_whitespace(text[lead]));
        }
    }
}

/// What is known of the break: it is within the first `width` characters or right after them,
/// and a break at the very beginning is at a white space.
pub proof fn lemma_break_at(text: Seq<char>, width: int)
    requires
        0 <= width <= text.len(),
    ensures
        0 <= break_at(text, width) <= width,
        break_at(text, width) < width ==> is_whitespace(text[break_at(text, width)]),
{
    lemma_first_newline(text, width);
    lemma_last_space(text, width);
}

/// What is known of the first line feed.
pub proof fn lemma_first_newline(text: Seq<char>, n: int)
    requires
        0 <= n <= text.len(),
    ensures
        -1 <= first_newline(text, n) < n,
        first_newline(text, n) >= 0 ==> text[first_newline(text, n)] == '\n',
        forall|j: int|
            0 <= j < n && (first_newline(text, n) < 0 || j < first_newline(text, n))
                ==> #[trigger] text[j] != '\n',
    decreases n,
{
    if n > 0 {
        lemma_first_newline(text, n - 1);
    }
}

/// What is known of the last white space.
pub proof fn lemma_last_space(text: Seq<char>, n: int)
    requires
        0 <= n <= text.len(),
    ensures
        -1 <= last_space(text, n) < n,
        last_space(text, n) >= 0 ==> is_whitespace(text[last_space(text, n)]),
        forall|j: int| last_space(text, n) < j < n ==> !is_whitespace(#[trigger] text[j]),
    decreases n,
{
    if n > 0 {
        lemma_last_space(text, n - 1);
    }
}

/// What is left after a break, without the white space around it, is shorter than the text.
pub proof fn lemma_wrap_progress(text: Seq<char>, width: int)
    requires
        0 < width < text.len(),
    ensures
        trimmed(text.skip(break_at(text, width))).len() < text.len(),
{
    lemma_break_at(text, width);
    let edge = break_at(text, width);
    let rest = text.skip(edge);
    lemma_trimmed_len(rest);
    if edge == 0 {
        assert(rest =~= text);
    }
}

/// The lines that a text is broken into so that they fit a width. A text that fits is one
/// line. A longer text is broken (see `break_at`); what stands before the break is a line, and
/// what stands after it goes on without the white space that it begins and ends with. Nothing
/// fits a width of zero: such a text is left as one line.
pub open spec fn wrapped(text: Seq<char>, width: int) -> Seq<Seq<char>>
    decreases text.len(),
{
    if width <= 0 || text.len() <= width {
        seq![text]
    } else {
        proof {
            lemma_wrap_progress(text, width);
        }
        seq![text.take(break_at(text, width))] + wrapped(
            trimmed(text.skip(break_at(text, width))),
            width,
        )
    }
}

/// The lines fit: none of the lines that a text is broken into for a width of one or more is
/// longer than the width.
pub proof fn lemma_wrapped_lines_fit(text: Seq<char>, width: int)
    requires
        width > 0,
    ensures
        wrapped(text, width).len() >= 1,
        forall|i: int|
            0 <= i < wrapped(text, width).len() ==> (#[trigger] wrapped(text, width)[i]).len()
                <= width,
    decreases text.len(),
{
    if text.len() > width {
        lemma_wrap_progress(text, width);
        lemma_break_at(text, width);
        let edge = break_at(text, width);
        let rest = trimmed(text.skip(edge));
        lemma_wrapped_lines_fit(rest, width);
        let lines = wrapped(text, width);
        assert forall|i: int| 0 <= i < lines.len() implies (#[trigger] lines[i]).len()
            <= width by {
            if i > 0 {
                assert(lines[i] == wrapped(rest, width)[i - 1]);
            }
        }
    }
}

/// Where the part of `text` from `lo` to `hi`, which is longer than `width`, is broken.
fn find_break(text: &str, lo: usize, hi: usize, width: usize) -> (edge: usize)
    requires
        lo + width < hi <= text@.len(),
        hi <= usize::MAX,
    ensures
        edge == break_at(text@.subrange(lo as int, hi as int), width as int),
        edge <= width,
{
    let ghost part = text@.subrange(lo as int, hi as int);
    let mut j: usize = 0;
    while j < width
        invariant
            j <= width,
            lo + width < hi <= text@.len(),
            part == text@.subrange(lo as int, hi as int),
            first_newline(part, j as int) == -1,
        decreases width - j,
    {
        if text.get_char(lo + j) == '\n' {
            assert(part[j as int] == '\n');
            proof {
                lemma_newline_found(part, j as int, width as int);
            }
            return j;
        }
        j = j + 1;
    }
    let mut k: usize = width;
    while k > 0
        invariant
            k <= width,
            lo + width < hi <= text@.len(),
            part == text@.subrange(lo as int, hi as int),
            first_newline(part, width as int) == -1,
            last_space(part, width as int) == last_space(part, k as int),
        decreases k,
    {
        if is_space(text.get_char(lo + k - 1)) {
            assert(is_whitespace(part[k - 1]));
            return k - 1;
        }
        k = k - 1;
    }
    width
}

/// A line feed that is the first among the first `at + 1` characters is the first among
/// more of them too.
pub proof fn lemma_newline_found(text: Seq<char>, at: int, n: int)
    requires
        0 <= at < n <= text.len(),
        first_newline(text, at) == -1,
        text[at] == '\n',
    ensures
        first_newline(text, n) == at,
    decreases n,
{
    if n > at + 1 {
        lemma_newline_found(text, at, n - 1);
    }
}

/// The part of `text` from `lo` to `hi` without the white space around it, as a part of
/// `text`.
fn trim_range(text: &str, lo: usize, hi: usize) -> (part: (usize, usize))
    requires
        lo <= hi <= text@.len(),
    ensures
        lo <= part.0 <= part.1 <= hi,
        text@.subrange(part.0 as int, part.1 as int) == trimmed(
            text@.subrange(lo as int, hi as int),
        ),
{
    let ghost whole = text@.subrange(lo as int, hi as int);
    let mut first: usize = lo;
    while first < hi && is_space(text.get_char(first))
        invariant
            lo <= first <= hi <= text@.len(),
            whole == text@.subrange(lo as int, hi as int),
            forall|j: int| 0 <= j < first - lo ==> is_whitespace(#[trigger] whole[j]),
        decreases hi - first,
    {
        first = first + 1;
    }
    proof {
        if first < hi {
            assert(whole[first - lo] == text@[first as int]);
        }
        lemma_leading_spaces(whole, first - lo);
    }
    if first == hi {
        assert(text@.subrange(first as int, first as int) =~= Seq::<char>::empty());
        return (first, first);
    }
    let mut end: usize = hi;
    while end > first && is_space(text.get_char(end - 1))
        invariant
            lo <= first < end <= hi <= text@.len(),
            whole == text@.subrange(lo as int, hi as int),
            !is_whitespace(text@[first as int]),
            forall|j: int| end - lo <= j < hi - lo ==> is_whitespace(#[trigger] whole[j]),
        decreases end - first,
    {
        end = end - 1;
        if end == first {
            assert(false);
        }
    }
    proof {
        assert(whole[end - lo - 1] == text@[end - 1]);
        lemma_trailing_spaces(whole, hi - end);
        assert(whole.subrange(first - lo, whole.len() - (hi - end)) =~= text@.subrange(
            first as int,
            end as int,
        ));
    }
    (first, end)
}

/// The lines that `text` is broken into so that they fit `table_width` characters.
pub fn wrapper(text: &str, table_width: usize) -> (lines: Vec<String>)
    ensures
        texts(lines@) == wrapped(text@, table_width as int),
{
    let mut lines: Vec<String> = Vec::new();
    let len = text.unicode_len();
    if table_width == 0 {
        lines.push(text.to_owned());
        assert(texts(lines@) =~= seq![text@]);
        return lines;
    }
    let mut lo: usize = 0;
    let mut hi: usize = len;
    assert(text@.subrange(0, len as int) =~= text@);
    assert(texts(lines@) + wrapped(text@, table_width as int) =~= wrapped(
        text@,
        table_width as int,
    ));
    while hi - lo > table_width
        invariant
            lo <= hi <= len,
            len == text@.len(),
            table_width > 0,
            texts(lines@) + wrapped(text@.subrange(lo as int, hi as int), table_width as int)
                == wrapped(text@, table_width as int),
        decreases hi - lo,
    {
        let ghost rest = text@.subrange(lo as int, hi as int);
        let ghost before = texts(lines@);
        let edge = find_break(text, lo, hi, table_width);
        let line = text.substring_char(lo, lo + edge).to_owned();
        let (first, end) = trim_range(text, lo + edge, hi);
        proof {
            lemma_wrap_progress(rest, table_width as int);
            assert(rest.take(edge as int) =~= text@.subrange(lo as int, lo + edge));
            assert(rest.skip(edge as int) =~= text@.subrange(lo + edge, hi as int));
        }
        lines.push(line);
        proof {
            assert(texts(lines@) =~= before.push(rest.take(edge as int)));
            assert(before.push(rest.take(edge as int)) + wrapped(
                trimmed(rest.skip(edge as int)),
                table_width as int,
            ) =~= before + wrapped(rest, table_width as int));
        }
        lo = first;
        hi = end;
    }
    let ghost before = texts(lines@);
    lines.push(text.substring_char(lo, hi).to_owned());
    assert(texts(lines@) =~= before + seq![text@.subrange(lo as int, hi as int)]);
    lines
}

} // verus!
