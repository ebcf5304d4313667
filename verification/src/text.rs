//! Text: white space, trimming, and the letters of a string.

use vstd::prelude::*;

verus! {

/// White space: the characters that carry the Unicode property `White_Space`.
pub open spec fn is_whitespace(c: char) -> bool {
    let code = c as u32;
    ||| 0x09 <= code <= 0x0d
    ||| code == 0x20
    ||| code == 0x85
    ||| code == 0xa0
    ||| code == 0x1680
    ||| 0x2000 <= code <= 0x200a
    ||| code == 0x2028
    ||| code == 0x2029
    ||| code == 0x202f
    ||| code == 0x205f
    ||| code == 0x3000
}

/// The text without the white space it begins with.
pub open spec fn trim_start(text: Seq<char>) -> Seq<char>
    decreases text.len(),
{
    if text.len() > 0 && is_whitespace(text.first()) {
        trim_start(text.drop_first())
    } else {
        text
    }
}

/// The text without the white space it ends with.
pub open spec fn trim_end(text: Seq<char>) -> Seq<char>
    decreases text.len(),
{
    if text.len() > 0 && is_whitespace(text.last()) {
        trim_end(text.drop_last())
    } else {
        text
    }
}

/// The text without the white space at either end.
pub open spec fn trimmed(text: Seq<char>) -> Seq<char> {
    trim_end(trim_start(text))
}

/// The lower-case form of a text: what `str::to_lowercase` makes of it.
pub uninterp spec fn lowercased(text: Seq<char>) -> Seq<char>;

/// Calls `str::to_lowercase`. Assumed of it: its result depends on the
/// characters of the text alone. What the result is, is not said.
#[verifier::external_body]
pub(crate) fn lowercase(text: &str) -> (lower: String)
    ensures
        lower@ == lowercased(text@),
{
    text.to_lowercase()
}

/// Whether `c` is white space.
pub fn char_is_whitespace(c: char) -> (white: bool)
    ensures
        white == is_whitespace(c),
{
    let code = c as u32;
    (0x09 <= code && code <= 0x0d) || code == 0x20 || code == 0x85 || code == 0xa0 || code
        == 0x1680 || (0x2000 <= code && code <= 0x200a) || code == 0x2028 || code == 0x2029
        || code == 0x202f || code == 0x205f || code == 0x3000
}

/// The letters of a text, one by one.
pub fn letters_of(text: &str) -> (letters: Vec<char>)
    ensures
        letters@ == text@,
{
    let mut letters: Vec<char> = Vec::new();
    for c in it: text.chars()
        invariant
            it.seq() == text@,
            letters@ == text@.take(it.index()),
    {
        letters.push(c);
    }
    letters
}

/// Whether two texts hold the same letters.
pub fn texts_equal(left: &str, right: &str) -> (same: bool)
    ensures
        same == (left@ == right@),
{
    let letters = letters_of(left);
    let mut idx: usize = 0;
    for c in it: right.chars()
        invariant
            it.seq() == right@,
            idx == it.index(),
            idx <= letters.len(),
            letters@ == left@,
            forall|j: int| 0 <= j < idx ==> left@[j] == right@[j],
    {
        if idx >= letters.len() || letters[idx] != c {
            return false;
        }
        idx += 1;
    }
    if idx != letters.len() {
        return false;
    }
    assert(left@ =~= right@);
    true
}

/// Finds, between the positions `from` and `to` of `letters`, the part that
/// trimming leaves.
pub(crate) fn trim_bounds(letters: &Vec<char>, from: usize, to: usize) -> (bounds: (usize, usize))
    requires
        from <= to <= letters.len(),
    ensures
        from <= bounds.0 <= bounds.1 <= to,
        letters@.subrange(bounds.0 as int, bounds.1 as int) == trimmed(
            letters@.subrange(from as int, to as int),
        ),
{
    let mut first = from;
    while first < to && char_is_whitespace(letters[first])
        invariant
            from <= first <= to <= letters.len(),
            trim_start(letters@.subrange(from as int, to as int)) == trim_start(
                letters@.subrange(first as int, to as int),
            ),
        decreases to - first,
    {
        assert(letters@.subrange(first as int, to as int).drop_first() =~= letters@.subrange(
            first + 1,
            to as int,
        ));
        first += 1;
    }
    let mut last = to;
    while last > first && char_is_whitespace(letters[last - 1])
        invariant
            first <= last <= to <= letters.len(),
            trim_end(letters@.subrange(first as int, to as int)) == trim_end(
                letters@.subrange(first as int, last as int),
            ),
        decreases last - first,
    {
        assert(letters@.subrange(first as int, last as int).drop_last() =~= letters@.subrange(
            first as int,
            last - 1,
        ));
        last -= 1;
    }
    (first, last)
}

/// The text without the white space at either end.
pub fn trim(text: &str) -> (inner: &str)
    ensures
        inner@ == trimmed(text@),
{
    let letters = letters_of(text);
    let (first, last) = trim_bounds(&letters, 0, letters.len());
    assert(letters@.subrange(0, letters@.len() as int) =~= text@);
    text.substring_char(first, last)
}

} // verus!
