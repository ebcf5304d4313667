//! The word list: from the text of a word file to the candidate words.

use crate::text::{letters_of, trim_bounds, trimmed};
use vstd::prelude::*;

verus! {

/// The character that parts one word of a word file from the next.
pub const SEPARATOR: char = ',';

/// The only candidate word when no word file is given.
pub const DEFAULT_WORD: &'static str = "test";

/// The number of characters in front of the first `separator` of `text`,
/// or the length of `text` if it holds none.
pub open spec fn first_field_len(text: Seq<char>, separator: char) -> nat
    decreases text.len(),
{
    if text.len() == 0 || text.first() == separator {
        0
    } else {
        1 + first_field_len(text.drop_first(), separator)
    }
}

/// The fields of `text`: the pieces between its separators, in order. A text
/// with n separators has n + 1 fields, some of them possibly empty.
pub open spec fn split_fields(text: Seq<char>, separator: char) -> Seq<Seq<char>>
    decreases text.len(),
{
    let len = first_field_len(text, separator);
    if len >= text.len() {
        seq![text]
    } else {
        seq![text.take(len as int)] + split_fields(text.skip(len as int + 1), separator)
    }
}

/// The candidate words that the text of a word file holds: its fields, each
/// without the white space around it.
pub open spec fn word_list(text: Seq<char>) -> Seq<Seq<char>> {
    split_fields(text, SEPARATOR).map_values(|field: Seq<char>| trimmed(field))
}

/// The first field ends where the first separator stands.
pub proof fn lemma_first_field_len(text: Seq<char>, separator: char, len: int)
    requires
        0 <= len <= text.len(),
        forall|j: int| 0 <= j < len ==> text[j] != separator,
        len == text.len() || text[len] == separator,
    ensures
        first_field_len(text, separator) == len,
    decreases len,
{
    if len > 0 {
        lemma_first_field_len(text.drop_first(), separator, len - 1);
    }
}

/// The words of a text whose first separator stands at `len`: the trimmed
/// text in front of it, then the words of what follows it.
pub proof fn lemma_word_list_unfold(text: Seq<char>, len: int)
    requires
        0 <= len < text.len(),
        forall|j: int| 0 <= j < len ==> text[j] != SEPARATOR,
        text[len] == SEPARATOR,
    ensures
        word_list(text) == seq![trimmed(text.take(len))] + word_list(text.skip(len + 1)),
{
    lemma_first_field_len(text, SEPARATOR, len);
    assert(word_list(text) =~= seq![trimmed(text.take(len))] + word_list(text.skip(len + 1)));
}

/// A text without a separator is one word.
pub proof fn lemma_word_list_single(text: Seq<char>)
    requires
        forall|j: int| 0 <= j < text.len() ==> text[j] != SEPARATOR,
    ensures
        word_list(text) == seq![trimmed(text)],
{
    lemma_first_field_len(text, SEPARATOR, text.len() as int);
    assert(word_list(text) =~= seq![trimmed(text)]);
}

/// Splits the text of a word file at its separators and trims each piece.
pub fn create_word_list(file: String) -> (words: Vec<String>)
    ensures
        words.deep_view() == word_list(file@),
{
    let letters = letters_of(file.as_str());
    let mut words: Vec<String> = Vec::new();
    let mut start: usize = 0;
    let mut i: usize = 0;
    assert(file@.skip(0) =~= file@);
    assert(words.deep_view() =~= Seq::<Seq<char>>::empty());
    while i < letters.len()
        invariant
            letters@ == file@,
            start <= i <= letters.len(),
            forall|j: int| start <= j < i ==> letters@[j] != SEPARATOR,
            word_list(file@) == words.deep_view() + word_list(file@.skip(start as int)),
        decreases letters.len() - i,
    {
        if letters[i] == SEPARATOR {
            let (first, last) = trim_bounds(&letters, start, i);
            let word = file.as_str().substring_char(first, last).to_owned();
            proof {
                let rest = file@.skip(start as int);
                lemma_word_list_unfold(rest, i - start);
                assert(rest.take(i - start) =~= file@.subrange(start as int, i as int));
                assert(rest.skip(i - start + 1) =~= file@.skip(i + 1));
                assert(words.deep_view().push(word@) + word_list(file@.skip(i + 1))
                    =~= words.deep_view() + word_list(rest));
            }
            let ghost before = words.deep_view();
            words.push(word);
            assert(words.deep_view() =~= before.push(word@));
            start = i + 1;
        }
        i += 1;
    }
    let (first, last) = trim_bounds(&letters, start, letters.len());
    let word = file.as_str().substring_char(first, last).to_owned();
    proof {
        let rest = file@.skip(start as int);
        lemma_word_list_single(rest);
        assert(rest =~= file@.subrange(start as int, file@.len() as int));
    }
    let ghost before = words.deep_view();
    words.push(word);
    assert(words.deep_view() =~= before.push(word@));
    words
}

/// The candidate words of a session: those of the word file if there is
/// one, and the default word alone if there is none.
pub fn word_list_or_default(contents: Option<String>) -> (words: Vec<String>)
    ensures
        words.deep_view() == match contents {
            Some(text) => word_list(text@),
            None => seq![DEFAULT_WORD@],
        },
{
    match contents {
        Some(text) => create_word_list(text),
        None => {
            let mut words: Vec<String> = Vec::new();
            words.push(DEFAULT_WORD.to_owned());
            assert(words.deep_view() =~= seq![DEFAULT_WORD@]);
            words
        },
    }
}

} // verus!
