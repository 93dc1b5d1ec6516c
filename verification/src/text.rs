//! The mathematical model of text that the search is stated over, and the
//! standard-library string operations that the search relies on.

use vstd::prelude::*;

verus! {

/// Whether `needle` stands in `haystack` at position `at`.
pub open spec fn occurs_at(haystack: Seq<char>, needle: Seq<char>, at: int) -> bool {
    &&& 0 <= at
    &&& at + needle.len() <= haystack.len()
    &&& haystack.subrange(at, at + needle.len()) == needle
}

/// Whether `needle` is a contiguous run of characters of `haystack`.
pub open spec fn has_substring(haystack: Seq<char>, needle: Seq<char>) -> bool {
    exists|at: int| occurs_at(haystack, needle, at)
}

/// A text without characters stands in every text.
pub proof fn lemma_empty_needle(haystack: Seq<char>, needle: Seq<char>)
    requires
        needle.len() == 0,
    ensures
        has_substring(haystack, needle),
{
    assert(haystack.subrange(0, 0) == needle);
    assert(occurs_at(haystack, needle, 0));
}

/// The position of the first line feed of `text`, or its length if it has none.
pub open spec fn first_break(text: Seq<char>) -> int
    decreases text.len(),
{
    if text.len() == 0 || text[0] == '\n' {
        0
    } else {
        1 + first_break(text.drop_first())
    }
}

/// `first_break` is a position of `text` or its length, no line feed stands
/// before it, and a line feed stands at it unless it is the length.
pub proof fn lemma_first_break(text: Seq<char>)
    ensures
        0 <= first_break(text) <= text.len(),
        forall|i: int| 0 <= i < first_break(text) ==> text[i] != '\n',
        first_break(text) < text.len() ==> text[first_break(text)] == '\n',
    decreases text.len(),
{
    if text.len() != 0 && text[0] != '\n' {
        let rest = text.drop_first();
        lemma_first_break(rest);
        assert forall|i: int| 0 <= i < first_break(text) implies text[i] != '\n' by {
            if i > 0 {
                assert(text[i] == rest[i - 1]);
            }
        }
    }
}

/// `line` without the carriage return at its end, if it ends in one.
pub open spec fn without_carriage_return(line: Seq<char>) -> Seq<char> {
    if line.len() > 0 && line.last() == '\r' {
        line.drop_last()
    } else {
        line
    }
}

/// The lines of `text`. A line ends at a line feed, or at the end of the text;
/// the line feed, and a carriage return directly before it, belong to no line.
/// Nothing follows the last line feed of a text that ends in one, so an empty
/// text has no lines.
pub open spec fn lines_of(text: Seq<char>) -> Seq<Seq<char>>
    decreases text.len(),
{
    let end = first_break(text);
    if text.len() == 0 {
        Seq::empty()
    } else if end == text.len() {
        seq![text]
    } else {
        proof {
            lemma_first_break(text);
        }
        seq![without_carriage_return(text.take(end))] + lines_of(text.skip(end + 1))
    }
}

/// Whether `piece` is a run of consecutive characters of `text`, named by
/// where it begins and ends.
pub open spec fn is_piece_of(piece: Seq<char>, text: Seq<char>) -> bool {
    exists|from: int, to: int|
        0 <= from <= to <= text.len() && piece == #[trigger] text.subrange(from, to)
}

/// Every line of a text is a piece of it that holds no line feed.
pub proof fn lemma_lines_are_pieces(text: Seq<char>, i: int)
    requires
        0 <= i < lines_of(text).len(),
    ensures
        is_piece_of(lines_of(text)[i], text),
        !lines_of(text)[i].contains('\n'),
    decreases text.len(),
{
    lemma_first_break(text);
    let end = first_break(text);
    let line = lines_of(text)[i];
    if end == text.len() {
        assert(line == text.subrange(0, end));
    } else if i == 0 {
        let whole = text.take(end);
        if whole.len() > 0 && whole.last() == '\r' {
            assert(line == text.subrange(0, end - 1));
        } else {
            assert(line == text.subrange(0, end));
        }
    } else {
        let rest = text.skip(end + 1);
        lemma_lines_are_pieces(rest, i - 1);
        assert(line == lines_of(rest)[i - 1]);
        let (from, to) = choose|from: int, to: int|
            0 <= from <= to <= rest.len() && line == #[trigger] rest.subrange(from, to);
        assert(line == text.subrange(end + 1 + from, end + 1 + to));
    }
}

/// The lowercase form that the standard library gives to `text`.
pub uninterp spec fn lowercase_of(text: Seq<char>) -> Seq<char>;

/// `str::contains` with a string pattern: whether `needle` matches a
/// sub-slice of `haystack`. Stated here over characters: some run of
/// consecutive characters of `haystack` equals `needle`.
#[verifier::external_body]
pub(crate) fn str_contains(haystack: &str, needle: &str) -> (found: bool)
    ensures
        found == has_substring(haystack@, needle@),
{
    haystack.contains(needle)
}

/// `str::lines`, collected: the lines of `text` as slices of it, split at
/// `\n` or `\r\n`, a final line ending being optional. The contract claims
/// that these are, in order, exactly `lines_of` the text.
#[verifier::external_body]
pub(crate) fn str_lines<'a>(text: &'a str) -> (all: Vec<&'a str>)
    ensures
        all.deep_view() == lines_of(text@),
{
    text.lines().collect()
}

/// `str::to_lowercase`: the lowercase equivalent of `text` as a new string.
/// The mapping follows Unicode and is not spelled out here; the contract
/// claims only that it depends on the characters of `text` alone, and that
/// a text without characters stays without characters.
pub assume_specification[ str::to_lowercase ](text: &str) -> (lower: String)
    ensures
        lower@ == lowercase_of(text@),
        text@.len() == 0 ==> lower@.len() == 0,
;

} // verus!
