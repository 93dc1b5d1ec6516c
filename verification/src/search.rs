//! The search itself: which lines of a text hold a query, with case and
//! without it.

use crate::selection::{
    is_selection_of, lemma_filter_after_wider_filter, lemma_filter_is_selection,
    lemma_filter_keeps_all, lemma_selection_is_contained,
};
use crate::text::{
    has_substring, is_piece_of, lemma_empty_needle, lemma_lines_are_pieces, lines_of,
    lowercase_of, str_contains, str_lines,
};
use vstd::prelude::*;

verus! {

/// The test that a line passes when it holds `query` as it is written.
pub open spec fn holds(query: Seq<char>) -> spec_fn(Seq<char>) -> bool {
    |line: Seq<char>| has_substring(line, query)
}

/// The test that a line passes when its lowercase form holds the lowercase
/// form of `query`.
pub open spec fn holds_folded(query: Seq<char>) -> spec_fn(Seq<char>) -> bool {
    |line: Seq<char>| has_substring(lowercase_of(line), lowercase_of(query))
}

/// The lines of `contents` that hold `query`, in the order of the text.
pub open spec fn matching_lines(query: Seq<char>, contents: Seq<char>) -> Seq<Seq<char>> {
    lines_of(contents).filter(holds(query))
}

/// The lines of `contents` that hold `query` when case is disregarded, as
/// they are written in the text and in its order.
pub open spec fn matching_lines_folded(query: Seq<char>, contents: Seq<char>) -> Seq<Seq<char>> {
    lines_of(contents).filter(holds_folded(query))
}

/// A line paired with its lowercase form.
pub open spec fn with_lowercase() -> spec_fn(Seq<char>) -> (Seq<char>, Seq<char>) {
    |line: Seq<char>| (line, lowercase_of(line))
}

/// The test that a keyed line passes when its key holds `needle`.
pub open spec fn key_holds(needle: Seq<char>) -> spec_fn((Seq<char>, Seq<char>)) -> bool {
    |entry: (Seq<char>, Seq<char>)| has_substring(entry.1, needle)
}

/// The line of a keyed line.
pub open spec fn line_of() -> spec_fn((Seq<char>, Seq<char>)) -> Seq<char> {
    |entry: (Seq<char>, Seq<char>)| entry.0
}

/// The lines of `keyed` whose keys hold `needle`, in the order of `keyed`.
pub open spec fn lines_with_key(needle: Seq<char>, keyed: Seq<(Seq<char>, Seq<char>)>) -> Seq<
    Seq<char>,
> {
    keyed.filter(key_holds(needle)).map_values(line_of())
}

/// The lines of `contents` that contain `query`, case counting, in the order
/// in which they stand in `contents`. No line of the text is returned twice; an empty
/// query is contained in every line.
pub fn search<'a>(query: &str, contents: &'a str) -> (results: Vec<&'a str>)
    ensures
        results.deep_view() == matching_lines(query@, contents@),
        is_selection_of(results.deep_view(), lines_of(contents@)),
        query@.len() == 0 ==> results.deep_view() == lines_of(contents@),
        contents@.len() == 0 ==> results@.len() == 0,
{
    let all = str_lines(contents);
    let mut results: Vec<&'a str> = Vec::new();
    let mut i: usize = 0;
    while i < all.len()
        invariant
            i <= all.len(),
            results.deep_view() == all.deep_view().take(i as int).filter(holds(query@)),
        decreases all.len() - i,
    {
        let line = all[i];
        let ghost kept = results.deep_view();
        let ghost seen = all.deep_view().take(i as int);
        if str_contains(line, query) {
            results.push(line);
            assert(results.deep_view() == kept.push(line@));
        }
        proof {
            assert(all.deep_view().take(i + 1) == seen.push(line@));
            seen.lemma_filter_push(line@, holds(query@));
        }
        i += 1;
    }
    proof {
        assert(all.deep_view().take(i as int) == all.deep_view());
        lemma_matches_are_selected_lines(query@, contents@);
        lemma_empty_query_is_held_by_every_line(query@, contents@);
        if contents@.len() == 0 {
            lemma_empty_text_has_no_matches(query@, contents@);
        }
    }
    results
}

/// Of the lines in `keyed`, each paired with the key that stands for it, those
/// whose key contains `needle`, in the order of `keyed`. The lines come back
/// as they went in; the keys only decide.
pub fn search_by_key<'a>(needle: &str, keyed: &Vec<(&'a str, String)>) -> (results: Vec<&'a str>)
    ensures
        results.deep_view() == lines_with_key(needle@, keyed.deep_view()),
{
    let mut results: Vec<&'a str> = Vec::new();
    let mut i: usize = 0;
    while i < keyed.len()
        invariant
            i <= keyed.len(),
            results.deep_view() == lines_with_key(needle@, keyed.deep_view().take(i as int)),
        decreases keyed.len() - i,
    {
        let line = keyed[i].0;
        let ghost kept = results.deep_view();
        let ghost seen = keyed.deep_view().take(i as int);
        let ghost entry = (line@, keyed[i as int].1@);
        if str_contains(keyed[i].1.as_str(), needle) {
            results.push(line);
            assert(results.deep_view() == kept.push(line@));
        }
        proof {
            assert(keyed.deep_view().take(i + 1) == seen.push(entry));
            seen.lemma_filter_push(entry, key_holds(needle@));
            seen.filter(key_holds(needle@)).lemma_push_map_commute(line_of(), entry);
        }
        i += 1;
    }
    assert(keyed.deep_view().take(i as int) == keyed.deep_view());
    results
}

/// The lines of `contents` whose lowercase form contains the lowercase form of
/// `query`, as they are written in `contents` and in its order. No line of the text is
/// returned twice; an empty query is contained in every line.
pub fn search_case_insensitive<'a>(query: &str, contents: &'a str) -> (results: Vec<&'a str>)
    ensures
        results.deep_view() == matching_lines_folded(query@, contents@),
        is_selection_of(results.deep_view(), lines_of(contents@)),
        query@.len() == 0 ==> results.deep_view() == lines_of(contents@),
        contents@.len() == 0 ==> results@.len() == 0,
{
    let needle = query.to_lowercase();
    let all = str_lines(contents);
    let mut keyed: Vec<(&'a str, String)> = Vec::new();
    let mut i: usize = 0;
    while i < all.len()
        invariant
            i <= all.len(),
            keyed.deep_view() == all.deep_view().take(i as int).map_values(with_lowercase()),
        decreases all.len() - i,
    {
        let line = all[i];
        let ghost paired = keyed.deep_view();
        let ghost seen = all.deep_view().take(i as int);
        keyed.push((line, line.to_lowercase()));
        proof {
            assert(keyed.deep_view() == paired.push(with_lowercase()(line@)));
            assert(all.deep_view().take(i + 1) == seen.push(line@));
            seen.lemma_push_map_commute(with_lowercase(), line@);
        }
        i += 1;
    }
    proof {
        assert(all.deep_view().take(i as int) == all.deep_view());
        lemma_lowercase_keys(query@, lines_of(contents@));
        lemma_matches_are_selected_lines(query@, contents@);
        lemma_empty_query_is_held_by_every_line(query@, contents@);
        if contents@.len() == 0 {
            lemma_empty_text_has_no_matches(query@, contents@);
        }
    }
    search_by_key(needle.as_str(), &keyed)
}

/// Judging each line by its lowercase form against the lowercase form of the
/// query is the case-insensitive test on the lines themselves.
proof fn lemma_lowercase_keys(query: Seq<char>, lines: Seq<Seq<char>>)
    ensures
        lines_with_key(lowercase_of(query), lines.map_values(with_lowercase())) == lines.filter(
            holds_folded(query),
        ),
    decreases lines.len(),
{
    let needle = lowercase_of(query);
    let keyed = lines.map_values(with_lowercase());
    reveal(Seq::filter);
    if lines.len() > 0 {
        let entry = with_lowercase()(lines.last());
        lemma_lowercase_keys(query, lines.drop_last());
        assert(keyed.drop_last() == lines.drop_last().map_values(with_lowercase()));
        assert(keyed.last() == entry);
        keyed.drop_last().filter(key_holds(needle)).lemma_push_map_commute(line_of(), entry);
    }
}

/// Both searches return only lines of the text, in the order of the text, and
/// take no line of the text twice.
pub proof fn lemma_matches_are_selected_lines(query: Seq<char>, contents: Seq<char>)
    ensures
        is_selection_of(matching_lines(query, contents), lines_of(contents)),
        is_selection_of(matching_lines_folded(query, contents), lines_of(contents)),
        forall|i: int|
            0 <= i < matching_lines(query, contents).len() ==> lines_of(contents).contains(
                #[trigger] matching_lines(query, contents)[i],
            ),
        forall|i: int|
            0 <= i < matching_lines_folded(query, contents).len() ==> lines_of(contents).contains(
                #[trigger] matching_lines_folded(query, contents)[i],
            ),
{
    let all = lines_of(contents);
    lemma_filter_is_selection(all, holds(query));
    lemma_filter_is_selection(all, holds_folded(query));
    lemma_selection_is_contained(matching_lines(query, contents), all);
    lemma_selection_is_contained(matching_lines_folded(query, contents), all);
}

/// Every line that a search returns, with case or without, is a piece of the
/// text that holds no line feed.
pub proof fn lemma_matches_are_pieces_of_text(query: Seq<char>, contents: Seq<char>)
    ensures
        forall|i: int|
            #![trigger matching_lines(query, contents)[i]]
            0 <= i < matching_lines(query, contents).len() ==> {
                &&& is_piece_of(matching_lines(query, contents)[i], contents)
                &&& !matching_lines(query, contents)[i].contains('\n')
            },
        forall|i: int|
            #![trigger matching_lines_folded(query, contents)[i]]
            0 <= i < matching_lines_folded(query, contents).len() ==> {
                &&& is_piece_of(matching_lines_folded(query, contents)[i], contents)
                &&& !matching_lines_folded(query, contents)[i].contains('\n')
            },
{
    let all = lines_of(contents);
    lemma_matches_are_selected_lines(query, contents);
    assert forall|line: Seq<char>| all.contains(line) implies is_piece_of(line, contents)
        && !line.contains('\n') by {
        let i = choose|i: int| 0 <= i < all.len() && all[i] == line;
        lemma_lines_are_pieces(contents, i);
    }
}

/// A query without characters is held by every line, and so is, when case is
/// disregarded, a query whose lowercase form is without characters.
pub proof fn lemma_empty_query_is_held_by_every_line(query: Seq<char>, contents: Seq<char>)
    ensures
        query.len() == 0 ==> matching_lines(query, contents) == lines_of(contents),
        lowercase_of(query).len() == 0 ==> matching_lines_folded(query, contents) == lines_of(
            contents,
        ),
{
    let all = lines_of(contents);
    if query.len() == 0 {
        assert forall|i: int| 0 <= i < all.len() implies holds(query)(#[trigger] all[i]) by {
            lemma_empty_needle(all[i], query);
        }
        lemma_filter_keeps_all(all, holds(query));
    }
    if lowercase_of(query).len() == 0 {
        assert forall|i: int| 0 <= i < all.len() implies holds_folded(query)(
            #[trigger] all[i],
        ) by {
            lemma_empty_needle(lowercase_of(all[i]), lowercase_of(query));
        }
        lemma_filter_keeps_all(all, holds_folded(query));
    }
}

/// A text without characters has no lines, and so no matches.
pub proof fn lemma_empty_text_has_no_matches(query: Seq<char>, contents: Seq<char>)
    requires
        contents.len() == 0,
    ensures
        matching_lines(query, contents).len() == 0,
        matching_lines_folded(query, contents).len() == 0,
{
    lines_of(contents).lemma_filter_len(holds(query));
    lines_of(contents).lemma_filter_len(holds_folded(query));
}

/// Searching twice gives the same: whatever two searches over the same query
/// and text return, both with case or both without, they return the same
/// lines in the same order.
pub proof fn lemma_search_is_repeatable(
    query: Seq<char>,
    contents: Seq<char>,
    case_sensitive: bool,
    first: Seq<Seq<char>>,
    second: Seq<Seq<char>>,
)
    requires
        case_sensitive ==> first == matching_lines(query, contents) && second == matching_lines(
            query,
            contents,
        ),
        !case_sensitive ==> first == matching_lines_folded(query, contents) && second
            == matching_lines_folded(query, contents),
    ensures
        first == second,
{
}

/// Whether turning `query` and the lines of `contents` to lowercase keeps
/// every match: each line that holds the query as written holds it in
/// lowercase too. The lowercase form of a letter can depend on the letters
/// around it, so there are queries and texts of which this is false.
pub open spec fn lowercase_keeps_matches(query: Seq<char>, contents: Seq<char>) -> bool {
    forall|i: int|
        0 <= i < lines_of(contents).len() && holds(query)(#[trigger] lines_of(contents)[i])
            ==> holds_folded(query)(lines_of(contents)[i])
}

/// Where lowercasing keeps every match, the case-sensitive matches are among
/// the case-insensitive ones: they are those of the case-insensitive matches
/// that hold the query as written, so each of them is a case-insensitive
/// match, and they stand in the same order.
pub proof fn lemma_search_within_case_insensitive(query: Seq<char>, contents: Seq<char>)
    requires
        lowercase_keeps_matches(query, contents),
    ensures
        matching_lines(query, contents) == matching_lines_folded(query, contents).filter(
            holds(query),
        ),
        is_selection_of(matching_lines(query, contents), matching_lines_folded(query, contents)),
        forall|i: int|
            0 <= i < matching_lines(query, contents).len() ==> matching_lines_folded(
                query,
                contents,
            ).contains(#[trigger] matching_lines(query, contents)[i]),
{
    let sensitive = matching_lines(query, contents);
    let folded = matching_lines_folded(query, contents);
    lemma_filter_after_wider_filter(lines_of(contents), holds(query), holds_folded(query));
    lemma_filter_is_selection(folded, holds(query));
    lemma_selection_is_contained(sensitive, folded);
}

/// Where lowercasing loses a match, the case-sensitive search returns a line
/// that the case-insensitive search does not.
pub proof fn lemma_search_outside_case_insensitive(query: Seq<char>, contents: Seq<char>)
    requires
        !lowercase_keeps_matches(query, contents),
    ensures
        exists|i: int|
            0 <= i < matching_lines(query, contents).len() && !matching_lines_folded(
                query,
                contents,
            ).contains(#[trigger] matching_lines(query, contents)[i]),
{
    let all = lines_of(contents);
    let sensitive = matching_lines(query, contents);
    let folded = matching_lines_folded(query, contents);
    let i = choose|i: int|
        0 <= i < all.len() && holds(query)(#[trigger] all[i]) && !holds_folded(query)(all[i]);
    all.lemma_filter_contains(holds(query), i);
    let k = choose|k: int| 0 <= k < sensitive.len() && sensitive[k] == all[i];
    if folded.contains(sensitive[k]) {
        let j = choose|j: int| 0 <= j < folded.len() && folded[j] == sensitive[k];
        all.lemma_filter_pred(holds_folded(query), j);
    }
}

} // verus!
