//! What a run reports once the text of its file is at hand.

use crate::config::{Config, ConfigView};
use crate::search::{matching_lines, matching_lines_folded, search, search_case_insensitive};
use crate::selection::is_selection_of;
use crate::text::lines_of;
use vstd::prelude::*;

verus! {

/// The lines that a run with `config` reports of a file that reads
/// `contents`: the matches of the configured query, with case where the
/// configuration says that case counts and without it where not.
pub open spec fn reported_lines(config: ConfigView, contents: Seq<char>) -> Seq<Seq<char>> {
    if config.case_sensitive {
        matching_lines(config.query, contents)
    } else {
        matching_lines_folded(config.query, contents)
    }
}

/// The lines to print for a run with `config` over a file that reads
/// `contents`, in the order in which they are to be printed. Only the query
/// and the case switch of `config` bear on them.
pub fn find_matches<'a>(config: &Config, contents: &'a str) -> (lines: Vec<&'a str>)
    ensures
        lines.deep_view() == reported_lines(config@, contents@),
        is_selection_of(lines.deep_view(), lines_of(contents@)),
{
    if config.case_sensitive {
        search(config.query.as_str(), contents)
    } else {
        search_case_insensitive(config.query.as_str(), contents)
    }
}

} // verus!
