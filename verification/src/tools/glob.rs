//! `Glob`: list files that match a pattern.

use vstd::prelude::*;

use crate::engine::error::{ErrorView, ExecutionError};
use crate::engine::execution::outcome_error;
use crate::engine::tool::{text_argument, Tool, ToolDefinition, ToolOutput};
use crate::json::{items_view, lemma_member_at, members_view, with_member, Json, JsonView};
use crate::path::{
    absolute, absolute_glob_anchor, components_of, display_relative, is_absolute, join_of,
    join_path, law_join_lies_under, lies_under, path_of, plain_prefix, relative_to,
};
use crate::runtime::shell::{type_json, type_schema};
use crate::text::texts;
use crate::tools::shared::{
    max_results, missing_string, object_schema, object_schema_json, only, required_string,
    result_limit, text_refusal,
};

verus! {

/// The tool.
pub struct GlobTool;

/// The pattern that is walked: a relative one begins at the working directory.
pub open spec fn walked_pattern(cwd: Seq<char>, pattern: Seq<char>) -> Seq<char> {
    if absolute(pattern) {
        pattern
    } else {
        join_of(cwd, pattern)
    }
}

/// The pattern that is walked.
pub fn full_pattern(cwd: &str, pattern: &str) -> (full: String)
    ensures
        full@ == walked_pattern(cwd@, pattern@),
{
    if is_absolute(pattern) {
        pattern.to_owned()
    } else {
        join_path(cwd, pattern)
    }
}

/// The directory that must lie in the working directory for an absolute pattern
/// to be walked: its components up to the first with a wildcard.
pub fn anchor(pattern: &str) -> (anchor: Option<String>)
    ensures
        match anchor {
            Some(anchor) => absolute(pattern@) && anchor@ == path_of(
                plain_prefix(components_of(pattern@)),
            ),
            None => !absolute(pattern@),
        },
{
    if is_absolute(pattern) {
        Some(absolute_glob_anchor(pattern))
    } else {
        None
    }
}

/// How an absolute pattern that leaves the working directory is refused.
pub fn outside_pattern(pattern: &str) -> (error: ExecutionError)
    ensures
        error@ == ErrorView::Other("absolute glob pattern must stay under cwd: "@ + pattern@),
{
    ExecutionError::Other("absolute glob pattern must stay under cwd: ".to_owned().concat(pattern))
}

/// How a pattern that cannot be read is refused.
pub fn bad_pattern(tool: &str, message: &str) -> (error: ExecutionError)
    ensures
        error@ == (ErrorView::ToolValidation { tool: tool@, message: message@ }),
{
    ExecutionError::ToolValidation { tool: tool.to_owned(), message: message.to_owned() }
}

/// A path that the walk found, and whether it lies in the working directory once
/// links are followed.
pub struct Found {
    pub path: Seq<char>,
    pub contained: bool,
}

/// The matches among what the walk found, shown relative to the working
/// directory. Once there are enough, nothing more is looked at.
pub open spec fn matches_of(cwd: Seq<char>, found: Seq<Found>, limit: usize) -> Seq<Seq<char>>
    decreases found.len(),
{
    if found.len() == 0 {
        Seq::empty()
    } else {
        let before = matches_of(cwd, found.drop_last(), limit);
        if before.len() < limit && found.last().contained {
            before.push(relative_to(found.last().path, cwd))
        } else {
            before
        }
    }
}

/// A search that is under way.
pub struct GlobSearch {
    cwd: String,
    limit: usize,
    matches: Vec<String>,
}

impl GlobSearch {
    /// Whether this is the search in `cwd` for `limit` matches that has seen
    /// `found`.
    pub closed spec fn has_seen(self, cwd: Seq<char>, limit: usize, found: Seq<Found>) -> bool {
        &&& self.cwd@ == cwd
        &&& self.limit == limit
        &&& texts(self.matches@) == matches_of(cwd, found, limit)
    }

    /// Begins a search, or tells what is missing.
    pub fn new(arguments: &Json, cwd: &str) -> (search: Result<(Self, String), ExecutionError>)
        ensures
            match (search, arguments@.text_member("pattern"@)) {
                (Ok((search, pattern)), Some(wanted)) => pattern@ == wanted && search.has_seen(
                    cwd@,
                    result_limit(arguments@),
                    Seq::empty(),
                ),
                (Err(error), None) => error@ == missing_string("pattern"@),
                _ => false,
            },
    {
        let pattern = match required_string(arguments, "pattern") {
            Ok(pattern) => pattern,
            Err(error) => {
                return Err(error);
            },
        };
        let search = GlobSearch {
            cwd: cwd.to_owned(),
            limit: max_results(arguments),
            matches: Vec::new(),
        };
        assert(texts(search.matches@) =~= Seq::empty());
        Ok((search, pattern))
    }

    /// Whether the search goes on.
    pub fn wants_more(&self) -> (yes: bool)
        ensures
            forall|cwd: Seq<char>, limit: usize, found: Seq<Found>| #[trigger]
                self.has_seen(cwd, limit, found) ==> yes == (matches_of(cwd, found, limit).len()
                    < limit),
    {
        assert(texts(self.matches@).len() == self.matches@.len());
        self.matches.len() < self.limit
    }

    /// Takes in a path that the walk found.
    pub fn offer(&mut self, path: &str, contained: bool)
        ensures
            forall|cwd: Seq<char>, limit: usize, found: Seq<Found>| #[trigger]
                old(self).has_seen(cwd, limit, found) ==> final(self).has_seen(
                    cwd,
                    limit,
                    found.push(Found { path: path@, contained }),
                ),
    {
        let ghost before = texts(self.matches@);
        assert(before.len() == self.matches@.len());
        proof {
            assert forall|found: Seq<Found>| #[trigger]
                found.push(Found { path: path@, contained }).drop_last() == found by {
                assert(found.push(Found { path: path@, contained }).drop_last() =~= found);
            }
        }
        if self.matches.len() < self.limit && contained {
            let shown = display_relative(self.cwd.as_str(), path);
            self.matches.push(shown);
            assert(texts(self.matches@) =~= before.push(shown@));
        }
    }

    /// The result of the search.
    pub fn finish(&self) -> (output: ToolOutput)
        ensures
            forall|cwd: Seq<char>, limit: usize, found: Seq<Found>| #[trigger]
                self.has_seen(cwd, limit, found) ==> output.content@ == glob_result(
                    matches_of(cwd, found, limit),
                ),
    {
        let mut items: Vec<Json> = Vec::new();
        let mut i: usize = 0;
        while i < self.matches.len()
            invariant
                i <= self.matches@.len(),
                items@.len() == i,
                forall|j: int|
                    0 <= j < i ==> #[trigger] items@[j]@ == JsonView::Text(self.matches@[j]@),
            decreases self.matches.len() - i,
        {
            items.push(Json::text(self.matches[i].as_str()));
            i += 1;
        }
        let ghost all = texts(self.matches@);
        assert(items_view(items@) =~= Seq::new(all.len(), |i: int| JsonView::Text(all[i])));
        let members = with_member(Vec::new(), "matches", Json::array(items));
        assert(members_view(Seq::empty()) =~= Seq::empty());
        assert(members_view(members@) =~= glob_result(all)->Object_0);
        ToolOutput::json(Json::object(members))
    }
}

/// The result of a search.
pub open spec fn glob_result(matches: Seq<Seq<char>>) -> JsonView {
    JsonView::Object(
        seq![
            (
                "matches"@,
                JsonView::Array(Seq::new(matches.len(), |i: int| JsonView::Text(matches[i]))),
            ),
        ],
    )
}

/// The input schema of the tool.
pub open spec fn glob_schema() -> JsonView {
    object_schema(
        seq![("pattern"@, type_schema("string"@)), ("max_results"@, type_schema("integer"@))],
        seq!["pattern"@],
    )
}

impl Tool for GlobTool {
    fn definition(&self) -> (definition: ToolDefinition)
        ensures
            definition@.name == "Glob"@,
            definition@.description
                == "List files matching a glob pattern under the current working directory."@,
            definition@.input_schema == glob_schema(),
    {
        let properties = with_member(Vec::new(), "pattern", type_json("string"));
        let properties = with_member(properties, "max_results", type_json("integer"));
        assert(members_view(Seq::empty()) =~= Seq::empty());
        assert(members_view(properties@) =~= glob_schema()->Object_0[1].1->Object_0);
        ToolDefinition {
            name: "Glob".to_owned(),
            description:
                "List files matching a glob pattern under the current working directory.".to_owned(),
            input_schema: object_schema_json(properties, &only("pattern")),
        }
    }

    fn is_concurrency_safe(&self, arguments: &Json) -> (safe: bool)
        ensures
            safe,
    {
        true
    }

    fn invocation_detail(&self, arguments: &Json) -> (detail: String)
        ensures
            detail@ == match arguments@.text_member("pattern"@) {
                Some(pattern) => pattern,
                None => Seq::empty(),
            },
    {
        text_argument(arguments, "pattern")
    }

    fn validate(&self, arguments: &Json) -> (outcome: Result<(), ExecutionError>)
        ensures
            outcome_error(outcome) == text_refusal(arguments@, "pattern"@),
    {
        match required_string(arguments, "pattern") {
            Ok(_) => Ok(()),
            Err(error) => Err(error),
        }
    }
}

/// No search returns more than its limit, and every match is a path that was
/// found in the working directory.
pub proof fn law_matches_are_bounded_and_contained(
    cwd: Seq<char>,
    found: Seq<Found>,
    limit: usize,
    i: int,
)
    requires
        0 <= i < matches_of(cwd, found, limit).len(),
    ensures
        matches_of(cwd, found, limit).len() <= limit,
        exists|k: int|
            0 <= k < found.len() && (#[trigger] found[k]).contained && matches_of(
                cwd,
                found,
                limit,
            )[i] == relative_to(found[k].path, cwd),
    decreases found.len(),
{
    let before = matches_of(cwd, found.drop_last(), limit);
    if i < before.len() {
        law_matches_are_bounded_and_contained(cwd, found.drop_last(), limit, i);
        let k = choose|k: int|
            0 <= k < found.drop_last().len() && (#[trigger] found.drop_last()[k]).contained
                && before[i] == relative_to(found.drop_last()[k].path, cwd);
        assert(found[k].contained);
    } else {
        assert(found[found.len() - 1].contained);
    }
}

/// A listing misses nothing and repeats nothing. Its matches are the first
/// paths that were found in the working directory, in the order in which they
/// were found, each shown relative to it: where there are fewer than the limit,
/// every such path is among them; where there are as many as the limit, one
/// that is not was found after all that are. The result tells which paths are
/// shown.
pub proof fn law_matches_are_the_first_in_order(
    cwd: Seq<char>,
    found: Seq<Found>,
    limit: usize,
) -> (spots: Seq<int>)
    ensures
        ({
            let matches = matches_of(cwd, found, limit);
            &&& spots.len() == matches.len()
            &&& matches.len() <= limit
            &&& forall|i: int|
                0 <= i < spots.len() ==> 0 <= (#[trigger] spots[i]) < found.len()
                    && found[spots[i]].contained && matches[i] == relative_to(
                    found[spots[i]].path,
                    cwd,
                )
            &&& forall|i: int, j: int|
                0 <= i < j < spots.len() ==> #[trigger] spots[i] < #[trigger] spots[j]
            &&& forall|k: int|
                0 <= k < found.len() && (#[trigger] found[k]).contained ==> spots.contains(k) || (
                matches.len() == limit && forall|i: int|
                    0 <= i < spots.len() ==> #[trigger] spots[i] < k)
        }),
    decreases found.len(),
{
    if found.len() == 0 {
        Seq::empty()
    } else {
        let rest = found.drop_last();
        let last = found.len() - 1;
        let before = matches_of(cwd, rest, limit);
        let seen = law_matches_are_the_first_in_order(cwd, rest, limit);
        let matches = matches_of(cwd, found, limit);
        let spots = if before.len() < limit && found.last().contained {
            seen.push(last)
        } else {
            seen
        };
        assert forall|i: int| 0 <= i < spots.len() implies 0 <= (#[trigger] spots[i]) < found.len()
            && found[spots[i]].contained && matches[i] == relative_to(
            found[spots[i]].path,
            cwd,
        ) by {
            if i < seen.len() {
                assert(spots[i] == seen[i]);
                assert(rest[seen[i]] == found[seen[i]]);
            }
        }
        assert forall|i: int, j: int| 0 <= i < j < spots.len() implies #[trigger] spots[i]
            < #[trigger] spots[j] by {
            assert(spots[i] == seen[i]);
            if j < seen.len() {
                assert(spots[j] == seen[j]);
            }
        }
        assert forall|k: int| 0 <= k < found.len() && (#[trigger] found[k]).contained implies (
        spots.contains(k) || (matches.len() == limit && forall|i: int|
            0 <= i < spots.len() ==> #[trigger] spots[i] < k)) by {
            if k < last {
                assert(rest[k] == found[k]);
                if seen.contains(k) {
                    let i = choose|i: int| 0 <= i < seen.len() && seen[i] == k;
                    assert(spots[i] == k);
                }
            } else if before.len() < limit {
                assert(spots[spots.len() - 1] == last);
            }
        }
        spots
    }
}

/// The matches are listed under their key, each as a text, in order.
pub proof fn law_matches_are_listed(matches: Seq<Seq<char>>)
    ensures
        glob_result(matches).member("matches"@) matches Some(JsonView::Array(items)) && items.len()
            == matches.len() && forall|i: int|
            0 <= i < matches.len() ==> (#[trigger] items[i]).text() == Some(matches[i]),
{
    lemma_member_at(glob_result(matches)->Object_0, "matches"@, 0);
}

/// A pattern that begins at the root is walked as it is; any other is walked
/// below the working directory.
pub proof fn law_relative_patterns_begin_in_the_directory(cwd: Seq<char>, pattern: Seq<char>)
    requires
        cwd.len() > 0,
    ensures
        absolute(pattern) ==> walked_pattern(cwd, pattern) == pattern,
        !absolute(pattern) ==> lies_under(walked_pattern(cwd, pattern), cwd)
            && pattern.is_suffix_of(walked_pattern(cwd, pattern)),
{
    if !absolute(pattern) {
        law_join_lies_under(cwd, pattern);
        let full = walked_pattern(cwd, pattern);
        assert(full.subrange(full.len() - pattern.len(), full.len() as int) =~= pattern);
    }
}

} // verus!
