//! `Grep`: search files for a literal text.

use vstd::prelude::*;

use crate::engine::error::ExecutionError;
use crate::engine::execution::outcome_error;
use crate::engine::tool::{text_argument, Tool, ToolDefinition, ToolOutput};
use crate::json::{
    items_view, lemma_member_at, members_view, with_member, Json, JsonView, NumberView,
};
use crate::path::{display_relative, relative_to};
use crate::runtime::shell::{type_json, type_schema};
use crate::text::{contains, contains_text, lines, lines_of, texts};
use crate::tools::shared::{
    max_results, missing_string, object_schema, object_schema_json, only, required_string,
    result_limit, text_refusal, DEFAULT_MAX_FILE_READ_BYTES,
};

verus! {

/// The tool.
pub struct GrepTool {
    /// Files larger than this are skipped.
    pub max_file_read_bytes: usize,
}

impl Default for GrepTool {
    fn default() -> (tool: Self)
        ensures
            tool.max_file_read_bytes == DEFAULT_MAX_FILE_READ_BYTES,
    {
        GrepTool { max_file_read_bytes: DEFAULT_MAX_FILE_READ_BYTES }
    }
}

impl GrepTool {
    pub fn new(max_file_read_bytes: usize) -> (tool: Self)
        ensures
            tool.max_file_read_bytes == max_file_read_bytes,
    {
        GrepTool { max_file_read_bytes }
    }

    /// Whether a file is searched, given its length where that is known.
    pub fn searches(&self, length: Option<u64>) -> (yes: bool)
        ensures
            yes == match length {
                Some(length) => length <= self.max_file_read_bytes,
                None => true,
            },
    {
        match length {
            Some(length) => length <= self.max_file_read_bytes as u64,
            None => true,
        }
    }
}

/// One hit as it is returned.
pub open spec fn hit(path: Seq<char>, line: nat, text: Seq<char>) -> JsonView {
    JsonView::Object(
        seq![
            ("path"@, JsonView::Text(path)),
            ("line"@, JsonView::Number(NumberView::Unsigned(line as u64))),
            ("text"@, JsonView::Text(text)),
        ],
    )
}

fn hit_json(path: &str, line: u64, text: &str) -> (json: Json)
    ensures
        json@ == hit(path@, line as nat, text@),
{
    let members = with_member(Vec::new(), "path", Json::text(path));
    let members = with_member(members, "line", Json::unsigned(line));
    let members = with_member(members, "text", Json::text(text));
    assert(members_view(Seq::empty()) =~= Seq::empty());
    assert(members_view(members@) =~= hit(path@, line as nat, text@)->Object_0);
    Json::object(members)
}

/// The hits after the first `n` lines of a file are searched, up to the limit.
pub open spec fn hits_in(
    before: Seq<JsonView>,
    path: Seq<char>,
    all: Seq<Seq<char>>,
    pattern: Seq<char>,
    limit: usize,
    n: int,
) -> Seq<JsonView>
    decreases n,
{
    if n <= 0 {
        before
    } else {
        let earlier = hits_in(before, path, all, pattern, limit, n - 1);
        if earlier.len() < limit && contains_text(all[n - 1], pattern) {
            earlier.push(hit(path, n as nat, all[n - 1]))
        } else {
            earlier
        }
    }
}

/// A file that is searched: its path and its text.
pub struct Searched {
    pub path: Seq<char>,
    pub content: Seq<char>,
}

/// The hits in some files, in order, up to the limit.
pub open spec fn hits_of(
    cwd: Seq<char>,
    pattern: Seq<char>,
    files: Seq<Searched>,
    limit: usize,
) -> Seq<JsonView>
    decreases files.len(),
{
    if files.len() == 0 {
        Seq::empty()
    } else {
        let all = lines_of(files.last().content);
        hits_in(
            hits_of(cwd, pattern, files.drop_last(), limit),
            relative_to(files.last().path, cwd),
            all,
            pattern,
            limit,
            all.len() as int,
        )
    }
}

/// A search that is under way.
pub struct GrepSearch {
    cwd: String,
    pattern: String,
    limit: usize,
    hits: Vec<Json>,
}

/// What a search looks for, and where.
pub struct GrepView {
    pub cwd: Seq<char>,
    pub pattern: Seq<char>,
    pub limit: usize,
}

/// The files that are searched where nothing is said.
pub open spec fn file_glob(arguments: JsonView) -> Seq<char> {
    match arguments.text_member("glob"@) {
        Some(glob) => glob,
        None => "**/*"@,
    }
}

impl GrepSearch {
    /// Whether this is the search for `what` that has searched `files`.
    pub closed spec fn has_searched(self, what: GrepView, files: Seq<Searched>) -> bool {
        &&& self.cwd@ == what.cwd
        &&& self.pattern@ == what.pattern
        &&& self.limit == what.limit
        &&& items_view(self.hits@) == hits_of(what.cwd, what.pattern, files, what.limit)
    }

    /// Begins a search and tells which files to walk, or what is missing.
    pub fn new(arguments: &Json, cwd: &str) -> (search: Result<(Self, String), ExecutionError>)
        ensures
            match (search, arguments@.text_member("pattern"@)) {
                (Ok((search, glob)), Some(pattern)) => glob@ == file_glob(arguments@)
                    && search.has_searched(
                    GrepView { cwd: cwd@, pattern, limit: result_limit(arguments@) },
                    Seq::empty(),
                ),
                (Err(error), None) => error@ == missing_string("pattern"@),
                _ => false,
            },
    {
        let pattern = match required_string(arguments, "pattern") {
            Ok(pattern) => pattern,
            Err(error) => {
                return Err(error);
            },
        };
        let glob = match arguments.get_str("glob") {
            Some(glob) => glob.to_owned(),
            None => "**/*".to_owned(),
        };
        let search = GrepSearch {
            cwd: cwd.to_owned(),
            pattern,
            limit: max_results(arguments),
            hits: Vec::new(),
        };
        assert(items_view(search.hits@) =~= Seq::empty());
        Ok((search, glob))
    }

    /// Whether the search goes on.
    pub fn wants_more(&self) -> (yes: bool)
        ensures
            forall|what: GrepView, files: Seq<Searched>| #[trigger]
                self.has_searched(what, files) ==> yes == (hits_of(
                    what.cwd,
                    what.pattern,
                    files,
                    what.limit,
                ).len() < what.limit),
    {
        assert(items_view(self.hits@).len() == self.hits@.len());
        self.hits.len() < self.limit
    }

    /// Searches a file.
    pub fn search(&mut self, path: &str, content: &str)
        ensures
            forall|what: GrepView, files: Seq<Searched>| #[trigger]
                old(self).has_searched(what, files) ==> final(self).has_searched(
                    what,
                    files.push(Searched { path: path@, content: content@ }),
                ),
    {
        let shown = display_relative(self.cwd.as_str(), path);
        let all = lines(content);
        let ghost start = items_view(self.hits@);
        let ghost wanted = texts(all@);
        let ghost (cwd, pattern, limit) = (self.cwd@, self.pattern@, self.limit);
        let mut i: usize = 0;
        while i < all.len()
            invariant
                i <= all@.len(),
                wanted == texts(all@),
                self.cwd@ == cwd,
                self.pattern@ == pattern,
                self.limit == limit,
                shown@ == relative_to(path@, cwd),
                items_view(self.hits@) == hits_in(start, shown@, wanted, pattern, limit, i as int),
            decreases all.len() - i,
        {
            let ghost before = items_view(self.hits@);
            assert(before.len() == self.hits@.len());
            assert(wanted[i as int] == all@[i as int]@);
            if self.hits.len() < self.limit && contains(all[i].as_str(), self.pattern.as_str()) {
                let found = hit_json(shown.as_str(), i as u64 + 1, all[i].as_str());
                self.hits.push(found);
                assert(items_view(self.hits@) =~= before.push(found@));
            }
            i += 1;
        }
        proof {
            assert(wanted.len() == all@.len());
            assert forall|what: GrepView, files: Seq<Searched>| #[trigger]
                old(self).has_searched(what, files) implies self.has_searched(
                what,
                files.push(Searched { path: path@, content: content@ }),
            ) by {
                assert(files.push(Searched { path: path@, content: content@ }).drop_last()
                    =~= files);
            }
        }
    }

    /// The result of the search.
    pub fn finish(self) -> (output: ToolOutput)
        ensures
            forall|what: GrepView, files: Seq<Searched>| #[trigger]
                self.has_searched(what, files) ==> output.content@ == JsonView::Object(
                    seq![
                        (
                            "matches"@,
                            JsonView::Array(
                                hits_of(what.cwd, what.pattern, files, what.limit),
                            ),
                        ),
                    ],
                ),
    {
        let ghost found = items_view(self.hits@);
        let members = with_member(Vec::new(), "matches", Json::array(self.hits));
        assert(members_view(Seq::empty()) =~= Seq::empty());
        assert(members_view(members@) =~= seq![("matches"@, JsonView::Array(found))]);
        ToolOutput::json(Json::object(members))
    }
}

/// The input schema of the tool.
pub open spec fn grep_schema() -> JsonView {
    object_schema(
        seq![
            ("pattern"@, type_schema("string"@)),
            ("glob"@, type_schema("string"@)),
            ("max_results"@, type_schema("integer"@)),
        ],
        seq!["pattern"@],
    )
}

impl Tool for GrepTool {
    fn definition(&self) -> (definition: ToolDefinition)
        ensures
            definition@.name == "Grep"@,
            definition@.description == "Search UTF-8 files for a literal text pattern."@,
            definition@.input_schema == grep_schema(),
    {
        let properties = with_member(Vec::new(), "pattern", type_json("string"));
        let properties = with_member(properties, "glob", type_json("string"));
        let properties = with_member(properties, "max_results", type_json("integer"));
        assert(members_view(Seq::empty()) =~= Seq::empty());
        assert(members_view(properties@) =~= grep_schema()->Object_0[1].1->Object_0);
        ToolDefinition {
            name: "Grep".to_owned(),
            description: "Search UTF-8 files for a literal text pattern.".to_owned(),
            input_schema: object_schema_json(properties, &only("pattern")),
        }
    }

    fn is_concurrency_safe(&self, arguments: &Json) -> (safe: bool)
        ensures
            safe,
    {
        true
    }

    fn invocation_detail(&self, arguments: &Json) -> (detail: String)
        ensures
            detail@ == match arguments@.text_member("pattern"@) {
                Some(pattern) => pattern,
                None => Seq::empty(),
            },
    {
        text_argument(arguments, "pattern")
    }

    fn validate(&self, arguments: &Json) -> (outcome: Result<(), ExecutionError>)
        ensures
            outcome_error(outcome) == text_refusal(arguments@, "pattern"@),
    {
        match required_string(arguments, "pattern") {
            Ok(_) => Ok(()),
            Err(error) => Err(error),
        }
    }
}

/// Where a hit among the first `n` lines comes from.
proof fn lemma_hit_in(
    before: Seq<JsonView>,
    path: Seq<char>,
    all: Seq<Seq<char>>,
    pattern: Seq<char>,
    limit: usize,
    n: int,
    i: int,
)
    requires
        0 <= n <= all.len(),
        before.len() <= i < hits_in(before, path, all, pattern, limit, n).len(),
    ensures
        exists|k: int|
            0 <= k < n && contains_text(#[trigger] all[k], pattern) && hits_in(
                before,
                path,
                all,
                pattern,
                limit,
                n,
            )[i] == hit(path, (k + 1) as nat, all[k]),
    decreases n,
{
    let earlier = hits_in(before, path, all, pattern, limit, n - 1);
    if n > 0 {
        if i < earlier.len() {
            lemma_hit_in(before, path, all, pattern, limit, n - 1, i);
            let k = choose|k: int|
                0 <= k < n - 1 && contains_text(#[trigger] all[k], pattern) && earlier[i] == hit(
                    path,
                    (k + 1) as nat,
                    all[k],
                );
            assert(contains_text(all[k], pattern));
        } else {
            assert(contains_text(all[n - 1], pattern));
        }
    }
}

proof fn lemma_hits_extend(
    before: Seq<JsonView>,
    path: Seq<char>,
    all: Seq<Seq<char>>,
    pattern: Seq<char>,
    limit: usize,
    n: int,
)
    requires
        before.len() <= limit,
    ensures
        before.len() <= hits_in(before, path, all, pattern, limit, n).len() <= limit,
        forall|i: int|
            0 <= i < before.len() ==> #[trigger] hits_in(before, path, all, pattern, limit, n)[i]
                == before[i],
    decreases n,
{
    if n > 0 {
        lemma_hits_extend(before, path, all, pattern, limit, n - 1);
    }
}

/// No search returns more hits than its limit, and every hit names a line of a
/// searched file that holds the pattern literally.
pub proof fn law_hits_hold_the_pattern(
    cwd: Seq<char>,
    pattern: Seq<char>,
    files: Seq<Searched>,
    limit: usize,
    i: int,
)
    requires
        0 <= i < hits_of(cwd, pattern, files, limit).len(),
    ensures
        hits_of(cwd, pattern, files, limit).len() <= limit,
        exists|f: int, k: int|
            0 <= f < files.len() && 0 <= k < lines_of(files[f].content).len() && contains_text(
                #[trigger] lines_of(files[f].content)[k],
                pattern,
            ) && hits_of(cwd, pattern, files, limit)[i] == hit(
                relative_to(files[f].path, cwd),
                (k + 1) as nat,
                lines_of(files[f].content)[k],
            ),
    decreases files.len(),
{
    lemma_hits_bounded(cwd, pattern, files, limit);
    let rest = files.drop_last();
    let before = hits_of(cwd, pattern, rest, limit);
    let all = lines_of(files.last().content);
    let path = relative_to(files.last().path, cwd);
    lemma_hits_bounded(cwd, pattern, rest, limit);
    lemma_hits_extend(before, path, all, pattern, limit, all.len() as int);
    if i < before.len() {
        law_hits_hold_the_pattern(cwd, pattern, rest, limit, i);
        let (f, k) = choose|f: int, k: int|
            0 <= f < rest.len() && 0 <= k < lines_of(rest[f].content).len() && contains_text(
                #[trigger] lines_of(rest[f].content)[k],
                pattern,
            ) && before[i] == hit(
                relative_to(rest[f].path, cwd),
                (k + 1) as nat,
                lines_of(rest[f].content)[k],
            );
        assert(files[f] == rest[f]);
        assert(contains_text(lines_of(files[f].content)[k], pattern));
    } else {
        lemma_hit_in(before, path, all, pattern, limit, all.len() as int, i);
        let k = choose|k: int|
            0 <= k < all.len() && contains_text(#[trigger] all[k], pattern) && hits_of(
                cwd,
                pattern,
                files,
                limit,
            )[i] == hit(path, (k + 1) as nat, all[k]);
        let f = files.len() - 1;
        assert(files[f] == files.last());
        assert(contains_text(lines_of(files[f].content)[k], pattern));
    }
}

proof fn lemma_hits_bounded(
    cwd: Seq<char>,
    pattern: Seq<char>,
    files: Seq<Searched>,
    limit: usize,
)
    ensures
        hits_of(cwd, pattern, files, limit).len() <= limit,
    decreases files.len(),
{
    if files.len() > 0 {
        let all = lines_of(files.last().content);
        lemma_hits_bounded(cwd, pattern, files.drop_last(), limit);
        lemma_hits_extend(
            hits_of(cwd, pattern, files.drop_last(), limit),
            relative_to(files.last().path, cwd),
            all,
            pattern,
            limit,
            all.len() as int,
        );
    }
}

/// Whether a line of a file holds the pattern. Files and lines are counted from
/// zero.
pub open spec fn holds_pattern(
    files: Seq<Searched>,
    pattern: Seq<char>,
    file: int,
    line: int,
) -> bool {
    &&& 0 <= file < files.len()
    &&& 0 <= line < lines_of(files[file].content).len()
    &&& contains_text(lines_of(files[file].content)[line], pattern)
}

/// Whether one line comes before another: in an earlier file, or earlier in the
/// same file.
pub open spec fn comes_before(a: (int, int), b: (int, int)) -> bool {
    a.0 < b.0 || (a.0 == b.0 && a.1 < b.1)
}

/// The hit that a line gives.
pub open spec fn hit_at(cwd: Seq<char>, files: Seq<Searched>, at: (int, int)) -> JsonView {
    hit(
        relative_to(files[at.0].path, cwd),
        (at.1 + 1) as nat,
        lines_of(files[at.0].content)[at.1],
    )
}

/// Whether `hits` are the hits of the lines at `spots`, and these are the first
/// lines before `end` that hold the pattern, in order.
spec fn first_before(
    cwd: Seq<char>,
    pattern: Seq<char>,
    files: Seq<Searched>,
    limit: usize,
    end: (int, int),
    hits: Seq<JsonView>,
    spots: Seq<(int, int)>,
) -> bool {
    &&& spots.len() == hits.len()
    &&& hits.len() <= limit
    &&& forall|i: int|
        0 <= i < spots.len() ==> {
            &&& holds_pattern(files, pattern, (#[trigger] spots[i]).0, spots[i].1)
            &&& comes_before(spots[i], end)
            &&& hits[i] == hit_at(cwd, files, spots[i])
        }
    &&& forall|i: int, j: int|
        0 <= i < j < spots.len() ==> comes_before(#[trigger] spots[i], #[trigger] spots[j])
    &&& forall|file: int, line: int| #[trigger]
        holds_pattern(files, pattern, file, line) && comes_before((file, line), end)
            ==> spots.contains((file, line)) || (hits.len() == limit && forall|i: int|
            0 <= i < spots.len() ==> comes_before(#[trigger] spots[i], (file, line)))
}

proof fn lemma_first_in_file(
    cwd: Seq<char>,
    pattern: Seq<char>,
    files: Seq<Searched>,
    limit: usize,
    file: int,
    n: int,
    before: Seq<JsonView>,
    seen: Seq<(int, int)>,
) -> (spots: Seq<(int, int)>)
    requires
        0 <= file < files.len(),
        0 <= n <= lines_of(files[file].content).len(),
        first_before(cwd, pattern, files, limit, (file, 0), before, seen),
    ensures
        first_before(
            cwd,
            pattern,
            files,
            limit,
            (file, n),
            hits_in(
                before,
                relative_to(files[file].path, cwd),
                lines_of(files[file].content),
                pattern,
                limit,
                n,
            ),
            spots,
        ),
    decreases n,
{
    let path = relative_to(files[file].path, cwd);
    let all = lines_of(files[file].content);
    if n <= 0 {
        seen
    } else {
        let earlier = hits_in(before, path, all, pattern, limit, n - 1);
        let found = lemma_first_in_file(cwd, pattern, files, limit, file, n - 1, before, seen);
        let now = hits_in(before, path, all, pattern, limit, n);
        let spot = (file, n - 1);
        let spots = if earlier.len() < limit && contains_text(all[n - 1], pattern) {
            found.push(spot)
        } else {
            found
        };
        if spots.len() > found.len() {
            assert(spots[spots.len() - 1] == spot);
            assert(holds_pattern(files, pattern, file, n - 1));
        }
        assert forall|i: int| 0 <= i < spots.len() implies {
            &&& holds_pattern(files, pattern, (#[trigger] spots[i]).0, spots[i].1)
            &&& comes_before(spots[i], (file, n))
            &&& now[i] == hit_at(cwd, files, spots[i])
        } by {
            if i < found.len() {
                assert(spots[i] == found[i]);
            }
        }
        assert forall|i: int, j: int| 0 <= i < j < spots.len() implies comes_before(
            #[trigger] spots[i],
            #[trigger] spots[j],
        ) by {
            assert(spots[i] == found[i]);
            if j < found.len() {
                assert(spots[j] == found[j]);
            }
        }
        assert forall|f: int, k: int| #[trigger]
            holds_pattern(files, pattern, f, k) && comes_before((f, k), (file, n)) implies (
        spots.contains((f, k)) || (now.len() == limit && forall|i: int|
            0 <= i < spots.len() ==> comes_before(#[trigger] spots[i], (f, k)))) by {
            if comes_before((f, k), (file, n - 1)) {
                if found.contains((f, k)) {
                    let i = choose|i: int| 0 <= i < found.len() && found[i] == (f, k);
                    assert(spots[i] == (f, k));
                }
            } else {
                assert((f, k) == spot);
                if earlier.len() < limit {
                    assert(spots[spots.len() - 1] == spot);
                }
            }
        }
        spots
    }
}

proof fn lemma_first_in_files(
    cwd: Seq<char>,
    pattern: Seq<char>,
    files: Seq<Searched>,
    limit: usize,
    n: int,
) -> (spots: Seq<(int, int)>)
    requires
        0 <= n <= files.len(),
    ensures
        first_before(
            cwd,
            pattern,
            files,
            limit,
            (n, 0),
            hits_of(cwd, pattern, files.take(n), limit),
            spots,
        ),
    decreases n,
{
    if n == 0 {
        Seq::empty()
    } else {
        let file = n - 1;
        let all = lines_of(files[file].content);
        let seen = lemma_first_in_files(cwd, pattern, files, limit, file);
        let before = hits_of(cwd, pattern, files.take(file), limit);
        let spots = lemma_first_in_file(
            cwd,
            pattern,
            files,
            limit,
            file,
            all.len() as int,
            before,
            seen,
        );
        assert(files.take(n).drop_last() =~= files.take(file));
        assert(files.take(n).last() == files[file]);
        assert forall|f: int, k: int| #[trigger]
            holds_pattern(files, pattern, f, k) && comes_before((f, k), (n, 0)) implies
            comes_before((f, k), (file, all.len() as int)) by {}
        spots
    }
}

/// A search misses nothing and repeats nothing. Its hits are those of the first
/// lines that hold the pattern, in the order of files and lines, each with the
/// path of its file, the number of its line and the line itself: where it
/// returned fewer than its limit, every line of every file that holds the
/// pattern has its hit; where it returned as many as its limit, a line without
/// a hit comes after all that have one. The result tells which lines have hits.
pub proof fn law_hits_are_the_first_in_order(
    cwd: Seq<char>,
    pattern: Seq<char>,
    files: Seq<Searched>,
    limit: usize,
) -> (spots: Seq<(int, int)>)
    ensures
        ({
            let hits = hits_of(cwd, pattern, files, limit);
            &&& spots.len() == hits.len()
            &&& hits.len() <= limit
            &&& forall|i: int|
                0 <= i < spots.len() ==> {
                    &&& holds_pattern(files, pattern, (#[trigger] spots[i]).0, spots[i].1)
                    &&& hits[i].text_member("path"@) == Some(
                        relative_to(files[spots[i].0].path, cwd),
                    )
                    &&& hits[i].unsigned_member("line"@) == Some((spots[i].1 + 1) as u64)
                    &&& hits[i].text_member("text"@) == Some(
                        lines_of(files[spots[i].0].content)[spots[i].1],
                    )
                }
            &&& forall|i: int, j: int|
                0 <= i < j < spots.len() ==> comes_before(#[trigger] spots[i], #[trigger] spots[j])
            &&& forall|file: int, line: int| #[trigger]
                holds_pattern(files, pattern, file, line) ==> spots.contains((file, line)) || (
                hits.len() == limit && forall|i: int|
                    0 <= i < spots.len() ==> comes_before(#[trigger] spots[i], (file, line)))
        }),
{
    assert(files.take(files.len() as int) =~= files);
    let n = files.len() as int;
    let spots = lemma_first_in_files(cwd, pattern, files, limit, n);
    let hits = hits_of(cwd, pattern, files, limit);
    assert forall|i: int| 0 <= i < spots.len() implies {
        &&& hits[i].text_member("path"@) == Some(relative_to(files[(#[trigger] spots[i]).0].path, cwd))
        &&& hits[i].unsigned_member("line"@) == Some((spots[i].1 + 1) as u64)
        &&& hits[i].text_member("text"@) == Some(lines_of(files[spots[i].0].content)[spots[i].1])
    } by {
        assert(hits[i] == hit_at(cwd, files, spots[i]));
        law_hits_are_found_by_key(
            relative_to(files[spots[i].0].path, cwd),
            (spots[i].1 + 1) as nat,
            lines_of(files[spots[i].0].content)[spots[i].1],
        );
    }
    assert forall|file: int, line: int| #[trigger]
        holds_pattern(files, pattern, file, line) implies comes_before((file, line), (n, 0)) by {}
    spots
}

/// A search with room for more has found every line that holds the pattern.
pub proof fn law_unfilled_searches_are_complete(
    cwd: Seq<char>,
    pattern: Seq<char>,
    files: Seq<Searched>,
    limit: usize,
    file: int,
    line: int,
)
    requires
        hits_of(cwd, pattern, files, limit).len() < limit,
        0 <= file < files.len(),
        0 <= line < lines_of(files[file].content).len(),
        contains_text(lines_of(files[file].content)[line], pattern),
    ensures
        exists|i: int|
            0 <= i < hits_of(cwd, pattern, files, limit).len() && (#[trigger] hits_of(
                cwd,
                pattern,
                files,
                limit,
            )[i]).text_member("path"@) == Some(relative_to(files[file].path, cwd)) && hits_of(
                cwd,
                pattern,
                files,
                limit,
            )[i].unsigned_member("line"@) == Some((line + 1) as u64) && hits_of(
                cwd,
                pattern,
                files,
                limit,
            )[i].text_member("text"@) == Some(lines_of(files[file].content)[line]),
{
    let spots = law_hits_are_the_first_in_order(cwd, pattern, files, limit);
    assert(holds_pattern(files, pattern, file, line));
    let i = choose|i: int| 0 <= i < spots.len() && spots[i] == (file, line);
    assert(hits_of(cwd, pattern, files, limit)[i].text_member("path"@) == Some(
        relative_to(files[spots[i].0].path, cwd),
    ));
}

/// A hit tells the path, the number of the line and the line, each under its
/// key.
pub proof fn law_hits_are_found_by_key(path: Seq<char>, line: nat, text: Seq<char>)
    ensures
        hit(path, line, text).text_member("path"@) == Some(path),
        hit(path, line, text).unsigned_member("line"@) == Some(line as u64),
        hit(path, line, text).text_member("text"@) == Some(text),
{
    reveal_strlit("path");
    reveal_strlit("line");
    reveal_strlit("text");
    assert("path"@[0] == 'p' && "line"@[0] == 'l' && "text"@[0] == 't');
    let members = hit(path, line, text)->Object_0;
    lemma_member_at(members, "path"@, 0);
    lemma_member_at(members, "line"@, 1);
    lemma_member_at(members, "text"@, 2);
}

/// The files that the `glob` argument names are searched, and every file where it
/// names none.
pub proof fn law_named_files_are_searched(arguments: JsonView)
    ensures
        arguments.text_member("glob"@) matches Some(glob) ==> file_glob(arguments) == glob,
        arguments.text_member("glob"@) is None ==> file_glob(arguments) == "**/*"@,
{
}

} // verus!
