//! What the built-in tools share: arguments, schemas, paths, and the record of
//! what was read.

use vstd::prelude::*;

use crate::engine::error::{tool_failure, ErrorView, ExecutionError};
use crate::json::{items_view, lemma_member_at, members_view, with_member, Json, JsonView};
use crate::path::{
    absolute, components, components_of, descends, is_descending, is_under, join_of, join_parts,
    join_path, law_components_are_proper, law_join_lies_under, law_lying_under_is_an_order,
    law_paths_are_made_of_their_components, lies_under, named_segments, path_of,
};
use crate::text::{
    contains_text, law_occurrences_split_the_text, same_text, split_on, texts,
};
use crate::text_map::TextMap;

verus! {

/// The largest file that is read or searched where nothing else is said.
pub const DEFAULT_MAX_FILE_READ_BYTES: usize = 10_485_760;

/// The string under `first`, or else under `second`.
pub open spec fn text_under(arguments: JsonView, first: Seq<char>, second: Seq<char>) -> Option<
    Seq<char>,
> {
    match arguments.text_member(first) {
        Some(text) => Some(text),
        None => arguments.text_member(second),
    }
}

/// How a missing string is told.
pub open spec fn missing_string(key: Seq<char>) -> ErrorView {
    ErrorView::Other("missing required string argument `"@ + key + "`"@)
}

/// The string under `key`, which must be there.
pub fn required_string(arguments: &Json, key: &str) -> (text: Result<String, ExecutionError>)
    ensures
        match (text, arguments@.text_member(key@)) {
            (Ok(text), Some(wanted)) => text@ == wanted,
            (Err(error), None) => error@ == missing_string(key@),
            _ => false,
        },
{
    match arguments.get_str(key) {
        Some(text) => Ok(text.to_owned()),
        None => Err(
            ExecutionError::Other(
                "missing required string argument `".to_owned().concat(key).concat("`"),
            ),
        ),
    }
}

/// Why arguments without a string under `key` are refused.
pub open spec fn text_refusal(arguments: JsonView, key: Seq<char>) -> Option<ErrorView> {
    if arguments.text_member(key) is None {
        Some(missing_string(key))
    } else {
        None
    }
}

/// Why arguments without a path are refused.
pub open spec fn path_refusal(arguments: JsonView) -> Option<ErrorView> {
    if text_under(arguments, "file_path"@, "path"@) is None {
        Some(missing_string("file_path"@))
    } else {
        None
    }
}

/// The string under `first`, or else under `second`; one must be there.
pub fn required_string_any(arguments: &Json, first: &str, second: &str) -> (text: Result<
    String,
    ExecutionError,
>)
    ensures
        match (text, text_under(arguments@, first@, second@)) {
            (Ok(text), Some(wanted)) => text@ == wanted,
            (Err(error), None) => error@ == missing_string(first@),
            _ => false,
        },
{
    match arguments.get_str(first) {
        Some(text) => Ok(text.to_owned()),
        None => match arguments.get_str(second) {
            Some(text) => Ok(text.to_owned()),
            None => required_string(arguments, first),
        },
    }
}

/// A number as a size, as far as it fits.
pub open spec fn as_size(n: u64) -> usize {
    if n > usize::MAX {
        usize::MAX
    } else {
        n as usize
    }
}

fn to_size(n: u64) -> (size: usize)
    ensures
        size == as_size(n),
{
    let most: u64 = usize::MAX as u64;
    if n > most {
        usize::MAX
    } else {
        n as usize
    }
}

/// The number under `first`, or else under `second`.
pub open spec fn size_under(arguments: JsonView, first: Seq<char>, second: Seq<char>) -> Option<
    usize,
> {
    match arguments.unsigned_member(first) {
        Some(n) => Some(as_size(n)),
        None => match arguments.unsigned_member(second) {
            Some(n) => Some(as_size(n)),
            None => None,
        },
    }
}

/// The number under `first`, or else under `second`.
pub fn optional_usize_any(arguments: &Json, first: &str, second: &str) -> (n: Option<usize>)
    ensures
        n == size_under(arguments@, first@, second@),
{
    match arguments.get_u64(first) {
        Some(n) => Some(to_size(n)),
        None => match arguments.get_u64(second) {
            Some(n) => Some(to_size(n)),
            None => None,
        },
    }
}

/// How many results are wanted: 200 where nothing is said.
pub open spec fn result_limit(arguments: JsonView) -> usize {
    match arguments.unsigned_member("max_results"@) {
        Some(n) => as_size(n),
        None => 200,
    }
}

/// How many results are wanted.
pub fn max_results(arguments: &Json) -> (n: usize)
    ensures
        n == result_limit(arguments@),
{
    match arguments.get_u64("max_results") {
        Some(n) => to_size(n),
        None => 200,
    }
}

/// The schema of an object with some properties, of which some are required.
pub open spec fn object_schema(
    properties: Seq<(Seq<char>, JsonView)>,
    required: Seq<Seq<char>>,
) -> JsonView {
    JsonView::Object(
        seq![
            ("type"@, JsonView::Text("object"@)),
            ("properties"@, JsonView::Object(properties)),
            (
                "required"@,
                JsonView::Array(Seq::new(required.len(), |i: int| JsonView::Text(required[i]))),
            ),
        ],
    )
}

/// The schema of an object with some properties, of which some are required.
pub fn object_schema_json(properties: Vec<(String, Json)>, required: &Vec<String>) -> (schema: Json)
    ensures
        schema@ == object_schema(members_view(properties@), texts(required@)),
{
    let mut names: Vec<Json> = Vec::new();
    let mut i: usize = 0;
    while i < required.len()
        invariant
            i <= required@.len(),
            names@.len() == i,
            forall|j: int| 0 <= j < i ==> #[trigger] names@[j]@ == JsonView::Text(required@[j]@),
        decreases required.len() - i,
    {
        names.push(Json::text(required[i].as_str()));
        i += 1;
    }
    let ghost wanted = texts(required@);
    assert(items_view(names@) =~= Seq::new(wanted.len(), |i: int| JsonView::Text(wanted[i])));
    let members = with_member(Vec::new(), "type", Json::text("object"));
    let members = with_member(members, "properties", Json::object(properties));
    let members = with_member(members, "required", Json::array(names));
    assert(members_view(Seq::empty()) =~= Seq::empty());
    assert(members_view(members@) =~= object_schema(members_view(properties@), wanted)->Object_0);
    Json::object(members)
}

/// One name as a list.
pub fn only(name: &str) -> (list: Vec<String>)
    ensures
        texts(list@) == seq![name@],
{
    let mut list: Vec<String> = Vec::new();
    list.push(name.to_owned());
    assert(texts(list@) =~= seq![name@]);
    list
}

/// The path that an argument names, taken from the working directory.
pub fn resolve_workspace_path(cwd: &str, input: &str) -> (path: String)
    ensures
        path@ == join_of(cwd@, input@),
{
    join_path(cwd, input)
}

/// How a path outside the working directory is told.
pub open spec fn outside_cwd(path: Seq<char>, cwd: Seq<char>) -> ErrorView {
    ErrorView::Other("path "@ + path + " is outside the working directory "@ + cwd)
}

/// How a link that leads nowhere is told.
pub open spec fn dangling(path: Seq<char>) -> ErrorView {
    ErrorView::Other("path "@ + path + " is a link that leads nowhere"@)
}

/// A path below an ancestor that exists, with what does not exist yet after it.
pub open spec fn below(ancestor: Seq<char>, rest: Seq<char>) -> Seq<char> {
    if rest.len() == 0 {
        ancestor
    } else {
        join_of(ancestor, rest)
    }
}

/// The path that a tool may use, where it lies in the working directory.
/// `ancestor` is the nearest directory or file on the way that exists, with
/// every link followed, and `rest` is what follows it and does not exist. `cwd`
/// is the working directory with every link followed.
pub fn canonicalize_within_cwd(cwd: &str, ancestor: &str, rest: &str) -> (path: Result<
    String,
    ExecutionError,
>)
    ensures
        match path {
            Ok(path) => {
                &&& path@ == below(ancestor@, rest@)
                &&& descends(rest@)
                &&& lies_under(path@, cwd@)
            },
            Err(error) => (!descends(rest@) || !lies_under(below(ancestor@, rest@), cwd@)) && error@
                == outside_cwd(below(ancestor@, rest@), cwd@),
        },
{
    let path = if rest.is_empty() {
        ancestor.to_owned()
    } else {
        join_path(ancestor, rest)
    };
    if is_descending(rest) && is_under(path.as_str(), cwd) {
        Ok(path)
    } else {
        Err(
            ExecutionError::Other(
                "path ".to_owned().concat(path.as_str()).concat(
                    " is outside the working directory ",
                ).concat(cwd),
            ),
        )
    }
}

/// What came of looking at a path.
#[derive(Debug, PartialEq, Eq)]
pub enum Probe {
    /// It is there; this is the path with every link followed.
    Found(String),
    /// Nothing is there, not even a link; the text says so.
    Absent(String),
    /// A link is there that leads nowhere.
    Dangling,
    /// It could not be looked at; the text says why.
    Failed(String),
}

/// What is to be done to find the path that a tool may use.
#[derive(Debug, PartialEq, Eq)]
pub enum ClimbStep {
    /// Look at this path.
    Look(String),
    /// This is the path, or why there is none.
    Done(Result<String, ExecutionError>),
}

/// The search for the nearest part of a path that exists: the whole path is
/// looked at first, then one component less at a time.
pub struct Climb {
    cwd: String,
    parts: Vec<String>,
    kept: usize,
}

/// What a [`Climb`] holds: the working directory, the components of the path, and
/// how many of them are looked at.
pub struct ClimbView {
    pub cwd: Seq<char>,
    pub parts: Seq<Seq<char>>,
    pub kept: nat,
}

impl ClimbView {
    /// The part of the path that is looked at.
    pub open spec fn tried(self) -> Seq<char> {
        path_of(self.parts.take(self.kept as int))
    }

    /// The part of the path after that, which was found absent.
    pub open spec fn rest(self) -> Seq<char> {
        path_of(self.parts.skip(self.kept as int))
    }
}

impl View for Climb {
    type V = ClimbView;

    closed spec fn view(&self) -> ClimbView {
        ClimbView { cwd: self.cwd@, parts: texts(self.parts@), kept: self.kept as nat }
    }
}

impl Climb {
    #[verifier::type_invariant]
    spec fn kept_is_in_range(self) -> bool {
        self.kept <= self.parts@.len()
    }

    /// Begins the search for a path. `cwd` is the working directory with every
    /// link followed.
    pub fn new(cwd: &str, path: &str) -> (climb: Self)
        ensures
            climb@ == (ClimbView {
                cwd: cwd@,
                parts: components_of(path@),
                kept: components_of(path@).len(),
            }),
    {
        let parts = components(path);
        let kept: usize = parts.len();
        assert(texts(parts@).len() == parts@.len());
        Climb { cwd: cwd.to_owned(), parts, kept }
    }

    /// The path that is to be looked at.
    pub fn tried(&self) -> (path: String)
        ensures
            path@ == self@.tried(),
    {
        proof {
            use_type_invariant(self);
            assert(self@.parts.take(self@.kept as int) =~= self@.parts.subrange(
                0,
                self.kept as int,
            ));
        }
        join_parts(&self.parts, 0, self.kept)
    }

    /// Takes in what came of looking at the path. Where nothing is there, what
    /// holds it is looked at next; where nothing holds it, there is no path. A
    /// link that leads nowhere is refused, wherever on the way it lies: what is
    /// written there would be written to where it points.
    pub fn advance(&mut self, probe: Probe) -> (step: ClimbStep)
        ensures
            final(self)@.cwd == old(self)@.cwd,
            final(self)@.parts == old(self)@.parts,
            final(self)@.kept == if probe is Absent && old(self)@.kept > 1 {
                (old(self)@.kept - 1) as nat
            } else {
                old(self)@.kept
            },
            match (probe, step) {
                (Probe::Found(ancestor), ClimbStep::Done(Ok(path))) => {
                    let rest = old(self)@.rest();
                    &&& path@ == below(ancestor@, rest)
                    &&& descends(rest)
                    &&& lies_under(path@, old(self)@.cwd)
                },
                (Probe::Found(ancestor), ClimbStep::Done(Err(error))) => {
                    let path = below(ancestor@, old(self)@.rest());
                    &&& !descends(old(self)@.rest()) || !lies_under(path, old(self)@.cwd)
                    &&& error@ == outside_cwd(path, old(self)@.cwd)
                },
                (Probe::Absent(_), ClimbStep::Look(path)) => {
                    &&& old(self)@.kept > 1
                    &&& path@ == final(self)@.tried()
                },
                (Probe::Absent(message), ClimbStep::Done(Err(error))) => old(self)@.kept <= 1
                    && error@ == ErrorView::Other(message@),
                (Probe::Dangling, ClimbStep::Done(Err(error))) => error@ == dangling(
                    old(self)@.tried(),
                ),
                (Probe::Failed(message), ClimbStep::Done(Err(error))) => error@ == ErrorView::Other(
                    message@,
                ),
                _ => false,
            },
    {
        proof {
            use_type_invariant(&*self);
        }
        match probe {
            Probe::Found(ancestor) => {
                let n: usize = self.parts.len();
                let rest = join_parts(&self.parts, self.kept, n);
                assert(self@.parts.skip(self@.kept as int) =~= self@.parts.subrange(
                    self.kept as int,
                    n as int,
                ));
                ClimbStep::Done(
                    canonicalize_within_cwd(self.cwd.as_str(), ancestor.as_str(), rest.as_str()),
                )
            },
            Probe::Absent(message) => {
                if self.kept > 1 {
                    self.kept = self.kept - 1;
                    ClimbStep::Look(self.tried())
                } else {
                    ClimbStep::Done(Err(ExecutionError::Other(message)))
                }
            },
            Probe::Dangling => {
                let path = self.tried();
                ClimbStep::Done(
                    Err(
                        ExecutionError::Other(
                            "path ".to_owned().concat(path.as_str()).concat(
                                " is a link that leads nowhere",
                            ),
                        ),
                    ),
                )
            },
            Probe::Failed(message) => ClimbStep::Done(Err(ExecutionError::Other(message))),
        }
    }
}

/// What was read of a file.
#[derive(Debug, PartialEq, Eq)]
pub struct FileReadRecord {
    pub content: String,
    pub timestamp_ms: u64,
    pub is_partial_view: bool,
    pub offset: Option<usize>,
    pub limit: Option<usize>,
}

/// The files that were read, by path.
#[derive(Debug, PartialEq, Eq)]
pub struct FileReadState {
    records: TextMap<FileReadRecord>,
}

impl View for FileReadState {
    type V = Map<Seq<char>, FileReadRecord>;

    closed spec fn view(&self) -> Map<Seq<char>, FileReadRecord> {
        self.records@
    }
}

/// Why a file may not be changed: it was not read, not read whole, or is not
/// what was read.
pub open spec fn change_refusal(
    records: Map<Seq<char>, FileReadRecord>,
    path: Seq<char>,
    existing: Seq<char>,
) -> Option<Seq<char>> {
    if !records.contains_key(path) {
        Some("file has not been read yet; read it with Read first"@)
    } else if records[path].is_partial_view {
        Some("only part of the file has been read; read the whole file with Read first"@)
    } else if records[path].content@ != existing {
        Some("file has changed since it was read; read it again with Read first"@)
    } else {
        None
    }
}

impl Default for FileReadState {
    fn default() -> (state: Self)
        ensures
            state@ == Map::<Seq<char>, FileReadRecord>::empty(),
    {
        FileReadState::new()
    }
}

impl FileReadState {
    /// Nothing was read.
    pub fn new() -> (state: Self)
        ensures
            state@ == Map::<Seq<char>, FileReadRecord>::empty(),
    {
        FileReadState { records: TextMap::new() }
    }

    /// Takes down what was read of, or written to, a file.
    pub fn record(&mut self, path: &str, record: FileReadRecord)
        ensures
            final(self)@ == old(self)@.insert(path@, record),
    {
        self.records.insert(path.to_owned(), record);
    }

    /// Whether a file that holds `existing` may be changed by a tool.
    pub fn ensure_file_was_read_and_unchanged(&self, tool: &str, path: &str, existing: &str) -> (
        checked: Result<(), ExecutionError>)
        ensures
            match (checked, change_refusal(self@, path@, existing@)) {
                (Ok(_), None) => true,
                (Err(error), Some(message)) => error@ == (ErrorView::ToolExecution {
                    tool: tool@,
                    message,
                }),
                _ => false,
            },
    {
        match self.records.get(path) {
            None => Err(tool_failure(tool, "file has not been read yet; read it with Read first")),
            Some(record) => {
                if record.is_partial_view {
                    return Err(
                        tool_failure(
                            tool,
                            "only part of the file has been read; read the whole file with Read first",
                        ),
                    );
                }
                if !same_text(record.content.as_str(), existing) {
                    return Err(
                        tool_failure(
                            tool,
                            "file has changed since it was read; read it again with Read first",
                        ),
                    );
                }
                Ok(())
            },
        }
    }
}

/// A path that a tool may use begins with the working directory, and what does
/// not exist of it does not climb.
pub proof fn law_tool_paths_stay_inside(
    cwd: Seq<char>,
    ancestor: Seq<char>,
    rest: Seq<char>,
    i: int,
)
    requires
        ancestor.len() > 0,
        descends(rest),
        lies_under(below(ancestor, rest), cwd),
        components_of(ancestor).len() <= i < components_of(below(ancestor, rest)).len(),
    ensures
        components_of(below(ancestor, rest))[i] != ".."@,
{
    if rest.len() > 0 {
        if absolute(rest) {
            assert(components_of(rest)[0] == "/"@);
        }
        law_join_lies_under(ancestor, rest);
        let names = named_segments(split_on(rest, '/'));
        let k = i - components_of(ancestor).len();
        let shift = components_of(rest).len() - names.len();
        assert(components_of(rest)[shift + k] == names[k]);
    }
}

/// A file is changed only after it was read whole and while it is what was read.
pub proof fn law_changes_need_a_whole_and_current_read(
    records: Map<Seq<char>, FileReadRecord>,
    path: Seq<char>,
    existing: Seq<char>,
)
    ensures
        change_refusal(records, path, existing) is None <==> records.contains_key(path)
            && !records[path].is_partial_view && records[path].content@ == existing,
{
}

/// Of two keys the first counts where it holds a text, and the second only where
/// the first does not.
pub proof fn law_the_first_key_counts(arguments: JsonView, first: Seq<char>, second: Seq<char>)
    ensures
        arguments.text_member(first) is Some ==> text_under(arguments, first, second)
            == arguments.text_member(first),
        arguments.text_member(first) is None ==> text_under(arguments, first, second)
            == arguments.text_member(second),
        arguments.unsigned_member(first) matches Some(n) ==> n <= usize::MAX ==> (size_under(
            arguments,
            first,
            second,
        ) matches Some(size) && size == n),
        arguments.unsigned_member(first) is None ==> (arguments.unsigned_member(second) matches Some(
            n,
        ) ==> n <= usize::MAX ==> (size_under(arguments, first, second) matches Some(size) && size
            == n)),
        arguments.unsigned_member(first) is None && arguments.unsigned_member(second) is None
            ==> size_under(arguments, first, second) is None,
{
}

/// As many results are wanted as `max_results` says, and two hundred where it
/// says nothing.
pub proof fn law_result_limits_are_taken(arguments: JsonView)
    ensures
        match arguments.unsigned_member("max_results"@) {
            Some(n) => n <= usize::MAX ==> result_limit(arguments) == n,
            None => result_limit(arguments) == 200,
        },
{
}

/// The schema of an object names its type, its properties and the required ones,
/// each under its key.
pub proof fn law_schemas_are_found_by_key(
    properties: Seq<(Seq<char>, JsonView)>,
    required: Seq<Seq<char>>,
)
    ensures
        object_schema(properties, required).text_member("type"@) == Some("object"@),
        object_schema(properties, required).member("properties"@) == Some(
            JsonView::Object(properties),
        ),
        object_schema(properties, required).member("required"@) matches Some(JsonView::Array(names))
            && names.len() == required.len() && forall|i: int|
            0 <= i < names.len() ==> (#[trigger] names[i]).text() == Some(required[i]),
{
    reveal_strlit("type");
    reveal_strlit("properties");
    reveal_strlit("required");
    assert("type"@.len() == 4 && "properties"@.len() == 10 && "required"@.len() == 8);
    let members = object_schema(properties, required)->Object_0;
    lemma_member_at(members, "type"@, 0);
    lemma_member_at(members, "properties"@, 1);
    lemma_member_at(members, "required"@, 2);
}

/// A path below an ancestor leads through the ancestor's components and then
/// through the steps of the rest; without a rest it is the ancestor.
pub proof fn law_paths_below_an_ancestor(ancestor: Seq<char>, rest: Seq<char>)
    requires
        ancestor.len() > 0,
        !absolute(rest),
    ensures
        lies_under(below(ancestor, rest), ancestor),
        components_of(below(ancestor, rest)) == components_of(ancestor) + named_segments(
            split_on(rest, '/'),
        ),
        rest.len() == 0 ==> below(ancestor, rest) == ancestor,
{
    law_join_lies_under(ancestor, rest);
    law_lying_under_is_an_order(ancestor, ancestor, ancestor);
    if rest.len() == 0 {
        reveal_with_fuel(named_segments, 2);
        assert(split_on(rest, '/') =~= seq![Seq::<char>::empty()]);
        assert(seq![Seq::<char>::empty()].drop_last() =~= Seq::empty());
        assert(components_of(ancestor) + named_segments(split_on(rest, '/')) =~= components_of(
            ancestor,
        ));
    }
}

/// However far a search for a path has climbed, what is looked at and what was
/// found absent are the components of the path, in order.
pub proof fn law_climbing_loses_no_component(path: Seq<char>, cwd: Seq<char>, kept: nat)
    requires
        0 < kept <= components_of(path).len(),
    ensures
        ({
            let climb = ClimbView { cwd, parts: components_of(path), kept };
            components_of(climb.tried()) + components_of(climb.rest()) == components_of(path)
        }),
{
    let parts = components_of(path);
    let climb = ClimbView { cwd, parts, kept };
    let first = parts.take(kept as int);
    let second = parts.skip(kept as int);
    law_components_are_proper(path);
    assert forall|i: int| 0 <= i < first.len() implies {
        &&& (#[trigger] first[i]).len() > 0
        &&& i > 0 ==> first[i] != "."@
        &&& i == 0 && first[i] == "/"@ || !first[i].contains('/')
    } by {
        assert(first[i] == parts[i]);
    }
    assert forall|i: int| 0 <= i < second.len() implies {
        &&& (#[trigger] second[i]).len() > 0
        &&& i > 0 ==> second[i] != "."@
        &&& i == 0 && second[i] == "/"@ || !second[i].contains('/')
    } by {
        assert(second[i] == parts[i + kept]);
    }
    law_paths_are_made_of_their_components(first);
    law_paths_are_made_of_their_components(second);
    assert(first + second =~= parts);
}

/// A change that is refused is refused for what stands in its way: the file was
/// never read, only part of it was, or it has changed since.
pub proof fn law_refused_changes_say_why(
    records: Map<Seq<char>, FileReadRecord>,
    path: Seq<char>,
    existing: Seq<char>,
)
    ensures
        !records.contains_key(path) ==> change_refusal(records, path, existing) == Some(
            "file has not been read yet; read it with Read first"@,
        ),
        records.contains_key(path) && records[path].is_partial_view ==> change_refusal(
            records,
            path,
            existing,
        ) == Some("only part of the file has been read; read the whole file with Read first"@),
        records.contains_key(path) && !records[path].is_partial_view && records[path].content@
            != existing ==> change_refusal(records, path, existing) == Some(
            "file has changed since it was read; read it again with Read first"@,
        ),
{
}

/// A missing argument is told by its name.
pub proof fn law_missing_arguments_are_named(arguments: JsonView, key: Seq<char>)
    ensures
        text_refusal(arguments, key) is None <==> arguments.text_member(key) is Some,
        text_refusal(arguments, key) matches Some(error) ==> (error matches ErrorView::Other(
            message,
        ) && contains_text(message, key)),
        path_refusal(arguments) is None <==> arguments.text_member("file_path"@) is Some
            || arguments.text_member("path"@) is Some,
        path_refusal(arguments) matches Some(error) ==> (error matches ErrorView::Other(message)
            && contains_text(message, "file_path"@)),
{
    law_occurrences_split_the_text("missing required string argument `"@, key, "`"@);
    law_occurrences_split_the_text("missing required string argument `"@, "file_path"@, "`"@);
}

/// A path that is refused is told together with the directory that it leaves.
pub proof fn law_outside_paths_are_named(path: Seq<char>, cwd: Seq<char>)
    ensures
        outside_cwd(path, cwd) matches ErrorView::Other(message) && contains_text(message, path)
            && cwd.is_suffix_of(message),
        dangling(path) matches ErrorView::Other(message) && contains_text(message, path),
{
    let between = " is outside the working directory "@;
    let message = "path "@ + path + between + cwd;
    law_occurrences_split_the_text("path "@, path, between + cwd);
    assert("path "@ + path + (between + cwd) =~= message);
    assert(message.subrange(message.len() - cwd.len(), message.len() as int) =~= cwd);
    law_occurrences_split_the_text("path "@, path, " is a link that leads nowhere"@);
}

} // verus!
