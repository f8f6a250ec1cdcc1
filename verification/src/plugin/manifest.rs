//! The manifest of a plugin package and its rules.

use vstd::prelude::*;

use crate::engine::registry::{schema_refusal, schema_compiles};
use crate::json::{Json, JsonView};
use crate::path::{descends, is_descending};
use crate::text::{
    chars_of, contains_char, contains_text, copy_texts, decimal, decimal_text, joined,
    law_joined_parts_split_again, law_occurrences_split_the_text, lemma_unsplit, split, split_on,
    texts,
};

verus! {

/// A tool that a package provides.
#[derive(Debug, PartialEq, Eq)]
pub struct PluginToolManifest {
    pub name: String,
    pub description: String,
    pub input_schema: Json,
    pub concurrency_safe: bool,
}

/// What a [`PluginToolManifest`] says.
pub struct ToolManifestView {
    pub name: Seq<char>,
    pub description: Seq<char>,
    pub input_schema: JsonView,
    pub concurrency_safe: bool,
}

impl View for PluginToolManifest {
    type V = ToolManifestView;

    open spec fn view(&self) -> ToolManifestView {
        ToolManifestView {
            name: self.name@,
            description: self.description@,
            input_schema: self.input_schema@,
            concurrency_safe: self.concurrency_safe,
        }
    }
}

impl Clone for PluginToolManifest {
    fn clone(&self) -> (copy: Self)
        ensures
            copy@ == self@,
    {
        PluginToolManifest {
            name: self.name.clone(),
            description: self.description.clone(),
            input_schema: self.input_schema.clone(),
            concurrency_safe: self.concurrency_safe,
        }
    }
}

/// What each tool of a list says.
pub open spec fn tools_view(tools: Seq<PluginToolManifest>) -> Seq<ToolManifestView> {
    Seq::new(tools.len(), |i: int| tools[i]@)
}

/// What a package declares about itself.
#[derive(Debug, PartialEq, Eq)]
pub struct PluginManifest {
    pub schema_version: u32,
    pub id: String,
    pub version: String,
    pub entrypoint: Vec<String>,
    pub required_commands: Vec<String>,
    pub max_concurrency: usize,
    pub tools: Vec<PluginToolManifest>,
}

/// What a [`PluginManifest`] says.
pub struct ManifestView {
    pub schema_version: u32,
    pub id: Seq<char>,
    pub version: Seq<char>,
    pub entrypoint: Seq<Seq<char>>,
    pub required_commands: Seq<Seq<char>>,
    pub max_concurrency: usize,
    pub tools: Seq<ToolManifestView>,
}

impl View for PluginManifest {
    type V = ManifestView;

    open spec fn view(&self) -> ManifestView {
        ManifestView {
            schema_version: self.schema_version,
            id: self.id@,
            version: self.version@,
            entrypoint: texts(self.entrypoint@),
            required_commands: texts(self.required_commands@),
            max_concurrency: self.max_concurrency,
            tools: tools_view(self.tools@),
        }
    }
}

impl Clone for PluginManifest {
    fn clone(&self) -> (copy: Self)
        ensures
            copy@ == self@,
    {
        let mut tools: Vec<PluginToolManifest> = Vec::new();
        let mut i: usize = 0;
        while i < self.tools.len()
            invariant
                i <= self.tools@.len(),
                tools@.len() == i,
                forall|j: int| 0 <= j < i ==> #[trigger] tools@[j]@ == self.tools@[j]@,
            decreases self.tools.len() - i,
        {
            tools.push(self.tools[i].clone());
            i += 1;
        }
        assert(tools_view(tools@) =~= tools_view(self.tools@));
        PluginManifest {
            schema_version: self.schema_version,
            id: self.id.clone(),
            version: self.version.clone(),
            entrypoint: copy_texts(&self.entrypoint),
            required_commands: copy_texts(&self.required_commands),
            max_concurrency: self.max_concurrency,
            tools,
        }
    }
}

/// What `semver` finds wrong with a version; `None` where it is one.
pub uninterp spec fn version_error(version: Seq<char>) -> Option<Seq<char>>;

/// `semver::Version::parse` reads a semantic version, or fails with an error,
/// whose sentence is returned. Both depend on the text alone and are named
/// [`version_error`].
#[verifier::external_body]
fn parse_version(version: &str) -> (error: Option<String>)
    ensures
        match error {
            Some(sentence) => version_error(version@) == Some(sentence@),
            None => version_error(version@) is None,
        },
{
    semver::Version::parse(version).err().map(|error| error.to_string())
}

/// A character of a plugin id other than the dot.
pub open spec fn id_char(c: char) -> bool {
    'a' <= c <= 'z' || '0' <= c <= '9' || c == '-'
}

/// Dot-separated lowercase identifiers: at least two parts, none empty, and at
/// most 128 characters in all.
pub open spec fn plugin_id(id: Seq<char>) -> bool {
    let parts = split_on(id, '.');
    &&& id.len() <= 128
    &&& parts.len() >= 2
    &&& forall|i: int| 0 <= i < parts.len() ==> id_part(#[trigger] parts[i])
}

/// One part of a plugin id.
pub open spec fn id_part(part: Seq<char>) -> bool {
    part.len() > 0 && forall|j: int| 0 <= j < part.len() ==> id_char(#[trigger] part[j])
}

/// A character of a tool name.
pub open spec fn name_char(c: char) -> bool {
    'a' <= c <= 'z' || 'A' <= c <= 'Z' || '0' <= c <= '9' || c == '_' || c == '-'
}

/// A tool name: 1 to 64 letters, digits, underscores and hyphens.
pub open spec fn tool_name(name: Seq<char>) -> bool {
    &&& 0 < name.len() <= 64
    &&& forall|j: int| 0 <= j < name.len() ==> name_char(#[trigger] name[j])
}

fn is_id_part(part: &str) -> (yes: bool)
    ensures
        yes == id_part(part@),
{
    let chars = chars_of(part);
    let mut j: usize = 0;
    while j < chars.len()
        invariant
            j <= chars@.len(),
            chars@ == part@,
            forall|k: int| 0 <= k < j ==> id_char(#[trigger] part@[k]),
        decreases chars.len() - j,
    {
        let c = chars[j];
        if !(('a' <= c && c <= 'z') || ('0' <= c && c <= '9') || c == '-') {
            assert(!id_char(part@[j as int]));
            return false;
        }
        j += 1;
    }
    chars.len() > 0
}

/// Whether `value` is a plugin id.
pub fn valid_plugin_id(value: &str) -> (yes: bool)
    ensures
        yes == plugin_id(value@),
{
    let parts = split(value, '.');
    let chars = chars_of(value);
    assert(texts(parts@).len() == parts@.len());
    if chars.len() > 128 || parts.len() < 2 {
        return false;
    }
    let mut i: usize = 0;
    while i < parts.len()
        invariant
            i <= parts@.len(),
            texts(parts@) == split_on(value@, '.'),
            forall|k: int| 0 <= k < i ==> id_part(#[trigger] split_on(value@, '.')[k]),
        decreases parts.len() - i,
    {
        assert(split_on(value@, '.')[i as int] == parts@[i as int]@);
        if !is_id_part(parts[i].as_str()) {
            return false;
        }
        i += 1;
    }
    true
}

/// Whether `value` is a tool name.
pub fn valid_tool_name(value: &str) -> (yes: bool)
    ensures
        yes == tool_name(value@),
{
    let chars = chars_of(value);
    if chars.len() == 0 || chars.len() > 64 {
        return false;
    }
    let mut j: usize = 0;
    while j < chars.len()
        invariant
            j <= chars@.len(),
            chars@ == value@,
            forall|k: int| 0 <= k < j ==> name_char(#[trigger] value@[k]),
        decreases chars.len() - j,
    {
        let c = chars[j];
        if !(('a' <= c && c <= 'z') || ('A' <= c && c <= 'Z') || ('0' <= c && c <= '9') || c == '_'
            || c == '-') {
            assert(!name_char(value@[j as int]));
            return false;
        }
        j += 1;
    }
    true
}

/// Why a manifest is refused: a sentence, or the schema of a tool, for which
/// the sentence goes on with what the schema compiler said.
pub enum Problem {
    Said(Seq<char>),
    Schema(Seq<char>),
}

/// Whether a list holds an empty text.
pub open spec fn holds_empty(list: Seq<Seq<char>>) -> bool {
    exists|i: int| 0 <= i < list.len() && (#[trigger] list[i]).len() == 0
}

/// Whether a text of a list holds a character.
pub open spec fn holds_char(list: Seq<Seq<char>>, c: char) -> bool {
    exists|i: int| 0 <= i < list.len() && (#[trigger] list[i]).contains(c)
}

/// What is wrong with the tool at position `i`.
pub open spec fn tool_problem(tools: Seq<ToolManifestView>, i: int) -> Option<Problem> {
    let name = tools[i].name;
    if !tool_name(name) {
        Some(Problem::Said("invalid tool name `"@ + name + "`"@))
    } else if exists|j: int| 0 <= j < i && (#[trigger] tools[j]).name == name {
        Some(Problem::Said("duplicate tool name `"@ + name + "`"@))
    } else if !schema_compiles(tools[i].input_schema) {
        Some(Problem::Schema(name))
    } else {
        None
    }
}

/// The first problem among the tools from position `i` on.
pub open spec fn tools_problem(tools: Seq<ToolManifestView>, i: int) -> Option<Problem>
    decreases tools.len() - i,
{
    if i < 0 || i >= tools.len() {
        None
    } else {
        match tool_problem(tools, i) {
            Some(problem) => Some(problem),
            None => tools_problem(tools, i + 1),
        }
    }
}

/// The first problem of a manifest; `None` where it is valid.
pub open spec fn manifest_problem(manifest: ManifestView) -> Option<Problem> {
    if manifest.schema_version != 1 {
        Some(
            Problem::Said("unsupported manifest schema "@ + decimal(manifest.schema_version as nat)),
        )
    } else if !plugin_id(manifest.id) {
        Some(Problem::Said("plugin id must be a dot-separated lowercase identifier"@))
    } else if version_error(manifest.version) is Some {
        Some(Problem::Said("invalid version: "@ + version_error(manifest.version)->0))
    } else if manifest.entrypoint.len() == 0 || manifest.entrypoint[0].len() == 0 {
        Some(Problem::Said("entrypoint must not be empty"@))
    } else if holds_char(manifest.entrypoint, '\0') {
        Some(Problem::Said("entrypoint contains NUL"@))
    } else if holds_empty(manifest.required_commands) {
        Some(Problem::Said("required_commands must not contain empty names"@))
    } else if manifest.max_concurrency == 0 {
        Some(Problem::Said("max_concurrency must be at least 1"@))
    } else if manifest.tools.len() == 0 {
        Some(Problem::Said("manifest must expose at least one tool"@))
    } else {
        tools_problem(manifest.tools, 0)
    }
}

/// Whether a sentence tells of a problem.
pub open spec fn tells_of(sentence: Seq<char>, problem: Problem) -> bool {
    match problem {
        Problem::Said(text) => sentence == text,
        Problem::Schema(name) => ("invalid schema for `"@ + name + "`: "@).is_prefix_of(sentence),
    }
}

/// The sentence for a schema that does not compile.
pub fn schema_sentence(tool: &str, error: &str) -> (sentence: String)
    ensures
        sentence@ == "invalid schema for `"@ + tool@ + "`: "@ + error@,
{
    "invalid schema for `".to_owned().concat(tool).concat("`: ").concat(error)
}

fn any_empty(list: &Vec<String>) -> (yes: bool)
    ensures
        yes == holds_empty(texts(list@)),
{
    let mut i: usize = 0;
    while i < list.len()
        invariant
            i <= list@.len(),
            forall|j: int| 0 <= j < i ==> (#[trigger] texts(list@)[j]).len() > 0,
        decreases list.len() - i,
    {
        if list[i].as_str().is_empty() {
            assert(texts(list@)[i as int].len() == 0);
            return true;
        }
        i += 1;
    }
    false
}

fn any_holds(list: &Vec<String>, c: char) -> (yes: bool)
    ensures
        yes == holds_char(texts(list@), c),
{
    let mut i: usize = 0;
    while i < list.len()
        invariant
            i <= list@.len(),
            forall|j: int| 0 <= j < i ==> !(#[trigger] texts(list@)[j]).contains(c),
        decreases list.len() - i,
    {
        if contains_char(list[i].as_str(), c) {
            assert(texts(list@)[i as int].contains(c));
            return true;
        }
        i += 1;
    }
    false
}

impl PluginManifest {
    /// The number of calls a package runs side by side where it says nothing.
    pub fn default_max_concurrency() -> (count: usize)
        ensures
            count == 1,
    {
        1
    }

    /// What a manifest is read as, given what decoding its text came to: the
    /// decoder's own error, or the first rule that the manifest breaks.
    pub fn parse(decoded: Result<Self, String>) -> (parsed: Result<Self, String>)
        ensures
            match (decoded, parsed) {
                (Err(error), Err(message)) => message@ == error@,
                (Ok(manifest), Ok(accepted)) => accepted == manifest && manifest_problem(
                    manifest@,
                ) is None,
                (Ok(manifest), Err(message)) => manifest_problem(manifest@) matches Some(problem)
                    && tells_of(message@, problem),
                (Err(_), Ok(_)) => false,
            },
    {
        match decoded {
            Err(error) => Err(error),
            Ok(manifest) => match manifest.validate() {
                Ok(_) => Ok(manifest),
                Err(message) => Err(message),
            },
        }
    }

    /// Whether `name` is the name of a tool before position `before`.
    fn names_earlier(&self, name: &str, before: usize) -> (yes: bool)
        requires
            before <= self.tools@.len(),
        ensures
            yes == exists|j: int| 0 <= j < before && (#[trigger] self@.tools[j]).name == name@,
    {
        let wanted = name.to_owned();
        let mut j: usize = 0;
        while j < before
            invariant
                j <= before <= self.tools@.len(),
                wanted@ == name@,
                forall|k: int| 0 <= k < j ==> (#[trigger] self@.tools[k]).name != name@,
            decreases before - j,
        {
            if self.tools[j].name == wanted {
                assert(self@.tools[j as int].name == name@);
                return true;
            }
            j += 1;
        }
        false
    }

    fn validate_tools(&self) -> (outcome: Result<(), String>)
        ensures
            match (outcome, tools_problem(self@.tools, 0)) {
                (Ok(_), None) => true,
                (Err(message), Some(problem)) => tells_of(message@, problem),
                _ => false,
            },
    {
        let mut i: usize = 0;
        while i < self.tools.len()
            invariant
                i <= self.tools@.len(),
                tools_problem(self@.tools, 0) == tools_problem(self@.tools, i as int),
            decreases self.tools.len() - i,
        {
            let tool = &self.tools[i];
            assert(self@.tools[i as int] == tool@);
            if !valid_tool_name(tool.name.as_str()) {
                return Err(
                    "invalid tool name `".to_owned().concat(tool.name.as_str()).concat("`"),
                );
            }
            if self.names_earlier(tool.name.as_str(), i) {
                return Err(
                    "duplicate tool name `".to_owned().concat(tool.name.as_str()).concat("`"),
                );
            }
            if let Some(error) = schema_refusal(&tool.input_schema) {
                let sentence = schema_sentence(tool.name.as_str(), error.as_str());
                proof {
                    let start = "invalid schema for `"@ + tool@.name + "`: "@;
                    assert(sentence@.take(start.len() as int) =~= start);
                }
                return Err(sentence);
            }
            i += 1;
        }
        Ok(())
    }

    /// Checks the rules in order; the first that is broken gives the sentence.
    pub fn validate(&self) -> (outcome: Result<(), String>)
        ensures
            match (outcome, manifest_problem(self@)) {
                (Ok(_), None) => true,
                (Err(message), Some(problem)) => tells_of(message@, problem),
                _ => false,
            },
    {
        if self.schema_version != 1 {
            let version = decimal_text(self.schema_version as u128);
            return Err("unsupported manifest schema ".to_owned().concat(version.as_str()));
        }
        if !valid_plugin_id(self.id.as_str()) {
            return Err("plugin id must be a dot-separated lowercase identifier".to_owned());
        }
        if let Some(error) = parse_version(self.version.as_str()) {
            return Err("invalid version: ".to_owned().concat(error.as_str()));
        }
        if self.entrypoint.len() == 0 || self.entrypoint[0].as_str().is_empty() {
            assert(self.entrypoint@.len() > 0 ==> self@.entrypoint[0].len() == 0);
            return Err("entrypoint must not be empty".to_owned());
        }
        assert(self@.entrypoint[0].len() > 0);
        if any_holds(&self.entrypoint, '\0') {
            return Err("entrypoint contains NUL".to_owned());
        }
        if any_empty(&self.required_commands) {
            return Err("required_commands must not contain empty names".to_owned());
        }
        if self.max_concurrency == 0 {
            return Err("max_concurrency must be at least 1".to_owned());
        }
        if self.tools.len() == 0 {
            return Err("manifest must expose at least one tool".to_owned());
        }
        self.validate_tools()
    }

    /// Whether the program is a file of the package: its path has a separator
    /// and stays below the package.
    pub fn entrypoint_is_local(&self) -> (yes: bool)
        requires
            self@.entrypoint.len() > 0,
        ensures
            yes == local_entrypoint(self@),
    {
        let program = &self.entrypoint[0];
        assert(self@.entrypoint[0] == program@);
        contains_char(program.as_str(), '/') && is_descending(program.as_str())
    }
}

/// Whether the program of a manifest is a file of the package.
pub open spec fn local_entrypoint(manifest: ManifestView) -> bool {
    manifest.entrypoint[0].contains('/') && descends(manifest.entrypoint[0])
}

/// In a manifest that is accepted every tool keeps its rules and no two tools
/// share a name, and the id and the number of calls keep theirs.
pub proof fn law_accepted_manifest(manifest: ManifestView, i: int, j: int)
    requires
        manifest_problem(manifest) is None,
        0 <= i < manifest.tools.len(),
        0 <= j < manifest.tools.len(),
    ensures
        i != j ==> manifest.tools[i].name != manifest.tools[j].name,
        tool_name(manifest.tools[i].name),
        schema_compiles(manifest.tools[i].input_schema),
        plugin_id(manifest.id),
        manifest.max_concurrency >= 1,
        manifest.entrypoint.len() > 0,
{
    lemma_no_tool_problem(manifest.tools, 0, i);
    lemma_no_tool_problem(manifest.tools, 0, j);
}

proof fn lemma_no_tool_problem(tools: Seq<ToolManifestView>, from: int, at: int)
    requires
        tools_problem(tools, from) is None,
        0 <= from <= at < tools.len(),
    ensures
        tool_problem(tools, at) is None,
    decreases at - from,
{
    if from < at {
        lemma_no_tool_problem(tools, from + 1, at);
    }
}

proof fn lemma_tools_without_problem(tools: Seq<ToolManifestView>, from: int)
    requires
        0 <= from <= tools.len(),
        forall|i: int| from <= i < tools.len() ==> #[trigger] tool_problem(tools, i) is None,
    ensures
        tools_problem(tools, from) is None,
    decreases tools.len() - from,
{
    if from < tools.len() {
        assert(tool_problem(tools, from) is None);
        lemma_tools_without_problem(tools, from + 1);
    }
}

/// A manifest is accepted exactly where it keeps every rule: its schema is known,
/// its id and version are such, it has a program, which holds no NUL, it requires
/// no command without a name, it runs at least one call at a time, and it has
/// tools, each with a proper name of its own and a schema that compiles.
pub proof fn law_manifests_are_accepted_by_the_rules(manifest: ManifestView)
    ensures
        manifest_problem(manifest) is None <==> {
            &&& manifest.schema_version == 1
            &&& plugin_id(manifest.id)
            &&& version_error(manifest.version) is None
            &&& manifest.entrypoint.len() > 0 && manifest.entrypoint[0].len() > 0
            &&& forall|i: int|
                0 <= i < manifest.entrypoint.len() ==> !(#[trigger] manifest.entrypoint[i]).contains(
                    '\0',
                )
            &&& forall|i: int|
                0 <= i < manifest.required_commands.len() ==> (
                #[trigger] manifest.required_commands[i]).len() > 0
            &&& manifest.max_concurrency >= 1
            &&& manifest.tools.len() > 0
            &&& forall|i: int|
                0 <= i < manifest.tools.len() ==> tool_name((#[trigger] manifest.tools[i]).name)
                    && schema_compiles(manifest.tools[i].input_schema)
            &&& forall|i: int, j: int|
                0 <= i < j < manifest.tools.len() ==> (#[trigger] manifest.tools[i]).name != (
                #[trigger] manifest.tools[j]).name
        },
{
    let tools = manifest.tools;
    if manifest_problem(manifest) is None {
        assert forall|i: int| 0 <= i < tools.len() implies tool_name((#[trigger] tools[i]).name)
            && schema_compiles(tools[i].input_schema) by {
            lemma_no_tool_problem(tools, 0, i);
        }
        assert forall|i: int, j: int| 0 <= i < j < tools.len() implies (#[trigger] tools[i]).name
            != (#[trigger] tools[j]).name by {
            lemma_no_tool_problem(tools, 0, j);
        }
    } else if tools_problem(tools, 0) is Some {
        if forall|i: int| 0 <= i < tools.len() ==> #[trigger] tool_problem(tools, i) is None {
            lemma_tools_without_problem(tools, 0);
        }
        let i = choose|i: int| 0 <= i < tools.len() && #[trigger] tool_problem(tools, i) is Some;
        assert(tool_problem(tools, i) is Some);
        assert(tools[i].name == tools[i].name);
    }
}

/// An id is made of at least two names with dots between them, each of small
/// letters, digits and hyphens, and has at most 128 characters: every such text
/// is an id.
pub proof fn law_dotted_names_are_ids(names: Seq<Seq<char>>)
    requires
        names.len() >= 2,
        forall|i: int| 0 <= i < names.len() ==> (#[trigger] names[i]).len() > 0,
        forall|i: int, j: int|
            0 <= i < names.len() && 0 <= j < names[i].len() ==> {
                let c = #[trigger] names[i][j];
                'a' <= c <= 'z' || '0' <= c <= '9' || c == '-'
            },
        joined(names, seq!['.']).len() <= 128,
    ensures
        plugin_id(joined(names, seq!['.'])),
{
    assert forall|i: int| 0 <= i < names.len() implies !(#[trigger] names[i]).contains('.') by {
        if names[i].contains('.') {
            let j = choose|j: int| 0 <= j < names[i].len() && names[i][j] == '.';
            assert(names[i][j] == '.');
        }
    }
    law_joined_parts_split_again(names, '.');
    assert forall|i: int| 0 <= i < names.len() implies id_part(#[trigger] names[i]) by {
        assert forall|j: int| 0 <= j < names[i].len() implies id_char(#[trigger] names[i][j]) by {}
    }
}

/// An id has at most 128 characters, at least one dot, and a name before, after
/// and between its dots: it splits into two or more names that are not empty.
pub proof fn law_ids_are_dotted_names(id: Seq<char>, i: int)
    requires
        plugin_id(id),
        0 <= i < split_on(id, '.').len(),
    ensures
        id.len() <= 128,
        id.contains('.'),
        split_on(id, '.')[i].len() > 0,
        forall|j: int|
            0 <= j < split_on(id, '.')[i].len() ==> {
                let c = #[trigger] split_on(id, '.')[i][j];
                'a' <= c <= 'z' || '0' <= c <= '9' || c == '-'
            },
{
    assert(id_part(split_on(id, '.')[i]));
    if !id.contains('.') {
        lemma_unsplit(id, '.');
    }
}

/// A tool is named by 1 to 64 letters, digits, underscores and hyphens, and by
/// nothing else.
pub proof fn law_tool_names(name: Seq<char>)
    ensures
        tool_name(name) <==> 1 <= name.len() <= 64 && forall|j: int|
            0 <= j < name.len() ==> {
                let c = #[trigger] name[j];
                'a' <= c <= 'z' || 'A' <= c <= 'Z' || '0' <= c <= '9' || c == '_' || c == '-'
            },
{
    if tool_name(name) {
        assert forall|j: int| 0 <= j < name.len() implies {
            let c = #[trigger] name[j];
            'a' <= c <= 'z' || 'A' <= c <= 'Z' || '0' <= c <= '9' || c == '_' || c == '-'
        } by {
            assert(name_char(name[j]));
        }
    } else if 1 <= name.len() <= 64 {
        let j = choose|j: int| 0 <= j < name.len() && !name_char(#[trigger] name[j]);
        assert(!name_char(name[j]));
    }
}

/// What a manifest says is all that it holds, and so is what each of its tools
/// says.
pub proof fn law_manifests_are_seen_whole(manifest: PluginManifest, i: int)
    requires
        0 <= i < manifest.tools@.len(),
    ensures
        manifest@.schema_version == manifest.schema_version,
        manifest@.id == manifest.id@,
        manifest@.version == manifest.version@,
        manifest@.entrypoint == texts(manifest.entrypoint@),
        manifest@.required_commands == texts(manifest.required_commands@),
        manifest@.max_concurrency == manifest.max_concurrency,
        manifest@.tools.len() == manifest.tools@.len(),
        manifest@.tools[i].name == manifest.tools@[i].name@,
        manifest@.tools[i].description == manifest.tools@[i].description@,
        manifest@.tools[i].input_schema == manifest.tools@[i].input_schema@,
        manifest@.tools[i].concurrency_safe == manifest.tools@[i].concurrency_safe,
{
}

/// The refusal of a manifest tells of the rule that it breaks, where it keeps
/// those before it: the schema by its number, the version with what is wrong
/// with it, a tool by its name.
pub proof fn law_refusals_tell_of_the_broken_rule(manifest: ManifestView, i: int)
    ensures
        manifest.schema_version != 1 ==> manifest_problem(manifest) == Some(
            Problem::Said("unsupported manifest schema "@ + decimal(manifest.schema_version as nat)),
        ),
        manifest.schema_version == 1 && !plugin_id(manifest.id) ==> manifest_problem(manifest)
            == Some(Problem::Said("plugin id must be a dot-separated lowercase identifier"@)),
        manifest.schema_version == 1 && plugin_id(manifest.id) ==> (version_error(manifest.version)
            matches Some(error) ==> manifest_problem(manifest) == Some(
            Problem::Said("invalid version: "@ + error),
        )),
        0 <= i < manifest.tools.len() && tools_problem(manifest.tools, i) is Some && (forall|k: int|
            0 <= k < i ==> #[trigger] tool_problem(manifest.tools, k) is None) && tool_problem(
            manifest.tools,
            i,
        ) is Some ==> tools_problem(manifest.tools, 0) == tool_problem(manifest.tools, i),
        0 <= i < manifest.tools.len() && !tool_name(manifest.tools[i].name) ==> tool_problem(
            manifest.tools,
            i,
        ) == Some(Problem::Said("invalid tool name `"@ + manifest.tools[i].name + "`"@)),
{
    if 0 <= i < manifest.tools.len() && (forall|k: int|
        0 <= k < i ==> #[trigger] tool_problem(manifest.tools, k) is None) {
        lemma_first_tool_problem(manifest.tools, 0, i);
    }
}

proof fn lemma_first_tool_problem(tools: Seq<ToolManifestView>, from: int, at: int)
    requires
        0 <= from <= at < tools.len(),
        forall|k: int| from <= k < at ==> #[trigger] tool_problem(tools, k) is None,
    ensures
        tools_problem(tools, from) == tools_problem(tools, at),
    decreases at - from,
{
    if from < at {
        assert(tool_problem(tools, from) is None);
        lemma_first_tool_problem(tools, from + 1, at);
    }
}

/// A sentence tells of a problem where it is what is said of it, or names the tool
/// whose schema is at fault.
pub proof fn law_sentences_tell_of_their_problem(sentence: Seq<char>, problem: Problem)
    requires
        tells_of(sentence, problem),
    ensures
        match problem {
            Problem::Said(text) => sentence == text,
            Problem::Schema(name) => contains_text(sentence, name),
        },
{
    if let Problem::Schema(name) = problem {
        let start = "invalid schema for `"@ + name + "`: "@;
        let rest = sentence.skip(start.len() as int);
        assert(sentence.take(start.len() as int) =~= start);
        law_occurrences_split_the_text("invalid schema for `"@, name, "`: "@ + rest);
        assert("invalid schema for `"@ + name + ("`: "@ + rest) =~= start + rest);
        assert(start + rest =~= sentence);
    }
}

} // verus!
