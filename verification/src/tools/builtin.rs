//! The tools of a session: the built-in ones, the shell, and those of plugins.

use vstd::prelude::*;

use crate::engine::error::ExecutionError;
use crate::engine::execution::outcome_error;
use crate::engine::registry::{RegisteredView, ToolRegistry};
use crate::engine::tool::{Tool, ToolDefinition};
use crate::json::{lemma_member_at, Json, JsonView};
use crate::plugin::manifest::{PluginToolManifest, ToolManifestView};
use crate::plugin::supervisor::ExternalToolAdapter;
use crate::protocol::model::DescriptorView;
use crate::runtime::shell::{argv_of, shell_schema, type_schema, ShellTool, ShellToolView};
use crate::text::joined;
use crate::tools::file_edit::{edit_refusal, edit_schema, FileEditTool};
use crate::tools::file_read::{
    described, law_descriptions_are_found_by_key, read_schema, FileReadTool, READ_DESCRIPTION,
};
use crate::tools::file_write::{write_refusal, write_schema, FileWriteTool};
use crate::tools::glob::{glob_schema, GlobTool};
use crate::tools::grep::{grep_schema, GrepTool};
use crate::tools::shared::{
    law_schemas_are_found_by_key, path_refusal, text_refusal, text_under,
    DEFAULT_MAX_FILE_READ_BYTES,
};
use crate::tools::web_fetch::{fetch_schema, WebFetchTool};

verus! {

/// A tool of a session. `S` is the record of what was read, `H` the backend of
/// the shell, `P` what runs a plugin.
pub enum SessionTool<S, H, P> {
    Read(FileReadTool<S>),
    Write(FileWriteTool<S>),
    Edit(FileEditTool<S>),
    Glob(GlobTool),
    Grep(GrepTool),
    WebFetch(WebFetchTool),
    Shell(ShellTool<H>),
    Plugin(ExternalToolAdapter<P>),
}

impl<S, H, P> Tool for SessionTool<S, H, P> {
    fn definition(&self) -> (definition: ToolDefinition)
        ensures
            match *self {
                SessionTool::Read(tool) => core_definition("Read"@) == Some(definition@),
                SessionTool::Write(tool) => core_definition("Write"@) == Some(definition@),
                SessionTool::Edit(tool) => core_definition("Edit"@) == Some(definition@),
                SessionTool::Glob(tool) => core_definition("Glob"@) == Some(definition@),
                SessionTool::Grep(tool) => core_definition("Grep"@) == Some(definition@),
                SessionTool::WebFetch(tool) => core_definition("WebFetch"@) == Some(definition@),
                SessionTool::Shell(tool) => definition@ == (DescriptorView {
                    name: tool@.name,
                    description: tool@.description,
                    input_schema: shell_schema(),
                }),
                SessionTool::Plugin(tool) => definition@ == (DescriptorView {
                    name: tool.tool()@.name,
                    description: tool.tool()@.description,
                    input_schema: tool.tool()@.input_schema,
                }),
            },
    {
        proof {
            lemma_core_names();
        }
        match self {
            SessionTool::Read(tool) => tool.definition(),
            SessionTool::Write(tool) => tool.definition(),
            SessionTool::Edit(tool) => tool.definition(),
            SessionTool::Glob(tool) => tool.definition(),
            SessionTool::Grep(tool) => tool.definition(),
            SessionTool::WebFetch(tool) => tool.definition(),
            SessionTool::Shell(tool) => tool.definition(),
            SessionTool::Plugin(tool) => tool.definition(),
        }
    }

    fn is_concurrency_safe(&self, arguments: &Json) -> (safe: bool)
        ensures
            match *self {
                SessionTool::Write(_) | SessionTool::Edit(_) => !safe,
                SessionTool::Shell(tool) => safe == !tool@.exclusive,
                SessionTool::Plugin(tool) => safe == tool.tool()@.concurrency_safe,
                _ => safe,
            },
    {
        match self {
            SessionTool::Read(tool) => tool.is_concurrency_safe(arguments),
            SessionTool::Write(tool) => tool.is_concurrency_safe(arguments),
            SessionTool::Edit(tool) => tool.is_concurrency_safe(arguments),
            SessionTool::Glob(tool) => tool.is_concurrency_safe(arguments),
            SessionTool::Grep(tool) => tool.is_concurrency_safe(arguments),
            SessionTool::WebFetch(tool) => tool.is_concurrency_safe(arguments),
            SessionTool::Shell(tool) => tool.is_concurrency_safe(arguments),
            SessionTool::Plugin(tool) => tool.is_concurrency_safe(arguments),
        }
    }

    fn invocation_detail(&self, arguments: &Json) -> (detail: String)
        ensures
            match *self {
                SessionTool::Glob(_) | SessionTool::Grep(_) => detail@ == text_or_empty(
                    arguments@.text_member("pattern"@),
                ),
                SessionTool::WebFetch(_) => detail@ == text_or_empty(
                    arguments@.text_member("url"@),
                ),
                SessionTool::Shell(tool) => detail@ == match argv_of(
                    arguments@,
                ) {
                    Ok(argv) => joined(argv, " "@),
                    Err(_) => tool@.name,
                },
                SessionTool::Plugin(tool) => detail@ == tool.tool()@.name,
                _ => detail@ == text_or_empty(
                    text_under(arguments@, "file_path"@, "path"@),
                ),
            },
    {
        match self {
            SessionTool::Read(tool) => tool.invocation_detail(arguments),
            SessionTool::Write(tool) => tool.invocation_detail(arguments),
            SessionTool::Edit(tool) => tool.invocation_detail(arguments),
            SessionTool::Glob(tool) => tool.invocation_detail(arguments),
            SessionTool::Grep(tool) => tool.invocation_detail(arguments),
            SessionTool::WebFetch(tool) => tool.invocation_detail(arguments),
            SessionTool::Shell(tool) => tool.invocation_detail(arguments),
            SessionTool::Plugin(tool) => tool.invocation_detail(arguments),
        }
    }

    fn validate(&self, arguments: &Json) -> (outcome: Result<(), ExecutionError>)
        ensures
            outcome_error(outcome) == match *self {
                SessionTool::Read(_) => path_refusal(arguments@),
                SessionTool::Write(_) => write_refusal(arguments@),
                SessionTool::Edit(_) => edit_refusal(arguments@),
                SessionTool::Glob(_) | SessionTool::Grep(_) => text_refusal(
                    arguments@,
                    "pattern"@,
                ),
                _ => None,
            },
    {
        match self {
            SessionTool::Read(tool) => tool.validate(arguments),
            SessionTool::Write(tool) => tool.validate(arguments),
            SessionTool::Edit(tool) => tool.validate(arguments),
            SessionTool::Glob(tool) => tool.validate(arguments),
            SessionTool::Grep(tool) => tool.validate(arguments),
            SessionTool::WebFetch(tool) => tool.validate(arguments),
            SessionTool::Shell(tool) => tool.validate(arguments),
            SessionTool::Plugin(tool) => tool.validate(arguments),
        }
    }
}

/// A text, or nothing.
pub open spec fn text_or_empty(text: Option<Seq<char>>) -> Seq<char> {
    match text {
        Some(text) => text,
        None => Seq::empty(),
    }
}

/// What the built-in tools declare, by name.
pub open spec fn core_definition(name: Seq<char>) -> Option<DescriptorView> {
    if name == "Read"@ {
        Some(
            DescriptorView { name, description: READ_DESCRIPTION@, input_schema: read_schema() },
        )
    } else if name == "Write"@ {
        Some(
            DescriptorView {
                name,
                description:
                    "Create or overwrite a UTF-8 text file. Existing files must be read first with Read."@,
                input_schema: write_schema(),
            },
        )
    } else if name == "Edit"@ {
        Some(
            DescriptorView {
                name,
                description:
                    "Replace a text that occurs exactly once in a file. Read the file first with Read."@,
                input_schema: edit_schema(),
            },
        )
    } else if name == "Glob"@ {
        Some(
            DescriptorView {
                name,
                description:
                    "List files matching a glob pattern under the current working directory."@,
                input_schema: glob_schema(),
            },
        )
    } else if name == "Grep"@ {
        Some(
            DescriptorView {
                name,
                description: "Search UTF-8 files for a literal text pattern."@,
                input_schema: grep_schema(),
            },
        )
    } else if name == "WebFetch"@ {
        Some(
            DescriptorView {
                name,
                description:
                    "Fetch a URL and convert to text. HTTP upgraded to HTTPS. Results cached for 15 min per URL."@,
                input_schema: fetch_schema(),
            },
        )
    } else {
        None
    }
}

/// The names of the built-in tools differ.
proof fn lemma_core_names()
    ensures
        "Read"@ != "Write"@,
        "Read"@ != "Edit"@,
        "Read"@ != "Glob"@,
        "Read"@ != "Grep"@,
        "Read"@ != "WebFetch"@,
        "Write"@ != "Edit"@,
        "Write"@ != "Glob"@,
        "Write"@ != "Grep"@,
        "Write"@ != "WebFetch"@,
        "Edit"@ != "Glob"@,
        "Edit"@ != "Grep"@,
        "Edit"@ != "WebFetch"@,
        "Glob"@ != "Grep"@,
        "Glob"@ != "WebFetch"@,
        "Grep"@ != "WebFetch"@,
{
    reveal_strlit("Read");
    reveal_strlit("Write");
    reveal_strlit("Edit");
    reveal_strlit("Glob");
    reveal_strlit("Grep");
    reveal_strlit("WebFetch");
    assert("Read"@[0] == 'R' && "Write"@[0] == 'W' && "Edit"@[0] == 'E' && "Glob"@[1] == 'l'
        && "Glob"@[0] == 'G' && "Grep"@[0] == 'G' && "Grep"@[1] == 'r' && "WebFetch"@[1] == 'e'
        && "WebFetch"@[0] == 'W' && "Write"@[1] == 'r');
}

/// Whether a tool is the built-in one named `name`, as it is set up: `Read`,
/// `Write` and `Edit` share the record of what was read.
pub open spec fn is_core_tool<S: Clone, H, P>(
    name: Seq<char>,
    tool: SessionTool<S, H, P>,
    read_file_state: S,
) -> bool {
    match tool {
        SessionTool::Read(tool) => name == "Read"@ && cloned(read_file_state, tool.state())
            && tool.max_bytes() == DEFAULT_MAX_FILE_READ_BYTES,
        SessionTool::Write(tool) => name == "Write"@ && cloned(read_file_state, tool.state()),
        SessionTool::Edit(tool) => name == "Edit"@ && cloned(read_file_state, tool.state()),
        SessionTool::Glob(_) => name == "Glob"@,
        SessionTool::Grep(tool) => name == "Grep"@ && tool.max_file_read_bytes
            == DEFAULT_MAX_FILE_READ_BYTES,
        SessionTool::WebFetch(tool) => name == "WebFetch"@ && tool@ == Map::<
            Seq<char>,
            (String, u128),
        >::empty(),
        _ => false,
    }
}

/// Registers every built-in tool. `Read`, `Write` and `Edit` share the record of
/// what was read.
pub fn register_core_tools<S: Clone, H, P>(
    registry: &mut ToolRegistry<SessionTool<S, H, P>>,
    read_file_state: S,
)
    ensures
        forall|name: Seq<char>| #[trigger]
            final(registry)@.contains_key(name) <==> old(registry)@.contains_key(name)
                || core_definition(name) is Some,
        forall|name: Seq<char>| #[trigger]
            final(registry)@.contains_key(name) && core_definition(name) is Some ==> Some(
                final(registry)@[name].definition,
            ) == core_definition(name) && is_core_tool(
                name,
                final(registry)@[name].implementation,
                read_file_state,
            ),
        forall|name: Seq<char>| #[trigger]
            final(registry)@.contains_key(name) && core_definition(name) is None ==> final(
                registry)@[name] == old(registry)@[name],
{
    proof {
        lemma_core_names();
    }
    registry.register(SessionTool::Read(FileReadTool::new(read_file_state.clone())));
    registry.register(SessionTool::Write(FileWriteTool::new(read_file_state.clone())));
    registry.register(SessionTool::Edit(FileEditTool::new(read_file_state.clone())));
    registry.register(SessionTool::Glob(GlobTool));
    registry.register(SessionTool::Grep(GrepTool::default()));
    registry.register(SessionTool::WebFetch(WebFetchTool::new()));
}

/// The registry of a session before its plugins: the built-in tools and the
/// shell, which takes the exclusive slot where `exclusive` says so.
pub fn session_registry<S: Clone, H, P>(read_file_state: S, shell: H, exclusive: bool) -> (registry:
    ToolRegistry<SessionTool<S, H, P>>)
    ensures
        forall|name: Seq<char>| #[trigger]
            registry@.contains_key(name) <==> core_definition(name) is Some || name == "shell"@,
        forall|name: Seq<char>| #[trigger]
            registry@.contains_key(name) && name != "shell"@ ==> Some(registry@[name].definition)
                == core_definition(name) && is_core_tool(
                name,
                registry@[name].implementation,
                read_file_state,
            ),
        registry@["shell"@].implementation matches SessionTool::Shell(tool) && tool@ == (
        ShellToolView {
            name: "shell"@,
            description: "runs a command on the execution backend"@,
            shell,
            exclusive,
        }),
        registry@["shell"@].definition == (DescriptorView {
            name: "shell"@,
            description: "runs a command on the execution backend"@,
            input_schema: shell_schema(),
        }),
{
    let mut registry: ToolRegistry<SessionTool<S, H, P>> = ToolRegistry::new();
    register_core_tools(&mut registry, read_file_state);
    let tool = if exclusive {
        ShellTool::new(shell).exclusive()
    } else {
        ShellTool::new(shell)
    };
    registry.register(SessionTool::Shell(tool));
    registry
}

/// What a tool of a plugin declares.
pub open spec fn plugin_definition(tool: ToolManifestView) -> DescriptorView {
    DescriptorView {
        name: tool.name,
        description: tool.description,
        input_schema: tool.input_schema,
    }
}

/// Whether one of the tools has this name.
pub open spec fn names_tool<P>(tools: Seq<(PluginToolManifest, P)>, name: Seq<char>) -> bool {
    exists|i: int| 0 <= i < tools.len() && (#[trigger] tools[i]).0@.name == name
}

/// Whether no later tool has the name of the tool at position `i`.
pub open spec fn last_of_its_name<P>(tools: Seq<(PluginToolManifest, P)>, i: int) -> bool {
    forall|j: int| i < j < tools.len() ==> (#[trigger] tools[j]).0@.name != tools[i].0@.name
}

/// Whether a tool is registered as that of a plugin.
pub open spec fn registered_as<S, H, P>(
    entry: RegisteredView<SessionTool<S, H, P>>,
    tool: (PluginToolManifest, P),
) -> bool {
    &&& entry.definition == plugin_definition(tool.0@)
    &&& entry.implementation matches SessionTool::Plugin(adapter) && adapter.tool() == tool.0
        && adapter.supervisor_view() == tool.1
}

/// Registers the tools of plugins, each with what runs it. A tool that is
/// registered under another name is left alone.
pub fn register_plugin_tools<S, H, P>(
    registry: &mut ToolRegistry<SessionTool<S, H, P>>,
    tools: Vec<(PluginToolManifest, P)>,
)
    ensures
        forall|name: Seq<char>| #[trigger]
            final(registry)@.contains_key(name) <==> old(registry)@.contains_key(name)
                || names_tool(tools@, name),
        forall|name: Seq<char>| #[trigger]
            final(registry)@.contains_key(name) && !names_tool(tools@, name) ==> final(
                registry)@[name] == old(registry)@[name],
        forall|i: int|
            0 <= i < tools@.len() && last_of_its_name(tools@, i) ==> registered_as(
                final(registry)@[(#[trigger] tools@[i]).0@.name],
                tools@[i],
            ),
{
    let ghost all = tools@;
    let ghost first = registry@;
    let mut rest = tools;
    let n: usize = rest.len();
    let mut i: usize = 0;
    assert(all.skip(0) =~= all);
    while i < n
        invariant
            i <= n == all.len(),
            rest@ == all.skip(i as int),
            forall|name: Seq<char>| #[trigger]
                registry@.contains_key(name) <==> first.contains_key(name) || names_tool(
                    all.take(i as int),
                    name,
                ),
            forall|name: Seq<char>| #[trigger]
                registry@.contains_key(name) && !names_tool(all.take(i as int), name)
                    ==> registry@[name] == first[name],
            forall|k: int|
                0 <= k < i && last_of_its_name(all.take(i as int), k) ==> registered_as(
                    registry@[(#[trigger] all[k]).0@.name],
                    all[k],
                ),
        decreases n - i,
    {
        let ghost before = registry@;
        let ghost seen = all.take(i as int);
        let ghost more = all.take(i + 1);
        let (tool, handle) = rest.remove(0);
        assert(rest@ =~= all.skip(i + 1));
        registry.register(SessionTool::Plugin(ExternalToolAdapter::new(tool, handle)));
        proof {
            assert(more =~= seen.push(all[i as int]));
            let added = all[i as int].0@.name;
            assert forall|name: Seq<char>| #[trigger] names_tool(more, name) <==> names_tool(
                seen,
                name,
            ) || name == added by {
                if names_tool(seen, name) {
                    let k = choose|k: int|
                        0 <= k < seen.len() && (#[trigger] seen[k]).0@.name == name;
                    assert(more[k].0@.name == name);
                }
                if names_tool(more, name) {
                    let k = choose|k: int|
                        0 <= k < more.len() && (#[trigger] more[k]).0@.name == name;
                    if k < i {
                        assert(seen[k].0@.name == name);
                    }
                }
                assert(more[i as int].0@.name == added);
            }
            assert forall|k: int|
                0 <= k < i + 1 && last_of_its_name(more, k) implies registered_as(
                registry@[(#[trigger] all[k]).0@.name],
                all[k],
            ) by {
                if k < i {
                    assert(more[i as int].0@.name != more[k].0@.name);
                    assert forall|j: int| k < j < seen.len() implies (#[trigger] seen[j]).0@.name
                        != seen[k].0@.name by {
                        assert(more[j].0@.name != more[k].0@.name);
                    }
                    assert(last_of_its_name(seen, k));
                    assert(registered_as(before[all[k].0@.name], all[k]));
                }
            }
        }
        i += 1;
    }
    assert(all.take(i as int) =~= all);
}

/// Registering the tools of plugins whose names clash with nothing loses no
/// tool: what was registered stays, and each tool of a plugin is found under its
/// name.
pub proof fn law_plugin_tools_join_the_others<S, H, P>(
    before: Map<Seq<char>, RegisteredView<SessionTool<S, H, P>>>,
    tools: Seq<(PluginToolManifest, P)>,
    after: Map<Seq<char>, RegisteredView<SessionTool<S, H, P>>>,
    i: int,
)
    requires
        forall|name: Seq<char>| #[trigger]
            after.contains_key(name) <==> before.contains_key(name) || names_tool(tools, name),
        forall|name: Seq<char>| #[trigger]
            after.contains_key(name) && !names_tool(tools, name) ==> after[name] == before[name],
        forall|k: int|
            0 <= k < tools.len() && last_of_its_name(tools, k) ==> registered_as(
                after[(#[trigger] tools[k]).0@.name],
                tools[k],
            ),
        forall|k: int|
            0 <= k < tools.len() ==> !before.contains_key((#[trigger] tools[k]).0@.name),
        forall|j: int, k: int|
            0 <= j < k < tools.len() ==> (#[trigger] tools[j]).0@.name != (#[trigger] tools[k]).0@.name,
        0 <= i < tools.len(),
    ensures
        before.submap_of(after),
        after.contains_key(tools[i].0@.name) && registered_as(after[tools[i].0@.name], tools[i]),
{
    assert forall|name: Seq<char>| #[trigger] before.contains_key(name) implies after.contains_key(
        name,
    ) && after[name] == before[name] by {
        assert(after.contains_key(name));
        if names_tool(tools, name) {
            let k = choose|k: int| 0 <= k < tools.len() && (#[trigger] tools[k]).0@.name == name;
            assert(!before.contains_key(tools[k].0@.name));
        }
    }
    assert(last_of_its_name(tools, i));
    assert(names_tool(tools, tools[i].0@.name));
    assert(after.contains_key(tools[i].0@.name));
}

/// Whether a schema asks for a property of a type.
pub open spec fn asks_for(schema: JsonView, key: Seq<char>, kind: Seq<char>) -> bool {
    schema.member("properties"@) matches Some(properties) && (properties.member(key) matches Some(
        property,
    ) && property.text_member("type"@) == Some(kind))
}

/// Whether a schema requires a property.
pub open spec fn demands(schema: JsonView, key: Seq<char>) -> bool {
    schema.member("required"@) matches Some(JsonView::Array(names)) && names.contains(
        JsonView::Text(key),
    )
}

proof fn lemma_typed(kind: Seq<char>)
    ensures
        type_schema(kind).text_member("type"@) == Some(kind),
{
    lemma_member_at(type_schema(kind)->Object_0, "type"@, 0);
}

proof fn lemma_described(kind: Seq<char>, description: Seq<char>)
    ensures
        described(kind, description).text_member("type"@) == Some(kind),
{
    law_descriptions_are_found_by_key(kind, description);
}

proof fn lemma_read_schema()
    ensures
        asks_for(read_schema(), "file_path"@, "string"@),
        asks_for(read_schema(), "offset"@, "integer"@),
        asks_for(read_schema(), "limit"@, "integer"@),
        demands(read_schema(), "file_path"@),
{
    reveal_strlit("file_path");
    reveal_strlit("offset");
    reveal_strlit("limit");
    assert("file_path"@.len() != "offset"@.len());
    assert("file_path"@.len() != "limit"@.len());
    assert("offset"@.len() != "limit"@.len());
    let properties = read_schema()->Object_0[1].1->Object_0;
    let names = read_schema()->Object_0[2].1->Array_0;
    let required = seq!["file_path"@];
    law_schemas_are_found_by_key(properties, required);
    lemma_member_at(properties, "file_path"@, 0);
    lemma_described("string"@, properties[0].1->Object_0[1].1->Text_0);
    lemma_member_at(properties, "offset"@, 1);
    lemma_described("integer"@, properties[1].1->Object_0[1].1->Text_0);
    lemma_member_at(properties, "limit"@, 2);
    lemma_described("integer"@, properties[2].1->Object_0[1].1->Text_0);
    assert(names[0] == JsonView::Text("file_path"@));
}

proof fn lemma_write_schema()
    ensures
        asks_for(write_schema(), "file_path"@, "string"@),
        asks_for(write_schema(), "content"@, "string"@),
        demands(write_schema(), "file_path"@),
        demands(write_schema(), "content"@),
{
    reveal_strlit("file_path");
    reveal_strlit("content");
    assert("file_path"@.len() != "content"@.len());
    let properties = write_schema()->Object_0[1].1->Object_0;
    let names = write_schema()->Object_0[2].1->Array_0;
    let required = seq!["file_path"@, "content"@];
    law_schemas_are_found_by_key(properties, required);
    lemma_member_at(properties, "file_path"@, 0);
    lemma_typed("string"@);
    lemma_member_at(properties, "content"@, 1);
    lemma_typed("string"@);
    assert(names[0] == JsonView::Text("file_path"@));
    assert(names[1] == JsonView::Text("content"@));
}

proof fn lemma_edit_schema()
    ensures
        asks_for(edit_schema(), "file_path"@, "string"@),
        asks_for(edit_schema(), "old_string"@, "string"@),
        asks_for(edit_schema(), "new_string"@, "string"@),
        demands(edit_schema(), "file_path"@),
        demands(edit_schema(), "old_string"@),
        demands(edit_schema(), "new_string"@),
{
    reveal_strlit("file_path");
    reveal_strlit("old_string");
    reveal_strlit("new_string");
    assert("file_path"@.len() != "old_string"@.len());
    assert("file_path"@.len() != "new_string"@.len());
    assert("old_string"@[0] != "new_string"@[0]);
    let properties = edit_schema()->Object_0[1].1->Object_0;
    let names = edit_schema()->Object_0[2].1->Array_0;
    let required = seq!["file_path"@, "old_string"@, "new_string"@];
    law_schemas_are_found_by_key(properties, required);
    lemma_member_at(properties, "file_path"@, 0);
    lemma_typed("string"@);
    lemma_member_at(properties, "old_string"@, 1);
    lemma_typed("string"@);
    lemma_member_at(properties, "new_string"@, 2);
    lemma_typed("string"@);
    assert(names[0] == JsonView::Text("file_path"@));
    assert(names[1] == JsonView::Text("old_string"@));
    assert(names[2] == JsonView::Text("new_string"@));
}

proof fn lemma_glob_schema()
    ensures
        asks_for(glob_schema(), "pattern"@, "string"@),
        asks_for(glob_schema(), "max_results"@, "integer"@),
        demands(glob_schema(), "pattern"@),
{
    reveal_strlit("pattern");
    reveal_strlit("max_results");
    assert("pattern"@.len() != "max_results"@.len());
    let properties = glob_schema()->Object_0[1].1->Object_0;
    let names = glob_schema()->Object_0[2].1->Array_0;
    let required = seq!["pattern"@];
    law_schemas_are_found_by_key(properties, required);
    lemma_member_at(properties, "pattern"@, 0);
    lemma_typed("string"@);
    lemma_member_at(properties, "max_results"@, 1);
    lemma_typed("integer"@);
    assert(names[0] == JsonView::Text("pattern"@));
}

proof fn lemma_grep_schema()
    ensures
        asks_for(grep_schema(), "pattern"@, "string"@),
        asks_for(grep_schema(), "glob"@, "string"@),
        asks_for(grep_schema(), "max_results"@, "integer"@),
        demands(grep_schema(), "pattern"@),
{
    reveal_strlit("pattern");
    reveal_strlit("glob");
    reveal_strlit("max_results");
    assert("pattern"@.len() != "glob"@.len());
    assert("pattern"@.len() != "max_results"@.len());
    assert("glob"@.len() != "max_results"@.len());
    let properties = grep_schema()->Object_0[1].1->Object_0;
    let names = grep_schema()->Object_0[2].1->Array_0;
    let required = seq!["pattern"@];
    law_schemas_are_found_by_key(properties, required);
    lemma_member_at(properties, "pattern"@, 0);
    lemma_typed("string"@);
    lemma_member_at(properties, "glob"@, 1);
    lemma_typed("string"@);
    lemma_member_at(properties, "max_results"@, 2);
    lemma_typed("integer"@);
    assert(names[0] == JsonView::Text("pattern"@));
}

proof fn lemma_fetch_schema()
    ensures
        asks_for(fetch_schema(), "url"@, "string"@),
        demands(fetch_schema(), "url"@),
{
    reveal_strlit("url");
    let properties = fetch_schema()->Object_0[1].1->Object_0;
    let names = fetch_schema()->Object_0[2].1->Array_0;
    let required = seq!["url"@];
    law_schemas_are_found_by_key(properties, required);
    lemma_member_at(properties, "url"@, 0);
    lemma_typed("string"@);
    assert(names[0] == JsonView::Text("url"@));
}

/// The schema of each built-in tool asks for the arguments that the tool reads,
/// each of its type, and requires those that the tool cannot do without.
pub proof fn law_schemas_ask_for_what_the_tools_read()
    ensures
        asks_for(read_schema(), "file_path"@, "string"@),
        asks_for(read_schema(), "offset"@, "integer"@),
        asks_for(read_schema(), "limit"@, "integer"@),
        demands(read_schema(), "file_path"@),
        asks_for(write_schema(), "file_path"@, "string"@),
        asks_for(write_schema(), "content"@, "string"@),
        demands(write_schema(), "file_path"@),
        demands(write_schema(), "content"@),
        asks_for(edit_schema(), "file_path"@, "string"@),
        asks_for(edit_schema(), "old_string"@, "string"@),
        asks_for(edit_schema(), "new_string"@, "string"@),
        demands(edit_schema(), "file_path"@),
        demands(edit_schema(), "old_string"@),
        demands(edit_schema(), "new_string"@),
        asks_for(glob_schema(), "pattern"@, "string"@),
        asks_for(glob_schema(), "max_results"@, "integer"@),
        demands(glob_schema(), "pattern"@),
        asks_for(grep_schema(), "pattern"@, "string"@),
        asks_for(grep_schema(), "glob"@, "string"@),
        asks_for(grep_schema(), "max_results"@, "integer"@),
        demands(grep_schema(), "pattern"@),
        asks_for(fetch_schema(), "url"@, "string"@),
        demands(fetch_schema(), "url"@),
{
    lemma_read_schema();
    lemma_write_schema();
    lemma_edit_schema();
    lemma_glob_schema();
    lemma_grep_schema();
    lemma_fetch_schema();
}

/// What a built-in tool declares is found under the name that it declares, and
/// there are six of them.
pub proof fn law_core_tools_are_found_by_name(name: Seq<char>)
    ensures
        core_definition(name) matches Some(definition) ==> definition.name == name,
        core_definition(name) is Some <==> name == "Read"@ || name == "Write"@ || name == "Edit"@
            || name == "Glob"@ || name == "Grep"@ || name == "WebFetch"@,
        core_definition("Read"@) matches Some(definition) && definition.input_schema
            == read_schema(),
        core_definition("Write"@) matches Some(definition) && definition.input_schema
            == write_schema(),
        core_definition("Edit"@) matches Some(definition) && definition.input_schema
            == edit_schema(),
        core_definition("Glob"@) matches Some(definition) && definition.input_schema
            == glob_schema(),
        core_definition("Grep"@) matches Some(definition) && definition.input_schema
            == grep_schema(),
        core_definition("WebFetch"@) matches Some(definition) && definition.input_schema
            == fetch_schema(),
{
    lemma_core_names();
}

/// A tool of a plugin declares what its manifest says of it.
pub proof fn law_plugin_tools_declare_their_manifest(tool: ToolManifestView)
    ensures
        plugin_definition(tool).name == tool.name,
        plugin_definition(tool).description == tool.description,
        plugin_definition(tool).input_schema == tool.input_schema,
{
}

/// `Read`, `Write` and `Edit` are set up with the record of what was read that
/// was given, and each built-in tool stands under its own name.
pub proof fn law_core_tools_share_the_record<S: Clone, H, P>(
    name: Seq<char>,
    tool: SessionTool<S, H, P>,
    read_file_state: S,
)
    requires
        is_core_tool(name, tool, read_file_state),
    ensures
        name == "Read"@ ==> (tool matches SessionTool::Read(tool) && cloned(
            read_file_state,
            tool.state(),
        )),
        name == "Write"@ ==> (tool matches SessionTool::Write(tool) && cloned(
            read_file_state,
            tool.state(),
        )),
        name == "Edit"@ ==> (tool matches SessionTool::Edit(tool) && cloned(
            read_file_state,
            tool.state(),
        )),
        name == "Glob"@ ==> tool is Glob,
        name == "Grep"@ ==> tool is Grep,
        name == "WebFetch"@ ==> tool is WebFetch,
{
    lemma_core_names();
}

/// The invocation of a tool is described by the text that its arguments give, or
/// by nothing.
pub proof fn law_descriptions_are_the_text_given(text: Option<Seq<char>>)
    ensures
        text matches Some(given) ==> text_or_empty(text) == given,
        text is None ==> text_or_empty(text).len() == 0,
{
}

} // verus!
