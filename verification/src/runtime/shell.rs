//! The shell tool: from arguments to a command, and from its outcome to a
//! result.

use vstd::prelude::*;

use crate::engine::error::{ErrorView, ExecutionError};
use crate::engine::tool::{Tool, ToolDefinition, ToolOutput};
use crate::json::{
    items_view, last_member, lemma_array_view, lemma_member_at, lemma_object_view, members_view,
    with_member, Json, JsonNumber, JsonView, NumberView,
};
use crate::text::{join, joined, texts};
use crate::text_map::TextMap;

verus! {

/// Sandbox resource ceilings applied to a spawned process.
#[derive(Debug, Clone, Copy, PartialEq, Eq)]
pub struct ResourceLimits {
    /// Virtual memory ceiling per process, in bytes.
    pub memory_bytes: Option<u64>,
    /// CPU seconds per process.
    pub cpu_seconds: Option<u64>,
    /// Maximum processes the same user may have.
    pub process_count: Option<u64>,
    /// Maximum stdout captured; excess output is drained and discarded.
    pub max_stdout: usize,
    /// Maximum stderr captured; excess output is drained and discarded.
    pub max_stderr: usize,
}

impl Default for ResourceLimits {
    fn default() -> (limits: Self)
        ensures
            limits == (ResourceLimits {
                memory_bytes: None,
                cpu_seconds: None,
                process_count: None,
                max_stdout: 1_048_576,
                max_stderr: 1_048_576,
            }),
    {
        ResourceLimits {
            memory_bytes: None,
            cpu_seconds: None,
            process_count: None,
            max_stdout: 1_048_576,
            max_stderr: 1_048_576,
        }
    }
}

/// A fully resolved command.
#[derive(Debug, PartialEq, Eq)]
pub struct CommandSpec {
    /// Program and arguments; the first element names the executable.
    pub argv: Vec<String>,
    /// Working directory. The backend falls back to its own where absent.
    pub cwd: Option<String>,
    /// Environment applied on top of the backend's base environment.
    pub env: TextMap<String>,
    /// Resource ceilings; unset entries fall back to the backend's.
    pub limits: ResourceLimits,
}

/// The texts of a map.
pub open spec fn env_view(env: Map<Seq<char>, String>) -> Map<Seq<char>, Seq<char>> {
    Map::new(|key: Seq<char>| env.contains_key(key), |key: Seq<char>| env[key]@)
}

/// Structured outcome of a command execution.
#[derive(Debug, PartialEq, Eq)]
pub struct CommandOutput {
    /// Exit code, or `None` where the process ended on a signal or was killed.
    pub exit_code: Option<i32>,
    /// Terminating signal, where the process ended on a signal.
    pub signal: Option<i32>,
    /// Captured standard output.
    pub stdout: String,
    /// Captured standard error.
    pub stderr: String,
    /// Whether stdout or stderr exceeded its capture ceiling.
    pub truncated: bool,
    /// Whether the command was killed by cancellation rather than exiting.
    pub terminated: bool,
    /// Wall-clock nanoseconds from spawn until the process was reaped.
    pub duration: u128,
}

/// Whether every value of a list is a string.
pub open spec fn all_text(items: Seq<JsonView>) -> bool {
    forall|i: int| 0 <= i < items.len() ==> (#[trigger] items[i]) is Text
}

/// The strings of a list of strings.
pub open spec fn text_items(items: Seq<JsonView>) -> Seq<Seq<char>> {
    Seq::new(items.len(), |i: int| items[i]->Text_0)
}

/// The command line in some arguments, or why there is none.
pub open spec fn argv_of(arguments: JsonView) -> Result<Seq<Seq<char>>, Seq<char>> {
    match arguments.member("argv"@) {
        Some(JsonView::Array(items)) => if items.len() == 0 {
            Err("shell: `argv` must not be empty"@)
        } else if all_text(items) {
            Ok(text_items(items))
        } else {
            Err("shell: `argv` entries must be strings"@)
        },
        _ => Err("shell: `argv` must be a non-empty array"@),
    }
}

/// The required non-empty command line.
pub fn argv_from(arguments: &Json) -> (argv: Result<Vec<String>, ExecutionError>)
    ensures
        match (argv, argv_of(arguments@)) {
            (Ok(argv), Ok(wanted)) => texts(argv@) == wanted,
            (Err(error), Err(message)) => error@ == ErrorView::Other(message),
            _ => false,
        },
{
    broadcast use lemma_array_view;
    let items = match arguments.get("argv") {
        Some(Json::Array(items)) => items,
        _ => {
            return Err(
                ExecutionError::Other("shell: `argv` must be a non-empty array".to_owned()),
            );
        },
    };
    let ghost all = items_view(items@);
    if items.len() == 0 {
        return Err(ExecutionError::Other("shell: `argv` must not be empty".to_owned()));
    }
    let mut argv: Vec<String> = Vec::new();
    let mut i: usize = 0;
    while i < items.len()
        invariant
            i <= items@.len(),
            all == items_view(items@),
            arguments@.member("argv"@) == Some(JsonView::Array(all)),
            all.len() > 0,
            argv@.len() == i,
            forall|j: int| 0 <= j < i ==> (#[trigger] all[j]) is Text && argv@[j]@ == all[j]->Text_0,
        decreases items.len() - i,
    {
        assert(all[i as int] == items@[i as int]@);
        match items[i].as_str() {
            Some(text) => argv.push(text.to_owned()),
            None => {
                return Err(
                    ExecutionError::Other("shell: `argv` entries must be strings".to_owned()),
                );
            },
        }
        i += 1;
    }
    assert(texts(argv@) =~= text_items(all));
    Ok(argv)
}

/// The variables that some arguments ask for: the string members of `env`.
pub open spec fn env_of(arguments: JsonView) -> Map<Seq<char>, Seq<char>> {
    match arguments.member("env"@) {
        Some(JsonView::Object(members)) => asked_env(members),
        _ => Map::empty(),
    }
}

/// The string members of an object, where the last member of a name counts.
pub open spec fn asked_env(members: Seq<(Seq<char>, JsonView)>) -> Map<Seq<char>, Seq<char>> {
    Map::new(
        |key: Seq<char>| last_member(members, key) matches Some(value) && value is Text,
        |key: Seq<char>| last_member(members, key)->0->Text_0,
    )
}

/// The variables that some arguments ask for.
fn env_from(arguments: &Json) -> (env: TextMap<String>)
    ensures
        env_view(env@) == env_of(arguments@),
{
    broadcast use lemma_object_view;
    let mut env: TextMap<String> = TextMap::new();
    if let Some(Json::Object(members)) = arguments.get("env") {
        let ghost all = members_view(members@);
        let mut i: usize = 0;
        assert(env_view(env@) =~= asked_env(all.take(0)));
        while i < members.len()
            invariant
                i <= members@.len(),
                all == members_view(members@),
                env_view(env@) == asked_env(all.take(i as int)),
            decreases members.len() - i,
        {
            let ghost before = env_view(env@);
            let ghost seen = all.take(i as int);
            let ghost more = all.take(i + 1);
            proof {
                assert(more.drop_last() =~= seen);
                assert(more.last() == all[i as int]);
                assert(all[i as int] == (members@[i as int].0@, members@[i as int].1@));
            }
            let key = &members[i].0;
            match members[i].1.as_str() {
                Some(text) => {
                    let value = text.to_owned();
                    let ghost old_env = env@;
                    env.insert(key.clone(), value);
                    proof {
                        assert(env_view(env@) =~= before.insert(key@, text@));
                        assert(asked_env(more) =~= before.insert(key@, text@)) by {
                            assert forall|k: Seq<char>|
                                asked_env(more).contains_key(k) <==> before.insert(
                                    key@,
                                    text@,
                                ).contains_key(k) by {
                                assert(before.contains_key(k) == asked_env(seen).contains_key(k));
                            }
                        }
                    }
                },
                None => {
                    env.remove(key.as_str());
                    proof {
                        assert(env_view(env@) =~= before.remove(key@));
                        assert(asked_env(more) =~= before.remove(key@)) by {
                            assert forall|k: Seq<char>|
                                asked_env(more).contains_key(k) <==> before.remove(
                                    key@,
                                ).contains_key(k) by {
                                assert(before.contains_key(k) == asked_env(seen).contains_key(k));
                            }
                        }
                    }
                },
            }
            i += 1;
        }
        assert(all.take(i as int) =~= all);
    } else {
        assert(env_view(env@) =~= env_of(arguments@));
    }
    env
}

/// The ceilings that some arguments ask for.
pub open spec fn limits_of(arguments: JsonView) -> ResourceLimits {
    ResourceLimits {
        memory_bytes: arguments.unsigned_member("memory_bytes"@),
        cpu_seconds: arguments.unsigned_member("cpu_seconds"@),
        process_count: arguments.unsigned_member("process_count"@),
        max_stdout: 1_048_576,
        max_stderr: 1_048_576,
    }
}

/// The command that some arguments ask for.
pub fn command_from(arguments: &Json) -> (command: Result<CommandSpec, ExecutionError>)
    ensures
        match (command, argv_of(arguments@)) {
            (Ok(spec), Ok(argv)) => {
                &&& texts(spec.argv@) == argv
                &&& match spec.cwd {
                    Some(cwd) => arguments@.text_member("cwd"@) == Some(cwd@),
                    None => arguments@.text_member("cwd"@) is None,
                }
                &&& env_view(spec.env@) == env_of(arguments@)
                &&& spec.limits == limits_of(arguments@)
                &&& spec.limits.memory_bytes == arguments@.unsigned_member("memory_bytes"@)
                &&& spec.limits.cpu_seconds == arguments@.unsigned_member("cpu_seconds"@)
                &&& spec.limits.process_count == arguments@.unsigned_member("process_count"@)
                &&& spec.limits.max_stdout == 1_048_576
                &&& spec.limits.max_stderr == 1_048_576
            },
            (Err(error), Err(message)) => error@ == ErrorView::Other(message),
            _ => false,
        },
{
    let argv = match argv_from(arguments) {
        Ok(argv) => argv,
        Err(error) => {
            return Err(error);
        },
    };
    let defaults = ResourceLimits::default();
    let cwd = match arguments.get_str("cwd") {
        Some(cwd) => Some(cwd.to_owned()),
        None => None,
    };
    Ok(
        CommandSpec {
            argv,
            cwd,
            env: env_from(arguments),
            limits: ResourceLimits {
                memory_bytes: arguments.get_u64("memory_bytes"),
                cpu_seconds: arguments.get_u64("cpu_seconds"),
                process_count: arguments.get_u64("process_count"),
                max_stdout: defaults.max_stdout,
                max_stderr: defaults.max_stderr,
            },
        },
    )
}

/// An optional number as JSON.
pub open spec fn optional_number(n: Option<i32>) -> JsonView {
    match n {
        None => JsonView::Null,
        Some(n) => if n >= 0 {
            JsonView::Number(NumberView::Unsigned(n as u64))
        } else {
            JsonView::Number(NumberView::Negative(n as i64))
        },
    }
}

fn number_json(n: Option<i32>) -> (json: Json)
    ensures
        json@ == optional_number(n),
{
    match n {
        None => Json::Null,
        Some(n) => if n >= 0 {
            Json::Number(JsonNumber::Unsigned(n as u64))
        } else {
            Json::Number(JsonNumber::Negative(n as i64))
        },
    }
}

/// The result of the shell tool.
pub open spec fn output_view(output: CommandOutput) -> JsonView {
    JsonView::Object(
        seq![
            ("exit_code"@, optional_number(output.exit_code)),
            ("signal"@, optional_number(output.signal)),
            ("stdout"@, JsonView::Text(output.stdout@)),
            ("stderr"@, JsonView::Text(output.stderr@)),
            ("truncated"@, JsonView::Bool(output.truncated)),
            ("terminated"@, JsonView::Bool(output.terminated)),
            (
                "duration_ms"@,
                JsonView::Number(NumberView::Unsigned((output.duration / 1_000_000) as u64)),
            ),
        ],
    )
}

/// The result of the shell tool. A command that failed is a result like any
/// other: its exit code tells.
pub fn output_json(output: &CommandOutput) -> (result: ToolOutput)
    requires
        output.duration / 1_000_000 <= u64::MAX,
    ensures
        result.content@ == output_view(*output),
        result.content@.text_member("stdout"@) == Some(output.stdout@),
        result.content@.text_member("stderr"@) == Some(output.stderr@),
        result.content@.member("exit_code"@) == Some(optional_number(output.exit_code)),
        result.content@.member("signal"@) == Some(optional_number(output.signal)),
        result.content@.member("truncated"@) == Some(JsonView::Bool(output.truncated)),
        result.content@.member("terminated"@) == Some(JsonView::Bool(output.terminated)),
        result.content@.unsigned_member("duration_ms"@) == Some(
            (output.duration / 1_000_000) as u64,
        ),
{
    let members = with_member(Vec::new(), "exit_code", number_json(output.exit_code));
    let members = with_member(members, "signal", number_json(output.signal));
    let members = with_member(members, "stdout", Json::text(output.stdout.as_str()));
    let members = with_member(members, "stderr", Json::text(output.stderr.as_str()));
    let members = with_member(members, "truncated", Json::Bool(output.truncated));
    let members = with_member(members, "terminated", Json::Bool(output.terminated));
    let ms: u64 = (output.duration / 1_000_000) as u64;
    let members = with_member(members, "duration_ms", Json::unsigned(ms));
    assert(members_view(Seq::empty()) =~= Seq::empty());
    assert(members_view(members@) =~= output_view(*output)->Object_0);
    proof {
        law_outcomes_are_found_by_key(*output);
    }
    ToolOutput::json(Json::object(members))
}

/// The shell tool. `S` is the backend that runs its commands.
pub struct ShellTool<S> {
    name: String,
    description: String,
    shell: S,
    exclusive: bool,
}

/// What a [`ShellTool`] stands for.
pub struct ShellToolView<S> {
    pub name: Seq<char>,
    pub description: Seq<char>,
    pub shell: S,
    pub exclusive: bool,
}

impl<S> View for ShellTool<S> {
    type V = ShellToolView<S>;

    closed spec fn view(&self) -> ShellToolView<S> {
        ShellToolView {
            name: self.name@,
            description: self.description@,
            shell: self.shell,
            exclusive: self.exclusive,
        }
    }
}

impl<S> ShellTool<S> {
    pub fn new(shell: S) -> (tool: Self)
        ensures
            tool@ == (ShellToolView {
                name: "shell"@,
                description: "runs a command on the execution backend"@,
                shell,
                exclusive: false,
            }),
    {
        ShellTool {
            name: "shell".to_owned(),
            description: "runs a command on the execution backend".to_owned(),
            shell,
            exclusive: false,
        }
    }

    pub fn with_name(self, name: String) -> (tool: Self)
        ensures
            tool@ == (ShellToolView { name: name@, ..self@ }),
    {
        ShellTool {
            name,
            description: self.description,
            shell: self.shell,
            exclusive: self.exclusive,
        }
    }

    pub fn with_description(self, description: String) -> (tool: Self)
        ensures
            tool@ == (ShellToolView { description: description@, ..self@ }),
    {
        ShellTool { name: self.name, description, shell: self.shell, exclusive: self.exclusive }
    }

    /// Makes the tool require the exclusive execution slot.
    pub fn exclusive(self) -> (tool: Self)
        ensures
            tool@ == (ShellToolView { exclusive: true, ..self@ }),
    {
        ShellTool {
            name: self.name,
            description: self.description,
            shell: self.shell,
            exclusive: true,
        }
    }

    pub fn shell(&self) -> (shell: &S)
        ensures
            *shell == self@.shell,
    {
        &self.shell
    }
}

/// A schema that asks for a type.
pub open spec fn type_schema(kind: Seq<char>) -> JsonView {
    JsonView::Object(seq![("type"@, JsonView::Text(kind))])
}

/// A schema that asks for a type.
pub fn type_json(kind: &str) -> (schema: Json)
    ensures
        schema@ == type_schema(kind@),
{
    let members = with_member(Vec::new(), "type", Json::text(kind));
    assert(members_view(Seq::empty()) =~= Seq::empty());
    assert(members_view(members@) =~= type_schema(kind@)->Object_0);
    Json::object(members)
}

/// A schema that asks for an integer that is not negative.
pub open spec fn count_schema() -> JsonView {
    JsonView::Object(
        seq![
            ("type"@, JsonView::Text("integer"@)),
            ("minimum"@, JsonView::Number(NumberView::Unsigned(0))),
        ],
    )
}

fn count_json() -> (schema: Json)
    ensures
        schema@ == count_schema(),
{
    let members = with_member(Vec::new(), "type", Json::text("integer"));
    let members = with_member(members, "minimum", Json::unsigned(0));
    assert(members_view(Seq::empty()) =~= Seq::empty());
    assert(members_view(members@) =~= count_schema()->Object_0);
    Json::object(members)
}

/// The input schema of the shell tool.
pub open spec fn shell_schema() -> JsonView {
    JsonView::Object(
        seq![
            ("type"@, JsonView::Text("object"@)),
            ("required"@, JsonView::Array(seq![JsonView::Text("argv"@)])),
            (
                "properties"@,
                JsonView::Object(
                    seq![
                        (
                            "argv"@,
                            JsonView::Object(
                                seq![
                                    ("type"@, JsonView::Text("array"@)),
                                    ("items"@, type_schema("string"@)),
                                    ("minItems"@, JsonView::Number(NumberView::Unsigned(1))),
                                ],
                            ),
                        ),
                        ("cwd"@, type_schema("string"@)),
                        (
                            "env"@,
                            JsonView::Object(
                                seq![
                                    ("type"@, JsonView::Text("object"@)),
                                    ("additionalProperties"@, type_schema("string"@)),
                                ],
                            ),
                        ),
                        ("memory_bytes"@, count_schema()),
                        ("cpu_seconds"@, count_schema()),
                        ("process_count"@, count_schema()),
                    ],
                ),
            ),
        ],
    )
}

fn shell_schema_json() -> (schema: Json)
    ensures
        schema@ == shell_schema(),
{
    assert(members_view(Seq::empty()) =~= Seq::empty());
    let argv = with_member(Vec::new(), "type", Json::text("array"));
    let argv = with_member(argv, "items", type_json("string"));
    let argv = with_member(argv, "minItems", Json::unsigned(1));
    let env = with_member(Vec::new(), "type", Json::text("object"));
    let env = with_member(env, "additionalProperties", type_json("string"));
    let mut required: Vec<Json> = Vec::new();
    required.push(Json::text("argv"));
    assert(items_view(required@) =~= seq![JsonView::Text("argv"@)]);
    let ghost schema = shell_schema()->Object_0;
    let ghost properties = schema[2].1->Object_0;
    assert(members_view(argv@) =~= properties[0].1->Object_0);
    assert(members_view(env@) =~= properties[2].1->Object_0);
    let all = with_member(Vec::new(), "argv", Json::object(argv));
    let all = with_member(all, "cwd", type_json("string"));
    let all = with_member(all, "env", Json::object(env));
    let all = with_member(all, "memory_bytes", count_json());
    let all = with_member(all, "cpu_seconds", count_json());
    let all = with_member(all, "process_count", count_json());
    assert(members_view(all@) =~= properties);
    let members = with_member(Vec::new(), "type", Json::text("object"));
    let members = with_member(members, "required", Json::array(required));
    let members = with_member(members, "properties", Json::object(all));
    assert(members_view(members@) =~= schema);
    Json::object(members)
}

impl<S> Tool for ShellTool<S> {
    fn definition(&self) -> (definition: ToolDefinition)
        ensures
            definition@.name == self@.name,
            definition@.description == self@.description,
            definition@.input_schema == shell_schema(),
    {
        ToolDefinition {
            name: self.name.clone(),
            description: self.description.clone(),
            input_schema: shell_schema_json(),
        }
    }

    fn is_concurrency_safe(&self, arguments: &Json) -> (safe: bool)
        ensures
            safe == !self@.exclusive,
    {
        !self.exclusive
    }

    fn invocation_detail(&self, arguments: &Json) -> (detail: String)
        ensures
            detail@ == match argv_of(arguments@) {
                Ok(argv) => joined(argv, " "@),
                Err(_) => self@.name,
            },
    {
        match argv_from(arguments) {
            Ok(argv) => join(&argv, " "),
            Err(_) => self.name.clone(),
        }
    }
}

proof fn lemma_output_keys()
    ensures
        "exit_code"@ != "signal"@,
        "exit_code"@ != "stdout"@,
        "exit_code"@ != "stderr"@,
        "exit_code"@ != "truncated"@,
        "exit_code"@ != "terminated"@,
        "exit_code"@ != "duration_ms"@,
        "signal"@ != "stdout"@,
        "signal"@ != "stderr"@,
        "signal"@ != "truncated"@,
        "signal"@ != "terminated"@,
        "signal"@ != "duration_ms"@,
        "stdout"@ != "stderr"@,
        "stdout"@ != "truncated"@,
        "stdout"@ != "terminated"@,
        "stdout"@ != "duration_ms"@,
        "stderr"@ != "truncated"@,
        "stderr"@ != "terminated"@,
        "stderr"@ != "duration_ms"@,
        "truncated"@ != "terminated"@,
        "truncated"@ != "duration_ms"@,
        "terminated"@ != "duration_ms"@,
{
    reveal_strlit("exit_code");
    reveal_strlit("signal");
    reveal_strlit("stdout");
    reveal_strlit("stderr");
    reveal_strlit("truncated");
    reveal_strlit("terminated");
    reveal_strlit("duration_ms");
    assert("exit_code"@.len() == 9 && "truncated"@.len() == 9);
    assert("exit_code"@[0] == 'e' && "truncated"@[0] == 't');
    assert("signal"@.len() == 6 && "stdout"@.len() == 6 && "stderr"@.len() == 6);
    assert("signal"@[1] == 'i' && "stdout"@[1] == 't' && "stderr"@[1] == 't');
    assert("stdout"@[3] == 'o' && "stderr"@[3] == 'e');
    assert("terminated"@.len() == 10 && "duration_ms"@.len() == 11);
}

/// Everything that a command came to is in its result, each under its own key:
/// what it wrote to standard output and to standard error, its exit code, the
/// signal that ended it, whether output was cut, whether it was killed, and how
/// many milliseconds it ran.
pub proof fn law_outcomes_are_found_by_key(output: CommandOutput)
    ensures
        output_view(output).text_member("stdout"@) == Some(output.stdout@),
        output_view(output).text_member("stderr"@) == Some(output.stderr@),
        output_view(output).member("exit_code"@) == Some(optional_number(output.exit_code)),
        output_view(output).member("signal"@) == Some(optional_number(output.signal)),
        output_view(output).member("truncated"@) == Some(JsonView::Bool(output.truncated)),
        output_view(output).member("terminated"@) == Some(JsonView::Bool(output.terminated)),
        output_view(output).unsigned_member("duration_ms"@) == Some(
            (output.duration / 1_000_000) as u64,
        ),
{
    lemma_output_keys();
    let members = output_view(output)->Object_0;
    lemma_member_at(members, "exit_code"@, 0);
    lemma_member_at(members, "signal"@, 1);
    lemma_member_at(members, "stdout"@, 2);
    lemma_member_at(members, "stderr"@, 3);
    lemma_member_at(members, "truncated"@, 4);
    lemma_member_at(members, "terminated"@, 5);
    lemma_member_at(members, "duration_ms"@, 6);
}

/// A number that is there is told as that number, and one that is not as
/// `null`: two numbers that differ are told differently.
pub proof fn law_optional_numbers_are_kept(n: Option<i32>)
    ensures
        match (n, optional_number(n)) {
            (None, JsonView::Null) => true,
            (Some(n), JsonView::Number(NumberView::Unsigned(told))) => n >= 0 && told == n,
            (Some(n), JsonView::Number(NumberView::Negative(told))) => n < 0 && told == n,
            _ => false,
        },
{
}

/// Outcomes that differ in anything but a fraction of a millisecond give
/// results that differ.
pub proof fn law_outcomes_are_told_apart(a: CommandOutput, b: CommandOutput)
    requires
        output_view(a) == output_view(b),
        a.duration / 1_000_000 <= u64::MAX,
        b.duration / 1_000_000 <= u64::MAX,
    ensures
        a.exit_code == b.exit_code,
        a.signal == b.signal,
        a.stdout@ == b.stdout@,
        a.stderr@ == b.stderr@,
        a.truncated == b.truncated,
        a.terminated == b.terminated,
        a.duration / 1_000_000 == b.duration / 1_000_000,
{
    law_outcomes_are_found_by_key(a);
    law_outcomes_are_found_by_key(b);
    law_optional_numbers_are_kept(a.exit_code);
    law_optional_numbers_are_kept(b.exit_code);
    law_optional_numbers_are_kept(a.signal);
    law_optional_numbers_are_kept(b.signal);
}

/// A command line is taken word for word: where `argv` lists some texts, at
/// least one, the command is exactly these, in this order.
pub proof fn law_command_lines_are_taken_whole(arguments: JsonView, words: Seq<Seq<char>>)
    requires
        words.len() > 0,
        arguments.member("argv"@) == Some(
            JsonView::Array(Seq::new(words.len(), |i: int| JsonView::Text(words[i]))),
        ),
    ensures
        argv_of(arguments) == Ok::<Seq<Seq<char>>, Seq<char>>(words),
{
    let items = Seq::new(words.len(), |i: int| JsonView::Text(words[i]));
    assert(text_items(items) =~= words);
}

/// A command line that is no list, is empty, or holds anything but texts is
/// refused.
pub proof fn law_bad_command_lines_are_refused(arguments: JsonView)
    ensures
        argv_of(arguments) is Err <==> match arguments.member("argv"@) {
            Some(JsonView::Array(items)) => items.len() == 0 || exists|i: int|
                0 <= i < items.len() && !((#[trigger] items[i]) is Text),
            _ => true,
        },
{
}

/// The variables of a command are the texts that `env` holds, each under its
/// name and no others; without an object there are none.
pub proof fn law_variables_are_taken_by_name(arguments: JsonView, name: Seq<char>)
    ensures
        match arguments.member("env"@) {
            Some(env) if env is Object => match env.text_member(name) {
                Some(value) => env_of(arguments).contains_pair(name, value),
                None => !env_of(arguments).contains_key(name),
            },
            _ => !env_of(arguments).contains_key(name),
        },
{
}

/// The texts of a map are its values, each under its key.
pub proof fn law_variables_are_seen_whole(env: Map<Seq<char>, String>, key: Seq<char>)
    ensures
        env_view(env).contains_key(key) <==> env.contains_key(key),
        env.contains_key(key) ==> env_view(env)[key] == env[key]@,
{
}

/// The ceilings that some arguments ask for are the numbers under their keys.
pub proof fn law_ceilings_are_taken_by_name(arguments: JsonView)
    ensures
        limits_of(arguments).memory_bytes == arguments.unsigned_member("memory_bytes"@),
        limits_of(arguments).cpu_seconds == arguments.unsigned_member("cpu_seconds"@),
        limits_of(arguments).process_count == arguments.unsigned_member("process_count"@),
        limits_of(arguments).max_stdout == 1_048_576,
        limits_of(arguments).max_stderr == 1_048_576,
{
}

proof fn lemma_shell_keys()
    ensures
        "argv"@ != "cwd"@,
        "argv"@ != "env"@,
        "argv"@ != "memory_bytes"@,
        "argv"@ != "cpu_seconds"@,
        "argv"@ != "process_count"@,
        "cwd"@ != "env"@,
        "cwd"@ != "memory_bytes"@,
        "cwd"@ != "cpu_seconds"@,
        "cwd"@ != "process_count"@,
        "env"@ != "memory_bytes"@,
        "env"@ != "cpu_seconds"@,
        "env"@ != "process_count"@,
        "memory_bytes"@ != "cpu_seconds"@,
        "memory_bytes"@ != "process_count"@,
        "cpu_seconds"@ != "process_count"@,
        "type"@ != "required"@,
        "type"@ != "properties"@,
        "required"@ != "properties"@,
        "type"@ != "items"@,
        "type"@ != "minItems"@,
        "type"@ != "minimum"@,
        "type"@ != "additionalProperties"@,
{
    reveal_strlit("argv");
    reveal_strlit("cwd");
    reveal_strlit("env");
    reveal_strlit("memory_bytes");
    reveal_strlit("cpu_seconds");
    reveal_strlit("process_count");
    reveal_strlit("type");
    reveal_strlit("required");
    reveal_strlit("properties");
    reveal_strlit("items");
    reveal_strlit("minItems");
    reveal_strlit("minimum");
    reveal_strlit("additionalProperties");
    assert("argv"@.len() == 4 && "memory_bytes"@.len() == 12);
    assert("cpu_seconds"@.len() == 11 && "process_count"@.len() == 13);
    assert("cwd"@[0] == 'c' && "env"@[0] == 'e');
    assert("type"@.len() == 4 && "required"@.len() == 8 && "properties"@.len() == 10);
    assert("items"@.len() == 5 && "minItems"@.len() == 8 && "minimum"@.len() == 7);
    assert("additionalProperties"@.len() == 20);
}

/// The schema of the shell tool requires a command line, a list, and asks for a
/// directory, variables and three ceilings, each of its type.
pub proof fn law_shell_schema_asks_for_a_command()
    ensures
        shell_schema().text_member("type"@) == Some("object"@),
        shell_schema().member("required"@) matches Some(JsonView::Array(names)) && names.len() == 1
            && names[0].text() == Some("argv"@),
        shell_schema().member("properties"@) matches Some(properties) && {
            &&& properties.member("argv"@) matches Some(argv) && argv.text_member("type"@) == Some(
                "array"@,
            )
            &&& properties.member("cwd"@) matches Some(cwd) && cwd.text_member("type"@) == Some(
                "string"@,
            )
            &&& properties.member("env"@) matches Some(env) && env.text_member("type"@) == Some(
                "object"@,
            )
            &&& properties.member("memory_bytes"@) matches Some(memory) && memory.text_member(
                "type"@,
            ) == Some("integer"@)
            &&& properties.member("cpu_seconds"@) matches Some(seconds) && seconds.text_member(
                "type"@,
            ) == Some("integer"@)
            &&& properties.member("process_count"@) matches Some(count) && count.text_member(
                "type"@,
            ) == Some("integer"@)
        },
{
    lemma_shell_keys();
    let members = shell_schema()->Object_0;
    lemma_member_at(members, "type"@, 0);
    lemma_member_at(members, "required"@, 1);
    lemma_member_at(members, "properties"@, 2);
    let properties = members[2].1->Object_0;
    lemma_member_at(properties, "argv"@, 0);
    lemma_member_at(properties, "cwd"@, 1);
    lemma_member_at(properties, "env"@, 2);
    lemma_member_at(properties, "memory_bytes"@, 3);
    lemma_member_at(properties, "cpu_seconds"@, 4);
    lemma_member_at(properties, "process_count"@, 5);
    lemma_member_at(properties[0].1->Object_0, "type"@, 0);
    lemma_member_at(type_schema("string"@)->Object_0, "type"@, 0);
    lemma_member_at(properties[2].1->Object_0, "type"@, 0);
    lemma_member_at(count_schema()->Object_0, "type"@, 0);
}

} // verus!
