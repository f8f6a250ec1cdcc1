//! The local execution backend: how a process is set up, confined, captured and
//! ended.

use vstd::prelude::*;
use vstd::utf8::{decode_utf8, valid_utf8};

use crate::engine::error::{ErrorView, ExecutionError};
use crate::path::{is_under, lies_under};
use crate::runtime::shell::{env_view, CommandOutput, CommandSpec, ResourceLimits};
use crate::text::{from_utf8_lossy, lossy_text, texts};
use crate::text_map::{entries_map, TextMap};

verus! {

/// Configuration for a [`NativeShell`].
#[derive(Debug, PartialEq, Eq)]
pub struct NativeShellConfig {
    /// Whether commands start from the environment of this process.
    pub inherit_env: bool,
    /// Base environment applied to every command. Entries of the command take
    /// precedence.
    pub base_env: TextMap<String>,
    /// Fallback working directory where a command does not set one.
    pub cwd: Option<String>,
    /// The directory that no command may leave with its working directory.
    pub workspace_root: Option<String>,
    /// Default resource ceilings applied to every command.
    pub limits: ResourceLimits,
}

impl Default for NativeShellConfig {
    fn default() -> (config: Self)
        ensures
            !config.inherit_env,
            config.base_env@ == Map::<Seq<char>, String>::empty(),
            config.cwd is None,
            config.workspace_root is None,
            config.limits == (ResourceLimits {
                memory_bytes: None,
                cpu_seconds: None,
                process_count: None,
                max_stdout: 1_048_576,
                max_stderr: 1_048_576,
            }),
    {
        NativeShellConfig {
            inherit_env: false,
            base_env: TextMap::new(),
            cwd: None,
            workspace_root: None,
            limits: ResourceLimits::default(),
        }
    }
}

/// Runs commands on the local operating system.
pub struct NativeShell {
    config: NativeShellConfig,
}

/// How a process is set up. Its standard input is empty, its output is piped,
/// and it leads a process group of its own.
#[derive(Debug, PartialEq, Eq)]
pub struct SpawnPlan {
    pub program: String,
    pub args: Vec<String>,
    pub cwd: Option<String>,
    /// The whole environment.
    pub env: TextMap<String>,
    pub memory_bytes: Option<u64>,
    pub cpu_seconds: Option<u64>,
    pub process_count: Option<u64>,
}

/// The first of two values that is there.
pub open spec fn first_of<A>(first: Option<A>, second: Option<A>) -> Option<A> {
    match first {
        Some(value) => Some(value),
        None => second,
    }
}

fn limit_or(asked: Option<u64>, fallback: Option<u64>) -> (limit: Option<u64>)
    ensures
        limit == first_of(asked, fallback),
{
    match asked {
        Some(value) => Some(value),
        None => fallback,
    }
}

/// `env` with every variable of `more` set.
fn overlay(env: TextMap<String>, more: &TextMap<String>) -> (result: TextMap<String>)
    ensures
        env_view(result@) == env_view(env@).union_prefer_right(env_view(more@)),
{
    let mut result = env;
    let entries = more.entries();
    let ghost all = entries@;
    let mut i: usize = 0;
    assert(env_view(result@) =~= env_view(env@).union_prefer_right(
        env_view(entries_map(all.take(0))),
    ));
    while i < entries.len()
        invariant
            i <= entries@.len(),
            all == entries@,
            entries_map(all) == more@,
            env_view(result@) == env_view(env@).union_prefer_right(
                env_view(entries_map(all.take(i as int))),
            ),
        decreases entries.len() - i,
    {
        let ghost before = env_view(result@);
        let ghost seen = env_view(entries_map(all.take(i as int)));
        let key = entries[i].0.clone();
        let value = entries[i].1.clone();
        proof {
            let more_taken = all.take(i + 1);
            assert(more_taken.drop_last() =~= all.take(i as int));
            assert(more_taken.last() == all[i as int]);
            assert(env_view(entries_map(more_taken)) =~= seen.insert(key@, value@));
        }
        result.insert(key, value);
        i += 1;
        assert(env_view(result@) =~= before.insert(key@, value@));
        assert(before.insert(key@, value@) =~= env_view(env@).union_prefer_right(
            seen.insert(key@, value@),
        ));
    }
    assert(all.take(i as int) =~= all);
    result
}

/// The same variables.
pub fn copy_env(env: &TextMap<String>) -> (copy: TextMap<String>)
    ensures
        env_view(copy@) == env_view(env@),
{
    let empty: TextMap<String> = TextMap::new();
    assert(env_view(empty@) =~= Map::<Seq<char>, Seq<char>>::empty());
    let copy = overlay(empty, env);
    assert(env_view(copy@) =~= env_view(env@));
    copy
}

/// The working directory that a command runs in, before it is resolved.
pub open spec fn asked_directory(spec: Option<String>, fallback: Option<String>) -> Option<
    Seq<char>,
> {
    match first_of(spec, fallback) {
        Some(cwd) => Some(cwd@),
        None => None,
    }
}

impl NativeShell {
    pub closed spec fn config(self) -> NativeShellConfig {
        self.config
    }

    pub fn new(config: NativeShellConfig) -> (shell: Self)
        ensures
            shell.config() == config,
    {
        NativeShell { config }
    }

    /// A backend that inherits the environment of this process, for local use.
    pub fn local() -> (shell: Self)
        ensures
            shell.config().inherit_env,
            shell.config().base_env@ == Map::<Seq<char>, String>::empty(),
            shell.config().cwd is None,
            shell.config().workspace_root is None,
            shell.config().limits == (ResourceLimits {
                memory_bytes: None,
                cpu_seconds: None,
                process_count: None,
                max_stdout: 1_048_576,
                max_stderr: 1_048_576,
            }),
    {
        let defaults = NativeShellConfig::default();
        NativeShell { config: NativeShellConfig { inherit_env: true, ..defaults } }
    }

    /// Whether commands start from the environment of this process.
    pub fn inherits_env(&self) -> (yes: bool)
        ensures
            yes == self.config().inherit_env,
    {
        self.config.inherit_env
    }

    /// The environment of a command: what is inherited, if anything is, then the
    /// base environment, then the command's own entries, each over the one
    /// before.
    pub fn assemble_env(&self, spec: &CommandSpec, inherited: &TextMap<String>) -> (env: TextMap<
        String,
    >)
        ensures
            env_view(env@) == (if self.config().inherit_env {
                env_view(inherited@)
            } else {
                Map::empty()
            }).union_prefer_right(env_view(self.config().base_env@)).union_prefer_right(
                env_view(spec.env@),
            ),
    {
        let mut env: TextMap<String> = TextMap::new();
        assert(env_view(env@) =~= Map::<Seq<char>, Seq<char>>::empty());
        if self.config.inherit_env {
            env = overlay(env, inherited);
            assert(env_view(env@) =~= env_view(inherited@));
        }
        let env = overlay(env, &self.config.base_env);
        overlay(env, &spec.env)
    }

    /// The working directory of a command, to be resolved before it is used.
    pub fn directory(&self, spec: &CommandSpec) -> (cwd: Option<String>)
        ensures
            match cwd {
                Some(cwd) => asked_directory(spec.cwd, self.config().cwd) == Some(cwd@),
                None => asked_directory(spec.cwd, self.config().cwd) is None,
            },
    {
        match &spec.cwd {
            Some(cwd) => Some(cwd.clone()),
            None => match &self.config.cwd {
                Some(cwd) => Some(cwd.clone()),
                None => None,
            },
        }
    }

    /// Checks where a command would run: `resolved` is its working directory
    /// with every link followed, or why that failed. It must not lie outside the
    /// workspace.
    pub fn confine(&self, resolved: Result<String, String>) -> (cwd: Result<String, ExecutionError>)
        ensures
            match resolved {
                Err(error) => cwd matches Err(refusal) && refusal@ == ErrorView::Other(
                    "resolving working directory failed: "@ + error@,
                ),
                Ok(path) => match self.config().workspace_root {
                    Some(root) => if lies_under(path@, root@) {
                        cwd == Ok::<String, ExecutionError>(path)
                    } else {
                        cwd matches Err(refusal) && refusal@ == ErrorView::Other(
                            "working directory "@ + path@ + " is outside workspace "@ + root@,
                        )
                    },
                    None => cwd == Ok::<String, ExecutionError>(path),
                },
            },
    {
        match resolved {
            Err(error) => Err(
                ExecutionError::Other(
                    "resolving working directory failed: ".to_owned().concat(error.as_str()),
                ),
            ),
            Ok(path) => {
                if let Some(root) = &self.config.workspace_root {
                    if !is_under(path.as_str(), root.as_str()) {
                        let message = "working directory ".to_owned().concat(
                            path.as_str(),
                        ).concat(" is outside workspace ").concat(root.as_str());
                        return Err(ExecutionError::Other(message));
                    }
                }
                Ok(path)
            },
        }
    }

    /// How the process of a command is set up, in a directory that was checked.
    pub fn plan(&self, spec: &CommandSpec, cwd: Option<String>, inherited: &TextMap<String>) -> (
        plan: Result<SpawnPlan, ExecutionError>)
        ensures
            match plan {
                Ok(plan) => {
                    &&& spec.argv@.len() > 0
                    &&& plan.program@ == texts(spec.argv@)[0]
                    &&& texts(plan.args@) == texts(spec.argv@).skip(1)
                    &&& plan.cwd == cwd
                    &&& env_view(plan.env@) == (if self.config().inherit_env {
                        env_view(inherited@)
                    } else {
                        Map::empty()
                    }).union_prefer_right(env_view(self.config().base_env@)).union_prefer_right(
                        env_view(spec.env@),
                    )
                    &&& plan.memory_bytes == first_of(
                        spec.limits.memory_bytes,
                        self.config().limits.memory_bytes,
                    )
                    &&& plan.cpu_seconds == first_of(
                        spec.limits.cpu_seconds,
                        self.config().limits.cpu_seconds,
                    )
                    &&& plan.process_count == first_of(
                        spec.limits.process_count,
                        self.config().limits.process_count,
                    )
                },
                Err(error) => spec.argv@.len() == 0 && error@ == ErrorView::Other(
                    "command argv is empty"@,
                ),
            },
    {
        if spec.argv.len() == 0 {
            return Err(ExecutionError::Other("command argv is empty".to_owned()));
        }
        let mut args: Vec<String> = Vec::new();
        let mut i: usize = 1;
        while i < spec.argv.len()
            invariant
                1 <= i <= spec.argv@.len(),
                args@.len() == i - 1,
                forall|j: int| 0 <= j < args@.len() ==> #[trigger] args@[j]@ == spec.argv@[j + 1]@,
            decreases spec.argv.len() - i,
        {
            args.push(spec.argv[i].clone());
            i += 1;
        }
        assert(texts(args@) =~= texts(spec.argv@).skip(1));
        Ok(
            SpawnPlan {
                program: spec.argv[0].clone(),
                args,
                cwd,
                env: self.assemble_env(spec, inherited),
                memory_bytes: limit_or(spec.limits.memory_bytes, self.config.limits.memory_bytes),
                cpu_seconds: limit_or(spec.limits.cpu_seconds, self.config.limits.cpu_seconds),
                process_count: limit_or(
                    spec.limits.process_count,
                    self.config.limits.process_count,
                ),
            },
        )
    }
}

/// A process group that is to be killed unless its command was waited for.
pub struct GroupKiller {
    pgid: i32,
    armed: bool,
}

impl GroupKiller {
    /// The group to kill, if any.
    pub closed spec fn target_view(self) -> Option<i32> {
        if self.armed {
            Some(self.pgid)
        } else {
            None
        }
    }

    pub fn new(pgid: i32) -> (killer: Self)
        ensures
            killer.target_view() == Some(pgid),
    {
        GroupKiller { pgid, armed: true }
    }

    pub fn disarm(&mut self)
        ensures
            final(self).target_view() is None,
    {
        self.armed = false;
    }

    pub fn target(&self) -> (pgid: Option<i32>)
        ensures
            pgid == self.target_view(),
    {
        if self.armed {
            Some(self.pgid)
        } else {
            None
        }
    }
}

/// The beginning of some output, up to a ceiling.
pub struct CappedOutput {
    bytes: Vec<u8>,
    cap: usize,
    truncated: bool,
}

/// What was kept of some output under a ceiling.
pub open spec fn capped(output: Seq<u8>, cap: usize) -> Seq<u8> {
    if output.len() > cap {
        output.take(cap as int)
    } else {
        output
    }
}

impl CappedOutput {
    /// Whether this is what is kept of `output` under `cap`.
    pub closed spec fn keeps(self, output: Seq<u8>, cap: usize) -> bool {
        &&& self.cap == cap
        &&& self.bytes@ == capped(output, cap)
        &&& self.truncated == (output.len() > cap)
    }

    /// Nothing was read yet.
    pub fn new(cap: usize) -> (kept: Self)
        ensures
            kept.keeps(Seq::empty(), cap),
    {
        let kept = CappedOutput { bytes: Vec::new(), cap, truncated: false };
        assert(kept.bytes@ =~= capped(Seq::empty(), cap));
        kept
    }

    /// Takes in what was read: bytes beyond the ceiling are dropped.
    pub fn feed(&mut self, chunk: &[u8])
        ensures
            forall|output: Seq<u8>, cap: usize| #[trigger]
                old(self).keeps(output, cap) ==> final(self).keeps(output + chunk@, cap),
    {
        let n: usize = chunk.len();
        let mut i: usize = 0;
        let ghost start = self.bytes@;
        let ghost cap = self.cap;
        let ghost cut = self.truncated;
        assert(start + chunk@.take(0) =~= start);
        while i < n && self.bytes.len() < self.cap
            invariant
                i <= n == chunk@.len(),
                self.cap == cap,
                self.truncated == cut,
                start.len() <= cap ==> self.bytes@.len() <= cap,
                self.bytes@ == start + chunk@.take(i as int),
            decreases n - i,
        {
            self.bytes.push(chunk[i]);
            i += 1;
            assert(chunk@.take(i as int) =~= chunk@.take(i - 1).push(chunk@[i - 1]));
            assert(self.bytes@ =~= start + chunk@.take(i as int));
        }
        if i < n {
            self.truncated = true;
        }
        proof {
            assert forall|output: Seq<u8>, cap: usize| #[trigger]
                old(self).keeps(output, cap) implies self.keeps(output + chunk@, cap) by {
                let all = output + chunk@;
                assert(start.len() <= cap);
                if output.len() > cap {
                    assert(start.len() == cap);
                    assert(i == 0);
                    assert(self.bytes@ =~= all.take(cap as int));
                } else {
                    assert(start == output);
                    if i < n {
                        assert(self.bytes@ =~= all.take(cap as int));
                    } else {
                        assert(chunk@.take(i as int) =~= chunk@);
                        assert(self.bytes@ =~= all);
                    }
                }
            }
        }
    }

    /// The text that was kept, and whether anything was dropped.
    pub fn finish(&self) -> (kept: (String, bool))
        ensures
            forall|output: Seq<u8>, cap: usize| #[trigger]
                self.keeps(output, cap) ==> kept.0@ == lossy_text(capped(output, cap)) && kept.1
                    == (output.len() > cap) && (valid_utf8(capped(output, cap)) ==> kept.0@
                    == decode_utf8(capped(output, cap))),
    {
        (from_utf8_lossy(&self.bytes), self.truncated)
    }
}

/// How a command ended.
pub enum Ending {
    /// It was killed because it was cancelled.
    Cancelled,
    /// It exited, or ended on a signal.
    Exited { code: Option<i32>, signal: Option<i32> },
}

/// The outcome of a command: how it ended, what was kept of its output, and how
/// long it ran.
pub fn command_output(
    ending: Ending,
    stdout: (String, bool),
    stderr: (String, bool),
    duration: u128,
) -> (output: CommandOutput)
    ensures
        output == (CommandOutput {
            exit_code: match ending {
                Ending::Cancelled => None,
                Ending::Exited { code, .. } => code,
            },
            signal: match ending {
                Ending::Cancelled => None,
                Ending::Exited { signal, .. } => signal,
            },
            stdout: stdout.0,
            stderr: stderr.0,
            truncated: stdout.1 || stderr.1,
            terminated: ending is Cancelled,
            duration,
        }),
{
    let (exit_code, signal, terminated) = match ending {
        Ending::Cancelled => (None, None, true),
        Ending::Exited { code, signal } => (code, signal, false),
    };
    CommandOutput {
        exit_code,
        signal,
        stdout: stdout.0,
        stderr: stderr.0,
        truncated: stdout.1 || stderr.1,
        terminated,
        duration,
    }
}

/// What is kept of output does not depend on how it was cut into reads.
pub proof fn law_capture_does_not_depend_on_reads(first: Seq<u8>, second: Seq<u8>, cap: usize)
    ensures
        capped(capped(first, cap) + second, cap) == capped(first + second, cap),
        capped(first, cap).len() <= cap,
        capped(first, cap).is_prefix_of(first),
{
    let kept = capped(first, cap);
    if first.len() > cap {
        assert((kept + second).take(cap as int) =~= (first + second).take(cap as int));
        if second.len() == 0 {
            assert(kept + second =~= kept);
            assert((first + second) =~= first);
        }
    }
    assert(first.take(kept.len() as int) =~= kept);
}

/// What a command asks for holds, and what it does not ask for is as configured.
pub proof fn law_commands_override_the_configuration(
    asked: Option<String>,
    configured: Option<String>,
    limit: Option<u64>,
    ceiling: Option<u64>,
)
    ensures
        asked matches Some(cwd) ==> asked_directory(asked, configured) == Some(cwd@),
        asked is None ==> (configured matches Some(cwd) ==> asked_directory(asked, configured)
            == Some(cwd@)),
        asked is None && configured is None ==> asked_directory(asked, configured) is None,
        limit is Some ==> first_of(limit, ceiling) == limit,
        limit is None ==> first_of(limit, ceiling) == ceiling,
{
}

/// What is kept of output is its beginning: all of it where it fits, and as much
/// as may be kept where it does not.
pub proof fn law_output_is_kept_up_to_the_ceiling(output: Seq<u8>, cap: usize)
    ensures
        capped(output, cap).is_prefix_of(output),
        output.len() <= cap ==> capped(output, cap) == output,
        output.len() > cap ==> capped(output, cap).len() == cap,
{
    assert(output.take(capped(output, cap).len() as int) =~= capped(output, cap));
}

} // verus!
