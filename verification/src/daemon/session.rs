//! Sessions: who may open one, for which workspace, and what it is given.

use vstd::prelude::*;

use crate::daemon::config::{default_plugin_dir, DaemonConfig};
use crate::path::{absolute, is_absolute, is_under, join_of, lies_under};
use crate::plugin::package::StoreError;
use crate::plugin::supervisor::PluginRuntimeConfig;
use crate::protocol::message::{ProtocolFailure, ProtocolFailureView};
use crate::runtime::native::{copy_env, NativeShellConfig};
use crate::runtime::shell::{env_view, ResourceLimits};
use crate::text::{contains_char, contains_text, law_occurrences_split_the_text, same_text};
use crate::text_map::{entries_map, TextMap};
use crate::tools::file_write::{overwrite_refusal, Existing};
use crate::tools::shared::{change_refusal, FileReadRecord, FileReadState};

verus! {

/// The type of a 9P filesystem, as Linux tells it.
pub const V9FS_MAGIC: i64 = 16_914_839;

/// Why a directory is not on a Linux filesystem, given the type of the
/// filesystem that it lies on, or why that is not known.
pub open spec fn filesystem_refusal(path: Seq<char>, filesystem: Result<i64, Seq<char>>) -> Option<
    Seq<char>,
> {
    if lies_under(path, "/mnt"@) {
        Some("workspace "@ + path + " is under /mnt and is not on WSL ext4"@)
    } else if path.contains('\0') {
        Some("workspace path contains a NUL byte"@)
    } else {
        match filesystem {
            Err(error) => Some("cannot inspect workspace filesystem: "@ + error),
            Ok(magic) => if magic == V9FS_MAGIC {
                Some("workspace "@ + path + " is on a DrvFS/9P filesystem"@)
            } else {
                None
            },
        }
    }
}

/// What was found out, with its error as text.
pub open spec fn found_out<A>(outcome: Result<A, String>) -> Result<A, Seq<char>> {
    match outcome {
        Ok(value) => Ok(value),
        Err(error) => Err(error@),
    }
}

/// Refuses a directory that is not on a Linux filesystem.
pub fn reject_windows_filesystem(path: &str, filesystem: &Result<i64, String>) -> (checked: Result<
    (),
    String,
>)
    ensures
        match checked {
            Ok(_) => filesystem_refusal(path@, found_out(*filesystem)) is None,
            Err(message) => filesystem_refusal(path@, found_out(*filesystem)) == Some(message@),
        },
{
    if is_under(path, "/mnt") {
        return Err(
            "workspace ".to_owned().concat(path).concat(
                " is under /mnt and is not on WSL ext4",
            ),
        );
    }
    if contains_char(path, '\0') {
        return Err("workspace path contains a NUL byte".to_owned());
    }
    match filesystem {
        Err(error) => Err(
            "cannot inspect workspace filesystem: ".to_owned().concat(error.as_str()),
        ),
        Ok(magic) => if *magic == V9FS_MAGIC {
            Err("workspace ".to_owned().concat(path).concat(" is on a DrvFS/9P filesystem"))
        } else {
            Ok(())
        },
    }
}

/// Why a workspace is refused. `canonical` is its path with every link followed.
pub open spec fn workspace_refusal(
    root: Seq<char>,
    workspace: Seq<char>,
    canonical: Result<Seq<char>, Seq<char>>,
    filesystem: Result<i64, Seq<char>>,
) -> Option<Seq<char>> {
    if !absolute(workspace) {
        Some("workspace must be an absolute Linux path"@)
    } else {
        match canonical {
            Err(error) => Some("workspace "@ + workspace + " is unavailable: "@ + error),
            Ok(path) => if !lies_under(path, root) {
                Some("workspace "@ + path + " is outside workspace_root "@ + root)
            } else {
                filesystem_refusal(path, filesystem)
            },
        }
    }
}

/// The path of an outcome, as text.
pub open spec fn path_view(path: Result<String, String>) -> Result<Seq<char>, Seq<char>> {
    match path {
        Ok(path) => Ok(path@),
        Err(error) => Err(error@),
    }
}

/// The directory of a workspace, where it is accepted: absolute, there, below
/// the root once links are followed, and on a Linux filesystem. `canonical` and
/// `filesystem` are what was found out about it.
pub fn validate_workspace(
    root: &str,
    workspace: &str,
    canonical: Result<String, String>,
    filesystem: &Result<i64, String>,
) -> (accepted: Result<String, String>)
    ensures
        match accepted {
            Ok(path) => canonical == Ok::<String, String>(path) && workspace_refusal(
                root@,
                workspace@,
                path_view(canonical),
                found_out(*filesystem),
            ) is None,
            Err(message) => workspace_refusal(
                root@,
                workspace@,
                path_view(canonical),
                found_out(*filesystem),
            ) == Some(message@),
        },
{
    if !is_absolute(workspace) {
        return Err("workspace must be an absolute Linux path".to_owned());
    }
    match canonical {
        Err(error) => Err(
            "workspace ".to_owned().concat(workspace).concat(" is unavailable: ").concat(
                error.as_str(),
            ),
        ),
        Ok(path) => {
            if !is_under(path.as_str(), root) {
                return Err(
                    "workspace ".to_owned().concat(path.as_str()).concat(
                        " is outside workspace_root ",
                    ).concat(root),
                );
            }
            match reject_windows_filesystem(path.as_str(), filesystem) {
                Ok(_) => Ok(path),
                Err(message) => Err(message),
            }
        },
    }
}

/// The environment of commands where nothing else is said.
pub open spec fn default_env() -> Map<Seq<char>, Seq<char>> {
    Map::<Seq<char>, Seq<char>>::empty().insert("PATH"@, "/usr/local/bin:/usr/bin:/bin"@).insert(
        "LANG"@,
        "C.UTF-8"@,
    )
}

/// The base environment that a configuration gives.
pub open spec fn base_env_of(config: DaemonConfig) -> Map<Seq<char>, Seq<char>> {
    match config.base_env {
        Some(env) => env_view(env@),
        None => default_env(),
    }
}

/// A number, or what holds where it is not given.
pub open spec fn given_or<A>(value: Option<A>, otherwise: A) -> A {
    match value {
        Some(value) => value,
        None => otherwise,
    }
}

/// At least one.
pub open spec fn at_least_one(n: usize) -> usize {
    if n == 0 {
        1
    } else {
        n
    }
}

fn limit(value: Option<usize>, otherwise: usize) -> (n: usize)
    ensures
        n == at_least_one(given_or(value, otherwise)),
{
    let n: usize = match value {
        Some(n) => n,
        None => otherwise,
    };
    if n == 0 {
        1
    } else {
        n
    }
}

/// The ceilings that a configuration gives.
pub open spec fn limits_in(config: DaemonConfig) -> ResourceLimits {
    given_or(
        config.limits,
        ResourceLimits {
            memory_bytes: None,
            cpu_seconds: None,
            process_count: None,
            max_stdout: 1_048_576,
            max_stderr: 1_048_576,
        },
    )
}

/// Where workspaces must lie: as configured, or the home directory.
pub fn workspace_root(config: &DaemonConfig, home: Option<String>) -> (root: Result<String, String>)
    ensures
        match root {
            Ok(root) => match config.workspace_root {
                Some(configured) => root@ == configured@,
                None => home == Some(root),
            },
            Err(message) => config.workspace_root is None && home is None && message@
                == "workspace_root is not configured and HOME is unavailable"@,
        },
{
    match &config.workspace_root {
        Some(root) => Ok(root.clone()),
        None => match home {
            Some(home) => Ok(home),
            None => Err(
                "workspace_root is not configured and HOME is unavailable".to_owned(),
            ),
        },
    }
}

/// The daemon's own rules, with its root checked.
#[derive(Debug, PartialEq, Eq)]
pub struct DaemonRuntime {
    config: DaemonConfig,
    workspace_root: String,
    token: String,
}

/// What a session is given.
#[derive(Debug, PartialEq, Eq)]
pub struct SessionPlan {
    pub workspace: String,
    pub shell: NativeShellConfig,
    /// Whether the shell tool requires the exclusive execution slot.
    pub exclusive: bool,
    /// In nanoseconds.
    pub tool_timeout: Option<u128>,
    pub concurrency_limit: usize,
    /// The files that its tools have read: none yet.
    pub read_file_state: FileReadState,
}

impl DaemonRuntime {
    pub closed spec fn config(self) -> DaemonConfig {
        self.config
    }

    pub closed spec fn root(self) -> Seq<char> {
        self.workspace_root@
    }

    pub closed spec fn token(self) -> Seq<char> {
        self.token@
    }

    /// The rules of a daemon. `canonical` is its root with every link followed.
    pub fn new(
        config: DaemonConfig,
        token: String,
        root: &str,
        canonical: Result<String, String>,
        filesystem: &Result<i64, String>,
    ) -> (runtime: Result<Self, String>)
        ensures
            match canonical {
                Err(error) => runtime matches Err(message) && message@ == "invalid workspace_root "@
                    + root@ + ": "@ + error@,
                Ok(path) => match filesystem_refusal(path@, found_out(*filesystem)) {
                    Some(refusal) => runtime matches Err(message) && message@ == refusal,
                    None => runtime matches Ok(runtime) && runtime.config() == config
                        && runtime.root() == path@ && runtime.token() == token@,
                },
            },
    {
        let workspace_root = match canonical {
            Ok(path) => path,
            Err(error) => {
                return Err(
                    "invalid workspace_root ".to_owned().concat(root).concat(": ").concat(
                        error.as_str(),
                    ),
                );
            },
        };
        if let Err(message) = reject_windows_filesystem(workspace_root.as_str(), filesystem) {
            return Err(message);
        }
        Ok(DaemonRuntime { config, workspace_root, token })
    }

    /// The number of executions that may run in all sessions together.
    pub fn global_limit(&self) -> (n: usize)
        ensures
            n == at_least_one(given_or(self.config().global_concurrency_limit, 8)),
    {
        limit(self.config.global_concurrency_limit, 8)
    }

    /// Whether a client knows the token of this daemon.
    pub fn authenticate(&self, token: &str) -> (checked: Result<(), ProtocolFailure>)
        ensures
            match checked {
                Ok(_) => token@ == self.token(),
                Err(failure) => token@ != self.token() && failure@ == (ProtocolFailureView {
                    code: "authentication_failed"@,
                    message: "invalid daemon token"@,
                }),
            },
    {
        if same_text(token, self.token.as_str()) {
            Ok(())
        } else {
            Err(ProtocolFailure::new("authentication_failed", "invalid daemon token"))
        }
    }

    fn base_env(&self) -> (env: TextMap<String>)
        ensures
            env_view(env@) == base_env_of(self.config()),
    {
        match &self.config.base_env {
            Some(env) => copy_env(env),
            None => {
                let mut env: TextMap<String> = TextMap::new();
                env.insert("PATH".to_owned(), "/usr/local/bin:/usr/bin:/bin".to_owned());
                env.insert("LANG".to_owned(), "C.UTF-8".to_owned());
                assert(env_view(env@) =~= default_env());
                env
            },
        }
    }

    /// Opens a session: the token is checked first, then the workspace.
    pub fn session(
        &self,
        token: &str,
        workspace: &str,
        canonical: Result<String, String>,
        filesystem: &Result<i64, String>,
    ) -> (session: Result<SessionPlan, ProtocolFailure>)
        ensures
            match session {
                Ok(plan) => {
                    &&& token@ == self.token()
                    &&& workspace_refusal(
                        self.root(),
                        workspace@,
                        path_view(canonical),
                        found_out(*filesystem),
                    ) is None
                    &&& canonical == Ok::<String, String>(plan.workspace)
                    &&& plan.shell.inherit_env == given_or(self.config().inherit_env, false)
                    &&& env_view(plan.shell.base_env@) == base_env_of(self.config())
                    &&& plan.shell.cwd matches Some(cwd) && cwd@ == plan.workspace@
                    &&& plan.shell.workspace_root matches Some(root) && root@ == plan.workspace@
                    &&& plan.shell.limits == limits_in(self.config())
                    &&& plan.exclusive == given_or(self.config().exclusive, false)
                    &&& plan.tool_timeout == match self.config().tool_timeout_ms {
                        Some(ms) => Some((ms * 1_000_000) as u128),
                        None => None,
                    }
                    &&& plan.concurrency_limit == at_least_one(
                        given_or(self.config().concurrency_limit, 4),
                    )
                    &&& plan.read_file_state@ == Map::<Seq<char>, FileReadRecord>::empty()
                },
                Err(failure) => if token@ != self.token() {
                    failure@ == (ProtocolFailureView {
                        code: "authentication_failed"@,
                        message: "invalid daemon token"@,
                    })
                } else {
                    workspace_refusal(
                        self.root(),
                        workspace@,
                        path_view(canonical),
                        found_out(*filesystem),
                    ) matches Some(message) && failure@ == (ProtocolFailureView {
                        code: "invalid_workspace"@,
                        message,
                    })
                },
            },
    {
        if let Err(failure) = self.authenticate(token) {
            return Err(failure);
        }
        let workspace = match validate_workspace(
            self.workspace_root.as_str(),
            workspace,
            canonical,
            filesystem,
        ) {
            Ok(path) => path,
            Err(message) => {
                return Err(ProtocolFailure::new("invalid_workspace", message.as_str()));
            },
        };
        let shell = NativeShellConfig {
            inherit_env: match self.config.inherit_env {
                Some(inherit) => inherit,
                None => false,
            },
            base_env: self.base_env(),
            cwd: Some(workspace.clone()),
            workspace_root: Some(workspace.clone()),
            limits: match self.config.limits {
                Some(limits) => limits,
                None => ResourceLimits::default(),
            },
        };
        let exclusive = match self.config.exclusive {
            Some(exclusive) => exclusive,
            None => false,
        };
        let tool_timeout: Option<u128> = match self.config.tool_timeout_ms {
            Some(ms) => Some(ms as u128 * 1_000_000),
            None => None,
        };
        Ok(
            SessionPlan {
                workspace,
                shell,
                exclusive,
                tool_timeout,
                concurrency_limit: limit(self.config.concurrency_limit, 4),
                read_file_state: FileReadState::new(),
            },
        )
    }

    /// Where a session finds its plugins: nowhere where they are switched off.
    pub fn plugin_dir(&self, home: Option<String>) -> (dir: Result<Option<String>, ProtocolFailure>)
        ensures
            if !given_or(self.config().plugins_enabled, true) {
                dir == Ok::<Option<String>, ProtocolFailure>(None)
            } else {
                match (self.config().plugin_dir, home) {
                    (Some(configured), _) => dir matches Ok(Some(dir)) && dir@ == configured@,
                    (None, Some(home)) => dir matches Ok(Some(dir)) && dir@ == join_of(
                        home@,
                        ".local/share/ate/plugins"@,
                    ),
                    (None, None) => dir matches Err(failure) && failure@ == (
                    ProtocolFailureView {
                        code: "plugin_setup_failed"@,
                        message: "could not resolve plugin directory"@,
                    }),
                }
            },
    {
        let enabled = match self.config.plugins_enabled {
            Some(enabled) => enabled,
            None => true,
        };
        if !enabled {
            return Ok(None);
        }
        if let Some(dir) = &self.config.plugin_dir {
            return Ok(Some(dir.clone()));
        }
        match default_plugin_dir(home) {
            Some(dir) => Ok(Some(dir)),
            None => Err(
                ProtocolFailure::new("plugin_setup_failed", "could not resolve plugin directory"),
            ),
        }
    }

    /// How plugin processes of a session are run.
    pub fn plugin_runtime(&self) -> (runtime: PluginRuntimeConfig)
        ensures
            runtime.start_timeout == given_or(self.config().plugin_start_timeout_ms, 5000)
                * 1_000_000,
            runtime.cancel_grace == given_or(self.config().plugin_cancel_grace_ms, 2000)
                * 1_000_000,
            env_view(entries_map(runtime.base_env@)) == base_env_of(self.config()),
            runtime.memory_bytes == match self.config().limits {
                Some(limits) => limits.memory_bytes,
                None => None,
            },
            runtime.process_count == match self.config().limits {
                Some(limits) => limits.process_count,
                None => None,
            },
    {
        let start_timeout_ms: u64 = match self.config.plugin_start_timeout_ms {
            Some(ms) => ms,
            None => 5000,
        };
        let cancel_grace_ms: u64 = match self.config.plugin_cancel_grace_ms {
            Some(ms) => ms,
            None => 2000,
        };
        let (memory_bytes, process_count) = match self.config.limits {
            Some(limits) => (limits.memory_bytes, limits.process_count),
            None => (None, None),
        };
        let mut env = self.base_env();
        PluginRuntimeConfig {
            start_timeout: start_timeout_ms as u128 * 1_000_000,
            cancel_grace: cancel_grace_ms as u128 * 1_000_000,
            base_env: env.take_all(),
            memory_bytes,
            process_count,
        }
    }
}

/// How a session answers where its plugins could not be discovered.
pub fn discovery_failure(error: &StoreError) -> (failure: ProtocolFailure)
    ensures
        failure@ == (ProtocolFailureView {
            code: "plugin_setup_failed"@,
            message: "plugin discovery failed: "@ + error@.sentence(),
        }),
{
    let sentence = error.describe();
    let message = "plugin discovery failed: ".to_owned().concat(sentence.as_str());
    ProtocolFailure::new("plugin_setup_failed", message.as_str())
}

/// A workspace that is accepted lies below the root, not below `/mnt`, and not
/// on a Windows filesystem, wherever its links lead.
pub proof fn law_accepted_workspace_stays_inside(
    root: Seq<char>,
    workspace: Seq<char>,
    canonical: Seq<char>,
    magic: i64,
)
    requires
        workspace_refusal(root, workspace, Ok(canonical), Ok(magic)) is None,
    ensures
        absolute(workspace),
        lies_under(canonical, root),
        !lies_under(canonical, "/mnt"@),
        magic != V9FS_MAGIC,
{
}

/// What the tools of one session have taken down of files, out of what those of
/// all sessions took down: each entry names the session, the path and the record.
/// A session begins with nothing and keeps its own.
pub open spec fn records_of(
    history: Seq<(int, Seq<char>, FileReadRecord)>,
    session: int,
) -> Map<Seq<char>, FileReadRecord>
    decreases history.len(),
{
    if history.len() == 0 {
        Map::empty()
    } else {
        let before = records_of(history.drop_last(), session);
        let (by, path, record) = history.last();
        if by == session {
            before.insert(path, record)
        } else {
            before
        }
    }
}

/// What one session reads or writes changes nothing of what another has read.
pub proof fn law_sessions_share_no_read_state(
    history: Seq<(int, Seq<char>, FileReadRecord)>,
    one: int,
    other: int,
    path: Seq<char>,
    record: FileReadRecord,
)
    requires
        one != other,
    ensures
        records_of(history.push((one, path, record)), other) == records_of(history, other),
{
    assert(history.push((one, path, record)).drop_last() =~= history);
}

/// A file that is there and that a session did not read or write itself is
/// neither overwritten nor edited by it, whatever other sessions read.
pub proof fn law_reads_count_in_their_own_session(
    history: Seq<(int, Seq<char>, FileReadRecord)>,
    session: int,
    path: Seq<char>,
    existing: Existing,
    text: Seq<char>,
)
    requires
        forall|k: int|
            0 <= k < history.len() && (#[trigger] history[k]).0 == session ==> history[k].1 != path,
        !(existing is Missing),
    ensures
        overwrite_refusal(records_of(history, session), path, existing) == Some(
            "file has not been read yet; read it with Read first"@,
        ),
        change_refusal(records_of(history, session), path, text) == Some(
            "file has not been read yet; read it with Read first"@,
        ),
    decreases history.len(),
{
    if history.len() > 0 {
        let earlier = history.drop_last();
        assert forall|k: int|
            0 <= k < earlier.len() && (#[trigger] earlier[k]).0 == session implies earlier[k].1
            != path by {
            assert(history[k] == earlier[k]);
        }
        law_reads_count_in_their_own_session(earlier, session, path, existing, text);
        assert(history[history.len() - 1] == history.last());
    }
}

/// A workspace is accepted exactly where its path is absolute, it is there, lies
/// below the root and not below `/mnt`, holds no NUL, and is on a filesystem that
/// is known and no Windows one.
pub proof fn law_workspaces_are_accepted_by_the_rules(
    root: Seq<char>,
    workspace: Seq<char>,
    canonical: Result<Seq<char>, Seq<char>>,
    filesystem: Result<i64, Seq<char>>,
)
    ensures
        workspace_refusal(root, workspace, canonical, filesystem) is None <==> absolute(workspace)
            && (canonical matches Ok(path) && lies_under(path, root) && !lies_under(path, "/mnt"@)
            && !path.contains('\0')) && (filesystem matches Ok(magic) && magic != 16_914_839),
{
}

/// Commands have the configured environment, and without one a path and a
/// language and nothing else.
pub proof fn law_commands_have_an_environment(config: DaemonConfig, name: Seq<char>)
    ensures
        config.base_env matches Some(env) ==> {
            &&& base_env_of(config).contains_key(name) <==> env@.contains_key(name)
            &&& env@.contains_key(name) ==> base_env_of(config)[name] == env@[name]@
        },
        config.base_env is None ==> {
            &&& base_env_of(config).contains_key(name) <==> name == "PATH"@ || name == "LANG"@
            &&& base_env_of(config)["PATH"@] == "/usr/local/bin:/usr/bin:/bin"@
            &&& base_env_of(config)["LANG"@] == "C.UTF-8"@
        },
{
    reveal_strlit("PATH");
    reveal_strlit("LANG");
    assert("PATH"@[0] == 'P' && "LANG"@[0] == 'L');
}

/// What is configured holds, what is not has its default, and a limit is never
/// below one.
pub proof fn law_configured_values_hold(value: Option<usize>, otherwise: usize)
    ensures
        value matches Some(n) ==> given_or(value, otherwise) == n,
        value is None ==> given_or(value, otherwise) == otherwise,
        value matches Some(n) ==> n >= 1 ==> at_least_one(given_or(value, otherwise)) == n,
        at_least_one(given_or(value, otherwise)) >= 1,
{
}

/// Commands are held to the configured ceilings, and without any to a mebibyte of
/// each output alone.
pub proof fn law_commands_have_ceilings(config: DaemonConfig)
    ensures
        config.limits matches Some(limits) ==> limits_in(config) == limits,
        config.limits is None ==> {
            let limits = limits_in(config);
            &&& limits.memory_bytes is None && limits.cpu_seconds is None
            &&& limits.process_count is None
            &&& limits.max_stdout == 1_048_576 && limits.max_stderr == 1_048_576
        },
{
}

/// A refused workspace is told by its path.
pub proof fn law_refused_workspaces_are_named(
    root: Seq<char>,
    workspace: Seq<char>,
    path: Seq<char>,
    error: Seq<char>,
    filesystem: Result<i64, Seq<char>>,
)
    requires
        absolute(workspace),
    ensures
        workspace_refusal(root, workspace, Err(error), filesystem) matches Some(message)
            && contains_text(message, workspace) && error.is_suffix_of(message),
        !lies_under(path, root) ==> (workspace_refusal(root, workspace, Ok(path), filesystem)
            matches Some(message) && contains_text(message, path) && root.is_suffix_of(message)),
        lies_under(path, root) && lies_under(path, "/mnt"@) ==> (workspace_refusal(
            root,
            workspace,
            Ok(path),
            filesystem,
        ) matches Some(message) && contains_text(message, path)),
{
    let start = "workspace "@;
    let absent = " is unavailable: "@;
    let gone = start + workspace + absent + error;
    law_occurrences_split_the_text(start, workspace, absent + error);
    assert(start + workspace + (absent + error) =~= gone);
    assert(gone.subrange(gone.len() - error.len(), gone.len() as int) =~= error);
    let outside = " is outside workspace_root "@;
    let left = start + path + outside + root;
    law_occurrences_split_the_text(start, path, outside + root);
    assert(start + path + (outside + root) =~= left);
    assert(left.subrange(left.len() - root.len(), left.len() as int) =~= root);
    law_occurrences_split_the_text(start, path, " is under /mnt and is not on WSL ext4"@);
}

/// What was found out about a directory is seen as it is, and why it was not.
pub proof fn law_findings_are_seen_whole(
    path: Result<String, String>,
    filesystem: Result<i64, String>,
)
    ensures
        match path {
            Ok(found) => path_view(path) matches Ok(seen) && seen == found@,
            Err(error) => path_view(path) matches Err(told) && told == error@,
        },
        match filesystem {
            Ok(found) => found_out(filesystem) matches Ok(seen) && seen == found,
            Err(error) => found_out(filesystem) matches Err(told) && told == error@,
        },
{
}

} // verus!
