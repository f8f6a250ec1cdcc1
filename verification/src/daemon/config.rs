//! The daemon's configuration: where it is found and what it says.

use vstd::prelude::*;

use crate::path::{absolute, is_absolute, join_of, join_path};
use crate::runtime::shell::ResourceLimits;
use crate::text::{chars_of, same_text, starts_with, string_of, texts};
use crate::text_map::TextMap;

verus! {

/// Configuration of the daemon. Every field is optional, so that a file only
/// says what differs from the defaults.
#[derive(Debug, PartialEq, Eq)]
pub struct DaemonConfig {
    /// Parent directory containing every workspace accepted by this daemon.
    pub workspace_root: Option<String>,
    /// Maximum concurrent executions in one client session.
    pub concurrency_limit: Option<usize>,
    /// Maximum concurrent executions across all client sessions.
    pub global_concurrency_limit: Option<usize>,
    /// Hard timeout applied to every execution, in milliseconds.
    pub tool_timeout_ms: Option<u64>,
    /// Whether commands inherit the environment of the daemon.
    pub inherit_env: Option<bool>,
    /// Base environment applied to every command.
    pub base_env: Option<TextMap<String>>,
    /// Sandbox resource ceilings for executed commands.
    pub limits: Option<ResourceLimits>,
    /// Whether the shell tool requires the exclusive execution slot.
    pub exclusive: Option<bool>,
    /// Whether installed plugins are discovered for new sessions.
    pub plugins_enabled: Option<bool>,
    /// Plugin installation root.
    pub plugin_dir: Option<String>,
    /// Maximum time allowed for a plugin handshake.
    pub plugin_start_timeout_ms: Option<u64>,
    /// Grace period after cancellation before a plugin process is killed.
    pub plugin_cancel_grace_ms: Option<u64>,
}

impl Default for DaemonConfig {
    fn default() -> (config: Self)
        ensures
            config == (DaemonConfig {
                workspace_root: None,
                concurrency_limit: None,
                global_concurrency_limit: None,
                tool_timeout_ms: None,
                inherit_env: None,
                base_env: None,
                limits: None,
                exclusive: None,
                plugins_enabled: None,
                plugin_dir: None,
                plugin_start_timeout_ms: None,
                plugin_cancel_grace_ms: None,
            }),
    {
        DaemonConfig {
            workspace_root: None,
            concurrency_limit: None,
            global_concurrency_limit: None,
            tool_timeout_ms: None,
            inherit_env: None,
            base_env: None,
            limits: None,
            exclusive: None,
            plugins_enabled: None,
            plugin_dir: None,
            plugin_start_timeout_ms: None,
            plugin_cancel_grace_ms: None,
        }
    }
}

/// Why there is no configuration.
#[derive(Debug, PartialEq, Eq)]
pub enum ConfigError {
    Usage(String),
    Read(String, String),
    Parse(String),
}

impl ConfigError {
    /// The sentence shown to a person.
    pub fn describe(&self) -> (sentence: String)
        ensures
            sentence@ == match *self {
                ConfigError::Usage(text) => "invalid invocation: "@ + text@,
                ConfigError::Read(path, error) => "cannot read config file "@ + path@ + ": "@
                    + error@,
                ConfigError::Parse(error) => "invalid config: "@ + error@,
            },
    {
        match self {
            ConfigError::Usage(text) => "invalid invocation: ".to_owned().concat(text.as_str()),
            ConfigError::Read(path, error) => "cannot read config file ".to_owned().concat(
                path.as_str(),
            ).concat(": ").concat(error.as_str()),
            ConfigError::Parse(error) => "invalid config: ".to_owned().concat(error.as_str()),
        }
    }
}

/// `text` without every repetition of `prefix` at its beginning.
pub open spec fn without_prefixes(text: Seq<char>, prefix: Seq<char>) -> Seq<char>
    decreases text.len(),
{
    if prefix.len() > 0 && prefix.is_prefix_of(text) {
        without_prefixes(text.skip(prefix.len() as int), prefix)
    } else {
        text
    }
}

/// `text` without every repetition of `prefix` at its beginning.
fn trim_prefixes(text: &str, prefix: &str) -> (rest: String)
    ensures
        rest@ == without_prefixes(text@, prefix@),
{
    let mut rest = text.to_owned();
    let skipped: usize = chars_of(prefix).len();
    if skipped == 0 {
        return rest;
    }
    while starts_with(rest.as_str(), prefix)
        invariant
            skipped == prefix@.len(),
            skipped > 0,
            without_prefixes(rest@, prefix@) == without_prefixes(text@, prefix@),
        decreases rest@.len(),
    {
        let chars = chars_of(rest.as_str());
        let n: usize = chars.len();
        assert(prefix@.len() <= rest@.len());
        let shorter = string_of(&chars, skipped, n);
        assert(shorter@ =~= rest@.skip(skipped as int));
        rest = shorter;
    }
    rest
}

/// The path that the arguments from position `i` on give, or `None` for a
/// `--config` without a path. The last one counts.
pub open spec fn explicit_path(
    args: Seq<Seq<char>>,
    i: int,
    found: Option<Seq<char>>,
) -> Option<Option<Seq<char>>>
    decreases args.len() - i,
{
    if i < 0 || i >= args.len() {
        Some(found)
    } else if args[i] == "--config"@ {
        if i + 1 < args.len() {
            explicit_path(args, i + 2, Some(args[i + 1]))
        } else {
            None
        }
    } else if "--config="@.is_prefix_of(args[i]) {
        explicit_path(args, i + 1, Some(without_prefixes(args[i], "--config="@)))
    } else {
        explicit_path(args, i + 1, found)
    }
}

/// The path that the arguments give. The first argument is the program.
fn explicit_config(args: &Vec<String>) -> (path: Result<Option<String>, ConfigError>)
    ensures
        match path {
            Ok(Some(path)) => explicit_path(texts(args@), 1, None) == Some(Some(path@)),
            Ok(None) => explicit_path(texts(args@), 1, None) == Some(None::<Seq<char>>),
            Err(ConfigError::Usage(message)) => explicit_path(texts(args@), 1, None) is None
                && message@ == texts(args@)[0] + ": --config requires a path"@,
            _ => false,
        },
{
    let mut found: Option<String> = None;
    let mut i: usize = 1;
    let ghost all = texts(args@);
    while i < args.len()
        invariant
            1 <= i,
            all == texts(args@),
            explicit_path(all, 1, None) == explicit_path(
                all,
                i as int,
                match found {
                    Some(path) => Some(path@),
                    None => None,
                },
            ),
        decreases args@.len() + 1 - i,
    {
        assert(all[i as int] == args@[i as int]@);
        if same_text(args[i].as_str(), "--config") {
            if i + 1 < args.len() {
                found = Some(args[i + 1].clone());
                i += 2;
            } else {
                return Err(
                    ConfigError::Usage(args[0].clone().concat(": --config requires a path")),
                );
            }
        } else if starts_with(args[i].as_str(), "--config=") {
            found = Some(trim_prefixes(args[i].as_str(), "--config="));
            i += 1;
        } else {
            i += 1;
        }
    }
    Ok(found)
}

/// Where the configuration file of a user lies.
pub fn default_config_path(home: &str) -> (path: String)
    ensures
        path@ == join_of(home@, ".config/ate/config.json"@),
{
    join_path(home, ".config/ate/config.json")
}

/// Where the configuration is: the `--config` argument, then the environment,
/// then the user's file where it exists. `args` begins with the program.
pub fn find_path(
    args: &Vec<String>,
    variable: Option<String>,
    home: Option<String>,
    default_exists: bool,
) -> (path: Result<Option<String>, ConfigError>)
    ensures
        match explicit_path(texts(args@), 1, None) {
            None => path matches Err(ConfigError::Usage(message)) && message@ == texts(args@)[0]
                + ": --config requires a path"@,
            Some(Some(explicit)) => path matches Ok(Some(path)) && path@ == explicit,
            Some(None) => match (variable, home) {
                (Some(variable), _) => path == Ok::<Option<String>, ConfigError>(Some(variable)),
                (None, Some(home)) if default_exists => path matches Ok(Some(path)) && path@
                    == join_of(home@, ".config/ate/config.json"@),
                _ => path == Ok::<Option<String>, ConfigError>(None),
            },
        },
{
    match explicit_config(args) {
        Err(error) => {
            return Err(error);
        },
        Ok(Some(path)) => {
            return Ok(Some(path));
        },
        Ok(None) => {},
    }
    if let Some(value) = variable {
        return Ok(Some(value));
    }
    if let Some(home) = home {
        if default_exists {
            return Ok(Some(default_config_path(home.as_str())));
        }
    }
    Ok(None)
}

/// What reading a configuration file came to.
#[derive(Debug, PartialEq, Eq)]
pub enum ConfigFile {
    Missing,
    Unreadable(String),
    Decoded(Result<DaemonConfig, String>),
}

/// The configuration: what the file says. Without a file, or where it is
/// missing, the defaults hold; a file that is there and cannot be read or is
/// malformed is an error.
pub fn load(file: Option<(String, ConfigFile)>) -> (config: Result<DaemonConfig, ConfigError>)
    ensures
        match file {
            None | Some((_, ConfigFile::Missing)) => config matches Ok(config) && config == (
            DaemonConfig {
                workspace_root: None,
                concurrency_limit: None,
                global_concurrency_limit: None,
                tool_timeout_ms: None,
                inherit_env: None,
                base_env: None,
                limits: None,
                exclusive: None,
                plugins_enabled: None,
                plugin_dir: None,
                plugin_start_timeout_ms: None,
                plugin_cancel_grace_ms: None,
            }),
            Some((path, ConfigFile::Unreadable(error))) => config == Err::<
                DaemonConfig,
                ConfigError,
            >(ConfigError::Read(path, error)),
            Some((_, ConfigFile::Decoded(Ok(decoded)))) => config == Ok::<
                DaemonConfig,
                ConfigError,
            >(decoded),
            Some((_, ConfigFile::Decoded(Err(error)))) => config == Err::<
                DaemonConfig,
                ConfigError,
            >(ConfigError::Parse(error)),
        },
{
    match file {
        None => Ok(DaemonConfig::default()),
        Some((path, ConfigFile::Missing)) => Ok(DaemonConfig::default()),
        Some((path, ConfigFile::Unreadable(error))) => Err(ConfigError::Read(path, error)),
        Some((path, ConfigFile::Decoded(Ok(config)))) => Ok(config),
        Some((path, ConfigFile::Decoded(Err(error)))) => Err(ConfigError::Parse(error)),
    }
}

/// The user's home directory: `HOME` where it is an absolute path, else what the
/// user database says, else `HOME` as it is.
pub fn home_dir(variable: Option<String>, database: Option<String>) -> (home: Option<String>)
    ensures
        home == match (variable, database) {
            (Some(path), _) if absolute(path@) => Some(path),
            (_, Some(path)) => Some(path),
            (variable, None) => variable,
        },
{
    if let Some(path) = &variable {
        if is_absolute(path.as_str()) {
            return variable;
        }
    }
    match database {
        Some(path) => Some(path),
        None => variable,
    }
}

/// Where plugins are installed where nothing else is said.
pub fn default_plugin_dir(home: Option<String>) -> (dir: Option<String>)
    ensures
        match (dir, home) {
            (Some(dir), Some(home)) => dir@ == join_of(home@, ".local/share/ate/plugins"@),
            (None, None) => true,
            _ => false,
        },
{
    match home {
        Some(home) => Some(join_path(home.as_str(), ".local/share/ate/plugins")),
        None => None,
    }
}

/// Taking a prefix off leaves the rest of the text, which does not begin with
/// the prefix any more; what was taken off is that prefix, over and over. The
/// result tells how often.
pub proof fn law_prefixes_are_taken_off(text: Seq<char>, prefix: Seq<char>) -> (times: nat)
    requires
        prefix.len() > 0,
    ensures
        times * prefix.len() <= text.len(),
        without_prefixes(text, prefix) == text.skip((times * prefix.len()) as int),
        !prefix.is_prefix_of(without_prefixes(text, prefix)),
        forall|k: int|
            0 <= k < times ==> text.subrange(
                #[trigger] (k * prefix.len()),
                k * prefix.len() + prefix.len(),
            ) == prefix,
    decreases text.len(),
{
    if prefix.is_prefix_of(text) {
        let n = prefix.len() as int;
        let rest = text.skip(n);
        let more = law_prefixes_are_taken_off(rest, prefix);
        let times = more + 1;
        assert(times * n == more * n + n) by (nonlinear_arith)
            requires
                times == more + 1,
        ;
        assert(rest.skip(more * n) =~= text.skip(times * n));
        assert forall|k: int| 0 <= k < times implies text.subrange(
            #[trigger] (k * prefix.len()),
            k * prefix.len() + prefix.len(),
        ) == prefix by {
            if k == 0 {
                assert(0 * n == 0);
                assert(text.subrange(0, n) =~= prefix);
            } else {
                assert(k * n == (k - 1) * n + n) by (nonlinear_arith);
                assert((k - 1) * n >= 0) by (nonlinear_arith)
                    requires
                        k >= 1,
                        n >= 0,
                ;
                assert((k - 1) * n + n <= more * n) by (nonlinear_arith)
                    requires
                        k - 1 < more,
                        n >= 0,
                ;
                assert(rest.subrange((k - 1) * prefix.len(), (k - 1) * prefix.len() + prefix.len())
                    == prefix);
                assert(text.subrange(k * n, k * n + n) =~= rest.subrange(
                    (k - 1) * n,
                    (k - 1) * n + n,
                ));
            }
        }
        times
    } else {
        assert(0 * prefix.len() == 0);
        assert(text.skip(0) =~= text);
        0
    }
}

/// What the arguments so far came to is where the next are read from.
proof fn lemma_more_arguments(
    front: Seq<Seq<char>>,
    more: Seq<Seq<char>>,
    i: int,
    found: Option<Seq<char>>,
)
    requires
        0 <= i <= front.len(),
        explicit_path(front, i, found) is Some,
    ensures
        explicit_path(front + more, i, found) == explicit_path(
            front + more,
            front.len() as int,
            explicit_path(front, i, found)->0,
        ),
    decreases front.len() - i,
{
    if i < front.len() {
        let all = front + more;
        assert(all[i] == front[i]);
        if front[i] == "--config"@ {
            assert(all[i + 1] == front[i + 1]);
            lemma_more_arguments(front, more, i + 2, Some(front[i + 1]));
        } else if "--config="@.is_prefix_of(front[i]) {
            lemma_more_arguments(
                front,
                more,
                i + 1,
                Some(without_prefixes(front[i], "--config="@)),
            );
        } else {
            lemma_more_arguments(front, more, i + 1, found);
        }
    }
}

/// The last path that the arguments give counts, in either form; a `--config`
/// at the end without a path is refused, and any other argument changes
/// nothing.
pub proof fn law_the_last_config_counts(args: Seq<Seq<char>>, path: Seq<char>, other: Seq<char>)
    requires
        args.len() >= 1,
        explicit_path(args, 1, None) is Some,
        other != "--config"@,
        !"--config="@.is_prefix_of(other),
        !"--config="@.is_prefix_of(path),
    ensures
        explicit_path(args + seq!["--config"@, path], 1, None) == Some(Some(path)),
        explicit_path(args + seq!["--config="@ + path], 1, None) == Some(Some(path)),
        explicit_path(args + seq!["--config"@], 1, None) is None,
        explicit_path(args + seq![other], 1, None) == explicit_path(args, 1, None),
{
    reveal_strlit("--config");
    reveal_strlit("--config=");
    reveal_with_fuel(explicit_path, 3);
    let n = args.len() as int;
    lemma_more_arguments(args, seq!["--config"@, path], 1, None);
    lemma_more_arguments(args, seq!["--config="@ + path], 1, None);
    lemma_more_arguments(args, seq!["--config"@], 1, None);
    lemma_more_arguments(args, seq![other], 1, None);
    let written = "--config="@ + path;
    assert((args + seq!["--config"@, path])[n] == "--config"@);
    assert((args + seq!["--config"@, path])[n + 1] == path);
    assert((args + seq![written])[n] == written);
    assert(written.take("--config="@.len() as int) =~= "--config="@);
    assert(written.skip("--config="@.len() as int) =~= path);
    assert(written[8] == '=' && "--config"@.len() == 8);
    assert(written.len() > "--config"@.len());
    reveal_with_fuel(without_prefixes, 2);
    assert((args + seq!["--config"@])[n] == "--config"@);
    assert((args + seq![other])[n] == other);
}

} // verus!
