//! The daemon's rules, its side of the protocol, and the command lines.

use ate::cli::{
    ensure_success, option, parse_command, required, validate_cli_id, wsl_command, CliCommand,
    USAGE,
};
use ate::daemon::command::{
    parse_daemon_command, parse_tool_command, tool_success, DaemonCommand, ToolCommand, TOOL_USAGE,
};
use ate::daemon::config::{
    default_config_path, default_plugin_dir, find_path, home_dir, load, ConfigError, ConfigFile,
    DaemonConfig,
};
use ate::daemon::plugins::select_plugins;
use ate::daemon::server::{copy_descriptors, wire_message, Connection, DaemonError, Reaction};
use ate::daemon::session::{
    discovery_failure, reject_windows_filesystem, validate_workspace, workspace_root,
    DaemonRuntime, V9FS_MAGIC,
};
use ate::daemon::state::{
    ensure_step, healthy, is_candidate, process_is_daemon, service_lock_path, state_lock_path,
    state_path, stop, temporary_state_path, token_of, DaemonState, StartStep, StopPlan,
};
use ate::engine::error::ExecutionError;
use ate::engine::observer::ExecutionEvent;
use ate::json::Json;
use ate::plugin::manifest::{PluginManifest, PluginToolManifest};
use ate::plugin::package::StoreError;
use ate::plugin::store::InstalledPlugin;
use ate::protocol::framing::FrameError;
use ate::protocol::message::{ClientMessage, ProtocolFailure, ServerMessage, PROTOCOL_VERSION};
use ate::protocol::model::{ExecutionRequest, ExecutionResult, ToolDescriptor};
use ate::tools::file_write::{check_write, written_record, Existing};

const EXT4: i64 = 0xef53;

fn strings(list: &[&str]) -> Vec<String> {
    list.iter().map(|text| text.to_string()).collect()
}

#[test]
fn rejects_relative_and_outside_workspaces() {
    let root = "/tmp/ate-root";
    let outside = "/tmp/ate-outside";
    let found = |path: &str| -> Result<String, String> { Ok(path.to_string()) };
    assert_eq!(
        validate_workspace(root, root, found(root), &Ok(EXT4)).unwrap(),
        root
    );
    assert_eq!(
        validate_workspace(root, "relative", found("/tmp/ate-root/relative"), &Ok(EXT4)),
        Err("workspace must be an absolute Linux path".to_string())
    );
    assert_eq!(
        validate_workspace(root, outside, found(outside), &Ok(EXT4)),
        Err("workspace /tmp/ate-outside is outside workspace_root /tmp/ate-root".to_string())
    );
    assert_eq!(
        validate_workspace(root, "/tmp/x", Err("No such file".to_string()), &Ok(EXT4)),
        Err("workspace /tmp/x is unavailable: No such file".to_string())
    );
}

#[test]
fn daemon_rejects_symlink_escape() {
    let followed = Ok("/tmp/outside".to_string());
    assert!(validate_workspace("/tmp/root", "/tmp/root/escape", followed, &Ok(EXT4)).is_err());
}

#[test]
fn rejects_mnt_even_before_filesystem_detection() {
    assert!(reject_windows_filesystem("/mnt/c/project", &Ok(EXT4)).is_err());
    assert_eq!(reject_windows_filesystem("/home/me", &Ok(EXT4)), Ok(()));
    assert_eq!(
        reject_windows_filesystem("/home/me", &Ok(V9FS_MAGIC)),
        Err("workspace /home/me is on a DrvFS/9P filesystem".to_string())
    );
    assert_eq!(
        reject_windows_filesystem("/home/me", &Err("denied".to_string())),
        Err("cannot inspect workspace filesystem: denied".to_string())
    );
    assert_eq!(
        reject_windows_filesystem("/home/\0", &Ok(EXT4)),
        Err("workspace path contains a NUL byte".to_string())
    );
    assert_eq!(V9FS_MAGIC, 0x0102_1997);
}

fn runtime(config: DaemonConfig) -> DaemonRuntime {
    DaemonRuntime::new(
        config,
        "secret".to_string(),
        "/home/me",
        Ok("/home/me".to_string()),
        &Ok(EXT4),
    )
    .unwrap()
}

#[test]
fn sessions_need_the_token_and_a_workspace() {
    let daemon = runtime(DaemonConfig::default());
    assert_eq!(daemon.authenticate("secret"), Ok(()));
    assert_eq!(
        daemon.session("wrong", "/home/me", Ok("/home/me".to_string()), &Ok(EXT4)),
        Err(ProtocolFailure::new(
            "authentication_failed",
            "invalid daemon token"
        ))
    );
    let refused = daemon
        .session("secret", "/etc", Ok("/etc".to_string()), &Ok(EXT4))
        .unwrap_err();
    assert_eq!(refused.code, "invalid_workspace");
    let plan = daemon
        .session("secret", "/home/me/w", Ok("/home/me/w".to_string()), &Ok(EXT4))
        .unwrap();
    let mut one = plan.read_file_state;
    let other = daemon
        .session("secret", "/home/me/w", Ok("/home/me/w".to_string()), &Ok(EXT4))
        .unwrap()
        .read_file_state;
    one.record("/home/me/w/f", written_record("a", 1));
    let existing = Existing::Text("a".to_string());
    assert_eq!(check_write(&one, "/home/me/w/f", &existing), Ok(()));
    assert!(check_write(&other, "/home/me/w/f", &existing).is_err());
    assert_eq!(plan.workspace, "/home/me/w");
    assert_eq!(plan.shell.cwd.as_deref(), Some("/home/me/w"));
    assert_eq!(plan.shell.workspace_root.as_deref(), Some("/home/me/w"));
    assert_eq!(
        plan.shell.base_env.get("PATH").map(String::as_str),
        Some("/usr/local/bin:/usr/bin:/bin")
    );
    assert!(DaemonRuntime::new(
        DaemonConfig::default(),
        "secret".to_string(),
        "/gone",
        Err("No such file".to_string()),
        &Ok(EXT4),
    )
    .unwrap_err()
    .starts_with("invalid workspace_root /gone: "));
}

#[test]
fn sessions_follow_the_configuration() {
    let mut config = DaemonConfig::default();
    config.tool_timeout_ms = Some(250);
    config.concurrency_limit = Some(0);
    config.global_concurrency_limit = Some(3);
    config.exclusive = Some(true);
    config.plugins_enabled = Some(false);
    config.plugin_start_timeout_ms = Some(7);
    let daemon = runtime(config);
    assert_eq!(daemon.global_limit(), 3);
    let plan = daemon
        .session("secret", "/home/me", Ok("/home/me".to_string()), &Ok(EXT4))
        .unwrap();
    assert_eq!(plan.tool_timeout, Some(250_000_000));
    assert_eq!(plan.concurrency_limit, 1);
    assert!(plan.exclusive);
    assert_eq!(daemon.plugin_dir(Some("/home/me".to_string())), Ok(None));
    assert_eq!(daemon.plugin_runtime().start_timeout, 7_000_000);

    let daemon = runtime(DaemonConfig::default());
    assert_eq!(
        daemon.plugin_dir(Some("/home/me".to_string())),
        Ok(Some("/home/me/.local/share/ate/plugins".to_string()))
    );
    assert_eq!(
        daemon.plugin_dir(None).unwrap_err().message,
        "could not resolve plugin directory"
    );
    assert_eq!(
        discovery_failure(&StoreError::Io("x".to_string())).message,
        "plugin discovery failed: plugin store I/O failed: x"
    );
    assert_eq!(
        workspace_root(&DaemonConfig::default(), Some("/home/me".to_string())),
        Ok("/home/me".to_string())
    );
    assert!(workspace_root(&DaemonConfig::default(), None).is_err());
}

#[test]
fn the_configuration_is_looked_for_in_order() {
    let home = || Some("/home/me".to_string());
    let variable = || Some("/from/env".to_string());
    let path = |args: &[&str], variable: Option<String>, exists: bool| {
        find_path(&strings(args), variable, home(), exists)
    };
    assert_eq!(
        path(&["d", "--config", "/a"], variable(), true),
        Ok(Some("/a".to_string()))
    );
    assert_eq!(
        path(&["d", "--config=/b", "serve"], variable(), true),
        Ok(Some("/b".to_string()))
    );
    assert_eq!(
        path(&["d", "--config", "/a", "--config=/b"], None, true),
        Ok(Some("/b".to_string()))
    );
    assert_eq!(path(&["d"], variable(), true), Ok(Some("/from/env".to_string())));
    assert_eq!(
        path(&["d"], None, true),
        Ok(Some("/home/me/.config/ate/config.json".to_string()))
    );
    assert_eq!(path(&["d"], None, false), Ok(None));
    assert_eq!(
        path(&["d", "--config"], None, true),
        Err(ConfigError::Usage("d: --config requires a path".to_string()))
    );
    assert_eq!(default_config_path("/h"), "/h/.config/ate/config.json");
}

#[test]
fn a_missing_configuration_is_the_default() {
    let at = |file: ConfigFile| load(Some(("/c".to_string(), file)));
    assert_eq!(load(None), Ok(DaemonConfig::default()));
    assert_eq!(at(ConfigFile::Missing), Ok(DaemonConfig::default()));
    let unreadable = at(ConfigFile::Unreadable("denied".to_string())).unwrap_err();
    assert_eq!(unreadable.describe(), "cannot read config file /c: denied");
    let broken = at(ConfigFile::Decoded(Err("trailing comma".to_string()))).unwrap_err();
    assert_eq!(broken.describe(), "invalid config: trailing comma");
    assert_eq!(
        ConfigError::Usage("x".to_string()).describe(),
        "invalid invocation: x"
    );
    let mut config = DaemonConfig::default();
    config.concurrency_limit = Some(9);
    assert_eq!(
        at(ConfigFile::Decoded(Ok(config))).unwrap().concurrency_limit,
        Some(9)
    );
}

#[test]
fn home_directories() {
    let text = |text: &str| Some(text.to_string());
    assert_eq!(home_dir(text("/a"), text("/b")), text("/a"));
    assert_eq!(home_dir(None, text("/b")), text("/b"));
    assert_eq!(home_dir(text("C:Usersme"), text("/b")), text("/b"));
    assert_eq!(home_dir(text("C:Usersme"), None), text("C:Usersme"));
    assert_eq!(home_dir(None, None), None);
    assert_eq!(
        default_plugin_dir(text("/a")),
        text("/a/.local/share/ate/plugins")
    );
    assert_eq!(state_path(text("/a")), Ok("/a/.local/state/ate/daemon.json".to_string()));
    assert_eq!(
        temporary_state_path(text("/a"), 12),
        Ok("/a/.local/state/ate/daemon.json.12".to_string())
    );
    assert_eq!(
        state_lock_path(text("/a")),
        Ok("/a/.local/state/ate/daemon.lock".to_string())
    );
    assert_eq!(
        service_lock_path(text("/a")),
        Ok("/a/.local/state/ate/daemon.service.lock".to_string())
    );
    assert_eq!(state_path(None), Err("HOME is unavailable".to_string()));
}

fn state(version: u32) -> DaemonState {
    DaemonState {
        port: 4000,
        pid: 77,
        protocol_version: version,
        token: "t".to_string(),
    }
}

#[test]
fn only_a_running_daemon_is_healthy() {
    assert!(process_is_daemon(Some("/d"), Some("/d")));
    assert!(!process_is_daemon(Some("/d"), Some("/e")));
    assert!(!process_is_daemon(None, None));
    assert!(is_candidate(&state(PROTOCOL_VERSION), true));
    assert!(!is_candidate(&state(1), true));
    assert_eq!(
        healthy(Some(state(PROTOCOL_VERSION)), true, true),
        Some(state(PROTOCOL_VERSION))
    );
    assert_eq!(healthy(Some(state(PROTOCOL_VERSION)), true, false), None);
    assert_eq!(healthy(Some(state(PROTOCOL_VERSION)), false, true), None);
    assert_eq!(healthy(None, true, true), None);
    assert_eq!(
        stop(Some(&state(2)), true),
        StopPlan {
            terminate: Some(77),
            forget: true,
            stopped: true,
        }
    );
    assert_eq!(stop(Some(&state(2)), false).terminate, None);
    assert!(stop(Some(&state(2)), false).forget);
    assert!(!stop(None, true).forget);
}

#[test]
fn tokens_are_hexadecimal() {
    assert_eq!(token_of(&[0, 0x1f, 0xff]), "001fff");
    assert_eq!(token_of(&[7; 32]).len(), 64);
    assert_ne!(token_of(&[1, 2]), token_of(&[2, 1]));
}

fn plugin(id: &str, tools: &[&str], missing: &[&str], enabled: bool) -> InstalledPlugin {
    InstalledPlugin {
        manifest: PluginManifest {
            schema_version: 1,
            id: id.to_string(),
            version: "1.0.0".to_string(),
            entrypoint: strings(&["run"]),
            required_commands: vec![],
            max_concurrency: 1,
            tools: tools
                .iter()
                .map(|name| PluginToolManifest {
                    name: name.to_string(),
                    description: String::new(),
                    input_schema: Json::object(vec![]),
                    concurrency_safe: false,
                })
                .collect(),
        },
        path: format!("/p/{id}"),
        enabled,
        missing_commands: strings(missing),
    }
}

#[test]
fn plugins_with_contested_names_are_skipped() {
    let (selected, notes) = select_plugins(
        vec![
            plugin("a.a", &["one"], &[], true),
            plugin("a.b", &["two", "Read"], &[], true),
            plugin("a.c", &["three"], &["zip", "tar"], true),
            plugin("a.d", &["four"], &[], false),
            plugin("a.e", &["five"], &[], true),
            plugin("a.f", &["five"], &[], true),
        ],
        &strings(&["Read", "shell"]),
    );
    let ids: Vec<&str> = selected.iter().map(|p| p.manifest.id.as_str()).collect();
    assert_eq!(ids, ["a.a"]);
    assert_eq!(
        notes,
        [
            "plugin a.c skipped; missing commands: zip, tar",
            "plugin a.b skipped; conflicting tool names: Read",
            "plugin a.e skipped; conflicting tool names: five",
            "plugin a.f skipped; conflicting tool names: five",
        ]
    );
}

fn request(id: &str) -> ExecutionRequest {
    ExecutionRequest {
        id: id.to_string(),
        tool: "shell".to_string(),
        arguments: Json::object(vec![]),
    }
}

fn execute(id: &str) -> ClientMessage {
    ClientMessage::Execute {
        request: request(id),
        timeout_ms: Some(5),
    }
}

fn failed(id: Option<&str>, code: &str, message: &str) -> ServerMessage {
    ServerMessage::Failed {
        execution_id: id.map(str::to_string),
        error: ProtocolFailure::new(code, message),
    }
}

fn descriptor() -> ToolDescriptor {
    ToolDescriptor {
        name: "shell".to_string(),
        description: String::new(),
        input_schema: Json::object(vec![]),
    }
}

fn opened() -> Connection<u8> {
    let mut connection = Connection::new();
    let ack = connection.opened(Ok(("/w".to_string(), vec![descriptor()])));
    assert_eq!(
        ack,
        ServerMessage::HelloAck {
            protocol_version: PROTOCOL_VERSION,
            workspace: "/w".to_string(),
        }
    );
    connection
}

#[test]
fn the_handshake_comes_first() {
    let mut connection: Connection<u8> = Connection::new();
    assert_eq!(
        connection.receive(execute("a"), 1),
        Reaction::Reply(failed(
            None,
            "handshake_required",
            "hello must be the first client message"
        ))
    );
    let greet = |protocol_version: u32| ClientMessage::Hello {
        protocol_version,
        token: "t".to_string(),
        workspace: "/w".to_string(),
    };
    assert_eq!(
        connection.receive(greet(1), 1),
        Reaction::Reply(failed(
            None,
            "unsupported_protocol",
            "host requested protocol 1, guest supports 2"
        ))
    );
    assert_eq!(
        connection.receive(greet(2), 1),
        Reaction::Open {
            token: "t".to_string(),
            workspace: "/w".to_string(),
        }
    );
    let refused = connection.opened(Err(ProtocolFailure::new("invalid_workspace", "no")));
    assert_eq!(refused, failed(None, "invalid_workspace", "no"));
    assert!(matches!(
        connection.receive(execute("a"), 1),
        Reaction::Reply(ServerMessage::Failed { .. })
    ));
}

#[test]
fn requests_are_accepted_once_and_completed() {
    let mut connection = opened();
    assert_eq!(
        connection.receive(execute("end-to-end"), 1),
        Reaction::Run {
            accepted: ServerMessage::Accepted {
                execution_id: "end-to-end".to_string(),
            },
            request: request("end-to-end"),
            timeout_ms: Some(5),
        }
    );
    assert_eq!(
        connection.receive(execute("end-to-end"), 2),
        Reaction::Reply(failed(
            Some("end-to-end"),
            "duplicate_execution_id",
            "an execution with this id is already active"
        ))
    );
    assert_eq!(connection.handle("end-to-end"), Some(&1));
    let result = ExecutionResult {
        execution_id: "end-to-end".to_string(),
        tool: "shell".to_string(),
        content: Json::object(vec![("stdout".to_string(), Json::text("from-wsl\n"))]),
        is_error: false,
    };
    assert_eq!(
        connection.completed(result.clone()),
        ServerMessage::Completed { result }
    );
    assert_eq!(connection.handle("end-to-end"), None);
    assert!(matches!(
        connection.receive(execute("end-to-end"), 3),
        Reaction::Run { .. }
    ));
    assert_eq!(connection.end(), [("end-to-end".to_string(), 3)]);
}

#[test]
fn accepted_executions_complete_once() {
    let mut connection = opened();
    let mut sent = vec![];
    let mut send = |connection: &mut Connection<u8>, message: ClientMessage| {
        match connection.receive(message, 0) {
            Reaction::Reply(reply) | Reaction::Stop(reply) => sent.push(reply),
            Reaction::Run { accepted, .. } => sent.push(accepted),
            Reaction::Cancel { acknowledged, .. } => sent.push(acknowledged),
            Reaction::Open { .. } => {}
        }
        sent.len()
    };
    let result = |id: &str| ExecutionResult {
        execution_id: id.to_string(),
        tool: "shell".to_string(),
        content: Json::Null,
        is_error: false,
    };
    let cancel = |id: &str| ClientMessage::Cancel {
        execution_id: id.to_string(),
    };
    send(&mut connection, execute("a"));
    send(&mut connection, execute("b"));
    send(&mut connection, execute("a"));
    let second = connection.completed(result("b"));
    send(&mut connection, cancel("b"));
    send(&mut connection, cancel("a"));
    send(&mut connection, execute("b"));
    send(&mut connection, ClientMessage::Shutdown);
    let cancelled = connection.end();
    assert_eq!(cancelled, [("a".to_string(), 0), ("b".to_string(), 0)]);
    let last = [
        connection.completed(result("b")),
        connection.completed(result("a")),
    ];
    let accepted = |id: &str| ServerMessage::Accepted {
        execution_id: id.to_string(),
    };
    let completed = |id: &str| ServerMessage::Completed { result: result(id) };
    let acknowledged = |id: &str, found: bool| ServerMessage::CancelAcknowledged {
        execution_id: id.to_string(),
        found,
    };
    sent.insert(3, second);
    sent.extend(last);
    assert_eq!(
        sent,
        [
            accepted("a"),
            accepted("b"),
            failed(
                Some("a"),
                "duplicate_execution_id",
                "an execution with this id is already active"
            ),
            completed("b"),
            acknowledged("b", false),
            acknowledged("a", true),
            accepted("b"),
            ServerMessage::ShutdownAck,
            completed("b"),
            completed("a"),
        ]
    );
}

#[test]
fn cancellations_listings_and_the_end_are_answered() {
    let mut connection = opened();
    connection.receive(execute("a"), 1);
    let cancel = |id: &str| ClientMessage::Cancel {
        execution_id: id.to_string(),
    };
    for (id, found) in [("a", true), ("b", false)] {
        assert_eq!(
            connection.receive(cancel(id), 9),
            Reaction::Cancel {
                execution_id: id.to_string(),
                acknowledged: ServerMessage::CancelAcknowledged {
                    execution_id: id.to_string(),
                    found,
                },
            }
        );
    }
    assert_eq!(
        connection.receive(
            ClientMessage::ListTools {
                request_id: "tools-1".to_string(),
            },
            9
        ),
        Reaction::Reply(ServerMessage::Tools {
            request_id: "tools-1".to_string(),
            tools: copy_descriptors(&vec![descriptor()]),
        })
    );
    assert_eq!(
        connection.receive(ClientMessage::Shutdown, 9),
        Reaction::Stop(ServerMessage::ShutdownAck)
    );
}

#[test]
fn events_are_told_without_arguments() {
    let message = wire_message(ExecutionEvent::Failed {
        execution_id: "a".to_string(),
        tool: "shell".to_string(),
        error: ExecutionError::TimedOut {
            message: "late".to_string(),
        },
        argument_keys: strings(&["secret"]),
        cwd: "/w".to_string(),
        env_keys: strings(&["TOKEN"]),
    });
    assert_eq!(message, failed(Some("a"), "timed_out", "late"));
    let started = ExecutionEvent::Started {
        execution_id: "a".to_string(),
        tool: "shell".to_string(),
        detail: "ls".to_string(),
    };
    assert_eq!(
        wire_message(started),
        ServerMessage::Started {
            execution_id: "a".to_string(),
            tool: "shell".to_string(),
            detail: "ls".to_string(),
        }
    );
    assert_eq!(
        DaemonError::Frame(FrameError::Io("x".to_string())).describe(),
        "transport I/O failed: x"
    );
    assert_eq!(
        DaemonError::WriterTask("x".to_string()).describe(),
        "response writer task failed: x"
    );
}

#[test]
fn daemon_commands() {
    for (first, command) in [
        (Some("tool"), DaemonCommand::Tool),
        (Some("ensure-running"), DaemonCommand::EnsureRunning),
        (Some("status"), DaemonCommand::Status),
        (Some("stop"), DaemonCommand::Stop),
        (Some("serve"), DaemonCommand::Serve),
        (Some("stdio"), DaemonCommand::Stdio),
        (None, DaemonCommand::Stdio),
    ] {
        assert_eq!(parse_daemon_command(first), command);
    }
    let parse = |args: &[&str]| parse_tool_command(&strings(args));
    assert_eq!(parse(&["install"]), Ok(ToolCommand::Install { replace: false }));
    assert_eq!(
        parse(&["install", "--replace"]),
        Ok(ToolCommand::Install { replace: true })
    );
    assert_eq!(parse(&["list"]), Ok(ToolCommand::List));
    assert_eq!(
        parse(&["enable", "a.b"]),
        Ok(ToolCommand::SetEnabled {
            id: "a.b".to_string(),
            enabled: true,
        })
    );
    assert_eq!(
        parse(&["disable", "a.b"]),
        Ok(ToolCommand::SetEnabled {
            id: "a.b".to_string(),
            enabled: false,
        })
    );
    assert_eq!(
        parse(&["remove", "a.b"]),
        Ok(ToolCommand::Remove {
            id: "a.b".to_string(),
        })
    );
    assert_eq!(
        parse(&["remove"]),
        Err("tool operation requires a plugin id".to_string())
    );
    assert_eq!(parse(&[]), Err(TOOL_USAGE.to_string()));
    assert_eq!(parse(&["nope"]), Err(TOOL_USAGE.to_string()));
    assert_eq!(tool_success("a.b").get_str("plugin_id"), Some("a.b"));
}

#[test]
fn cli_commands() {
    let parse = |args: &[&str]| parse_command(&strings(args));
    assert_eq!(
        parse(&["tool", "pack", "dir", "--output", "x.atepkg"]),
        Ok(CliCommand::Pack {
            source: "dir".to_string(),
            output: "x.atepkg".to_string(),
        })
    );
    assert_eq!(
        parse(&["tool", "pack", "dir"]),
        Err("pack requires --output <file>".to_string())
    );
    assert_eq!(
        parse(&["tool", "validate", "dir"]),
        Ok(CliCommand::Validate {
            source: "dir".to_string(),
        })
    );
    assert_eq!(
        parse(&["tool", "install", "dir", "--replace", "--distribution", "Debian"]),
        Ok(CliCommand::Install {
            source: "dir".to_string(),
            distribution: "Debian".to_string(),
            script: "exec \"$HOME/.local/bin/ate-daemon\" tool install --replace".to_string(),
        })
    );
    assert_eq!(
        parse(&["tool", "list"]),
        Ok(CliCommand::Manage {
            distribution: "Ubuntu".to_string(),
            script: "exec \"$HOME/.local/bin/ate-daemon\" tool list".to_string(),
        })
    );
    assert_eq!(
        parse(&["tool", "remove", "com.example.echo"]),
        Ok(CliCommand::Manage {
            distribution: "Ubuntu".to_string(),
            script: "exec \"$HOME/.local/bin/ate-daemon\" tool remove com.example.echo"
                .to_string(),
        })
    );
    assert_eq!(
        parse(&["tool", "remove", "x; rm"]),
        Err("invalid plugin id".to_string())
    );
    assert_eq!(
        parse(&["tool", "enable"]),
        Err("operation requires a plugin id".to_string())
    );
    assert_eq!(parse(&[]), Err(USAGE.to_string()));
    assert_eq!(parse(&["tool", "nope"]), Err(USAGE.to_string()));
}

#[test]
fn cli_parts() {
    let args = strings(&["a", "--x", "1", "--y"]);
    assert_eq!(required(&args, 0, "none"), Ok("a".to_string()));
    assert_eq!(required(&args, 1, "none"), Err("none".to_string()));
    assert_eq!(required(&args, 9, "none"), Err("none".to_string()));
    assert_eq!(option(&args, "--x"), Some("1".to_string()));
    assert_eq!(option(&args, "--y"), None);
    assert_eq!(validate_cli_id("com.example.echo"), Ok(()));
    assert!(validate_cli_id("$(id)").is_err());
    assert_eq!(
        wsl_command("Ubuntu", "true"),
        ["--distribution", "Ubuntu", "--exec", "sh", "-lc", "true"]
    );
    assert_eq!(ensure_success(true, ""), Ok(()));
    assert_eq!(
        ensure_success(false, "exit code: 3"),
        Err("WSL command exited with exit code: 3".to_string())
    );
}

#[test]
fn a_daemon_is_started_once_and_waited_for() {
    let state = || DaemonState {
        port: 7,
        pid: 8,
        protocol_version: 1,
        token: "t".to_string(),
    };
    for (spawned, tries) in [(false, 0), (true, 0), (true, 100)] {
        assert_eq!(
            ensure_step(spawned, tries, Some(state())),
            StartStep::Ready(state())
        );
    }
    assert_eq!(ensure_step(false, 0, None), StartStep::Spawn);
    assert_eq!(ensure_step(true, 0, None), StartStep::Wait(25));
    assert_eq!(ensure_step(true, 99, None), StartStep::Wait(25));
    assert_eq!(
        ensure_step(true, 100, None),
        StartStep::Failed("daemon did not become ready".to_string())
    );
}
