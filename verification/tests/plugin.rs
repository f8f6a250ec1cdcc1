//! Manifests, packages, the store, installation and the supervisor.

use ate::engine::error::ExecutionError;
use ate::engine::tool::Tool;
use ate::json::Json;
use ate::plugin::install::{next_step, InstallState, Reply};
use ate::plugin::manifest::{
    schema_sentence, valid_plugin_id, valid_tool_name, PluginManifest, PluginToolManifest,
};
use ate::plugin::messages::{PluginRequest, PluginResponse};
use ate::plugin::package::{
    check_placement, safe_relative, unpack_entries, unpack_plan, validate_package, ArchiveEntry,
    PackageCheck, PackageStep, StoreError, UnpackStep,
};
use ate::plugin::store::{
    check_tree_item, command_candidates, discover, executable_mode, listed_names,
    load_installed, missing_commands, needed_commands, read_manifest, validate_id, DiskFacts,
    InstalledPlugin, PluginStore, DISABLED_MARKER,
};
use ate::plugin::startup::{start_step, StartReply, StartStep};
use ate::plugin::supervisor::{
    check_handshake, heard, hello, invoke_request, launch, remaining_ms, start_failed, Call,
    ExternalToolAdapter, PluginRuntimeConfig, PluginSupervisor,
};

fn strings(list: &[&str]) -> Vec<String> {
    list.iter().map(|text| text.to_string()).collect()
}

fn tool(name: &str) -> PluginToolManifest {
    PluginToolManifest {
        name: name.to_string(),
        description: "echo".to_string(),
        input_schema: Json::object(vec![]),
        concurrency_safe: false,
    }
}

fn manifest(id: &str, entrypoint: &[&str], tools: Vec<PluginToolManifest>) -> PluginManifest {
    PluginManifest {
        schema_version: 1,
        id: id.to_string(),
        version: "1.0.0".to_string(),
        entrypoint: strings(entrypoint),
        required_commands: vec![],
        max_concurrency: 1,
        tools,
    }
}

fn echo() -> PluginManifest {
    manifest("com.example.echo", &["bin/run"], vec![tool("example_echo")])
}

#[test]
fn rejects_duplicate_tools() {
    let tool = PluginToolManifest {
        name: "same".to_string(),
        description: "a".to_string(),
        input_schema: Json::object(vec![]),
        concurrency_safe: false,
    };
    let manifest = PluginManifest {
        schema_version: 1,
        id: "com.example.test".to_string(),
        version: "1.0.0".to_string(),
        entrypoint: vec!["bin/run".to_string()],
        required_commands: vec![],
        max_concurrency: 1,
        tools: vec![tool.clone(), tool],
    };
    assert!(manifest.validate().unwrap_err().contains("duplicate"));
}

#[test]
fn every_rule_of_a_manifest_is_checked() {
    assert_eq!(echo().validate(), Ok(()));
    let broken = |change: fn(&mut PluginManifest)| {
        let mut manifest = echo();
        change(&mut manifest);
        manifest.validate().unwrap_err()
    };
    assert_eq!(
        broken(|m| m.schema_version = 2),
        "unsupported manifest schema 2"
    );
    assert_eq!(
        broken(|m| m.id = "Echo".to_string()),
        "plugin id must be a dot-separated lowercase identifier"
    );
    assert_eq!(
        broken(|m| m.version = "1.0".to_string()),
        "invalid version: unexpected end of input while parsing minor version number"
    );
    assert_eq!(
        broken(|m| m.entrypoint.clear()),
        "entrypoint must not be empty"
    );
    assert_eq!(
        broken(|m| m.entrypoint[0].clear()),
        "entrypoint must not be empty"
    );
    assert_eq!(
        broken(|m| m.entrypoint.push("a\0b".to_string())),
        "entrypoint contains NUL"
    );
    assert_eq!(
        broken(|m| m.required_commands.push(String::new())),
        "required_commands must not contain empty names"
    );
    assert_eq!(
        broken(|m| m.max_concurrency = 0),
        "max_concurrency must be at least 1"
    );
    assert_eq!(
        broken(|m| m.tools.clear()),
        "manifest must expose at least one tool"
    );
    assert_eq!(
        broken(|m| m.tools[0].name = "a b".to_string()),
        "invalid tool name `a b`"
    );
    let refused = broken(|m| {
        m.tools[0].input_schema =
            Json::object(vec![("type".to_string(), Json::text("no such type"))])
    });
    assert!(refused.starts_with("invalid schema for `example_echo`: "));
    assert!(refused.len() > "invalid schema for `example_echo`: ".len());
    assert_eq!(schema_sentence("t", "why"), "invalid schema for `t`: why");
}

#[test]
fn versions_are_semantic() {
    for version in ["0.0.0", "1.2.3-alpha.1", "1.2.3+build", "10.20.30"] {
        let mut manifest = echo();
        manifest.version = version.to_string();
        assert_eq!(manifest.validate(), Ok(()), "{version}");
    }
    for version in ["", "1", "01.2.3", "1.2.3.4", "v1.2.3", " 1.2.3"] {
        let mut manifest = echo();
        manifest.version = version.to_string();
        assert!(manifest.validate().is_err(), "{version}");
    }
}

#[test]
fn ids_and_names() {
    for id in ["com.example.echo", "a.b", "a-1.b-2"] {
        assert!(valid_plugin_id(id), "{id}");
    }
    for id in ["", "com", "com.", ".com", "com..x", "Com.x", "com.x_y", "com.x/y"] {
        assert!(!valid_plugin_id(id), "{id}");
    }
    let longest = format!("a.{}", "b".repeat(126));
    assert!(valid_plugin_id(&longest));
    assert!(!valid_plugin_id(&format!("{longest}b")));
    for name in ["a", "A_b-9", &"n".repeat(64)] {
        assert!(valid_tool_name(name), "{name}");
    }
    for name in ["", "a b", "é", &"n".repeat(65)] {
        assert!(!valid_tool_name(name), "{name}");
    }
}

#[test]
fn decoding_comes_before_the_rules() {
    assert_eq!(
        PluginManifest::parse(Err("expected value".to_string())),
        Err("expected value".to_string())
    );
    assert_eq!(PluginManifest::parse(Ok(echo())), Ok(echo()));
    assert_eq!(PluginManifest::default_max_concurrency(), 1);
    assert!(echo().entrypoint_is_local());
    assert!(!manifest("a.b", &["python3", "plugin.py"], vec![]).entrypoint_is_local());
}

#[test]
fn unsafe_paths_are_rejected() {
    assert!(!safe_relative("../escape"));
    assert!(!safe_relative("/absolute"));
    assert!(safe_relative("bin/run"));
    assert!(!safe_relative(""));
    assert!(!safe_relative("bin/../../escape"));
}

fn archive(files: &[(&str, &[u8])]) -> Vec<u8> {
    let encoder = flate2::write::GzEncoder::new(Vec::new(), flate2::Compression::default());
    let mut builder = tar::Builder::new(encoder);
    for (path, content) in files {
        let mut header = tar::Header::new_gnu();
        header.set_size(content.len() as u64);
        header.set_mode(0o644);
        header.set_cksum();
        builder.append_data(&mut header, path, *content).unwrap();
    }
    builder.into_inner().unwrap().finish().unwrap()
}

#[test]
fn package_round_trip_install_disable_and_remove() {
    let text = "{\"id\":\"com.example.echo\"}";
    let package = archive(&[("bin/run", b"#!/bin/sh\n"), ("tool.json", text.as_bytes())]);
    let mut check = validate_package(&package);
    assert_eq!(check.next(), PackageStep::Decode(text.to_string()));
    assert_eq!(check.supply(Ok(echo())), Ok(()));
    let PackageStep::Done(Ok(accepted)) = check.next() else {
        panic!("the package is refused");
    };
    assert_eq!(accepted.id, "com.example.echo");

    let store = PluginStore::new("/plugins".to_string());
    let path = store.destination("com.example.echo");
    assert_eq!(path, "/plugins/com.example.echo");
    let facts = |disabled: bool| DiskFacts {
        directory_name: Some("com.example.echo".to_string()),
        entrypoint_is_file: true,
        disabled,
    };
    let installed = load_installed(echo(), &path, &facts(false), vec![]).unwrap();
    assert!(installed.enabled);

    let change = store
        .set_enabled("com.example.echo", true, false)
        .unwrap();
    assert_eq!(change.path, "/plugins/com.example.echo/.disabled");
    assert!(change.write);
    assert_eq!(DISABLED_MARKER, "disabled by ate\n");
    let disabled = load_installed(echo(), &path, &facts(true), vec![]);
    assert!(!discover(vec![(path.clone(), disabled)]).0[0].enabled);

    let (from, to) = store
        .remove("com.example.echo", true, 7, 9)
        .unwrap();
    assert_eq!(from, "/plugins/com.example.echo");
    assert_eq!(to, "/plugins/.removed-7-9");
    assert!(listed_names(&vec![b".removed-7-9".to_vec()]).is_empty());
}

#[test]
fn packages_without_a_manifest_are_refused() {
    let mut check = validate_package(&archive(&[("bin/run", b"x")]));
    assert_eq!(
        check.next(),
        PackageStep::Done(Err(StoreError::Invalid("tool.json is missing".to_string())))
    );
    let mut nested = validate_package(&archive(&[("sub/tool.json", b"{}")]));
    assert!(matches!(nested.next(), PackageStep::Done(Err(_))));
}

#[test]
fn packages_that_are_no_archives_are_refused() {
    let mut check = validate_package(b"not a gzip stream");
    assert!(matches!(
        check.next(),
        PackageStep::Done(Err(StoreError::Io(_)))
    ));
}

#[test]
fn the_rules_of_a_package_are_checked_entry_by_entry() {
    let entry = |is_file: bool, is_dir: bool, path: &str, content: &[u8]| {
        Ok(ArchiveEntry {
            is_file,
            is_dir,
            path: path.as_bytes().to_vec(),
            content: Ok(content.to_vec()),
        })
    };
    let outcome = |entries: Vec<Result<ArchiveEntry, String>>| PackageCheck::new(entries).next();
    assert_eq!(
        outcome(vec![entry(false, false, "link", b"")]),
        PackageStep::Done(Err(StoreError::Invalid(
            "links and special archive entries are forbidden".to_string()
        )))
    );
    assert_eq!(
        outcome(vec![entry(true, false, "../x", b"")]),
        PackageStep::Done(Err(StoreError::Invalid(
            "unsafe archive path `../x`".to_string()
        )))
    );
    assert_eq!(
        outcome(vec![Err("broken pipe".to_string())]),
        PackageStep::Done(Err(StoreError::Io("broken pipe".to_string())))
    );
    assert_eq!(
        outcome(vec![entry(true, false, "tool.json", &[0xff])]),
        PackageStep::Done(Err(StoreError::Io(
            "stream did not contain valid UTF-8".to_string()
        )))
    );
    assert_eq!(
        outcome(vec![entry(true, false, "tool.json", &vec![b' '; 1_048_577])]),
        PackageStep::Done(Err(StoreError::Invalid(
            "tool.json exceeds 1 MiB".to_string()
        )))
    );
    assert_eq!(
        outcome(vec![entry(true, false, "tool.json", &vec![b' '; 1_048_576])]),
        PackageStep::Decode(" ".repeat(1_048_576))
    );
    assert_eq!(
        outcome(vec![
            entry(false, true, "bin", b""),
            entry(true, false, "./tool.json", b"{}"),
        ]),
        PackageStep::Decode("{}".to_string())
    );

    let mut check = PackageCheck::new(vec![entry(true, false, "tool.json", b"{}")]);
    check.next();
    assert_eq!(
        check.supply(Err("missing field".to_string())),
        Err(StoreError::Invalid("missing field".to_string()))
    );
    assert_eq!(
        check.next(),
        PackageStep::Done(Err(StoreError::Invalid("tool.json is missing".to_string())))
    );
}

#[test]
fn packages_unpack_to_their_entries() {
    let (steps, outcome) = unpack_plan(&archive(&[("tool.json", b"{}"), ("bin/run", b"x")]), b"p");
    assert_eq!(outcome, Ok(()));
    assert_eq!(
        steps,
        [
            UnpackStep {
                path: b"p/tool.json".to_vec(),
                is_dir: false,
                content: b"{}".to_vec(),
            },
            UnpackStep {
                path: b"p/bin/run".to_vec(),
                is_dir: false,
                content: b"x".to_vec(),
            },
        ]
    );
    let (steps, outcome) = unpack_plan(b"no archive", b"p");
    assert!(steps.is_empty());
    assert!(matches!(outcome, Err(StoreError::Io(_))));
}

#[test]
fn unpacked_entries_stay_inside() {
    let entry = |is_dir: bool, path: &[u8], content: Result<Vec<u8>, String>| {
        Ok(ArchiveEntry {
            is_file: !is_dir,
            is_dir,
            path: path.to_vec(),
            content,
        })
    };
    let step = |path: &[u8], is_dir: bool, content: &[u8]| UnpackStep {
        path: path.to_vec(),
        is_dir,
        content: content.to_vec(),
    };
    let lost = || Err("lost".to_string());
    assert_eq!(
        unpack_entries(
            &vec![
                entry(true, b"./bin/", lost()),
                entry(false, b"bin/\xff", Ok(b"x".to_vec())),
                entry(false, b"b", Ok(vec![])),
            ],
            b"/tmp/x"
        ),
        (
            vec![
                step(b"/tmp/x/./bin/", true, b""),
                step(b"/tmp/x/bin/\xff", false, b"x"),
                step(b"/tmp/x/b", false, b""),
            ],
            Ok(())
        )
    );
    let refused = |second, error: StoreError| {
        assert_eq!(
            unpack_entries(
                &vec![
                    entry(false, b"a", Ok(b"1".to_vec())),
                    second,
                    entry(false, b"c", Ok(b"3".to_vec())),
                ],
                b"/tmp/x"
            ),
            (vec![step(b"/tmp/x/a", false, b"1")], Err(error))
        );
    };
    let unsafe_path = |path: &str| StoreError::Invalid(format!("unsafe archive path `{path}`"));
    refused(entry(false, b"/etc/passwd", Ok(vec![])), unsafe_path("/etc/passwd"));
    refused(entry(false, b"a/../../b", lost()), unsafe_path("a/../../b"));
    refused(entry(true, b"../\xff", Ok(vec![])), unsafe_path("../\u{fffd}"));
    refused(entry(false, b"b", lost()), StoreError::Io("lost".to_string()));
    refused(Err("gone".to_string()), StoreError::Io("gone".to_string()));
    assert!(check_placement(false, true, &b"bin".to_vec()).is_ok());
    assert_eq!(check_tree_item("a", false, true, false), Ok(false));
    assert_eq!(check_tree_item("a", false, false, true), Ok(true));
    assert_eq!(
        check_tree_item("a/b", true, true, false),
        Err(StoreError::Invalid(
            "package contains a link or special file: a/b".to_string()
        ))
    );
    assert_eq!(executable_mode(0o644), 0o744);
    assert_eq!(executable_mode(0o755), 0o755);
}

#[test]
fn store_errors_and_places() {
    assert_eq!(
        StoreError::Io("disk".to_string()).describe(),
        "plugin store I/O failed: disk"
    );
    assert_eq!(
        StoreError::Invalid("x".to_string()).describe(),
        "invalid plugin package: x"
    );
    assert_eq!(
        StoreError::Exists("a.b".to_string()).describe(),
        "plugin `a.b` is already installed (use --replace)"
    );
    assert_eq!(
        StoreError::NotFound("a.b".to_string()).describe(),
        "plugin `a.b` is not installed"
    );
    let store = PluginStore::new("/p".to_string());
    assert_eq!(store.root(), "/p");
    assert_eq!(store.staging(1, 2), "/p/.install-1-2");
    assert_eq!(store.backup(1, 2), "/p/.backup-1-2");
    assert_eq!(store.removed(1, 2), "/p/.removed-1-2");
    assert_eq!(
        store.set_enabled("a.b", false, true),
        Err(StoreError::NotFound("a.b".to_string()))
    );
    assert_eq!(
        store.remove("a.b", false, 1, 2),
        Err(StoreError::NotFound("a.b".to_string()))
    );
    let no_id =
        || StoreError::Invalid("plugin id must be a dot-separated lowercase identifier".to_string());
    assert_eq!(validate_id("com.example.echo"), Ok(()));
    for id in ["NO", "a", "../x", "a.b\",\"id\":\"c.d", ""] {
        assert_eq!(validate_id(id), Err(no_id()));
        assert_eq!(store.set_enabled(id, true, true), Err(no_id()));
        assert_eq!(store.set_enabled(id, false, true), Err(no_id()));
        assert_eq!(store.remove(id, true, 1, 2), Err(no_id()));
    }
    assert_eq!(
        read_manifest(Err("gone".to_string())),
        Err(StoreError::Io("gone".to_string()))
    );
    assert_eq!(
        read_manifest(Ok(Err("no JSON".to_string()))),
        Err(StoreError::Invalid("no JSON".to_string()))
    );
    assert_eq!(read_manifest(Ok(Ok(echo()))), Ok(echo()));
}

#[test]
fn commands_are_looked_up_like_a_shell_does() {
    let mut plugin = manifest("a.b", &["python3", "p.py"], vec![tool("x")]);
    plugin.required_commands = strings(&["zip", "python3"]);
    let commands = needed_commands(&plugin);
    assert_eq!(commands, ["python3", "zip"]);
    assert!(needed_commands(&echo()).is_empty());
    assert_eq!(
        command_candidates("zip", Some("/usr/bin:/bin")),
        ["/usr/bin/zip", "/bin/zip"]
    );
    assert_eq!(command_candidates("./zip", Some("/bin")), ["./zip"]);
    assert!(command_candidates("zip", None).is_empty());
    assert_eq!(missing_commands(&commands, &vec![true, false]), ["zip"]);
}

#[test]
fn discovery_parts_plugins_from_complaints() {
    let facts = |name: &str, is_file: bool| DiskFacts {
        directory_name: Some(name.to_string()),
        entrypoint_is_file: is_file,
        disabled: false,
    };
    let entries = vec![
        (
            "/p/other".to_string(),
            load_installed(echo(), "/p/other", &facts("other", true), vec![]),
        ),
        (
            "/p/com.example.echo".to_string(),
            load_installed(
                echo(),
                "/p/com.example.echo",
                &facts("com.example.echo", true),
                strings(&["zip"]),
            ),
        ),
        (
            "/p/com.example.echo".to_string(),
            load_installed(
                echo(),
                "/p/com.example.echo",
                &facts("com.example.echo", false),
                vec![],
            ),
        ),
    ];
    let (plugins, complaints) = discover(entries);
    assert_eq!(
        plugins,
        [InstalledPlugin {
            manifest: echo(),
            path: "/p/com.example.echo".to_string(),
            enabled: true,
            missing_commands: strings(&["zip"]),
        }]
    );
    assert_eq!(
        complaints,
        [
            "/p/other: invalid plugin package: directory name does not match plugin id",
            "/p/com.example.echo: invalid plugin package: local entrypoint does not exist",
        ]
    );
    assert_eq!(
        listed_names(&vec![
            b"b.x".to_vec(),
            b".install-1-2".to_vec(),
            b"a.x\xff".to_vec(),
            b"a.x".to_vec(),
            b"b.x".to_vec(),
        ]),
        [b"a.x".to_vec(), b"a.x\xff".to_vec(), b"b.x".to_vec()]
    );
}

fn install(replace: bool, replies: Vec<Reply>) -> (InstallState, Vec<&'static str>) {
    let mut state = InstallState::CreateRoot;
    let mut moves = vec![];
    for reply in replies {
        let done = matches!(reply, Reply::Done);
        match &state {
            InstallState::MoveOldAway { .. } if done => moves.push("old away"),
            InstallState::MoveNewIn { .. } if done => moves.push("new in"),
            InstallState::RestoreOld { .. } if done => moves.push("old back"),
            _ => {}
        }
        state = next_step(replace, state, reply);
    }
    (state, moves)
}

fn prepared() -> Vec<Reply> {
    vec![
        Reply::Done,
        Reply::Done,
        Reply::Done,
        Reply::Read(echo()),
        Reply::Done,
    ]
}

fn loaded() -> InstalledPlugin {
    InstalledPlugin {
        manifest: echo(),
        path: "/p/com.example.echo".to_string(),
        enabled: true,
        missing_commands: vec![],
    }
}

#[test]
fn a_fresh_install_moves_the_new_plugin_in() {
    let mut replies = prepared();
    replies.extend([
        Reply::Found(false),
        Reply::Done,
        Reply::Loaded(loaded()),
        Reply::Done,
    ]);
    let (state, moves) = install(false, replies);
    assert_eq!(state, InstallState::Finished(Ok(loaded())));
    assert_eq!(moves, ["new in"]);
}

#[test]
fn an_installed_plugin_is_not_replaced_without_leave() {
    let mut replies = prepared();
    replies.extend([Reply::Found(true), Reply::Done]);
    let (state, moves) = install(false, replies);
    assert_eq!(
        state,
        InstallState::Finished(Err(StoreError::Exists("com.example.echo".to_string())))
    );
    assert!(moves.is_empty());
}

#[test]
fn a_failed_replacement_puts_the_old_plugin_back() {
    let error = || StoreError::Io("full".to_string());
    let mut replies = prepared();
    replies.extend([
        Reply::Found(true),
        Reply::Done,
        Reply::Refused(error()),
        Reply::Done,
        Reply::Done,
    ]);
    let (state, moves) = install(true, replies);
    assert_eq!(state, InstallState::Finished(Err(error())));
    assert_eq!(moves, ["old away", "old back"]);
}

#[test]
fn a_replacement_drops_the_backup_last() {
    let mut replies = prepared();
    replies.extend([
        Reply::Found(true),
        Reply::Done,
        Reply::Done,
        Reply::Done,
        Reply::Loaded(loaded()),
        Reply::Refused(StoreError::Io("staging is gone".to_string())),
    ]);
    let (state, moves) = install(true, replies);
    assert_eq!(state, InstallState::Finished(Ok(loaded())));
    assert_eq!(moves, ["old away", "new in"]);
}

fn call(handle: u8) -> Call<u8> {
    Call {
        tool: "test_echo".to_string(),
        handle,
    }
}

fn completed(id: &str, count: u64) -> PluginResponse {
    PluginResponse::Completed {
        invocation_id: id.to_string(),
        content: Json::object(vec![("count".to_string(), Json::unsigned(count))]),
    }
}

#[test]
fn persistent_plugin_handles_multiple_invocations() {
    let mut supervisor: PluginSupervisor<u8> = PluginSupervisor::new();
    assert_eq!(supervisor.prepare(), Some(1));
    supervisor.started();
    for (index, (id, expected)) in [("one", 1), ("two", 2)].into_iter().enumerate() {
        assert_eq!(supervisor.prepare(), None);
        let sent = supervisor.sent(id.to_string(), call(index as u8), Ok(()));
        assert!(sent.answer.is_none() && !sent.stop);
        let directive = supervisor.message(1, completed(id, expected));
        let answer = directive.answer.unwrap();
        assert_eq!(answer.id, id);
        assert_eq!(answer.handle, index as u8);
        assert_eq!(answer.outcome.unwrap().get_u64("count"), Some(expected));
    }

    supervisor.sent("crash".to_string(), call(3), Ok(()));
    let crashed = supervisor.closed(1, "plugin exited");
    assert!(crashed.stop);
    assert_eq!(crashed.failed.len(), 1);
    assert!(crashed.failed[0].outcome.is_err());
    assert_eq!(supervisor.prepare(), Some(2));
    supervisor.started();
    supervisor.sent("recovered".to_string(), call(4), Ok(()));
    assert_eq!(supervisor.handle("recovered"), Some(&4));
    let late = supervisor.message(1, completed("recovered", 9));
    assert!(late.answer.is_none());
    let recovered = supervisor.message(2, completed("recovered", 1));
    assert_eq!(
        recovered.answer.unwrap().outcome.unwrap().get_u64("count"),
        Some(1)
    );

    supervisor.sent("hang".to_string(), call(5), Ok(()));
    let cancelled = supervisor.cancel("hang");
    assert_eq!(
        cancelled.send,
        Some(PluginRequest::Cancel {
            invocation_id: "hang".to_string(),
        })
    );
    assert_eq!(cancelled.watch.as_deref(), Some("hang"));
    let hung = supervisor.kill_if_pending("hang");
    assert!(hung.stop);
    let error = hung.failed[0].outcome.clone().unwrap_err();
    assert!(error.describe().contains("ignored cancellation"));
    let nothing = supervisor.kill_if_pending("hang");
    assert!(!nothing.stop && nothing.failed.is_empty());
}

#[test]
fn a_plugin_that_breaks_the_protocol_is_stopped() {
    let messages = [
        (
            completed("ghost", 1),
            "completion for unknown invocation `ghost`",
        ),
        (
            PluginResponse::Progress {
                invocation_id: "ghost".to_string(),
                message: "m".to_string(),
                data: None,
            },
            "progress for unknown invocation `ghost`",
        ),
        (
            PluginResponse::Failed {
                invocation_id: "ghost".to_string(),
                code: "c".to_string(),
                message: "m".to_string(),
            },
            "failure for unknown invocation `ghost`",
        ),
        (
            PluginResponse::HelloAck {
                protocol_version: 1,
            },
            "unexpected lifecycle response",
        ),
        (PluginResponse::ShutdownAck, "unexpected lifecycle response"),
    ];
    for (message, reason) in messages {
        let mut supervisor: PluginSupervisor<u8> = PluginSupervisor::new();
        supervisor.prepare();
        supervisor.started();
        supervisor.sent("a".to_string(), call(1), Ok(()));
        supervisor.sent("b".to_string(), call(2), Ok(()));
        let directive = supervisor.message(1, message);
        assert!(directive.stop);
        let ids: Vec<&str> = directive.failed.iter().map(|r| r.id.as_str()).collect();
        assert_eq!(ids, ["a", "b"]);
        assert_eq!(
            directive.failed[0].outcome,
            Err(ExecutionError::ToolExecution {
                tool: "test_echo".to_string(),
                message: format!("plugin protocol violation: {reason}"),
            })
        );
        assert_eq!(supervisor.handle("a"), None);
    }
}

#[test]
fn calls_end_with_their_plugin() {
    let mut supervisor: PluginSupervisor<u8> = PluginSupervisor::new();
    let unstarted = start_failed("x".to_string(), call(1), "no such file");
    assert_eq!(
        unstarted.outcome.unwrap_err().describe(),
        "tool `test_echo` execution failed: no such file"
    );
    supervisor.prepare();
    supervisor.started();
    supervisor.sent("a".to_string(), call(1), Ok(()));
    let replaced = supervisor.sent("a".to_string(), call(2), Ok(()));
    assert_eq!(replaced.answer.as_ref().unwrap().handle, 1);
    assert_eq!(
        replaced.answer.unwrap().outcome.unwrap_err().describe(),
        "tool `test_echo` execution failed: plugin supervisor disconnected"
    );
    let progress = supervisor.message(
        1,
        PluginResponse::Progress {
            invocation_id: "a".to_string(),
            message: "half".to_string(),
            data: Some(Json::unsigned(1)),
        },
    );
    assert_eq!(
        progress.progress,
        Some(("a".to_string(), "half".to_string(), Some(Json::unsigned(1))))
    );
    let failed = supervisor.message(
        1,
        PluginResponse::Failed {
            invocation_id: "a".to_string(),
            code: "bad".to_string(),
            message: "worse".to_string(),
        },
    );
    assert_eq!(
        failed.answer.unwrap().outcome.unwrap_err().describe(),
        "tool `test_echo` execution failed: bad: worse"
    );
    supervisor.sent("b".to_string(), call(3), Ok(()));
    let unsent = supervisor.sent("c".to_string(), call(4), Err("broken pipe".to_string()));
    assert!(unsent.stop);
    assert_eq!(
        unsent.answer.unwrap().outcome.unwrap_err().describe(),
        "tool `test_echo` execution failed: writing request failed: broken pipe"
    );
    assert_eq!(
        unsent.failed[0].outcome.clone().unwrap_err().describe(),
        "tool `test_echo` execution failed: plugin process disconnected"
    );
    supervisor.prepare();
    supervisor.started();
    supervisor.sent("d".to_string(), call(5), Ok(()));
    let stopped = supervisor.shut_down();
    assert_eq!(
        stopped.failed[0].outcome.clone().unwrap_err().describe(),
        "tool `test_echo` execution failed: plugin supervisor stopped"
    );
    assert!(!supervisor.closed(2, "plugin exited").stop);
}

#[test]
fn a_plugin_is_launched_from_its_manifest() {
    let config = PluginRuntimeConfig::default();
    assert_eq!(config.start_timeout, 5_000_000_000);
    assert_eq!(config.cancel_grace, 2_000_000_000);
    let local = launch(&echo(), "/p/com.example.echo", &config);
    assert_eq!(local.cwd, "/p/com.example.echo");
    assert_eq!((local.memory_bytes, local.process_count), (None, None));
    assert_eq!(local.program, "/p/com.example.echo/bin/run");
    assert!(local.args.is_empty());
    assert_eq!(
        local.env,
        [
            ("PATH", "/usr/local/bin:/usr/bin:/bin"),
            ("LANG", "C.UTF-8"),
            ("ATE_PLUGIN_ID", "com.example.echo"),
            ("ATE_PLUGIN_PROTOCOL_VERSION", "1"),
        ]
        .map(|(key, value)| (key.to_string(), value.to_string()))
    );
    let python = launch(
        &manifest("a.b", &["python3", "plugin.py"], vec![tool("x")]),
        "/p/a.b",
        &config,
    );
    assert_eq!(python.program, "python3");
    assert_eq!(python.cwd, "/p/a.b");
    let limited = PluginRuntimeConfig {
        memory_bytes: Some(5),
        process_count: Some(6),
        ..PluginRuntimeConfig::default()
    };
    let limited = launch(&echo(), "/p/com.example.echo", &limited);
    assert_eq!((limited.memory_bytes, limited.process_count), (Some(5), Some(6)));
    assert_eq!(python.args, ["plugin.py"]);
    assert_eq!(
        hello(&echo()),
        PluginRequest::Hello {
            protocol_version: 1,
            package_id: "com.example.echo".to_string(),
        }
    );
}

#[test]
fn the_handshake_of_a_plugin_is_checked() {
    let ack = |version: u32| {
        Some(Ok(Some(PluginResponse::HelloAck {
            protocol_version: version,
        })))
    };
    assert_eq!(check_handshake(ack(1), ""), Ok(()));
    assert_eq!(
        check_handshake(ack(2), "shown"),
        Err("unexpected handshake response: shown".to_string())
    );
    assert_eq!(
        check_handshake(None, ""),
        Err("plugin handshake timed out".to_string())
    );
    assert!(check_handshake(Some(Ok(None)), "").is_err());
    assert!(check_handshake(Some(Err("bad frame".to_string())), "").is_err());
    assert_eq!(heard(Ok(Some(completed("a", 1)))), Ok(completed("a", 1)));
    assert_eq!(heard(Ok(None)), Err("plugin exited".to_string()));
    assert_eq!(
        heard(Err("bad frame".to_string())),
        Err("plugin protocol error: bad frame".to_string())
    );
}

#[test]
fn plugins_run_or_are_stopped() {
    let config = PluginRuntimeConfig::default();
    let step = |reply: StartReply| start_step(&echo(), &config, reply);
    let answered = |read| StartReply::Answered {
        read,
        shown: "shown".to_string(),
    };
    let stop = |error: &str| StartStep::Stop(error.to_string());
    assert_eq!(step(StartReply::Spawned(Ok(()))), StartStep::Greet(hello(&echo())));
    assert_eq!(
        step(StartReply::Spawned(Err("no file".to_string()))),
        StartStep::Failed("spawn failed: no file".to_string())
    );
    assert_eq!(step(StartReply::Greeted(Ok(()))), StartStep::Await(5_000_000_000));
    assert_eq!(
        step(StartReply::Greeted(Err("broken pipe".to_string()))),
        stop("broken pipe")
    );
    let ack = |protocol_version: u32| {
        Some(Ok(Some(PluginResponse::HelloAck { protocol_version })))
    };
    assert_eq!(step(answered(ack(1))), StartStep::Ready);
    assert_eq!(
        step(answered(ack(2))),
        stop("unexpected handshake response: shown")
    );
    assert_eq!(
        step(answered(Some(Ok(None)))),
        stop("unexpected handshake response: shown")
    );
    assert_eq!(
        step(answered(Some(Err("bad frame".to_string())))),
        stop("bad frame")
    );
    assert_eq!(step(answered(None)), stop("plugin handshake timed out"));
}

#[test]
fn packed_directories_validate_and_unpack() {
    let encoder = flate2::write::GzEncoder::new(Vec::new(), flate2::Compression::default());
    let mut builder = tar::Builder::new(encoder);
    let text = "{\"id\":\"com.example.echo\"}";
    for (path, is_dir, content) in [
        ("./", true, ""),
        ("./bin", true, ""),
        ("./bin/tool.json", false, "not the manifest"),
        ("./tool.json", false, text),
    ] {
        let mut header = tar::Header::new_gnu();
        header.set_entry_type(if is_dir {
            tar::EntryType::Directory
        } else {
            tar::EntryType::Regular
        });
        header.set_size(content.len() as u64);
        header.set_mode(0o755);
        builder
            .append_data(&mut header, path, content.as_bytes())
            .unwrap();
    }
    let package = builder.into_inner().unwrap().finish().unwrap();
    let mut check = validate_package(&package);
    assert_eq!(check.next(), PackageStep::Decode(text.to_string()));
    assert_eq!(check.supply(Ok(echo())), Ok(()));
    assert_eq!(check.next(), PackageStep::Done(Ok(echo())));
    let (steps, outcome) = unpack_plan(&package, b"/d");
    assert_eq!(outcome, Ok(()));
    let unpacked: Vec<(&[u8], bool, &[u8])> = steps
        .iter()
        .map(|step| (&step.path[..], step.is_dir, &step.content[..]))
        .collect();
    assert_eq!(
        unpacked,
        [
            (&b"/d/./"[..], true, &b""[..]),
            (&b"/d/bin"[..], true, &b""[..]),
            (&b"/d/bin/tool.json"[..], false, &b"not the manifest"[..]),
            (&b"/d/tool.json"[..], false, text.as_bytes()),
        ]
    );
}

#[test]
fn enabling_shows_in_a_following_discovery() {
    let store = PluginStore::new("/p".to_string());
    let mut markers: Vec<String> = vec![];
    let discovery = |markers: &Vec<String>| {
        let entries = ["a.b", "c.d"]
            .map(|id| {
                let path = store.destination(id);
                let facts = DiskFacts {
                    directory_name: Some(id.to_string()),
                    entrypoint_is_file: true,
                    disabled: markers.contains(&format!("{path}/.disabled")),
                };
                let loaded = load_installed(
                    manifest(id, &["bin/run"], vec![tool("x")]),
                    &path,
                    &facts,
                    vec![],
                );
                (path, loaded)
            })
            .into_iter()
            .collect();
        let (plugins, complaints) = discover(entries);
        assert!(complaints.is_empty());
        plugins
            .iter()
            .map(|plugin| (plugin.manifest.id.clone(), plugin.enabled))
            .collect::<Vec<_>>()
    };
    let listed = |a: bool, c: bool| vec![("a.b".to_string(), a), ("c.d".to_string(), c)];
    assert_eq!(discovery(&markers), listed(true, true));
    for enabled in [false, false, true, true] {
        let change = store.set_enabled("c.d", true, enabled).unwrap();
        markers.retain(|marker| *marker != change.path);
        if change.write {
            markers.push(change.path);
        }
        assert_eq!(discovery(&markers), listed(true, enabled));
    }
}

#[test]
fn invocations_carry_the_time_that_is_left() {
    assert_eq!(remaining_ms(None, 5), None);
    assert_eq!(remaining_ms(Some(3_500_000), 1_000_000), Some(2));
    assert_eq!(remaining_ms(Some(1), 5), Some(0));
    assert_eq!(
        invoke_request("i", "test_echo", &Json::Null, "/w", Some(2)),
        PluginRequest::Invoke {
            invocation_id: "i".to_string(),
            tool: "test_echo".to_string(),
            arguments: Json::Null,
            cwd: "/w".to_string(),
            timeout_ms: Some(2),
        }
    );
    let mut safe = tool("test_echo");
    safe.concurrency_safe = true;
    let adapter = ExternalToolAdapter::new(safe, 8u8);
    assert_eq!(adapter.supervisor(), &8);
    assert_eq!(adapter.definition().name, "test_echo");
    assert!(adapter.is_concurrency_safe(&Json::Null));
    assert_eq!(adapter.invocation_detail(&Json::Null), "test_echo");
}
