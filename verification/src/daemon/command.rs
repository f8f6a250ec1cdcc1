//! The command line of the daemon: what it asks for.

use vstd::prelude::*;

use crate::json::{lemma_member_at, members_view, with_member, Json, JsonView};
use crate::text::{same_text, texts};

verus! {

/// What is asked of the plugin store.
#[derive(Debug, PartialEq, Eq)]
pub enum ToolCommand {
    Install { replace: bool },
    List,
    SetEnabled { id: String, enabled: bool },
    Remove { id: String },
}

/// What a [`ToolCommand`] says.
pub enum ToolCommandView {
    Install { replace: bool },
    List,
    SetEnabled { id: Seq<char>, enabled: bool },
    Remove { id: Seq<char> },
}

impl View for ToolCommand {
    type V = ToolCommandView;

    open spec fn view(&self) -> ToolCommandView {
        match self {
            ToolCommand::Install { replace } => ToolCommandView::Install { replace: *replace },
            ToolCommand::List => ToolCommandView::List,
            ToolCommand::SetEnabled { id, enabled } => ToolCommandView::SetEnabled {
                id: id@,
                enabled: *enabled,
            },
            ToolCommand::Remove { id } => ToolCommandView::Remove { id: id@ },
        }
    }
}

/// How the plugin commands are used.
pub const TOOL_USAGE: &'static str = "usage: ate-daemon tool <install|list|enable|disable|remove>";

/// What the arguments after `tool` ask for.
pub open spec fn tool_command_of(args: Seq<Seq<char>>) -> Result<ToolCommandView, Seq<char>> {
    if args.len() == 0 {
        Err(TOOL_USAGE@)
    } else if args[0] == "install"@ {
        Ok(ToolCommandView::Install { replace: args.contains("--replace"@) })
    } else if args[0] == "list"@ {
        Ok(ToolCommandView::List)
    } else if args[0] == "enable"@ || args[0] == "disable"@ || args[0] == "remove"@ {
        if args.len() < 2 {
            Err("tool operation requires a plugin id"@)
        } else if args[0] == "remove"@ {
            Ok(ToolCommandView::Remove { id: args[1] })
        } else {
            Ok(ToolCommandView::SetEnabled { id: args[1], enabled: args[0] == "enable"@ })
        }
    } else {
        Err(TOOL_USAGE@)
    }
}

fn asks_to_replace(args: &Vec<String>) -> (yes: bool)
    ensures
        yes == texts(args@).contains("--replace"@),
{
    let mut i: usize = 0;
    while i < args.len()
        invariant
            i <= args@.len(),
            forall|j: int| 0 <= j < i ==> #[trigger] texts(args@)[j] != "--replace"@,
        decreases args.len() - i,
    {
        if same_text(args[i].as_str(), "--replace") {
            assert(texts(args@)[i as int] == "--replace"@);
            return true;
        }
        i += 1;
    }
    false
}

/// What the arguments after `tool` ask for.
pub fn parse_tool_command(args: &Vec<String>) -> (command: Result<ToolCommand, String>)
    ensures
        match (command, tool_command_of(texts(args@))) {
            (Ok(command), Ok(wanted)) => command@ == wanted,
            (Err(error), Err(message)) => error@ == message,
            _ => false,
        },
{
    if args.len() == 0 {
        return Err(TOOL_USAGE.to_owned());
    }
    assert(texts(args@)[0] == args@[0]@);
    let operation = args[0].as_str();
    if same_text(operation, "install") {
        return Ok(ToolCommand::Install { replace: asks_to_replace(args) });
    }
    if same_text(operation, "list") {
        return Ok(ToolCommand::List);
    }
    let enable = same_text(operation, "enable");
    let remove = same_text(operation, "remove");
    if enable || remove || same_text(operation, "disable") {
        if args.len() < 2 {
            return Err("tool operation requires a plugin id".to_owned());
        }
        assert(texts(args@)[1] == args@[1]@);
        let id = args[1].clone();
        return if remove {
            Ok(ToolCommand::Remove { id })
        } else {
            Ok(ToolCommand::SetEnabled { id, enabled: enable })
        };
    }
    Err(TOOL_USAGE.to_owned())
}

/// What is told of an operation on a plugin that succeeded.
pub fn tool_success(id: &str) -> (json: Json)
    ensures
        json@ == JsonView::Object(
            seq![("ok"@, JsonView::Bool(true)), ("plugin_id"@, JsonView::Text(id@))],
        ),
        json@.member("ok"@) == Some(JsonView::Bool(true)),
        json@.text_member("plugin_id"@) == Some(id@),
{
    let members = with_member(Vec::new(), "ok", Json::Bool(true));
    let members = with_member(members, "plugin_id", Json::text(id));
    assert(members_view(Seq::empty()) =~= Seq::empty());
    assert(members_view(members@) =~= seq![
        ("ok"@, JsonView::Bool(true)),
        ("plugin_id"@, JsonView::Text(id@)),
    ]);
    proof {
        reveal_strlit("ok");
        reveal_strlit("plugin_id");
        assert("ok"@.len() != "plugin_id"@.len());
        assert(members_view(members@)[1].0 != "ok"@);
        lemma_member_at(members_view(members@), "ok"@, 0);
        lemma_member_at(members_view(members@), "plugin_id"@, 1);
    }
    Json::object(members)
}

/// What the daemon is started for.
#[derive(Debug, Clone, Copy, PartialEq, Eq, Structural)]
pub enum DaemonCommand {
    /// Manage plugins.
    Tool,
    /// Start the service where it does not run, and tell where it listens.
    EnsureRunning,
    /// Tell whether the service runs.
    Status,
    /// Stop the service.
    Stop,
    /// Run the service.
    Serve,
    /// Serve one connection over standard input and output.
    Stdio,
}

/// What the daemon is started for, by its first argument.
pub open spec fn daemon_command_of(first: Option<Seq<char>>) -> DaemonCommand {
    match first {
        None => DaemonCommand::Stdio,
        Some(first) => if first == "tool"@ {
            DaemonCommand::Tool
        } else if first == "ensure-running"@ {
            DaemonCommand::EnsureRunning
        } else if first == "status"@ {
            DaemonCommand::Status
        } else if first == "stop"@ {
            DaemonCommand::Stop
        } else if first == "serve"@ {
            DaemonCommand::Serve
        } else {
            DaemonCommand::Stdio
        },
    }
}

/// What the daemon is started for, by its first argument.
pub fn parse_daemon_command(first: Option<&str>) -> (command: DaemonCommand)
    ensures
        command == daemon_command_of(
            match first {
                Some(first) => Some(first@),
                None => None,
            },
        ),
{
    let first = match first {
        Some(first) => first,
        None => {
            return DaemonCommand::Stdio;
        },
    };
    if same_text(first, "tool") {
        DaemonCommand::Tool
    } else if same_text(first, "ensure-running") {
        DaemonCommand::EnsureRunning
    } else if same_text(first, "status") {
        DaemonCommand::Status
    } else if same_text(first, "stop") {
        DaemonCommand::Stop
    } else if same_text(first, "serve") {
        DaemonCommand::Serve
    } else {
        DaemonCommand::Stdio
    }
}

proof fn lemma_operations_differ()
    ensures
        "install"@ != "list"@,
        "install"@ != "enable"@,
        "install"@ != "disable"@,
        "install"@ != "remove"@,
        "list"@ != "enable"@,
        "list"@ != "disable"@,
        "list"@ != "remove"@,
        "enable"@ != "disable"@,
        "enable"@ != "remove"@,
        "disable"@ != "remove"@,
{
    reveal_strlit("install");
    reveal_strlit("list");
    reveal_strlit("enable");
    reveal_strlit("disable");
    reveal_strlit("remove");
    assert("install"@.len() == 7 && "disable"@.len() == 7 && "list"@.len() == 4);
    assert("install"@[0] == 'i' && "disable"@[0] == 'd');
    assert("enable"@.len() == 6 && "remove"@.len() == 6);
    assert("enable"@[0] == 'e' && "remove"@[0] == 'r');
}

/// Each operation on the plugin store does what its name says, to the plugin
/// that follows it, whatever else is given.
pub proof fn law_tool_commands_do_what_they_say(id: Seq<char>, rest: Seq<Seq<char>>)
    ensures
        tool_command_of(seq!["enable"@, id] + rest) matches Ok(
            ToolCommandView::SetEnabled { id: named, enabled },
        ) && named == id && enabled,
        tool_command_of(seq!["disable"@, id] + rest) matches Ok(
            ToolCommandView::SetEnabled { id: named, enabled },
        ) && named == id && !enabled,
        tool_command_of(seq!["remove"@, id] + rest) matches Ok(ToolCommandView::Remove { id: named })
            && named == id,
        tool_command_of(seq!["list"@] + rest) matches Ok(command) && command is List,
        tool_command_of(seq!["install"@] + rest) matches Ok(ToolCommandView::Install { replace })
            && (replace <==> rest.contains("--replace"@)),
        tool_command_of(seq!["enable"@]) is Err,
        tool_command_of(seq!["disable"@]) is Err,
        tool_command_of(seq!["remove"@]) is Err,
        tool_command_of(Seq::empty()) is Err,
{
    lemma_operations_differ();
    reveal_strlit("install");
    reveal_strlit("--replace");
    assert("install"@.len() != "--replace"@.len());
    let args = seq!["install"@] + rest;
    if rest.contains("--replace"@) {
        let k = choose|k: int| 0 <= k < rest.len() && rest[k] == "--replace"@;
        assert(args[k + 1] == "--replace"@);
    }
    if args.contains("--replace"@) {
        let k = choose|k: int| 0 <= k < args.len() && args[k] == "--replace"@;
        assert(k > 0);
        assert(rest[k - 1] == "--replace"@);
    }
    assert((seq!["list"@] + rest)[0] == "list"@);
    assert((seq!["enable"@, id] + rest)[0] == "enable"@);
    assert((seq!["disable"@, id] + rest)[0] == "disable"@);
    assert((seq!["remove"@, id] + rest)[0] == "remove"@);
}

/// No other operation is known.
pub proof fn law_other_tool_commands_are_refused(args: Seq<Seq<char>>)
    requires
        args.len() > 0,
        args[0] != "install"@,
        args[0] != "list"@,
        args[0] != "enable"@,
        args[0] != "disable"@,
        args[0] != "remove"@,
    ensures
        tool_command_of(args) == Err::<ToolCommandView, Seq<char>>(TOOL_USAGE@),
{
}

/// The daemon is started for what its first argument names, and serves one
/// connection where it names nothing.
pub proof fn law_daemon_commands_do_what_they_say(first: Option<Seq<char>>)
    ensures
        daemon_command_of(first) == DaemonCommand::Tool <==> first == Some("tool"@),
        daemon_command_of(first) == DaemonCommand::EnsureRunning <==> first == Some(
            "ensure-running"@,
        ),
        daemon_command_of(first) == DaemonCommand::Status <==> first == Some("status"@),
        daemon_command_of(first) == DaemonCommand::Stop <==> first == Some("stop"@),
        daemon_command_of(first) == DaemonCommand::Serve <==> first == Some("serve"@),
{
    reveal_strlit("tool");
    reveal_strlit("ensure-running");
    reveal_strlit("status");
    reveal_strlit("stop");
    reveal_strlit("serve");
    assert("tool"@.len() == 4 && "stop"@.len() == 4 && "status"@.len() == 6 && "serve"@.len() == 5);
    assert("ensure-running"@.len() == 14);
    assert("tool"@[0] == 't' && "stop"@[0] == 's');
}

/// What a command says is all that it holds.
pub proof fn law_tool_commands_are_seen_whole(command: ToolCommand)
    ensures
        match command {
            ToolCommand::Install { replace } => command@ matches ToolCommandView::Install {
                replace: r,
            } && r == replace,
            ToolCommand::List => command@ is List,
            ToolCommand::SetEnabled { id, enabled } => command@
                matches ToolCommandView::SetEnabled { id: i, enabled: e } && i == id@ && e
                == enabled,
            ToolCommand::Remove { id } => command@ matches ToolCommandView::Remove { id: i } && i
                == id@,
        },
{
}

} // verus!
