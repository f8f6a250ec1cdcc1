//! The command line: what it asks for.

use vstd::prelude::*;

use crate::plugin::manifest::{id_char, id_part, plugin_id, valid_plugin_id};
use crate::text::{
    contains_text, lemma_split_nonempty, occurs_at, same_text, split_on, starts_with, texts,
};

verus! {

/// How the command is used.
pub const USAGE: &'static str =
    "usage: ate tool <pack|validate|install|list|enable|disable|remove> ...";

/// What the command line asks for.
#[derive(Debug, PartialEq, Eq)]
pub enum CliCommand {
    /// Pack a directory into a file.
    Pack { source: String, output: String },
    /// Check a directory or a package.
    Validate { source: String },
    /// Check a directory or a package, and hand it to a script inside WSL.
    Install { source: String, distribution: String, script: String },
    /// Run a script inside WSL.
    Manage { distribution: String, script: String },
}

/// What a [`CliCommand`] says.
pub enum CliView {
    Pack { source: Seq<char>, output: Seq<char> },
    Validate { source: Seq<char> },
    Install { source: Seq<char>, distribution: Seq<char>, script: Seq<char> },
    Manage { distribution: Seq<char>, script: Seq<char> },
}

impl View for CliCommand {
    type V = CliView;

    open spec fn view(&self) -> CliView {
        match self {
            CliCommand::Pack { source, output } => CliView::Pack {
                source: source@,
                output: output@,
            },
            CliCommand::Validate { source } => CliView::Validate { source: source@ },
            CliCommand::Install { source, distribution, script } => CliView::Install {
                source: source@,
                distribution: distribution@,
                script: script@,
            },
            CliCommand::Manage { distribution, script } => CliView::Manage {
                distribution: distribution@,
                script: script@,
            },
        }
    }
}

/// The argument at a position, where it is there and no option.
pub open spec fn positional(args: Seq<Seq<char>>, index: int) -> Option<Seq<char>> {
    if 0 <= index < args.len() && !"--"@.is_prefix_of(args[index]) {
        Some(args[index])
    } else {
        None
    }
}

/// The argument after the first `name` from position `i` on that something
/// follows.
pub open spec fn option_from(args: Seq<Seq<char>>, name: Seq<char>, i: int) -> Option<Seq<char>>
    decreases args.len() - i,
{
    if i < 0 || i + 1 >= args.len() {
        None
    } else if args[i] == name {
        Some(args[i + 1])
    } else {
        option_from(args, name, i + 1)
    }
}

/// The argument at a position, where it is there and no option; else `message`.
pub fn required(args: &Vec<String>, index: usize, message: &str) -> (value: Result<String, String>)
    ensures
        match (value, positional(texts(args@), index as int)) {
            (Ok(value), Some(wanted)) => value@ == wanted,
            (Err(error), None) => error@ == message@,
            _ => false,
        },
{
    if index < args.len() {
        assert(texts(args@)[index as int] == args@[index as int]@);
        if !starts_with(args[index].as_str(), "--") {
            return Ok(args[index].clone());
        }
    }
    Err(message.to_owned())
}

/// The value of an option.
pub fn option(args: &Vec<String>, name: &str) -> (value: Option<String>)
    ensures
        match value {
            Some(value) => option_from(texts(args@), name@, 0) == Some(value@),
            None => option_from(texts(args@), name@, 0) is None,
        },
{
    let n: usize = args.len();
    let mut i: usize = 0;
    while i < n && i < n - 1
        invariant
            n == args@.len(),
            i <= n,
            option_from(texts(args@), name@, 0) == option_from(texts(args@), name@, i as int),
        decreases n - i,
    {
        assert(texts(args@)[i as int] == args@[i as int]@);
        assert(texts(args@)[i + 1] == args@[i + 1]@);
        if same_text(args[i].as_str(), name) {
            return Some(args[i + 1].clone());
        }
        i += 1;
    }
    None
}

/// Whether an argument is there.
fn has_flag(args: &Vec<String>, flag: &str) -> (yes: bool)
    ensures
        yes == texts(args@).contains(flag@),
{
    let mut i: usize = 0;
    while i < args.len()
        invariant
            i <= args@.len(),
            forall|j: int| 0 <= j < i ==> #[trigger] texts(args@)[j] != flag@,
        decreases args.len() - i,
    {
        if same_text(args[i].as_str(), flag) {
            assert(texts(args@)[i as int] == flag@);
            return true;
        }
        i += 1;
    }
    false
}

/// Checks an id before it becomes part of a script.
pub fn validate_cli_id(value: &str) -> (checked: Result<(), String>)
    ensures
        match checked {
            Ok(_) => plugin_id(value@),
            Err(error) => !plugin_id(value@) && error@ == "invalid plugin id"@,
        },
{
    if valid_plugin_id(value) {
        Ok(())
    } else {
        Err("invalid plugin id".to_owned())
    }
}

/// The distribution that the arguments name.
pub open spec fn distribution_of(args: Seq<Seq<char>>) -> Seq<char> {
    match option_from(args, "--distribution"@, 0) {
        Some(distribution) => distribution,
        None => "Ubuntu"@,
    }
}

fn distribution(args: &Vec<String>) -> (name: String)
    ensures
        name@ == distribution_of(texts(args@)),
{
    match option(args, "--distribution") {
        Some(name) => name,
        None => "Ubuntu".to_owned(),
    }
}

/// What an operation on an installed plugin comes to.
pub open spec fn managed(operation: Seq<char>, args: Seq<Seq<char>>) -> Result<CliView, Seq<char>> {
    let start = "exec \"$HOME/.local/bin/ate-daemon\" tool "@ + operation;
    if operation == "list"@ {
        Ok(CliView::Manage { distribution: distribution_of(args), script: start })
    } else {
        match positional(args, 2) {
            None => Err("operation requires a plugin id"@),
            Some(id) => if plugin_id(id) {
                Ok(
                    CliView::Manage {
                        distribution: distribution_of(args),
                        script: start + " "@ + id,
                    },
                )
            } else {
                Err("invalid plugin id"@)
            },
        }
    }
}

/// What the arguments after the program ask for.
pub open spec fn command_of(args: Seq<Seq<char>>) -> Result<CliView, Seq<char>> {
    if args.len() < 2 || args[0] != "tool"@ {
        Err(USAGE@)
    } else if args[1] == "pack"@ {
        match (positional(args, 2), option_from(args, "--output"@, 0)) {
            (None, _) => Err("pack requires a directory"@),
            (Some(_), None) => Err("pack requires --output <file>"@),
            (Some(source), Some(output)) => Ok(CliView::Pack { source, output }),
        }
    } else if args[1] == "validate"@ {
        match positional(args, 2) {
            None => Err("validate requires a directory or .atepkg"@),
            Some(source) => Ok(CliView::Validate { source }),
        }
    } else if args[1] == "install"@ {
        match positional(args, 2) {
            None => Err("install requires a directory or .atepkg"@),
            Some(source) => Ok(
                CliView::Install {
                    source,
                    distribution: distribution_of(args),
                    script: if args.contains("--replace"@) {
                        "exec \"$HOME/.local/bin/ate-daemon\" tool install --replace"@
                    } else {
                        "exec \"$HOME/.local/bin/ate-daemon\" tool install"@
                    },
                },
            ),
        }
    } else if args[1] == "list"@ || args[1] == "enable"@ || args[1] == "disable"@ || args[1]
        == "remove"@ {
        managed(args[1], args)
    } else {
        Err(USAGE@)
    }
}

/// An operation on an installed plugin.
fn manage(operation: &str, args: &Vec<String>) -> (command: Result<CliCommand, String>)
    ensures
        match (command, managed(operation@, texts(args@))) {
            (Ok(command), Ok(wanted)) => command@ == wanted,
            (Err(error), Err(message)) => error@ == message,
            _ => false,
        },
{
    let start = "exec \"$HOME/.local/bin/ate-daemon\" tool ".to_owned().concat(operation);
    let distribution = distribution(args);
    if same_text(operation, "list") {
        return Ok(CliCommand::Manage { distribution, script: start });
    }
    let id = match required(args, 2, "operation requires a plugin id") {
        Ok(id) => id,
        Err(error) => {
            return Err(error);
        },
    };
    if let Err(error) = validate_cli_id(id.as_str()) {
        return Err(error);
    }
    Ok(CliCommand::Manage { distribution, script: start.concat(" ").concat(id.as_str()) })
}

fn pack(args: &Vec<String>) -> (command: Result<CliCommand, String>)
    ensures
        match (command, positional(texts(args@), 2), option_from(texts(args@), "--output"@, 0)) {
            (Ok(command), Some(source), Some(output)) => command@ == (CliView::Pack {
                source,
                output,
            }),
            (Err(error), None, _) => error@ == "pack requires a directory"@,
            (Err(error), Some(_), None) => error@ == "pack requires --output <file>"@,
            _ => false,
        },
{
    let source = match required(args, 2, "pack requires a directory") {
        Ok(source) => source,
        Err(error) => {
            return Err(error);
        },
    };
    match option(args, "--output") {
        Some(output) => Ok(CliCommand::Pack { source, output }),
        None => Err("pack requires --output <file>".to_owned()),
    }
}

/// What the arguments after the program ask for.
pub fn parse_command(args: &Vec<String>) -> (command: Result<CliCommand, String>)
    ensures
        match (command, command_of(texts(args@))) {
            (Ok(command), Ok(wanted)) => command@ == wanted,
            (Err(error), Err(message)) => error@ == message,
            _ => false,
        },
{
    if args.len() < 2 {
        return Err(USAGE.to_owned());
    }
    assert(texts(args@)[0] == args@[0]@ && texts(args@)[1] == args@[1]@);
    if !same_text(args[0].as_str(), "tool") {
        return Err(USAGE.to_owned());
    }
    let operation = args[1].as_str();
    if same_text(operation, "pack") {
        return pack(args);
    }
    if same_text(operation, "validate") {
        return match required(args, 2, "validate requires a directory or .atepkg") {
            Ok(source) => Ok(CliCommand::Validate { source }),
            Err(error) => Err(error),
        };
    }
    if same_text(operation, "install") {
        let source = match required(args, 2, "install requires a directory or .atepkg") {
            Ok(source) => source,
            Err(error) => {
                return Err(error);
            },
        };
        let script = if has_flag(args, "--replace") {
            "exec \"$HOME/.local/bin/ate-daemon\" tool install --replace".to_owned()
        } else {
            "exec \"$HOME/.local/bin/ate-daemon\" tool install".to_owned()
        };
        return Ok(CliCommand::Install { source, distribution: distribution(args), script });
    }
    if same_text(operation, "list") || same_text(operation, "enable") || same_text(
        operation,
        "disable",
    ) || same_text(operation, "remove") {
        return manage(operation, args);
    }
    Err(USAGE.to_owned())
}

/// The arguments of the `wsl.exe` call that runs a script.
pub fn wsl_command(distribution: &str, script: &str) -> (args: Vec<String>)
    ensures
        texts(args@) == seq![
            "--distribution"@,
            distribution@,
            "--exec"@,
            "sh"@,
            "-lc"@,
            script@,
        ],
{
    let mut args: Vec<String> = Vec::new();
    args.push("--distribution".to_owned());
    args.push(distribution.to_owned());
    args.push("--exec".to_owned());
    args.push("sh".to_owned());
    args.push("-lc".to_owned());
    args.push(script.to_owned());
    assert(texts(args@) =~= seq![
        "--distribution"@,
        distribution@,
        "--exec"@,
        "sh"@,
        "-lc"@,
        script@,
    ]);
    args
}

/// What a finished WSL call comes to; `shown` is its status, for the error.
pub fn ensure_success(success: bool, shown: &str) -> (checked: Result<(), String>)
    ensures
        match checked {
            Ok(_) => success,
            Err(error) => !success && error@ == "WSL command exited with "@ + shown@,
        },
{
    if success {
        Ok(())
    } else {
        Err("WSL command exited with ".to_owned().concat(shown))
    }
}

/// Whether a text is made of characters of an id.
spec fn id_text(text: Seq<char>) -> bool {
    forall|j: int| 0 <= j < text.len() ==> id_char(#[trigger] text[j])
}

proof fn lemma_chars_of_parts(text: Seq<char>, sep: char, i: int)
    requires
        0 <= i < text.len(),
        forall|k: int|
            0 <= k < split_on(text, sep).len() ==> id_text(#[trigger] split_on(text, sep)[k]),
    ensures
        text[i] == sep || id_char(text[i]),
    decreases text.len(),
{
    let rest = text.drop_last();
    let parts = split_on(text, sep);
    let before = split_on(rest, sep);
    lemma_split_nonempty(rest, sep);
    if i == text.len() - 1 {
        if text.last() != sep {
            let last = parts[parts.len() - 1];
            assert(last == before.last().push(text.last()));
            assert(id_text(last));
            assert(id_char(last[last.len() - 1]));
        }
    } else {
        assert forall|k: int| 0 <= k < before.len() implies id_text(#[trigger] before[k]) by {
            assert(id_text(parts[k]));
            if text.last() != sep && k == before.len() - 1 {
                assert(parts[k] == before[k].push(text.last()));
                assert forall|j: int| 0 <= j < before[k].len() implies id_char(
                    #[trigger] before[k][j],
                ) by {
                    assert(parts[k][j] == before[k][j]);
                }
            } else {
                assert(parts[k] == before[k]);
            }
        }
        lemma_chars_of_parts(rest, sep, i);
    }
}

/// An id that becomes part of a script is made of lowercase letters, digits,
/// hyphens and dots alone: a shell reads it as one word.
pub proof fn law_accepted_ids_are_single_words(id: Seq<char>, i: int)
    requires
        plugin_id(id),
        0 <= i < id.len(),
    ensures
        id[i] == '.' || id_char(id[i]),
{
    let parts = split_on(id, '.');
    assert forall|k: int| 0 <= k < parts.len() implies id_text(#[trigger] parts[k]) by {
        assert(id_part(parts[k]));
    }
    lemma_chars_of_parts(id, '.', i);
}

/// Whether an option stands first at a position, with a value after it.
pub open spec fn first_option(args: Seq<Seq<char>>, name: Seq<char>, i: int) -> bool {
    &&& 0 <= i < args.len() - 1
    &&& args[i] == name
    &&& forall|j: int| 0 <= j < i ==> #[trigger] args[j] != name
}

/// The value of an option is what follows it where it stands first; it has none
/// exactly where it is not there, or nothing follows it.
pub proof fn law_options_have_the_value_that_follows(args: Seq<Seq<char>>, name: Seq<char>)
    ensures
        match option_from(args, name, 0) {
            Some(value) => exists|i: int| #[trigger]
                first_option(args, name, i) && args[i + 1] == value,
            None => forall|i: int| 0 <= i < args.len() - 1 ==> #[trigger] args[i] != name,
        },
{
    lemma_option_from(args, name, 0);
}

proof fn lemma_option_from(args: Seq<Seq<char>>, name: Seq<char>, from: int)
    requires
        0 <= from,
        forall|j: int| 0 <= j < from && j < args.len() - 1 ==> #[trigger] args[j] != name,
    ensures
        match option_from(args, name, from) {
            Some(value) => exists|i: int| #[trigger]
                first_option(args, name, i) && args[i + 1] == value,
            None => forall|i: int| 0 <= i < args.len() - 1 ==> #[trigger] args[i] != name,
        },
    decreases args.len() - from,
{
    if from + 1 < args.len() {
        if args[from] == name {
            assert(first_option(args, name, from));
        } else {
            lemma_option_from(args, name, from + 1);
        }
    }
}

proof fn lemma_cli_operations_differ()
    ensures
        "pack"@ != "validate"@,
        "pack"@ != "install"@,
        "pack"@ != "list"@,
        "pack"@ != "enable"@,
        "pack"@ != "disable"@,
        "pack"@ != "remove"@,
        "validate"@ != "install"@,
        "validate"@ != "list"@,
        "validate"@ != "enable"@,
        "validate"@ != "disable"@,
        "validate"@ != "remove"@,
        "install"@ != "list"@,
        "install"@ != "enable"@,
        "install"@ != "disable"@,
        "install"@ != "remove"@,
        "list"@ != "enable"@,
        "list"@ != "disable"@,
        "list"@ != "remove"@,
{
    reveal_strlit("pack");
    reveal_strlit("validate");
    reveal_strlit("install");
    reveal_strlit("list");
    reveal_strlit("enable");
    reveal_strlit("disable");
    reveal_strlit("remove");
    assert("pack"@.len() == 4 && "list"@.len() == 4 && "pack"@[0] == 'p' && "list"@[0] == 'l');
    assert("validate"@.len() == 8 && "enable"@.len() == 6 && "remove"@.len() == 6);
    assert("install"@.len() == 7 && "disable"@.len() == 7 && "install"@[0] == 'i' && "disable"@[0]
        == 'd');
}

/// Each operation does what its name says, to what follows it: a directory is
/// packed into the file that `--output` names, a source is checked or installed,
/// and an installed plugin is managed by a script that ends in the operation and
/// its id.
pub proof fn law_operations_do_what_they_say(args: Seq<Seq<char>>)
    requires
        args.len() >= 3,
        args[0] == "tool"@,
        !"--"@.is_prefix_of(args[2]),
    ensures
        args[1] == "pack"@ ==> match option_from(args, "--output"@, 0) {
            Some(file) => command_of(args) matches Ok(CliView::Pack { source, output }) && source
                == args[2] && output == file,
            None => command_of(args) is Err,
        },
        args[1] == "validate"@ ==> (command_of(args) matches Ok(CliView::Validate { source })
            && source == args[2]),
        args[1] == "install"@ ==> (command_of(args) matches Ok(
            CliView::Install { source, distribution, script },
        ) && source == args[2] && distribution == (match option_from(args, "--distribution"@, 0) {
            Some(name) => name,
            None => "Ubuntu"@,
        }) && ("--replace"@.is_suffix_of(script) <==> args.contains("--replace"@))
            && contains_text(script, "tool install"@)),
        args[1] == "enable"@ || args[1] == "disable"@ || args[1] == "remove"@ ==> if plugin_id(
            args[2],
        ) {
            command_of(args) matches Ok(CliView::Manage { distribution, script }) && distribution
                == (match option_from(args, "--distribution"@, 0) {
                Some(name) => name,
                None => "Ubuntu"@,
            }) && (args[1] + " "@ + args[2]).is_suffix_of(script)
        } else {
            command_of(args) == Err::<CliView, Seq<char>>("invalid plugin id"@)
        },
        args[1] == "list"@ ==> (command_of(args) matches Ok(
            CliView::Manage { distribution, script },
        ) && distribution == (match option_from(args, "--distribution"@, 0) {
            Some(name) => name,
            None => "Ubuntu"@,
        }) && "list"@.is_suffix_of(script)),
{
    lemma_cli_operations_differ();
    reveal_strlit("--replace");
    reveal_strlit("tool install");
    reveal_strlit("exec \"$HOME/.local/bin/ate-daemon\" tool install --replace");
    reveal_strlit("exec \"$HOME/.local/bin/ate-daemon\" tool install");
    let start = "exec \"$HOME/.local/bin/ate-daemon\" tool "@ + args[1];
    let managing = start + " "@ + args[2];
    let ending = args[1] + " "@ + args[2];
    assert(managing.subrange(managing.len() - ending.len(), managing.len() as int) =~= ending);
    assert(start.subrange(start.len() - args[1].len(), start.len() as int) =~= args[1]);
    let replacing = "exec \"$HOME/.local/bin/ate-daemon\" tool install --replace"@;
    let keeping = "exec \"$HOME/.local/bin/ate-daemon\" tool install"@;
    let n = replacing.len() as int;
    assert(replacing.subrange(n - 9, n) =~= "--replace"@);
    let m = keeping.len() as int;
    if "--replace"@.is_suffix_of(keeping) {
        assert(keeping.subrange(m - 9, m) == "--replace"@);
        assert(keeping[m - 1] == "--replace"@[8]);
    }
    assert(keeping.subrange(m - 12, m) =~= "tool install"@);
    assert(occurs_at(keeping, "tool install"@, m - 12));
    assert(replacing.subrange(n - 22, n - 10) =~= "tool install"@);
    assert(occurs_at(replacing, "tool install"@, n - 22));
}

/// An operation that needs something after it is refused where nothing, or only
/// an option, is there; and so is what is no operation.
pub proof fn law_incomplete_commands_are_refused(args: Seq<Seq<char>>)
    ensures
        args.len() < 2 ==> command_of(args) == Err::<CliView, Seq<char>>(USAGE@),
        args.len() >= 2 && args[0] != "tool"@ ==> command_of(args) == Err::<CliView, Seq<char>>(
            USAGE@,
        ),
        args.len() >= 2 && args[1] != "list"@ && (args.len() == 2 || "--"@.is_prefix_of(args[2]))
            ==> command_of(args) is Err,
{
}

/// What a command says is all that it holds.
pub proof fn law_cli_commands_are_seen_whole(command: CliCommand)
    ensures
        match command {
            CliCommand::Pack { source, output } => command@ matches CliView::Pack {
                source: s,
                output: o,
            } && s == source@ && o == output@,
            CliCommand::Validate { source } => command@ matches CliView::Validate { source: s } && s
                == source@,
            CliCommand::Install { source, distribution, script } => command@
                matches CliView::Install { source: s, distribution: d, script: t } && s == source@
                && d == distribution@ && t == script@,
            CliCommand::Manage { distribution, script } => command@ matches CliView::Manage {
                distribution: d,
                script: t,
            } && d == distribution@ && t == script@,
        },
{
}

/// A distribution that is named is the one that is used.
pub proof fn law_named_distributions_are_used(args: Seq<Seq<char>>)
    ensures
        option_from(args, "--distribution"@, 0) matches Some(name) ==> distribution_of(args)
            == name,
        option_from(args, "--distribution"@, 0) is None ==> distribution_of(args) == "Ubuntu"@,
{
}

} // verus!
