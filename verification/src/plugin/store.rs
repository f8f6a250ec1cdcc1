//! The plugin store: where packages lie, what is installed, and what each
//! operation does to the disk.

use vstd::prelude::*;

use crate::path::{join_of, join_path, law_joined_paths};
use crate::plugin::manifest::{
    local_entrypoint, manifest_problem, plugin_id, tells_of, valid_plugin_id, ManifestView,
    PluginManifest,
};
use crate::plugin::package::{StoreError, StoreErrorView};
use crate::text::{
    ascending, byte_text, bytes_of_text, contains_char, copy_texts, decimal, decimal_text,
    lemma_decimal_injective, same_text, sorted_unique, split, split_on, text_of_bytes, texts,
};

verus! {

/// A plugin found in the store.
#[derive(Debug, PartialEq, Eq)]
pub struct InstalledPlugin {
    pub manifest: PluginManifest,
    pub path: String,
    pub enabled: bool,
    pub missing_commands: Vec<String>,
}

/// What an [`InstalledPlugin`] says.
pub struct InstalledView {
    pub manifest: ManifestView,
    pub path: Seq<char>,
    pub enabled: bool,
    pub missing_commands: Seq<Seq<char>>,
}

impl View for InstalledPlugin {
    type V = InstalledView;

    open spec fn view(&self) -> InstalledView {
        InstalledView {
            manifest: self.manifest@,
            path: self.path@,
            enabled: self.enabled,
            missing_commands: texts(self.missing_commands@),
        }
    }
}

/// A directory of plugin packages.
#[derive(Debug)]
pub struct PluginStore {
    root: String,
}

impl View for PluginStore {
    type V = Seq<char>;

    closed spec fn view(&self) -> Seq<char> {
        self.root@
    }
}

/// The path of a hidden directory of the store, with the process and a number
/// that make it unique.
pub open spec fn hidden_path(root: Seq<char>, purpose: Seq<char>, pid: u32, nonce: u128) -> Seq<
    char,
> {
    join_of(root, "."@ + purpose + "-"@ + decimal(pid as nat) + "-"@ + decimal(nonce as nat))
}

impl PluginStore {
    pub fn new(root: String) -> (store: Self)
        ensures
            store@ == root@,
    {
        PluginStore { root }
    }

    pub fn root(&self) -> (root: &str)
        ensures
            root@ == self@,
    {
        self.root.as_str()
    }

    /// Where the plugin `id` lies.
    pub fn destination(&self, id: &str) -> (path: String)
        ensures
            path@ == join_of(self@, id@),
    {
        join_path(self.root.as_str(), id)
    }

    fn hidden(&self, purpose: &str, pid: u32, nonce: u128) -> (path: String)
        ensures
            path@ == hidden_path(self@, purpose@, pid, nonce),
    {
        let pid = decimal_text(pid as u128);
        let nonce = decimal_text(nonce);
        let name = ".".to_owned().concat(purpose).concat("-").concat(pid.as_str()).concat(
            "-",
        ).concat(nonce.as_str());
        join_path(self.root.as_str(), name.as_str())
    }

    /// Where a package is unpacked before it is installed.
    pub fn staging(&self, pid: u32, nonce: u128) -> (path: String)
        ensures
            path@ == hidden_path(self@, "install"@, pid, nonce),
    {
        self.hidden("install", pid, nonce)
    }

    /// Where a plugin that is being replaced is kept meanwhile.
    pub fn backup(&self, pid: u32, nonce: u128) -> (path: String)
        ensures
            path@ == hidden_path(self@, "backup"@, pid, nonce),
    {
        self.hidden("backup", pid, nonce)
    }

    /// Where a plugin is moved before it is deleted.
    pub fn removed(&self, pid: u32, nonce: u128) -> (path: String)
        ensures
            path@ == hidden_path(self@, "removed"@, pid, nonce),
    {
        self.hidden("removed", pid, nonce)
    }

    /// What enabling or disabling the plugin `id` comes to, given whether its
    /// directory is there.
    pub fn set_enabled(&self, id: &str, is_dir: bool, enabled: bool) -> (plan: Result<
        MarkerChange,
        StoreError,
    >)
        ensures
            match plan {
                Ok(change) => {
                    &&& access_refusal(id@, is_dir) is None
                    &&& change.path@ == marker_path(self@, id@)
                    &&& change.write == !enabled
                },
                Err(error) => access_refusal(id@, is_dir) == Some(error@),
            },
    {
        match check_access(id, is_dir) {
            Err(error) => Err(error),
            Ok(_) => {
                let path = join_path(self.destination(id).as_str(), ".disabled");
                Ok(MarkerChange { path, write: !enabled })
            },
        }
    }

    /// What removing the plugin `id` comes to: the move that takes it out of
    /// the store, from and to.
    pub fn remove(&self, id: &str, is_dir: bool, pid: u32, nonce: u128) -> (plan: Result<
        (String, String),
        StoreError,
    >)
        ensures
            match plan {
                Ok((from, to)) => {
                    &&& access_refusal(id@, is_dir) is None
                    &&& from@ == join_of(self@, id@)
                    &&& to@ == hidden_path(self@, "removed"@, pid, nonce)
                },
                Err(error) => access_refusal(id@, is_dir) == Some(error@),
            },
    {
        match check_access(id, is_dir) {
            Err(error) => Err(error),
            Ok(_) => Ok((self.destination(id), self.removed(pid, nonce))),
        }
    }
}

/// Where the marker of a disabled plugin lies.
pub open spec fn marker_path(root: Seq<char>, id: Seq<char>) -> Seq<char> {
    join_of(join_of(root, id), ".disabled"@)
}

/// Why an operation on the plugin `id` is refused: it is no plugin id, or there is
/// no directory of that name.
pub open spec fn access_refusal(id: Seq<char>, is_dir: bool) -> Option<StoreErrorView> {
    if !plugin_id(id) {
        Some(
            StoreErrorView::Invalid("plugin id must be a dot-separated lowercase identifier"@),
        )
    } else if !is_dir {
        Some(StoreErrorView::NotFound(id))
    } else {
        None
    }
}

/// Whether `id` is a plugin id.
pub fn validate_id(id: &str) -> (checked: Result<(), StoreError>)
    ensures
        match checked {
            Ok(_) => plugin_id(id@),
            Err(error) => !plugin_id(id@) && error@ == StoreErrorView::Invalid(
                "plugin id must be a dot-separated lowercase identifier"@,
            ),
        },
{
    if valid_plugin_id(id) {
        Ok(())
    } else {
        Err(
            StoreError::Invalid(
                "plugin id must be a dot-separated lowercase identifier".to_owned(),
            ),
        )
    }
}

fn check_access(id: &str, is_dir: bool) -> (checked: Result<(), StoreError>)
    ensures
        match checked {
            Ok(_) => access_refusal(id@, is_dir) is None,
            Err(error) => access_refusal(id@, is_dir) == Some(error@),
        },
{
    match validate_id(id) {
        Err(error) => Err(error),
        Ok(_) => if is_dir {
            Ok(())
        } else {
            Err(StoreError::NotFound(id.to_owned()))
        },
    }
}

/// The marker of a disabled plugin: written, or deleted where it is there.
#[derive(Debug, PartialEq, Eq)]
pub struct MarkerChange {
    pub path: String,
    pub write: bool,
}

/// What the marker of a disabled plugin holds.
pub const DISABLED_MARKER: &'static str = "disabled by ate\n";

/// What reading `tool.json` of a directory comes to: the text could not be read,
/// or was decoded to a manifest or not.
pub fn read_manifest(decoded: Result<Result<PluginManifest, String>, String>) -> (manifest: Result<
    PluginManifest,
    StoreError,
>)
    ensures
        match (manifest, decoded) {
            (Ok(manifest), Ok(Ok(given))) => manifest == given && manifest_problem(
                given@,
            ) is None,
            (Err(StoreError::Invalid(message)), Ok(Ok(given))) => manifest_problem(
                given@,
            ) matches Some(problem) && tells_of(message@, problem),
            (Err(StoreError::Invalid(message)), Ok(Err(error))) => message@ == error@,
            (Err(StoreError::Io(message)), Err(error)) => message@ == error@,
            _ => false,
        },
{
    match decoded {
        Err(error) => Err(StoreError::Io(error)),
        Ok(decoded) => match PluginManifest::parse(decoded) {
            Ok(manifest) => Ok(manifest),
            Err(message) => Err(StoreError::Invalid(message)),
        },
    }
}

/// The commands that must be on the machine: those the manifest requires, and
/// its program where that is not a file of the package.
pub open spec fn needs_command(manifest: ManifestView, command: Seq<char>) -> bool {
    manifest.required_commands.contains(command) || !local_entrypoint(manifest) && command
        == manifest.entrypoint[0]
}

/// The commands that must be on the machine, sorted, each once.
pub fn needed_commands(manifest: &PluginManifest) -> (commands: Vec<String>)
    requires
        manifest@.entrypoint.len() > 0,
    ensures
        ascending(texts(commands@)),
        forall|command: Seq<char>| #[trigger]
            texts(commands@).contains(command) <==> needs_command(manifest@, command),
{
    let mut required = copy_texts(&manifest.required_commands);
    let ghost before = texts(required@);
    if !manifest.entrypoint_is_local() {
        required.push(manifest.entrypoint[0].clone());
        proof {
            let after = texts(required@);
            let program = manifest@.entrypoint[0];
            assert(after =~= before.push(program));
            assert forall|command: Seq<char>| #[trigger] after.contains(command) <==> (
            before.contains(command) || command == program) by {
                if before.contains(command) {
                    let i = choose|i: int| 0 <= i < before.len() && before[i] == command;
                    assert(after[i] == command);
                }
                if after.contains(command) {
                    let i = choose|i: int| 0 <= i < after.len() && after[i] == command;
                    if i < before.len() {
                        assert(before[i] == command);
                    }
                }
                assert(after[before.len() as int] == program);
            }
        }
    }
    sorted_unique(&required)
}

/// The files of which one must exist for a command to be there: the command
/// itself where it is a path, else the command in each directory of `PATH`.
pub open spec fn candidates_of(command: Seq<char>, path: Option<Seq<char>>) -> Seq<Seq<char>> {
    if command.contains('/') {
        seq![command]
    } else {
        match path {
            None => Seq::empty(),
            Some(path) => {
                let dirs = split_on(path, ':');
                Seq::new(dirs.len(), |i: int| join_of(dirs[i], command))
            },
        }
    }
}

/// The files of which one must exist for a command to be there.
pub fn command_candidates(command: &str, path: Option<&str>) -> (files: Vec<String>)
    ensures
        texts(files@) == candidates_of(
            command@,
            match path {
                Some(path) => Some(path@),
                None => None,
            },
        ),
{
    let mut files: Vec<String> = Vec::new();
    if contains_char(command, '/') {
        files.push(command.to_owned());
        assert(texts(files@) =~= seq![command@]);
        return files;
    }
    if let Some(path) = path {
        let dirs = split(path, ':');
        let mut i: usize = 0;
        while i < dirs.len()
            invariant
                i <= dirs@.len(),
                files@.len() == i,
                forall|j: int|
                    0 <= j < i ==> #[trigger] files@[j]@ == join_of(dirs@[j]@, command@),
            decreases dirs.len() - i,
        {
            files.push(join_path(dirs[i].as_str(), command));
            i += 1;
        }
        proof {
            let all = split_on(path@, ':');
            assert(all.len() == dirs@.len());
            assert(forall|j: int| 0 <= j < all.len() ==> #[trigger] all[j] == dirs@[j]@);
            assert(texts(files@) =~= candidates_of(command@, Some(path@)));
        }
        return files;
    }
    assert(texts(files@) =~= Seq::empty());
    files
}

/// The commands that were not found, in order.
pub open spec fn absent(commands: Seq<Seq<char>>, present: Seq<bool>) -> Seq<Seq<char>>
    decreases commands.len(),
{
    if commands.len() == 0 {
        Seq::empty()
    } else {
        let before = absent(commands.drop_last(), present);
        if present[commands.len() - 1] {
            before
        } else {
            before.push(commands.last())
        }
    }
}

/// The commands that were not found.
pub fn missing_commands(commands: &Vec<String>, present: &Vec<bool>) -> (missing: Vec<String>)
    requires
        commands@.len() == present@.len(),
    ensures
        texts(missing@) == absent(texts(commands@), present@),
{
    let mut missing: Vec<String> = Vec::new();
    let mut i: usize = 0;
    assert(texts(missing@) =~= Seq::empty());
    while i < commands.len()
        invariant
            i <= commands@.len() == present@.len(),
            texts(missing@) == absent(texts(commands@).take(i as int), present@),
        decreases commands.len() - i,
    {
        let ghost before = texts(missing@);
        proof {
            let more = texts(commands@).take(i + 1);
            assert(more.drop_last() =~= texts(commands@).take(i as int));
            assert(more.last() == commands@[i as int]@);
        }
        if !present[i] {
            missing.push(commands[i].clone());
            assert(texts(missing@) =~= before.push(commands@[i as int]@));
        }
        i += 1;
    }
    assert(texts(commands@).take(i as int) =~= texts(commands@));
    missing
}

/// What the disk says of an installed plugin.
pub struct DiskFacts {
    /// The name of its directory, where that is text.
    pub directory_name: Option<String>,
    /// Whether its program is a file in that directory.
    pub entrypoint_is_file: bool,
    /// Whether the marker of a disabled plugin is there.
    pub disabled: bool,
}

/// Why a directory is no installed plugin.
pub open spec fn load_refusal(
    manifest: ManifestView,
    directory_name: Option<Seq<char>>,
    entrypoint_is_file: bool,
) -> Option<StoreErrorView> {
    if directory_name != Some(manifest.id) {
        Some(StoreErrorView::Invalid("directory name does not match plugin id"@))
    } else if local_entrypoint(manifest) && !entrypoint_is_file {
        Some(StoreErrorView::Invalid("local entrypoint does not exist"@))
    } else {
        None
    }
}

/// Loads an installed plugin from a valid manifest, what the disk says of its
/// directory, and which of the needed commands are missing.
pub fn load_installed(
    manifest: PluginManifest,
    path: &str,
    facts: &DiskFacts,
    missing_commands: Vec<String>,
) -> (plugin: Result<InstalledPlugin, StoreError>)
    requires
        manifest@.entrypoint.len() > 0,
    ensures
        match plugin {
            Ok(plugin) => {
                &&& load_refusal(
                    manifest@,
                    name_view(facts.directory_name),
                    facts.entrypoint_is_file,
                ) is None
                &&& plugin@ == (InstalledView {
                    manifest: manifest@,
                    path: path@,
                    enabled: !facts.disabled,
                    missing_commands: texts(missing_commands@),
                })
            },
            Err(error) => load_refusal(
                manifest@,
                name_view(facts.directory_name),
                facts.entrypoint_is_file,
            ) == Some(error@),
        },
{
    let named = match &facts.directory_name {
        Some(name) => same_text(name.as_str(), manifest.id.as_str()),
        None => false,
    };
    if !named {
        return Err(StoreError::Invalid("directory name does not match plugin id".to_owned()));
    }
    if manifest.entrypoint_is_local() && !facts.entrypoint_is_file {
        return Err(StoreError::Invalid("local entrypoint does not exist".to_owned()));
    }
    Ok(
        InstalledPlugin {
            manifest,
            path: path.to_owned(),
            enabled: !facts.disabled,
            missing_commands,
        },
    )
}

/// The text of an optional name.
pub open spec fn name_view(name: Option<String>) -> Option<Seq<char>> {
    match name {
        Some(name) => Some(name@),
        None => None,
    }
}

/// Whether a name of the store is looked at: hidden ones are not.
pub open spec fn listed_name(name: Seq<char>) -> bool {
    name.len() == 0 || name[0] != '.'
}

/// Names as texts with one character per byte.
pub open spec fn byte_names(names: Seq<Vec<u8>>) -> Seq<Seq<char>> {
    Seq::new(names.len(), |i: int| byte_text(names[i]@))
}

/// The names of the store that are looked at, sorted by their bytes, each once.
pub fn listed_names(names: &Vec<Vec<u8>>) -> (listed: Vec<Vec<u8>>)
    ensures
        ascending(byte_names(listed@)),
        forall|name: Seq<char>| #[trigger]
            byte_names(listed@).contains(name) <==> byte_names(names@).contains(name)
                && listed_name(name),
{
    let mut shown: Vec<String> = Vec::new();
    let mut i: usize = 0;
    while i < names.len()
        invariant
            i <= names@.len(),
            forall|name: Seq<char>| #[trigger]
                texts(shown@).contains(name) <==> byte_names(names@).take(i as int).contains(name)
                    && listed_name(name),
        decreases names.len() - i,
    {
        let ghost before = texts(shown@);
        let ghost seen = byte_names(names@).take(i as int);
        let ghost more = byte_names(names@).take(i + 1);
        let name = text_of_bytes(names[i].as_slice());
        proof {
            assert(more =~= seen.push(name@));
            lemma_contains_push(seen, name@);
        }
        if name.as_str().is_empty() || name.as_str().get_char(0) != '.' {
            let ghost shown_name = name@;
            shown.push(name);
            proof {
                assert(texts(shown@) =~= before.push(shown_name));
                lemma_contains_push(before, shown_name);
            }
        }
        i += 1;
    }
    assert(byte_names(names@).take(i as int) =~= byte_names(names@));
    let sorted = sorted_unique(&shown);
    let mut listed: Vec<Vec<u8>> = Vec::new();
    let mut k: usize = 0;
    while k < sorted.len()
        invariant
            k <= sorted@.len(),
            listed@.len() == k,
            forall|name: Seq<char>| #[trigger]
                texts(sorted@).contains(name) ==> byte_names(names@).contains(name),
            forall|j: int| 0 <= j < k ==> byte_text((#[trigger] listed@[j])@) == sorted@[j]@,
        decreases sorted.len() - k,
    {
        proof {
            let name = sorted@[k as int]@;
            assert(texts(sorted@)[k as int] == name);
            assert(texts(sorted@).contains(name));
            let all = byte_names(names@);
            let j = choose|j: int| 0 <= j < all.len() && all[j] == name;
            assert(name == byte_text(names@[j]@));
        }
        listed.push(bytes_of_text(sorted[k].as_str()));
        k += 1;
    }
    assert(byte_names(listed@) =~= texts(sorted@));
    listed
}

proof fn lemma_contains_push(list: Seq<Seq<char>>, text: Seq<char>)
    ensures
        forall|other: Seq<char>| #[trigger]
            list.push(text).contains(other) <==> list.contains(other) || other == text,
{
    assert forall|other: Seq<char>| #[trigger] list.push(text).contains(other) <==> list.contains(
        other,
    ) || other == text by {
        let more = list.push(text);
        if more.contains(other) {
            let i = choose|i: int| 0 <= i < more.len() && more[i] == other;
            if i < list.len() {
                assert(list[i] == other);
            }
        }
        if list.contains(other) {
            let i = choose|i: int| 0 <= i < list.len() && list[i] == other;
            assert(more[i] == other);
        }
        assert(more[list.len() as int] == text);
    }
}

/// What loading a directory came to.
pub open spec fn outcome_view(outcome: Result<InstalledPlugin, StoreError>) -> Result<
    InstalledView,
    StoreErrorView,
> {
    match outcome {
        Ok(plugin) => Ok(plugin@),
        Err(error) => Err(error@),
    }
}

/// What loading each directory came to, with its path.
pub open spec fn outcomes_view(
    entries: Seq<(String, Result<InstalledPlugin, StoreError>)>,
) -> Seq<(Seq<char>, Result<InstalledView, StoreErrorView>)> {
    Seq::new(entries.len(), |i: int| (entries[i].0@, outcome_view(entries[i].1)))
}

/// What each plugin of a list says.
pub open spec fn installed_view(plugins: Seq<InstalledPlugin>) -> Seq<InstalledView> {
    Seq::new(plugins.len(), |i: int| plugins[i]@)
}

/// The plugins among what was loaded, in order.
pub open spec fn loaded(
    outcomes: Seq<(Seq<char>, Result<InstalledView, StoreErrorView>)>,
) -> Seq<InstalledView>
    decreases outcomes.len(),
{
    if outcomes.len() == 0 {
        Seq::empty()
    } else {
        let before = loaded(outcomes.drop_last());
        match outcomes.last().1 {
            Ok(plugin) => before.push(plugin),
            Err(_) => before,
        }
    }
}

/// What is told of the directories that could not be loaded, in order.
pub open spec fn complaints(
    outcomes: Seq<(Seq<char>, Result<InstalledView, StoreErrorView>)>,
) -> Seq<Seq<char>>
    decreases outcomes.len(),
{
    if outcomes.len() == 0 {
        Seq::empty()
    } else {
        let before = complaints(outcomes.drop_last());
        match outcomes.last().1 {
            Ok(_) => before,
            Err(error) => before.push(outcomes.last().0 + ": "@ + error.sentence()),
        }
    }
}

/// Parts what was loaded from each directory into plugins and complaints.
pub fn discover(entries: Vec<(String, Result<InstalledPlugin, StoreError>)>) -> (found: (
    Vec<InstalledPlugin>,
    Vec<String>,
))
    ensures
        installed_view(found.0@) == loaded(outcomes_view(entries@)),
        texts(found.1@) == complaints(outcomes_view(entries@)),
{
    let ghost all = entries@;
    let ghost views = outcomes_view(entries@);
    let mut rest = entries;
    let mut plugins: Vec<InstalledPlugin> = Vec::new();
    let mut diagnostics: Vec<String> = Vec::new();
    let n: usize = rest.len();
    let mut i: usize = 0;
    assert(all.skip(0) =~= all);
    assert(texts(diagnostics@) =~= Seq::empty());
    assert(installed_view(plugins@) =~= Seq::empty());
    while i < n
        invariant
            i <= n == all.len(),
            rest@ == all.skip(i as int),
            views == outcomes_view(all),
            installed_view(plugins@) == loaded(views.take(i as int)),
            texts(diagnostics@) == complaints(views.take(i as int)),
        decreases n - i,
    {
        let (path, outcome) = rest.remove(0);
        let ghost before = texts(diagnostics@);
        let ghost found = installed_view(plugins@);
        proof {
            assert(views.take(i + 1).drop_last() =~= views.take(i as int));
            assert(views.take(i + 1).last() == views[i as int]);
            assert(rest@ =~= all.skip(i + 1));
        }
        match outcome {
            Ok(plugin) => {
                let ghost added = plugin@;
                plugins.push(plugin);
                assert(installed_view(plugins@) =~= found.push(added));
            },
            Err(error) => {
                let sentence = error.describe();
                let line = path.concat(": ").concat(sentence.as_str());
                diagnostics.push(line);
                assert(texts(diagnostics@) =~= before.push(line@));
            },
        }
        i += 1;
    }
    assert(views.take(i as int) =~= views);
    (plugins, diagnostics)
}

/// Checks one item of a directory that is packed: a link or a special file is
/// refused. Tells whether the item is a directory to look into.
pub fn check_tree_item(path: &str, is_symlink: bool, is_file: bool, is_dir: bool) -> (descend:
    Result<bool, StoreError>)
    ensures
        match descend {
            Ok(descend) => !is_symlink && (is_file || is_dir) && descend == is_dir,
            Err(error) => (is_symlink || !is_file && !is_dir) && error@ == StoreErrorView::Invalid(
                "package contains a link or special file: "@ + path@,
            ),
        },
{
    if is_symlink || !(is_file || is_dir) {
        return Err(
            StoreError::Invalid(
                "package contains a link or special file: ".to_owned().concat(path),
            ),
        );
    }
    Ok(is_dir)
}

/// The mode of a program that its owner may read, write and run.
pub fn executable_mode(mode: u32) -> (executable: u32)
    ensures
        executable == mode | 0o700u32,
        executable & 0o700u32 == 0o700u32,
{
    assert((mode | 0o700u32) & 0o700u32 == 0o700u32) by (bit_vector);
    mode | 0o700
}

/// The missing commands are those that were not found, each once and in order.
/// The result tells which they are.
pub proof fn law_missing_commands_are_those_not_found(
    commands: Seq<Seq<char>>,
    present: Seq<bool>,
) -> (spots: Seq<int>)
    requires
        commands.len() == present.len(),
    ensures
        spots.len() == absent(commands, present).len(),
        forall|i: int|
            0 <= i < spots.len() ==> 0 <= (#[trigger] spots[i]) < commands.len()
                && !present[spots[i]] && absent(commands, present)[i] == commands[spots[i]],
        forall|i: int, j: int|
            0 <= i < j < spots.len() ==> #[trigger] spots[i] < #[trigger] spots[j],
        forall|k: int| 0 <= k < commands.len() && !#[trigger] present[k] ==> spots.contains(k),
{
    lemma_absent(commands, present)
}

proof fn lemma_absent(commands: Seq<Seq<char>>, present: Seq<bool>) -> (spots: Seq<int>)
    requires
        commands.len() <= present.len(),
    ensures
        spots.len() == absent(commands, present).len(),
        forall|i: int|
            0 <= i < spots.len() ==> 0 <= (#[trigger] spots[i]) < commands.len()
                && !present[spots[i]] && absent(commands, present)[i] == commands[spots[i]],
        forall|i: int, j: int|
            0 <= i < j < spots.len() ==> #[trigger] spots[i] < #[trigger] spots[j],
        forall|k: int| 0 <= k < commands.len() && !#[trigger] present[k] ==> spots.contains(k),
    decreases commands.len(),
{
    if commands.len() == 0 {
        Seq::empty()
    } else {
        let rest = commands.drop_last();
        let last = commands.len() - 1;
        let seen = lemma_absent(rest, present);
        let spots = if present[last] { seen } else { seen.push(last) };
        assert forall|i: int| 0 <= i < spots.len() implies 0 <= (#[trigger] spots[i])
            < commands.len() && !present[spots[i]] && absent(commands, present)[i]
            == commands[spots[i]] by {
            if i < seen.len() {
                assert(spots[i] == seen[i]);
                assert(rest[seen[i]] == commands[seen[i]]);
            }
        }
        assert forall|i: int, j: int| 0 <= i < j < spots.len() implies #[trigger] spots[i]
            < #[trigger] spots[j] by {
            assert(spots[i] == seen[i]);
            if j < seen.len() {
                assert(spots[j] == seen[j]);
            }
        }
        assert forall|k: int| 0 <= k < commands.len() && !#[trigger] present[k] implies spots.contains(
            k,
        ) by {
            if k < last {
                let i = choose|i: int| 0 <= i < seen.len() && seen[i] == k;
                assert(spots[i] == k);
            } else {
                assert(spots[spots.len() - 1] == k);
            }
        }
        spots
    }
}

/// A command that is a path is looked for there alone; any other in each
/// directory of `PATH`, in order.
pub proof fn law_commands_are_looked_for_along_the_path(command: Seq<char>, path: Seq<char>, i: int)
    ensures
        command.contains('/') ==> candidates_of(command, Some(path)) == seq![command],
        !command.contains('/') ==> candidates_of(command, Some(path)).len() == split_on(
            path,
            ':',
        ).len(),
        !command.contains('/') && 0 <= i < split_on(path, ':').len() ==> candidates_of(
            command,
            Some(path),
        )[i] == join_of(split_on(path, ':')[i], command),
        !command.contains('/') ==> candidates_of(command, None).len() == 0,
{
}

/// A directory is an installed plugin exactly where it has the name of the
/// plugin's id, and its program, where that is to be a file of it, is there.
pub proof fn law_plugins_are_loaded_by_the_rules(
    manifest: ManifestView,
    directory_name: Option<Seq<char>>,
    entrypoint_is_file: bool,
)
    ensures
        load_refusal(manifest, directory_name, entrypoint_is_file) is None <==> directory_name
            == Some(manifest.id) && (local_entrypoint(manifest) ==> entrypoint_is_file),
{
}

/// An operation on a plugin is allowed exactly where it is given a plugin id and
/// the directory of that plugin is there; otherwise the refusal names the id that
/// is missing.
pub proof fn law_operations_need_an_installed_plugin(id: Seq<char>, is_dir: bool)
    ensures
        access_refusal(id, is_dir) is None <==> plugin_id(id) && is_dir,
        plugin_id(id) && !is_dir ==> access_refusal(id, is_dir) == Some(
            StoreErrorView::NotFound(id),
        ),
{
}

/// Every directory that was loaded is among the plugins, in order, and every
/// other one is complained of, with its path and why. The result tells which
/// directories the plugins and the complaints are of.
pub proof fn law_directories_are_found_or_complained_of(
    outcomes: Seq<(Seq<char>, Result<InstalledView, StoreErrorView>)>,
) -> (spots: (Seq<int>, Seq<int>))
    ensures
        spots.0.len() == loaded(outcomes).len(),
        spots.1.len() == complaints(outcomes).len(),
        forall|i: int|
            0 <= i < spots.0.len() ==> 0 <= (#[trigger] spots.0[i]) < outcomes.len()
                && outcomes[spots.0[i]].1 == Ok::<InstalledView, StoreErrorView>(
                loaded(outcomes)[i],
            ),
        forall|i: int|
            0 <= i < spots.1.len() ==> 0 <= (#[trigger] spots.1[i]) < outcomes.len() && (
            outcomes[spots.1[i]].1 matches Err(error) && complaints(outcomes)[i]
                == outcomes[spots.1[i]].0 + ": "@ + error.sentence()),
        forall|i: int, j: int|
            0 <= i < j < spots.0.len() ==> #[trigger] spots.0[i] < #[trigger] spots.0[j],
        forall|i: int, j: int|
            0 <= i < j < spots.1.len() ==> #[trigger] spots.1[i] < #[trigger] spots.1[j],
        forall|k: int|
            0 <= k < outcomes.len() ==> if (#[trigger] outcomes[k]).1 is Ok {
                spots.0.contains(k)
            } else {
                spots.1.contains(k)
            },
    decreases outcomes.len(),
{
    if outcomes.len() == 0 {
        (Seq::empty(), Seq::empty())
    } else {
        let rest = outcomes.drop_last();
        let last = outcomes.len() - 1;
        let seen = law_directories_are_found_or_complained_of(rest);
        let spots = if outcomes.last().1 is Ok {
            (seen.0.push(last), seen.1)
        } else {
            (seen.0, seen.1.push(last))
        };
        assert forall|i: int| 0 <= i < spots.0.len() implies 0 <= (#[trigger] spots.0[i])
            < outcomes.len() && outcomes[spots.0[i]].1 == Ok::<InstalledView, StoreErrorView>(
            loaded(outcomes)[i],
        ) by {
            if i < seen.0.len() {
                assert(spots.0[i] == seen.0[i]);
                assert(rest[seen.0[i]] == outcomes[seen.0[i]]);
            }
        }
        assert forall|i: int| 0 <= i < spots.1.len() implies 0 <= (#[trigger] spots.1[i])
            < outcomes.len() && (outcomes[spots.1[i]].1 matches Err(error) && complaints(
            outcomes,
        )[i] == outcomes[spots.1[i]].0 + ": "@ + error.sentence()) by {
            if i < seen.1.len() {
                assert(spots.1[i] == seen.1[i]);
                assert(rest[seen.1[i]] == outcomes[seen.1[i]]);
            }
        }
        assert forall|i: int, j: int| 0 <= i < j < spots.0.len() implies #[trigger] spots.0[i]
            < #[trigger] spots.0[j] by {
            assert(spots.0[i] == seen.0[i]);
            if j < seen.0.len() {
                assert(spots.0[j] == seen.0[j]);
            }
        }
        assert forall|i: int, j: int| 0 <= i < j < spots.1.len() implies #[trigger] spots.1[i]
            < #[trigger] spots.1[j] by {
            assert(spots.1[i] == seen.1[i]);
            if j < seen.1.len() {
                assert(spots.1[j] == seen.1[j]);
            }
        }
        assert forall|k: int| 0 <= k < outcomes.len() implies (if (#[trigger] outcomes[k]).1 is Ok {
            spots.0.contains(k)
        } else {
            spots.1.contains(k)
        }) by {
            if k < last {
                assert(rest[k] == outcomes[k]);
                if outcomes[k].1 is Ok {
                    let i = choose|i: int| 0 <= i < seen.0.len() && seen.0[i] == k;
                    assert(spots.0[i] == k);
                } else {
                    let i = choose|i: int| 0 <= i < seen.1.len() && seen.1[i] == k;
                    assert(spots.1[i] == k);
                }
            } else if outcomes[k].1 is Ok {
                assert(spots.0[spots.0.len() - 1] == k);
            } else {
                assert(spots.1[spots.1.len() - 1] == k);
            }
        }
        spots
    }
}

/// The hidden directories of a store are told apart by their numbers.
pub proof fn law_hidden_directories_are_told_apart(
    root: Seq<char>,
    purpose: Seq<char>,
    pid: u32,
    a: u128,
    b: u128,
)
    requires
        root.len() > 0,
        a != b,
    ensures
        hidden_path(root, purpose, pid, a) != hidden_path(root, purpose, pid, b),
{
    reveal_strlit(".");
    let start = "."@ + purpose + "-"@ + decimal(pid as nat) + "-"@;
    let first = start + decimal(a as nat);
    let second = start + decimal(b as nat);
    assert(first[0] == '.' && second[0] == '.');
    law_joined_paths(root, first);
    law_joined_paths(root, second);
    let one = hidden_path(root, purpose, pid, a);
    let two = hidden_path(root, purpose, pid, b);
    lemma_decimal_injective(a as nat, b as nat);
    if one == two {
        let n = root.len() as int + if root.last() == '/' { 0int } else { 1 };
        assert(one.skip(n) =~= first);
        assert(two.skip(n) =~= second);
        assert(first.skip(start.len() as int) =~= decimal(a as nat));
        assert(second.skip(start.len() as int) =~= decimal(b as nat));
    }
}

/// The commands that a plugin needs are those that it requires and its program,
/// unless that is a file of its own; and no others.
pub proof fn law_needed_commands(manifest: ManifestView, command: Seq<char>)
    ensures
        manifest.required_commands.contains(command) ==> needs_command(manifest, command),
        !local_entrypoint(manifest) ==> needs_command(manifest, manifest.entrypoint[0]),
        needs_command(manifest, command) && !manifest.required_commands.contains(command)
            ==> command == manifest.entrypoint[0] && !local_entrypoint(manifest),
{
}

/// What is hidden begins with a dot and is not looked at; everything else is.
pub proof fn law_hidden_names_are_not_listed(name: Seq<char>)
    ensures
        !listed_name(seq!['.'] + name),
        name.len() > 0 && name[0] != '.' ==> listed_name(name),
{
}

/// What is said of an installed plugin is all that is known of it.
pub proof fn law_installed_plugins_are_seen_whole(plugin: InstalledPlugin)
    ensures
        plugin@.manifest == plugin.manifest@,
        plugin@.path == plugin.path@,
        plugin@.enabled == plugin.enabled,
        plugin@.missing_commands == texts(plugin.missing_commands@),
{
}

/// What was loaded is seen with the name it was found under, and the plugin or the
/// reason why it could not be loaded.
pub proof fn law_loaded_entries_are_seen_whole(
    entries: Seq<(String, Result<InstalledPlugin, StoreError>)>,
    plugins: Seq<InstalledPlugin>,
    i: int,
)
    ensures
        outcomes_view(entries).len() == entries.len(),
        0 <= i < entries.len() ==> outcomes_view(entries)[i].0 == entries[i].0@
            && match entries[i].1 {
            Ok(plugin) => outcomes_view(entries)[i].1 matches Ok(seen) && seen == plugin@,
            Err(error) => outcomes_view(entries)[i].1 matches Err(told) && told == error@,
        },
        installed_view(plugins).len() == plugins.len(),
        0 <= i < plugins.len() ==> installed_view(plugins)[i] == plugins[i]@,
{
}

} // verus!
