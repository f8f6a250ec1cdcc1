//! Which installed plugins a session gets.

use vstd::prelude::*;

use crate::plugin::manifest::{PluginManifest, ToolManifestView};
use crate::plugin::store::{InstalledPlugin, InstalledView};
use crate::text::{join, joined, same_text, texts};

verus! {

/// Whether a plugin is considered: it is enabled and misses no command.
pub open spec fn eligible(plugin: InstalledView) -> bool {
    plugin.enabled && plugin.missing_commands.len() == 0
}

/// The plugins that are considered, in order.
pub open spec fn eligible_plugins(plugins: Seq<InstalledPlugin>) -> Seq<InstalledPlugin>
    decreases plugins.len(),
{
    if plugins.len() == 0 {
        Seq::empty()
    } else {
        let before = eligible_plugins(plugins.drop_last());
        if eligible(plugins.last()@) {
            before.push(plugins.last())
        } else {
            before
        }
    }
}

/// What is told of the enabled plugins that miss commands, in order.
pub open spec fn missing_notes(plugins: Seq<InstalledPlugin>) -> Seq<Seq<char>>
    decreases plugins.len(),
{
    if plugins.len() == 0 {
        Seq::empty()
    } else {
        let before = missing_notes(plugins.drop_last());
        let last = plugins.last()@;
        if last.enabled && last.missing_commands.len() > 0 {
            before.push(
                "plugin "@ + last.manifest.id + " skipped; missing commands: "@ + joined(
                    last.missing_commands,
                    ", "@,
                ),
            )
        } else {
            before
        }
    }
}

/// How many of the first `n` tools have a name.
pub open spec fn tools_named(tools: Seq<ToolManifestView>, name: Seq<char>, n: int) -> nat
    decreases n,
{
    if n <= 0 {
        0
    } else {
        tools_named(tools, name, n - 1) + if tools[n - 1].name == name {
            1nat
        } else {
            0
        }
    }
}

/// How many tools of the first `n` plugins have a name.
pub open spec fn name_count(plugins: Seq<InstalledPlugin>, name: Seq<char>, n: int) -> nat
    decreases n,
{
    if n <= 0 {
        0
    } else {
        let tools = plugins[n - 1]@.manifest.tools;
        name_count(plugins, name, n - 1) + tools_named(tools, name, tools.len() as int)
    }
}

/// Whether a name is taken by a built-in tool or by another tool of a plugin
/// that is considered.
pub open spec fn contested(
    plugins: Seq<InstalledPlugin>,
    builtins: Seq<Seq<char>>,
    name: Seq<char>,
) -> bool {
    builtins.contains(name) || name_count(plugins, name, plugins.len() as int) > 1
}

/// The contested names among the first `n` tools, in order.
pub open spec fn conflicts(
    plugins: Seq<InstalledPlugin>,
    builtins: Seq<Seq<char>>,
    tools: Seq<ToolManifestView>,
    n: int,
) -> Seq<Seq<char>>
    decreases n,
{
    if n <= 0 {
        Seq::empty()
    } else {
        let before = conflicts(plugins, builtins, tools, n - 1);
        if contested(plugins, builtins, tools[n - 1].name) {
            before.push(tools[n - 1].name)
        } else {
            before
        }
    }
}

/// The contested names of a plugin.
pub open spec fn conflicts_of(
    plugins: Seq<InstalledPlugin>,
    builtins: Seq<Seq<char>>,
    plugin: InstalledPlugin,
) -> Seq<Seq<char>> {
    conflicts(plugins, builtins, plugin@.manifest.tools, plugin@.manifest.tools.len() as int)
}

/// The plugins without a contested name among the first `n`, in order.
pub open spec fn uncontested(
    plugins: Seq<InstalledPlugin>,
    builtins: Seq<Seq<char>>,
    n: int,
) -> Seq<InstalledPlugin>
    decreases n,
{
    if n <= 0 {
        Seq::empty()
    } else {
        let before = uncontested(plugins, builtins, n - 1);
        if conflicts_of(plugins, builtins, plugins[n - 1]).len() == 0 {
            before.push(plugins[n - 1])
        } else {
            before
        }
    }
}

/// What is told of the plugins with a contested name among the first `n`.
pub open spec fn conflict_notes(
    plugins: Seq<InstalledPlugin>,
    builtins: Seq<Seq<char>>,
    n: int,
) -> Seq<Seq<char>>
    decreases n,
{
    if n <= 0 {
        Seq::empty()
    } else {
        let before = conflict_notes(plugins, builtins, n - 1);
        let found = conflicts_of(plugins, builtins, plugins[n - 1]);
        if found.len() == 0 {
            before
        } else {
            before.push(
                "plugin "@ + plugins[n - 1]@.manifest.id + " skipped; conflicting tool names: "@
                    + joined(found, ", "@),
            )
        }
    }
}

fn count_in(manifest: &PluginManifest, name: &str) -> (count: usize)
    ensures
        count == tools_named(manifest@.tools, name@, manifest@.tools.len() as int),
        count <= manifest@.tools.len(),
{
    let mut count: usize = 0;
    let mut i: usize = 0;
    while i < manifest.tools.len()
        invariant
            i <= manifest.tools@.len(),
            count <= i,
            count == tools_named(manifest@.tools, name@, i as int),
        decreases manifest.tools.len() - i,
    {
        assert(manifest@.tools[i as int] == manifest.tools@[i as int]@);
        if same_text(manifest.tools[i].name.as_str(), name) {
            count += 1;
        }
        i += 1;
    }
    count
}

proof fn lemma_count_grows(plugins: Seq<InstalledPlugin>, name: Seq<char>, m: int, n: int)
    requires
        0 <= m <= n,
    ensures
        name_count(plugins, name, m) <= name_count(plugins, name, n),
    decreases n - m,
{
    if m < n {
        lemma_count_grows(plugins, name, m, n - 1);
    }
}

/// Whether more than one tool of the plugins has a name.
fn occurs_twice(plugins: &Vec<InstalledPlugin>, name: &str) -> (yes: bool)
    ensures
        yes == (name_count(plugins@, name@, plugins@.len() as int) > 1),
{
    let mut seen = false;
    let mut i: usize = 0;
    while i < plugins.len()
        invariant
            i <= plugins@.len(),
            name_count(plugins@, name@, i as int) == if seen {
                1nat
            } else {
                0
            },
        decreases plugins.len() - i,
    {
        let count: usize = count_in(&plugins[i].manifest, name);
        assert(name_count(plugins@, name@, i + 1) == name_count(plugins@, name@, i as int) + count);
        if count > 1 || (count == 1 && seen) {
            proof {
                lemma_count_grows(plugins@, name@, i + 1, plugins@.len() as int);
            }
            return true;
        }
        if count == 1 {
            seen = true;
        }
        i += 1;
    }
    false
}

fn holds(list: &Vec<String>, text: &str) -> (yes: bool)
    ensures
        yes == texts(list@).contains(text@),
{
    let mut i: usize = 0;
    while i < list.len()
        invariant
            i <= list@.len(),
            forall|j: int| 0 <= j < i ==> #[trigger] texts(list@)[j] != text@,
        decreases list.len() - i,
    {
        if same_text(list[i].as_str(), text) {
            assert(texts(list@)[i as int] == text@);
            return true;
        }
        i += 1;
    }
    false
}

fn find_conflicts(
    plugins: &Vec<InstalledPlugin>,
    builtins: &Vec<String>,
    plugin: &InstalledPlugin,
) -> (found: Vec<String>)
    ensures
        texts(found@) == conflicts_of(plugins@, texts(builtins@), *plugin),
{
    let mut found: Vec<String> = Vec::new();
    let mut i: usize = 0;
    assert(texts(found@) =~= Seq::empty());
    while i < plugin.manifest.tools.len()
        invariant
            i <= plugin.manifest.tools@.len(),
            texts(found@) == conflicts(
                plugins@,
                texts(builtins@),
                plugin@.manifest.tools,
                i as int,
            ),
        decreases plugin.manifest.tools.len() - i,
    {
        let name = &plugin.manifest.tools[i].name;
        assert(plugin@.manifest.tools[i as int] == plugin.manifest.tools@[i as int]@);
        let ghost before = texts(found@);
        if holds(builtins, name.as_str()) || occurs_twice(plugins, name.as_str()) {
            found.push(name.clone());
            assert(texts(found@) =~= before.push(name@));
        }
        i += 1;
    }
    found
}

/// The plugins that a session gets, and what is told of those it does not get:
/// an enabled plugin is left out where it misses commands or where the name of
/// one of its tools is contested.
pub fn select_plugins(plugins: Vec<InstalledPlugin>, builtins: &Vec<String>) -> (selected: (
    Vec<InstalledPlugin>,
    Vec<String>,
))
    ensures
        ({
            let considered = eligible_plugins(plugins@);
            let n = considered.len() as int;
            &&& selected.0@ == uncontested(considered, texts(builtins@), n)
            &&& texts(selected.1@) == missing_notes(plugins@) + conflict_notes(
                considered,
                texts(builtins@),
                n,
            )
        }),
{
    let ghost all = plugins@;
    let mut rest = plugins;
    let n: usize = rest.len();
    let mut considered: Vec<InstalledPlugin> = Vec::new();
    let mut notes: Vec<String> = Vec::new();
    let mut i: usize = 0;
    assert(all.skip(0) =~= all);
    assert(texts(notes@) =~= Seq::empty());
    while i < n
        invariant
            i <= n == all.len(),
            rest@ == all.skip(i as int),
            considered@ == eligible_plugins(all.take(i as int)),
            texts(notes@) == missing_notes(all.take(i as int)),
        decreases n - i,
    {
        let plugin = rest.remove(0);
        let ghost before = texts(notes@);
        proof {
            assert(all.take(i + 1).drop_last() =~= all.take(i as int));
            assert(all.take(i + 1).last() == all[i as int]);
            assert(rest@ =~= all.skip(i + 1));
            assert(plugin == all[i as int]);
            assert(plugin@.missing_commands.len() == plugin.missing_commands@.len());
        }
        if plugin.enabled {
            if plugin.missing_commands.len() == 0 {
                considered.push(plugin);
            } else {
                let list = join(&plugin.missing_commands, ", ");
                let note = "plugin ".to_owned().concat(plugin.manifest.id.as_str()).concat(
                    " skipped; missing commands: ",
                ).concat(list.as_str());
                notes.push(note);
                assert(texts(notes@) =~= before.push(note@));
            }
        }
        i += 1;
    }
    assert(all.take(n as int) =~= all);
    let ghost candidates = considered@;
    let ghost missing = texts(notes@);
    let total: usize = considered.len();
    let mut keep: Vec<bool> = Vec::new();
    let mut k: usize = 0;
    assert(missing + conflict_notes(candidates, texts(builtins@), 0) =~= missing);
    while k < total
        invariant
            k <= total == candidates.len(),
            considered@ == candidates,
            keep@.len() == k,
            forall|j: int|
                0 <= j < k ==> #[trigger] keep@[j] == (conflicts_of(
                    candidates,
                    texts(builtins@),
                    candidates[j],
                ).len() == 0),
            texts(notes@) == missing + conflict_notes(candidates, texts(builtins@), k as int),
        decreases total - k,
    {
        let found = find_conflicts(&considered, builtins, &considered[k]);
        let ghost before = texts(notes@);
        assert(texts(found@).len() == found@.len());
        if found.len() > 0 {
            let list = join(&found, ", ");
            let note = "plugin ".to_owned().concat(considered[k].manifest.id.as_str()).concat(
                " skipped; conflicting tool names: ",
            ).concat(list.as_str());
            notes.push(note);
            assert(texts(notes@) =~= before.push(note@));
            assert(before.push(note@) =~= missing + conflict_notes(
                candidates,
                texts(builtins@),
                k + 1,
            ));
        }
        keep.push(found.len() == 0);
        k += 1;
    }
    let mut accepted: Vec<InstalledPlugin> = Vec::new();
    let mut left = considered;
    let mut m: usize = 0;
    assert(candidates.skip(0) =~= candidates);
    while m < total
        invariant
            m <= total == candidates.len(),
            keep@.len() == total,
            forall|j: int|
                0 <= j < total ==> #[trigger] keep@[j] == (conflicts_of(
                    candidates,
                    texts(builtins@),
                    candidates[j],
                ).len() == 0),
            left@ == candidates.skip(m as int),
            accepted@ == uncontested(candidates, texts(builtins@), m as int),
        decreases total - m,
    {
        let plugin = left.remove(0);
        proof {
            assert(left@ =~= candidates.skip(m + 1));
            assert(plugin == candidates[m as int]);
        }
        if keep[m] {
            accepted.push(plugin);
        }
        m += 1;
    }
    (accepted, notes)
}

proof fn lemma_uncontested(
    plugins: Seq<InstalledPlugin>,
    builtins: Seq<Seq<char>>,
    n: int,
    i: int,
) -> (at: int)
    requires
        0 <= n <= plugins.len(),
        0 <= i < uncontested(plugins, builtins, n).len(),
    ensures
        0 <= at < n,
        uncontested(plugins, builtins, n)[i] == plugins[at],
        conflicts_of(plugins, builtins, plugins[at]).len() == 0,
        uncontested(plugins, builtins, at).len() == i,
    decreases n,
{
    let before = uncontested(plugins, builtins, n - 1);
    if i < before.len() {
        lemma_uncontested(plugins, builtins, n - 1, i)
    } else {
        n - 1
    }
}

proof fn lemma_no_conflict(
    plugins: Seq<InstalledPlugin>,
    builtins: Seq<Seq<char>>,
    tools: Seq<ToolManifestView>,
    n: int,
    t: int,
)
    requires
        conflicts(plugins, builtins, tools, n).len() == 0,
        0 <= t < n <= tools.len(),
    ensures
        !contested(plugins, builtins, tools[t].name),
    decreases n,
{
    if t < n - 1 {
        lemma_no_conflict(plugins, builtins, tools, n - 1, t);
    }
}

proof fn lemma_tool_counts(tools: Seq<ToolManifestView>, n: int, t: int)
    requires
        0 <= t < n <= tools.len(),
    ensures
        tools_named(tools, tools[t].name, n) >= 1,
    decreases n,
{
    if t < n - 1 {
        lemma_tool_counts(tools, n - 1, t);
    }
}

/// Two plugins with a tool of the same name count it twice.
proof fn lemma_shared_name_counts(
    plugins: Seq<InstalledPlugin>,
    a: int,
    b: int,
    s: int,
    t: int,
)
    requires
        0 <= a < b < plugins.len(),
        0 <= s < plugins[a]@.manifest.tools.len(),
        0 <= t < plugins[b]@.manifest.tools.len(),
        plugins[a]@.manifest.tools[s].name == plugins[b]@.manifest.tools[t].name,
    ensures
        name_count(plugins, plugins[a]@.manifest.tools[s].name, plugins.len() as int) > 1,
{
    let name = plugins[a]@.manifest.tools[s].name;
    let first = plugins[a]@.manifest.tools;
    let second = plugins[b]@.manifest.tools;
    lemma_tool_counts(first, first.len() as int, s);
    lemma_tool_counts(second, second.len() as int, t);
    assert(name_count(plugins, name, a + 1) >= 1);
    lemma_count_grows(plugins, name, a + 1, b);
    assert(name_count(plugins, name, b + 1) >= 2);
    lemma_count_grows(plugins, name, b + 1, plugins.len() as int);
}

/// The tools of the selected plugins do not clash: none has the name of a
/// built-in tool, and no two plugins share a name.
pub proof fn law_selected_tools_do_not_clash(
    considered: Seq<InstalledPlugin>,
    builtins: Seq<Seq<char>>,
    i: int,
    j: int,
    s: int,
    t: int,
)
    requires
        ({
            let selected = uncontested(considered, builtins, considered.len() as int);
            &&& 0 <= i < selected.len()
            &&& 0 <= j < selected.len()
            &&& 0 <= s < selected[i]@.manifest.tools.len()
            &&& 0 <= t < selected[j]@.manifest.tools.len()
        }),
    ensures
        ({
            let selected = uncontested(considered, builtins, considered.len() as int);
            &&& !builtins.contains(selected[i]@.manifest.tools[s].name)
            &&& i != j ==> selected[i]@.manifest.tools[s].name
                != selected[j]@.manifest.tools[t].name
        }),
{
    let n = considered.len() as int;
    let a = lemma_uncontested(considered, builtins, n, i);
    let b = lemma_uncontested(considered, builtins, n, j);
    let first = considered[a]@.manifest.tools;
    let second = considered[b]@.manifest.tools;
    lemma_no_conflict(considered, builtins, first, first.len() as int, s);
    lemma_no_conflict(considered, builtins, second, second.len() as int, t);
    if i != j && first[s].name == second[t].name {
        if a < b {
            lemma_shared_name_counts(considered, a, b, s, t);
        } else if b < a {
            lemma_shared_name_counts(considered, b, a, t, s);
        }
    }
}

/// The plugins that are considered are exactly those that are enabled and miss no
/// command, in order. The result tells which they are.
pub proof fn law_usable_plugins_are_considered(plugins: Seq<InstalledPlugin>) -> (spots: Seq<int>)
    ensures
        spots.len() == eligible_plugins(plugins).len(),
        forall|i: int|
            0 <= i < spots.len() ==> 0 <= (#[trigger] spots[i]) < plugins.len()
                && eligible_plugins(plugins)[i] == plugins[spots[i]] && plugins[spots[i]]@.enabled
                && plugins[spots[i]]@.missing_commands.len() == 0,
        forall|i: int, j: int|
            0 <= i < j < spots.len() ==> #[trigger] spots[i] < #[trigger] spots[j],
        forall|k: int|
            0 <= k < plugins.len() && (#[trigger] plugins[k])@.enabled
                && plugins[k]@.missing_commands.len() == 0 ==> spots.contains(k),
    decreases plugins.len(),
{
    if plugins.len() == 0 {
        Seq::empty()
    } else {
        let rest = plugins.drop_last();
        let last = plugins.len() - 1;
        let seen = law_usable_plugins_are_considered(rest);
        let spots = if eligible(plugins.last()@) { seen.push(last) } else { seen };
        assert forall|i: int| 0 <= i < spots.len() implies 0 <= (#[trigger] spots[i])
            < plugins.len() && eligible_plugins(plugins)[i] == plugins[spots[i]]
            && plugins[spots[i]]@.enabled && plugins[spots[i]]@.missing_commands.len() == 0 by {
            if i < seen.len() {
                assert(spots[i] == seen[i]);
                assert(rest[seen[i]] == plugins[seen[i]]);
            }
        }
        assert forall|i: int, j: int| 0 <= i < j < spots.len() implies #[trigger] spots[i]
            < #[trigger] spots[j] by {
            assert(spots[i] == seen[i]);
            if j < seen.len() {
                assert(spots[j] == seen[j]);
            }
        }
        assert forall|k: int|
            0 <= k < plugins.len() && (#[trigger] plugins[k])@.enabled
                && plugins[k]@.missing_commands.len() == 0 implies spots.contains(k) by {
            if k < last {
                assert(rest[k] == plugins[k]);
                let i = choose|i: int| 0 <= i < seen.len() && seen[i] == k;
                assert(spots[i] == k);
            } else {
                assert(spots[spots.len() - 1] == k);
            }
        }
        spots
    }
}

/// Of every enabled plugin that misses commands a note names it and the commands,
/// in order, and of no other. The result tells which plugins they are.
pub proof fn law_missing_commands_are_told(plugins: Seq<InstalledPlugin>) -> (spots: Seq<int>)
    ensures
        spots.len() == missing_notes(plugins).len(),
        forall|i: int|
            0 <= i < spots.len() ==> 0 <= (#[trigger] spots[i]) < plugins.len()
                && plugins[spots[i]]@.enabled && plugins[spots[i]]@.missing_commands.len() > 0
                && missing_notes(plugins)[i] == "plugin "@ + plugins[spots[i]]@.manifest.id
                + " skipped; missing commands: "@ + joined(
                plugins[spots[i]]@.missing_commands,
                ", "@,
            ),
        forall|i: int, j: int|
            0 <= i < j < spots.len() ==> #[trigger] spots[i] < #[trigger] spots[j],
        forall|k: int|
            0 <= k < plugins.len() && (#[trigger] plugins[k])@.enabled
                && plugins[k]@.missing_commands.len() > 0 ==> spots.contains(k),
    decreases plugins.len(),
{
    if plugins.len() == 0 {
        Seq::empty()
    } else {
        let rest = plugins.drop_last();
        let last = plugins.len() - 1;
        let seen = law_missing_commands_are_told(rest);
        let told = plugins.last()@.enabled && plugins.last()@.missing_commands.len() > 0;
        let spots = if told { seen.push(last) } else { seen };
        assert forall|i: int| 0 <= i < spots.len() implies 0 <= (#[trigger] spots[i])
            < plugins.len() && plugins[spots[i]]@.enabled
            && plugins[spots[i]]@.missing_commands.len() > 0 && missing_notes(plugins)[i]
            == "plugin "@ + plugins[spots[i]]@.manifest.id + " skipped; missing commands: "@
            + joined(plugins[spots[i]]@.missing_commands, ", "@) by {
            if i < seen.len() {
                assert(spots[i] == seen[i]);
                assert(rest[seen[i]] == plugins[seen[i]]);
            }
        }
        assert forall|i: int, j: int| 0 <= i < j < spots.len() implies #[trigger] spots[i]
            < #[trigger] spots[j] by {
            assert(spots[i] == seen[i]);
            if j < seen.len() {
                assert(spots[j] == seen[j]);
            }
        }
        assert forall|k: int|
            0 <= k < plugins.len() && (#[trigger] plugins[k])@.enabled
                && plugins[k]@.missing_commands.len() > 0 implies spots.contains(k) by {
            if k < last {
                assert(rest[k] == plugins[k]);
                let i = choose|i: int| 0 <= i < seen.len() && seen[i] == k;
                assert(spots[i] == k);
            } else {
                assert(spots[spots.len() - 1] == k);
            }
        }
        spots
    }
}

/// Whether the tool at a place has a name. Plugins and tools are counted from
/// zero.
pub open spec fn named_at(
    plugins: Seq<InstalledPlugin>,
    name: Seq<char>,
    plugin: int,
    tool: int,
) -> bool {
    &&& 0 <= plugin < plugins.len()
    &&& 0 <= tool < plugins[plugin]@.manifest.tools.len()
    &&& plugins[plugin]@.manifest.tools[tool].name == name
}

/// Where a name occurs among the first tools, once or more often.
proof fn lemma_tools_named(tools: Seq<ToolManifestView>, name: Seq<char>, n: int) -> (at: (int, int))
    requires
        0 <= n <= tools.len(),
    ensures
        tools_named(tools, name, n) >= 1 ==> 0 <= at.0 < n && tools[at.0].name == name,
        tools_named(tools, name, n) >= 2 ==> 0 <= at.1 < at.0 && tools[at.1].name == name,
    decreases n,
{
    if n == 0 {
        (0, 0)
    } else {
        let before = lemma_tools_named(tools, name, n - 1);
        if tools[n - 1].name == name {
            (n - 1, before.0)
        } else {
            before
        }
    }
}

proof fn lemma_tools_named_once(
    tools: Seq<ToolManifestView>,
    name: Seq<char>,
    n: int,
    s: int,
    t: int,
)
    requires
        0 <= s <= t < n <= tools.len(),
        tools[s].name == name,
        tools[t].name == name,
    ensures
        tools_named(tools, name, n) >= if s < t {
            2nat
        } else {
            1
        },
    decreases n,
{
    if t < n - 1 {
        lemma_tools_named_once(tools, name, n - 1, s, t);
    } else if s < t {
        lemma_tools_named_once(tools, name, n - 1, s, s);
    }
}

proof fn lemma_name_counted(plugins: Seq<InstalledPlugin>, name: Seq<char>, n: int) -> (at: (
    (int, int),
    (int, int),
))
    requires
        0 <= n <= plugins.len(),
    ensures
        name_count(plugins, name, n) >= 1 ==> at.0.0 < n && named_at(
            plugins,
            name,
            at.0.0,
            at.0.1,
        ),
        name_count(plugins, name, n) >= 2 ==> at.1.0 < n && at.0 != at.1 && named_at(
            plugins,
            name,
            at.1.0,
            at.1.1,
        ),
    decreases n,
{
    if n == 0 {
        ((0, 0), (0, 0))
    } else {
        let tools = plugins[n - 1]@.manifest.tools;
        let before = lemma_name_counted(plugins, name, n - 1);
        let here = lemma_tools_named(tools, name, tools.len() as int);
        let count = tools_named(tools, name, tools.len() as int);
        if count == 0 {
            before
        } else if count == 1 {
            ((n - 1, here.0), before.0)
        } else {
            ((n - 1, here.0), (n - 1, here.1))
        }
    }
}

/// A name is contested exactly where a built-in tool has it or two tools of the
/// plugins do, of one plugin or of two.
pub proof fn law_contested_names_are_taken_twice(
    plugins: Seq<InstalledPlugin>,
    builtins: Seq<Seq<char>>,
    name: Seq<char>,
)
    ensures
        contested(plugins, builtins, name) <==> builtins.contains(name) || exists|
            a: int,
            s: int,
            b: int,
            t: int,
        |
            (a, s) != (b, t) && #[trigger] named_at(plugins, name, a, s) && #[trigger] named_at(
                plugins,
                name,
                b,
                t,
            ),
{
    let n = plugins.len() as int;
    if name_count(plugins, name, n) > 1 {
        let at = lemma_name_counted(plugins, name, n);
        assert(named_at(plugins, name, at.0.0, at.0.1) && named_at(
            plugins,
            name,
            at.1.0,
            at.1.1,
        ));
    }
    if exists|a: int, s: int, b: int, t: int|
        (a, s) != (b, t) && #[trigger] named_at(plugins, name, a, s) && #[trigger] named_at(
            plugins,
            name,
            b,
            t,
        ) {
        let (a, s, b, t) = choose|a: int, s: int, b: int, t: int|
            (a, s) != (b, t) && #[trigger] named_at(plugins, name, a, s) && #[trigger] named_at(
                plugins,
                name,
                b,
                t,
            );
        if a < b {
            lemma_shared_name_counts(plugins, a, b, s, t);
        } else if b < a {
            lemma_shared_name_counts(plugins, b, a, t, s);
        } else {
            let tools = plugins[a]@.manifest.tools;
            let (first, second) = if s < t { (s, t) } else { (t, s) };
            lemma_tools_named_once(tools, name, tools.len() as int, first, second);
            lemma_count_grows(plugins, name, a + 1, n);
        }
    }
}

proof fn lemma_conflicts_found(
    plugins: Seq<InstalledPlugin>,
    builtins: Seq<Seq<char>>,
    tools: Seq<ToolManifestView>,
    n: int,
)
    requires
        0 <= n <= tools.len(),
        forall|t: int|
            0 <= t < n ==> !contested(plugins, builtins, (#[trigger] tools[t]).name),
    ensures
        conflicts(plugins, builtins, tools, n).len() == 0,
    decreases n,
{
    if n > 0 {
        lemma_conflicts_found(plugins, builtins, tools, n - 1);
        assert(!contested(plugins, builtins, tools[n - 1].name));
    }
}

/// The selected plugins are exactly those of which no tool has a contested name,
/// in order. The result tells which they are.
pub proof fn law_uncontested_plugins_are_selected(
    plugins: Seq<InstalledPlugin>,
    builtins: Seq<Seq<char>>,
    n: int,
) -> (spots: Seq<int>)
    requires
        0 <= n <= plugins.len(),
    ensures
        spots.len() == uncontested(plugins, builtins, n).len(),
        forall|i: int|
            0 <= i < spots.len() ==> 0 <= (#[trigger] spots[i]) < n && uncontested(
                plugins,
                builtins,
                n,
            )[i] == plugins[spots[i]],
        forall|i: int, j: int|
            0 <= i < j < spots.len() ==> #[trigger] spots[i] < #[trigger] spots[j],
        forall|k: int|
            0 <= k < n ==> (spots.contains(k) <==> forall|t: int|
                0 <= t < (#[trigger] plugins[k])@.manifest.tools.len() ==> !contested(
                    plugins,
                    builtins,
                    (#[trigger] plugins[k]@.manifest.tools[t]).name,
                )),
    decreases n,
{
    if n == 0 {
        Seq::empty()
    } else {
        let last = n - 1;
        let seen = law_uncontested_plugins_are_selected(plugins, builtins, last);
        let tools = plugins[last]@.manifest.tools;
        let fits = conflicts_of(plugins, builtins, plugins[last]).len() == 0;
        let spots = if fits { seen.push(last) } else { seen };
        if fits {
            assert forall|t: int| 0 <= t < tools.len() implies !contested(
                plugins,
                builtins,
                (#[trigger] plugins[last]@.manifest.tools[t]).name,
            ) by {
                lemma_no_conflict(plugins, builtins, tools, tools.len() as int, t);
            }
            assert(spots[spots.len() - 1] == last);
        } else if forall|t: int|
            0 <= t < tools.len() ==> !contested(plugins, builtins, (#[trigger] tools[t]).name) {
            lemma_conflicts_found(plugins, builtins, tools, tools.len() as int);
        }
        assert forall|i: int| 0 <= i < spots.len() implies 0 <= (#[trigger] spots[i]) < n
            && uncontested(plugins, builtins, n)[i] == plugins[spots[i]] by {
            if i < seen.len() {
                assert(spots[i] == seen[i]);
            }
        }
        assert forall|i: int, j: int| 0 <= i < j < spots.len() implies #[trigger] spots[i]
            < #[trigger] spots[j] by {
            assert(spots[i] == seen[i]);
            if j < seen.len() {
                assert(spots[j] == seen[j]);
            }
        }
        assert forall|k: int| 0 <= k < n implies (spots.contains(k) <==> forall|t: int|
            0 <= t < (#[trigger] plugins[k])@.manifest.tools.len() ==> !contested(
                plugins,
                builtins,
                (#[trigger] plugins[k]@.manifest.tools[t]).name,
            )) by {
            if k < last {
                if seen.contains(k) {
                    let i = choose|i: int| 0 <= i < seen.len() && seen[i] == k;
                    assert(spots[i] == k);
                }
                if spots.contains(k) {
                    let i = choose|i: int| 0 <= i < spots.len() && spots[i] == k;
                    assert(seen[i] == k);
                }
            } else if spots.contains(k) && !fits {
                let i = choose|i: int| 0 <= i < spots.len() && spots[i] == k;
                assert(seen[i] < last);
            }
        }
        spots
    }
}

/// The conflicts of a plugin are the contested names of its tools, in order. The
/// result tells which tools they are.
pub proof fn law_conflicts_are_the_contested_names(
    plugins: Seq<InstalledPlugin>,
    builtins: Seq<Seq<char>>,
    tools: Seq<ToolManifestView>,
    n: int,
) -> (spots: Seq<int>)
    requires
        0 <= n <= tools.len(),
    ensures
        spots.len() == conflicts(plugins, builtins, tools, n).len(),
        forall|i: int|
            0 <= i < spots.len() ==> 0 <= (#[trigger] spots[i]) < n && conflicts(
                plugins,
                builtins,
                tools,
                n,
            )[i] == tools[spots[i]].name && contested(plugins, builtins, tools[spots[i]].name),
        forall|i: int, j: int|
            0 <= i < j < spots.len() ==> #[trigger] spots[i] < #[trigger] spots[j],
        forall|t: int|
            0 <= t < n && contested(plugins, builtins, (#[trigger] tools[t]).name)
                ==> spots.contains(t),
    decreases n,
{
    if n == 0 {
        Seq::empty()
    } else {
        let last = n - 1;
        let seen = law_conflicts_are_the_contested_names(plugins, builtins, tools, last);
        let spots = if contested(plugins, builtins, tools[last].name) {
            seen.push(last)
        } else {
            seen
        };
        assert forall|i: int| 0 <= i < spots.len() implies 0 <= (#[trigger] spots[i]) < n
            && conflicts(plugins, builtins, tools, n)[i] == tools[spots[i]].name && contested(
            plugins,
            builtins,
            tools[spots[i]].name,
        ) by {
            if i < seen.len() {
                assert(spots[i] == seen[i]);
            }
        }
        assert forall|i: int, j: int| 0 <= i < j < spots.len() implies #[trigger] spots[i]
            < #[trigger] spots[j] by {
            assert(spots[i] == seen[i]);
            if j < seen.len() {
                assert(spots[j] == seen[j]);
            }
        }
        assert forall|t: int|
            0 <= t < n && contested(plugins, builtins, (#[trigger] tools[t]).name) implies
            spots.contains(t) by {
            if t < last {
                let i = choose|i: int| 0 <= i < seen.len() && seen[i] == t;
                assert(spots[i] == t);
            } else {
                assert(spots[spots.len() - 1] == t);
            }
        }
        spots
    }
}

/// Of every plugin that is not selected a note names it and its contested names,
/// in order, and of no other. The result tells which plugins they are.
pub proof fn law_conflicts_are_told(
    plugins: Seq<InstalledPlugin>,
    builtins: Seq<Seq<char>>,
    n: int,
) -> (spots: Seq<int>)
    requires
        0 <= n <= plugins.len(),
    ensures
        spots.len() == conflict_notes(plugins, builtins, n).len(),
        spots.len() + uncontested(plugins, builtins, n).len() == n,
        forall|i: int|
            0 <= i < spots.len() ==> 0 <= (#[trigger] spots[i]) < n && conflict_notes(
                plugins,
                builtins,
                n,
            )[i] == "plugin "@ + plugins[spots[i]]@.manifest.id
                + " skipped; conflicting tool names: "@ + joined(
                conflicts_of(plugins, builtins, plugins[spots[i]]),
                ", "@,
            ),
        forall|i: int, j: int|
            0 <= i < j < spots.len() ==> #[trigger] spots[i] < #[trigger] spots[j],
        forall|k: int|
            0 <= k < n && conflicts_of(plugins, builtins, #[trigger] plugins[k]).len() > 0
                ==> spots.contains(k),
    decreases n,
{
    if n == 0 {
        Seq::empty()
    } else {
        let last = n - 1;
        let seen = law_conflicts_are_told(plugins, builtins, last);
        let spots = if conflicts_of(plugins, builtins, plugins[last]).len() > 0 {
            seen.push(last)
        } else {
            seen
        };
        assert forall|i: int| 0 <= i < spots.len() implies 0 <= (#[trigger] spots[i]) < n
            && conflict_notes(plugins, builtins, n)[i] == "plugin "@
            + plugins[spots[i]]@.manifest.id + " skipped; conflicting tool names: "@ + joined(
            conflicts_of(plugins, builtins, plugins[spots[i]]),
            ", "@,
        ) by {
            if i < seen.len() {
                assert(spots[i] == seen[i]);
            }
        }
        assert forall|i: int, j: int| 0 <= i < j < spots.len() implies #[trigger] spots[i]
            < #[trigger] spots[j] by {
            assert(spots[i] == seen[i]);
            if j < seen.len() {
                assert(spots[j] == seen[j]);
            }
        }
        assert forall|k: int|
            0 <= k < n && conflicts_of(plugins, builtins, #[trigger] plugins[k]).len() > 0 implies
            spots.contains(k) by {
            if k < last {
                let i = choose|i: int| 0 <= i < seen.len() && seen[i] == k;
                assert(spots[i] == k);
            } else {
                assert(spots[spots.len() - 1] == k);
            }
        }
        spots
    }
}

} // verus!
