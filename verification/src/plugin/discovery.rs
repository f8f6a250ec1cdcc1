//! What discovery finds in a store, and what enabling and disabling change of it.

use vstd::prelude::*;

use crate::path::{absolute, components_of, join_of, law_join_lies_under, named_segments};
use crate::plugin::manifest::{local_entrypoint, manifest_problem, plugin_id, ManifestView};
use crate::plugin::package::StoreErrorView;
use crate::plugin::store::{
    access_refusal, complaints, load_refusal, loaded, marker_path, InstalledView,
};
use crate::text::{lemma_unsplit, split_on};

verus! {

/// A directory of a store: its name, what its manifest is read as, and which of
/// the commands that it needs are missing.
pub struct PluginDir {
    pub name: Seq<char>,
    pub manifest: Result<ManifestView, StoreErrorView>,
    pub missing: Seq<Seq<char>>,
}

/// A store on the disk: its root, the directories that discovery looks at, in
/// order, and the files, by the components of their paths.
pub struct StoreDisk {
    pub root: Seq<char>,
    pub dirs: Seq<PluginDir>,
    pub files: Set<Seq<Seq<char>>>,
}

/// Whether a text names something in a directory.
pub open spec fn entry_name(name: Seq<char>) -> bool {
    name.len() > 0 && !name.contains('/') && name != "."@
}

impl StoreDisk {
    /// The store has a root, its directories have names of their own, and what is
    /// read as a manifest is a valid one.
    pub open spec fn well_formed(self) -> bool {
        &&& self.root.len() > 0
        &&& forall|i: int| 0 <= i < self.dirs.len() ==> entry_name((#[trigger] self.dirs[i]).name)
        &&& forall|i: int, j: int|
            0 <= i < j < self.dirs.len() ==> (#[trigger] self.dirs[i]).name != (
            #[trigger] self.dirs[j]).name
        &&& forall|i: int|
            0 <= i < self.dirs.len() ==> ((#[trigger] self.dirs[i]).manifest matches Ok(manifest)
                ==> manifest_problem(manifest) is None)
    }

    /// The path of a directory.
    pub open spec fn path(self, i: int) -> Seq<char> {
        join_of(self.root, self.dirs[i].name)
    }

    /// The file that marks a directory as disabled.
    pub open spec fn marker(self, i: int) -> Seq<Seq<char>> {
        components_of(marker_path(self.root, self.dirs[i].name))
    }

    /// The file that the manifest of a directory names as its program.
    pub open spec fn program(self, i: int) -> Seq<Seq<char>> {
        components_of(join_of(self.path(i), self.dirs[i].manifest->Ok_0.entrypoint[0]))
    }

    /// What loading a directory comes to.
    pub open spec fn outcome(self, i: int) -> Result<InstalledView, StoreErrorView> {
        match self.dirs[i].manifest {
            Err(error) => Err(error),
            Ok(manifest) => match load_refusal(
                manifest,
                Some(self.dirs[i].name),
                self.files.contains(self.program(i)),
            ) {
                Some(error) => Err(error),
                None => Ok(
                    InstalledView {
                        manifest,
                        path: self.path(i),
                        enabled: !self.files.contains(self.marker(i)),
                        missing_commands: self.dirs[i].missing,
                    },
                ),
            },
        }
    }

    /// What loading each directory comes to.
    pub open spec fn outcomes(self) -> Seq<(Seq<char>, Result<InstalledView, StoreErrorView>)> {
        Seq::new(self.dirs.len(), |i: int| (self.path(i), self.outcome(i)))
    }

    /// The plugins that discovery finds.
    pub open spec fn plugins(self) -> Seq<InstalledView> {
        loaded(self.outcomes())
    }

    /// What discovery tells of the other directories.
    pub open spec fn complaints(self) -> Seq<Seq<char>> {
        complaints(self.outcomes())
    }

    /// The store after a marker was written or deleted.
    pub open spec fn marked(self, path: Seq<char>, write: bool) -> StoreDisk {
        StoreDisk {
            files: if write {
                self.files.insert(components_of(path))
            } else {
                self.files.remove(components_of(path))
            },
            ..self
        }
    }
}

/// Plugins of which the one at a path is enabled or disabled.
pub open spec fn with_enabled(
    plugins: Seq<InstalledView>,
    path: Seq<char>,
    enabled: bool,
) -> Seq<InstalledView> {
    Seq::new(
        plugins.len(),
        |i: int|
            if plugins[i].path == path {
                InstalledView { enabled, ..plugins[i] }
            } else {
                plugins[i]
            },
    )
}

proof fn lemma_name_components(base: Seq<char>, name: Seq<char>)
    requires
        base.len() > 0,
        entry_name(name),
    ensures
        components_of(join_of(base, name)) == components_of(base).push(name),
        join_of(base, name).len() > 0,
{
    assert(!absolute(name)) by {
        assert(name.contains(name[0]));
    }
    law_join_lies_under(base, name);
    lemma_unsplit(name, '/');
    reveal_with_fuel(named_segments, 2);
    assert(seq![name].drop_last() =~= Seq::empty());
    assert(named_segments(seq![name]) =~= seq![name]);
    assert(components_of(base) + seq![name] =~= components_of(base).push(name));
}

/// The files of two directories differ in the component after the root.
proof fn lemma_dir_components(disk: StoreDisk, i: int)
    requires
        disk.well_formed(),
        0 <= i < disk.dirs.len(),
    ensures
        disk.path(i).len() > 0,
        components_of(disk.path(i)) == components_of(disk.root).push(disk.dirs[i].name),
        disk.marker(i) == components_of(disk.root).push(disk.dirs[i].name).push(".disabled"@),
        disk.dirs[i].manifest is Ok && local_entrypoint(disk.dirs[i].manifest->Ok_0)
            ==> disk.program(i).len() > components_of(disk.root).len() && disk.program(
            i,
        )[components_of(disk.root).len() as int] == disk.dirs[i].name,
{
    reveal_strlit(".disabled");
    reveal_strlit(".");
    let root = components_of(disk.root);
    let name = disk.dirs[i].name;
    assert(entry_name(disk.dirs[i].name));
    lemma_name_components(disk.root, name);
    assert(entry_name(".disabled"@)) by {
        assert(".disabled"@.len() != "."@.len());
        if ".disabled"@.contains('/') {
            let k = choose|k: int| 0 <= k < ".disabled"@.len() && ".disabled"@[k] == '/';
            assert(false);
        }
    }
    lemma_name_components(disk.path(i), ".disabled"@);
    if disk.dirs[i].manifest is Ok && local_entrypoint(disk.dirs[i].manifest->Ok_0) {
        let program = disk.dirs[i].manifest->Ok_0.entrypoint[0];
        if absolute(program) {
            assert(components_of(program)[0] == "/"@);
        }
        law_join_lies_under(disk.path(i), program);
        assert(disk.program(i) == root.push(name) + named_segments(split_on(program, '/')));
    }
}

proof fn lemma_discovery(
    before: Seq<(Seq<char>, Result<InstalledView, StoreErrorView>)>,
    after: Seq<(Seq<char>, Result<InstalledView, StoreErrorView>)>,
    path: Seq<char>,
    enabled: bool,
)
    requires
        before.len() == after.len(),
        forall|i: int|
            0 <= i < before.len() ==> (#[trigger] before[i]).0 == after[i].0 && match before[i].1 {
                Err(_) => after[i].1 == before[i].1,
                Ok(plugin) => after[i].1 == Ok::<InstalledView, StoreErrorView>(
                    if plugin.path == path {
                        InstalledView { enabled, ..plugin }
                    } else {
                        plugin
                    },
                ),
            },
    ensures
        loaded(after) == with_enabled(loaded(before), path, enabled),
        complaints(after) == complaints(before),
    decreases before.len(),
{
    if before.len() > 0 {
        let last = before.len() - 1;
        assert(before[last].0 == after[last].0);
        assert forall|i: int| 0 <= i < last implies (#[trigger] before.drop_last()[i]).0
            == after.drop_last()[i].0 && match before.drop_last()[i].1 {
            Err(_) => after.drop_last()[i].1 == before.drop_last()[i].1,
            Ok(plugin) => after.drop_last()[i].1 == Ok::<InstalledView, StoreErrorView>(
                if plugin.path == path {
                    InstalledView { enabled, ..plugin }
                } else {
                    plugin
                },
            ),
        } by {
            assert(before[i].0 == after[i].0);
        }
        lemma_discovery(before.drop_last(), after.drop_last(), path, enabled);
    }
    assert(loaded(after) =~= with_enabled(loaded(before), path, enabled));
}

/// A plugin that discovery lists can be enabled and disabled: a following
/// discovery lists it in that state and is otherwise unchanged, and to do the same
/// again is allowed and changes nothing. Left out is a plugin whose program is the
/// marker itself, which would go with it.
pub proof fn law_enabling_shows_in_discovery(disk: StoreDisk, k: int, enabled: bool)
    requires
        disk.well_formed(),
        0 <= k < disk.dirs.len(),
        disk.outcome(k) is Ok,
        local_entrypoint(disk.dirs[k].manifest->Ok_0) ==> disk.program(k) != disk.marker(k),
    ensures
        ({
            let id = disk.dirs[k].name;
            let path = marker_path(disk.root, id);
            let after = disk.marked(path, !enabled);
            &&& disk.dirs[k].manifest->Ok_0.id == id
            &&& access_refusal(id, true) is None
            &&& after.outcome(k) == Ok::<InstalledView, StoreErrorView>(
                InstalledView { enabled, ..disk.outcome(k)->Ok_0 },
            )
            &&& after.plugins() == with_enabled(disk.plugins(), disk.path(k), enabled)
            &&& after.complaints() == disk.complaints()
            &&& after.marked(path, !enabled) == after
        }),
{
    let id = disk.dirs[k].name;
    let path = marker_path(disk.root, id);
    let after = disk.marked(path, !enabled);
    let at = components_of(disk.root).len() as int;
    assert(manifest_problem(disk.dirs[k].manifest->Ok_0) is None);
    lemma_dir_components(disk, k);
    let before_outcomes = disk.outcomes();
    let after_outcomes = after.outcomes();
    assert forall|i: int| 0 <= i < disk.dirs.len() implies (#[trigger] before_outcomes[i]).0
        == after_outcomes[i].0 && match before_outcomes[i].1 {
        Err(_) => after_outcomes[i].1 == before_outcomes[i].1,
        Ok(plugin) => after_outcomes[i].1 == Ok::<InstalledView, StoreErrorView>(
            if plugin.path == disk.path(k) {
                InstalledView { enabled, ..plugin }
            } else {
                plugin
            },
        ),
    } by {
        lemma_dir_components(disk, i);
        if i != k {
            assert(disk.dirs[i].name != disk.dirs[k].name) by {
                if i < k {
                    assert(disk.dirs[i].name != disk.dirs[k].name);
                } else {
                    assert(disk.dirs[k].name != disk.dirs[i].name);
                }
            }
            assert(disk.marker(k)[at] == id);
            assert(disk.marker(i)[at] == disk.dirs[i].name);
            assert(components_of(disk.path(i))[at] == disk.dirs[i].name);
            assert(components_of(disk.path(k))[at] == id);
        }
        assert(after.path(i) == disk.path(i));
        assert(after.marker(i) == disk.marker(i));
        assert(after.program(i) == disk.program(i));
    }
    assert(before_outcomes[k].0 == after_outcomes[k].0);
    lemma_discovery(before_outcomes, after_outcomes, disk.path(k), enabled);
    assert(after.marked(path, !enabled).files =~= after.files);
}

/// An operation on a plugin is allowed only where it is given a plugin id.
pub proof fn law_accepted_ids_are_plugin_ids(id: Seq<char>, is_dir: bool)
    requires
        access_refusal(id, is_dir) is None,
    ensures
        plugin_id(id),
{
}

} // verus!
