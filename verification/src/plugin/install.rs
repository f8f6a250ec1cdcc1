//! Installing a package: the steps on the disk, and what follows each.

use vstd::prelude::*;

use crate::plugin::manifest::PluginManifest;
use crate::plugin::package::StoreError;
use crate::plugin::store::InstalledPlugin;

verus! {

/// What is to be done next. A step between the creation of the staging
/// directory and its removal works on that directory.
#[derive(Debug, PartialEq, Eq)]
pub enum InstallState {
    CreateRoot,
    CreateStaging,
    Unpack,
    ReadManifest,
    MakeExecutable { id: String },
    LookForDestination { id: String },
    /// Move the plugin that is installed to the backup.
    MoveOldAway { id: String },
    /// Move the staging directory to the destination.
    MoveNewIn { id: String, backed_up: bool },
    /// Move the backup to the destination again.
    RestoreOld { error: StoreError },
    DropBackup { id: String },
    Load { id: String },
    /// Delete the staging directory, if it is there.
    CleanUp(Result<InstalledPlugin, StoreError>),
    Finished(Result<InstalledPlugin, StoreError>),
}

/// What a step came to.
#[derive(Debug, PartialEq, Eq)]
pub enum Reply {
    Done,
    Refused(StoreError),
    Read(PluginManifest),
    Found(bool),
    Loaded(InstalledPlugin),
}

/// What follows a step that failed. Before there is a staging directory nothing
/// is left to do; after that the directory is cleaned up, and where the old
/// plugin was moved away it is moved back first. The first error is the outcome.
pub open spec fn after_refusal(state: InstallState, error: StoreError) -> InstallState {
    match state {
        InstallState::CreateRoot | InstallState::CreateStaging => InstallState::Finished(
            Err(error),
        ),
        InstallState::MoveNewIn { backed_up: true, .. } => InstallState::RestoreOld { error },
        InstallState::RestoreOld { error: first } => InstallState::CleanUp(Err(first)),
        InstallState::CleanUp(outcome) => InstallState::Finished(outcome),
        InstallState::Finished(_) => state,
        _ => InstallState::CleanUp(Err(error)),
    }
}

/// What follows a step. A reply that does not fit the step changes nothing.
pub open spec fn after_reply(replace: bool, state: InstallState, reply: Reply) -> InstallState {
    match reply {
        Reply::Refused(error) => after_refusal(state, error),
        Reply::Read(manifest) => if state is ReadManifest {
            InstallState::MakeExecutable { id: manifest.id }
        } else {
            state
        },
        Reply::Found(found) => match state {
            InstallState::LookForDestination { id } => if !found {
                InstallState::MoveNewIn { id, backed_up: false }
            } else if replace {
                InstallState::MoveOldAway { id }
            } else {
                InstallState::CleanUp(Err(StoreError::Exists(id)))
            },
            _ => state,
        },
        Reply::Loaded(plugin) => if state is Load {
            InstallState::CleanUp(Ok(plugin))
        } else {
            state
        },
        Reply::Done => match state {
            InstallState::CreateRoot => InstallState::CreateStaging,
            InstallState::CreateStaging => InstallState::Unpack,
            InstallState::Unpack => InstallState::ReadManifest,
            InstallState::MakeExecutable { id } => InstallState::LookForDestination { id },
            InstallState::MoveOldAway { id } => InstallState::MoveNewIn { id, backed_up: true },
            InstallState::MoveNewIn { id, backed_up: true } => InstallState::DropBackup { id },
            InstallState::MoveNewIn { id, backed_up: false } => InstallState::Load { id },
            InstallState::RestoreOld { error } => InstallState::CleanUp(Err(error)),
            InstallState::DropBackup { id } => InstallState::Load { id },
            InstallState::CleanUp(outcome) => InstallState::Finished(outcome),
            _ => state,
        },
    }
}

/// What follows a step. `replace` tells whether a plugin that is installed
/// already may be replaced.
pub fn next_step(replace: bool, state: InstallState, reply: Reply) -> (next: InstallState)
    ensures
        next == after_reply(replace, state, reply),
{
    match (state, reply) {
        (InstallState::CreateRoot, Reply::Done) => InstallState::CreateStaging,
        (InstallState::CreateRoot, Reply::Refused(error)) => InstallState::Finished(Err(error)),
        (InstallState::CreateStaging, Reply::Done) => InstallState::Unpack,
        (InstallState::CreateStaging, Reply::Refused(error)) => InstallState::Finished(Err(error)),
        (InstallState::Unpack, Reply::Done) => InstallState::ReadManifest,
        (InstallState::Unpack, Reply::Refused(error)) => InstallState::CleanUp(Err(error)),
        (InstallState::ReadManifest, Reply::Read(manifest)) => InstallState::MakeExecutable {
            id: manifest.id,
        },
        (InstallState::ReadManifest, Reply::Refused(error)) => InstallState::CleanUp(Err(error)),
        (InstallState::MakeExecutable { id }, Reply::Done) => InstallState::LookForDestination {
            id,
        },
        (InstallState::MakeExecutable { id }, Reply::Refused(error)) => InstallState::CleanUp(
            Err(error),
        ),
        (InstallState::LookForDestination { id }, Reply::Found(found)) => if !found {
            InstallState::MoveNewIn { id, backed_up: false }
        } else if replace {
            InstallState::MoveOldAway { id }
        } else {
            InstallState::CleanUp(Err(StoreError::Exists(id)))
        },
        (InstallState::LookForDestination { id }, Reply::Refused(error)) => InstallState::CleanUp(
            Err(error),
        ),
        (InstallState::MoveOldAway { id }, Reply::Done) => InstallState::MoveNewIn {
            id,
            backed_up: true,
        },
        (InstallState::MoveOldAway { id }, Reply::Refused(error)) => InstallState::CleanUp(
            Err(error),
        ),
        (InstallState::MoveNewIn { id, backed_up }, Reply::Done) => if backed_up {
            InstallState::DropBackup { id }
        } else {
            InstallState::Load { id }
        },
        (InstallState::MoveNewIn { id, backed_up }, Reply::Refused(error)) => if backed_up {
            InstallState::RestoreOld { error }
        } else {
            InstallState::CleanUp(Err(error))
        },
        (InstallState::RestoreOld { error }, Reply::Done) => InstallState::CleanUp(Err(error)),
        (InstallState::RestoreOld { error }, Reply::Refused(_)) => InstallState::CleanUp(
            Err(error),
        ),
        (InstallState::DropBackup { id }, Reply::Done) => InstallState::Load { id },
        (InstallState::DropBackup { id }, Reply::Refused(error)) => InstallState::CleanUp(
            Err(error),
        ),
        (InstallState::Load { id }, Reply::Loaded(plugin)) => InstallState::CleanUp(Ok(plugin)),
        (InstallState::Load { id }, Reply::Refused(error)) => InstallState::CleanUp(Err(error)),
        (InstallState::CleanUp(outcome), Reply::Done) => InstallState::Finished(outcome),
        (InstallState::CleanUp(outcome), Reply::Refused(_)) => InstallState::Finished(outcome),
        (state, _) => state,
    }
}

/// What lies at a place of the disk.
#[derive(Clone, Copy, PartialEq, Eq, Structural)]
pub enum Occupant {
    Nothing,
    Old,
    New,
}

/// What lies at the destination, and whether the old plugin could be put back
/// whenever that was tried.
pub struct Disk {
    pub destination: Occupant,
    pub restored: bool,
}

/// What a step that came to `reply` did to the disk: a move happens or it does
/// not.
pub open spec fn disk_after(disk: Disk, state: InstallState, reply: Reply) -> Disk {
    match (state, reply) {
        (InstallState::MoveOldAway { .. }, Reply::Done) => Disk {
            destination: Occupant::Nothing,
            ..disk
        },
        (InstallState::MoveNewIn { .. }, Reply::Done) => Disk {
            destination: Occupant::New,
            ..disk
        },
        (InstallState::RestoreOld { .. }, Reply::Done) => Disk {
            destination: Occupant::Old,
            ..disk
        },
        (InstallState::RestoreOld { .. }, Reply::Refused(_)) => Disk { restored: false, ..disk },
        _ => disk,
    }
}

/// Whether a reply tells the truth about the disk.
pub open spec fn truthful(disk: Disk, state: InstallState, reply: Reply) -> bool {
    match (state, reply) {
        (InstallState::LookForDestination { .. }, Reply::Found(found)) => found
            == (disk.destination != Occupant::Nothing),
        _ => true,
    }
}

/// The state and the disk after some replies.
pub open spec fn install_run(replace: bool, disk: Disk, replies: Seq<Reply>) -> (InstallState, Disk)
    decreases replies.len(),
{
    if replies.len() == 0 {
        (InstallState::CreateRoot, disk)
    } else {
        let (state, before) = install_run(replace, disk, replies.drop_last());
        (
            after_reply(replace, state, replies.last()),
            disk_after(before, state, replies.last()),
        )
    }
}

/// Whether every reply told the truth.
pub open spec fn truthful_run(replace: bool, disk: Disk, replies: Seq<Reply>) -> bool
    decreases replies.len(),
{
    replies.len() == 0 || {
        let (state, before) = install_run(replace, disk, replies.drop_last());
        truthful_run(replace, disk, replies.drop_last()) && truthful(before, state, replies.last())
    }
}

/// What holds at every step of a truthful run.
spec fn consistent(replace: bool, first: Occupant, state: InstallState, disk: Disk) -> bool {
    match state {
        InstallState::MoveOldAway { .. } => replace && disk.destination == first && first
            != Occupant::Nothing && disk.restored,
        InstallState::MoveNewIn { backed_up, .. } => disk.restored && disk.destination
            == Occupant::Nothing && (if backed_up {
            replace
        } else {
            first == Occupant::Nothing
        }),
        InstallState::RestoreOld { .. } => replace && disk.destination == Occupant::Nothing
            && disk.restored,
        InstallState::DropBackup { .. } => replace && disk.destination == Occupant::New
            && disk.restored,
        InstallState::Load { .. } => disk.destination == Occupant::New && disk.restored && (replace
            || first == Occupant::Nothing),
        InstallState::CleanUp(outcome) => settled(replace, first, disk, outcome),
        InstallState::Finished(outcome) => settled(replace, first, disk, outcome),
        _ => disk.destination == first && disk.restored,
    }
}

/// What holds once the outcome is known.
pub open spec fn settled(
    replace: bool,
    first: Occupant,
    disk: Disk,
    outcome: Result<InstalledPlugin, StoreError>,
) -> bool {
    &&& outcome is Ok ==> disk.destination == Occupant::New
    &&& disk.restored && first == Occupant::Old ==> disk.destination != Occupant::Nothing
    &&& !replace && first == Occupant::Old ==> disk.destination == Occupant::Old && outcome is Err
}

proof fn lemma_consistent(replace: bool, disk: Disk, replies: Seq<Reply>)
    requires
        disk.destination != Occupant::New,
        disk.restored,
        truthful_run(replace, disk, replies),
    ensures
        ({
            let (state, after) = install_run(replace, disk, replies);
            consistent(replace, disk.destination, state, after)
        }),
    decreases replies.len(),
{
    if replies.len() > 0 {
        lemma_consistent(replace, disk, replies.drop_last());
    }
}

/// Whatever step fails, an installed plugin is not lost: once the install has
/// finished, the old plugin or the new one is in place, unless putting the old
/// one back failed too. Success means that the new one is in place. Without
/// leave to replace, an installed plugin stays and the install fails.
pub proof fn law_installed_plugin_is_not_lost(
    replace: bool,
    disk: Disk,
    replies: Seq<Reply>,
    outcome: Result<InstalledPlugin, StoreError>,
)
    requires
        disk.destination != Occupant::New,
        disk.restored,
        truthful_run(replace, disk, replies),
        install_run(replace, disk, replies).0 == InstallState::Finished(outcome),
    ensures
        settled(replace, disk.destination, install_run(replace, disk, replies).1, outcome),
{
    lemma_consistent(replace, disk, replies);
}

/// An install that nothing stands in the way of goes through every step in order
/// and ends with the plugin that was loaded; where one is installed under the id
/// of the manifest, it is moved away first and dropped after.
pub proof fn law_unhindered_installs_succeed(
    replace: bool,
    manifest: PluginManifest,
    found: bool,
    plugin: InstalledPlugin,
)
    requires
        found ==> replace,
    ensures
        ({
            let id = manifest.id;
            let staged = after_reply(replace, InstallState::CreateRoot, Reply::Done);
            let created = after_reply(replace, staged, Reply::Done);
            let unpacked = after_reply(replace, created, Reply::Done);
            let read = after_reply(replace, unpacked, Reply::Read(manifest));
            let ready = after_reply(replace, read, Reply::Done);
            let looked = after_reply(replace, ready, Reply::Found(found));
            let cleared = if found {
                after_reply(replace, looked, Reply::Done)
            } else {
                looked
            };
            let moved = after_reply(replace, cleared, Reply::Done);
            let kept = if found {
                after_reply(replace, moved, Reply::Done)
            } else {
                moved
            };
            let loaded = after_reply(replace, kept, Reply::Loaded(plugin));
            &&& staged is CreateStaging
            &&& created is Unpack
            &&& unpacked is ReadManifest
            &&& read matches InstallState::MakeExecutable { id: named } && named == id
            &&& ready matches InstallState::LookForDestination { id: named } && named == id
            &&& found ==> (looked matches InstallState::MoveOldAway { id: named } && named == id)
            &&& cleared matches InstallState::MoveNewIn { id: named, backed_up } && named == id
                && backed_up == found
            &&& found ==> (moved matches InstallState::DropBackup { id: named } && named == id)
            &&& kept matches InstallState::Load { id: named } && named == id
            &&& after_reply(replace, loaded, Reply::Done) == InstallState::Finished(Ok(plugin))
        }),
{
}

/// The first error of an install is its outcome, whatever cleaning up comes to,
/// and where the old plugin was moved away it is moved back first.
pub proof fn law_the_first_error_is_the_outcome(
    replace: bool,
    state: InstallState,
    error: StoreError,
    restored: Reply,
    cleaned: Reply,
)
    requires
        !(state is RestoreOld),
        !(state is CleanUp),
        !(state is Finished),
        restored is Done || restored is Refused,
        cleaned is Done || cleaned is Refused,
    ensures
        ({
            let next = after_reply(replace, state, Reply::Refused(error));
            let back = if next is RestoreOld {
                after_reply(replace, next, restored)
            } else {
                next
            };
            let last = if back is CleanUp {
                after_reply(replace, back, cleaned)
            } else {
                back
            };
            &&& last == InstallState::Finished(Err(error))
            &&& next is RestoreOld <==> (state matches InstallState::MoveNewIn { backed_up, .. }
                && backed_up)
            &&& back is CleanUp <==> !(state is CreateRoot) && !(state is CreateStaging)
        }),
{
}

/// A plugin that is installed and may not be replaced is reported by its id.
pub proof fn law_installed_plugins_are_reported(id: String)
    ensures
        after_reply(false, InstallState::LookForDestination { id }, Reply::Found(true))
            == InstallState::CleanUp(Err(StoreError::Exists(id))),
{
}

} // verus!
