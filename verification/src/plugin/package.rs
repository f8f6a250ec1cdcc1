//! Plugin packages: what an archive may hold, and what is installed.

use vstd::prelude::*;
use vstd::utf8::{decode_utf8, valid_utf8};

use flate2::read::GzDecoder;
use std::io::Read;
use tar::Archive;

use crate::path::{
    absolute, components, components_of, descends, is_descending, join_of, join_path,
    law_descending_paths_do_not_climb, law_join_lies_under,
    law_paths_are_made_of_their_components, lies_under, named_segments, path_of,
};
use crate::plugin::manifest::{manifest_problem, tells_of, PluginManifest};
use crate::text::{
    byte_text, bytes_of_text, contains_text, from_utf8, from_utf8_lossy,
    law_byte_texts_keep_the_bytes, law_occurrences_split_the_text, lossy_text, of_bytes,
    same_text, split_on, text_of_bytes,
};

verus! {

/// Errors of the plugin store.
#[derive(Debug, PartialEq, Eq)]
pub enum StoreError {
    Io(String),
    Invalid(String),
    Exists(String),
    NotFound(String),
}

/// What a [`StoreError`] says.
pub enum StoreErrorView {
    Io(Seq<char>),
    Invalid(Seq<char>),
    Exists(Seq<char>),
    NotFound(Seq<char>),
}

impl View for StoreError {
    type V = StoreErrorView;

    open spec fn view(&self) -> StoreErrorView {
        match self {
            StoreError::Io(text) => StoreErrorView::Io(text@),
            StoreError::Invalid(text) => StoreErrorView::Invalid(text@),
            StoreError::Exists(id) => StoreErrorView::Exists(id@),
            StoreError::NotFound(id) => StoreErrorView::NotFound(id@),
        }
    }
}

impl StoreErrorView {
    /// The sentence shown to a person.
    pub open spec fn sentence(self) -> Seq<char> {
        match self {
            StoreErrorView::Io(text) => "plugin store I/O failed: "@ + text,
            StoreErrorView::Invalid(text) => "invalid plugin package: "@ + text,
            StoreErrorView::Exists(id) => "plugin `"@ + id
                + "` is already installed (use --replace)"@,
            StoreErrorView::NotFound(id) => "plugin `"@ + id + "` is not installed"@,
        }
    }
}

impl StoreError {
    /// The sentence shown to a person.
    pub fn describe(&self) -> (sentence: String)
        ensures
            sentence@ == self@.sentence(),
    {
        match self {
            StoreError::Io(text) => "plugin store I/O failed: ".to_owned().concat(text.as_str()),
            StoreError::Invalid(text) => "invalid plugin package: ".to_owned().concat(
                text.as_str(),
            ),
            StoreError::Exists(id) => "plugin `".to_owned().concat(id.as_str()).concat(
                "` is already installed (use --replace)",
            ),
            StoreError::NotFound(id) => "plugin `".to_owned().concat(id.as_str()).concat(
                "` is not installed",
            ),
        }
    }
}

/// Whether a path of an archive stays below the directory it is unpacked in.
pub open spec fn safe_path(path: Seq<char>) -> bool {
    path.len() > 0 && descends(path)
}

/// Whether a path of an archive stays below the directory it is unpacked in.
pub fn safe_relative(path: &str) -> (yes: bool)
    ensures
        yes == safe_path(path@),
{
    !path.is_empty() && is_descending(path)
}

/// One entry of an archive, with the bytes of its path and the first bytes of
/// its content.
#[derive(Debug, PartialEq, Eq)]
pub struct ArchiveEntry {
    pub is_file: bool,
    pub is_dir: bool,
    pub path: Vec<u8>,
    pub content: Result<Vec<u8>, String>,
}

/// What an [`ArchiveEntry`] holds.
pub struct EntryView {
    pub is_file: bool,
    pub is_dir: bool,
    pub path: Seq<u8>,
    pub content: Result<Seq<u8>, Seq<char>>,
}

impl View for ArchiveEntry {
    type V = EntryView;

    open spec fn view(&self) -> EntryView {
        EntryView {
            is_file: self.is_file,
            is_dir: self.is_dir,
            path: self.path@,
            content: match self.content {
                Ok(bytes) => Ok(bytes@),
                Err(error) => Err(error@),
            },
        }
    }
}

/// What an entry that was read, or was not, holds.
pub open spec fn entry_view(entry: Result<ArchiveEntry, String>) -> Result<EntryView, Seq<char>> {
    match entry {
        Ok(entry) => Ok(entry@),
        Err(error) => Err(error@),
    }
}

/// What each entry of a list holds.
pub open spec fn entries_view(entries: Seq<Result<ArchiveEntry, String>>) -> Seq<
    Result<EntryView, Seq<char>>,
> {
    Seq::new(entries.len(), |i: int| entry_view(entries[i]))
}

/// The entries of a gzip-compressed tar archive, with at most `limit` bytes of
/// the content of each.
pub uninterp spec fn archive_entries(package: Seq<u8>, limit: u64) -> Seq<
    Result<EntryView, Seq<char>>,
>;

/// `flate2::read::GzDecoder` decompresses the bytes, and `tar::Archive::entries`
/// yields the entries of the archive in order, or an error in place of an entry
/// and nothing after it. Of each entry `path_bytes` gives the path, and at most
/// `limit` bytes of the content are read. All of it depends on the bytes and the
/// limit alone and is named [`archive_entries`].
#[verifier::external_body]
fn read_entries(package: &[u8], limit: u64) -> (entries: Vec<Result<ArchiveEntry, String>>)
    ensures
        entries_view(entries@) == archive_entries(package@, limit),
{
    let mut archive = Archive::new(GzDecoder::new(package));
    let entries = archive.entries().into_iter().flatten();
    entries.map(|item| {
        let entry = item.map_err(|error| error.to_string())?;
        let (is_file, is_dir) = (entry.header().entry_type().is_file(), entry.header().entry_type().is_dir());
        let path = entry.path_bytes().into_owned();
        let mut bytes = Vec::new();
        let read = entry.take(limit).read_to_end(&mut bytes);
        let content = read.map(|_| bytes).map_err(|error| error.to_string());
        Ok(ArchiveEntry { is_file, is_dir, path, content })
    }).collect()
}

/// The largest manifest that is read.
pub const MAX_MANIFEST_BYTES: usize = 1_048_576;

/// What the rules say of an entry.
pub enum Verdict {
    Refused(StoreErrorView),
    Manifest(Seq<char>),
    Other,
}

/// Whether a path names the manifest at the top of a package.
pub open spec fn manifest_path(path: Seq<u8>) -> bool {
    let steps = components_of(byte_text(path));
    steps == seq!["tool.json"@] || steps == seq!["."@, "tool.json"@]
}

/// What the rules say of the kind and the path of an entry.
pub open spec fn placement_refusal(is_file: bool, is_dir: bool, path: Seq<u8>) -> Option<
    StoreErrorView,
> {
    if !is_file && !is_dir {
        Some(StoreErrorView::Invalid("links and special archive entries are forbidden"@))
    } else if !safe_path(byte_text(path)) {
        Some(StoreErrorView::Invalid("unsafe archive path `"@ + lossy_text(path) + "`"@))
    } else {
        None
    }
}

/// What the rules say of the bytes of a manifest, of which one more than the
/// limit was read.
pub open spec fn manifest_verdict(content: Result<Seq<u8>, Seq<char>>) -> Verdict {
    match content {
        Err(error) => Verdict::Refused(StoreErrorView::Io(error)),
        Ok(bytes) => if !valid_utf8(bytes) {
            Verdict::Refused(StoreErrorView::Io("stream did not contain valid UTF-8"@))
        } else if bytes.len() > MAX_MANIFEST_BYTES {
            Verdict::Refused(StoreErrorView::Invalid("tool.json exceeds 1 MiB"@))
        } else {
            Verdict::Manifest(decode_utf8(bytes))
        },
    }
}

/// What the rules say of an entry.
pub open spec fn entry_verdict(entry: Result<EntryView, Seq<char>>) -> Verdict {
    match entry {
        Err(error) => Verdict::Refused(StoreErrorView::Io(error)),
        Ok(entry) => match placement_refusal(entry.is_file, entry.is_dir, entry.path) {
            Some(error) => Verdict::Refused(error),
            None => if entry.is_file && manifest_path(entry.path) {
                manifest_verdict(entry.content)
            } else {
                Verdict::Other
            },
        },
    }
}

/// Checks the kind and the path of an entry.
pub fn check_placement(is_file: bool, is_dir: bool, path: &Vec<u8>) -> (checked: Result<
    (),
    StoreError,
>)
    ensures
        match checked {
            Ok(_) => placement_refusal(is_file, is_dir, path@) is None,
            Err(error) => placement_refusal(is_file, is_dir, path@) == Some(error@),
        },
{
    if !is_file && !is_dir {
        return Err(
            StoreError::Invalid("links and special archive entries are forbidden".to_owned()),
        );
    }
    let steps = text_of_bytes(path.as_slice());
    if !safe_relative(steps.as_str()) {
        let shown = from_utf8_lossy(path);
        return Err(
            StoreError::Invalid(
                "unsafe archive path `".to_owned().concat(shown.as_str()).concat("`"),
            ),
        );
    }
    Ok(())
}

/// Whether a path names the manifest at the top of a package.
fn is_manifest_path(path: &Vec<u8>) -> (yes: bool)
    ensures
        yes == manifest_path(path@),
{
    let steps = text_of_bytes(path.as_slice());
    let parts = components(steps.as_str());
    let ghost all = components_of(byte_text(path@));
    assert(all.len() == parts@.len());
    assert(forall|i: int| 0 <= i < all.len() ==> #[trigger] all[i] == parts@[i]@);
    if parts.len() == 1 {
        let yes = same_text(parts[0].as_str(), "tool.json");
        assert(yes ==> all =~= seq!["tool.json"@]);
        assert(all == seq!["tool.json"@] ==> all[0] == "tool.json"@);
        yes
    } else if parts.len() == 2 {
        let yes = same_text(parts[0].as_str(), ".") && same_text(parts[1].as_str(), "tool.json");
        assert(yes ==> all =~= seq!["."@, "tool.json"@]);
        assert(all == seq!["."@, "tool.json"@] ==> all[0] == "."@ && all[1] == "tool.json"@);
        yes
    } else {
        false
    }
}

/// The text of a manifest, where the rules admit it.
fn manifest_text(content: &Result<Vec<u8>, String>) -> (text: Result<String, StoreError>)
    ensures
        match (text, manifest_verdict(match *content {
            Ok(bytes) => Ok(bytes@),
            Err(error) => Err(error@),
        })) {
            (Ok(text), Verdict::Manifest(raw)) => text@ == raw,
            (Err(error), Verdict::Refused(refusal)) => error@ == refusal,
            _ => false,
        },
{
    match content {
        Err(error) => Err(StoreError::Io(error.clone())),
        Ok(bytes) => {
            let copy = bytes.clone();
            assert(copy@ =~= bytes@);
            match from_utf8(copy) {
                None => Err(StoreError::Io("stream did not contain valid UTF-8".to_owned())),
                Some(text) => if bytes.len() > MAX_MANIFEST_BYTES {
                    Err(StoreError::Invalid("tool.json exceeds 1 MiB".to_owned()))
                } else {
                    Ok(text)
                },
            }
        },
    }
}

/// What the next entry that matters is.
#[derive(Debug, PartialEq, Eq)]
pub enum PackageStep {
    /// The text of a manifest is to be decoded, and the outcome supplied.
    Decode(String),
    /// The package was checked.
    Done(Result<PluginManifest, StoreError>),
}

/// A package that is being checked, entry by entry.
pub struct PackageCheck {
    entries: Vec<Result<ArchiveEntry, String>>,
    at: usize,
    found: Option<PluginManifest>,
}

/// What a [`PackageCheck`] stands for.
pub struct CheckView {
    pub entries: Seq<Result<EntryView, Seq<char>>>,
    pub at: int,
    pub found: Option<PluginManifest>,
}

impl View for PackageCheck {
    type V = CheckView;

    closed spec fn view(&self) -> CheckView {
        CheckView { entries: entries_view(self.entries@), at: self.at as int, found: self.found }
    }
}

/// Whether going on to the next manifest or to the end comes to `step`. Of entries
/// that matter no more, one that is refused ends the check; a package is accepted
/// only where no entry is refused.
pub open spec fn stepped(before: CheckView, step: PackageStep, after: CheckView) -> bool {
    &&& after.entries == before.entries
    &&& before.at <= after.at <= before.entries.len()
    &&& match step {
        PackageStep::Decode(raw) => {
            let at = after.at - 1;
            &&& before.at <= at
            &&& entry_verdict(before.entries[at]) == Verdict::Manifest(raw@)
            &&& forall|i: int|
                before.at <= i < at ==> entry_verdict(#[trigger] before.entries[i]) is Other
            &&& after.found == before.found
        },
        PackageStep::Done(Ok(manifest)) => {
            &&& before.found == Some(manifest)
            &&& forall|i: int|
                0 <= i < before.entries.len() ==> !(entry_verdict(
                    #[trigger] before.entries[i],
                ) is Refused)
            &&& forall|i: int|
                before.at <= i < before.entries.len() ==> entry_verdict(
                    #[trigger] before.entries[i],
                ) is Other
        },
        PackageStep::Done(Err(error)) => {
            ||| {
                &&& after.at < before.entries.len()
                &&& entry_verdict(before.entries[after.at]) == Verdict::Refused(error@)
                &&& forall|i: int|
                    before.at <= i < after.at ==> entry_verdict(
                        #[trigger] before.entries[i],
                    ) is Other
            }
            ||| {
                &&& before.found is None
                &&& error@ == StoreErrorView::Invalid("tool.json is missing"@)
                &&& forall|i: int|
                    before.at <= i < before.entries.len() ==> entry_verdict(
                        #[trigger] before.entries[i],
                    ) is Other
            }
        },
    }
}

/// Whether taking in what decoding a manifest came to has this outcome.
pub open spec fn supplied(
    before: CheckView,
    decoded: Result<PluginManifest, String>,
    outcome: Result<(), StoreError>,
    after: CheckView,
) -> bool {
    &&& after.entries == before.entries
    &&& after.at == before.at
    &&& match (outcome, decoded) {
        (Ok(_), Ok(manifest)) => manifest_problem(manifest@) is None && after.found == Some(
            manifest,
        ),
        (Err(StoreError::Invalid(message)), Ok(manifest)) => manifest_problem(
            manifest@,
        ) matches Some(problem) && tells_of(message@, problem) && after.found == before.found,
        (Err(StoreError::Invalid(message)), Err(error)) => message@ == error@ && after.found
            == before.found,
        _ => false,
    }
}

/// Begins to check a package: a gzip-compressed tar archive.
pub fn validate_package(package: &[u8]) -> (check: PackageCheck)
    ensures
        check@ == (CheckView {
            entries: archive_entries(package@, 1_048_577),
            at: 0,
            found: None,
        }),
{
    PackageCheck::new(read_entries(package, 1_048_577))
}

impl PackageCheck {
    #[verifier::type_invariant]
    spec fn well_formed(self) -> bool {
        &&& self.at <= self.entries@.len()
        &&& forall|i: int|
            0 <= i < self.at ==> !(entry_verdict(#[trigger] entries_view(self.entries@)[i])
                is Refused)
    }

    /// Begins to check some entries.
    pub fn new(entries: Vec<Result<ArchiveEntry, String>>) -> (check: Self)
        ensures
            check@ == (CheckView { entries: entries_view(entries@), at: 0, found: None }),
    {
        PackageCheck { entries, at: 0, found: None }
    }

    /// Goes on to the next manifest or to the end.
    pub fn next(&mut self) -> (step: PackageStep)
        ensures
            stepped(old(self)@, step, final(self)@),
    {
        proof {
            use_type_invariant(&*self);
        }
        let ghost all = entries_view(self.entries@);
        while self.at < self.entries.len()
            invariant
                self.at <= self.entries@.len(),
                entries_view(self.entries@) == all,
                all == old(self)@.entries,
                self.found == old(self)@.found,
                old(self)@.at <= self.at,
                forall|i: int|
                    0 <= i < self.at ==> !(entry_verdict(#[trigger] all[i]) is Refused),
                forall|i: int|
                    old(self)@.at <= i < self.at ==> entry_verdict(#[trigger] all[i]) is Other,
            decreases self.entries.len() - self.at,
        {
            let at: usize = self.at;
            assert(all[at as int] == entry_view(self.entries@[at as int]));
            match &self.entries[at] {
                Err(error) => {
                    return PackageStep::Done(Err(StoreError::Io(error.clone())));
                },
                Ok(entry) => {
                    if let Err(error) = check_placement(entry.is_file, entry.is_dir, &entry.path) {
                        return PackageStep::Done(Err(error));
                    }
                    if entry.is_file && is_manifest_path(&entry.path) {
                        let text = manifest_text(&entry.content);
                        match text {
                            Err(error) => {
                                return PackageStep::Done(Err(error));
                            },
                            Ok(raw) => {
                                self.at = at + 1;
                                return PackageStep::Decode(raw);
                            },
                        }
                    }
                },
            }
            self.at = at + 1;
        }
        let mut found: Option<PluginManifest> = None;
        std::mem::swap(&mut found, &mut self.found);
        match found {
            Some(manifest) => PackageStep::Done(Ok(manifest)),
            None => PackageStep::Done(
                Err(StoreError::Invalid("tool.json is missing".to_owned())),
            ),
        }
    }

    /// Takes in what decoding the text of a manifest came to. A later manifest
    /// replaces an earlier one.
    pub fn supply(&mut self, decoded: Result<PluginManifest, String>) -> (outcome: Result<
        (),
        StoreError,
    >)
        ensures
            supplied(old(self)@, decoded, outcome, final(self)@),
    {
        match PluginManifest::parse(decoded) {
            Ok(manifest) => {
                proof {
                    use_type_invariant(&*self);
                }
                self.found = Some(manifest);
                Ok(())
            },
            Err(message) => Err(StoreError::Invalid(message)),
        }
    }
}

/// One step of unpacking a package: a directory to make, or a file to write with
/// its content.
#[derive(Debug, PartialEq, Eq)]
pub struct UnpackStep {
    pub path: Vec<u8>,
    pub is_dir: bool,
    pub content: Vec<u8>,
}

/// Why an entry is not unpacked: it or the content of a file could not be read,
/// or the rules refuse its kind or its path.
pub open spec fn unpack_refusal(entry: Result<EntryView, Seq<char>>) -> Option<StoreErrorView> {
    match entry {
        Err(error) => Some(StoreErrorView::Io(error)),
        Ok(entry) => match placement_refusal(entry.is_file, entry.is_dir, entry.path) {
            Some(error) => Some(error),
            None => match entry.content {
                Err(error) if !entry.is_dir => Some(StoreErrorView::Io(error)),
                _ => None,
            },
        },
    }
}

/// Whether a step unpacks an entry into a directory.
pub open spec fn unpacks(
    entry: Result<EntryView, Seq<char>>,
    destination: Seq<u8>,
    step: UnpackStep,
) -> bool {
    &&& unpack_refusal(entry) is None
    &&& entry matches Ok(entry) && {
        &&& byte_text(step.path@) == join_of(byte_text(destination), byte_text(entry.path))
        &&& step.is_dir == entry.is_dir
        &&& if entry.is_dir {
            step.content@.len() == 0
        } else {
            entry.content == Ok::<Seq<u8>, Seq<char>>(step.content@)
        }
    }
}

/// The path `rest` taken from `base`, as bytes.
fn join_bytes(base: &[u8], rest: &[u8]) -> (path: Vec<u8>)
    ensures
        byte_text(path@) == join_of(byte_text(base@), byte_text(rest@)),
{
    let base_text = text_of_bytes(base);
    let rest_text = text_of_bytes(rest);
    let joined = join_path(base_text.as_str(), rest_text.as_str());
    proof {
        reveal_strlit("/");
        assert(of_bytes(base_text@));
        assert(of_bytes(rest_text@));
        assert(of_bytes("/"@));
    }
    bytes_of_text(joined.as_str())
}

/// The step that unpacks an entry, if the rules admit it.
fn unpack_step(entry: &Result<ArchiveEntry, String>, destination: &[u8]) -> (step: Result<
    UnpackStep,
    StoreError,
>)
    ensures
        match step {
            Ok(step) => unpacks(entry_view(*entry), destination@, step),
            Err(error) => unpack_refusal(entry_view(*entry)) == Some(error@),
        },
{
    let entry = match entry {
        Ok(entry) => entry,
        Err(error) => {
            return Err(StoreError::Io(error.clone()));
        },
    };
    if let Err(error) = check_placement(entry.is_file, entry.is_dir, &entry.path) {
        return Err(error);
    }
    let path = join_bytes(destination, entry.path.as_slice());
    if entry.is_dir {
        return Ok(UnpackStep { path, is_dir: true, content: Vec::new() });
    }
    match &entry.content {
        Ok(bytes) => {
            let content = bytes.clone();
            assert(content@ =~= bytes@);
            Ok(UnpackStep { path, is_dir: false, content })
        },
        Err(error) => Err(StoreError::Io(error.clone())),
    }
}

/// What unpacking entries into a directory comes to.
pub open spec fn unpacked(
    entries: Seq<Result<EntryView, Seq<char>>>,
    destination: Seq<u8>,
    plan: (Vec<UnpackStep>, Result<(), StoreError>),
) -> bool {
    let done = plan.0@.len();
    &&& done <= entries.len()
    &&& forall|i: int| 0 <= i < done ==> unpacks(entries[i], destination, #[trigger] plan.0@[i])
    &&& match plan.1 {
        Ok(_) => done == entries.len(),
        Err(error) => done < entries.len() && unpack_refusal(entries[done as int]) == Some(error@),
    }
}

/// The steps that unpack entries into a directory, in order, up to the first
/// entry that is refused, and why it is.
pub fn unpack_entries(entries: &Vec<Result<ArchiveEntry, String>>, destination: &[u8]) -> (plan: (
    Vec<UnpackStep>,
    Result<(), StoreError>,
))
    ensures
        unpacked(entries_view(entries@), destination@, plan),
{
    let ghost all = entries_view(entries@);
    let mut steps: Vec<UnpackStep> = Vec::new();
    let mut i: usize = 0;
    while i < entries.len()
        invariant
            i <= entries@.len(),
            all == entries_view(entries@),
            steps@.len() == i,
            forall|j: int| 0 <= j < i ==> unpacks(all[j], destination@, #[trigger] steps@[j]),
        decreases entries.len() - i,
    {
        assert(all[i as int] == entry_view(entries@[i as int]));
        match unpack_step(&entries[i], destination) {
            Ok(step) => {
                steps.push(step);
            },
            Err(error) => {
                return (steps, Err(error));
            },
        }
        i += 1;
    }
    (steps, Ok(()))
}

/// The steps that unpack a package into a directory: a gzip-compressed tar
/// archive, entry by entry, up to the first that is refused, and why it is.
pub fn unpack_plan(package: &[u8], destination: &[u8]) -> (plan: (
    Vec<UnpackStep>,
    Result<(), StoreError>,
))
    ensures
        unpacked(archive_entries(package@, u64::MAX), destination@, plan),
{
    let entries = read_entries(package, u64::MAX);
    unpack_entries(&entries, destination)
}

/// Nothing that is unpacked lies outside the directory it is unpacked in: its
/// path begins with that directory and does not climb after it.
pub proof fn law_unpacked_entries_stay_inside(
    entry: Result<EntryView, Seq<char>>,
    destination: Seq<u8>,
    step: UnpackStep,
    i: int,
)
    requires
        unpacks(entry, destination, step),
        destination.len() > 0,
        components_of(byte_text(destination)).len() <= i < components_of(
            byte_text(step.path@),
        ).len(),
    ensures
        lies_under(byte_text(step.path@), byte_text(destination)),
        components_of(byte_text(step.path@))[i] != ".."@,
{
    let base = byte_text(destination);
    let path = byte_text(entry->Ok_0.path);
    assert(safe_path(path));
    if absolute(path) {
        assert(components_of(path)[0] == "/"@);
    }
    law_join_lies_under(base, path);
    let names = named_segments(split_on(path, '/'));
    let k = i - components_of(base).len();
    let shift = components_of(path).len() - names.len();
    assert(components_of(path)[shift + k] == names[k]);
}

/// A file or a directory that is packed: its path in the package, and what a file
/// holds.
pub struct TreeItem {
    pub path: Seq<u8>,
    pub is_dir: bool,
    pub content: Seq<u8>,
}

/// Whether the entries of a package, of which at most `limit` bytes are read, are
/// the items of a directory and nothing else.
pub open spec fn packs(
    entries: Seq<Result<EntryView, Seq<char>>>,
    tree: Seq<TreeItem>,
    limit: u64,
) -> bool {
    &&& entries.len() == tree.len()
    &&& forall|i: int|
        0 <= i < tree.len() ==> #[trigger] entries[i] == Ok::<EntryView, Seq<char>>(
            EntryView {
                is_file: !tree[i].is_dir,
                is_dir: tree[i].is_dir,
                path: tree[i].path,
                content: Ok(
                    if tree[i].content.len() > limit {
                        tree[i].content.take(limit as int)
                    } else {
                        tree[i].content
                    },
                ),
            },
        )
}

/// Whether the items of a directory lie below it, and the one at `m` alone is its
/// manifest, a text of at most a mebibyte.
pub open spec fn packable(tree: Seq<TreeItem>, m: int) -> bool {
    &&& 0 <= m < tree.len()
    &&& forall|i: int| 0 <= i < tree.len() ==> safe_path(byte_text((#[trigger] tree[i]).path))
    &&& forall|i: int|
        0 <= i < tree.len() ==> (!(#[trigger] tree[i]).is_dir && manifest_path(tree[i].path)
            <==> i == m)
    &&& valid_utf8(tree[m].content)
    &&& tree[m].content.len() <= 1_048_576
}

/// A package that holds a directory is accepted, and its manifest is what the text
/// of the directory's `tool.json` decodes to: that text is asked for first, and
/// what is made of it is the outcome, where it is a valid manifest.
pub proof fn law_packed_directories_validate(
    tree: Seq<TreeItem>,
    m: int,
    begun: CheckView,
    first: PackageStep,
    asked: CheckView,
    manifest: PluginManifest,
    outcome: Result<(), StoreError>,
    given: CheckView,
    last: PackageStep,
    ended: CheckView,
)
    requires
        packs(begun.entries, tree, 1_048_577),
        packable(tree, m),
        begun.at == 0,
        begun.found is None,
        stepped(begun, first, asked),
        supplied(asked, Ok(manifest), outcome, given),
        stepped(given, last, ended),
        manifest_problem(manifest@) is None,
    ensures
        first matches PackageStep::Decode(raw) && raw@ == decode_utf8(tree[m].content),
        outcome is Ok,
        last == PackageStep::Done(Ok(manifest)),
{
    let entries = begun.entries;
    assert forall|i: int| 0 <= i < entries.len() implies (if i == m {
        entry_verdict(#[trigger] entries[i]) == Verdict::Manifest(decode_utf8(tree[m].content))
    } else {
        entry_verdict(entries[i]) is Other
    }) by {
        assert(safe_path(byte_text(tree[i].path)));
    }
    assert(entry_verdict(entries[m]) is Manifest);
}

/// A package that holds a directory is unpacked to what the directory holds, item
/// by item.
pub proof fn law_packed_directories_unpack(
    entries: Seq<Result<EntryView, Seq<char>>>,
    tree: Seq<TreeItem>,
    m: int,
    destination: Seq<u8>,
    plan: (Vec<UnpackStep>, Result<(), StoreError>),
    i: int,
)
    requires
        packs(entries, tree, u64::MAX),
        packable(tree, m),
        forall|k: int| 0 <= k < tree.len() ==> (#[trigger] tree[k]).content.len() <= u64::MAX,
        unpacked(entries, destination, plan),
        0 <= i < tree.len(),
    ensures
        plan.1 is Ok,
        plan.0@.len() == tree.len(),
        byte_text(plan.0@[i].path@) == join_of(byte_text(destination), byte_text(tree[i].path)),
        plan.0@[i].is_dir == tree[i].is_dir,
        !tree[i].is_dir ==> plan.0@[i].content@ == tree[i].content,
{
    let done = plan.0@.len() as int;
    if done < tree.len() {
        assert(safe_path(byte_text(tree[done].path)));
        assert(unpack_refusal(entries[done]) is None);
    }
    assert(unpacks(entries[i], destination, plan.0@[i]));
    assert(tree[i].content.len() <= u64::MAX);
}

/// The sentence of an error keeps what was said of it.
pub proof fn law_store_sentences_keep_the_message(error: StoreErrorView)
    ensures
        match error {
            StoreErrorView::Io(text) => text.is_suffix_of(error.sentence()),
            StoreErrorView::Invalid(text) => text.is_suffix_of(error.sentence()),
            StoreErrorView::Exists(id) => contains_text(error.sentence(), id),
            StoreErrorView::NotFound(id) => contains_text(error.sentence(), id),
        },
{
    let sentence = error.sentence();
    match error {
        StoreErrorView::Io(text) => {
            assert(sentence.subrange(sentence.len() - text.len(), sentence.len() as int) =~= text);
        },
        StoreErrorView::Invalid(text) => {
            assert(sentence.subrange(sentence.len() - text.len(), sentence.len() as int) =~= text);
        },
        StoreErrorView::Exists(id) => {
            law_occurrences_split_the_text(
                "plugin `"@,
                id,
                "` is already installed (use --replace)"@,
            );
        },
        StoreErrorView::NotFound(id) => {
            law_occurrences_split_the_text("plugin `"@, id, "` is not installed"@);
        },
    }
}

/// An entry may be unpacked exactly where it is a file or a directory and its
/// path is not empty, does not begin at the root and does not climb.
pub proof fn law_entries_are_placed_by_the_rules(is_file: bool, is_dir: bool, path: Seq<u8>)
    ensures
        placement_refusal(is_file, is_dir, path) is None <==> (is_file || is_dir) && path.len() > 0
            && path[0] != '/' as u8 && !split_on(byte_text(path), '/').contains(".."@),
{
    let text = byte_text(path);
    law_descending_paths_do_not_climb(text);
    law_byte_texts_keep_the_bytes(path, path);
    if path.len() > 0 {
        assert(text[0] as int == path[0]);
    }
}

/// The manifest of a package is what its `tool.json` holds, whole, where that is
/// UTF-8 of at most a mebibyte, and nothing else is.
pub proof fn law_manifests_are_taken_whole(content: Result<Seq<u8>, Seq<char>>)
    ensures
        match manifest_verdict(content) {
            Verdict::Manifest(text) => content matches Ok(bytes) && valid_utf8(bytes)
                && bytes.len() <= 1_048_576 && text == decode_utf8(bytes),
            Verdict::Refused(_) => content matches Ok(bytes) ==> !valid_utf8(bytes) || bytes.len()
                > 1_048_576,
            Verdict::Other => false,
        },
{
}

/// What is unpacked of an entry is the entry: its content, byte for byte, below
/// the directory at the entry's own path; an entry is not unpacked exactly where
/// it could not be read or the rules refuse it.
pub proof fn law_entries_are_unpacked_whole(
    entry: EntryView,
    destination: Seq<u8>,
    step: UnpackStep,
)
    requires
        unpacks(Ok(entry), destination, step),
        destination.len() > 0,
        destination.last() != '/' as u8,
    ensures
        step.is_dir == entry.is_dir,
        !entry.is_dir ==> entry.content == Ok::<Seq<u8>, Seq<char>>(step.content@),
        step.path@ == destination + seq!['/' as u8] + entry.path,
{
    reveal_strlit("/");
    let base = byte_text(destination);
    let rest = byte_text(entry.path);
    law_entries_are_placed_by_the_rules(entry.is_file, entry.is_dir, entry.path);
    law_byte_texts_keep_the_bytes(destination, entry.path);
    law_byte_texts_keep_the_bytes(entry.path, entry.path);
    assert(rest[0] as int == entry.path[0]);
    assert(base[base.len() - 1] as int == destination[destination.len() - 1]);
    assert(base.last() != '/');
    let whole = destination + seq!['/' as u8] + entry.path;
    assert(byte_text(whole) =~= base + "/"@ + rest);
    law_byte_texts_keep_the_bytes(whole, step.path@);
}

/// The manifest of a package is the file `tool.json` at its top, whether it is
/// written with a leading dot or not, and nothing below it.
pub proof fn law_manifests_lie_at_the_top(path: Seq<u8>)
    ensures
        byte_text(path) == "tool.json"@ || byte_text(path) == "./tool.json"@ ==> manifest_path(path),
        manifest_path(path) ==> components_of(byte_text(path)).last() == "tool.json"@
            && components_of(byte_text(path)).len() <= 2 && (components_of(byte_text(path)).len()
            == 2 ==> components_of(byte_text(path))[0] == "."@),
{
    reveal_strlit("tool.json");
    reveal_strlit("./tool.json");
    reveal_strlit(".");
    reveal_strlit("/");
    let text = byte_text(path);
    let name = "tool.json"@;
    if name.contains('/') {
        let k = choose|k: int| 0 <= k < name.len() && name[k] == '/';
        assert(false);
    }
    assert(name.len() != "."@.len());
    assert(!"."@.contains('/'));
    if text == name {
        let steps = seq![name];
        law_paths_are_made_of_their_components(steps);
        reveal_with_fuel(path_of, 2);
        assert(steps.drop_last() =~= Seq::empty());
        assert(path_of(steps) =~= name);
    }
    if text == "./tool.json"@ {
        let steps = seq!["."@, name];
        assert forall|i: int| 0 <= i < steps.len() implies {
            &&& (#[trigger] steps[i]).len() > 0
            &&& i > 0 ==> steps[i] != "."@
            &&& i == 0 && steps[i] == "/"@ || !steps[i].contains('/')
        } by {}
        law_paths_are_made_of_their_components(steps);
        reveal_with_fuel(path_of, 3);
        assert(steps.drop_last() =~= seq!["."@]);
        assert(seq!["."@].drop_last() =~= Seq::empty());
        assert(path_of(seq!["."@]) =~= "."@);
        assert(path_of(steps) =~= text);
    }
}

/// What an entry says is all that was read of it, and an entry that was not read
/// says why.
pub proof fn law_entries_are_seen_whole(entry: Result<ArchiveEntry, String>)
    ensures
        match entry {
            Ok(held) => entry_view(entry) matches Ok(seen) && seen.is_file == held.is_file
                && seen.is_dir == held.is_dir && seen.path == held.path@ && match (
                seen.content,
                held.content,
            ) {
                (Ok(bytes), Ok(kept)) => bytes == kept@,
                (Err(told), Err(error)) => told == error@,
                _ => false,
            },
            Err(error) => entry_view(entry) matches Err(told) && told == error@,
        },
{
}

/// An entry is not unpacked exactly where it, or the content of a file, could not
/// be read, or the rules refuse where it is to lie.
pub proof fn law_entries_are_unpacked_by_the_rules(entry: Result<EntryView, Seq<char>>)
    ensures
        unpack_refusal(entry) is None <==> (entry matches Ok(entry) && placement_refusal(
            entry.is_file,
            entry.is_dir,
            entry.path,
        ) is None && (entry.is_dir || entry.content is Ok)),
{
}

} // verus!
