//! The ways in which generating a manifest fails, and the file that a
//! failure is about.

use crate::tree::{at_root, path_within, root_path, within, SourceTree, TreeView};
use vstd::prelude::*;

verus! {

/// What a provider was asked for and gave none of.
#[derive(Clone, Copy, Debug, PartialEq, Eq)]
pub enum Section {
    Parts,
    Apps,
}

/// A file that tells a provider of its project.
#[derive(Clone, Copy, Debug, PartialEq, Eq)]
pub enum Descriptor {
    /// `Cargo.toml` at the root.
    CargoToml,
    /// `Cargo.lock` at the root.
    CargoLock,
    /// `go.mod` at the root.
    GoMod,
}

/// A file that may hold the license text.
#[derive(Clone, Copy, Debug, PartialEq, Eq)]
pub enum LicenseFile {
    /// `LICENSE` at the root.
    License,
    /// `LICENSE.md` at the root.
    LicenseMd,
    /// `COPYING` at the root.
    Copying,
}

/// What could not be read.
#[derive(Clone, Copy, Debug, PartialEq, Eq)]
pub enum Unread {
    /// The walk through the tree was cut short.
    Walk,
    /// The license text.
    LicenseText(LicenseFile),
    /// The source file that is the entry of the tree at this position.
    Source(usize),
}

/// Where a tree holds its manifest.
#[derive(Clone, Copy, Debug, PartialEq, Eq)]
pub enum Place {
    /// `snapcraft.yaml` at the root.
    Root,
    /// `snapcraft.yaml` in the directory `snap`.
    SnapDirectory,
}

/// Why no manifest was generated.
#[derive(Clone, Copy, Debug, PartialEq, Eq)]
pub enum GenerateError {
    /// No provider applies to the tree.
    NoApplicableProvider,
    /// This descriptor of the provider that applies is unreadable or
    /// malformed.
    ProviderParseError(Descriptor),
    /// The provider that applies gave no part, or no app.
    EmptyPartsOrApps(Section),
    /// The interpreter that answers for a setup script could not be run.
    SubprocessError,
    /// This could not be read.
    IOError(Unread),
    /// The tree has no source file that makes an executable.
    NoExecutableFound,
    /// The tree already holds a manifest, here.
    AlreadyPackaged(Place),
    /// The license corpus holds no license, or a text too long to compare.
    InvalidCorpus,
}

/// The path of a descriptor.
pub open spec fn descriptor_path(descriptor: Descriptor) -> Seq<Seq<char>> {
    match descriptor {
        Descriptor::CargoToml => at_root("Cargo.toml"@),
        Descriptor::CargoLock => at_root("Cargo.lock"@),
        Descriptor::GoMod => at_root("go.mod"@),
    }
}

/// The path of a license file.
pub open spec fn license_path(file: LicenseFile) -> Seq<Seq<char>> {
    match file {
        LicenseFile::License => at_root("LICENSE"@),
        LicenseFile::LicenseMd => at_root("LICENSE.md"@),
        LicenseFile::Copying => at_root("COPYING"@),
    }
}

/// The path of the file that a failure with the tree `tree` is about, where
/// it is about one.
pub open spec fn culprit(error: GenerateError, tree: TreeView) -> Option<Seq<Seq<char>>> {
    match error {
        GenerateError::ProviderParseError(descriptor) => Some(descriptor_path(descriptor)),
        GenerateError::IOError(Unread::LicenseText(file)) => Some(license_path(file)),
        GenerateError::IOError(Unread::Source(at)) => if at < tree.entries.len() {
            Some(tree.entries[at as int].path)
        } else {
            None
        },
        GenerateError::AlreadyPackaged(Place::Root) => Some(at_root("snapcraft.yaml"@)),
        GenerateError::AlreadyPackaged(Place::SnapDirectory) => Some(
            within("snap"@, "snapcraft.yaml"@),
        ),
        _ => None,
    }
}

/// What to tell the user of a failure.
pub open spec fn message_of(error: GenerateError) -> Seq<char> {
    match error {
        GenerateError::NoApplicableProvider => "Cannot find corresponding generator."@,
        GenerateError::ProviderParseError(_) => "Cannot read the project's manifest."@,
        GenerateError::EmptyPartsOrApps(Section::Parts) => "No parts found."@,
        GenerateError::EmptyPartsOrApps(Section::Apps) => "No apps found."@,
        GenerateError::SubprocessError => "Cannot run the interpreter."@,
        GenerateError::IOError(Unread::Walk) => "Cannot walk through the source tree."@,
        GenerateError::IOError(_) => "Cannot read a file of the source tree."@,
        GenerateError::NoExecutableFound => "No executable found."@,
        GenerateError::AlreadyPackaged(_) => "The source is already packaged."@,
        GenerateError::InvalidCorpus => "Cannot use the license corpus."@,
    }
}

/// The names of a path with a slash between each two.
pub open spec fn slashed(path: Seq<Seq<char>>) -> Seq<char>
    decreases path.len(),
{
    if path.len() == 0 {
        Seq::empty()
    } else if path.len() == 1 {
        path[0]
    } else {
        slashed(path.drop_last()) + "/"@ + path.last()
    }
}

/// `text`, and after it the path between round brackets, where there is one.
pub open spec fn with_file(text: Seq<char>, file: Option<Seq<Seq<char>>>) -> Seq<char> {
    match file {
        Some(path) => text + " ("@ + slashed(path) + ")"@,
        None => text,
    }
}

/// What to tell the user of a failure with the tree `tree`: that the tree,
/// by its name, is already packaged, or else what the failure is; and the
/// file that it is about, where it is about one.
pub open spec fn reported(error: GenerateError, tree: TreeView) -> Seq<char> {
    match error {
        GenerateError::AlreadyPackaged(_) => with_file(
            tree.name + " is already packaged"@,
            culprit(error, tree),
        ),
        _ => with_file(message_of(error), culprit(error, tree)),
    }
}

/// The names of `path` with a slash between each two.
pub fn slash(path: &Vec<String>) -> (text: String)
    ensures
        text@ == slashed(path.deep_view()),
{
    let mut text = String::new();
    let mut i: usize = 0;
    assert(path.deep_view().take(0) =~= Seq::<Seq<char>>::empty());
    while i < path.len()
        invariant
            i <= path.len(),
            text@ == slashed(path.deep_view().take(i as int)),
        decreases path.len() - i,
    {
        proof {
            let upto = path.deep_view().take(i + 1);
            assert(upto.drop_last() =~= path.deep_view().take(i as int));
            assert(upto.last() == path@[i as int]@);
            if i == 0 {
                assert(text@ + path@[i as int]@ =~= path@[i as int]@);
            }
        }
        if i > 0 {
            text.append("/");
        }
        text.append(path[i].as_str());
        i += 1;
    }
    assert(path.deep_view().take(i as int) =~= path.deep_view());
    text
}

impl GenerateError {
    /// What to tell the user.
    pub fn message(&self) -> (text: String)
        ensures
            text@ == message_of(*self),
    {
        match self {
            GenerateError::NoApplicableProvider => "Cannot find corresponding generator.".to_owned(),
            GenerateError::ProviderParseError(_) => "Cannot read the project's manifest.".to_owned(),
            GenerateError::EmptyPartsOrApps(Section::Parts) => "No parts found.".to_owned(),
            GenerateError::EmptyPartsOrApps(Section::Apps) => "No apps found.".to_owned(),
            GenerateError::SubprocessError => "Cannot run the interpreter.".to_owned(),
            GenerateError::IOError(Unread::Walk) => "Cannot walk through the source tree.".to_owned(),
            GenerateError::IOError(_) => "Cannot read a file of the source tree.".to_owned(),
            GenerateError::NoExecutableFound => "No executable found.".to_owned(),
            GenerateError::AlreadyPackaged(_) => "The source is already packaged.".to_owned(),
            GenerateError::InvalidCorpus => "Cannot use the license corpus.".to_owned(),
        }
    }

    /// What to tell the user of the failure with the tree `tree`.
    pub fn report(&self, tree: &SourceTree) -> (text: String)
        ensures
            text@ == reported(*self, tree@),
    {
        let mut text = match self {
            GenerateError::AlreadyPackaged(_) => {
                let mut named = tree.name.clone();
                named.append(" is already packaged");
                named
            },
            _ => self.message(),
        };
        match self.file(tree) {
            Some(path) => {
                text.append(" (");
                text.append(slash(&path).as_str());
                text.append(")");
            },
            None => {},
        }
        text
    }

    /// The path of the file that the failure is about, where it is about
    /// one. `tree` is the tree with which it came.
    pub fn file(&self, tree: &SourceTree) -> (path: Option<Vec<String>>)
        ensures
            path.deep_view() == culprit(*self, tree@),
    {
        match self {
            GenerateError::ProviderParseError(Descriptor::CargoToml) => Some(root_path("Cargo.toml")),
            GenerateError::ProviderParseError(Descriptor::CargoLock) => Some(root_path("Cargo.lock")),
            GenerateError::ProviderParseError(Descriptor::GoMod) => Some(root_path("go.mod")),
            GenerateError::IOError(Unread::LicenseText(LicenseFile::License)) => Some(
                root_path("LICENSE"),
            ),
            GenerateError::IOError(Unread::LicenseText(LicenseFile::LicenseMd)) => Some(
                root_path("LICENSE.md"),
            ),
            GenerateError::IOError(Unread::LicenseText(LicenseFile::Copying)) => Some(
                root_path("COPYING"),
            ),
            GenerateError::IOError(Unread::Source(at)) => {
                if *at < tree.entries.len() {
                    let entry = &tree.entries[*at];
                    let mut path: Vec<String> = Vec::new();
                    let mut i: usize = 0;
                    assert(path.deep_view() =~= entry.path.deep_view().take(0));
                    while i < entry.path.len()
                        invariant
                            i <= entry.path.len(),
                            path.deep_view() == entry.path.deep_view().take(i as int),
                        decreases entry.path.len() - i,
                    {
                        let ghost before = path.deep_view();
                        path.push(entry.path[i].clone());
                        assert(path.deep_view() =~= before.push(entry.path@[i as int]@));
                        assert(entry.path.deep_view().take(i + 1) =~= before.push(
                            entry.path@[i as int]@,
                        ));
                        i += 1;
                    }
                    assert(entry.path.deep_view().take(i as int) =~= entry.path.deep_view());
                    assert(tree@.entries[*at as int].path == entry.path.deep_view());
                    Some(path)
                } else {
                    None
                }
            },
            GenerateError::AlreadyPackaged(Place::Root) => Some(root_path("snapcraft.yaml")),
            GenerateError::AlreadyPackaged(Place::SnapDirectory) => Some(
                path_within("snap", "snapcraft.yaml"),
            ),
            _ => None,
        }
    }
}

} // verus!
