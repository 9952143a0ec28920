//! Generates the manifest that packages a project, from what its source tree
//! holds.

use crate::error::{GenerateError, Place};
use crate::generator::python::Interpreter;
use crate::generator::{file_answer, generates, Generators, Options, OptionsView};
use crate::license::{corpus_view, License};
use crate::snap::{File, SNAPCRAFT_YAML};
use crate::text::{remove_all, without_all};
use crate::tree::{at_root, path_within, present, root_path, within, SourceTree, TreeView};
use vstd::prelude::*;

pub mod error;
pub mod generator;
pub mod license;
pub mod name_map;
pub mod nesting;
pub mod snap;
pub mod text;
pub mod tree;

verus! {

/// The tree already holds a manifest, at its root or in its `snap`
/// directory.
pub open spec fn is_packaged(tree: TreeView) -> bool {
    present(tree, at_root(SNAPCRAFT_YAML@)) || present(tree, within("snap"@, SNAPCRAFT_YAML@))
}

/// The options with which a tree is packaged: those given, for a package
/// named as the tree.
pub open spec fn options_for(tree: TreeView, options: OptionsView) -> OptionsView {
    OptionsView { snap_version: options.snap_version, source_name: tree.name }
}

/// The name of the directory that a repository is fetched into: the last
/// segment of its address without `.git`.
pub open spec fn checkout_name_of(segment: Seq<char>) -> Seq<char> {
    without_all(segment, ".git"@)
}

/// The name of the directory that a repository is fetched into, by the last
/// segment of its address.
pub fn checkout_name(segment: &str) -> (name: String)
    ensures
        name@ == checkout_name_of(segment@),
{
    remove_all(segment, ".git")
}

/// Where the tree holds its manifest: at the root, if it holds one there.
pub open spec fn manifest_place(tree: TreeView) -> Place {
    if present(tree, at_root(SNAPCRAFT_YAML@)) {
        Place::Root
    } else {
        Place::SnapDirectory
    }
}

/// Whether `tree` already holds a manifest.
pub fn already_packaged(tree: &SourceTree) -> (r: bool)
    ensures
        r == is_packaged(tree@),
{
    tree.has(&root_path(SNAPCRAFT_YAML)) || tree.has(&path_within("snap", SNAPCRAFT_YAML))
}

/// Packages the project in `tree`: generates its manifest, for a package
/// named as the tree, unless the tree already holds one.
pub fn package_source(
    tree: &SourceTree,
    options: &Options,
    interpreter: &Interpreter,
    corpus: &Vec<License>,
) -> (r: Result<File, GenerateError>)
    ensures
        is_packaged(tree@) ==> r == Err::<File, GenerateError>(
            GenerateError::AlreadyPackaged(manifest_place(tree@)),
        ),
        !is_packaged(tree@) ==> generates(
            tree@,
            options_for(tree@, options@),
            interpreter@,
            corpus_view(corpus@),
            file_answer(r),
        ),
        r is Ok ==> r->Ok_0.wf(),
{
    if tree.has(&root_path(SNAPCRAFT_YAML)) {
        return Err(GenerateError::AlreadyPackaged(Place::Root));
    }
    if tree.has(&path_within("snap", SNAPCRAFT_YAML)) {
        return Err(GenerateError::AlreadyPackaged(Place::SnapDirectory));
    }
    let named = Options { snap_version: options.snap_version.copy(), source_name: tree.name.clone() };
    Generators::generate(tree, &named, interpreter, corpus)
}

} // verus!
