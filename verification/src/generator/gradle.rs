//! Projects built with Gradle.

use crate::error::GenerateError;
use crate::generator::{Facts, Generator};
use crate::name_map::NameMap;
use crate::snap::{App, AppView, Part, PartView};
use crate::tree::{at_root, present, root_path, SourceTree, TreeView};
use vstd::prelude::*;

verus! {

/// What makes a tree a Gradle project.
pub struct GradleProvider {}

/// What is known of a Gradle project.
pub struct GradleGenerator {
    source_name: String,
}

/// The tree has Gradle's settings file at its root.
pub open spec fn is_gradle(tree: TreeView) -> bool {
    present(tree, at_root("settings.gradle"@))
}

/// The part of a Gradle project.
pub open spec fn gradle_part() -> PartView {
    PartView {
        plugin: "gradle"@,
        source: "."@,
        build_packages: None,
        stage_packages: None,
        go_import_path: None,
        python_version: None,
    }
}

/// The answers for the Gradle project named `source_name`: one part, no
/// metadata and no app.
pub open spec fn gradle_facts(source_name: Seq<char>) -> Facts {
    Facts {
        name: Ok(None),
        version: Ok(None),
        summary: Ok(None),
        description: Ok(None),
        license: Ok(None),
        parts: Ok(Map::<Seq<char>, PartView>::empty().insert(source_name, gradle_part())),
        apps: Ok(Map::<Seq<char>, AppView>::empty()),
    }
}

impl GradleProvider {
    /// Whether the tree is a Gradle project.
    pub fn can_provide(tree: &SourceTree) -> (r: bool)
        ensures
            r == is_gradle(tree@),
    {
        tree.has(&root_path("settings.gradle"))
    }

    /// The generator for the Gradle project named `source_name`.
    pub fn provide(tree: &SourceTree, source_name: &str) -> (r: Result<GradleGenerator, GenerateError>)
        ensures
            r is Ok,
            r->Ok_0.facts() == gradle_facts(source_name@),
    {
        Ok(GradleGenerator { source_name: source_name.to_owned() })
    }
}

impl Generator for GradleGenerator {
    closed spec fn facts(&self) -> Facts {
        gradle_facts(self.source_name@)
    }

    fn name(&self) -> (r: Result<Option<String>, GenerateError>) {
        Ok(None)
    }

    fn version(&self) -> (r: Result<Option<String>, GenerateError>) {
        Ok(None)
    }

    fn summary(&self) -> (r: Result<Option<String>, GenerateError>) {
        Ok(None)
    }

    fn description(&self) -> (r: Result<Option<String>, GenerateError>) {
        Ok(None)
    }

    fn license(&self) -> (r: Result<Option<String>, GenerateError>) {
        Ok(None)
    }

    fn parts(&self) -> (r: Result<NameMap<Part>, GenerateError>) {
        let mut parts = NameMap::new();
        parts.insert(
            self.source_name.clone(),
            Part {
                plugin: "gradle".to_owned(),
                source: ".".to_owned(),
                build_packages: None,
                stage_packages: None,
                go_import_path: None,
                python_version: None,
            },
        );
        Ok(parts)
    }

    fn apps(&self) -> (r: Result<NameMap<App>, GenerateError>) {
        let apps = NameMap::new();
        Ok(apps)
    }
}

} // verus!
