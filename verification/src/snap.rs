//! The manifest that is generated: a package description with its parts
//! and its apps.

use crate::name_map::NameMap;
use vstd::prelude::*;

verus! {

/// The name of the manifest file in a packaged tree.
pub const SNAPCRAFT_YAML: &'static str = "snapcraft.yaml";

/// What a [`Part`] says.
pub struct PartView {
    pub plugin: Seq<char>,
    pub source: Seq<char>,
    pub build_packages: Option<Seq<Seq<char>>>,
    pub stage_packages: Option<Seq<Seq<char>>>,
    pub go_import_path: Option<Seq<char>>,
    pub python_version: Option<Seq<char>>,
}

/// One buildable unit: the plugin that builds it, where its source lies,
/// and what the build needs.
#[derive(Debug, PartialEq, Clone)]
pub struct Part {
    pub plugin: String,
    pub source: String,
    pub build_packages: Option<Vec<String>>,
    pub stage_packages: Option<Vec<String>>,
    pub go_import_path: Option<String>,
    pub python_version: Option<String>,
}

impl View for Part {
    type V = PartView;

    open spec fn view(&self) -> PartView {
        PartView {
            plugin: self.plugin@,
            source: self.source@,
            build_packages: self.build_packages.deep_view(),
            stage_packages: self.stage_packages.deep_view(),
            go_import_path: self.go_import_path.deep_view(),
            python_version: self.python_version.deep_view(),
        }
    }
}

/// What an [`App`] says.
pub struct AppView {
    pub command: Seq<char>,
    pub plugs: Option<Seq<Seq<char>>>,
}

/// One runnable entry point: the path of the installed executable and the
/// interfaces it plugs into.
#[derive(Debug, PartialEq, Clone)]
pub struct App {
    pub command: String,
    pub plugs: Option<Vec<String>>,
}

impl View for App {
    type V = AppView;

    open spec fn view(&self) -> AppView {
        AppView { command: self.command@, plugs: self.plugs.deep_view() }
    }
}

/// What a [`File`] says.
pub struct FileView {
    pub name: Seq<char>,
    pub base: Seq<char>,
    pub version: Seq<char>,
    pub summary: Seq<char>,
    pub description: Seq<char>,
    pub license: Seq<char>,
    pub grade: Seq<char>,
    pub confinement: Seq<char>,
    pub parts: Map<Seq<char>, PartView>,
    pub apps: Map<Seq<char>, AppView>,
}

/// The manifest with nothing but its name and the defaults.
pub open spec fn default_file(name: Seq<char>) -> FileView {
    FileView {
        name,
        base: "core18"@,
        version: "TODO"@,
        summary: "TODO"@,
        description: "TODO"@,
        license: "TODO"@,
        grade: "devel"@,
        confinement: "devmode"@,
        parts: Map::empty(),
        apps: Map::empty(),
    }
}

/// A package manifest.
#[derive(Debug, PartialEq, Clone)]
pub struct File {
    pub name: String,
    pub base: String,
    pub version: String,
    pub summary: String,
    pub description: String,
    pub license: String,
    pub grade: String,
    pub confinement: String,
    pub parts: NameMap<Part>,
    pub apps: NameMap<App>,
}

impl View for File {
    type V = FileView;

    open spec fn view(&self) -> FileView {
        FileView {
            name: self.name@,
            base: self.base@,
            version: self.version@,
            summary: self.summary@,
            description: self.description@,
            license: self.license@,
            grade: self.grade@,
            confinement: self.confinement@,
            parts: self.parts@,
            apps: self.apps@,
        }
    }
}

impl File {
    /// Parts and apps are listed in ascending order of their names.
    pub open spec fn wf(&self) -> bool {
        self.parts.ordered() && self.apps.ordered()
    }

    /// The manifest named `name`, with the defaults and neither parts nor
    /// apps.
    pub fn new(name: &str) -> (file: File)
        ensures
            file@ == default_file(name@),
            file.wf(),
    {
        File {
            name: name.to_owned(),
            base: "core18".to_owned(),
            version: "TODO".to_owned(),
            summary: "TODO".to_owned(),
            description: "TODO".to_owned(),
            license: "TODO".to_owned(),
            grade: "devel".to_owned(),
            confinement: "devmode".to_owned(),
            parts: NameMap::new(),
            apps: NameMap::new(),
        }
    }
}

} // verus!
