//! The generators: what an ecosystem knows of a project, and how a manifest
//! is assembled from it.

use crate::error::{GenerateError, Section};
use crate::generator::go::{go_provided, is_go, lemma_go_executables_frame, GoGenerator, GoProvider};
use crate::generator::gradle::{gradle_facts, is_gradle, GradleGenerator, GradleProvider};
use crate::generator::python::{
    is_python, python_provided, Interpreter, InterpreterView, PythonGenerator, PythonProvider,
};
use crate::generator::rust::{
    is_rust, lemma_rust_apps_frame, rust_provided, RustGenerator, RustProvider,
};
use crate::license::{
    corpus_view, detect, find_license, license_candidate, may_detect, usable, License, LicenseView,
};
use crate::name_map::NameMap;
use crate::snap::{default_file, App, AppView, File, FileView, Part, PartView};
use crate::text::{joined, same_text, str_ends_with};
use crate::tree::{
    at_root, lemma_same_lookup, root_path, same_but_for_text, same_path, SourceTree, TreeView,
};
use vstd::prelude::*;

pub mod go;
pub mod gradle;
pub mod python;
pub mod rust;

verus! {

/// What a [`Version`] says.
pub enum VersionView {
    Git,
    Auto,
    Fixed(Seq<char>),
}

/// How the version of the package is set.
#[derive(PartialEq, Clone, Debug)]
pub enum Version {
    /// The packaging tool reads the version from the repository when it
    /// builds.
    Git,
    /// The generator gives the version, where it knows one.
    Auto,
    /// The version is this text.
    Fixed(String),
}

impl View for Version {
    type V = VersionView;

    open spec fn view(&self) -> VersionView {
        match self {
            Version::Git => VersionView::Git,
            Version::Auto => VersionView::Auto,
            Version::Fixed(v) => VersionView::Fixed(v@),
        }
    }
}

/// The strategy that `s` spells: `git`, `auto`, or else the fixed version
/// `s`.
pub open spec fn version_of(s: Seq<char>) -> VersionView {
    if s == "git"@ {
        VersionView::Git
    } else if s == "auto"@ {
        VersionView::Auto
    } else {
        VersionView::Fixed(s)
    }
}

impl Version {
    /// A copy of the strategy.
    pub fn copy(&self) -> (version: Version)
        ensures
            version@ == self@,
    {
        match self {
            Version::Git => Version::Git,
            Version::Auto => Version::Auto,
            Version::Fixed(v) => Version::Fixed(v.clone()),
        }
    }

    /// The strategy that `s` spells.
    pub fn from(s: &str) -> (version: Version)
        ensures
            version@ == version_of(s@),
    {
        if same_text(s, "git") {
            Version::Git
        } else if same_text(s, "auto") {
            Version::Auto
        } else {
            Version::Fixed(s.to_owned())
        }
    }
}

/// What [`Options`] say.
pub struct OptionsView {
    pub snap_version: VersionView,
    pub source_name: Seq<char>,
}

/// How a manifest is to be generated.
#[derive(Clone, Debug)]
pub struct Options {
    /// How the version is set.
    pub snap_version: Version,
    /// The name of the package.
    pub source_name: String,
}

impl View for Options {
    type V = OptionsView;

    open spec fn view(&self) -> OptionsView {
        OptionsView { snap_version: self.snap_version@, source_name: self.source_name@ }
    }
}

/// What a generator answers to each of the seven questions.
pub struct Facts {
    pub name: Result<Option<Seq<char>>, GenerateError>,
    pub version: Result<Option<Seq<char>>, GenerateError>,
    pub summary: Result<Option<Seq<char>>, GenerateError>,
    pub description: Result<Option<Seq<char>>, GenerateError>,
    pub license: Result<Option<Seq<char>>, GenerateError>,
    pub parts: Result<Map<Seq<char>, PartView>, GenerateError>,
    pub apps: Result<Map<Seq<char>, AppView>, GenerateError>,
}

/// The app that runs the installed executable `name`.
pub open spec fn app_for(name: Seq<char>) -> AppView {
    AppView { command: "bin/"@ + name, plugs: None }
}

/// One app for each of `names`, under that name.
pub open spec fn apps_named(names: Set<Seq<char>>) -> Map<Seq<char>, AppView> {
    Map::new(|n: Seq<char>| names.contains(n), |n: Seq<char>| app_for(n))
}

/// The app that runs the installed executable `name`.
pub fn make_app(name: &str) -> (app: App)
    ensures
        app@ == app_for(name@),
{
    App { command: joined("bin/", name), plugs: None }
}

/// What an answer in text says.
pub open spec fn text_answer(r: Result<Option<String>, GenerateError>) -> Result<Option<Seq<char>>, GenerateError> {
    match r {
        Ok(text) => Ok(text.deep_view()),
        Err(e) => Err(e),
    }
}

/// What an answer in parts says.
pub open spec fn parts_answer(r: Result<NameMap<Part>, GenerateError>) -> Result<Map<Seq<char>, PartView>, GenerateError> {
    match r {
        Ok(parts) => Ok(parts@),
        Err(e) => Err(e),
    }
}

/// What an answer in apps says.
pub open spec fn apps_answer(r: Result<NameMap<App>, GenerateError>) -> Result<Map<Seq<char>, AppView>, GenerateError> {
    match r {
        Ok(apps) => Ok(apps@),
        Err(e) => Err(e),
    }
}

/// What a generated manifest, or the failure to generate one, says.
pub open spec fn file_answer(r: Result<File, GenerateError>) -> Result<FileView, GenerateError> {
    match r {
        Ok(file) => Ok(file@),
        Err(e) => Err(e),
    }
}

/// What knows how to package the projects of one ecosystem. Five answers are
/// optional: a generator that has none leaves the manifest as it is. Parts
/// and apps are owed.
pub trait Generator {
    /// The answers of this generator.
    spec fn facts(&self) -> Facts;

    fn name(&self) -> (r: Result<Option<String>, GenerateError>)
        ensures
            text_answer(r) == self.facts().name,
    ;

    fn version(&self) -> (r: Result<Option<String>, GenerateError>)
        ensures
            text_answer(r) == self.facts().version,
    ;

    fn summary(&self) -> (r: Result<Option<String>, GenerateError>)
        ensures
            text_answer(r) == self.facts().summary,
    ;

    fn description(&self) -> (r: Result<Option<String>, GenerateError>)
        ensures
            text_answer(r) == self.facts().description,
    ;

    fn license(&self) -> (r: Result<Option<String>, GenerateError>)
        ensures
            text_answer(r) == self.facts().license,
    ;

    fn parts(&self) -> (r: Result<NameMap<Part>, GenerateError>)
        ensures
            parts_answer(r) == self.facts().parts,
            r is Ok ==> r->Ok_0.ordered(),
    ;

    fn apps(&self) -> (r: Result<NameMap<App>, GenerateError>)
        ensures
            apps_answer(r) == self.facts().apps,
            r is Ok ==> r->Ok_0.ordered(),
    ;
}

/// The version of the manifest before the generator is asked: `git` where
/// the packaging tool sets it, the fixed text where one is given, and the
/// default otherwise.
pub open spec fn version_policy(strategy: VersionView) -> Seq<char> {
    match strategy {
        VersionView::Git => "git"@,
        VersionView::Fixed(v) => v,
        VersionView::Auto => "TODO"@,
    }
}

/// `given` where the generator has an answer, and `held` where it has none.
pub open spec fn preferred(given: Option<Seq<char>>, held: Seq<char>) -> Seq<char> {
    match given {
        Some(text) => text,
        None => held,
    }
}

/// The manifest made of the answers `facts`, for the options `options`,
/// where `detected` is the license that the license text was recognised as.
///
/// The answers are asked in turn: name; version, under the `auto` strategy
/// only; summary; description; license; parts; apps. The first failure is
/// the failure of the whole, and so is an answer without parts or without
/// apps. An optional answer replaces what the manifest held; the license of
/// the generator replaces a detected one.
pub open spec fn assembled(facts: Facts, options: OptionsView, detected: Option<Seq<char>>) -> Result<
    FileView,
    GenerateError,
> {
    let defaults = default_file(options.source_name);
    if facts.name is Err {
        Err(facts.name->Err_0)
    } else if options.snap_version is Auto && facts.version is Err {
        Err(facts.version->Err_0)
    } else if facts.summary is Err {
        Err(facts.summary->Err_0)
    } else if facts.description is Err {
        Err(facts.description->Err_0)
    } else if facts.license is Err {
        Err(facts.license->Err_0)
    } else if facts.parts is Err {
        Err(facts.parts->Err_0)
    } else if facts.parts->Ok_0 == Map::<Seq<char>, PartView>::empty() {
        Err(GenerateError::EmptyPartsOrApps(Section::Parts))
    } else if facts.apps is Err {
        Err(facts.apps->Err_0)
    } else if facts.apps->Ok_0 == Map::<Seq<char>, AppView>::empty() {
        Err(GenerateError::EmptyPartsOrApps(Section::Apps))
    } else {
        Ok(
            FileView {
                name: preferred(facts.name->Ok_0, defaults.name),
                base: defaults.base,
                version: if options.snap_version is Auto {
                    preferred(facts.version->Ok_0, version_policy(options.snap_version))
                } else {
                    version_policy(options.snap_version)
                },
                summary: preferred(facts.summary->Ok_0, defaults.summary),
                description: preferred(facts.description->Ok_0, defaults.description),
                license: preferred(facts.license->Ok_0, preferred(detected, defaults.license)),
                grade: defaults.grade,
                confinement: defaults.confinement,
                parts: facts.parts->Ok_0,
                apps: facts.apps->Ok_0,
            },
        )
    }
}

/// Assembles the manifest from the answers of `generator`.
pub fn assemble<G: Generator>(generator: &G, options: &Options, detected: Option<String>) -> (r: Result<
    File,
    GenerateError,
>)
    ensures
        file_answer(r) == assembled(generator.facts(), options@, detected.deep_view()),
        r is Ok ==> r->Ok_0.wf(),
{
    let mut snap = File::new(options.source_name.as_str());
    match &options.snap_version {
        Version::Git => {
            snap.version = "git".to_owned();
        },
        Version::Fixed(version) => {
            snap.version = version.clone();
        },
        Version::Auto => {},
    }
    if let Some(license) = detected {
        snap.license = license;
    }
    if let Some(name) = generator.name()? {
        snap.name = name;
    }
    if let Version::Auto = options.snap_version {
        if let Some(version) = generator.version()? {
            snap.version = version;
        }
    }
    if let Some(summary) = generator.summary()? {
        snap.summary = summary;
    }
    if let Some(description) = generator.description()? {
        snap.description = description;
    }
    if let Some(license) = generator.license()? {
        snap.license = license;
    }
    let parts = generator.parts()?;
    if parts.is_empty() {
        return Err(GenerateError::EmptyPartsOrApps(Section::Parts));
    }
    snap.parts = parts;
    let apps = generator.apps()?;
    if apps.is_empty() {
        return Err(GenerateError::EmptyPartsOrApps(Section::Apps));
    }
    snap.apps = apps;
    Ok(snap)
}

/// A manifest is only made with at least one part and one app.
pub proof fn lemma_never_empty(facts: Facts, options: OptionsView, detected: Option<Seq<char>>)
    requires
        assembled(facts, options, detected) is Ok,
    ensures
        assembled(facts, options, detected)->Ok_0.parts != Map::<Seq<char>, PartView>::empty(),
        assembled(facts, options, detected)->Ok_0.apps != Map::<Seq<char>, AppView>::empty(),
{
}

/// Where every answer is given, there are parts, and the answer in apps is
/// empty, no manifest is made, for want of apps.
pub proof fn lemma_no_apps(facts: Facts, options: OptionsView, detected: Option<Seq<char>>)
    requires
        facts.name is Ok,
        facts.version is Ok,
        facts.summary is Ok,
        facts.description is Ok,
        facts.license is Ok,
        facts.parts is Ok,
        facts.parts->Ok_0 != Map::<Seq<char>, PartView>::empty(),
        facts.apps == Ok::<Map<Seq<char>, AppView>, GenerateError>(Map::empty()),
    ensures
        assembled(facts, options, detected) == Err::<FileView, GenerateError>(
            GenerateError::EmptyPartsOrApps(Section::Apps),
        ),
{
}

/// The generator of one of the ecosystems.
pub enum Instance<'a> {
    Go(GoGenerator<'a>),
    Rust(RustGenerator<'a>),
    Python(PythonGenerator),
    Gradle(GradleGenerator),
}

impl<'a> Generator for Instance<'a> {
    open spec fn facts(&self) -> Facts {
        match self {
            Instance::Go(generator) => generator.facts(),
            Instance::Rust(generator) => generator.facts(),
            Instance::Python(generator) => generator.facts(),
            Instance::Gradle(generator) => generator.facts(),
        }
    }

    fn name(&self) -> (r: Result<Option<String>, GenerateError>) {
        match self {
            Instance::Go(generator) => generator.name(),
            Instance::Rust(generator) => generator.name(),
            Instance::Python(generator) => generator.name(),
            Instance::Gradle(generator) => generator.name(),
        }
    }

    fn version(&self) -> (r: Result<Option<String>, GenerateError>) {
        match self {
            Instance::Go(generator) => generator.version(),
            Instance::Rust(generator) => generator.version(),
            Instance::Python(generator) => generator.version(),
            Instance::Gradle(generator) => generator.version(),
        }
    }

    fn summary(&self) -> (r: Result<Option<String>, GenerateError>) {
        match self {
            Instance::Go(generator) => generator.summary(),
            Instance::Rust(generator) => generator.summary(),
            Instance::Python(generator) => generator.summary(),
            Instance::Gradle(generator) => generator.summary(),
        }
    }

    fn description(&self) -> (r: Result<Option<String>, GenerateError>) {
        match self {
            Instance::Go(generator) => generator.description(),
            Instance::Rust(generator) => generator.description(),
            Instance::Python(generator) => generator.description(),
            Instance::Gradle(generator) => generator.description(),
        }
    }

    fn license(&self) -> (r: Result<Option<String>, GenerateError>) {
        match self {
            Instance::Go(generator) => generator.license(),
            Instance::Rust(generator) => generator.license(),
            Instance::Python(generator) => generator.license(),
            Instance::Gradle(generator) => generator.license(),
        }
    }

    fn parts(&self) -> (r: Result<NameMap<Part>, GenerateError>) {
        match self {
            Instance::Go(generator) => generator.parts(),
            Instance::Rust(generator) => generator.parts(),
            Instance::Python(generator) => generator.parts(),
            Instance::Gradle(generator) => generator.parts(),
        }
    }

    fn apps(&self) -> (r: Result<NameMap<App>, GenerateError>) {
        match self {
            Instance::Go(generator) => generator.apps(),
            Instance::Rust(generator) => generator.apps(),
            Instance::Python(generator) => generator.apps(),
            Instance::Gradle(generator) => generator.apps(),
        }
    }
}

/// The ecosystems whose projects can be packaged.
pub enum Generators {
    Go(GoProvider),
    Rust(RustProvider),
    Python(PythonProvider),
    Gradle(GradleProvider),
}

/// The ecosystem that a tree belongs to: the first of Cargo, Go, Python and
/// Gradle whose marker file the root holds.
pub open spec fn selected(tree: TreeView) -> Option<Generators> {
    if is_rust(tree) {
        Some(Generators::Rust(RustProvider {  }))
    } else if is_go(tree) {
        Some(Generators::Go(GoProvider {  }))
    } else if is_python(tree) {
        Some(Generators::Python(PythonProvider {  }))
    } else if is_gradle(tree) {
        Some(Generators::Gradle(GradleProvider {  }))
    } else {
        None
    }
}

/// What finding the generator for a tree comes to: what the provider of its
/// ecosystem provides, failure included, and a failure where the tree
/// belongs to none.
pub open spec fn found(tree: TreeView, source_name: Seq<char>, interpreter: InterpreterView) -> Result<
    Facts,
    GenerateError,
> {
    match selected(tree) {
        Some(Generators::Rust(_)) => rust_provided(tree, source_name),
        Some(Generators::Go(_)) => go_provided(tree, source_name),
        Some(Generators::Python(_)) => python_provided(source_name, interpreter),
        Some(Generators::Gradle(_)) => Ok(gradle_facts(source_name)),
        None => Err(GenerateError::NoApplicableProvider),
    }
}

/// The manifest generated for a tree, where `detected` is the license that
/// its license text was recognised as: the failure to find a generator, or
/// else the failure to read the license text, or else what is assembled from
/// the answers of the generator.
pub open spec fn generated(
    tree: TreeView,
    options: OptionsView,
    interpreter: InterpreterView,
    detected: Option<Seq<char>>,
) -> Result<FileView, GenerateError> {
    match found(tree, options.source_name, interpreter) {
        Err(e) => Err(e),
        Ok(facts) => match license_candidate(tree) {
            Err(e) => Err(e),
            Ok(_) => assembled(facts, options, detected),
        },
    }
}

/// A license text is there to be recognised: a generator was found and the
/// tree has a license file that can be read.
pub open spec fn has_candidate(tree: TreeView, options: OptionsView, interpreter: InterpreterView) -> bool {
    &&& found(tree, options.source_name, interpreter) is Ok
    &&& license_candidate(tree) is Ok
    &&& license_candidate(tree)->Ok_0 is Some
}

/// The generators read the text of an entry at `path`: that of a manifest,
/// lockfile, module file or license file at the root, and that of a Go
/// source file anywhere.
pub open spec fn text_is_read(path: Seq<Seq<char>>) -> bool {
    ||| path == at_root("Cargo.toml"@)
    ||| path == at_root("Cargo.lock"@)
    ||| path == at_root("go.mod"@)
    ||| path == at_root("LICENSE"@)
    ||| path == at_root("LICENSE.md"@)
    ||| path == at_root("COPYING"@)
    ||| path.len() > 0 && ".go"@.is_suffix_of(path.last())
}

/// Whether the generators read the text of an entry at `path`.
pub fn reads_text_of(path: &Vec<String>) -> (r: bool)
    ensures
        r == text_is_read(path.deep_view()),
{
    if path.len() == 0 {
        assert(path.deep_view().len() == 0);
        return false;
    }
    assert(path.deep_view().last() == path@[path.len() - 1]@);
    same_path(path, &root_path("Cargo.toml")) || same_path(path, &root_path("Cargo.lock"))
        || same_path(path, &root_path("go.mod")) || same_path(path, &root_path("LICENSE"))
        || same_path(path, &root_path("LICENSE.md")) || same_path(path, &root_path("COPYING"))
        || str_ends_with(path[path.len() - 1].as_str(), ".go")
}

/// The license text that is there to be recognised.
pub open spec fn candidate_text(tree: TreeView) -> Seq<char> {
    license_candidate(tree)->Ok_0->Some_0.0
}

/// `outcome` is an outcome of generating the manifest for a tree with the
/// corpus `corpus`.
///
/// Without a license text to recognise it is the outcome with no license
/// detected. With one, it is the failure of the corpus where the corpus
/// cannot be used, and else the outcome with something that the text may be
/// recognised as.
pub open spec fn generates(
    tree: TreeView,
    options: OptionsView,
    interpreter: InterpreterView,
    corpus: Seq<LicenseView>,
    outcome: Result<FileView, GenerateError>,
) -> bool {
    if !has_candidate(tree, options, interpreter) {
        outcome == generated(tree, options, interpreter, None)
    } else if !usable(corpus) {
        outcome == Err::<FileView, GenerateError>(GenerateError::InvalidCorpus)
    } else {
        exists|detected: Option<Seq<char>>|
            may_detect(corpus, candidate_text(tree), detected) && outcome == #[trigger] generated(
                tree,
                options,
                interpreter,
                detected,
            )
    }
}

impl Generators {
    /// The ecosystem that `tree` belongs to.
    pub fn select(tree: &SourceTree) -> (r: Option<Generators>)
        ensures
            r == selected(tree@),
    {
        if RustProvider::can_provide(tree) {
            Some(Generators::Rust(RustProvider {  }))
        } else if GoProvider::can_provide(tree) {
            Some(Generators::Go(GoProvider {  }))
        } else if PythonProvider::can_provide(tree) {
            Some(Generators::Python(PythonProvider {  }))
        } else if GradleProvider::can_provide(tree) {
            Some(Generators::Gradle(GradleProvider {  }))
        } else {
            None
        }
    }

    /// The generator for `tree`, named `source_name`. For a Python project
    /// `interpreter` says what came of running its setup script.
    pub fn find_generator<'a>(tree: &'a SourceTree, source_name: &str, interpreter: &Interpreter) -> (r:
        Result<Instance<'a>, GenerateError>)
        ensures
            match r {
                Ok(generator) => found(tree@, source_name@, interpreter@) == Ok::<Facts, GenerateError>(
                    generator.facts(),
                ),
                Err(e) => found(tree@, source_name@, interpreter@) == Err::<Facts, GenerateError>(e),
            },
    {
        match Generators::select(tree) {
            Some(Generators::Rust(_)) => {
                match RustProvider::provide(tree, source_name) {
                    Ok(generator) => Ok(Instance::Rust(generator)),
                    Err(e) => Err(e),
                }
            },
            Some(Generators::Go(_)) => {
                match GoProvider::provide(tree, source_name) {
                    Ok(generator) => Ok(Instance::Go(generator)),
                    Err(e) => Err(e),
                }
            },
            Some(Generators::Python(_)) => {
                match PythonProvider::provide(source_name, interpreter) {
                    Ok(generator) => Ok(Instance::Python(generator)),
                    Err(e) => Err(e),
                }
            },
            Some(Generators::Gradle(_)) => {
                match GradleProvider::provide(tree, source_name) {
                    Ok(generator) => Ok(Instance::Gradle(generator)),
                    Err(e) => Err(e),
                }
            },
            None => Err(GenerateError::NoApplicableProvider),
        }
    }

    /// Generates the manifest for `tree`, where `detected` is the license
    /// that its license text was recognised as.
    pub fn generate_with(
        tree: &SourceTree,
        options: &Options,
        interpreter: &Interpreter,
        detected: Option<String>,
    ) -> (r: Result<File, GenerateError>)
        ensures
            file_answer(r) == generated(tree@, options@, interpreter@, detected.deep_view()),
            r is Ok ==> r->Ok_0.wf(),
    {
        let generator = Generators::find_generator(tree, options.source_name.as_str(), interpreter)?;
        let _ = find_license(tree)?;
        assemble(&generator, options, detected)
    }

    /// Generates the manifest for `tree`. The license text of the tree,
    /// where it has one, is held against `corpus`.
    ///
    /// Without a license text to recognise the outcome is the one with no
    /// license detected, and the corpus is not looked at. With one, the
    /// generation fails where the corpus cannot be used, and there only; else
    /// the outcome is the one with what the text is recognised as, which is
    /// what a match with a license of the corpus is accepted as.
    pub fn generate(
        tree: &SourceTree,
        options: &Options,
        interpreter: &Interpreter,
        corpus: &Vec<License>,
    ) -> (r: Result<File, GenerateError>)
        ensures
            generates(tree@, options@, interpreter@, corpus_view(corpus@), file_answer(r)),
            r is Ok ==> r->Ok_0.wf(),
    {
        let generator = Generators::find_generator(tree, options.source_name.as_str(), interpreter)?;
        let detected = match find_license(tree)? {
            Some((text, _)) => detect(corpus, text.as_str())?,
            None => None,
        };
        let r = assemble(&generator, options, detected);
        proof {
            if has_candidate(tree@, options@, interpreter@) {
                assert(file_answer(r) == generated(tree@, options@, interpreter@, detected.deep_view()));
            }
        }
        r
    }
}

/// Two manifests generated for the same tree, with the same options, answers
/// of the interpreter and detected license, say the same, and list their
/// parts and their apps in the same order.
pub proof fn lemma_generate_twice(
    first: File,
    second: File,
    tree: TreeView,
    options: OptionsView,
    interpreter: InterpreterView,
    detected: Option<Seq<char>>,
)
    requires
        first.wf(),
        second.wf(),
        generated(tree, options, interpreter, detected) == Ok::<FileView, GenerateError>(first@),
        generated(tree, options, interpreter, detected) == Ok::<FileView, GenerateError>(second@),
    ensures
        first@ == second@,
        first.parts.names() == second.parts.names(),
        first.parts.values() == second.parts.values(),
        first.apps.names() == second.apps.names(),
        first.apps.values() == second.apps.values(),
{
    first.parts.lemma_same_order(&second.parts);
    first.apps.lemma_same_order(&second.apps);
}

/// Two outcomes of generating for the same tree, with the same options,
/// answers of the interpreter and corpus, are both a manifest or both the
/// same failure, and two manifests differ in nothing but, at most, the
/// license, where two licenses of the corpus come equally close.
pub proof fn lemma_generates_twice(
    tree: TreeView,
    options: OptionsView,
    interpreter: InterpreterView,
    corpus: Seq<LicenseView>,
    first: Result<FileView, GenerateError>,
    second: Result<FileView, GenerateError>,
)
    requires
        generates(tree, options, interpreter, corpus, first),
        generates(tree, options, interpreter, corpus, second),
    ensures
        first is Ok <==> second is Ok,
        first is Err ==> first == second,
        first is Ok ==> second->Ok_0 == (FileView { license: second->Ok_0.license, ..first->Ok_0 }),
        !has_candidate(tree, options, interpreter) ==> first == second,
{
}

/// No manifest is generated for a Gradle project, for want of apps.
pub proof fn lemma_gradle_fails(
    tree: TreeView,
    options: OptionsView,
    interpreter: InterpreterView,
    detected: Option<Seq<char>>,
)
    requires
        selected(tree) matches Some(Generators::Gradle(_)),
    ensures
        generated(tree, options, interpreter, detected) is Err,
        license_candidate(tree) is Ok ==> generated(tree, options, interpreter, detected) == Err::<
            FileView,
            GenerateError,
        >(GenerateError::EmptyPartsOrApps(Section::Apps)),
{
    let facts = gradle_facts(options.source_name);
    assert(facts.parts->Ok_0.contains_key(options.source_name));
    lemma_no_apps(facts, options, detected);
}

/// The text of an entry that the generators do not read is of no account:
/// two trees that differ in such text alone generate the same.
pub proof fn lemma_unread_text(
    a: TreeView,
    b: TreeView,
    options: OptionsView,
    interpreter: InterpreterView,
    detected: Option<Seq<char>>,
)
    requires
        same_but_for_text(a, b, |path: Seq<Seq<char>>| text_is_read(path)),
    ensures
        selected(a) == selected(b),
        license_candidate(a) == license_candidate(b),
        generated(a, options, interpreter, detected) == generated(b, options, interpreter, detected),
{
    let read = |path: Seq<Seq<char>>| text_is_read(path);
    lemma_same_lookup(a, b, read, at_root("Cargo.toml"@));
    lemma_same_lookup(a, b, read, at_root("Cargo.lock"@));
    lemma_same_lookup(a, b, read, at_root("go.mod"@));
    lemma_same_lookup(a, b, read, at_root("setup.py"@));
    lemma_same_lookup(a, b, read, at_root("settings.gradle"@));
    lemma_same_lookup(a, b, read, at_root("LICENSE"@));
    lemma_same_lookup(a, b, read, at_root("LICENSE.md"@));
    lemma_same_lookup(a, b, read, at_root("COPYING"@));
    lemma_rust_apps_frame(a, b, read, options.source_name);
    lemma_go_executables_frame(a, b, read);
}

} // verus!
