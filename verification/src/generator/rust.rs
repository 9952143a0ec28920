//! Projects built with Cargo.

use crate::error::{Descriptor, GenerateError};
use crate::generator::{
    app_for, apps_answer, apps_named, assembled, make_app, Facts, Generator, OptionsView,
};
use crate::name_map::NameMap;
use crate::nesting::{bounded, within_bounds};
use crate::snap::{App, AppView, Part, PartView};
use crate::text::{
    char_before, char_lt, clone_text, drop_end, push_text, same_text, str_ends_with,
    str_starts_with, to_chars, without_end,
};
use crate::tree::{
    at_root, content_at, lemma_same_lookup, path_within, present, root_path, same_but_for_text, within,
    Entry, EntryView, SourceTree, TreeView,
};
use vstd::prelude::*;

verus! {

/// What a [`CargoPackage`] says.
pub struct PackageView {
    pub name: Seq<char>,
    pub version: Option<Seq<char>>,
    pub description: Option<Seq<char>>,
    pub license: Option<Seq<char>>,
}

/// The package section of a Cargo manifest. A field that the manifest takes
/// from its workspace is absent.
#[derive(Debug, PartialEq, Clone)]
pub struct CargoPackage {
    pub name: String,
    pub version: Option<String>,
    pub description: Option<String>,
    pub license: Option<String>,
}

impl View for CargoPackage {
    type V = PackageView;

    open spec fn view(&self) -> PackageView {
        PackageView {
            name: self.name@,
            version: self.version.deep_view(),
            description: self.description.deep_view(),
            license: self.license.deep_view(),
        }
    }
}

/// What a [`CargoManifest`] says.
pub struct ManifestView {
    pub package: Option<PackageView>,
}

/// What the generator reads of a Cargo manifest: its package section, which
/// the manifest of a bare workspace does not have.
#[derive(Debug, PartialEq, Clone)]
pub struct CargoManifest {
    pub package: Option<CargoPackage>,
}

impl View for CargoManifest {
    type V = ManifestView;

    open spec fn view(&self) -> ManifestView {
        ManifestView {
            package: match self.package {
                Some(p) => Some(p@),
                None => None,
            },
        }
    }
}

/// What a [`LockedPackage`] says.
pub struct LockedView {
    pub name: Seq<char>,
    pub dependencies: Seq<Seq<char>>,
}

/// A package of a Cargo lockfile, with the names of the packages that it
/// depends on.
#[derive(Debug, PartialEq, Clone)]
pub struct LockedPackage {
    pub name: String,
    pub dependencies: Vec<String>,
}

impl View for LockedPackage {
    type V = LockedView;

    open spec fn view(&self) -> LockedView {
        LockedView { name: self.name@, dependencies: self.dependencies.deep_view() }
    }
}

/// What a [`CargoLock`] says.
pub struct LockView {
    pub packages: Seq<LockedView>,
}

/// What the generator reads of a Cargo lockfile: its packages.
#[derive(Debug, PartialEq, Clone)]
pub struct CargoLock {
    pub packages: Vec<LockedPackage>,
}

impl View for CargoLock {
    type V = LockView;

    open spec fn view(&self) -> LockView {
        LockView { packages: Seq::new(self.packages@.len(), |i: int| self.packages@[i]@) }
    }
}

/// Why `cargo_toml` rejects the text of a manifest. Nothing is read of it.
#[verifier::external_type_specification]
#[verifier::external_body]
pub struct ExManifestError(cargo_toml::Error);

/// Why `cargo_lock` rejects the text of a lockfile. Nothing is read of it.
#[verifier::external_type_specification]
#[verifier::external_body]
pub struct ExLockfileError(cargo_lock::Error);

/// What `cargo_toml` reads in the text of a Cargo manifest; `None` where it
/// rejects the text.
pub uninterp spec fn cargo_manifest(content: Seq<char>) -> Option<ManifestView>;

/// What `cargo_lock` reads in the text of a Cargo lockfile; `None` where it
/// rejects the text.
pub uninterp spec fn cargo_lockfile(content: Seq<char>) -> Option<LockView>;

/// What a parsed manifest, or the failure to parse one, says.
pub open spec fn manifest_answer(r: Result<CargoManifest, cargo_toml::Error>) -> Option<ManifestView> {
    match r {
        Ok(manifest) => Some(manifest@),
        Err(_) => None,
    }
}

/// What a parsed lockfile, or the failure to parse one, says.
pub open spec fn lockfile_answer(r: Result<CargoLock, cargo_lock::Error>) -> Option<LockView> {
    match r {
        Ok(lock) => Some(lock@),
        Err(_) => None,
    }
}

/// The character is none that a lockfile is read with: it is of the ASCII
/// set and no backslash.
pub open spec fn is_plain(c: char) -> bool {
    !char_before('\u{7f}', c) && c != '\\'
}

/// The text of a lockfile is read: its depth is within the bound, and it
/// holds ASCII characters only and no backslash, so that every string in it
/// says what stands between its quotes, one byte for each character.
///
/// It is the checksums that need this, which are cut into pairs of bytes.
/// Where one stands in a text is for the parser to say, so the rule is put
/// to the whole text: a lockfile with a character beyond ASCII, or with a
/// backslash, anywhere is not read, though it may hold no checksum at all.
pub open spec fn lockfile_is_read(content: Seq<char>) -> bool {
    bounded(content) && forall|i: int| 0 <= i < content.len() ==> is_plain(#[trigger] content[i])
}

/// Whether the text of a lockfile is read.
pub fn reads_lockfile(content: &str) -> (r: bool)
    ensures
        r == lockfile_is_read(content@),
{
    if !within_bounds(content) {
        return false;
    }
    let chars = to_chars(content);
    let mut i: usize = 0;
    while i < chars.len()
        invariant
            chars@ == content@,
            i <= chars.len(),
            forall|j: int| 0 <= j < i ==> is_plain(#[trigger] content@[j]),
        decreases chars.len() - i,
    {
        let c = chars[i];
        if char_lt('\u{7f}', c) || c == '\\' {
            return false;
        }
        i += 1;
    }
    true
}

/// Parses the text of a Cargo manifest with `cargo_toml::Manifest::from_str`
/// and keeps the name, version, description and license of its package
/// section. The depth of the text must be within the bound: the parser goes
/// deeper with each level. Not proved: that the outcome is the one that
/// `cargo_manifest` names, which says no more than that the same text is
/// always read the same way.
#[verifier::external_body]
fn parse_manifest(content: &str) -> (r: Result<CargoManifest, cargo_toml::Error>)
    requires
        bounded(content@),
    ensures
        manifest_answer(r) == cargo_manifest(content@),
{
    let manifest = cargo_toml::Manifest::from_str(content)?;
    Ok(
        CargoManifest {
            package: manifest.package.map(
                |p| CargoPackage {
                    name: p.name,
                    version: p.version.into(),
                    description: p.description.and_then(Into::into),
                    license: p.license.and_then(Into::into),
                },
            ),
        },
    )
}

/// Parses the text of a Cargo lockfile with the `FromStr` of
/// `cargo_lock::Lockfile` and keeps, of each package, its name and the names
/// of its dependencies. The depth of the text must be within the bound, and
/// the text must hold ASCII characters only and no backslash: a checksum is
/// cut into pairs of bytes, which must be characters. Not proved: that the
/// outcome is the one that `cargo_lockfile` names, which says no more than
/// that the same text is always read the same way.
#[verifier::external_body]
fn parse_lockfile(content: &str) -> (r: Result<CargoLock, cargo_lock::Error>)
    requires
        lockfile_is_read(content@),
    ensures
        lockfile_answer(r) == cargo_lockfile(content@),
{
    let lockfile = content.parse::<cargo_lock::Lockfile>()?;
    Ok(
        CargoLock {
            packages: lockfile.packages.iter().map(
                |p| LockedPackage {
                    name: p.name.as_str().to_owned(),
                    dependencies: p.dependencies.iter().map(|d| d.name.as_str().to_owned()).collect(),
                },
            ).collect(),
        },
    )
}

/// Some package of the lockfile depends on a package whose name begins with
/// `openssl-`.
pub open spec fn needs_tls(lock: LockView) -> bool {
    exists|p: int, d: int|
        0 <= p < lock.packages.len() && 0 <= d < lock.packages[p].dependencies.len()
            && "openssl-"@.is_prefix_of(#[trigger] lock.packages[p].dependencies[d])
}

/// The system packages that building the project takes: the C library
/// headers, and after them those of OpenSSL where the lockfile asks for
/// them.
pub open spec fn build_packages(lock: LockView) -> Seq<Seq<char>> {
    if needs_tls(lock) {
        seq!["libc6-dev"@, "libssl-dev"@]
    } else {
        seq!["libc6-dev"@]
    }
}

/// The system packages that building the project locked by `lockfile`
/// takes.
pub fn find_build_packages(lockfile: &CargoLock) -> (packages: Vec<String>)
    ensures
        packages.deep_view() == build_packages(lockfile@),
{
    let mut packages: Vec<String> = Vec::new();
    assert(packages.deep_view() =~= Seq::<Seq<char>>::empty());
    push_text(&mut packages, "libc6-dev".to_owned());
    let mut p: usize = 0;
    while p < lockfile.packages.len()
        invariant
            p <= lockfile.packages.len(),
            packages.deep_view() =~= seq!["libc6-dev"@],
            forall|i: int, d: int|
                0 <= i < p && 0 <= d < lockfile@.packages[i].dependencies.len()
                    ==> !"openssl-"@.is_prefix_of(#[trigger] lockfile@.packages[i].dependencies[d]),
        decreases lockfile.packages.len() - p,
    {
        let package = &lockfile.packages[p];
        let mut d: usize = 0;
        while d < package.dependencies.len()
            invariant
                p < lockfile.packages.len(),
                *package == lockfile.packages@[p as int],
                d <= package.dependencies.len(),
                packages.deep_view() =~= seq!["libc6-dev"@],
                forall|k: int|
                    0 <= k < d ==> !"openssl-"@.is_prefix_of(
                        #[trigger] lockfile@.packages[p as int].dependencies[k],
                    ),
            decreases package.dependencies.len() - d,
        {
            if str_starts_with(package.dependencies[d].as_str(), "openssl-") {
                assert("openssl-"@.is_prefix_of(lockfile@.packages[p as int].dependencies[d as int]));
                push_text(&mut packages, "libssl-dev".to_owned());
                return packages;
            }
            d += 1;
        }
        p += 1;
    }
    packages
}

/// The entry is a source file directly in `src/bin`.
pub open spec fn is_binary(entry: EntryView) -> bool {
    &&& entry.is_file
    &&& entry.path.len() == 3
    &&& entry.path[0] == "src"@
    &&& entry.path[1] == "bin"@
    &&& ".rs"@.is_suffix_of(entry.path[2])
}

/// The name of the executable that a source file in `src/bin` makes: the
/// name of the file without `.rs`.
pub open spec fn binary_name(entry: EntryView) -> Seq<char> {
    drop_end(entry.path[2], 3)
}

/// The names of the executables that the first `upto` entries make.
pub open spec fn binaries_among(tree: TreeView, upto: int) -> Set<Seq<char>> {
    Set::new(
        |n: Seq<char>|
            exists|i: int|
                0 <= i < upto && i < tree.entries.len() && is_binary(#[trigger] tree.entries[i])
                    && binary_name(tree.entries[i]) == n,
    )
}

/// The names of the executables that the source files in `src/bin` make.
pub open spec fn binaries(tree: TreeView) -> Set<Seq<char>> {
    binaries_among(tree, tree.entries.len() as int)
}

/// The apps of a Cargo project. With `src/main.rs` it is one app, named as
/// the project. Without it, it is one app for each source file in `src/bin`,
/// and where there is none the project has no executable.
pub open spec fn rust_apps(tree: TreeView, source_name: Seq<char>) -> Result<Map<Seq<char>, AppView>, GenerateError> {
    if present(tree, within("src"@, "main.rs"@)) {
        Ok(Map::<Seq<char>, AppView>::empty().insert(source_name, app_for(source_name)))
    } else if binaries(tree) == Set::<Seq<char>>::empty() {
        Err(GenerateError::NoExecutableFound)
    } else {
        Ok(apps_named(binaries(tree)))
    }
}

/// Whether the entry is a source file directly in `src/bin`.
pub fn is_binary_entry(entry: &Entry) -> (r: bool)
    ensures
        r == is_binary(entry@),
{
    entry.is_file && entry.path.len() == 3 && same_text(entry.path[0].as_str(), "src") && same_text(
        entry.path[1].as_str(),
        "bin",
    ) && str_ends_with(entry.path[2].as_str(), ".rs")
}

/// The apps of the Cargo project `tree`, named `source_name`.
pub fn find_apps(tree: &SourceTree, source_name: &str) -> (r: Result<NameMap<App>, GenerateError>)
    ensures
        apps_answer(r) == rust_apps(tree@, source_name@),
        r is Ok ==> r->Ok_0.ordered(),
{
    let mut apps: NameMap<App> = NameMap::new();
    if tree.has(&path_within("src", "main.rs")) {
        apps.insert(source_name.to_owned(), make_app(source_name));
        return Ok(apps);
    }
    let mut i: usize = 0;
    proof {
        assert(apps@ =~= apps_named(binaries_among(tree@, 0)));
    }
    while i < tree.entries.len()
        invariant
            i <= tree.entries.len(),
            apps.ordered(),
            apps@ == apps_named(binaries_among(tree@, i as int)),
        decreases tree.entries.len() - i,
    {
        let entry = &tree.entries[i];
        assert(entry@ == tree@.entries[i as int]);
        if is_binary_entry(entry) {
            proof {
                reveal_strlit(".rs");
            }
            let name = without_end(entry.path[2].as_str(), 3);
            let app = make_app(name.as_str());
            proof {
                assert(binaries_among(tree@, i + 1) =~= binaries_among(tree@, i as int).insert(name@));
                assert(apps@.insert(name@, app@) =~= apps_named(binaries_among(tree@, i + 1)));
            }
            apps.insert(name, app);
        } else {
            proof {
                assert(binaries_among(tree@, i + 1) =~= binaries_among(tree@, i as int));
            }
        }
        i += 1;
    }
    if apps.is_empty() {
        proof {
            assert(binaries(tree@) =~= Set::<Seq<char>>::empty()) by {
                assert forall|n: Seq<char>| !binaries(tree@).contains(n) by {
                    if binaries(tree@).contains(n) {
                        assert(apps@.contains_key(n));
                    }
                }
            }
        }
        Err(GenerateError::NoExecutableFound)
    } else {
        proof {
            if binaries(tree@) == Set::<Seq<char>>::empty() {
                assert(apps@ =~= Map::<Seq<char>, AppView>::empty());
            }
        }
        Ok(apps)
    }
}

/// The one part of a Cargo project.
pub open spec fn rust_part(lock: Option<LockView>) -> PartView {
    PartView {
        plugin: "rust"@,
        source: "."@,
        build_packages: Some(
            match lock {
                Some(l) => build_packages(l),
                None => seq!["libc6-dev"@],
            },
        ),
        stage_packages: None,
        go_import_path: None,
        python_version: None,
    }
}

/// The answers for the Cargo project `tree`, named `source_name`, with the
/// manifest `manifest` and the lockfile `lock`: name, version, summary and
/// license as the package section has them, one part under the name of the
/// project, and the apps of the tree.
pub open spec fn rust_facts(
    tree: TreeView,
    source_name: Seq<char>,
    manifest: ManifestView,
    lock: Option<LockView>,
) -> Facts {
    Facts {
        name: Ok(
            match manifest.package {
                Some(p) => Some(p.name),
                None => None,
            },
        ),
        version: Ok(
            match manifest.package {
                Some(p) => p.version,
                None => None,
            },
        ),
        summary: Ok(
            match manifest.package {
                Some(p) => p.description,
                None => None,
            },
        ),
        description: Ok(None),
        license: Ok(
            match manifest.package {
                Some(p) => p.license,
                None => None,
            },
        ),
        parts: Ok(Map::<Seq<char>, PartView>::empty().insert(source_name, rust_part(lock))),
        apps: rust_apps(tree, source_name),
    }
}

/// The tree has a Cargo manifest at its root.
pub open spec fn is_rust(tree: TreeView) -> bool {
    present(tree, at_root("Cargo.toml"@))
}

/// What the text of a manifest is read as; `None` where its depth is beyond
/// the bound or it is rejected.
pub open spec fn manifest_read(content: Seq<char>) -> Option<ManifestView> {
    if bounded(content) {
        cargo_manifest(content)
    } else {
        None
    }
}

/// What the text of a lockfile is read as; `None` where it is not read or it
/// is rejected.
pub open spec fn lockfile_read(content: Seq<char>) -> Option<LockView> {
    if lockfile_is_read(content) {
        cargo_lockfile(content)
    } else {
        None
    }
}

/// What providing for the Cargo project `tree` comes to: the answers of its
/// generator, or a failure where the manifest, or a lockfile that is there,
/// is unreadable or rejected.
pub open spec fn rust_provided(tree: TreeView, source_name: Seq<char>) -> Result<Facts, GenerateError> {
    match content_at(tree, at_root("Cargo.toml"@)) {
        None => Err(GenerateError::ProviderParseError(Descriptor::CargoToml)),
        Some(text) => match manifest_read(text) {
            None => Err(GenerateError::ProviderParseError(Descriptor::CargoToml)),
            Some(manifest) => if present(tree, at_root("Cargo.lock"@)) {
                match content_at(tree, at_root("Cargo.lock"@)) {
                    None => Err(GenerateError::ProviderParseError(Descriptor::CargoLock)),
                    Some(locked) => match lockfile_read(locked) {
                        None => Err(GenerateError::ProviderParseError(Descriptor::CargoLock)),
                        Some(lock) => Ok(rust_facts(tree, source_name, manifest, Some(lock))),
                    },
                }
            } else {
                Ok(rust_facts(tree, source_name, manifest, None))
            },
        },
    }
}

/// What `cargo_toml` says of the text that it rejected, by the `Display` of
/// its error. Nothing is claimed of the words.
#[verifier::external_body]
fn manifest_fault(error: &cargo_toml::Error) -> (words: String) {
    error.to_string()
}

/// What `cargo_lock` says of the text that it rejected, by the `Display` of
/// its error. Nothing is claimed of the words.
#[verifier::external_body]
fn lockfile_fault(error: &cargo_lock::Error) -> (words: String) {
    error.to_string()
}

/// Reads the text of a manifest; where it is not read, says why, in the
/// words of the parser where the parser rejected it.
pub fn read_manifest(content: &str) -> (r: Result<CargoManifest, String>)
    ensures
        match r {
            Ok(manifest) => manifest_read(content@) == Some(manifest@),
            Err(_) => manifest_read(content@) is None,
        },
        r is Err && !bounded(content@) ==> r->Err_0@ == "tables and arrays nest too deep"@,
{
    if !within_bounds(content) {
        return Err("tables and arrays nest too deep".to_owned());
    }
    match parse_manifest(content) {
        Ok(manifest) => Ok(manifest),
        Err(e) => Err(manifest_fault(&e)),
    }
}

/// Reads the text of a lockfile; where it is not read, says why, in the
/// words of the parser where the parser rejected it.
pub fn read_lockfile(content: &str) -> (r: Result<CargoLock, String>)
    ensures
        match r {
            Ok(lock) => lockfile_read(content@) == Some(lock@),
            Err(_) => lockfile_read(content@) is None,
        },
        r is Err && !bounded(content@) ==> r->Err_0@ == "tables and arrays nest too deep"@,
        r is Err && bounded(content@) && !lockfile_is_read(content@) ==> r->Err_0@
            == "a character beyond ASCII, or a backslash"@,
{
    if !within_bounds(content) {
        return Err("tables and arrays nest too deep".to_owned());
    }
    if !reads_lockfile(content) {
        return Err("a character beyond ASCII, or a backslash".to_owned());
    }
    match parse_lockfile(content) {
        Ok(lock) => Ok(lock),
        Err(e) => Err(lockfile_fault(&e)),
    }
}

/// What makes a tree a Cargo project.
pub struct RustProvider {}

/// What is known of a Cargo project.
pub struct RustGenerator<'a> {
    cargo_toml: CargoManifest,
    cargo_lock: Option<CargoLock>,
    tree: &'a SourceTree,
    source_name: String,
}

impl<'a> RustGenerator<'a> {
    /// What the lockfile says, where there is one.
    pub closed spec fn lock(&self) -> Option<LockView> {
        match self.cargo_lock {
            Some(l) => Some(l@),
            None => None,
        }
    }

    /// The generator for the Cargo project `tree`, named `source_name`, with
    /// the manifest `cargo_toml` and the lockfile `cargo_lock`.
    pub fn new(
        cargo_toml: CargoManifest,
        cargo_lock: Option<CargoLock>,
        tree: &'a SourceTree,
        source_name: &str,
    ) -> (generator: Self)
        ensures
            generator.facts() == rust_facts(
                tree@,
                source_name@,
                cargo_toml@,
                match cargo_lock {
                    Some(l) => Some(l@),
                    None => None,
                },
            ),
    {
        RustGenerator { cargo_toml, cargo_lock, tree, source_name: source_name.to_owned() }
    }
}

impl RustProvider {
    /// Why no generator is provided for the Cargo project `tree`, where none
    /// is: that the manifest or the lockfile cannot be read, or what the
    /// parser says of it.
    pub fn explain(tree: &SourceTree) -> (words: Option<String>)
        ensures
            forall|source_name: Seq<char>|
                (words is Some) == (#[trigger] rust_provided(tree@, source_name) is Err),
    {
        match tree.read(&root_path("Cargo.toml")) {
            Some(text) => match read_manifest(text.as_str()) {
                Ok(_) => {},
                Err(words) => {
                    return Some(words);
                },
            },
            None => {
                return Some("the file cannot be read".to_owned());
            },
        }
        let lock_path = root_path("Cargo.lock");
        if tree.has(&lock_path) {
            match tree.read(&lock_path) {
                Some(text) => match read_lockfile(text.as_str()) {
                    Ok(_) => None,
                    Err(words) => Some(words),
                },
                None => Some("the file cannot be read".to_owned()),
            }
        } else {
            None
        }
    }

    /// Whether the tree is a Cargo project.
    pub fn can_provide(tree: &SourceTree) -> (r: bool)
        ensures
            r == is_rust(tree@),
    {
        tree.has(&root_path("Cargo.toml"))
    }

    /// The generator for the Cargo project `tree`, named `source_name`.
    pub fn provide<'a>(tree: &'a SourceTree, source_name: &str) -> (r: Result<
        RustGenerator<'a>,
        GenerateError,
    >)
        ensures
            match r {
                Ok(generator) => rust_provided(tree@, source_name@) == Ok::<Facts, GenerateError>(
                    generator.facts(),
                ),
                Err(e) => rust_provided(tree@, source_name@) == Err::<Facts, GenerateError>(e),
            },
    {
        let manifest = match tree.read(&root_path("Cargo.toml")) {
            Some(text) => match read_manifest(text.as_str()) {
                Ok(manifest) => manifest,
                Err(_) => {
                    return Err(GenerateError::ProviderParseError(Descriptor::CargoToml));
                },
            },
            None => {
                return Err(GenerateError::ProviderParseError(Descriptor::CargoToml));
            },
        };
        let lock_path = root_path("Cargo.lock");
        let lockfile = if tree.has(&lock_path) {
            match tree.read(&lock_path) {
                Some(text) => match read_lockfile(text.as_str()) {
                    Ok(lockfile) => Some(lockfile),
                    Err(_) => {
                        return Err(GenerateError::ProviderParseError(Descriptor::CargoLock));
                    },
                },
                None => {
                    return Err(GenerateError::ProviderParseError(Descriptor::CargoLock));
                },
            }
        } else {
            None
        };
        Ok(RustGenerator::new(manifest, lockfile, tree, source_name))
    }
}

impl<'a> Generator for RustGenerator<'a> {
    closed spec fn facts(&self) -> Facts {
        rust_facts(self.tree@, self.source_name@, self.cargo_toml@, self.lock())
    }

    fn name(&self) -> (r: Result<Option<String>, GenerateError>) {
        Ok(
            match &self.cargo_toml.package {
                Some(p) => Some(p.name.clone()),
                None => None,
            },
        )
    }

    fn version(&self) -> (r: Result<Option<String>, GenerateError>) {
        Ok(
            match &self.cargo_toml.package {
                Some(p) => clone_text(&p.version),
                None => None,
            },
        )
    }

    fn summary(&self) -> (r: Result<Option<String>, GenerateError>) {
        Ok(
            match &self.cargo_toml.package {
                Some(p) => clone_text(&p.description),
                None => None,
            },
        )
    }

    fn description(&self) -> (r: Result<Option<String>, GenerateError>) {
        Ok(None)
    }

    fn license(&self) -> (r: Result<Option<String>, GenerateError>) {
        Ok(
            match &self.cargo_toml.package {
                Some(p) => clone_text(&p.license),
                None => None,
            },
        )
    }

    fn parts(&self) -> (r: Result<NameMap<Part>, GenerateError>) {
        let build_packages = match &self.cargo_lock {
            Some(lockfile) => find_build_packages(lockfile),
            None => {
                let mut packages: Vec<String> = Vec::new();
                assert(packages.deep_view() =~= Seq::<Seq<char>>::empty());
                push_text(&mut packages, "libc6-dev".to_owned());
                assert(packages.deep_view() =~= seq!["libc6-dev"@]);
                packages
            },
        };
        let part = Part {
            plugin: "rust".to_owned(),
            source: ".".to_owned(),
            build_packages: Some(build_packages),
            stage_packages: None,
            go_import_path: None,
            python_version: None,
        };
        assert(part@ == rust_part(self.lock()));
        let mut parts = NameMap::new();
        parts.insert(self.source_name.clone(), part);
        Ok(parts)
    }

    fn apps(&self) -> (r: Result<NameMap<App>, GenerateError>) {
        find_apps(self.tree, self.source_name.as_str())
    }
}

/// Where the lockfile asks for OpenSSL, its development package stands in
/// the build packages at exactly one place, however many packages ask for
/// it, and the C library headers stand first in any case.
pub proof fn lemma_build_packages(lock: LockView)
    ensures
        build_packages(lock)[0] == "libc6-dev"@,
        needs_tls(lock) <==> build_packages(lock).contains("libssl-dev"@),
        forall|i: int, j: int|
            0 <= i < build_packages(lock).len() && 0 <= j < build_packages(lock).len()
                && build_packages(lock)[i] == "libssl-dev"@ && build_packages(lock)[j]
                == "libssl-dev"@ ==> i == j,
{
    reveal_strlit("libc6-dev");
    reveal_strlit("libssl-dev");
    assert("libc6-dev"@.len() != "libssl-dev"@.len());
    if needs_tls(lock) {
        assert(build_packages(lock)[1] == "libssl-dev"@);
    }
}

/// A manifest assembled for a Cargo project has exactly one part, the one
/// named as the project, whose build packages hold the C library headers,
/// and it has an app.
pub proof fn lemma_rust_manifest(
    tree: TreeView,
    source_name: Seq<char>,
    manifest: ManifestView,
    lock: Option<LockView>,
    options: OptionsView,
    detected: Option<Seq<char>>,
)
    requires
        assembled(rust_facts(tree, source_name, manifest, lock), options, detected) is Ok,
    ensures
        ({
            let file = assembled(rust_facts(tree, source_name, manifest, lock), options, detected)->Ok_0;
            &&& file.parts.dom() == set![source_name]
            &&& file.parts[source_name].plugin == "rust"@
            &&& file.parts[source_name].build_packages is Some
            &&& file.parts[source_name].build_packages->Some_0.contains("libc6-dev"@)
            &&& exists|name: Seq<char>| file.apps.contains_key(name)
        }),
{
    let file = assembled(rust_facts(tree, source_name, manifest, lock), options, detected)->Ok_0;
    assert(file.parts.dom() =~= set![source_name]);
    let packages = file.parts[source_name].build_packages->Some_0;
    assert(packages[0] == "libc6-dev"@);
    if forall|name: Seq<char>| !file.apps.contains_key(name) {
        assert(file.apps =~= Map::<Seq<char>, AppView>::empty());
    }
}

/// The apps of a Cargo project are the same in two trees that differ in text
/// alone.
pub proof fn lemma_rust_apps_frame(
    a: TreeView,
    b: TreeView,
    read: spec_fn(Seq<Seq<char>>) -> bool,
    source_name: Seq<char>,
)
    requires
        same_but_for_text(a, b, read),
    ensures
        rust_apps(a, source_name) == rust_apps(b, source_name),
{
    lemma_same_lookup(a, b, read, within("src"@, "main.rs"@));
    assert(binaries(a) =~= binaries(b)) by {
        assert forall|n: Seq<char>| binaries(a).contains(n) <==> binaries(b).contains(n) by {
            if binaries(a).contains(n) {
                let i = choose|i: int|
                    0 <= i < a.entries.len() && i < a.entries.len() && is_binary(#[trigger] a.entries[i])
                        && binary_name(a.entries[i]) == n;
                assert(is_binary(b.entries[i]) && binary_name(b.entries[i]) == n);
            }
            if binaries(b).contains(n) {
                let i = choose|i: int|
                    0 <= i < b.entries.len() && i < b.entries.len() && is_binary(#[trigger] b.entries[i])
                        && binary_name(b.entries[i]) == n;
                assert(is_binary(a.entries[i]) && binary_name(a.entries[i]) == n);
            }
        }
    }
}

} // verus!
