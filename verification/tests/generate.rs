use autosnap::error::{Descriptor, GenerateError, LicenseFile, Place, Section, Unread};
use autosnap::generator::python::{Interpreter, SetupAnswers};
use autosnap::license::License;
use autosnap::generator::{assemble, Facts, Generator, Generators, Instance, Options, Version};
use autosnap::name_map::NameMap;
use autosnap::snap::{App, File, Part};
use autosnap::tree::{Entry, SourceTree};
use autosnap::{already_packaged, package_source};

const MIT: &str = "MIT License\n\nCopyright (c) <year> <copyright holders>\n\nPermission is hereby granted, free of charge, to any person obtaining a copy of this software and associated documentation files (the \"Software\"), to deal in the Software without restriction, including without limitation the rights to use, copy, modify, merge, publish, distribute, sublicense, and/or sell copies of the Software, and to permit persons to whom the Software is furnished to do so, subject to the following conditions:\n\nThe above copyright notice and this permission notice shall be included in all copies or substantial portions of the Software.\n\nTHE SOFTWARE IS PROVIDED \"AS IS\", WITHOUT WARRANTY OF ANY KIND, EXPRESS OR IMPLIED, INCLUDING BUT NOT LIMITED TO THE WARRANTIES OF MERCHANTABILITY, FITNESS FOR A PARTICULAR PURPOSE AND NONINFRINGEMENT. IN NO EVENT SHALL THE AUTHORS OR COPYRIGHT HOLDERS BE LIABLE FOR ANY CLAIM, DAMAGES OR OTHER LIABILITY, WHETHER IN AN ACTION OF CONTRACT, TORT OR OTHERWISE, ARISING FROM, OUT OF OR IN CONNECTION WITH THE SOFTWARE OR THE USE OR OTHER DEALINGS IN THE SOFTWARE.\n";

const PROSE: &str = "It was a bright cold day in April, and the clocks were striking thirteen. The hallway smelt of boiled cabbage and old rag mats.\n";

const MANIFEST: &str = "[package]\nname = \"osync\"\nversion = \"0.2.0\"\ndescription = \"Synchronize things\"\n";

const LICENSED_MANIFEST: &str = "[package]\nname = \"osync\"\nversion = \"0.2.0\"\nlicense = \"GPL-3.0-only\"\n";

fn corpus() -> Vec<License> {
    vec![License { name: "MIT".to_string(), text: MIT.to_string() }]
}

fn file(path: &[&str], content: &str) -> Entry {
    Entry {
        path: path.iter().map(|s| s.to_string()).collect(),
        is_file: true,
        content: Some(content.to_string()),
    }
}

fn unreadable(path: &[&str]) -> Entry {
    Entry { path: path.iter().map(|s| s.to_string()).collect(), is_file: true, content: None }
}

fn tree(entries: Vec<Entry>) -> SourceTree {
    SourceTree { name: "checkout".to_string(), entries, complete: true }
}

fn options(version: Version) -> Options {
    Options { snap_version: version, source_name: "source-code".to_string() }
}

fn rust_project() -> SourceTree {
    tree(vec![file(&["Cargo.toml"], MANIFEST), file(&["src", "main.rs"], "fn main() {}")])
}

fn answered(name: &str) -> Interpreter {
    Interpreter::Answered(SetupAnswers {
        name: Some(format!("{}\n", name)),
        version: Some("1.2.3\n".to_string()),
        description: Some("A thing\n".to_string()),
    })
}

struct Fixed {
    name: Result<Option<String>, GenerateError>,
    version: Result<Option<String>, GenerateError>,
    summary: Result<Option<String>, GenerateError>,
    description: Result<Option<String>, GenerateError>,
    license: Result<Option<String>, GenerateError>,
    parts: Result<NameMap<Part>, GenerateError>,
    apps: Result<NameMap<App>, GenerateError>,
}

impl Generator for Fixed {
    fn facts(&self) -> Facts {
        unreachable!("ghost code is never run")
    }

    fn name(&self) -> Result<Option<String>, GenerateError> {
        self.name.clone()
    }

    fn version(&self) -> Result<Option<String>, GenerateError> {
        self.version.clone()
    }

    fn summary(&self) -> Result<Option<String>, GenerateError> {
        self.summary.clone()
    }

    fn description(&self) -> Result<Option<String>, GenerateError> {
        self.description.clone()
    }

    fn license(&self) -> Result<Option<String>, GenerateError> {
        self.license.clone()
    }

    fn parts(&self) -> Result<NameMap<Part>, GenerateError> {
        self.parts.clone()
    }

    fn apps(&self) -> Result<NameMap<App>, GenerateError> {
        self.apps.clone()
    }
}

fn one_part() -> NameMap<Part> {
    let mut parts = NameMap::new();
    parts.insert(
        "p".to_string(),
        Part {
            plugin: "nil".to_string(),
            source: ".".to_string(),
            build_packages: None,
            stage_packages: None,
            go_import_path: None,
            python_version: None,
        },
    );
    parts
}

fn one_app() -> NameMap<App> {
    let mut apps = NameMap::new();
    apps.insert("a".to_string(), App { command: "bin/a".to_string(), plugs: None });
    apps
}

fn fixed() -> Fixed {
    Fixed {
        name: Ok(None),
        version: Ok(None),
        summary: Ok(None),
        description: Ok(None),
        license: Ok(None),
        parts: Ok(one_part()),
        apps: Ok(one_app()),
    }
}

#[test]
fn rust_project_with_version_from_git() {
    let file = Generators::generate(&rust_project(), &options(Version::Git), &Interpreter::Unavailable, &corpus())
        .unwrap();
    assert_eq!(file.name, "osync");
    assert_eq!(file.base, "core18");
    assert_eq!(file.version, "git");
    assert_eq!(file.summary, "Synchronize things");
    assert_eq!(file.description, "TODO");
    assert_eq!(file.license, "TODO");
    assert_eq!(file.grade, "devel");
    assert_eq!(file.confinement, "devmode");
    assert_eq!(file.parts.len(), 1);
    let part = file.parts.get("source-code").unwrap();
    assert_eq!(part.plugin, "rust");
    assert_eq!(part.source, ".");
    assert!(part.build_packages.as_ref().unwrap().contains(&"libc6-dev".to_string()));
    assert_eq!(file.apps.len(), 1);
    assert_eq!(file.apps.get("source-code").unwrap().command, "bin/source-code");
}

#[test]
fn version_strategies() {
    let interpreter = Interpreter::Unavailable;
    let auto = Generators::generate(&rust_project(), &options(Version::Auto), &interpreter, &corpus()).unwrap();
    assert_eq!(auto.version, "0.2.0");
    let fixed = Generators::generate(
        &rust_project(),
        &options(Version::Fixed("9.9".to_string())),
        &interpreter,
        &corpus(),
    )
    .unwrap();
    assert_eq!(fixed.version, "9.9");
    let git = Generators::generate(&rust_project(), &options(Version::Git), &interpreter, &corpus()).unwrap();
    assert_eq!(git.version, "git");
}

#[test]
fn auto_version_without_an_answer_stays_at_the_default() {
    let project = tree(vec![
        file(&["go.mod"], "module example.org/foo\ngo 1.14\n"),
        file(&["main.go"], "package main\nfunc main() {}"),
    ]);
    let file = Generators::generate(&project, &options(Version::Auto), &Interpreter::Unavailable, &corpus())
        .unwrap();
    assert_eq!(file.version, "TODO");
    assert_eq!(file.name, "source-code");
    assert_eq!(file.summary, "TODO");
    assert_eq!(file.parts.get("source-code").unwrap().go_import_path, Some("example.org/foo".to_string()));
    assert_eq!(file.apps.len(), 1);
    assert_eq!(file.apps.get("main").unwrap().command, "bin/main");
}

#[test]
fn version_spellings() {
    assert_eq!(Version::from("git"), Version::Git);
    assert_eq!(Version::from("auto"), Version::Auto);
    assert_eq!(Version::from("0.2.0"), Version::Fixed("0.2.0".to_string()));
    assert_eq!(Version::from("Git"), Version::Fixed("Git".to_string()));
    assert_eq!(Version::from(""), Version::Fixed(String::new()));
    assert_eq!(Version::Fixed("x".to_string()).copy(), Version::Fixed("x".to_string()));
    assert_eq!(Version::Auto.copy(), Version::Auto);
    assert_eq!(Version::Git.copy(), Version::Git);
}

#[test]
fn detected_license_is_written() {
    let mut project = rust_project();
    project.entries.push(file(&["LICENSE"], MIT));
    let file = Generators::generate(&project, &options(Version::Git), &Interpreter::Unavailable, &corpus())
        .unwrap();
    assert_eq!(file.license, "MIT");
}

#[test]
fn license_of_the_generator_comes_before_the_detected_one() {
    let project = tree(vec![
        file(&["Cargo.toml"], LICENSED_MANIFEST),
        file(&["src", "main.rs"], ""),
        file(&["LICENSE"], MIT),
    ]);
    let file = Generators::generate(&project, &options(Version::Git), &Interpreter::Unavailable, &corpus())
        .unwrap();
    assert_eq!(file.license, "GPL-3.0-only");
}

#[test]
fn unrecognised_license_text_leaves_the_placeholder() {
    let mut project = rust_project();
    project.entries.push(file(&["LICENSE"], PROSE));
    let file = Generators::generate(&project, &options(Version::Git), &Interpreter::Unavailable, &corpus())
        .unwrap();
    assert_eq!(file.license, "TODO");
}

#[test]
fn corpus_is_only_looked_at_for_a_license_text() {
    let interpreter = Interpreter::Unavailable;
    let without = Generators::generate(&rust_project(), &options(Version::Git), &interpreter, &vec![]);
    assert!(without.is_ok());
    let mut project = rust_project();
    project.entries.push(file(&["COPYING"], MIT));
    let with = Generators::generate(&project, &options(Version::Git), &interpreter, &vec![]);
    assert_eq!(with, Err(GenerateError::InvalidCorpus));
}

#[test]
fn unreadable_license_stops_the_generation() {
    let mut project = rust_project();
    project.entries.push(unreadable(&["LICENSE"]));
    let r = Generators::generate(&project, &options(Version::Git), &Interpreter::Unavailable, &corpus());
    assert_eq!(r, Err(GenerateError::IOError(Unread::LicenseText(LicenseFile::License))));
}

#[test]
fn tree_of_no_ecosystem_has_no_generator() {
    let project = tree(vec![file(&["README.md"], "hello"), file(&["vendor", "Cargo.toml"], MANIFEST)]);
    let r = Generators::generate(&project, &options(Version::Git), &Interpreter::Unavailable, &corpus());
    assert_eq!(r, Err(GenerateError::NoApplicableProvider));
    assert!(Generators::select(&project).is_none());
    assert!(matches!(
        Generators::find_generator(&project, "x", &Interpreter::Unavailable),
        Err(GenerateError::NoApplicableProvider)
    ));
}

#[test]
fn providers_are_tried_in_order() {
    let all = tree(vec![
        file(&["settings.gradle"], ""),
        file(&["setup.py"], ""),
        file(&["go.mod"], ""),
        file(&["Cargo.toml"], MANIFEST),
    ]);
    assert!(matches!(Generators::select(&all), Some(Generators::Rust(_))));
    let three = tree(vec![file(&["settings.gradle"], ""), file(&["setup.py"], ""), file(&["go.mod"], "")]);
    assert!(matches!(Generators::select(&three), Some(Generators::Go(_))));
    let two = tree(vec![file(&["settings.gradle"], ""), file(&["setup.py"], "")]);
    assert!(matches!(Generators::select(&two), Some(Generators::Python(_))));
    let one = tree(vec![file(&["settings.gradle"], "")]);
    assert!(matches!(Generators::select(&one), Some(Generators::Gradle(_))));
    assert!(matches!(
        Generators::find_generator(&all, "x", &Interpreter::Unavailable),
        Ok(Instance::Rust(_))
    ));
    assert!(matches!(
        Generators::find_generator(&three, "x", &Interpreter::Unavailable),
        Ok(Instance::Go(_))
    ));
    assert!(matches!(Generators::find_generator(&two, "x", &answered("n")), Ok(Instance::Python(_))));
    assert!(matches!(
        Generators::find_generator(&one, "x", &Interpreter::Unavailable),
        Ok(Instance::Gradle(_))
    ));
}

#[test]
fn failure_of_the_first_provider_is_not_passed_over() {
    let project = tree(vec![
        file(&["Cargo.toml"], "this is [not a manifest"),
        file(&["go.mod"], "module example.org/foo\n"),
        file(&["main.go"], "package main\nfunc main() {}"),
    ]);
    let r = Generators::generate(&project, &options(Version::Git), &Interpreter::Unavailable, &corpus());
    assert_eq!(r, Err(GenerateError::ProviderParseError(Descriptor::CargoToml)));
}

#[test]
fn rust_project_without_executable_fails() {
    let project = tree(vec![file(&["Cargo.toml"], MANIFEST)]);
    let r = Generators::generate(&project, &options(Version::Git), &Interpreter::Unavailable, &corpus());
    assert_eq!(r, Err(GenerateError::NoExecutableFound));
}

#[test]
fn gradle_project_fails_for_want_of_apps() {
    let project = tree(vec![file(&["settings.gradle"], ""), file(&["LICENSE"], MIT)]);
    let r = Generators::generate(&project, &options(Version::Auto), &Interpreter::Unavailable, &corpus());
    assert_eq!(r, Err(GenerateError::EmptyPartsOrApps(Section::Apps)));
}

#[test]
fn go_project_without_executable_fails_for_want_of_apps() {
    let project = tree(vec![file(&["go.mod"], "module example.org/foo\n"), file(&["lib.go"], "package foo")]);
    let r = Generators::generate(&project, &options(Version::Git), &Interpreter::Unavailable, &corpus());
    assert_eq!(r, Err(GenerateError::EmptyPartsOrApps(Section::Apps)));
}

#[test]
fn go_project_with_unreadable_source_fails() {
    let project = tree(vec![file(&["go.mod"], "module example.org/foo\n"), unreadable(&["main.go"])]);
    let r = Generators::generate(&project, &options(Version::Git), &Interpreter::Unavailable, &corpus());
    assert_eq!(r, Err(GenerateError::IOError(Unread::Source(1))));
}

#[test]
fn python_project() {
    let project = tree(vec![file(&["setup.py"], "")]);
    let missing = Generators::generate(&project, &options(Version::Auto), &Interpreter::Unavailable, &corpus());
    assert_eq!(missing, Err(GenerateError::SubprocessError));
    let file = Generators::generate(&project, &options(Version::Auto), &answered("requests"), &corpus()).unwrap();
    assert_eq!(file.name, "requests");
    assert_eq!(file.version, "1.2.3");
    assert_eq!(file.summary, "A thing");
    assert_eq!(file.description, "TODO");
    assert_eq!(file.parts.get("source-code").unwrap().python_version, Some("python3".to_string()));
    assert_eq!(file.apps.get("source-code").unwrap().command, "TODO");
    let git = Generators::generate(&project, &options(Version::Git), &answered("requests"), &corpus()).unwrap();
    assert_eq!(git.version, "git");
}

#[test]
fn generating_twice_gives_the_same_manifest() {
    let project = tree(vec![
        file(&["go.mod"], "module example.org/foo\ngo 1.14\n"),
        file(&["cmd", "z.go"], "package main\nfunc main() {}"),
        file(&["cmd", "a.go"], "package main\nfunc main() {}"),
        file(&["cmd", "m.go"], "package main\nfunc main() {}"),
        file(&["LICENSE"], MIT),
    ]);
    let cache = corpus();
    let first = Generators::generate(&project, &options(Version::Auto), &Interpreter::Unavailable, &cache);
    let second = Generators::generate(&project, &options(Version::Auto), &Interpreter::Unavailable, &cache);
    assert!(first.is_ok());
    assert_eq!(first, second);
    let file = first.unwrap();
    assert_eq!(file.apps.name_at(0), "a");
    assert_eq!(file.apps.name_at(1), "m");
    assert_eq!(file.apps.name_at(2), "z");
}

#[test]
fn generate_with_a_given_license() {
    let interpreter = Interpreter::Unavailable;
    let with = Generators::generate_with(
        &rust_project(),
        &options(Version::Git),
        &interpreter,
        Some("Apache-2.0".to_string()),
    )
    .unwrap();
    assert_eq!(with.license, "Apache-2.0");
    let without = Generators::generate_with(&rust_project(), &options(Version::Git), &interpreter, None).unwrap();
    assert_eq!(without.license, "TODO");
    let mut expected = File::new("osync");
    expected.version = "git".to_string();
    expected.summary = "Synchronize things".to_string();
    expected.parts.insert(
        "source-code".to_string(),
        Part {
            plugin: "rust".to_string(),
            source: ".".to_string(),
            build_packages: Some(vec!["libc6-dev".to_string()]),
            stage_packages: None,
            go_import_path: None,
            python_version: None,
        },
    );
    expected
        .apps
        .insert("source-code".to_string(), App { command: "bin/source-code".to_string(), plugs: None });
    assert_eq!(without, expected);
}

#[test]
fn assemble_takes_each_answer_that_is_given() {
    let mut generator = fixed();
    generator.name = Ok(Some("n".to_string()));
    generator.version = Ok(Some("v".to_string()));
    generator.summary = Ok(Some("s".to_string()));
    generator.description = Ok(Some("d".to_string()));
    generator.license = Ok(Some("l".to_string()));
    let file = assemble(&generator, &options(Version::Auto), Some("detected".to_string())).unwrap();
    assert_eq!(file.name, "n");
    assert_eq!(file.version, "v");
    assert_eq!(file.summary, "s");
    assert_eq!(file.description, "d");
    assert_eq!(file.license, "l");
    assert_eq!(file.parts, one_part());
    assert_eq!(file.apps, one_app());
    let git = assemble(&generator, &options(Version::Git), None).unwrap();
    assert_eq!(git.version, "git");
    let fixed_version = assemble(&generator, &options(Version::Fixed("1".to_string())), None).unwrap();
    assert_eq!(fixed_version.version, "1");
}

#[test]
fn assemble_keeps_what_no_answer_replaces() {
    let file = assemble(&fixed(), &options(Version::Auto), Some("detected".to_string())).unwrap();
    assert_eq!(file.name, "source-code");
    assert_eq!(file.version, "TODO");
    assert_eq!(file.summary, "TODO");
    assert_eq!(file.description, "TODO");
    assert_eq!(file.license, "detected");
}

#[test]
fn assemble_fails_with_the_first_failure() {
    let mut generator = fixed();
    generator.apps = Err(GenerateError::IOError(Unread::Walk));
    assert_eq!(assemble(&generator, &options(Version::Git), None), Err(GenerateError::IOError(Unread::Walk)));
    generator.parts = Ok(NameMap::new());
    assert_eq!(
        assemble(&generator, &options(Version::Git), None),
        Err(GenerateError::EmptyPartsOrApps(Section::Parts))
    );
    generator.parts = Err(GenerateError::ProviderParseError(Descriptor::GoMod));
    assert_eq!(assemble(&generator, &options(Version::Git), None), Err(GenerateError::ProviderParseError(Descriptor::GoMod)));
    generator.license = Err(GenerateError::SubprocessError);
    assert_eq!(assemble(&generator, &options(Version::Git), None), Err(GenerateError::SubprocessError));
    generator.version = Err(GenerateError::NoExecutableFound);
    assert_eq!(assemble(&generator, &options(Version::Git), None), Err(GenerateError::SubprocessError));
    assert_eq!(assemble(&generator, &options(Version::Auto), None), Err(GenerateError::NoExecutableFound));
    generator.name = Err(GenerateError::AlreadyPackaged(Place::Root));
    assert_eq!(assemble(&generator, &options(Version::Auto), None), Err(GenerateError::AlreadyPackaged(Place::Root)));
}

#[test]
fn assemble_refuses_an_answer_without_apps() {
    let mut generator = fixed();
    generator.apps = Ok(NameMap::new());
    assert_eq!(
        assemble(&generator, &options(Version::Git), None),
        Err(GenerateError::EmptyPartsOrApps(Section::Apps))
    );
}

#[test]
fn packaged_tree_is_refused() {
    let mut at_root = rust_project();
    at_root.entries.push(file(&["snapcraft.yaml"], "name: x"));
    assert!(already_packaged(&at_root));
    let r = package_source(&at_root, &options(Version::Git), &Interpreter::Unavailable, &corpus());
    assert_eq!(r, Err(GenerateError::AlreadyPackaged(Place::Root)));
    let mut in_snap = rust_project();
    in_snap.entries.push(file(&["snap", "snapcraft.yaml"], "name: x"));
    assert!(already_packaged(&in_snap));
    let r = package_source(&in_snap, &options(Version::Git), &Interpreter::Unavailable, &corpus());
    assert_eq!(r, Err(GenerateError::AlreadyPackaged(Place::SnapDirectory)));
    let mut elsewhere = rust_project();
    elsewhere.entries.push(file(&["docs", "snapcraft.yaml"], "name: x"));
    assert!(!already_packaged(&elsewhere));
}

#[test]
fn package_is_named_as_the_tree() {
    let project = tree(vec![
        file(&["go.mod"], "module example.org/foo\n"),
        file(&["main.go"], "package main\nfunc main() {}"),
    ]);
    let file = package_source(&project, &options(Version::Fixed("1.0".to_string())), &Interpreter::Unavailable, &corpus())
        .unwrap();
    assert_eq!(file.name, "checkout");
    assert_eq!(file.version, "1.0");
    assert!(file.parts.contains_key("checkout"));
    assert!(!file.parts.contains_key("source-code"));
}
