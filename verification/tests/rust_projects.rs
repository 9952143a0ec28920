use autosnap::error::{Descriptor, GenerateError};
use autosnap::generator::rust::{
    find_apps, find_build_packages, read_lockfile, read_manifest, reads_lockfile, CargoLock,
    CargoManifest, CargoPackage, LockedPackage, RustGenerator, RustProvider,
};
use autosnap::nesting::{within_bounds, MAX_DEPTH};
use autosnap::generator::Generator;
use autosnap::tree::{Entry, SourceTree};

fn file(path: &[&str], content: &str) -> Entry {
    Entry {
        path: path.iter().map(|s| s.to_string()).collect(),
        is_file: true,
        content: Some(content.to_string()),
    }
}

fn directory(path: &[&str]) -> Entry {
    Entry { path: path.iter().map(|s| s.to_string()).collect(), is_file: false, content: None }
}

fn tree(entries: Vec<Entry>) -> SourceTree {
    SourceTree { name: "autosnap".to_string(), entries, complete: true }
}

fn locked(name: &str, dependencies: &[&str]) -> LockedPackage {
    LockedPackage {
        name: name.to_string(),
        dependencies: dependencies.iter().map(|s| s.to_string()).collect(),
    }
}

const MANIFEST: &str = "[package]\nname = \"osync\"\nversion = \"0.2.0\"\ndescription = \"Synchronize things\"\nlicense = \"GPL-3.0-only\"\n";

const LOCKFILE: &str = "[[package]]\nname = \"osync\"\nversion = \"0.2.0\"\ndependencies = [\n \"openssl-sys 0.9.54 (registry+https://github.com/rust-lang/crates.io-index)\",\n]\n\n[[package]]\nname = \"openssl-sys\"\nversion = \"0.9.54\"\nsource = \"registry+https://github.com/rust-lang/crates.io-index\"\n";

#[test]
fn test_find_apps_single_app() {
    let tmp_dir = tree(vec![directory(&["src"]), file(&["src", "main.rs"], "fn main() {}")]);

    let apps = find_apps(&tmp_dir, "autosnap").expect("unable to find apps");
    assert!(apps.contains_key("autosnap"));

    let app = apps.get("autosnap").expect("autosnap is not present");
    assert_eq!(app.command, "bin/autosnap");
}

#[test]
fn test_find_apps_multiple_apps() {
    let tmp_dir = tree(vec![
        directory(&["src"]),
        directory(&["src", "bin"]),
        file(&["src", "bin", "autosnap.rs"], "fn main() {}"),
        file(&["src", "bin", "autosnap-util.rs"], "fn main() {}"),
    ]);

    let apps = find_apps(&tmp_dir, "autosnap").expect("unable to find apps");
    assert!(apps.contains_key("autosnap"));
    assert!(apps.contains_key("autosnap-util"));

    let autosnap = apps.get("autosnap").expect("autosnap is not present");
    assert_eq!(autosnap.command, "bin/autosnap");

    let autosnap_util = apps.get("autosnap-util").expect("autosnap-util is not present");
    assert_eq!(autosnap_util.command, "bin/autosnap-util");
}

#[test]
fn test_find_build_packages() {
    let lockfile = CargoLock { packages: vec![locked("test-package", &["openssl-sys"])] };

    let build_packages = find_build_packages(&lockfile);
    assert_eq!(build_packages, vec!["libc6-dev", "libssl-dev"]);
}

#[test]
fn build_packages_without_tls_binding_are_the_baseline() {
    let lockfile = CargoLock {
        packages: vec![locked("a", &["serde", "log"]), locked("b", &[]), locked("openssl-sys", &[])],
    };
    assert_eq!(find_build_packages(&lockfile), vec!["libc6-dev"]);
    assert_eq!(find_build_packages(&CargoLock { packages: vec![] }), vec!["libc6-dev"]);
}

#[test]
fn build_packages_hold_the_tls_package_once() {
    let lockfile = CargoLock {
        packages: vec![
            locked("a", &["openssl-sys", "openssl-probe"]),
            locked("b", &["log", "openssl-sys"]),
            locked("c", &["openssl-macros"]),
        ],
    };
    let packages = find_build_packages(&lockfile);
    assert_eq!(packages, vec!["libc6-dev", "libssl-dev"]);
    assert_eq!(packages.iter().filter(|p| p.as_str() == "libssl-dev").count(), 1);
}

#[test]
fn tls_prefix_must_start_the_name() {
    let lockfile = CargoLock { packages: vec![locked("a", &["my-openssl-sys", "openssl", "openss"])] };
    assert_eq!(find_build_packages(&lockfile), vec!["libc6-dev"]);
    let exact = CargoLock { packages: vec![locked("a", &["openssl-"])] };
    assert_eq!(find_build_packages(&exact), vec!["libc6-dev", "libssl-dev"]);
}

#[test]
fn single_entry_point_gives_exactly_one_app() {
    let project = tree(vec![
        file(&["src", "main.rs"], "fn main() {}"),
        file(&["src", "bin", "other.rs"], "fn main() {}"),
    ]);
    let apps = find_apps(&project, "mydir").unwrap();
    assert_eq!(apps.len(), 1);
    assert_eq!(apps.name_at(0), "mydir");
    assert_eq!(apps.value_at(0).command, "bin/mydir");
    assert_eq!(apps.value_at(0).plugs, None);
    assert!(!apps.contains_key("other"));
}

#[test]
fn three_binaries_give_three_apps_and_nothing_else() {
    let project = tree(vec![
        file(&["src", "bin", "c.rs"], ""),
        file(&["src", "bin", "a.rs"], ""),
        file(&["src", "bin", "notes.txt"], ""),
        directory(&["src", "bin", "nested.rs"]),
        file(&["src", "bin", "nested.rs", "deep.rs"], ""),
        file(&["src", "lib.rs"], ""),
        file(&["other", "bin", "x.rs"], ""),
        file(&["src", "bin", "b.rs"], ""),
    ]);
    let apps = find_apps(&project, "mydir").unwrap();
    assert_eq!(apps.len(), 3);
    assert_eq!(apps.name_at(0), "a");
    assert_eq!(apps.name_at(1), "b");
    assert_eq!(apps.name_at(2), "c");
    assert_eq!(apps.get("a").unwrap().command, "bin/a");
    assert_eq!(apps.get("b").unwrap().command, "bin/b");
    assert_eq!(apps.get("c").unwrap().command, "bin/c");
    assert!(!apps.contains_key("notes"));
    assert!(!apps.contains_key("nested"));
    assert!(!apps.contains_key("deep"));
    assert!(!apps.contains_key("mydir"));
}

#[test]
fn binary_name_loses_only_the_suffix() {
    let project = tree(vec![file(&["src", "bin", "a.rs.rs"], ""), file(&["src", "bin", ".rs"], "")]);
    let apps = find_apps(&project, "mydir").unwrap();
    assert_eq!(apps.len(), 2);
    assert_eq!(apps.name_at(0), "");
    assert_eq!(apps.value_at(0).command, "bin/");
    assert_eq!(apps.name_at(1), "a.rs");
}

#[test]
fn no_entry_point_is_no_executable() {
    let empty = tree(vec![file(&["Cargo.toml"], MANIFEST)]);
    assert_eq!(find_apps(&empty, "mydir"), Err(GenerateError::NoExecutableFound));
    let no_sources = tree(vec![directory(&["src", "bin"]), file(&["src", "bin", "readme.md"], "")]);
    assert_eq!(find_apps(&no_sources, "mydir"), Err(GenerateError::NoExecutableFound));
}

#[test]
fn provider_looks_at_the_root_only() {
    assert!(RustProvider::can_provide(&tree(vec![file(&["Cargo.toml"], MANIFEST)])));
    assert!(RustProvider::can_provide(&tree(vec![directory(&["Cargo.toml"])])));
    assert!(!RustProvider::can_provide(&tree(vec![file(&["vendor", "Cargo.toml"], MANIFEST)])));
    assert!(!RustProvider::can_provide(&tree(vec![file(&["Cargo.lock"], "")])));
    assert!(!RustProvider::can_provide(&tree(vec![])));
}

#[test]
fn provide_reads_the_package_section() {
    let project = tree(vec![file(&["Cargo.toml"], MANIFEST), file(&["src", "main.rs"], "")]);
    let generator = match RustProvider::provide(&project, "dir") {
        Ok(g) => g,
        Err(e) => panic!("{:?}", e),
    };
    assert_eq!(generator.name(), Ok(Some("osync".to_string())));
    assert_eq!(generator.version(), Ok(Some("0.2.0".to_string())));
    assert_eq!(generator.summary(), Ok(Some("Synchronize things".to_string())));
    assert_eq!(generator.description(), Ok(None));
    assert_eq!(generator.license(), Ok(Some("GPL-3.0-only".to_string())));
    let parts = generator.parts().unwrap();
    assert_eq!(parts.len(), 1);
    assert_eq!(parts.name_at(0), "dir");
    let part = parts.get("dir").unwrap();
    assert_eq!(part.plugin, "rust");
    assert_eq!(part.source, ".");
    assert_eq!(part.build_packages, Some(vec!["libc6-dev".to_string()]));
    assert_eq!(part.stage_packages, None);
    assert_eq!(part.go_import_path, None);
    assert_eq!(part.python_version, None);
    let apps = generator.apps().unwrap();
    assert_eq!(apps.len(), 1);
    assert_eq!(apps.get("dir").unwrap().command, "bin/dir");
}

#[test]
fn provide_reads_the_lockfile() {
    let project = tree(vec![
        file(&["Cargo.toml"], MANIFEST),
        file(&["Cargo.lock"], LOCKFILE),
        file(&["src", "main.rs"], ""),
    ]);
    let generator = match RustProvider::provide(&project, "dir") {
        Ok(g) => g,
        Err(e) => panic!("{:?}", e),
    };
    let parts = generator.parts().unwrap();
    assert_eq!(
        parts.get("dir").unwrap().build_packages,
        Some(vec!["libc6-dev".to_string(), "libssl-dev".to_string()])
    );
}

#[test]
fn workspace_manifest_has_no_metadata() {
    let project = tree(vec![
        file(&["Cargo.toml"], "[workspace]\nmembers = [\"a\", \"b\"]\n"),
        file(&["src", "main.rs"], ""),
    ]);
    let generator = match RustProvider::provide(&project, "dir") {
        Ok(g) => g,
        Err(e) => panic!("{:?}", e),
    };
    assert_eq!(generator.name(), Ok(None));
    assert_eq!(generator.version(), Ok(None));
    assert_eq!(generator.summary(), Ok(None));
    assert_eq!(generator.license(), Ok(None));
}

#[test]
fn inherited_version_is_absent() {
    let project = tree(vec![file(
        &["Cargo.toml"],
        "[package]\nname = \"member\"\nversion.workspace = true\n",
    )]);
    let generator = match RustProvider::provide(&project, "dir") {
        Ok(g) => g,
        Err(e) => panic!("{:?}", e),
    };
    assert_eq!(generator.name(), Ok(Some("member".to_string())));
    assert_eq!(generator.version(), Ok(None));
}

#[test]
fn malformed_manifest_is_a_parse_error() {
    let broken = tree(vec![file(&["Cargo.toml"], "[package\nname = ")]);
    assert!(matches!(RustProvider::provide(&broken, "dir"), Err(GenerateError::ProviderParseError(Descriptor::CargoToml))));
    let unreadable = tree(vec![directory(&["Cargo.toml"])]);
    assert!(matches!(RustProvider::provide(&unreadable, "dir"), Err(GenerateError::ProviderParseError(Descriptor::CargoToml))));
    let missing = tree(vec![]);
    assert!(matches!(RustProvider::provide(&missing, "dir"), Err(GenerateError::ProviderParseError(Descriptor::CargoToml))));
}

#[test]
fn malformed_lockfile_is_a_parse_error() {
    let broken = tree(vec![file(&["Cargo.toml"], MANIFEST), file(&["Cargo.lock"], "[[package]]\nname = 3\n")]);
    assert!(matches!(RustProvider::provide(&broken, "dir"), Err(GenerateError::ProviderParseError(Descriptor::CargoLock))));
    let unreadable = tree(vec![file(&["Cargo.toml"], MANIFEST), directory(&["Cargo.lock"])]);
    assert!(matches!(RustProvider::provide(&unreadable, "dir"), Err(GenerateError::ProviderParseError(Descriptor::CargoLock))));
}

#[test]
fn generator_from_given_values() {
    let project = tree(vec![file(&["src", "bin", "tool.rs"], "")]);
    let manifest = CargoManifest {
        package: Some(CargoPackage {
            name: "pkg".to_string(),
            version: None,
            description: None,
            license: Some("MIT".to_string()),
        }),
    };
    let lock = CargoLock { packages: vec![locked("pkg", &["openssl-sys"])] };
    let generator = RustGenerator::new(manifest, Some(lock), &project, "dir");
    assert_eq!(generator.name(), Ok(Some("pkg".to_string())));
    assert_eq!(generator.version(), Ok(None));
    assert_eq!(generator.summary(), Ok(None));
    assert_eq!(generator.license(), Ok(Some("MIT".to_string())));
    let parts = generator.parts().unwrap();
    assert_eq!(
        parts.get("dir").unwrap().build_packages,
        Some(vec!["libc6-dev".to_string(), "libssl-dev".to_string()])
    );
    let apps = generator.apps().unwrap();
    assert_eq!(apps.len(), 1);
    assert_eq!(apps.get("tool").unwrap().command, "bin/tool");
}

#[test]
fn nesting_of_ordinary_texts_is_within_bounds() {
    assert!(within_bounds(""));
    assert!(within_bounds(MANIFEST));
    assert!(within_bounds(LOCKFILE));
    assert!(within_bounds("[package]\nname = \"x\"\n\n[dependencies]\nserde = { version = \"1.0.1\", features = [\"derive\"] }\n"));
    let mut many = String::new();
    for i in 0..500 {
        many.push_str(&format!("[[package]]\nname = \"p{}\"\nversion = \"1.0.{}\"\ndependencies = [\n \"a 1.0.0 (registry+https://example.org/index)\",\n]\n\n", i, i));
    }
    assert!(within_bounds(&many));
    let mut commented = String::new();
    for _ in 0..100 {
        commented.push_str("# [profile.release]\ndescription = \"see [the docs\"\nliteral = 'an { open brace'\n");
    }
    assert!(within_bounds(&commented));
    let long_string = "description = \"\"\"\nA text [with [[ brackets {{ and dots ................................................\n\"\"\"\n".repeat(50);
    assert!(within_bounds(&long_string));
}

fn arrays(n: usize) -> String {
    format!("a = {}1{}\n", "[".repeat(n), "]".repeat(n))
}

fn tables(n: usize, parts: usize) -> String {
    let key = vec!["a"; parts].join(".");
    format!("k = {}1{}\n", format!("{{ {} = ", key).repeat(n), " }".repeat(n))
}

#[test]
fn nesting_out_of_bounds_is_found() {
    assert!(within_bounds(&arrays(MAX_DEPTH - 2)));
    assert!(!within_bounds(&arrays(MAX_DEPTH - 1)));
    assert!(!within_bounds(&format!("a = {}", "[".repeat(100_000))));
    // brackets on end at the head of a line open a header and no arrays
    assert!(within_bounds(&"[".repeat(100_000)));
    assert!(read_manifest(&"[".repeat(100_000)).is_err());
    assert!(!within_bounds(&format!("a = {}", "{ b = ".repeat(MAX_DEPTH))));
    assert!(!within_bounds(&"a = [ \"]\",\n".repeat(MAX_DEPTH)));
    assert!(!within_bounds(&"a = [ ']',\n".repeat(MAX_DEPTH)));
    assert!(!within_bounds(&"a = [ # ]\n".repeat(MAX_DEPTH)));
    assert!(!within_bounds(&"a = [ \"\\\"]\",\n".repeat(MAX_DEPTH)));
    assert!(!within_bounds(&"a = [ \"\"\"\n]\"\"\",\n".repeat(MAX_DEPTH)));
    assert!(within_bounds(&"a = [ 1 ]\n".repeat(1000)));
    assert!(within_bounds(&"a = [\n  [ 1, 2 ],\n  [ 3, 4 ],\n]\n".repeat(1000)));
    assert!(within_bounds(&format!("{}a = 1", "a.".repeat(MAX_DEPTH - 2))));
    assert!(!within_bounds(&format!("{}a = 1", "a.".repeat(MAX_DEPTH - 1))));
    assert!(within_bounds(&format!("[{}a]\n", "a.".repeat(MAX_DEPTH - 4))));
    assert!(!within_bounds(&format!("[{}a]\n", "a.".repeat(MAX_DEPTH - 3))));
    assert!(within_bounds(&"a.b.c = 1.5\n".repeat(1000)));
    assert!(within_bounds(&format!("a = [{}]", "1.5, ".repeat(1000))));
    assert!(within_bounds(&format!("a = {{ {} }}", "b.c = 1.5, ".repeat(1000))));
    assert!(within_bounds(&format!("a = \"{}\"", ".".repeat(1000))));
}

#[test]
fn depth_counts_header_keys_and_brackets_together() {
    // 32 tables, each the value of a key of 33 parts
    assert!(!within_bounds(&tables(32, 33)));
    assert!(!within_bounds(&format!("[package.metadata]\n{}", tables(32, 33))));
    assert!(within_bounds(&tables(10, 6)));
    assert!(!within_bounds(&tables(11, 6)));
    let header = format!("[{}]\n", vec!["h"; 30].join("."));
    assert!(within_bounds(&format!("{}{}", header, arrays(MAX_DEPTH - 2 - 31))));
    assert!(!within_bounds(&format!("{}{}", header, arrays(MAX_DEPTH - 1 - 31))));
    assert!(within_bounds(&format!("{}{}a = 1\n", header, "a.".repeat(MAX_DEPTH - 2 - 31))));
    assert!(!within_bounds(&format!("{}{}a = 1\n", header, "a.".repeat(MAX_DEPTH - 1 - 31))));
    // a header sets the depth anew
    assert!(within_bounds(&format!("{}x = 1\n[short]\n{}", header, arrays(MAX_DEPTH - 2 - 3))));
    // what closes gives the depth back
    assert!(within_bounds(&format!("{}{}", arrays(40), arrays(40))));
    assert!(within_bounds(&format!("a = [ {} 0 ]\n", "{ b.c.d = [ 1 ] }, ".repeat(1000))));
}

#[test]
fn texts_at_the_greatest_depth_are_read() {
    let mut deepest_arrays = 0;
    while within_bounds(&format!("[package]\nname = \"x\"\nversion = \"1\"\n[package.metadata]\n{}", arrays(deepest_arrays + 1))) {
        deepest_arrays += 1;
    }
    assert_eq!(deepest_arrays, MAX_DEPTH - 2 - 3);
    let manifest = format!("[package]\nname = \"x\"\nversion = \"1\"\n[package.metadata]\n{}", arrays(deepest_arrays));
    let read = read_manifest(&manifest).expect("a manifest at the greatest depth");
    assert_eq!(read.package.unwrap().name, "x");

    let mut deepest_tables = 0;
    while within_bounds(&format!("[package]\nname = \"x\"\nversion = \"1\"\n[package.metadata]\n{}", tables(deepest_tables + 1, 3))) {
        deepest_tables += 1;
    }
    assert!(deepest_tables > 10);
    let manifest = format!("[package]\nname = \"x\"\nversion = \"1\"\n[package.metadata]\n{}", tables(deepest_tables, 3));
    let read = read_manifest(&manifest).expect("a manifest at the greatest depth");
    assert_eq!(read.package.unwrap().version, Some("1".to_string()));

    let keys = format!("[package]\nname = \"x\"\nversion = \"1\"\n[package.metadata.{}a]\n{}a = 1\n", "a.".repeat(20), "a.".repeat(MAX_DEPTH - 2 - 24));
    assert!(within_bounds(&keys));
    assert!(read_manifest(&keys).is_ok());

    let mut deepest_locked = 0;
    while reads_lockfile(&format!("[[package]]\nname = \"a\"\nversion = \"1.0.0\"\n\n[metadata]\n{}", arrays(deepest_locked + 1))) {
        deepest_locked += 1;
    }
    assert!(deepest_locked > 50);
    let lockfile = format!("[[package]]\nname = \"a\"\nversion = \"1.0.0\"\n\n[metadata]\n{}", arrays(deepest_locked));
    // the lockfile is read to its end, whatever comes of it
    let _ = read_lockfile(&lockfile);
    let lockfile = format!("[[package]]\nname = \"a\"\nversion = \"1.0.0\"\nextra = {}\n", tables(deepest_locked / 4, 3).trim_start_matches("k = ").trim_end());
    assert!(reads_lockfile(&lockfile));
    let _ = read_lockfile(&lockfile);
}

#[test]
fn manifest_nested_too_deep_is_a_parse_error() {
    let deep = tree(vec![file(&["Cargo.toml"], &format!("[package]\nname = \"x\"\nversion = \"1\"\nkeywords = {}", "[".repeat(50_000)))]);
    assert!(matches!(RustProvider::provide(&deep, "dir"), Err(GenerateError::ProviderParseError(Descriptor::CargoToml))));
    let dotted = tree(vec![file(&["Cargo.toml"], &format!("[package]\nname = \"x\"\nversion = \"1\"\n[package.metadata.{}a]\n", "a.".repeat(50_000)))]);
    assert!(matches!(RustProvider::provide(&dotted, "dir"), Err(GenerateError::ProviderParseError(Descriptor::CargoToml))));
    assert_eq!(
        read_manifest(&format!("a = {}", "[".repeat(MAX_DEPTH))),
        Err("tables and arrays nest too deep".to_string())
    );
}

#[test]
fn lockfile_that_is_not_plain_is_a_parse_error() {
    assert!(reads_lockfile(LOCKFILE));
    assert!(reads_lockfile(""));
    assert!(!reads_lockfile("# é\n"));
    assert!(!reads_lockfile("name = \"a\\u00e9\"\n"));
    assert!(!reads_lockfile(&format!("a = {}", "[".repeat(MAX_DEPTH))));
    let checksum = format!("0é{}", "0".repeat(61));
    let text = format!("[[package]]\nname = \"a\"\nversion = \"1.0.0\"\nchecksum = \"{}\"\n", checksum);
    assert_eq!(read_lockfile(&text), Err("a character beyond ASCII, or a backslash".to_string()));
    let escaped = "[[package]]\nname = \"a\"\nversion = \"1.0.0\"\nchecksum = \"0\\u00e90000000000000000000000000000000000000000000000000000000000000\"\n";
    assert_eq!(read_lockfile(escaped), Err("a character beyond ASCII, or a backslash".to_string()));
    let project = tree(vec![file(&["Cargo.toml"], MANIFEST), file(&["Cargo.lock"], &text), file(&["src", "main.rs"], "")]);
    assert!(matches!(RustProvider::provide(&project, "dir"), Err(GenerateError::ProviderParseError(Descriptor::CargoLock))));
    let good = "[[package]]\nname = \"a\"\nversion = \"1.0.0\"\nchecksum = \"0000000000000000000000000000000000000000000000000000000000000000\"\n";
    assert_eq!(read_lockfile(good), Ok(CargoLock { packages: vec![locked("a", &[])] }));
}

#[test]
fn parser_says_what_is_wrong() {
    let words = read_manifest("[package\nname = ").unwrap_err();
    assert!(words.contains("line 1"), "{}", words);
    let words = read_lockfile("[[package]]\nname = 3\n").unwrap_err();
    assert!(!words.is_empty());
    let broken = tree(vec![file(&["Cargo.toml"], "[package\nname = ")]);
    assert!(RustProvider::explain(&broken).unwrap().contains("line 1"));
    let unreadable = tree(vec![directory(&["Cargo.toml"])]);
    assert_eq!(RustProvider::explain(&unreadable), Some("the file cannot be read".to_string()));
    let locked_badly = tree(vec![file(&["Cargo.toml"], MANIFEST), file(&["Cargo.lock"], "name = \"é\"")]);
    assert_eq!(
        RustProvider::explain(&locked_badly),
        Some("a character beyond ASCII, or a backslash".to_string())
    );
    let deep = tree(vec![file(&["Cargo.toml"], &format!("a = {}", "[".repeat(MAX_DEPTH)))]);
    assert_eq!(RustProvider::explain(&deep), Some("tables and arrays nest too deep".to_string()));
    let good = tree(vec![file(&["Cargo.toml"], MANIFEST), file(&["Cargo.lock"], LOCKFILE)]);
    assert_eq!(RustProvider::explain(&good), None);
    assert_eq!(RustProvider::explain(&tree(vec![file(&["Cargo.toml"], MANIFEST)])), None);
}
