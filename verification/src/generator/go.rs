//! Projects built as Go modules.

use crate::error::{Descriptor, GenerateError, Unread};
use crate::generator::{apps_named, make_app, Facts, Generator};
use crate::name_map::NameMap;
use crate::snap::{App, AppView, Part, PartView};
use crate::text::{
    contains, drop_end, lines_of, occurs_in, push_text, split_lines, str_ends_with, str_starts_with,
    tail, to_chars, without_end,
};
use crate::tree::{
    at_root, content_at, present, root_path, same_but_for_text, Entry, EntryView, SourceTree, TreeView,
};
use vstd::prelude::*;

verus! {

/// What a [`ModFile`] says.
pub struct ModFileView {
    pub go_version: Seq<char>,
    pub import_path: Seq<char>,
}

/// What the generator reads of a module file.
#[derive(Debug, PartialEq, Clone, Default)]
pub struct ModFile {
    /// The version of the toolchain.
    pub go_version: String,
    /// The path under which the module is imported.
    pub import_path: String,
}

impl View for ModFile {
    type V = ModFileView;

    open spec fn view(&self) -> ModFileView {
        ModFileView { go_version: self.go_version@, import_path: self.import_path@ }
    }
}

/// What a line says after its keyword: the line without `lead`, the
/// keyword and the blank after it, or the whole line where it does not
/// begin so.
pub open spec fn value_of(line: Seq<char>, lead: Seq<char>) -> Seq<char> {
    if lead.is_prefix_of(line) {
        line.skip(lead.len() as int)
    } else {
        line
    }
}

/// What the first of `lines` that begins with `keyword` says after it, and
/// the empty text where no line begins so.
pub open spec fn directive(lines: Seq<Seq<char>>, keyword: Seq<char>, lead: Seq<char>) -> Seq<char>
    decreases lines.len(),
{
    if lines.len() == 0 {
        Seq::empty()
    } else if keyword.is_prefix_of(lines[0]) {
        value_of(lines[0], lead)
    } else {
        directive(lines.skip(1), keyword, lead)
    }
}

/// What the text of a module file says: the import path after the first
/// `module`, the toolchain version after the first `go`.
pub open spec fn parsed_mod(content: Seq<char>) -> ModFileView {
    ModFileView {
        go_version: directive(lines_of(content), "go"@, "go "@),
        import_path: directive(lines_of(content), "module"@, "module "@),
    }
}

/// What the first of `lines` that begins with `keyword` says after it.
fn find_directive(lines: &Vec<String>, keyword: &str, lead: &str) -> (value: String)
    ensures
        value@ == directive(lines.deep_view(), keyword@, lead@),
{
    let ghost all = lines.deep_view();
    let mut i: usize = 0;
    proof {
        assert(all.skip(0) =~= all);
    }
    while i < lines.len()
        invariant
            i <= lines.len(),
            all == lines.deep_view(),
            directive(all, keyword@, lead@) == directive(all.skip(i as int), keyword@, lead@),
        decreases lines.len() - i,
    {
        let line = lines[i].as_str();
        proof {
            assert(all.skip(i as int)[0] == line@);
            assert(all.skip(i as int).skip(1) =~= all.skip(i + 1));
        }
        if str_starts_with(line, keyword) {
            if str_starts_with(line, lead) {
                let n = lead.unicode_len();
                return tail(line, n);
            }
            return line.to_owned();
        }
        i += 1;
    }
    String::new()
}

impl ModFile {
    /// What the text of a module file says.
    pub fn parse(content: &str) -> (mod_file: ModFile)
        ensures
            mod_file@ == parsed_mod(content@),
    {
        let lines = split_lines(content);
        ModFile {
            go_version: find_directive(&lines, "go", "go "),
            import_path: find_directive(&lines, "module", "module "),
        }
    }

    /// What the module file at the root of `tree` says; a failure where it
    /// cannot be read.
    pub fn load(tree: &SourceTree) -> (r: Result<ModFile, GenerateError>)
        ensures
            match content_at(tree@, at_root("go.mod"@)) {
                Some(text) => r is Ok && r->Ok_0@ == parsed_mod(text),
                None => r == Err::<ModFile, GenerateError>(GenerateError::ProviderParseError(Descriptor::GoMod)),
            },
    {
        match tree.read(&root_path("go.mod")) {
            Some(text) => Ok(ModFile::parse(text.as_str())),
            None => Err(GenerateError::ProviderParseError(Descriptor::GoMod)),
        }
    }
}

/// The entry is a Go source file.
pub open spec fn is_go_source(entry: EntryView) -> bool {
    entry.is_file && entry.path.len() > 0 && ".go"@.is_suffix_of(entry.path.last())
}

/// The text declares the main package and its main function.
pub open spec fn has_main(content: Seq<char>) -> bool {
    occurs_in(content, "package main"@) && occurs_in(content, "func main()"@)
}

/// The entry is a Go source file that makes an executable.
pub open spec fn is_executable(entry: EntryView) -> bool {
    is_go_source(entry) && entry.content is Some && has_main(entry.content->Some_0)
}

/// The name of the executable that a Go source file makes: the name of the
/// file without `.go`.
pub open spec fn executable_name(entry: EntryView) -> Seq<char> {
    drop_end(entry.path.last(), 3)
}

/// Some Go source file among the first `upto` entries could not be read.
pub open spec fn unreadable_among(tree: TreeView, upto: int) -> bool {
    exists|i: int|
        0 <= i < upto && i < tree.entries.len() && is_go_source(#[trigger] tree.entries[i])
            && tree.entries[i].content is None
}

/// The entry is a Go source file that could not be read.
pub open spec fn is_unreadable(entry: EntryView) -> bool {
    is_go_source(entry) && entry.content is None
}

/// The position of the first Go source file, from the entry at `from` on,
/// that could not be read; the number of entries where there is none.
pub open spec fn first_unreadable(tree: TreeView, from: int) -> int
    decreases tree.entries.len() - from,
{
    if from < 0 || from >= tree.entries.len() {
        tree.entries.len() as int
    } else if is_unreadable(tree.entries[from]) {
        from
    } else {
        first_unreadable(tree, from + 1)
    }
}

/// The names of the executables that the entries make, in the order of the
/// entries.
pub open spec fn executables(entries: Seq<EntryView>) -> Seq<Seq<char>> {
    entries.filter(|e: EntryView| is_executable(e)).map_values(|e: EntryView| executable_name(e))
}

/// The executables of a Go project: a failure where the walk through the
/// tree was cut short, or a Go source file could not be read, which names
/// the first such file; and else the names of the executables, which may be
/// none.
pub open spec fn go_executables(tree: TreeView) -> Result<Seq<Seq<char>>, GenerateError> {
    if !tree.complete {
        Err(GenerateError::IOError(Unread::Walk))
    } else if unreadable_among(tree, tree.entries.len() as int) {
        Err(GenerateError::IOError(Unread::Source(first_unreadable(tree, 0) as usize)))
    } else {
        Ok(executables(tree.entries))
    }
}

/// With one more entry the executables are those before, and after them the
/// executable that the entry makes, where it makes one.
pub proof fn lemma_executables_push(seen: Seq<EntryView>, entry: EntryView)
    ensures
        executables(seen.push(entry)) == if is_executable(entry) {
            executables(seen).push(executable_name(entry))
        } else {
            executables(seen)
        },
{
    Seq::lemma_filter_push(seen, entry, |e: EntryView| is_executable(e));
    let kept = seen.filter(|e: EntryView| is_executable(e));
    assert(kept.push(entry).map_values(|e: EntryView| executable_name(e)) =~= kept.map_values(
        |e: EntryView| executable_name(e),
    ).push(executable_name(entry)));
}

/// What a list of names, or the failure to list them, says.
pub open spec fn names_answer(r: Result<Vec<String>, GenerateError>) -> Result<Seq<Seq<char>>, GenerateError> {
    match r {
        Ok(names) => Ok(names.deep_view()),
        Err(e) => Err(e),
    }
}

/// Whether the entry is a Go source file.
pub fn is_go_entry(entry: &Entry) -> (r: bool)
    ensures
        r == is_go_source(entry@),
{
    entry.is_file && entry.path.len() > 0 && str_ends_with(
        entry.path[entry.path.len() - 1].as_str(),
        ".go",
    )
}

/// Whether the text declares the main package and its main function.
pub fn declares_main(content: &str) -> (r: bool)
    ensures
        r == has_main(content@),
{
    let text = to_chars(content);
    contains(&text, &to_chars("package main")) && contains(&text, &to_chars("func main()"))
}

/// The names of the executables of the Go project `tree`.
pub fn find_executables(tree: &SourceTree) -> (r: Result<Vec<String>, GenerateError>)
    ensures
        names_answer(r) == go_executables(tree@),
{
    if !tree.complete {
        return Err(GenerateError::IOError(Unread::Walk));
    }
    let mut names: Vec<String> = Vec::new();
    let mut i: usize = 0;
    proof {
        reveal(Seq::filter);
        assert(tree@.entries.take(0) =~= Seq::<EntryView>::empty());
        assert(names.deep_view() =~= executables(tree@.entries.take(0)));
    }
    while i < tree.entries.len()
        invariant
            tree.complete,
            i <= tree.entries.len(),
            !unreadable_among(tree@, i as int),
            first_unreadable(tree@, 0) == first_unreadable(tree@, i as int),
            names.deep_view() == executables(tree@.entries.take(i as int)),
        decreases tree.entries.len() - i,
    {
        let entry = &tree.entries[i];
        proof {
            assert(entry@ == tree@.entries[i as int]);
            assert(tree@.entries.take(i + 1) =~= tree@.entries.take(i as int).push(entry@));
            lemma_executables_push(tree@.entries.take(i as int), entry@);
        }
        if is_go_entry(entry) {
            match &entry.content {
                None => {
                    proof {
                        assert(is_unreadable(tree@.entries[i as int]));
                        assert(unreadable_among(tree@, tree@.entries.len() as int));
                    }
                    return Err(GenerateError::IOError(Unread::Source(i)));
                },
                Some(content) => {
                    if declares_main(content.as_str()) {
                        proof {
                            reveal_strlit(".go");
                        }
                        let name = without_end(entry.path[entry.path.len() - 1].as_str(), 3);
                        push_text(&mut names, name);
                    }
                },
            }
        }
        i += 1;
    }
    proof {
        assert(tree@.entries.take(i as int) =~= tree@.entries);
    }
    Ok(names)
}

/// The part of a Go project.
pub open spec fn go_part(import_path: Seq<char>) -> PartView {
    PartView {
        plugin: "go"@,
        source: "."@,
        build_packages: Some(seq!["gcc"@, "libc6-dev"@]),
        stage_packages: None,
        go_import_path: Some(import_path),
        python_version: None,
    }
}

/// The apps of a Go project: one for each name among its executables.
pub open spec fn go_apps(tree: TreeView) -> Result<Map<Seq<char>, AppView>, GenerateError> {
    match go_executables(tree) {
        Ok(names) => Ok(apps_named(names.to_set())),
        Err(e) => Err(e),
    }
}

/// The answers for the Go project `tree`, named `source_name`, with the
/// module file `mod_file`: no metadata, one part under the name of the
/// project, and the apps of the tree.
pub open spec fn go_facts(tree: TreeView, source_name: Seq<char>, mod_file: ModFileView) -> Facts {
    Facts {
        name: Ok(None),
        version: Ok(None),
        summary: Ok(None),
        description: Ok(None),
        license: Ok(None),
        parts: Ok(Map::<Seq<char>, PartView>::empty().insert(source_name, go_part(mod_file.import_path))),
        apps: go_apps(tree),
    }
}

/// The tree has a module file at its root.
pub open spec fn is_go(tree: TreeView) -> bool {
    present(tree, at_root("go.mod"@))
}

/// What providing for the Go project `tree` comes to: the answers of its
/// generator, or a failure where the module file cannot be read.
pub open spec fn go_provided(tree: TreeView, source_name: Seq<char>) -> Result<Facts, GenerateError> {
    match content_at(tree, at_root("go.mod"@)) {
        Some(text) => Ok(go_facts(tree, source_name, parsed_mod(text))),
        None => Err(GenerateError::ProviderParseError(Descriptor::GoMod)),
    }
}

/// What makes a tree a Go project.
pub struct GoProvider {}

/// What is known of a Go project.
pub struct GoGenerator<'a> {
    mod_file: ModFile,
    tree: &'a SourceTree,
    source_name: String,
}

impl GoProvider {
    /// Whether the tree is a Go project.
    pub fn can_provide(tree: &SourceTree) -> (r: bool)
        ensures
            r == is_go(tree@),
    {
        tree.has(&root_path("go.mod"))
    }

    /// The generator for the Go project `tree`, named `source_name`.
    pub fn provide<'a>(tree: &'a SourceTree, source_name: &str) -> (r: Result<
        GoGenerator<'a>,
        GenerateError,
    >)
        ensures
            match r {
                Ok(generator) => go_provided(tree@, source_name@) == Ok::<Facts, GenerateError>(
                    generator.facts(),
                ),
                Err(e) => go_provided(tree@, source_name@) == Err::<Facts, GenerateError>(e),
            },
    {
        let mod_file = ModFile::load(tree)?;
        Ok(GoGenerator { mod_file, tree, source_name: source_name.to_owned() })
    }
}

impl<'a> Generator for GoGenerator<'a> {
    closed spec fn facts(&self) -> Facts {
        go_facts(self.tree@, self.source_name@, self.mod_file@)
    }

    fn name(&self) -> (r: Result<Option<String>, GenerateError>) {
        Ok(None)
    }

    fn version(&self) -> (r: Result<Option<String>, GenerateError>) {
        Ok(None)
    }

    fn summary(&self) -> (r: Result<Option<String>, GenerateError>) {
        Ok(None)
    }

    fn description(&self) -> (r: Result<Option<String>, GenerateError>) {
        Ok(None)
    }

    fn license(&self) -> (r: Result<Option<String>, GenerateError>) {
        Ok(None)
    }

    fn parts(&self) -> (r: Result<NameMap<Part>, GenerateError>) {
        let mut build_packages: Vec<String> = Vec::new();
        assert(build_packages.deep_view() =~= Seq::<Seq<char>>::empty());
        push_text(&mut build_packages, "gcc".to_owned());
        push_text(&mut build_packages, "libc6-dev".to_owned());
        assert(build_packages.deep_view() =~= seq!["gcc"@, "libc6-dev"@]);
        let part = Part {
            plugin: "go".to_owned(),
            source: ".".to_owned(),
            build_packages: Some(build_packages),
            stage_packages: None,
            go_import_path: Some(self.mod_file.import_path.clone()),
            python_version: None,
        };
        assert(part@ == go_part(self.mod_file@.import_path));
        let mut parts = NameMap::new();
        parts.insert(self.source_name.clone(), part);
        Ok(parts)
    }

    fn apps(&self) -> (r: Result<NameMap<App>, GenerateError>) {
        let executables = find_executables(self.tree)?;
        let ghost names = executables.deep_view();
        let mut apps: NameMap<App> = NameMap::new();
        let mut i: usize = 0;
        proof {
            assert(apps@ =~= apps_named(names.take(0).to_set()));
        }
        while i < executables.len()
            invariant
                i <= executables.len(),
                names == executables.deep_view(),
                apps.ordered(),
                apps@ == apps_named(names.take(i as int).to_set()),
            decreases executables.len() - i,
        {
            let name = executables[i].clone();
            let app = make_app(name.as_str());
            proof {
                let seen = names.take(i as int);
                let next = names.take(i + 1);
                assert(name@ == names[i as int]);
                assert(next =~= seen.push(name@));
                assert(next.to_set() =~= seen.to_set().insert(name@)) by {
                    assert forall|n: Seq<char>| next.contains(n) <==> seen.contains(n) || n == name@ by {
                        if seen.contains(n) {
                            let k = choose|k: int| 0 <= k < seen.len() && seen[k] == n;
                            assert(next[k] == n);
                        }
                        if n == name@ {
                            assert(next[i as int] == n);
                        }
                        if next.contains(n) {
                            let k = choose|k: int| 0 <= k < next.len() && next[k] == n;
                            if k < i {
                                assert(seen[k] == n);
                            }
                        }
                    }
                }
                assert(apps@.insert(name@, app@) =~= apps_named(next.to_set()));
            }
            apps.insert(name, app);
            i += 1;
        }
        proof {
            assert(names.take(i as int) =~= names);
        }
        Ok(apps)
    }
}

/// The executables of a Go project are the same in two trees that differ
/// only in the text of entries that are no Go source files.
pub proof fn lemma_go_executables_frame(a: TreeView, b: TreeView, read: spec_fn(Seq<Seq<char>>) -> bool)
    requires
        same_but_for_text(a, b, read),
        forall|path: Seq<Seq<char>>| path.len() > 0 && ".go"@.is_suffix_of(path.last()) ==> read(path),
    ensures
        go_executables(a) == go_executables(b),
{
    let n = a.entries.len() as int;
    assert forall|upto: int| unreadable_among(a, upto) == unreadable_among(b, upto) by {
        if unreadable_among(a, upto) {
            let i = choose|i: int|
                0 <= i < upto && i < a.entries.len() && is_go_source(#[trigger] a.entries[i])
                    && a.entries[i].content is None;
            assert(is_go_source(b.entries[i]) && b.entries[i].content is None);
        }
        if unreadable_among(b, upto) {
            let i = choose|i: int|
                0 <= i < upto && i < b.entries.len() && is_go_source(#[trigger] b.entries[i])
                    && b.entries[i].content is None;
            assert(is_go_source(a.entries[i]) && a.entries[i].content is None);
        }
    }
    lemma_first_unreadable_frame(a, b, read, 0);
    lemma_executables_frame(a, b, read, n);
    assert(a.entries.take(n) =~= a.entries);
    assert(b.entries.take(n) =~= b.entries);
}

/// The first file that could not be read is the same in two such trees.
proof fn lemma_first_unreadable_frame(
    a: TreeView,
    b: TreeView,
    read: spec_fn(Seq<Seq<char>>) -> bool,
    from: int,
)
    requires
        same_but_for_text(a, b, read),
        forall|path: Seq<Seq<char>>| path.len() > 0 && ".go"@.is_suffix_of(path.last()) ==> read(path),
        0 <= from,
    ensures
        first_unreadable(a, from) == first_unreadable(b, from),
    decreases a.entries.len() - from,
{
    if from < a.entries.len() {
        assert(is_go_source(a.entries[from]) == is_go_source(b.entries[from]));
        if is_go_source(a.entries[from]) {
            assert(a.entries[from].content == b.entries[from].content);
        }
        lemma_first_unreadable_frame(a, b, read, from + 1);
    }
}

/// The first `upto` entries of two such trees make the same executables.
proof fn lemma_executables_frame(a: TreeView, b: TreeView, read: spec_fn(Seq<Seq<char>>) -> bool, upto: int)
    requires
        same_but_for_text(a, b, read),
        forall|path: Seq<Seq<char>>| path.len() > 0 && ".go"@.is_suffix_of(path.last()) ==> read(path),
        0 <= upto <= a.entries.len(),
    ensures
        executables(a.entries.take(upto)) == executables(b.entries.take(upto)),
    decreases upto,
{
    if upto == 0 {
        assert(a.entries.take(0) =~= b.entries.take(0));
    } else {
        lemma_executables_frame(a, b, read, upto - 1);
        let x = a.entries[upto - 1];
        let y = b.entries[upto - 1];
        assert(a.entries.take(upto) =~= a.entries.take(upto - 1).push(x));
        assert(b.entries.take(upto) =~= b.entries.take(upto - 1).push(y));
        lemma_executables_push(a.entries.take(upto - 1), x);
        lemma_executables_push(b.entries.take(upto - 1), y);
        assert(is_executable(x) == is_executable(y));
        assert(executable_name(x) == executable_name(y));
    }
}

} // verus!
