//! A source tree as the generators see it: the entries below the project
//! root, each with its path, and with its text where it was read.

use crate::text::same_text;
use vstd::prelude::*;

verus! {

/// What an [`Entry`] says.
pub struct EntryView {
    pub path: Seq<Seq<char>>,
    pub is_file: bool,
    pub content: Option<Seq<char>>,
}

/// One entry below the project root.
#[derive(Debug, PartialEq, Clone)]
pub struct Entry {
    /// The names that lead from the root to the entry, its own name last.
    pub path: Vec<String>,
    /// Whether the entry is a regular file.
    pub is_file: bool,
    /// The text of the entry; `None` for what is no file, and for a file
    /// that could not be read as text.
    pub content: Option<String>,
}

impl View for Entry {
    type V = EntryView;

    open spec fn view(&self) -> EntryView {
        EntryView {
            path: self.path.deep_view(),
            is_file: self.is_file,
            content: self.content.deep_view(),
        }
    }
}

/// What a [`SourceTree`] says.
pub struct TreeView {
    pub name: Seq<char>,
    pub entries: Seq<EntryView>,
    pub complete: bool,
}

/// A project directory.
#[derive(Debug, PartialEq, Clone)]
pub struct SourceTree {
    /// The name of the directory itself.
    pub name: String,
    /// The entries below the root, at any depth, in the order in which the
    /// tree was walked.
    pub entries: Vec<Entry>,
    /// Whether the walk reached every entry.
    pub complete: bool,
}

impl View for SourceTree {
    type V = TreeView;

    open spec fn view(&self) -> TreeView {
        TreeView {
            name: self.name@,
            entries: Seq::new(self.entries@.len(), |i: int| self.entries@[i]@),
            complete: self.complete,
        }
    }
}

/// The tree has an entry at `path`.
pub open spec fn present(tree: TreeView, path: Seq<Seq<char>>) -> bool {
    exists|i: int| 0 <= i < tree.entries.len() && (#[trigger] tree.entries[i]).path == path
}

/// The first entry of the tree at `path` is entry `i`.
pub open spec fn first_at(tree: TreeView, path: Seq<Seq<char>>, i: int) -> bool {
    &&& 0 <= i < tree.entries.len()
    &&& tree.entries[i].path == path
    &&& forall|j: int| 0 <= j < i ==> (#[trigger] tree.entries[j]).path != path
}

/// The text of the first entry at `path`; `None` where the tree has no entry
/// there or the entry has no text.
pub open spec fn content_at(tree: TreeView, path: Seq<Seq<char>>) -> Option<Seq<char>> {
    if present(tree, path) {
        tree.entries[choose|i: int| first_at(tree, path, i)].content
    } else {
        None
    }
}

/// The path of an entry named `name` directly below the root.
pub open spec fn at_root(name: Seq<char>) -> Seq<Seq<char>> {
    seq![name]
}

/// The path of an entry named `name` in the directory `dir` below the root.
pub open spec fn within(dir: Seq<char>, name: Seq<char>) -> Seq<Seq<char>> {
    seq![dir, name]
}

/// At most one position is the first at a path.
pub proof fn lemma_first_at_unique(tree: TreeView, path: Seq<Seq<char>>, i: int, j: int)
    requires
        first_at(tree, path, i),
        first_at(tree, path, j),
    ensures
        i == j,
{
}

/// Two trees with the same name and the same entries, but for the text of
/// entries at paths that `read` leaves out.
pub open spec fn same_but_for_text(a: TreeView, b: TreeView, read: spec_fn(Seq<Seq<char>>) -> bool) -> bool {
    &&& a.name == b.name
    &&& a.complete == b.complete
    &&& a.entries.len() == b.entries.len()
    &&& forall|i: int|
        #![trigger a.entries[i]]
        #![trigger b.entries[i]]
        0 <= i < a.entries.len() ==> {
            &&& a.entries[i].path == b.entries[i].path
            &&& a.entries[i].is_file == b.entries[i].is_file
            &&& read(a.entries[i].path) ==> a.entries[i].content == b.entries[i].content
        }
}

/// Such trees have entries at the same paths, and the same text at each
/// path that is read.
pub proof fn lemma_same_lookup(
    a: TreeView,
    b: TreeView,
    read: spec_fn(Seq<Seq<char>>) -> bool,
    path: Seq<Seq<char>>,
)
    requires
        same_but_for_text(a, b, read),
    ensures
        present(a, path) == present(b, path),
        read(path) ==> content_at(a, path) == content_at(b, path),
{
    if present(a, path) {
        let i = choose|i: int| 0 <= i < a.entries.len() && (#[trigger] a.entries[i]).path == path;
        assert(b.entries[i].path == path);
    }
    if present(b, path) {
        let i = choose|i: int| 0 <= i < b.entries.len() && (#[trigger] b.entries[i]).path == path;
        assert(a.entries[i].path == path);
        lemma_first_exists(a, path, i);
        let k = choose|k: int| first_at(a, path, k);
        assert(first_at(b, path, k)) by {
            assert forall|j: int| 0 <= j < k implies (#[trigger] b.entries[j]).path != path by {
                assert(a.entries[j].path != path);
            }
        }
        let m = choose|m: int| first_at(b, path, m);
        lemma_first_at_unique(b, path, k, m);
    }
}

/// A tree with an entry at a path has a first entry there.
pub proof fn lemma_first_exists(tree: TreeView, path: Seq<Seq<char>>, i: int)
    requires
        0 <= i < tree.entries.len(),
        tree.entries[i].path == path,
    ensures
        exists|k: int| first_at(tree, path, k),
    decreases i,
{
    if exists|j: int| 0 <= j < i && (#[trigger] tree.entries[j]).path == path {
        let j = choose|j: int| 0 <= j < i && (#[trigger] tree.entries[j]).path == path;
        lemma_first_exists(tree, path, j);
    } else {
        assert(first_at(tree, path, i));
    }
}

/// Whether `a` and `b` are the same path.
pub fn same_path(a: &Vec<String>, b: &Vec<String>) -> (r: bool)
    ensures
        r == (a.deep_view() == b.deep_view()),
{
    if a.len() != b.len() {
        assert(a.deep_view().len() != b.deep_view().len());
        return false;
    }
    let mut k: usize = 0;
    while k < a.len()
        invariant
            a.len() == b.len(),
            k <= a.len(),
            forall|j: int| 0 <= j < k ==> a@[j]@ == b@[j]@,
        decreases a.len() - k,
    {
        if !same_text(a[k].as_str(), b[k].as_str()) {
            assert(a.deep_view()[k as int] != b.deep_view()[k as int]);
            return false;
        }
        k += 1;
    }
    assert(a.deep_view() =~= b.deep_view());
    true
}

/// The path of an entry named `name` directly below the root.
pub fn root_path(name: &str) -> (path: Vec<String>)
    ensures
        path.deep_view() == at_root(name@),
{
    let mut path: Vec<String> = Vec::new();
    path.push(name.to_owned());
    assert(path.deep_view() =~= at_root(name@));
    path
}

/// The path of an entry named `name` in the directory `dir` below the root.
pub fn path_within(dir: &str, name: &str) -> (path: Vec<String>)
    ensures
        path.deep_view() == within(dir@, name@),
{
    let mut path: Vec<String> = Vec::new();
    path.push(dir.to_owned());
    path.push(name.to_owned());
    assert(path.deep_view() =~= within(dir@, name@));
    path
}

impl SourceTree {
    /// The position of the first entry at `path`, if there is one.
    pub fn find(&self, path: &Vec<String>) -> (r: Option<usize>)
        ensures
            match r {
                Some(i) => first_at(self@, path.deep_view(), i as int),
                None => !present(self@, path.deep_view()),
            },
    {
        let mut i: usize = 0;
        while i < self.entries.len()
            invariant
                i <= self.entries.len(),
                forall|j: int| 0 <= j < i ==> (#[trigger] self@.entries[j]).path != path.deep_view(),
            decreases self.entries.len() - i,
        {
            if same_path(&self.entries[i].path, path) {
                return Some(i);
            }
            i += 1;
        }
        None
    }

    /// Whether the tree has an entry at `path`.
    pub fn has(&self, path: &Vec<String>) -> (r: bool)
        ensures
            r == present(self@, path.deep_view()),
    {
        self.find(path).is_some()
    }

    /// The text of the first entry at `path`.
    pub fn read(&self, path: &Vec<String>) -> (r: Option<&String>)
        ensures
            r.deep_view() == content_at(self@, path.deep_view()),
    {
        match self.find(path) {
            Some(i) => {
                proof {
                    let k = choose|k: int| first_at(self@, path.deep_view(), k);
                    lemma_first_at_unique(self@, path.deep_view(), i as int, k);
                }
                self.entries[i].content.as_ref()
            },
            None => None,
        }
    }
}

} // verus!
