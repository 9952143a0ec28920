//! Recognising the license of a project from the text of its license file.

use crate::error::{GenerateError, LicenseFile, Unread};
use crate::tree::{at_root, content_at, present, root_path, SourceTree, TreeView};
use vstd::prelude::*;

verus! {

/// The least score that is not trusted: nine tenths, as the bits of a
/// single-precision number.
pub const CONFIDENCE_THRESHOLD: u32 = 0x3F66_6666;

/// The bits of positive infinity, the greatest single-precision number.
pub const GREATEST_SCORE: u32 = 0x7F80_0000;

/// The bits of one, the score of a text that matches in full.
pub const FULL_SCORE: u32 = 0x3F80_0000;

/// The score is a number from 0 to 1.
pub open spec fn in_range(score: u32) -> bool {
    score <= FULL_SCORE
}

/// What a [`LicenseMatch`] says.
pub struct MatchView {
    pub name: Seq<char>,
    pub score: u32,
}

/// The license of the corpus that a text comes closest to.
#[derive(Debug, PartialEq, Clone)]
pub struct LicenseMatch {
    /// The identifier of the license.
    pub name: String,
    /// How close the text comes, from 0 to 1, as the bits of a
    /// single-precision number.
    pub score: u32,
}

impl View for LicenseMatch {
    type V = MatchView;

    open spec fn view(&self) -> MatchView {
        MatchView { name: self.name@, score: self.score }
    }
}

/// The score is a number above the threshold. Positive numbers are ordered
/// as their bits are; negative numbers and what is no number have bits above
/// those of infinity.
pub open spec fn confident(score: u32) -> bool {
    CONFIDENCE_THRESHOLD < score <= GREATEST_SCORE
}

/// The license that a match is accepted as: its name where the score is
/// confident, and none otherwise.
pub open spec fn accepted(found: MatchView) -> Option<Seq<char>> {
    if confident(found.score) {
        Some(found.name)
    } else {
        None
    }
}

impl LicenseMatch {
    /// The license that the match is accepted as.
    pub fn accept(self) -> (license: Option<String>)
        ensures
            license.deep_view() == accepted(self@),
    {
        if CONFIDENCE_THRESHOLD < self.score && self.score <= GREATEST_SCORE {
            Some(self.name)
        } else {
            None
        }
    }
}

/// The most characters that a text may hold to be compared. The comparison
/// counts the pairs of words of a text in 32 bits, after it has rewritten
/// the text, which can make it several times as long, and it adds two such
/// counts in the width of an address, which may be 32 bits too. A text within
/// this bound stays well below where those counts run over.
pub const LONGEST_TEXT: usize = 16_777_216;

/// What a [`License`] says.
pub struct LicenseView {
    pub name: Seq<char>,
    pub text: Seq<char>,
}

/// A license that texts are held against: its identifier and its text.
#[derive(Debug, PartialEq, Clone)]
pub struct License {
    pub name: String,
    pub text: String,
}

impl View for License {
    type V = LicenseView;

    open spec fn view(&self) -> LicenseView {
        LicenseView { name: self.name@, text: self.text@ }
    }
}

/// What the licenses of a corpus say.
pub open spec fn corpus_view(corpus: Seq<License>) -> Seq<LicenseView> {
    Seq::new(corpus.len(), |i: int| corpus[i]@)
}

/// The text is short enough to be compared.
pub open spec fn fits(text: Seq<char>) -> bool {
    text.len() <= LONGEST_TEXT
}

/// The corpus can be used: it holds a license, and the text of each of its
/// licenses is short enough to be compared.
pub open spec fn usable(corpus: Seq<LicenseView>) -> bool {
    corpus.len() > 0 && forall|i: int| 0 <= i < corpus.len() ==> fits((#[trigger] corpus[i]).text)
}

/// `name` is the identifier of a license of the corpus.
pub open spec fn known(corpus: Seq<LicenseView>, name: Seq<char>) -> bool {
    exists|i: int| 0 <= i < corpus.len() && (#[trigger] corpus[i]).name == name
}

/// What `text` may be recognised as: what some match with a license of the
/// corpus is accepted as, and nothing where the text is too long to be
/// compared.
pub open spec fn may_detect(corpus: Seq<LicenseView>, text: Seq<char>, detected: Option<Seq<char>>) -> bool {
    if fits(text) {
        exists|found: MatchView|
            known(corpus, found.name) && in_range(found.score) && detected == #[trigger] accepted(found)
    } else {
        detected is None
    }
}

/// Builds a store of `askalono` with `Store::new` and, for each license of
/// the corpus, `Store::add_license` on its name and the `TextData` of its
/// text; compares `text` with every license of the store with
/// `Store::analyze`, and hands back the name and the score of the closest.
/// The corpus must hold a license, since the first of the matches is taken,
/// and every text must be short, so that no count of words runs over. Not
/// proved: that the name is one of the corpus, and that the score is a
/// number from 0 to 1, which it is as twice the count of what two texts
/// share over the sum of what they hold. Which of two equally close licenses
/// comes back is open, so nothing else is claimed.
#[verifier::external_body]
fn closest(corpus: &Vec<License>, text: &str) -> (found: LicenseMatch)
    requires
        usable(corpus_view(corpus@)),
        fits(text@),
    ensures
        known(corpus_view(corpus@), found.name@),
        in_range(found.score),
{
    let mut store = askalono::Store::new();
    for license in corpus.iter() {
        store.add_license(license.name.clone(), askalono::TextData::from(license.text.as_str()));
    }
    let found = store.analyze(&askalono::TextData::from(text));
    LicenseMatch { name: found.name.to_owned(), score: found.score.to_bits() }
}

/// Whether the text is short enough to be compared.
pub fn text_fits(text: &str) -> (r: bool)
    ensures
        r == fits(text@),
{
    text.unicode_len() <= LONGEST_TEXT
}

/// Whether the corpus can be used.
pub fn is_usable(corpus: &Vec<License>) -> (r: bool)
    ensures
        r == usable(corpus_view(corpus@)),
{
    if corpus.len() == 0 {
        return false;
    }
    let mut i: usize = 0;
    while i < corpus.len()
        invariant
            i <= corpus.len(),
            forall|j: int| 0 <= j < i ==> fits((#[trigger] corpus_view(corpus@)[j]).text),
        decreases corpus.len() - i,
    {
        if !text_fits(corpus[i].text.as_str()) {
            assert(!fits(corpus_view(corpus@)[i as int].text));
            return false;
        }
        i += 1;
    }
    true
}

/// The license of `corpus` that `text` comes closest to, with its score;
/// none where the text is too long to be compared. Fails where the corpus
/// cannot be used, and there only.
pub fn classify(corpus: &Vec<License>, text: &str) -> (r: Result<Option<LicenseMatch>, GenerateError>)
    ensures
        !usable(corpus_view(corpus@)) ==> r == Err::<Option<LicenseMatch>, GenerateError>(
            GenerateError::InvalidCorpus,
        ),
        usable(corpus_view(corpus@)) ==> r is Ok,
        usable(corpus_view(corpus@)) && !fits(text@) ==> r->Ok_0 is None,
        usable(corpus_view(corpus@)) && fits(text@) ==> r->Ok_0 is Some && known(
            corpus_view(corpus@),
            r->Ok_0->Some_0.name@,
        ) && in_range(r->Ok_0->Some_0.score),
{
    if !is_usable(corpus) {
        Err(GenerateError::InvalidCorpus)
    } else if !text_fits(text) {
        Ok(None)
    } else {
        Ok(Some(closest(corpus, text)))
    }
}

/// The license that `text` is recognised as, by `corpus`: what the closest
/// license of the corpus is accepted as, which is its name where the score
/// is confident, and none otherwise. Fails where the corpus cannot be used,
/// and there only.
pub fn detect(corpus: &Vec<License>, text: &str) -> (r: Result<Option<String>, GenerateError>)
    ensures
        !usable(corpus_view(corpus@)) ==> r == Err::<Option<String>, GenerateError>(
            GenerateError::InvalidCorpus,
        ),
        usable(corpus_view(corpus@)) ==> r is Ok && may_detect(
            corpus_view(corpus@),
            text@,
            r->Ok_0.deep_view(),
        ),
{
    match classify(corpus, text) {
        Ok(Some(found)) => {
            let ghost closest = found@;
            let license = found.accept();
            assert(license.deep_view() == accepted(closest));
            Ok(license)
        },
        Ok(None) => Ok(None),
        Err(e) => Err(e),
    }
}

/// The name of a license file.
pub open spec fn license_name(file: LicenseFile) -> Seq<char> {
    match file {
        LicenseFile::License => "LICENSE"@,
        LicenseFile::LicenseMd => "LICENSE.md"@,
        LicenseFile::Copying => "COPYING"@,
    }
}

/// The text of the license file `file`, with its name; a failure that names
/// the file where it cannot be read.
pub open spec fn candidate_at(tree: TreeView, file: LicenseFile) -> Result<
    Option<(Seq<char>, Seq<char>)>,
    GenerateError,
> {
    match content_at(tree, at_root(license_name(file))) {
        Some(text) => Ok(Some((text, license_name(file)))),
        None => Err(GenerateError::IOError(Unread::LicenseText(file))),
    }
}

/// The license text of a tree, with the name of its file: that of the first
/// of `LICENSE`, `LICENSE.md` and `COPYING` that the root holds, and none
/// where it holds none of them.
pub open spec fn license_candidate(tree: TreeView) -> Result<Option<(Seq<char>, Seq<char>)>, GenerateError> {
    if present(tree, at_root("LICENSE"@)) {
        candidate_at(tree, LicenseFile::License)
    } else if present(tree, at_root("LICENSE.md"@)) {
        candidate_at(tree, LicenseFile::LicenseMd)
    } else if present(tree, at_root("COPYING"@)) {
        candidate_at(tree, LicenseFile::Copying)
    } else {
        Ok(None)
    }
}

/// What a license text with the name of its file, or the failure to read
/// one, says.
pub open spec fn candidate_answer(r: Result<Option<(String, String)>, GenerateError>) -> Result<
    Option<(Seq<char>, Seq<char>)>,
    GenerateError,
> {
    match r {
        Ok(Some((text, name))) => Ok(Some((text@, name@))),
        Ok(None) => Ok(None),
        Err(e) => Err(e),
    }
}

/// The name of the license file `file`.
pub fn name_of(file: LicenseFile) -> (name: &'static str)
    ensures
        name@ == license_name(file),
{
    match file {
        LicenseFile::License => "LICENSE",
        LicenseFile::LicenseMd => "LICENSE.md",
        LicenseFile::Copying => "COPYING",
    }
}

/// The text of the license file `file`, with its name.
fn read_candidate(tree: &SourceTree, file: LicenseFile) -> (r: Result<
    Option<(String, String)>,
    GenerateError,
>)
    ensures
        candidate_answer(r) == candidate_at(tree@, file),
{
    let name = name_of(file);
    match tree.read(&root_path(name)) {
        Some(text) => Ok(Some((text.clone(), name.to_owned()))),
        None => Err(GenerateError::IOError(Unread::LicenseText(file))),
    }
}

/// The license text of `tree`, with the name of its file.
pub fn find_license(tree: &SourceTree) -> (r: Result<Option<(String, String)>, GenerateError>)
    ensures
        candidate_answer(r) == license_candidate(tree@),
{
    if tree.has(&root_path("LICENSE")) {
        read_candidate(tree, LicenseFile::License)
    } else if tree.has(&root_path("LICENSE.md")) {
        read_candidate(tree, LicenseFile::LicenseMd)
    } else if tree.has(&root_path("COPYING")) {
        read_candidate(tree, LicenseFile::Copying)
    } else {
        Ok(None)
    }
}

} // verus!
