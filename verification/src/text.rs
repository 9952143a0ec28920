//! Text as sequences of characters: prefixes, suffixes, occurrences, lines
//! and the dictionary order in which names are kept.

use vstd::prelude::*;

verus! {

/// `needle` stands in `s` at position `at`.
pub open spec fn occurs_at(s: Seq<char>, needle: Seq<char>, at: int) -> bool {
    0 <= at && at + needle.len() <= s.len() && s.subrange(at, at + needle.len()) == needle
}

/// `needle` stands somewhere in `s`.
pub open spec fn occurs_in(s: Seq<char>, needle: Seq<char>) -> bool {
    exists|at: int| occurs_at(s, needle, at)
}

/// `s` without the last `n` characters.
pub open spec fn drop_end(s: Seq<char>, n: nat) -> Seq<char>
    recommends
        n <= s.len(),
{
    s.subrange(0, s.len() - n)
}

/// `s` without the occurrences of `pattern`, found from the left, each
/// search going on behind the occurrence before. An empty pattern occurs
/// nowhere.
pub open spec fn without_all(s: Seq<char>, pattern: Seq<char>) -> Seq<char>
    decreases s.len(),
{
    if pattern.len() == 0 || s.len() < pattern.len() {
        s
    } else if pattern.is_prefix_of(s) {
        without_all(s.skip(pattern.len() as int), pattern)
    } else {
        seq![s[0]] + without_all(s.skip(1), pattern)
    }
}

/// Whether `c` ends a line.
pub open spec fn is_newline(c: char) -> bool {
    c == '\n'
}

/// Whether `c` is white space.
pub open spec fn is_space(c: char) -> bool {
    ||| c == '\u{9}'
    ||| c == '\u{a}'
    ||| c == '\u{b}'
    ||| c == '\u{c}'
    ||| c == '\u{d}'
    ||| c == '\u{20}'
    ||| c == '\u{85}'
    ||| c == '\u{a0}'
    ||| c == '\u{1680}'
    ||| c == '\u{2000}'
    ||| c == '\u{2001}'
    ||| c == '\u{2002}'
    ||| c == '\u{2003}'
    ||| c == '\u{2004}'
    ||| c == '\u{2005}'
    ||| c == '\u{2006}'
    ||| c == '\u{2007}'
    ||| c == '\u{2008}'
    ||| c == '\u{2009}'
    ||| c == '\u{200a}'
    ||| c == '\u{2028}'
    ||| c == '\u{2029}'
    ||| c == '\u{202f}'
    ||| c == '\u{205f}'
    ||| c == '\u{3000}'
}

/// How many characters of white space `s` begins with.
pub open spec fn leading_spaces(s: Seq<char>) -> int
    decreases s.len(),
{
    if s.len() > 0 && is_space(s[0]) {
        1 + leading_spaces(s.skip(1))
    } else {
        0
    }
}

/// How many characters of white space `s` ends with.
pub open spec fn trailing_spaces(s: Seq<char>) -> int
    decreases s.len(),
{
    if s.len() > 0 && is_space(s.last()) {
        1 + trailing_spaces(s.drop_last())
    } else {
        0
    }
}

/// `s` without the white space at its beginning and at its end.
pub open spec fn trimmed(s: Seq<char>) -> Seq<char> {
    let rest = s.skip(leading_spaces(s));
    rest.take(rest.len() - trailing_spaces(rest))
}

/// The position of the first line end in `s`, or the length of `s` where it
/// has none.
pub open spec fn first_newline(s: Seq<char>) -> int
    decreases s.len(),
{
    if s.len() == 0 || is_newline(s[0]) {
        0
    } else {
        1 + first_newline(s.skip(1))
    }
}

/// `line` without the carriage return at its end, if it has one.
pub open spec fn chomp(line: Seq<char>) -> Seq<char> {
    if line.len() > 0 && line.last() == '\r' {
        line.drop_last()
    } else {
        line
    }
}

/// The lines of `s`. A line ends before a line end, and loses a carriage
/// return that stands before that line end. What follows the last line end
/// is a line as it stands, unless it is empty.
pub open spec fn lines_of(s: Seq<char>) -> Seq<Seq<char>>
    decreases s.len(),
{
    if s.len() == 0 {
        Seq::empty()
    } else {
        let n = first_newline(s);
        if 0 <= n < s.len() {
            seq![chomp(s.take(n))] + lines_of(s.skip(n + 1))
        } else {
            seq![s]
        }
    }
}

/// The first line end of `s` is at `k` when none stands before `k` and one
/// stands at `k`, or `s` ends there.
pub proof fn lemma_first_newline(s: Seq<char>, k: int)
    requires
        0 <= k <= s.len(),
        forall|j: int| 0 <= j < k ==> !is_newline(#[trigger] s[j]),
        k < s.len() ==> is_newline(s[k]),
    ensures
        first_newline(s) == k,
    decreases k,
{
    if k > 0 {
        let rest = s.skip(1);
        assert forall|j: int| 0 <= j < k - 1 implies !is_newline(#[trigger] rest[j]) by {
            assert(rest[j] == s[j + 1]);
        }
        lemma_first_newline(rest, k - 1);
    }
}

/// `a` comes before `b` in dictionary order: at the first position where
/// they differ `a` has the smaller character, or `a` ends there and `b`
/// goes on.
pub open spec fn precedes(a: Seq<char>, b: Seq<char>) -> bool {
    exists|k: int| differs_at(a, b, k)
}

/// `a` and `b` hold the same characters at every position before `k`.
pub open spec fn agree_before(a: Seq<char>, b: Seq<char>, k: int) -> bool {
    forall|i: int|
        #![trigger a[i]]
        #![trigger b[i]]
        0 <= i < k ==> a[i] == b[i]
}

/// `a` and `b` agree on their first `k` characters and `a` is the smaller
/// one at position `k`.
pub open spec fn differs_at(a: Seq<char>, b: Seq<char>, k: int) -> bool {
    &&& 0 <= k <= a.len()
    &&& k <= b.len()
    &&& agree_before(a, b, k)
    &&& if k == a.len() {
        k < b.len()
    } else {
        k < b.len() && char_before(a[k], b[k])
    }
}

/// `x` has the smaller code point.
pub open spec fn char_before(x: char, y: char) -> bool {
    (x as u32) < (y as u32)
}

/// Code points order the characters: any two are equal or one is smaller,
/// never both ways, and the order is transitive.
pub proof fn lemma_char_order(x: char, y: char, z: char)
    ensures
        x == y || char_before(x, y) || char_before(y, x),
        !char_before(x, x),
        char_before(x, y) ==> !char_before(y, x),
        char_before(x, y) && char_before(y, z) ==> char_before(x, z),
{
}

/// The names of `names` stand in strictly ascending dictionary order.
pub open spec fn ascending(names: Seq<Seq<char>>) -> bool {
    forall|i: int, j: int| 0 <= i < j < names.len() ==> precedes(names[i], names[j])
}

/// How two texts stand to each other in dictionary order.
#[derive(Clone, Copy, Debug, PartialEq, Eq)]
pub enum Rank {
    Before,
    Same,
    After,
}

/// No text comes before itself.
pub proof fn lemma_precedes_irreflexive(a: Seq<char>)
    ensures
        !precedes(a, a),
{
    if precedes(a, a) {
        let k = choose|k: int| differs_at(a, a, k);
        lemma_char_order(a[k], a[k], a[k]);
    }
}

/// Of two texts at most one comes before the other.
pub proof fn lemma_precedes_asymmetric(a: Seq<char>, b: Seq<char>)
    requires
        precedes(a, b),
    ensures
        !precedes(b, a),
{
    let k = choose|k: int| differs_at(a, b, k);
    if precedes(b, a) {
        let m = choose|m: int| differs_at(b, a, m);
        if m < k {
            lemma_char_order(b[m], b[m], b[m]);
        } else if k < m {
            lemma_char_order(a[k], a[k], a[k]);
        } else if k < a.len() {
            lemma_char_order(a[k], b[k], a[k]);
        }
    }
}

/// Dictionary order is transitive.
pub proof fn lemma_precedes_transitive(a: Seq<char>, b: Seq<char>, c: Seq<char>)
    requires
        precedes(a, b),
        precedes(b, c),
    ensures
        precedes(a, c),
{
    let k = choose|k: int| differs_at(a, b, k);
    let m = choose|m: int| differs_at(b, c, m);
    let n = if k <= m { k } else { m };
    assert(agree_before(a, c, n)) by {
        assert forall|i: int| 0 <= i < n implies a[i] == c[i] by {
            assert(a[i] == b[i]);
        }
    }
    if k == m && k < a.len() {
        lemma_char_order(a[k], b[k], c[k]);
    }
    assert(differs_at(a, c, n));
}

/// An ascending sequence of names holds no name twice.
pub proof fn lemma_ascending_distinct(names: Seq<Seq<char>>, i: int, j: int)
    requires
        ascending(names),
        0 <= i < names.len(),
        0 <= j < names.len(),
        i != j,
    ensures
        names[i] != names[j],
{
    if i < j {
        lemma_precedes_irreflexive(names[i]);
    } else {
        lemma_precedes_irreflexive(names[j]);
    }
}

/// Two ascending sequences that hold the same names are the same sequence.
pub proof fn lemma_ascending_unique(a: Seq<Seq<char>>, b: Seq<Seq<char>>)
    requires
        ascending(a),
        ascending(b),
        forall|name: Seq<char>| a.contains(name) <==> b.contains(name),
    ensures
        a == b,
    decreases a.len(),
{
    if a.len() == 0 {
        if b.len() > 0 {
            assert(b.contains(b[0]));
        }
        assert(a =~= b);
    } else if b.len() == 0 {
        assert(a.contains(a[0]));
    } else {
        // both begin with their least name, which is therefore the same
        assert(a.contains(a[0]));
        assert(b.contains(b[0]));
        let i = choose|i: int| 0 <= i < b.len() && b[i] == a[0];
        let j = choose|j: int| 0 <= j < a.len() && a[j] == b[0];
        if i > 0 && j > 0 {
            lemma_precedes_asymmetric(b[0], b[i]);
        }
        if i > 0 && j == 0 {
            lemma_precedes_irreflexive(b[0]);
        }
        assert(a[0] == b[0]);
        let ra = a.subrange(1, a.len() as int);
        let rb = b.subrange(1, b.len() as int);
        assert forall|name: Seq<char>| ra.contains(name) <==> rb.contains(name) by {
            if ra.contains(name) {
                let p = choose|p: int| 0 <= p < ra.len() && ra[p] == name;
                assert(a[p + 1] == name);
                assert(a.contains(name));
                let q = choose|q: int| 0 <= q < b.len() && b[q] == name;
                if q == 0 {
                    lemma_precedes_irreflexive(a[0]);
                }
                assert(rb[q - 1] == name);
            }
            if rb.contains(name) {
                let p = choose|p: int| 0 <= p < rb.len() && rb[p] == name;
                assert(b[p + 1] == name);
                assert(b.contains(name));
                let q = choose|q: int| 0 <= q < a.len() && a[q] == name;
                if q == 0 {
                    lemma_precedes_irreflexive(b[0]);
                }
                assert(ra[q - 1] == name);
            }
        }
        assert(ascending(ra)) by {
            assert forall|x: int, y: int| 0 <= x < y < ra.len() implies precedes(ra[x], ra[y]) by {
                assert(precedes(a[x + 1], a[y + 1]));
            }
        }
        assert(ascending(rb)) by {
            assert forall|x: int, y: int| 0 <= x < y < rb.len() implies precedes(rb[x], rb[y]) by {
                assert(precedes(b[x + 1], b[y + 1]));
            }
        }
        lemma_ascending_unique(ra, rb);
        assert(a =~= seq![a[0]] + ra);
        assert(b =~= seq![b[0]] + rb);
    }
}

/// The characters of `s`, in order.
pub fn to_chars(s: &str) -> (v: Vec<char>)
    ensures
        v@ == s@,
{
    let mut v: Vec<char> = Vec::new();
    for c in it: s.chars()
        invariant
            v@ == it.seq().take(it.index() as int),
            it.seq() == s@,
    {
        v.push(c);
    }
    v
}

/// Whether `needle` stands in `s` at position `at`.
pub fn matches_at(s: &Vec<char>, needle: &Vec<char>, at: usize) -> (r: bool)
    ensures
        r == occurs_at(s@, needle@, at as int),
{
    if needle.len() > s.len() || at > s.len() - needle.len() {
        return false;
    }
    let mut j: usize = 0;
    while j < needle.len()
        invariant
            at + needle.len() <= s.len(),
            j <= needle.len(),
            forall|k: int| 0 <= k < j ==> s@[at + k] == needle@[k],
        decreases needle.len() - j,
    {
        if s[at + j] != needle[j] {
            assert(s@.subrange(at as int, at + needle.len())[j as int] != needle@[j as int]);
            return false;
        }
        j += 1;
    }
    assert(s@.subrange(at as int, at + needle.len()) =~= needle@);
    true
}

/// Whether `s` begins with `prefix`.
pub fn starts_with(s: &Vec<char>, prefix: &Vec<char>) -> (r: bool)
    ensures
        r == prefix@.is_prefix_of(s@),
{
    matches_at(s, prefix, 0)
}

/// Whether `s` ends with `suffix`.
pub fn ends_with(s: &Vec<char>, suffix: &Vec<char>) -> (r: bool)
    ensures
        r == suffix@.is_suffix_of(s@),
{
    if suffix.len() > s.len() {
        return false;
    }
    matches_at(s, suffix, s.len() - suffix.len())
}

/// Whether `needle` stands somewhere in `s`.
pub fn contains(s: &Vec<char>, needle: &Vec<char>) -> (r: bool)
    ensures
        r == occurs_in(s@, needle@),
{
    if needle.len() > s.len() {
        return false;
    }
    let last: usize = s.len() - needle.len();
    let mut at: usize = 0;
    while at < last
        invariant
            last == s.len() - needle.len(),
            at <= last,
            forall|k: int| 0 <= k < at ==> !occurs_at(s@, needle@, k),
        decreases last - at,
    {
        if matches_at(s, needle, at) {
            return true;
        }
        at += 1;
    }
    matches_at(s, needle, last)
}

/// Whether `a` and `b` are the same text.
pub fn same_text(a: &str, b: &str) -> (r: bool)
    ensures
        r == (a@ == b@),
{
    let x = to_chars(a);
    let y = to_chars(b);
    match rank(&x, &y) {
        Rank::Same => true,
        _ => false,
    }
}

/// Whether `s` begins with `prefix`.
pub fn str_starts_with(s: &str, prefix: &str) -> (r: bool)
    ensures
        r == prefix@.is_prefix_of(s@),
{
    let x = to_chars(s);
    let y = to_chars(prefix);
    starts_with(&x, &y)
}

/// Whether `s` ends with `suffix`.
pub fn str_ends_with(s: &str, suffix: &str) -> (r: bool)
    ensures
        r == suffix@.is_suffix_of(s@),
{
    let x = to_chars(s);
    let y = to_chars(suffix);
    ends_with(&x, &y)
}

/// Appends `text` to `list`.
pub fn push_text(list: &mut Vec<String>, text: String)
    ensures
        final(list).deep_view() == old(list).deep_view().push(text@),
{
    list.push(text);
    assert(list.deep_view() =~= old(list).deep_view().push(text@));
}

/// A copy of `text`.
pub fn clone_text(text: &Option<String>) -> (r: Option<String>)
    ensures
        r.deep_view() == text.deep_view(),
{
    match text {
        Some(t) => Some(t.clone()),
        None => None,
    }
}

/// `a` followed by `b`.
pub fn joined(a: &str, b: &str) -> (r: String)
    ensures
        r@ == a@ + b@,
{
    let mut r = a.to_owned();
    r.append(b);
    r
}

/// `s` from its character `from` on.
pub fn tail(s: &str, from: usize) -> (r: String)
    requires
        from <= s@.len(),
    ensures
        r@ == s@.skip(from as int),
{
    let n = s.unicode_len();
    s.substring_char(from, n).to_owned()
}

/// `s` without its last `n` characters.
pub fn without_end(s: &str, n: usize) -> (r: String)
    requires
        n <= s@.len(),
    ensures
        r@ == drop_end(s@, n as nat),
{
    let len = s.unicode_len();
    s.substring_char(0, len - n).to_owned()
}

/// `s` without the occurrences of `pattern`.
pub fn remove_all(s: &str, pattern: &str) -> (r: String)
    ensures
        r@ == without_all(s@, pattern@),
{
    let chars = to_chars(s);
    let wanted = to_chars(pattern);
    if wanted.len() == 0 {
        return s.to_owned();
    }
    let mut out = String::new();
    let mut start: usize = 0;
    let mut i: usize = 0;
    proof {
        assert(s@.skip(0) =~= s@);
        assert(out@ + s@.subrange(0, 0) + without_all(s@, pattern@) =~= without_all(s@, pattern@));
    }
    while i < chars.len()
        invariant
            chars@ == s@,
            wanted@ == pattern@,
            wanted.len() > 0,
            start <= i <= chars.len(),
            without_all(s@, pattern@) == out@ + s@.subrange(start as int, i as int) + without_all(
                s@.skip(i as int),
                pattern@,
            ),
        decreases chars.len() - i,
    {
        let ghost rest = s@.skip(i as int);
        proof {
            assert(occurs_at(s@, pattern@, i as int) <==> pattern@.is_prefix_of(rest)) by {
                if i + pattern@.len() <= s@.len() {
                    assert(rest.subrange(0, pattern@.len() as int) =~= s@.subrange(
                        i as int,
                        i + pattern@.len(),
                    ));
                }
            }
        }
        if matches_at(&chars, &wanted, i) {
            out.append(s.substring_char(start, i));
            proof {
                assert(rest.skip(pattern@.len() as int) =~= s@.skip(i + pattern@.len()));
                assert(s@.subrange(i + pattern@.len(), i + pattern@.len()) =~= Seq::<char>::empty());
            }
            i = i + wanted.len();
            start = i;
        } else {
            proof {
                assert(rest.skip(1) =~= s@.skip(i + 1));
                if rest.len() < pattern@.len() {
                    assert(rest =~= seq![rest[0]] + rest.skip(1));
                }
                assert(s@.subrange(start as int, i + 1) =~= s@.subrange(start as int, i as int) + seq![
                    rest[0],
                ]);
            }
            i += 1;
        }
    }
    proof {
        assert(s@.skip(i as int) =~= Seq::<char>::empty());
    }
    out.append(s.substring_char(start, i));
    out
}

/// Whether `c` is white space.
pub fn is_white(c: char) -> (r: bool)
    ensures
        r == is_space(c),
{
    c == '\u{9}' || c == '\u{a}' || c == '\u{b}' || c == '\u{c}' || c == '\u{d}' || c == '\u{20}'
        || c == '\u{85}' || c == '\u{a0}' || c == '\u{1680}' || c == '\u{2000}' || c == '\u{2001}'
        || c == '\u{2002}' || c == '\u{2003}' || c == '\u{2004}' || c == '\u{2005}' || c
        == '\u{2006}' || c == '\u{2007}' || c == '\u{2008}' || c == '\u{2009}' || c == '\u{200a}'
        || c == '\u{2028}' || c == '\u{2029}' || c == '\u{202f}' || c == '\u{205f}' || c
        == '\u{3000}'
}

/// `s` without the white space at its beginning and at its end.
pub fn trim(s: &str) -> (r: String)
    ensures
        r@ == trimmed(s@),
{
    let chars = to_chars(s);
    let n = chars.len();
    let mut start: usize = 0;
    proof {
        assert(s@.skip(0) =~= s@);
    }
    while start < n && is_white(chars[start])
        invariant
            chars@ == s@,
            n == chars.len(),
            start <= n,
            leading_spaces(s@) == start + leading_spaces(s@.skip(start as int)),
        decreases n - start,
    {
        proof {
            assert(s@.skip(start as int)[0] == s@[start as int]);
            assert(s@.skip(start as int).skip(1) =~= s@.skip(start + 1));
        }
        start += 1;
    }
    proof {
        if start < n {
            assert(s@.skip(start as int)[0] == s@[start as int]);
        }
    }
    let ghost rest = s@.skip(start as int);
    let mut end: usize = n;
    proof {
        assert(s@.subrange(start as int, n as int) =~= rest);
    }
    while end > start && is_white(chars[end - 1])
        invariant
            chars@ == s@,
            n == chars.len(),
            start <= end <= n,
            rest == s@.skip(start as int),
            trailing_spaces(rest) == (n - end) + trailing_spaces(s@.subrange(start as int, end as int)),
        decreases end - start,
    {
        proof {
            let piece = s@.subrange(start as int, end as int);
            assert(piece.last() == s@[end - 1]);
            assert(piece.drop_last() =~= s@.subrange(start as int, end - 1));
        }
        end -= 1;
    }
    proof {
        let piece = s@.subrange(start as int, end as int);
        if end > start {
            assert(piece.last() == s@[end - 1]);
        }
        assert(rest.take(rest.len() - trailing_spaces(rest)) =~= piece);
    }
    s.substring_char(start, end).to_owned()
}

/// The lines of `s`.
pub fn split_lines(s: &str) -> (lines: Vec<String>)
    ensures
        lines.deep_view() == lines_of(s@),
{
    let chars = to_chars(s);
    let mut lines: Vec<String> = Vec::new();
    let mut start: usize = 0;
    let mut i: usize = 0;
    proof {
        assert(s@.skip(0) =~= s@);
        assert(lines.deep_view() =~= Seq::<Seq<char>>::empty());
    }
    while i < chars.len()
        invariant
            chars@ == s@,
            start <= i <= chars.len(),
            lines_of(s@) == lines.deep_view() + lines_of(s@.skip(start as int)),
            forall|j: int| start <= j < i ==> !is_newline(#[trigger] s@[j]),
        decreases chars.len() - i,
    {
        if chars[i] == '\n' {
            let mut end: usize = i;
            if end > start && chars[end - 1] == '\r' {
                end = end - 1;
            }
            let line = s.substring_char(start, end).to_owned();
            proof {
                let rest = s@.skip(start as int);
                lemma_first_newline(rest, i - start);
                assert(rest.take(i - start) =~= s@.subrange(start as int, i as int));
                assert(line@ =~= chomp(rest.take(i - start)));
                assert(rest.skip(i - start + 1) =~= s@.skip(i + 1));
                assert(lines.deep_view().push(line@) + lines_of(s@.skip(i + 1)) =~= lines.deep_view() + (
                seq![line@] + lines_of(s@.skip(i + 1))));
            }
            push_text(&mut lines, line);
            start = i + 1;
        }
        i += 1;
    }
    if start < chars.len() {
        let line = s.substring_char(start, i).to_owned();
        proof {
            let rest = s@.skip(start as int);
            lemma_first_newline(rest, i - start);
            assert(line@ =~= rest);
        }
        push_text(&mut lines, line);
    } else {
        assert(s@.skip(start as int) =~= Seq::<char>::empty());
    }
    lines
}

/// Whether `x` has the smaller code point.
pub fn char_lt(x: char, y: char) -> (r: bool)
    ensures
        r == char_before(x, y),
{
    x < y
}

/// Where `a` stands to `b` in dictionary order.
pub fn rank(a: &Vec<char>, b: &Vec<char>) -> (r: Rank)
    ensures
        r == Rank::Before <==> precedes(a@, b@),
        r == Rank::Same <==> a@ == b@,
        r == Rank::After <==> precedes(b@, a@),
{
    let mut k: usize = 0;
    while k < a.len() && k < b.len()
        invariant
            k <= a.len(),
            k <= b.len(),
            agree_before(a@, b@, k as int),
        decreases a.len() - k,
    {
        let x: char = a[k];
        let y: char = b[k];
        proof {
            lemma_char_order(x, y, x);
        }
        if char_lt(x, y) {
            assert(differs_at(a@, b@, k as int));
            proof {
                lemma_precedes_asymmetric(a@, b@);
            }
            return Rank::Before;
        }
        if char_lt(y, x) {
            assert(differs_at(b@, a@, k as int));
            proof {
                lemma_precedes_asymmetric(b@, a@);
            }
            return Rank::After;
        }
        k += 1;
    }
    if k < b.len() {
        assert(differs_at(a@, b@, k as int));
        proof {
            lemma_precedes_asymmetric(a@, b@);
        }
        Rank::Before
    } else if k < a.len() {
        assert(differs_at(b@, a@, k as int));
        proof {
            lemma_precedes_asymmetric(b@, a@);
        }
        Rank::After
    } else {
        assert(a@ =~= b@);
        proof {
            lemma_precedes_irreflexive(a@);
        }
        Rank::Same
    }
}

} // verus!
