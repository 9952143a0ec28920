//! How deep the tables and arrays of a TOML text nest. The parser of a
//! manifest goes deeper by some calls with each level, so a text is only
//! handed to it when its depth is within a bound.
//!
//! The depth of a place in the text counts everything that lies around it:
//! the parts of the header of its table, and for each bracket or brace that
//! stands open, the bracket or brace and the parts of the key that it is the
//! value of, and the parts of the key that is being read. The count follows
//! the text as the parser reads its strings and comments, and it is never
//! less than what the parser builds.

use crate::text::to_chars;
use vstd::prelude::*;

verus! {

/// The greatest depth that a text may reach.
pub const MAX_DEPTH: usize = 64;

/// Where in the text the reader stands.
#[derive(Clone, Copy, Debug, PartialEq, Eq)]
pub enum Mode {
    /// Outside strings and comments.
    Plain,
    /// In a comment, which ends with its line.
    Comment,
    /// In a string between double quotes.
    Basic,
    /// In a string between single quotes.
    Literal,
    /// In a string between tripled double quotes, which may span lines.
    LongBasic,
    /// In a string between tripled single quotes, which may span lines.
    LongLiteral,
}

/// The reader at a position of the text.
pub struct Reader {
    /// The position.
    pub at: int,
    pub mode: Mode,
    /// The depth of the table or array whose entries are being read.
    pub level: int,
    /// How many dots the key or value that is being read has held so far.
    pub dots: int,
    /// The depth of the table that the last header opened.
    pub base: int,
    /// The reader is in the header of a table.
    pub header: bool,
    /// The reader is behind the equals sign of an entry of a table that a
    /// header opened.
    pub valued: bool,
    /// The levels to go back to, one for each bracket or brace that stands
    /// open, the innermost last.
    pub saved: Seq<int>,
}

/// The character `quote` stands at `at`.
pub open spec fn quote_at(s: Seq<char>, at: int, quote: char) -> bool {
    0 <= at < s.len() && s[at] == quote
}

/// The position behind the quotes that close a long string, where the three
/// that close it begin at `at`: up to two more quotes belong to the string.
pub open spec fn behind_closing(s: Seq<char>, at: int, quote: char) -> int {
    if quote_at(s, at + 3, quote) {
        if quote_at(s, at + 4, quote) {
            at + 5
        } else {
            at + 4
        }
    } else {
        at + 3
    }
}

/// The position behind the backslash at `at` and the character that it
/// escapes.
pub open spec fn behind_escape(s: Seq<char>, at: int) -> int {
    if at + 2 <= s.len() {
        at + 2
    } else {
        at + 1
    }
}

/// The reader one level deeper: in the table or array that is the value of
/// the key just read.
pub open spec fn opened(r: Reader) -> Reader {
    Reader { level: r.level + r.dots + 1, dots: 0, saved: r.saved.push(r.level), ..r }
}

/// The reader back behind a table or array: at the level that was saved when
/// it opened, or at that of the header where none stands open.
pub open spec fn closed(r: Reader) -> Reader {
    if r.saved.len() > 0 {
        Reader { level: r.saved.last(), dots: 0, saved: r.saved.drop_last(), ..r }
    } else {
        Reader { level: r.base, dots: 0, ..r }
    }
}

/// The reader after the character `c`, read outside strings and comments.
pub open spec fn structure(r: Reader, c: char) -> Reader {
    if c == '\n' {
        if r.saved.len() > 0 {
            Reader { dots: 0, ..r }
        } else if r.header {
            Reader { level: r.dots + 2, base: r.dots + 2, dots: 0, header: false, valued: false, ..r }
        } else {
            Reader { level: r.base, dots: 0, valued: false, ..r }
        }
    } else if c == '=' {
        Reader { valued: true, ..r }
    } else if c == ',' {
        Reader { dots: 0, ..r }
    } else if c == '.' {
        Reader { dots: r.dots + 1, ..r }
    } else if c == '[' {
        if r.header {
            r
        } else if r.saved.len() == 0 && !r.valued {
            Reader { level: 0, dots: 0, header: true, ..r }
        } else {
            opened(r)
        }
    } else if c == '{' {
        opened(r)
    } else if c == ']' {
        if r.header {
            Reader { level: r.dots + 2, base: r.dots + 2, dots: 0, header: false, ..r }
        } else {
            closed(r)
        }
    } else if c == '}' {
        closed(r)
    } else {
        r
    }
}

/// The reader after the character at its position, and what belongs to it.
pub open spec fn advance(s: Seq<char>, r: Reader) -> Reader
    recommends
        0 <= r.at < s.len(),
{
    let c = s[r.at];
    let on = Reader { at: r.at + 1, ..r };
    match r.mode {
        Mode::Plain => {
            if c == '"' || c == '\'' {
                if quote_at(s, r.at + 1, c) && quote_at(s, r.at + 2, c) {
                    Reader {
                        at: r.at + 3,
                        mode: if c == '"' {
                            Mode::LongBasic
                        } else {
                            Mode::LongLiteral
                        },
                        ..r
                    }
                } else if quote_at(s, r.at + 1, c) {
                    Reader { at: r.at + 2, ..r }
                } else {
                    Reader {
                        mode: if c == '"' {
                            Mode::Basic
                        } else {
                            Mode::Literal
                        },
                        ..on
                    }
                }
            } else if c == '#' {
                Reader { mode: Mode::Comment, ..on }
            } else {
                structure(on, c)
            }
        },
        Mode::Comment => {
            if c == '\n' {
                structure(Reader { mode: Mode::Plain, ..on }, c)
            } else {
                on
            }
        },
        Mode::Basic => {
            if c == '\\' {
                Reader { at: behind_escape(s, r.at), ..r }
            } else if c == '"' {
                Reader { mode: Mode::Plain, ..on }
            } else if c == '\n' {
                structure(Reader { mode: Mode::Plain, ..on }, c)
            } else {
                on
            }
        },
        Mode::Literal => {
            if c == '\'' {
                Reader { mode: Mode::Plain, ..on }
            } else if c == '\n' {
                structure(Reader { mode: Mode::Plain, ..on }, c)
            } else {
                on
            }
        },
        Mode::LongBasic => {
            if c == '\\' {
                Reader { at: behind_escape(s, r.at), ..r }
            } else if c == '"' && quote_at(s, r.at + 1, c) && quote_at(s, r.at + 2, c) {
                Reader { at: behind_closing(s, r.at, c), mode: Mode::Plain, ..r }
            } else {
                on
            }
        },
        Mode::LongLiteral => {
            if c == '\'' && quote_at(s, r.at + 1, c) && quote_at(s, r.at + 2, c) {
                Reader { at: behind_closing(s, r.at, c), mode: Mode::Plain, ..r }
            } else {
                on
            }
        },
    }
}

/// The depth that the reader has reached: that of the value of the key that
/// is being read.
pub open spec fn depth(r: Reader) -> int {
    r.level + r.dots + 2
}

/// From the reader `r` on, the depth of the text never passes `MAX_DEPTH`.
pub open spec fn bounded_from(s: Seq<char>, r: Reader) -> bool
    decreases s.len() - r.at,
{
    if depth(r) > MAX_DEPTH {
        false
    } else if 0 <= r.at < s.len() {
        let next = advance(s, r);
        // each step takes the reader further
        if r.at < next.at <= s.len() {
            bounded_from(s, next)
        } else {
            false
        }
    } else {
        true
    }
}

/// The reader at the start of a text.
pub open spec fn at_start() -> Reader {
    Reader {
        at: 0,
        mode: Mode::Plain,
        level: 0,
        dots: 0,
        base: 0,
        header: false,
        valued: false,
        saved: Seq::empty(),
    }
}

/// The depth of the text is within the bound.
pub open spec fn bounded(s: Seq<char>) -> bool {
    bounded_from(s, at_start())
}

/// The levels that a stack holds.
pub open spec fn levels(stack: Seq<usize>) -> Seq<int> {
    stack.map_values(|level: usize| level as int)
}

/// Whether `quote` stands at `at`.
fn has_quote(s: &Vec<char>, at: usize, quote: char) -> (r: bool)
    ensures
        r == quote_at(s@, at as int, quote),
{
    at < s.len() && s[at] == quote
}

/// What a reader keeps besides its position and its mode.
struct Counts {
    level: usize,
    dots: usize,
    base: usize,
    header: bool,
    valued: bool,
    saved: Vec<usize>,
}

impl Counts {
    /// The reader at `at` in the mode `mode` with these counts.
    spec fn reader(&self, at: int, mode: Mode) -> Reader {
        Reader {
            at,
            mode,
            level: self.level as int,
            dots: self.dots as int,
            base: self.base as int,
            header: self.header,
            valued: self.valued,
            saved: levels(self.saved@),
        }
    }

    /// Every count is small.
    spec fn small(&self) -> bool {
        &&& self.level + self.dots + 2 <= MAX_DEPTH
        &&& self.base <= MAX_DEPTH
        &&& forall|i: int| 0 <= i < self.saved@.len() ==> self.saved@[i] <= MAX_DEPTH
    }

    /// The counts after the character `c`, read outside strings and
    /// comments; `false` where the depth passes the bound.
    fn structure(&mut self, c: char, Ghost(at): Ghost<int>, Ghost(mode): Ghost<Mode>) -> (within: bool)
        requires
            old(self).small(),
        ensures
            final(self).reader(at, mode) == structure(old(self).reader(at, mode), c),
            within == (depth(final(self).reader(at, mode)) <= MAX_DEPTH),
            within ==> final(self).small(),
    {
        let ghost before = self.reader(at, mode);
        if c == '\n' {
            if self.saved.len() > 0 {
                self.dots = 0;
            } else if self.header {
                self.level = self.dots + 2;
                self.base = self.dots + 2;
                self.dots = 0;
                self.header = false;
                self.valued = false;
            } else {
                self.level = self.base;
                self.dots = 0;
                self.valued = false;
            }
        } else if c == '=' {
            self.valued = true;
        } else if c == ',' {
            self.dots = 0;
        } else if c == '.' {
            self.dots = self.dots + 1;
        } else if c == '[' && self.header {
        } else if c == '[' && self.saved.len() == 0 && !self.valued {
            self.level = 0;
            self.dots = 0;
            self.header = true;
        } else if c == '[' || c == '{' {
            let level = self.level;
            self.saved.push(level);
            self.level = level + self.dots + 1;
            self.dots = 0;
            assert(levels(self.saved@) =~= before.saved.push(level as int));
        } else if c == ']' && self.header {
            self.level = self.dots + 2;
            self.base = self.dots + 2;
            self.dots = 0;
            self.header = false;
        } else if c == ']' || c == '}' {
            match self.saved.pop() {
                Some(level) => {
                    self.level = level;
                    assert(levels(self.saved@) =~= before.saved.drop_last());
                    assert(before.saved.last() == level);
                },
                None => {
                    self.level = self.base;
                },
            }
            self.dots = 0;
        }
        self.level + self.dots + 2 <= MAX_DEPTH
    }
}

/// Whether the depth of `text` is within the bound.
pub fn within_bounds(text: &str) -> (r: bool)
    ensures
        r == bounded(text@),
{
    let s = to_chars(text);
    let n = s.len();
    let mut at: usize = 0;
    let mut mode = Mode::Plain;
    let mut counts = Counts { level: 0, dots: 0, base: 0, header: false, valued: false, saved: Vec::new() };
    proof {
        assert(levels(counts.saved@) =~= Seq::<int>::empty());
    }
    while at < n
        invariant
            s@ == text@,
            n == s.len(),
            counts.small(),
            bounded(text@) == bounded_from(text@, counts.reader(at as int, mode)),
        decreases n - at,
    {
        let ghost before = counts.reader(at as int, mode);
        let c = s[at];
        let mut next: usize = at + 1;
        let mut within = true;
        match mode {
            Mode::Plain => {
                if c == '"' || c == '\'' {
                    if n - at > 2 && has_quote(&s, at + 1, c) && has_quote(&s, at + 2, c) {
                        next = at + 3;
                        mode = if c == '"' {
                            Mode::LongBasic
                        } else {
                            Mode::LongLiteral
                        };
                    } else if n - at > 1 && has_quote(&s, at + 1, c) {
                        next = at + 2;
                    } else {
                        mode = if c == '"' {
                            Mode::Basic
                        } else {
                            Mode::Literal
                        };
                    }
                } else if c == '#' {
                    mode = Mode::Comment;
                } else {
                    within = counts.structure(c, Ghost(at + 1), Ghost(mode));
                }
            },
            Mode::Comment => {
                if c == '\n' {
                    mode = Mode::Plain;
                    within = counts.structure(c, Ghost(at + 1), Ghost(mode));
                }
            },
            Mode::Basic => {
                if c == '\\' {
                    next = if n - at > 1 {
                        at + 2
                    } else {
                        n
                    };
                } else if c == '"' {
                    mode = Mode::Plain;
                } else if c == '\n' {
                    mode = Mode::Plain;
                    within = counts.structure(c, Ghost(at + 1), Ghost(mode));
                }
            },
            Mode::Literal => {
                if c == '\'' {
                    mode = Mode::Plain;
                } else if c == '\n' {
                    mode = Mode::Plain;
                    within = counts.structure(c, Ghost(at + 1), Ghost(mode));
                }
            },
            Mode::LongBasic => {
                if c == '\\' {
                    next = if n - at > 1 {
                        at + 2
                    } else {
                        n
                    };
                } else if c == '"' && n - at > 2 && has_quote(&s, at + 1, c) && has_quote(&s, at + 2, c) {
                    next = at + 3;
                    if has_quote(&s, next, c) {
                        next = next + 1;
                        if has_quote(&s, next, c) {
                            next = next + 1;
                        }
                    }
                    mode = Mode::Plain;
                }
            },
            Mode::LongLiteral => {
                if c == '\'' && n - at > 2 && has_quote(&s, at + 1, c) && has_quote(&s, at + 2, c) {
                    next = at + 3;
                    if has_quote(&s, next, c) {
                        next = next + 1;
                        if has_quote(&s, next, c) {
                            next = next + 1;
                        }
                    }
                    mode = Mode::Plain;
                }
            },
        }
        proof {
            let after = advance(text@, before);
            assert(bounded_from(text@, before) == bounded_from(text@, after));
            assert(after =~= counts.reader(next as int, mode));
        }
        if !within {
            return false;
        }
        at = next;
    }
    true
}

} // verus!
