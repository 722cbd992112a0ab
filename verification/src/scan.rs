//! Where the parts of a directive end. A comma or an `=` divides a
//! directive only where it stands outside brackets and outside comments, so
//! the text is walked character by character with a count of what is open.
//!
//! String and character literals are not looked into: no part of a
//! directive of the grammar holds one, and a bracket or a comment mark
//! inside one counts like any other.

use vstd::prelude::*;
use vstd::string::*;

verus! {

/// What is open at a place in a text.
pub struct Scan {
    /// How many `(`, `[` and `{` are open.
    pub round: nat,
    /// How many `<` are open that stand outside those brackets.
    pub angle: nat,
    /// How many `/*` are open; block comments nest.
    pub block: nat,
    /// Whether a `//` comment runs to the end of the line.
    pub line: bool,
    /// Whether the character before was a `/` that may open a comment.
    pub slash: bool,
    /// Whether the character before was a `*` that may close a comment.
    pub star: bool,
    /// Whether the character before was a `-`, so that a `>` ends an arrow.
    pub dash: bool,
}

impl Scan {
    /// Nothing is open at the beginning of a text.
    pub open spec fn start() -> Scan {
        Scan {
            round: 0,
            angle: 0,
            block: 0,
            line: false,
            slash: false,
            star: false,
            dash: false,
        }
    }

    /// Whether the place is outside every bracket and comment.
    pub open spec fn outside(self) -> bool {
        self.round == 0 && self.angle == 0 && self.block == 0 && !self.line
    }

    /// What is open behind the character `c`.
    ///
    /// A line comment ends with its line, a block comment with the `*/` that
    /// matches its `/*`. Outside comments, `(`, `[` and `{` open a bracket
    /// and `)`, `]` and `}` close one. A `<` counts as a bracket only outside
    /// those, and a `>` closes it unless it is the head of `->`.
    pub open spec fn step(self, c: char) -> Scan {
        if self.line {
            if c == '\n' {
                Scan { line: false, ..self }
            } else {
                self
            }
        } else if self.block > 0 {
            if self.star && c == '/' {
                Scan { block: (self.block - 1) as nat, slash: false, star: false, ..self }
            } else if self.slash && c == '*' {
                Scan { block: self.block + 1, slash: false, star: false, ..self }
            } else {
                Scan { slash: c == '/', star: c == '*', ..self }
            }
        } else if self.slash && c == '/' {
            Scan { line: true, slash: false, dash: false, ..self }
        } else if self.slash && c == '*' {
            Scan { block: 1, slash: false, dash: false, ..self }
        } else {
            let seen = Scan { slash: c == '/', dash: c == '-', ..self };
            if c == '(' || c == '[' || c == '{' {
                Scan { round: self.round + 1, ..seen }
            } else if c == ')' || c == ']' || c == '}' {
                Scan {
                    round: if self.round > 0 {
                        (self.round - 1) as nat
                    } else {
                        0
                    },
                    ..seen
                }
            } else if self.round == 0 && c == '<' {
                Scan { angle: self.angle + 1, ..seen }
            } else if self.round == 0 && c == '>' && !self.dash && self.angle > 0 {
                Scan { angle: (self.angle - 1) as nat, ..seen }
            } else {
                seen
            }
        }
    }
}

/// What is open before the character at index `i` of `text`.
pub open spec fn scan_at(text: Seq<char>, i: int) -> Scan
    decreases i,
{
    if i <= 0 {
        Scan::start()
    } else {
        scan_at(text, i - 1).step(text[i - 1])
    }
}

/// The index of the first `mark` at or after `from` that stands outside
/// brackets and comments, or the length of `text` where there is none.
pub open spec fn first_outside_from(text: Seq<char>, mark: char, from: int) -> int
    decreases text.len() - from,
{
    if from < 0 || from >= text.len() {
        text.len() as int
    } else if text[from] == mark && scan_at(text, from).outside() {
        from
    } else {
        first_outside_from(text, mark, from + 1)
    }
}

/// The index of the first `mark` in `text` that stands outside brackets
/// and comments, or the length of `text` where there is none.
pub open spec fn first_outside(text: Seq<char>, mark: char) -> int {
    first_outside_from(text, mark, 0)
}

/// Whether a text ends outside every bracket and comment.
pub open spec fn sealed(text: Seq<char>) -> bool {
    scan_at(text, text.len() as int).outside()
}

/// What is open before an index depends on the characters before it only.
pub proof fn lemma_scan_of_prefix(text: Seq<char>, more: Seq<char>, i: int)
    requires
        0 <= i <= text.len(),
    ensures
        scan_at(text + more, i) == scan_at(text, i),
    decreases i,
{
    if i > 0 {
        lemma_scan_of_prefix(text, more, i - 1);
        assert((text + more)[i - 1] == text[i - 1]);
    }
}

/// What `first_outside_from` finds lies between `from` and the end of the
/// text; before it no `mark` stands outside brackets and comments; and
/// unless it is the end, such a `mark` stands there.
pub proof fn lemma_first_outside_is_first(text: Seq<char>, mark: char, from: int)
    requires
        0 <= from <= text.len(),
    ensures
        from <= first_outside_from(text, mark, from) <= text.len(),
        forall|i: int|
            from <= i < first_outside_from(text, mark, from) ==> !(text[i] == mark && scan_at(
                text,
                i,
            ).outside()),
        first_outside_from(text, mark, from) < text.len() ==> {
            &&& text[first_outside_from(text, mark, from)] == mark
            &&& scan_at(text, first_outside_from(text, mark, from)).outside()
        },
    decreases text.len() - from,
{
    if from < text.len() && !(text[from] == mark && scan_at(text, from).outside()) {
        lemma_first_outside_is_first(text, mark, from + 1);
    }
}

/// An index at or after `from` that no `mark` outside brackets and
/// comments stands before, and that is the end of the text or holds such a
/// `mark`, is what `first_outside_from` finds.
pub proof fn lemma_first_outside_is_unique(text: Seq<char>, mark: char, from: int, at: int)
    requires
        0 <= from <= at <= text.len(),
        forall|i: int| from <= i < at ==> !(text[i] == mark && scan_at(text, i).outside()),
        at < text.len() ==> text[at] == mark && scan_at(text, at).outside(),
    ensures
        first_outside_from(text, mark, from) == at,
    decreases at - from,
{
    if from < at {
        lemma_first_outside_is_unique(text, mark, from + 1, at);
    }
}

/// The executable count of what is open.
#[derive(Clone, Copy, Debug, PartialEq, Eq)]
pub struct Scanner {
    round: usize,
    angle: usize,
    block: usize,
    line: bool,
    slash: bool,
    star: bool,
    dash: bool,
}

impl View for Scanner {
    type V = Scan;

    closed spec fn view(&self) -> Scan {
        Scan {
            round: self.round as nat,
            angle: self.angle as nat,
            block: self.block as nat,
            line: self.line,
            slash: self.slash,
            star: self.star,
            dash: self.dash,
        }
    }
}

impl Scanner {
    /// Whether no counter is beyond `bound`.
    pub open spec fn within(self, bound: int) -> bool {
        self@.round <= bound && self@.angle <= bound && self@.block <= bound
    }

    /// The scanner at the beginning of a text.
    pub fn new() -> (s: Scanner)
        ensures
            s@ == Scan::start(),
    {
        Scanner {
            round: 0,
            angle: 0,
            block: 0,
            line: false,
            slash: false,
            star: false,
            dash: false,
        }
    }

    /// Whether the scanner stands outside every bracket and comment.
    pub fn is_outside(&self) -> (b: bool)
        ensures
            b == self@.outside(),
    {
        self.round == 0 && self.angle == 0 && self.block == 0 && !self.line
    }

    /// Moves the scanner over the character `c`.
    pub fn advance(&mut self, c: char)
        requires
            old(self).within(usize::MAX - 1),
        ensures
            final(self)@ == old(self)@.step(c),
            forall|bound: int| old(self).within(bound) ==> final(self).within(bound + 1),
    {
        if self.line {
            if c == '\n' {
                self.line = false;
            }
        } else if self.block > 0 {
            if self.star && c == '/' {
                self.block = self.block - 1;
                self.slash = false;
                self.star = false;
            } else if self.slash && c == '*' {
                self.block = self.block + 1;
                self.slash = false;
                self.star = false;
            } else {
                self.slash = c == '/';
                self.star = c == '*';
            }
        } else if self.slash && c == '/' {
            self.line = true;
            self.slash = false;
            self.dash = false;
        } else if self.slash && c == '*' {
            self.block = 1;
            self.slash = false;
            self.dash = false;
        } else {
            let dash: bool = self.dash;
            self.slash = c == '/';
            self.dash = c == '-';
            if c == '(' || c == '[' || c == '{' {
                self.round = self.round + 1;
            } else if c == ')' || c == ']' || c == '}' {
                if self.round > 0 {
                    self.round = self.round - 1;
                }
            } else if self.round == 0 && c == '<' {
                self.angle = self.angle + 1;
            } else if self.round == 0 && c == '>' && !dash && self.angle > 0 {
                self.angle = self.angle - 1;
            }
        }
    }
}

/// Finds the first `mark` in `text` that stands outside brackets and
/// comments. Returns the number of characters in `text` where there is
/// none.
pub fn find_outside(text: &str, mark: char) -> (at: usize)
    ensures
        at == first_outside(text@, mark),
        at <= text@.len(),
{
    let n: usize = text.unicode_len();
    let mut scanner: Scanner = Scanner::new();
    let mut i: usize = 0;
    while i < n
        invariant
            n == text@.len(),
            i <= n,
            scanner@ == scan_at(text@, i as int),
            scanner.within(i as int),
            first_outside_from(text@, mark, i as int) == first_outside(text@, mark),
        decreases n - i,
    {
        let c: char = text.get_char(i);
        if c == mark && scanner.is_outside() {
            return i;
        }
        scanner.advance(c);
        i += 1;
    }
    i
}

} // verus!
