//! Small operations on text that the parser and the renderer share.

use vstd::prelude::*;
use vstd::string::*;

verus! {

/// The index of the first `mark` in `text` at or after `from`, or the length
/// of `text` where there is none.
pub open spec fn first_at(text: Seq<char>, mark: char, from: int) -> int
    decreases text.len() - from,
{
    if from < 0 || from >= text.len() {
        text.len() as int
    } else if text[from] == mark {
        from
    } else {
        first_at(text, mark, from + 1)
    }
}

/// Whether a character is a space, a tab or the end of a line.
pub open spec fn blank(c: char) -> bool {
    c == ' ' || c == '\t' || c == '\n' || c == '\r'
}

/// The index of the first character of `text` at or after `from` that is
/// not blank, or the length of `text` where only blanks are left.
pub open spec fn past_blanks(text: Seq<char>, from: int) -> int
    decreases text.len() - from,
{
    if from < 0 || from >= text.len() {
        text.len() as int
    } else if !blank(text[from]) {
        from
    } else {
        past_blanks(text, from + 1)
    }
}

/// Whether a character can stand inside a word: a letter, a digit, `_`,
/// or any character beyond ASCII.
pub open spec fn word(c: char) -> bool {
    let n = c as u32;
    n == 95 || 48 <= n <= 57 || 65 <= n <= 90 || 97 <= n <= 122 || n >= 128
}

/// Whether a cut at index `at` would divide a word of `text`.
pub open spec fn splits_word(text: Seq<char>, at: int) -> bool {
    0 < at < text.len() && word(text[at - 1]) && word(text[at])
}

/// Whether `mark` occurs nowhere in `text`.
pub open spec fn free_of(text: Seq<char>, mark: char) -> bool {
    forall|i: int| 0 <= i < text.len() ==> text[i] != mark
}

/// The index behind the last character of `text` before `to` that is not
/// blank, or 0 where only blanks stand before `to`.
pub open spec fn before_blanks(text: Seq<char>, to: int) -> int
    decreases to,
{
    if to <= 0 || to > text.len() {
        0
    } else if !blank(text[to - 1]) {
        to
    } else {
        before_blanks(text, to - 1)
    }
}

/// A text without the blanks at its beginning and at its end.
pub open spec fn trimmed(text: Seq<char>) -> Seq<char> {
    let from = past_blanks(text, 0);
    let to = before_blanks(text, text.len() as int);
    if from >= to {
        Seq::empty()
    } else {
        text.subrange(from, to)
    }
}

/// The decimal digit for a number below ten.
pub open spec fn digit(d: nat) -> char {
    if d == 0 {
        '0'
    } else if d == 1 {
        '1'
    } else if d == 2 {
        '2'
    } else if d == 3 {
        '3'
    } else if d == 4 {
        '4'
    } else if d == 5 {
        '5'
    } else if d == 6 {
        '6'
    } else if d == 7 {
        '7'
    } else if d == 8 {
        '8'
    } else {
        '9'
    }
}

/// A number written in decimal, without sign, separator or leading zero.
pub open spec fn decimal(n: nat) -> Seq<char>
    decreases n,
{
    if n < 10 {
        seq![digit(n)]
    } else {
        decimal(n / 10).push(digit(n % 10))
    }
}

/// The number that a character stands for as a decimal digit.
pub open spec fn digit_value(c: char) -> Option<nat> {
    if c == '0' {
        Some(0)
    } else if c == '1' {
        Some(1)
    } else if c == '2' {
        Some(2)
    } else if c == '3' {
        Some(3)
    } else if c == '4' {
        Some(4)
    } else if c == '5' {
        Some(5)
    } else if c == '6' {
        Some(6)
    } else if c == '7' {
        Some(7)
    } else if c == '8' {
        Some(8)
    } else if c == '9' {
        Some(9)
    } else {
        None
    }
}

/// The number that a run of decimal digits stands for, read from the left;
/// a character that is no digit counts as zero.
pub open spec fn decimal_value(digits: Seq<char>) -> nat
    decreases digits.len(),
{
    if digits.len() == 0 {
        0
    } else {
        10 * decimal_value(digits.drop_last()) + match digit_value(digits.last()) {
            Some(d) => d,
            None => 0,
        }
    }
}

/// What `first_at` finds lies between `from` and the end of the text, no
/// `mark` stands before it, and unless it is the end, a `mark` stands there.
pub proof fn lemma_first_at_is_first(text: Seq<char>, mark: char, from: int)
    requires
        0 <= from <= text.len(),
    ensures
        from <= first_at(text, mark, from) <= text.len(),
        forall|i: int| from <= i < first_at(text, mark, from) ==> text[i] != mark,
        first_at(text, mark, from) < text.len() ==> text[first_at(text, mark, from)] == mark,
    decreases text.len() - from,
{
    if from < text.len() && text[from] != mark {
        lemma_first_at_is_first(text, mark, from + 1);
    }
}

/// What `past_blanks` finds lies between `from` and the end of the text,
/// only blanks stand before it, and unless it is the end, it is not blank.
pub proof fn lemma_past_blanks_is_first(text: Seq<char>, from: int)
    requires
        0 <= from <= text.len(),
    ensures
        from <= past_blanks(text, from) <= text.len(),
        forall|i: int| from <= i < past_blanks(text, from) ==> blank(text[i]),
        past_blanks(text, from) < text.len() ==> !blank(text[past_blanks(text, from)]),
    decreases text.len() - from,
{
    if from < text.len() && blank(text[from]) {
        lemma_past_blanks_is_first(text, from + 1);
    }
}

/// Reading a number's decimal form gives the number back, and the form
/// holds digits only.
pub proof fn lemma_decimal_reads_back(n: nat)
    ensures
        decimal_value(decimal(n)) == n,
        decimal(n).len() >= 1,
        forall|i: int| 0 <= i < decimal(n).len() ==> digit_value(#[trigger] decimal(n)[i]) is Some,
    decreases n,
{
    if n < 10 {
        assert(decimal(n).drop_last() =~= Seq::<char>::empty());
        assert(decimal_value(decimal(n).drop_last()) == 0);
    } else {
        lemma_decimal_reads_back(n / 10);
        assert(decimal(n).drop_last() =~= decimal(n / 10));
    }
}

/// Whether two strings hold the same characters.
pub fn same_text(a: &str, b: &str) -> (same: bool)
    ensures
        same == (a@ == b@),
{
    let n: usize = a.unicode_len();
    if n != b.unicode_len() {
        return false;
    }
    let mut i: usize = 0;
    while i < n
        invariant
            n == a@.len(),
            n == b@.len(),
            i <= n,
            forall|j: int| 0 <= j < i ==> a@[j] == b@[j],
        decreases n - i,
    {
        if a.get_char(i) != b.get_char(i) {
            return false;
        }
        i += 1;
    }
    assert(a@ =~= b@);
    true
}

/// Finds the first `mark` in `text` at or after the character index `from`.
/// Returns the number of characters in `text` where there is none.
pub fn find(text: &str, mark: char, from: usize) -> (at: usize)
    requires
        from <= text@.len(),
    ensures
        at == first_at(text@, mark, from as int),
        from <= at <= text@.len(),
{
    let n: usize = text.unicode_len();
    let mut i: usize = from;
    while i < n
        invariant
            n == text@.len(),
            from <= i <= n,
            first_at(text@, mark, i as int) == first_at(text@, mark, from as int),
        decreases n - i,
    {
        if text.get_char(i) == mark {
            return i;
        }
        i += 1;
    }
    i
}

/// Finds the first character of `text` at or after the character index
/// `from` that is no space, tab or end of line. Returns the number of
/// characters in `text` where there is none.
pub fn skip_blanks(text: &str, from: usize) -> (at: usize)
    requires
        from <= text@.len(),
    ensures
        at == past_blanks(text@, from as int),
        from <= at <= text@.len(),
{
    let n: usize = text.unicode_len();
    let mut i: usize = from;
    while i < n
        invariant
            n == text@.len(),
            from <= i <= n,
            past_blanks(text@, i as int) == past_blanks(text@, from as int),
        decreases n - i,
    {
        if !is_blank(text.get_char(i)) {
            return i;
        }
        i += 1;
    }
    i
}

/// Whether a character is a space, a tab or the end of a line.
pub fn is_blank(c: char) -> (b: bool)
    ensures
        b == blank(c),
{
    c == ' ' || c == '\t' || c == '\n' || c == '\r'
}

/// Whether a character can stand inside a word.
pub fn is_word(c: char) -> (b: bool)
    ensures
        b == word(c),
{
    let n: u32 = c as u32;
    n == 95 || (48 <= n && n <= 57) || (65 <= n && n <= 90) || (97 <= n && n <= 122) || n >= 128
}

/// Whether a cut at the character index `at` would divide a word of `text`.
pub fn cuts_word(text: &str, at: usize) -> (b: bool)
    requires
        at <= text@.len(),
    ensures
        b == splits_word(text@, at as int),
{
    0 < at && at < text.unicode_len() && is_word(text.get_char(at - 1)) && is_word(
        text.get_char(at),
    )
}

/// Whether `mark` occurs nowhere in `text`.
pub fn lacks(text: &str, mark: char) -> (b: bool)
    ensures
        b == free_of(text@, mark),
{
    let at: usize = find(text, mark, 0);
    proof {
        lemma_first_at_is_first(text@, mark, 0);
    }
    at == text.unicode_len()
}

/// Cuts the blanks off both ends of a text.
pub fn trim<'a>(text: &'a str) -> (r: &'a str)
    ensures
        r@ == trimmed(text@),
{
    let from: usize = skip_blanks(text, 0);
    let mut to: usize = text.unicode_len();
    while to > 0 && is_blank(text.get_char(to - 1))
        invariant
            to <= text@.len(),
            before_blanks(text@, to as int) == before_blanks(text@, text@.len() as int),
        decreases to,
    {
        to -= 1;
    }
    if from >= to {
        let none: &'a str = text.substring_char(0, 0);
        assert(none@ =~= Seq::<char>::empty());
        none
    } else {
        text.substring_char(from, to)
    }
}

/// The text of one decimal digit.
fn digit_text(d: u64) -> (s: &'static str)
    requires
        d < 10,
    ensures
        s@ == seq![digit(d as nat)],
{
    proof {
        reveal_strlit("0");
        reveal_strlit("1");
        reveal_strlit("2");
        reveal_strlit("3");
        reveal_strlit("4");
        reveal_strlit("5");
        reveal_strlit("6");
        reveal_strlit("7");
        reveal_strlit("8");
        reveal_strlit("9");
    }
    let s: &'static str = if d == 0 {
        "0"
    } else if d == 1 {
        "1"
    } else if d == 2 {
        "2"
    } else if d == 3 {
        "3"
    } else if d == 4 {
        "4"
    } else if d == 5 {
        "5"
    } else if d == 6 {
        "6"
    } else if d == 7 {
        "7"
    } else if d == 8 {
        "8"
    } else {
        "9"
    };
    assert(s@ =~= seq![digit(d as nat)]);
    s
}

/// Appends the decimal form of `n` to `out`.
pub fn push_decimal(out: &mut String, n: u64)
    ensures
        final(out)@ == old(out)@ + decimal(n as nat),
    decreases n,
{
    if n >= 10 {
        push_decimal(out, n / 10);
    }
    out.append(digit_text(n % 10));
    assert(final(out)@ =~= old(out)@ + decimal(n as nat));
}

} // verus!
