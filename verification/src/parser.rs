//! The grammar of a directive:
//!
//! ```text
//! directive       := width "," name ["," order_clause] ["," exponent_clause]
//! order_clause    := "order" "=" ("ascending" | "descending")
//! exponent_clause := "exponent" "=" integer_literal
//! ```
//!
//! The text is cut at the commas that stand outside brackets and comments,
//! and a clause at its first such `=`. What stands between the cuts is read
//! as a type, an identifier or an integer literal by the functions of
//! `lexical`. The parts are taken from left to right, and the first one that
//! fails decides the diagnostic. Where a part does not read as what it
//! should be, but a piece at its beginning does, the part holds more than
//! one thing: the diagnostic then names the separator that is missing, at
//! what follows that piece. The element type is looked up last, when all
//! the text has been read.
//!
//! `parsed` says what every text is read as. That it reads the directives of
//! the grammar, and nothing else, is shown in `grammar`.

use vstd::arithmetic::div_mod::lemma_small_mod;
use vstd::prelude::*;
use vstd::string::*;

use crate::directive::{
    outcome, reported, Diagnostic, DiagnosticView, Directive, DirectiveView, Order,
    DEFAULT_EXPONENT,
};
use crate::lexical::{
    characters, identifier, integer_literal, read_identifier, read_integer, type_reading,
    yank_int_type, TypeReading, TypeReadingView,
};
use crate::scan::{find_outside, first_outside};
use crate::text::{
    cuts_word, free_of, lacks, past_blanks, same_text, skip_blanks, splits_word, trim, trimmed,
};
use crate::width::Width;

verus! {

/// The two clauses a directive can have after the name.
#[derive(Clone, Copy, Debug, PartialEq, Eq, Structural)]
pub enum Keyword {
    Order,
    Exponent,
}

/// What a part of a directive is to be read as.
#[derive(Clone, Copy, Debug, PartialEq, Eq, Structural)]
pub enum Kind {
    Type,
    Identifier,
    Integer,
}

/// A value of 64 bits cast to the pointer-sized type.
pub open spec fn pointer_sized(value: u64) -> nat {
    value as nat % (usize::MAX as nat + 1)
}

/// Whether a text reads as the kind of thing asked for.
pub open spec fn reads_as(kind: Kind, text: Seq<char>) -> bool {
    match kind {
        Kind::Type => !(type_reading(text) is NoType),
        Kind::Identifier => identifier(text) is Some,
        Kind::Integer => integer_literal(text) is Some,
    }
}

/// The length of the longest piece at the beginning of `part`, of `limit`
/// characters at most, that reads as the kind of thing asked for and does
/// not end in the middle of a word.
pub open spec fn leading(kind: Kind, part: Seq<char>, limit: int) -> Option<int>
    decreases limit + 1,
{
    if limit < 0 {
        None
    } else if !splits_word(part, limit) && reads_as(kind, part.subrange(0, limit)) {
        Some(limit)
    } else {
        leading(kind, part, limit - 1)
    }
}

/// What is said of a part in which nothing of the kind asked for was found.
pub open spec fn expected(kind: Kind) -> Seq<char> {
    match kind {
        Kind::Type => "expected a type"@,
        Kind::Identifier => "expected identifier"@,
        Kind::Integer => "expected integer literal"@,
    }
}

/// The diagnostic for a part that does not read as it should, given the
/// longest piece at its beginning that does. With such a piece, `behind`
/// says what should have followed it, at the first thing behind the piece.
/// Without one, the part's first character that is not blank is reported.
/// `start` is where the part begins in the directive.
pub open spec fn misread_given(
    found: Option<int>,
    kind: Kind,
    part: Seq<char>,
    start: int,
    behind: Seq<char>,
) -> DiagnosticView {
    match found {
        Some(length) => Diagnostic::malformed(behind, start + past_blanks(part, length)),
        None => Diagnostic::malformed(expected(kind), start + past_blanks(part, 0)),
    }
}

/// The diagnostic for a part that does not read as it should.
pub open spec fn misread(kind: Kind, part: Seq<char>, start: int, behind: Seq<char>) -> DiagnosticView {
    misread_given(leading(kind, part, part.len() as int), kind, part, start, behind)
}

/// The element type that a reading of the type's text stands for: a
/// width, or the spelling of a type that is none of the five. A type that
/// is no path is spelled as the text has it. `None` stands for a text that
/// is no type.
pub open spec fn element_from(reading: TypeReadingView, type_text: Seq<char>) -> Option<
    Result<Width, Seq<char>>,
> {
    match reading {
        TypeReadingView::NoType => None,
        TypeReadingView::NoPath => Some(Err(trimmed(type_text))),
        TypeReadingView::Head(head) => match Width::named(head) {
            Some(width) => Some(Ok(width)),
            None => Some(Err(head)),
        },
    }
}

/// The element type that a text stands for. A text with an apostrophe is
/// not read at all, since the reader of types must not be given one: it
/// counts as a type that is none of the five, spelled as the text has it,
/// whether the apostrophe stands in a lifetime, in a character or in a
/// comment.
pub open spec fn element_for(type_text: Seq<char>) -> Option<Result<Width, Seq<char>>> {
    if free_of(type_text, '\'') {
        element_from(type_reading(type_text), type_text)
    } else {
        Some(Err(trimmed(type_text)))
    }
}

/// An element type with its spelling seen as contracts see a string.
pub open spec fn spelled(element: Option<Result<Width, String>>) -> Option<
    Result<Width, Seq<char>>,
> {
    match element {
        None => None,
        Some(Ok(width)) => Some(Ok(width)),
        Some(Err(spelling)) => Some(Err(spelling@)),
    }
}

/// The clause that a key opens. `at` is where the key stands; `order` may
/// only open the first clause.
pub open spec fn keyword_for(word: Seq<char>, at: int, order_allowed: bool) -> Result<
    Keyword,
    DiagnosticView,
> {
    if order_allowed && word == "order"@ {
        Ok(Keyword::Order)
    } else if word == "exponent"@ {
        Ok(Keyword::Exponent)
    } else if order_allowed {
        Err(Diagnostic::malformed("Expected `order` or `exponent`"@, at))
    } else {
        Err(Diagnostic::malformed("Expected `exponent`"@, at))
    }
}

/// The order that a word names. A word that names none is reported at
/// `clause_at`, where the key of the clause stands.
pub open spec fn order_for(word: Seq<char>, clause_at: int) -> Result<Order, DiagnosticView> {
    match Order::named(word) {
        Some(order) => Ok(order),
        None => Err(
            Diagnostic::malformed(
                "Invalid order specifier specified!. Did you mean `ascending` or `descending`?"@,
                clause_at,
            ),
        ),
    }
}

/// The part of a clause before its first `=`, or all of it.
pub open spec fn key_text(clause: Seq<char>) -> Seq<char> {
    clause.subrange(0, first_outside(clause, '='))
}

/// The part of a clause after its first `=`.
pub open spec fn value_text(clause: Seq<char>) -> Seq<char> {
    clause.subrange(first_outside(clause, '=') + 1, clause.len() as int)
}

/// Where the key of a clause stands, whose part of the text begins at
/// `start`: at the first character of the part that is not blank.
pub open spec fn key_at(clause: Seq<char>, start: int) -> int {
    start + past_blanks(clause, 0)
}

/// The keyword of a clause whose part of the text begins at `start`. A key
/// with something behind it lacks its `=` there.
pub open spec fn key_for(clause: Seq<char>, start: int, order_allowed: bool) -> Result<
    Keyword,
    DiagnosticView,
> {
    match identifier(key_text(clause)) {
        None => Err(misread(Kind::Identifier, key_text(clause), start, "expected `=`"@)),
        Some(word) => keyword_for(word, key_at(clause, start), order_allowed),
    }
}

/// What the clause `order = ...` asks for, whose part of the text begins at
/// `start`. A missing `=` is reported where the part ends.
pub open spec fn order_clause(clause: Seq<char>, start: int) -> Result<Order, DiagnosticView> {
    let eq = first_outside(clause, '=');
    if eq == clause.len() {
        Err(Diagnostic::malformed("expected `=`"@, start + eq))
    } else {
        match identifier(value_text(clause)) {
            None => Err(
                misread(Kind::Identifier, value_text(clause), start + eq + 1, "expected `,`"@),
            ),
            Some(word) => order_for(word, key_at(clause, start)),
        }
    }
}

/// What the clause `exponent = ...` asks for, whose part of the text begins
/// at `start`. A missing `=` is reported where the part ends.
pub open spec fn exponent_clause(clause: Seq<char>, start: int) -> Result<nat, DiagnosticView> {
    let eq = first_outside(clause, '=');
    if eq == clause.len() {
        Err(Diagnostic::malformed("expected `=`"@, start + eq))
    } else {
        match integer_literal(value_text(clause)) {
            None => Err(
                misread(Kind::Integer, value_text(clause), start + eq + 1, "unexpected token"@),
            ),
            Some(value) => Ok(pointer_sized(value)),
        }
    }
}

/// The exponent that the last clause gives, where an `order` clause came
/// before it. `tail` is the text from the comma behind the `order` clause
/// on, and `at` is where that comma stands.
pub open spec fn exponent_after_order(tail: Seq<char>, at: int) -> Result<nat, DiagnosticView> {
    let body = tail.subrange(1, tail.len() as int);
    let next = first_outside(body, ',');
    let clause = body.subrange(0, next);
    match key_for(clause, at + 1, false) {
        Err(d) => Err(d),
        Ok(_) => match exponent_clause(clause, at + 1) {
            Err(d) => Err(d),
            Ok(exponent) => if next == body.len() {
                Ok(exponent)
            } else {
                Err(Diagnostic::malformed("unexpected token"@, at + 1 + next))
            },
        },
    }
}

/// The order and the exponent that the text behind the name gives. `tail`
/// is that text: nothing, or a comma and what follows it. `at` is where it
/// begins.
pub open spec fn settings(tail: Seq<char>, at: int) -> Result<(Order, nat), DiagnosticView> {
    if tail.len() == 0 {
        Ok((Order::Ascending, DEFAULT_EXPONENT as nat))
    } else {
        let body = tail.subrange(1, tail.len() as int);
        let next = first_outside(body, ',');
        let clause = body.subrange(0, next);
        match key_for(clause, at + 1, true) {
            Err(d) => Err(d),
            Ok(Keyword::Exponent) => match exponent_clause(clause, at + 1) {
                Err(d) => Err(d),
                Ok(exponent) => if next == body.len() {
                    Ok((Order::Ascending, exponent))
                } else {
                    Err(Diagnostic::malformed("unexpected token"@, at + 1 + next))
                },
            },
            Ok(Keyword::Order) => match order_clause(clause, at + 1) {
                Err(d) => Err(d),
                Ok(order) => if next == body.len() {
                    Ok((order, DEFAULT_EXPONENT as nat))
                } else {
                    match exponent_after_order(
                        body.subrange(next, body.len() as int),
                        at + 1 + next,
                    ) {
                        Err(d) => Err(d),
                        Ok(exponent) => Ok((order, exponent)),
                    }
                },
            },
        }
    }
}

/// The directive of an element type and the text behind the first comma.
/// `rest` is that text and `start` is where it begins. A type that is none
/// of the five is reported when everything else has been read, at the name.
pub open spec fn named(rest: Seq<char>, start: int, element: Result<Width, Seq<char>>) -> Result<
    DirectiveView,
    DiagnosticView,
> {
    let end = first_outside(rest, ',');
    let name_text = rest.subrange(0, end);
    let name_at = start + past_blanks(name_text, 0);
    match identifier(name_text) {
        None => Err(misread(Kind::Identifier, name_text, start, "expected `,`"@)),
        Some(name) => match settings(rest.subrange(end, rest.len() as int), start + end) {
            Err(d) => Err(d),
            Ok((order, exponent)) => match element {
                Err(spelling) => Err(Diagnostic::unsupported(spelling, name_at)),
                Ok(width) => Ok(
                    DirectiveView {
                        element_width: width,
                        output_name: name,
                        name_position: name_at as nat,
                        order,
                        exponent,
                    },
                ),
            },
        },
    }
}

/// The directive that a text holds, or the diagnostic for the first part of
/// it that fails.
pub open spec fn parsed(text: Seq<char>) -> Result<DirectiveView, DiagnosticView> {
    let comma = first_outside(text, ',');
    let type_text = text.subrange(0, comma);
    match element_for(type_text) {
        None => Err(misread(Kind::Type, type_text, 0, "expected `,`"@)),
        Some(element) => if comma == text.len() {
            Err(Diagnostic::malformed("expected `,`"@, comma))
        } else {
            named(text.subrange(comma + 1, text.len() as int), comma + 1, element)
        },
    }
}

/// Casts a value of 64 bits to the pointer-sized type, dropping the bits
/// that do not fit.
pub fn to_usize(value: u64) -> (r: usize)
    ensures
        r == pointer_sized(value),
{
    if value <= usize::MAX as u64 {
        proof {
            lemma_small_mod(value as nat, (usize::MAX + 1) as nat);
        }
        value as usize
    } else {
        (value % (usize::MAX as u64 + 1)) as usize
    }
}

/// Decides which clause a key opens. `word` is the identifier read before
/// the `=` and `at` is where it stands. Only the first clause may be an
/// `order` clause.
pub fn keyword_of(word: &str, at: usize, order_allowed: bool) -> (r: Result<Keyword, Diagnostic>)
    ensures
        reported(r) == keyword_for(word@, at as int, order_allowed),
{
    if order_allowed && same_text(word, "order") {
        Ok(Keyword::Order)
    } else if same_text(word, "exponent") {
        Ok(Keyword::Exponent)
    } else if order_allowed {
        Err(Diagnostic::new_malformed("Expected `order` or `exponent`", at))
    } else {
        Err(Diagnostic::new_malformed("Expected `exponent`", at))
    }
}

/// Decides the order that an `order` clause asks for. `word` is the
/// identifier read after the `=`. One that is neither `ascending` nor
/// `descending` is reported at `clause_at`, where the key stands.
pub fn order_of(word: &str, clause_at: usize) -> (r: Result<Order, Diagnostic>)
    ensures
        reported(r) == order_for(word@, clause_at as int),
{
    match Order::from_keyword(word) {
        Some(order) => Ok(order),
        None => Err(
            Diagnostic::new_malformed(
                "Invalid order specifier specified!. Did you mean `ascending` or `descending`?",
                clause_at,
            ),
        ),
    }
}

/// Decides the element type from what the type's text was read as: the
/// width that the first segment of a path names, or the spelling to report
/// for any other type, or `None` for a text that is no type.
pub fn element_of(reading: TypeReading, type_text: &str) -> (r: Option<Result<Width, String>>)
    ensures
        spelled(r) == element_from(reading@, type_text@),
{
    match reading {
        TypeReading::NoType => None,
        TypeReading::NoPath => Some(Err(String::from_str(trim(type_text)))),
        TypeReading::Head(head) => match Width::from_spelling(head.as_str()) {
            Some(width) => Some(Ok(width)),
            None => Some(Err(head)),
        },
    }
}

/// Makes the diagnostic for a part that does not read as it should, from
/// the length of the longest piece at its beginning that does. `start` is
/// where the part begins in the directive, and `behind` says what should
/// follow such a piece.
pub fn misread_at(found: Option<usize>, kind: Kind, part: &str, start: usize, behind: &str) -> (d:
    Diagnostic)
    requires
        start + part@.len() <= usize::MAX,
        found matches Some(length) ==> length <= part@.len(),
    ensures
        d@ == misread_given(
            match found {
                Some(length) => Some(length as int),
                None => None,
            },
            kind,
            part@,
            start as int,
            behind@,
        ),
{
    match found {
        Some(length) => Diagnostic::new_malformed(behind, start + skip_blanks(part, length)),
        None => {
            let message: &str = match kind {
                Kind::Type => "expected a type",
                Kind::Identifier => "expected identifier",
                Kind::Integer => "expected integer literal",
            };
            Diagnostic::new_malformed(message, start + skip_blanks(part, 0))
        },
    }
}

/// Asks whether a text reads as the kind of thing asked for.
fn reads(kind: Kind, text: &str) -> (b: bool)
    requires
        kind == Kind::Type ==> free_of(text@, '\''),
    ensures
        b == reads_as(kind, text@),
{
    match kind {
        Kind::Type => match yank_int_type(text) {
            TypeReading::NoType => false,
            _ => true,
        },
        Kind::Identifier => read_identifier(text).is_some(),
        Kind::Integer => read_integer(text).is_some(),
    }
}

/// Finds the longest piece at the beginning of a part that reads as the
/// kind of thing asked for.
fn find_leading(kind: Kind, part: &str) -> (found: Option<usize>)
    requires
        kind == Kind::Type ==> free_of(part@, '\''),
    ensures
        found matches Some(length) ==> length <= part@.len(),
        leading(kind, part@, part@.len() as int) == match found {
            Some(length) => Some(length as int),
            None => None,
        },
{
    let mut length: usize = part.unicode_len();
    loop
        invariant
            length <= part@.len(),
            kind == Kind::Type ==> free_of(part@, '\''),
            leading(kind, part@, length as int) == leading(kind, part@, part@.len() as int),
        decreases length,
    {
        if !cuts_word(part, length) && reads(kind, part.substring_char(0, length)) {
            return Some(length);
        }
        if length == 0 {
            assert(leading(kind, part@, -1) is None);
            return None;
        }
        length -= 1;
    }
}

/// Reports a part that does not read as it should.
fn report(kind: Kind, part: &str, start: usize, behind: &str) -> (d: Diagnostic)
    requires
        start + part@.len() <= usize::MAX,
        kind == Kind::Type ==> free_of(part@, '\''),
    ensures
        d@ == misread(kind, part@, start as int, behind@),
{
    misread_at(find_leading(kind, part), kind, part, start, behind)
}

/// Reads the element type of a directive from its text.
fn read_element(type_text: &str) -> (r: Option<Result<Width, String>>)
    ensures
        spelled(r) == element_for(type_text@),
{
    if lacks(type_text, '\'') {
        element_of(yank_int_type(type_text), type_text)
    } else {
        Some(Err(String::from_str(trim(type_text))))
    }
}

/// Reads the keyword of a clause, whose part of the directive begins at
/// `start`.
fn read_key(clause: &str, start: usize, order_allowed: bool) -> (r: Result<Keyword, Diagnostic>)
    requires
        start + clause@.len() <= usize::MAX,
    ensures
        reported(r) == key_for(clause@, start as int, order_allowed),
{
    let eq: usize = find_outside(clause, '=');
    let key: &str = clause.substring_char(0, eq);
    match read_identifier(key) {
        None => Err(report(Kind::Identifier, key, start, "expected `=`")),
        Some(word) => keyword_of(word.as_str(), start + skip_blanks(clause, 0), order_allowed),
    }
}

/// Reads the clause `order = ...`, whose part of the directive begins at
/// `start`.
fn read_order_clause(clause: &str, start: usize) -> (r: Result<Order, Diagnostic>)
    requires
        start + clause@.len() <= usize::MAX,
    ensures
        reported(r) == order_clause(clause@, start as int),
{
    let eq: usize = find_outside(clause, '=');
    let len: usize = clause.unicode_len();
    if eq == len {
        return Err(Diagnostic::new_malformed("expected `=`", start + eq));
    }
    let value: &str = clause.substring_char(eq + 1, len);
    match read_identifier(value) {
        None => Err(report(Kind::Identifier, value, start + eq + 1, "expected `,`")),
        Some(word) => order_of(word.as_str(), start + skip_blanks(clause, 0)),
    }
}

/// Reads the clause `exponent = ...`, whose part of the directive begins at
/// `start`.
fn read_exponent_clause(clause: &str, start: usize) -> (r: Result<usize, Diagnostic>)
    requires
        start + clause@.len() <= usize::MAX,
    ensures
        match r {
            Ok(exponent) => exponent_clause(clause@, start as int) == Ok::<nat, DiagnosticView>(
                exponent as nat,
            ),
            Err(d) => exponent_clause(clause@, start as int) == Err::<nat, DiagnosticView>(d@),
        },
{
    let eq: usize = find_outside(clause, '=');
    let len: usize = clause.unicode_len();
    if eq == len {
        return Err(Diagnostic::new_malformed("expected `=`", start + eq));
    }
    let value: &str = clause.substring_char(eq + 1, len);
    match read_integer(value) {
        None => Err(report(Kind::Integer, value, start + eq + 1, "unexpected token")),
        Some(literal) => Ok(to_usize(literal)),
    }
}

/// Reads the `exponent` clause that follows an `order` clause. `tail` is
/// the directive from the comma between the two on, and `at` is where that
/// comma stands.
fn read_exponent_after_order(tail: &str, at: usize) -> (r: Result<usize, Diagnostic>)
    requires
        tail@.len() > 0,
        at + tail@.len() <= usize::MAX,
    ensures
        match r {
            Ok(exponent) => exponent_after_order(tail@, at as int) == Ok::<nat, DiagnosticView>(
                exponent as nat,
            ),
            Err(d) => exponent_after_order(tail@, at as int) == Err::<nat, DiagnosticView>(d@),
        },
{
    let body: &str = tail.substring_char(1, tail.unicode_len());
    let next: usize = find_outside(body, ',');
    let clause: &str = body.substring_char(0, next);
    match read_key(clause, at + 1, false) {
        Err(d) => Err(d),
        Ok(_) => match read_exponent_clause(clause, at + 1) {
            Err(d) => Err(d),
            Ok(exponent) => {
                if next == body.unicode_len() {
                    Ok(exponent)
                } else {
                    Err(Diagnostic::new_malformed("unexpected token", at + 1 + next))
                }
            },
        },
    }
}

/// Reads the clauses behind the name. `tail` is the directive from the end
/// of the name's part on, and `at` is where it begins.
fn read_settings(tail: &str, at: usize) -> (r: Result<(Order, usize), Diagnostic>)
    requires
        at + tail@.len() <= usize::MAX,
    ensures
        match r {
            Ok((order, exponent)) => settings(tail@, at as int) == Ok::<
                (Order, nat),
                DiagnosticView,
            >((order, exponent as nat)),
            Err(d) => settings(tail@, at as int) == Err::<(Order, nat), DiagnosticView>(d@),
        },
{
    let len: usize = tail.unicode_len();
    if len == 0 {
        return Ok((Order::Ascending, DEFAULT_EXPONENT));
    }
    let body: &str = tail.substring_char(1, len);
    let next: usize = find_outside(body, ',');
    let clause: &str = body.substring_char(0, next);
    match read_key(clause, at + 1, true) {
        Err(d) => Err(d),
        Ok(Keyword::Exponent) => match read_exponent_clause(clause, at + 1) {
            Err(d) => Err(d),
            Ok(exponent) => {
                if next == body.unicode_len() {
                    Ok((Order::Ascending, exponent))
                } else {
                    Err(Diagnostic::new_malformed("unexpected token", at + 1 + next))
                }
            },
        },
        Ok(Keyword::Order) => match read_order_clause(clause, at + 1) {
            Err(d) => Err(d),
            Ok(order) => {
                if next == body.unicode_len() {
                    Ok((order, DEFAULT_EXPONENT))
                } else {
                    let last: &str = body.substring_char(next, body.unicode_len());
                    match read_exponent_after_order(last, at + 1 + next) {
                        Err(d) => Err(d),
                        Ok(exponent) => Ok((order, exponent)),
                    }
                }
            },
        },
    }
}

/// Reads what stands behind the first comma of a directive: the name and
/// the clauses. `rest` is that text and `start` is where it begins.
fn read_named(rest: &str, start: usize, element: Result<Width, String>) -> (r: Result<
    Directive,
    Diagnostic,
>)
    requires
        start + rest@.len() <= usize::MAX,
    ensures
        outcome(r) == named(
            rest@,
            start as int,
            match element {
                Ok(width) => Ok(width),
                Err(spelling) => Err(spelling@),
            },
        ),
{
    let end: usize = find_outside(rest, ',');
    let name_text: &str = rest.substring_char(0, end);
    let name_at: usize = start + skip_blanks(name_text, 0);
    let name: String = match read_identifier(name_text) {
        None => {
            return Err(report(Kind::Identifier, name_text, start, "expected `,`"));
        },
        Some(name) => name,
    };
    let tail: &str = rest.substring_char(end, rest.unicode_len());
    let (order, exponent) = match read_settings(tail, start + end) {
        Err(d) => {
            return Err(d);
        },
        Ok(pair) => pair,
    };
    match element {
        Err(spelling) => Err(Diagnostic::new_unsupported(spelling.as_str(), name_at)),
        Ok(width) => Ok(
            Directive {
                element_width: width,
                output_name: name,
                name_position: name_at,
                order,
                exponent,
            },
        ),
    }
}

/// Reads a directive. The result is the directive that the grammar finds in
/// the text, or the diagnostic for the first part that breaks it; a
/// diagnostic comes with no part of a directive.
///
/// The element type is named by the first segment of its path, which must
/// be spelled `u8`, `u16`, `u32`, `u64` or `usize`. Any other type, a type
/// that is no path among them, is reported as not supported, at the name
/// and after everything else has been read. The order defaults to ascending
/// and the exponent to 10. An exponent beyond the pointer-sized type is cast
/// into it.
pub fn parse_directive(text: &str) -> (r: Result<Directive, Diagnostic>)
    ensures
        outcome(r) == parsed(text@),
{
    let len: usize = text.unicode_len();
    let comma: usize = find_outside(text, ',');
    let type_text: &str = text.substring_char(0, comma);
    let element: Result<Width, String> = match read_element(type_text) {
        None => {
            return Err(report(Kind::Type, type_text, 0, "expected `,`"));
        },
        Some(element) => element,
    };
    if comma == len {
        return Err(Diagnostic::new_malformed("expected `,`", comma));
    }
    read_named(text.substring_char(comma + 1, len), comma + 1, element)
}

} // verus!
