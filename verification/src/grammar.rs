//! The grammar of a directive, written out, and the proof that the parser
//! reads exactly the texts that it writes:
//!
//! ```text
//! directive       := width "," name ["," order_clause] ["," exponent_clause]
//! order_clause    := "order" "=" ("ascending" | "descending")
//! exponent_clause := "exponent" "=" integer_literal
//! ```
//!
//! A part of a directive may hold commas inside brackets and comments, as
//! the type `(u8, u16)` does. It is whole where no comma of it would divide
//! it, and sealed where it closes every bracket and comment that it opens,
//! so that the comma behind it divides the directive.

use vstd::prelude::*;
use vstd::string::*;

use crate::directive::{Diagnostic, DiagnosticView, DirectiveView, ErrorKind, Order, DEFAULT_EXPONENT};
use crate::lexical::{identifier, integer_literal};
use crate::parser::{
    element_for, exponent_after_order, exponent_clause, key_for, key_text, leading, misread,
    named, order_clause, parsed, pointer_sized, settings, value_text, Keyword, Kind,
};
use crate::scan::{
    first_outside, lemma_first_outside_is_first, lemma_first_outside_is_unique,
    lemma_scan_of_prefix, scan_at, sealed,
};
use crate::text::{lemma_past_blanks_is_first, past_blanks};

verus! {

/// Whether no comma of a part stands outside its brackets and comments.
pub open spec fn whole(part: Seq<char>) -> bool {
    first_outside(part, ',') == part.len()
}

/// The clauses that there are, each behind a comma of its own.
pub open spec fn clauses_text(order_text: Option<Seq<char>>, exponent_text: Option<Seq<char>>) -> Seq<
    char,
> {
    let first: Seq<char> = match order_text {
        Some(clause) => seq![','] + clause,
        None => Seq::empty(),
    };
    let second: Seq<char> = match exponent_text {
        Some(clause) => seq![','] + clause,
        None => Seq::empty(),
    };
    first + second
}

/// A directive as the grammar writes it: the type, a comma, the name, and
/// then the clauses.
pub open spec fn directive_text(
    type_text: Seq<char>,
    name_text: Seq<char>,
    order_text: Option<Seq<char>>,
    exponent_text: Option<Seq<char>>,
) -> Seq<char> {
    type_text + seq![','] + name_text + clauses_text(order_text, exponent_text)
}

/// The order that a clause asks for, where it is an `order` clause of the
/// grammar: the identifier `order`, an `=`, and one of the two orders.
pub open spec fn order_asked(clause: Seq<char>) -> Option<Order> {
    if identifier(key_text(clause)) == Some("order"@) && first_outside(clause, '=')
        < clause.len() {
        match identifier(value_text(clause)) {
            Some(word) => Order::named(word),
            None => None,
        }
    } else {
        None
    }
}

/// The exponent that a clause asks for, where it is an `exponent` clause of
/// the grammar: the identifier `exponent`, an `=`, and an integer literal.
pub open spec fn exponent_asked(clause: Seq<char>) -> Option<nat> {
    if identifier(key_text(clause)) == Some("exponent"@) && first_outside(clause, '=')
        < clause.len() {
        match integer_literal(value_text(clause)) {
            Some(value) => Some(pointer_sized(value)),
            None => None,
        }
    } else {
        None
    }
}

/// Whether four parts are those of a directive of the grammar: each part is
/// whole, and sealed where another follows it; the first is a type, the
/// second an identifier, and each clause that there is asks for an order or
/// an exponent.
pub open spec fn well_formed(
    type_text: Seq<char>,
    name_text: Seq<char>,
    order_text: Option<Seq<char>>,
    exponent_text: Option<Seq<char>>,
) -> bool {
    &&& whole(type_text) && sealed(type_text)
    &&& whole(name_text)
    &&& order_text is Some || exponent_text is Some ==> sealed(name_text)
    &&& element_for(type_text) is Some
    &&& identifier(name_text) is Some
    &&& order_text matches Some(clause) ==> {
        &&& whole(clause)
        &&& order_asked(clause) is Some
        &&& exponent_text is Some ==> sealed(clause)
    }
    &&& exponent_text matches Some(clause) ==> whole(clause) && exponent_asked(clause) is Some
}

/// What four well-formed parts stand for: the directive with their type,
/// name, order and exponent, ascending and ten where a clause is missing;
/// or, where the type is none of the five, the diagnostic that says so at
/// the name.
pub open spec fn meaning(
    type_text: Seq<char>,
    name_text: Seq<char>,
    order_text: Option<Seq<char>>,
    exponent_text: Option<Seq<char>>,
) -> Result<DirectiveView, DiagnosticView> {
    let name_at = type_text.len() + 1 + past_blanks(name_text, 0);
    match element_for(type_text)->0 {
        Err(spelling) => Err(Diagnostic::unsupported(spelling, name_at)),
        Ok(width) => Ok(
            DirectiveView {
                element_width: width,
                output_name: identifier(name_text)->0,
                name_position: name_at as nat,
                order: match order_text {
                    Some(clause) => order_asked(clause)->0,
                    None => Order::Ascending,
                },
                exponent: match exponent_text {
                    Some(clause) => exponent_asked(clause)->0,
                    None => DEFAULT_EXPONENT as nat,
                },
            },
        ),
    }
}

/// In a text made of a part that is whole and sealed, a comma and a rest,
/// the first dividing comma is the one behind the part.
proof fn lemma_cut(text: Seq<char>, part: Seq<char>, rest: Seq<char>)
    requires
        text == part + seq![','] + rest,
        whole(part),
        sealed(part),
    ensures
        first_outside(text, ',') == part.len(),
        text.subrange(0, part.len() as int) == part,
        text.subrange(part.len() as int + 1, text.len() as int) == rest,
        text.subrange(part.len() as int, text.len() as int) == seq![','] + rest,
{
    let at = part.len() as int;
    let more = seq![','] + rest;
    assert(text =~= part + more);
    lemma_first_outside_is_first(part, ',', 0);
    assert forall|i: int| 0 <= i < at implies !(text[i] == ',' && scan_at(text, i).outside()) by {
        lemma_scan_of_prefix(part, more, i);
        assert(text[i] == part[i]);
    }
    lemma_scan_of_prefix(part, more, at);
    assert(text[at] == ',');
    lemma_first_outside_is_unique(text, ',', 0, at);
    assert(text.subrange(0, at) =~= part);
    assert(text.subrange(at + 1, text.len() as int) =~= rest);
    assert(text.subrange(at, text.len() as int) =~= more);
}

/// The part of a text before its first dividing comma is whole; where
/// there is such a comma, the part is sealed, and the text is the part, the
/// comma, and what follows.
proof fn lemma_part_before_cut(text: Seq<char>)
    ensures
        ({
            let at = first_outside(text, ',');
            let part = text.subrange(0, at);
            &&& 0 <= at <= text.len()
            &&& whole(part)
            &&& at < text.len() ==> sealed(part) && text == part + seq![','] + text.subrange(
                at + 1,
                text.len() as int,
            )
            &&& at == text.len() ==> text == part
        }),
{
    lemma_first_outside_is_first(text, ',', 0);
    let at = first_outside(text, ',');
    let part = text.subrange(0, at);
    let more = text.subrange(at, text.len() as int);
    assert(text =~= part + more);
    assert forall|i: int| 0 <= i < at implies !(part[i] == ',' && scan_at(part, i).outside()) by {
        lemma_scan_of_prefix(part, more, i);
        assert(text[i] == part[i]);
    }
    lemma_first_outside_is_unique(part, ',', 0, at);
    lemma_scan_of_prefix(part, more, at);
    if at < text.len() {
        assert(text =~= part + seq![','] + text.subrange(at + 1, text.len() as int));
    } else {
        assert(text =~= part);
    }
}

/// A clause that asks for an order is read as an `order` clause, wherever
/// it stands.
proof fn lemma_order_clause_is_read(clause: Seq<char>, start: int)
    requires
        order_asked(clause) is Some,
    ensures
        key_for(clause, start, true) == Ok::<Keyword, DiagnosticView>(Keyword::Order),
        order_clause(clause, start) == Ok::<Order, DiagnosticView>(order_asked(clause)->0),
{
}

/// A clause that asks for an exponent is read as an `exponent` clause,
/// wherever it stands.
proof fn lemma_exponent_clause_is_read(clause: Seq<char>, start: int, order_allowed: bool)
    requires
        exponent_asked(clause) is Some,
    ensures
        key_for(clause, start, order_allowed) == Ok::<Keyword, DiagnosticView>(Keyword::Exponent),
        exponent_clause(clause, start) == Ok::<nat, DiagnosticView>(exponent_asked(clause)->0),
{
    reveal_strlit("order");
    reveal_strlit("exponent");
    assert("order"@.len() == 5 && "exponent"@.len() == 8);
}

/// A clause that is read as an `order` clause asks for the order that was
/// read, and one that is read as an `exponent` clause for that exponent.
proof fn lemma_read_clause_asks(clause: Seq<char>, start: int, order_allowed: bool)
    ensures
        key_for(clause, start, order_allowed) == Ok::<Keyword, DiagnosticView>(Keyword::Order)
            && order_clause(clause, start) is Ok ==> order_asked(clause) == Some(
            order_clause(clause, start)->Ok_0,
        ),
        key_for(clause, start, order_allowed) == Ok::<Keyword, DiagnosticView>(Keyword::Exponent)
            && exponent_clause(clause, start) is Ok ==> exponent_asked(clause) == Some(
            exponent_clause(clause, start)->Ok_0,
        ),
{
    lemma_first_outside_is_first(clause, '=', 0);
}

/// The clauses of a directive of the grammar are read as the order and
/// the exponent that they ask for.
proof fn lemma_clauses_are_read(
    order_text: Option<Seq<char>>,
    exponent_text: Option<Seq<char>>,
    at: int,
)
    requires
        order_text matches Some(clause) ==> {
            &&& whole(clause)
            &&& order_asked(clause) is Some
            &&& exponent_text is Some ==> sealed(clause)
        },
        exponent_text matches Some(clause) ==> whole(clause) && exponent_asked(clause) is Some,
    ensures
        settings(clauses_text(order_text, exponent_text), at) == Ok::<(Order, nat), DiagnosticView>(
            (
                match order_text {
                    Some(clause) => order_asked(clause)->0,
                    None => Order::Ascending,
                },
                match exponent_text {
                    Some(clause) => exponent_asked(clause)->0,
                    None => DEFAULT_EXPONENT as nat,
                },
            ),
        ),
{
    let tail = clauses_text(order_text, exponent_text);
    let comma = seq![','];
    let none = Seq::<char>::empty();
    let body = tail.subrange(1, tail.len() as int);
    match (order_text, exponent_text) {
        (None, None) => {
            assert(tail =~= none);
        },
        (Some(clause), None) => {
            assert(body =~= clause);
            lemma_order_clause_is_read(clause, at + 1);
            assert(body.subrange(0, body.len() as int) =~= clause);
        },
        (None, Some(clause)) => {
            assert(body =~= clause);
            lemma_exponent_clause_is_read(clause, at + 1, true);
            assert(body.subrange(0, body.len() as int) =~= clause);
        },
        (Some(order), Some(exponent)) => {
            assert(body =~= order + comma + exponent);
            lemma_cut(body, order, exponent);
            lemma_order_clause_is_read(order, at + 1);
            let next = order.len() as int;
            let last = body.subrange(next, body.len() as int);
            let inner = last.subrange(1, last.len() as int);
            assert(inner =~= exponent);
            assert(inner.subrange(0, inner.len() as int) =~= exponent);
            lemma_exponent_clause_is_read(exponent, at + 1 + next + 1, false);
            assert(exponent_after_order(last, at + 1 + next) == Ok::<nat, DiagnosticView>(
                exponent_asked(exponent)->0,
            ));
        },
    }
}

/// Every directive that the grammar writes is read as what it stands for:
/// the parser accepts the whole grammar, and refuses a directive of the
/// grammar only for a type that is none of the five.
pub proof fn lemma_grammar_is_accepted(
    type_text: Seq<char>,
    name_text: Seq<char>,
    order_text: Option<Seq<char>>,
    exponent_text: Option<Seq<char>>,
)
    requires
        well_formed(type_text, name_text, order_text, exponent_text),
    ensures
        parsed(directive_text(type_text, name_text, order_text, exponent_text)) == meaning(
            type_text,
            name_text,
            order_text,
            exponent_text,
        ),
{
    let text = directive_text(type_text, name_text, order_text, exponent_text);
    let tail = clauses_text(order_text, exponent_text);
    let rest = name_text + tail;
    let start = type_text.len() as int + 1;
    assert(text =~= type_text + seq![','] + rest);
    lemma_cut(text, type_text, rest);
    lemma_clauses_are_read(order_text, exponent_text, start + name_text.len());
    if order_text is None && exponent_text is None {
        assert(rest =~= name_text);
        assert(rest.subrange(0, rest.len() as int) =~= name_text);
        assert(rest.subrange(rest.len() as int, rest.len() as int) =~= tail);
    } else {
        let more = tail.subrange(1, tail.len() as int);
        assert(rest =~= name_text + seq![','] + more);
        lemma_cut(rest, name_text, more);
        assert(rest.subrange(name_text.len() as int, rest.len() as int) =~= tail);
    }
    assert(named(rest, start, element_for(type_text)->0) == meaning(
        type_text,
        name_text,
        order_text,
        exponent_text,
    ));
}

/// A text behind the name that is read as clauses is made of the clauses
/// of the grammar, which are returned: each behind a comma, whole, and
/// sealed where another follows.
proof fn lemma_tail_is_clauses(tail: Seq<char>, at: int) -> (parts: (
    Option<Seq<char>>,
    Option<Seq<char>>,
))
    requires
        settings(tail, at) is Ok,
        tail.len() > 0 ==> tail[0] == ',',
    ensures
        tail == clauses_text(parts.0, parts.1),
        parts.0 matches Some(clause) ==> {
            &&& whole(clause)
            &&& order_asked(clause) is Some
            &&& parts.1 is Some ==> sealed(clause)
        },
        parts.1 matches Some(clause) ==> whole(clause) && exponent_asked(clause) is Some,
        tail.len() > 0 <==> parts.0 is Some || parts.1 is Some,
{
    let comma = seq![','];
    if tail.len() == 0 {
        assert(tail =~= clauses_text(None, None));
        (None, None)
    } else {
        let body = tail.subrange(1, tail.len() as int);
        assert(tail =~= comma + body);
        lemma_part_before_cut(body);
        let next = first_outside(body, ',');
        let clause = body.subrange(0, next);
        lemma_read_clause_asks(clause, at + 1, true);
        if key_for(clause, at + 1, true) == Ok::<Keyword, DiagnosticView>(Keyword::Order) {
            if next < body.len() {
                let last = body.subrange(next, body.len() as int);
                let inner = last.subrange(1, last.len() as int);
                assert(inner =~= body.subrange(next + 1, body.len() as int));
                lemma_part_before_cut(inner);
                let second = inner.subrange(0, first_outside(inner, ','));
                lemma_read_clause_asks(second, at + 1 + next + 1, false);
                assert(exponent_after_order(last, at + 1 + next) is Ok);
                assert(inner =~= second);
                assert(tail =~= clauses_text(Some(clause), Some(second)));
                (Some(clause), Some(second))
            } else {
                assert(tail =~= clauses_text(Some(clause), None));
                (Some(clause), None)
            }
        } else {
            assert(body =~= clause);
            assert(tail =~= clauses_text(None, Some(clause)));
            (None, Some(clause))
        }
    }
}

/// Every text that is read as a directive, or refused only for its type,
/// is one that the grammar writes, and what comes of it is what its parts
/// stand for: the parser accepts nothing but the grammar.
pub proof fn lemma_accepted_is_grammar(text: Seq<char>)
    requires
        parsed(text) matches Err(d) ==> d.kind == ErrorKind::UnsupportedWidth,
    ensures
        exists|
            type_text: Seq<char>,
            name_text: Seq<char>,
            order_text: Option<Seq<char>>,
            exponent_text: Option<Seq<char>>,
        |
            {
                &&& text == #[trigger] directive_text(
                    type_text,
                    name_text,
                    order_text,
                    exponent_text,
                )
                &&& well_formed(type_text, name_text, order_text, exponent_text)
                &&& parsed(text) == meaning(type_text, name_text, order_text, exponent_text)
            },
{
    lemma_part_before_cut(text);
    let c1 = first_outside(text, ',');
    let type_text = text.subrange(0, c1);
    assert(c1 < text.len());
    let rest = text.subrange(c1 + 1, text.len() as int);
    lemma_part_before_cut(rest);
    let c2 = first_outside(rest, ',');
    let name_text = rest.subrange(0, c2);
    let tail = rest.subrange(c2, rest.len() as int);
    assert(settings(tail, c1 + 1 + c2) is Ok);
    if c2 < rest.len() {
        assert(tail[0] == rest[c2]);
    }
    let parts = lemma_tail_is_clauses(tail, c1 + 1 + c2);
    assert(rest =~= name_text + tail);
    assert(text =~= directive_text(type_text, name_text, parts.0, parts.1));
    assert(well_formed(type_text, name_text, parts.0, parts.1));
    lemma_grammar_is_accepted(type_text, name_text, parts.0, parts.1);
}

/// The longest piece at the beginning of a part is no longer than asked.
proof fn lemma_leading_is_within(kind: Kind, part: Seq<char>, limit: int)
    requires
        limit <= part.len(),
    ensures
        leading(kind, part, limit) matches Some(length) ==> 0 <= length <= limit,
    decreases limit + 1,
{
    if limit >= 0 {
        lemma_leading_is_within(kind, part, limit - 1);
    }
}

/// A part that does not read as it should is reported within the part or
/// at its end.
proof fn lemma_misread_lies_in_part(kind: Kind, part: Seq<char>, start: int, behind: Seq<char>)
    requires
        0 <= start,
    ensures
        misread(kind, part, start, behind).position <= start + part.len(),
{
    lemma_leading_is_within(kind, part, part.len() as int);
    lemma_past_blanks_is_first(part, 0);
    match leading(kind, part, part.len() as int) {
        Some(length) => {
            lemma_past_blanks_is_first(part, length);
        },
        None => {},
    }
}

/// What fails in a clause is reported within the clause or at its end.
proof fn lemma_clause_positions_lie_in_clause(clause: Seq<char>, start: int, order_allowed: bool)
    requires
        0 <= start,
    ensures
        key_for(clause, start, order_allowed) matches Err(d) ==> d.position <= start
            + clause.len(),
        order_clause(clause, start) matches Err(d) ==> d.position <= start + clause.len(),
        exponent_clause(clause, start) matches Err(d) ==> d.position <= start + clause.len(),
{
    lemma_first_outside_is_first(clause, '=', 0);
    lemma_past_blanks_is_first(clause, 0);
    let eq = first_outside(clause, '=');
    lemma_misread_lies_in_part(Kind::Identifier, key_text(clause), start, "expected `=`"@);
    if eq < clause.len() {
        lemma_misread_lies_in_part(
            Kind::Identifier,
            value_text(clause),
            start + eq + 1,
            "expected `,`"@,
        );
        lemma_misread_lies_in_part(
            Kind::Integer,
            value_text(clause),
            start + eq + 1,
            "unexpected token"@,
        );
    }
}

/// What fails behind the name is reported within that text or at its end.
proof fn lemma_settings_positions_lie_in_tail(tail: Seq<char>, at: int)
    requires
        0 <= at,
    ensures
        settings(tail, at) matches Err(d) ==> d.position <= at + tail.len(),
{
    if tail.len() > 0 {
        let body = tail.subrange(1, tail.len() as int);
        lemma_first_outside_is_first(body, ',', 0);
        let next = first_outside(body, ',');
        lemma_clause_positions_lie_in_clause(body.subrange(0, next), at + 1, true);
        if next < body.len() {
            let last = body.subrange(next, body.len() as int);
            let inner = last.subrange(1, last.len() as int);
            lemma_first_outside_is_first(inner, ',', 0);
            lemma_clause_positions_lie_in_clause(
                inner.subrange(0, first_outside(inner, ',')),
                at + 1 + next + 1,
                false,
            );
        }
    }
}

/// Every position that the parser reports lies in the text or at its end.
pub proof fn lemma_positions_lie_in_text(text: Seq<char>)
    ensures
        match parsed(text) {
            Ok(directive) => directive.name_position <= text.len(),
            Err(diagnostic) => diagnostic.position <= text.len(),
        },
{
    lemma_first_outside_is_first(text, ',', 0);
    let c1 = first_outside(text, ',');
    lemma_misread_lies_in_part(Kind::Type, text.subrange(0, c1), 0, "expected `,`"@);
    if c1 < text.len() {
        let rest = text.subrange(c1 + 1, text.len() as int);
        lemma_first_outside_is_first(rest, ',', 0);
        let c2 = first_outside(rest, ',');
        let name_text = rest.subrange(0, c2);
        lemma_past_blanks_is_first(name_text, 0);
        lemma_misread_lies_in_part(Kind::Identifier, name_text, c1 + 1, "expected `,`"@);
        lemma_settings_positions_lie_in_tail(rest.subrange(c2, rest.len() as int), c1 + 1 + c2);
    }
}

} // verus!
