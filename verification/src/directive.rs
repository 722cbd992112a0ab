//! What a directive asks for, and what is reported when it cannot be had.

use vstd::prelude::*;
use vstd::string::*;

use crate::text::same_text;
use crate::width::Width;

verus! {

/// The exponent of a directive that names none.
pub const DEFAULT_EXPONENT: usize = 10;

/// The order in which a table lists its powers.
#[derive(Clone, Copy, Debug, PartialEq, Eq, Structural)]
pub enum Order {
    /// From 1 upward. A directive that names no order has this one.
    Ascending,
    /// From the largest power down to 1.
    Descending,
}

impl Order {
    /// The order that `word` names: `ascending` or `descending`, written
    /// exactly so.
    pub open spec fn named(word: Seq<char>) -> Option<Order> {
        if word == "ascending"@ {
            Some(Order::Ascending)
        } else if word == "descending"@ {
            Some(Order::Descending)
        } else {
            None
        }
    }

    /// A sequence that was built upward, put into this order.
    pub open spec fn arrange<T>(self, ascending: Seq<T>) -> Seq<T> {
        match self {
            Order::Ascending => ascending,
            Order::Descending => ascending.reverse(),
        }
    }

    /// The other order.
    pub open spec fn opposite(self) -> Order {
        match self {
            Order::Ascending => Order::Descending,
            Order::Descending => Order::Ascending,
        }
    }

    /// Looks an order up by its keyword.
    pub fn from_keyword(word: &str) -> (order: Option<Order>)
        ensures
            order == Order::named(word@),
    {
        if same_text(word, "ascending") {
            Some(Order::Ascending)
        } else if same_text(word, "descending") {
            Some(Order::Descending)
        } else {
            None
        }
    }
}

/// One request for a table: the element type, the constant's name, the
/// order of the elements and the base of the powers.
///
/// The exponent is kept as the directive gave it. It is cast into the
/// element type when the table is built, and bits that do not fit are lost
/// there without notice.
#[derive(Debug, PartialEq, Eq)]
pub struct Directive {
    pub element_width: Width,
    pub output_name: String,
    /// The index, in characters, at which the name stands in the directive
    /// text. Failures found after parsing are reported there.
    pub name_position: usize,
    pub order: Order,
    pub exponent: usize,
}

/// A directive as contracts see it.
pub struct DirectiveView {
    pub element_width: Width,
    pub output_name: Seq<char>,
    pub name_position: nat,
    pub order: Order,
    pub exponent: nat,
}

impl View for Directive {
    type V = DirectiveView;

    open spec fn view(&self) -> DirectiveView {
        DirectiveView {
            element_width: self.element_width,
            output_name: self.output_name@,
            name_position: self.name_position as nat,
            order: self.order,
            exponent: self.exponent as nat,
        }
    }
}

/// Why a directive gave no table.
#[derive(Clone, Copy, Debug, PartialEq, Eq, Structural)]
pub enum ErrorKind {
    /// The element type is a type, but none of `u8`, `u16`, `u32`, `u64`,
    /// `usize`.
    UnsupportedWidth,
    /// The text does not follow the grammar of a directive.
    MalformedDirective,
    /// The exponent, cast into the element type, is 0 or 1: its powers never
    /// leave the type, so the table would have no end.
    NonTerminatingSequence,
}

/// The report of a failed directive. No table comes with it.
#[derive(Debug, PartialEq, Eq)]
pub struct Diagnostic {
    pub kind: ErrorKind,
    pub message: String,
    /// The index, in characters of the directive text, of what the message
    /// is about: the first character that is not blank in the part that
    /// failed, or the place where something is missing.
    pub position: usize,
}

/// A diagnostic as contracts see it.
pub struct DiagnosticView {
    pub kind: ErrorKind,
    pub message: Seq<char>,
    pub position: nat,
}

impl Clone for Directive {
    fn clone(&self) -> (copy: Self)
        ensures
            copy@ == self@,
    {
        Directive {
            element_width: self.element_width,
            output_name: self.output_name.clone(),
            name_position: self.name_position,
            order: self.order,
            exponent: self.exponent,
        }
    }
}

impl Clone for Diagnostic {
    fn clone(&self) -> (copy: Self)
        ensures
            copy@ == self@,
    {
        Diagnostic { kind: self.kind, message: self.message.clone(), position: self.position }
    }
}

impl View for Diagnostic {
    type V = DiagnosticView;

    open spec fn view(&self) -> DiagnosticView {
        DiagnosticView {
            kind: self.kind,
            message: self.message@,
            position: self.position as nat,
        }
    }
}

impl Diagnostic {
    /// The report of a breach of the grammar, with a fixed message.
    pub open spec fn malformed(message: Seq<char>, position: int) -> DiagnosticView {
        DiagnosticView { kind: ErrorKind::MalformedDirective, message, position: position as nat }
    }

    /// The report of an element type that is not supported.
    pub open spec fn unsupported(spelling: Seq<char>, position: int) -> DiagnosticView {
        DiagnosticView {
            kind: ErrorKind::UnsupportedWidth,
            message: "table_of not implemented for type `"@ + spelling + "`"@,
            position: position as nat,
        }
    }

    /// The report of an exponent whose table would not end.
    pub open spec fn endless(position: int) -> DiagnosticView {
        DiagnosticView {
            kind: ErrorKind::NonTerminatingSequence,
            message: "table_of needs an exponent of at least 2 in the element type"@,
            position: position as nat,
        }
    }

    /// Reports a breach of the grammar at `position`.
    pub fn new_malformed(message: &str, position: usize) -> (d: Diagnostic)
        ensures
            d@ == Diagnostic::malformed(message@, position as int),
    {
        Diagnostic {
            kind: ErrorKind::MalformedDirective,
            message: String::from_str(message),
            position,
        }
    }

    /// Reports that `spelling` names no supported element type.
    pub fn new_unsupported(spelling: &str, position: usize) -> (d: Diagnostic)
        ensures
            d@ == Diagnostic::unsupported(spelling@, position as int),
    {
        let mut message: String = String::from_str("table_of not implemented for type `");
        message.append(spelling);
        message.append("`");
        Diagnostic { kind: ErrorKind::UnsupportedWidth, message, position }
    }

    /// Reports an exponent that is 0 or 1 in the element type.
    pub fn new_endless(position: usize) -> (d: Diagnostic)
        ensures
            d@ == Diagnostic::endless(position as int),
    {
        Diagnostic {
            kind: ErrorKind::NonTerminatingSequence,
            message: String::from_str(
                "table_of needs an exponent of at least 2 in the element type",
            ),
            position,
        }
    }
}

/// A result whose failure is seen as contracts see a diagnostic.
pub open spec fn reported<T>(result: Result<T, Diagnostic>) -> Result<T, DiagnosticView> {
    match result {
        Ok(value) => Ok(value),
        Err(d) => Err(d@),
    }
}

/// A result whose value and failure are both seen as contracts see them.
pub open spec fn outcome<T: View>(result: Result<T, Diagnostic>) -> Result<T::V, DiagnosticView> {
    match result {
        Ok(value) => Ok(value@),
        Err(d) => Err(d@),
    }
}

} // verus!
