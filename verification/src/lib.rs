//! Tables of successive powers, built from a short textual directive.
//!
//! A directive such as `u8, TABLE, order = descending, exponent = 10` names an
//! unsigned integer type, a constant, and optionally an order and a base. The
//! crate reads the directive, computes every power of the base that the
//! integer type can hold, and describes the constant array that holds them.
//!
//! Two things are decided here that a reader should know. The exponent is
//! cast into the element type before the table is built, so `exponent = 266`
//! in a table of `u8` is the exponent 10. And an exponent that is 0 or 1
//! after that cast is refused: its powers never overflow, and its table
//! would have no end.
//!
//! `table_of` does all of it; `parser`, `powers` and `artifact` hold the
//! steps, `scan` finds where the parts of a directive end, `grammar` shows
//! what the parser accepts, and `lexical` is where `syn` is asked what a
//! piece of text is.

use vstd::prelude::*;

use crate::artifact::{declaration, generate, generated, ConstArray, ConstArrayView};
use crate::directive::{outcome, Diagnostic, DiagnosticView};
use crate::parser::{parse_directive, parsed};

pub mod artifact;
pub mod directive;
pub mod grammar;
pub mod lexical;
pub mod parser;
pub mod powers;
pub mod scan;
pub mod text;
pub mod width;

verus! {

/// What a directive text stands for: the array of the directive it holds,
/// or the diagnostic that reading it or building its table ends in.
pub open spec fn expansion(tokens: Seq<char>) -> Result<ConstArrayView, DiagnosticView> {
    match parsed(tokens) {
        Err(d) => Err(d),
        Ok(directive) => generated(directive),
    }
}

/// The declaration that a directive text stands for, or its diagnostic.
pub open spec fn expansion_text(tokens: Seq<char>) -> Result<Seq<char>, DiagnosticView> {
    match expansion(tokens) {
        Err(d) => Err(d),
        Ok(array) => Ok(declaration(array)),
    }
}

/// Turns a directive into its table: reads the text, and builds the array
/// that it asks for. Text that is no directive, an element type that is not
/// supported and an exponent without a last power each end in a
/// diagnostic, and then no array is made.
pub fn table_of(tokens: &str) -> (r: Result<ConstArray, Diagnostic>)
    ensures
        outcome(r) == expansion(tokens@),
{
    match parse_directive(tokens) {
        Err(d) => Err(d),
        Ok(directive) => generate(&directive),
    }
}

/// Turns a directive into the text of the declaration of its table.
pub fn expand(tokens: &str) -> (r: Result<String, Diagnostic>)
    ensures
        match r {
            Ok(text) => expansion_text(tokens@) == Ok::<Seq<char>, DiagnosticView>(text@),
            Err(d) => expansion_text(tokens@) == Err::<Seq<char>, DiagnosticView>(d@),
        },
{
    match table_of(tokens) {
        Err(d) => Err(d),
        Ok(array) => Ok(array.render()),
    }
}

/// The same directive text always stands for the same array and the same
/// declaration, character for character, or for the same diagnostic.
pub proof fn lemma_expansion_is_repeatable(first: Seq<char>, second: Seq<char>)
    requires
        first == second,
    ensures
        expansion(first) == expansion(second),
        expansion_text(first) == expansion_text(second),
{
}

} // verus!
