//! The three kinds of Rust syntax a directive is made of: a type, an
//! identifier and an integer literal. What counts as each is decided by
//! `syn`, which is asked through the three functions at the end of this
//! module. Their contracts are taken on trust: each gives the result of the
//! call a name, and claims nothing of it but that it depends on the
//! characters of the text alone. Everything else in the crate is proved.
//!
//! `syn` is built without its `proc-macro` feature. It then reads text with
//! the lexer of `proc-macro2` itself, inside a macro expansion as anywhere
//! else, so that a text is read the same way in every process. A build in
//! which another crate turns that feature on turns it on for this crate too;
//! what the names of this module stand for is then no longer fixed by the
//! text alone.

use vstd::prelude::*;

use crate::text::free_of;

verus! {

/// What a text is, read as a type.
#[derive(Debug, PartialEq, Eq)]
pub enum TypeReading {
    /// The text is no type.
    NoType,
    /// The text is a type, but not one written as a path: a reference, an
    /// array, a tuple and the like.
    NoPath,
    /// The text is a type written as a path, and this is the first segment
    /// of the path.
    Head(String),
}

/// A reading as contracts see it.
pub enum TypeReadingView {
    NoType,
    NoPath,
    Head(Seq<char>),
}

impl View for TypeReading {
    type V = TypeReadingView;

    open spec fn view(&self) -> TypeReadingView {
        match self {
            TypeReading::NoType => TypeReadingView::NoType,
            TypeReading::NoPath => TypeReadingView::NoPath,
            TypeReading::Head(head) => TypeReadingView::Head(head@),
        }
    }
}

/// What `yank_int_type` makes of a text: whether `syn` reads it as a type,
/// whether that type is a path, and the first segment of the path.
///
/// The segment is held as `quote` prints its tokens, a space between each
/// two: the two characters `u8` for the type `u8`, `std` for `std::u8`, and
/// `Vec < u8 >` for a segment with arguments.
pub uninterp spec fn type_reading(text: Seq<char>) -> TypeReadingView;

/// What `read_identifier` makes of a text: the characters of the
/// identifier, for a text that `syn` reads as one identifier and nothing
/// else, and `None` for any other text. White space and plain comments
/// around the identifier are not part of it. `_` and the words that `syn`
/// keeps as keywords are no identifiers.
pub uninterp spec fn identifier(text: Seq<char>) -> Option<Seq<char>>;

/// What `read_integer` makes of a text: the value of the literal, for a
/// text that `syn` reads as one integer literal and nothing else, and `None`
/// for any other text, a literal beyond 64 bits among them. The literal may
/// be decimal, hexadecimal, octal or binary, and may hold underscores and
/// end in a type suffix; it has no sign.
pub uninterp spec fn integer_literal(text: Seq<char>) -> Option<u64>;

/// The characters of a string that may be missing.
pub open spec fn characters(text: Option<String>) -> Option<Seq<char>> {
    match text {
        Some(s) => Some(s@),
        None => None,
    }
}

/// Parses `text` with `syn::parse_str` as a `syn::Type`, takes the first
/// segment of a type that is a path with `Punctuated::first` and
/// `Pair::into_value`, and prints it with
/// `quote::ToTokens::into_token_stream`.
///
/// Trusted: the result is `type_reading` of the characters of `text`, which
/// says only that equal texts give equal results.
///
/// The text must hold no apostrophe. With one, a text can be written on
/// which `syn` panics in the middle of a type: a lifetime as the first bound
/// behind `for<..> dyn`. Without one no lifetime can be written, and every
/// other `unwrap` and `unreachable!` in the parser and the printer of types
/// stands where the code before it has made sure of the case.
#[verifier::external_body]
pub(crate) fn yank_int_type(text: &str) -> (reading: TypeReading)
    requires
        free_of(text@, '\''),
    ensures
        reading@ == type_reading(text@),
{
    match syn::parse_str::<syn::Type>(text) {
        Err(_) => TypeReading::NoType,
        Ok(syn::Type::Path(inner)) => match inner.path.segments.first() {
            Some(x) => {
                TypeReading::Head(quote::ToTokens::into_token_stream(x.into_value()).to_string())
            },
            None => TypeReading::NoPath,
        },
        Ok(_) => TypeReading::NoPath,
    }
}

/// Parses `text` with `syn::parse_str` as a `syn::Ident` and returns the
/// identifier's characters.
///
/// Trusted: the result is `identifier` of the characters of `text`, which
/// says only that equal texts give equal results.
#[verifier::external_body]
pub(crate) fn read_identifier(text: &str) -> (word: Option<String>)
    ensures
        characters(word) == identifier(text@),
{
    match syn::parse_str::<syn::Ident>(text) {
        Ok(ident) => Some(ident.to_string()),
        Err(_) => None,
    }
}

/// Parses `text` with `syn::parse_str` as a `syn::LitInt` and returns what
/// `syn::LitInt::value` gives for it.
///
/// Trusted: the result is `integer_literal` of the characters of `text`,
/// which says only that equal texts give equal results.
#[verifier::external_body]
pub(crate) fn read_integer(text: &str) -> (value: Option<u64>)
    ensures
        value == integer_literal(text@),
{
    match syn::parse_str::<syn::LitInt>(text) {
        Ok(literal) => Some(literal.value()),
        Err(_) => None,
    }
}

} // verus!
