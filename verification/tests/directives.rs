use tablepower::directive::{Diagnostic, Directive, ErrorKind, Order};
use tablepower::lexical::TypeReading;
use tablepower::parser::{
    element_of, keyword_of, misread_at, order_of, parse_directive, to_usize, Keyword, Kind,
};
use tablepower::scan::find_outside;
use tablepower::table_of;
use tablepower::text::{cuts_word, find, is_word, lacks, same_text, skip_blanks, trim};
use tablepower::width::Width;

const INVALID_ORDER: &str =
    "Invalid order specifier specified!. Did you mean `ascending` or `descending`?";

fn malformed(message: &str, position: usize) -> Diagnostic {
    Diagnostic { kind: ErrorKind::MalformedDirective, message: String::from(message), position }
}

fn unsupported(spelling: &str, position: usize) -> Diagnostic {
    Diagnostic {
        kind: ErrorKind::UnsupportedWidth,
        message: format!("table_of not implemented for type `{}`", spelling),
        position,
    }
}

fn directive(width: Width, name: &str, at: usize, order: Order, exponent: usize) -> Directive {
    Directive {
        element_width: width,
        output_name: String::from(name),
        name_position: at,
        order,
        exponent,
    }
}

#[test]
fn unsupported_width_i32() {
    let d = table_of("i32, table").unwrap_err();
    assert_eq!(d.kind, ErrorKind::UnsupportedWidth);
    assert_eq!(d.message, "table_of not implemented for type `i32`");
    assert_eq!(d.position, 5);
    assert_eq!(parse_directive("i32, table"), Err(d));
}

#[test]
fn invalid_order_value() {
    let d = table_of("u8, table, order = descending1").unwrap_err();
    assert_eq!(d, malformed(INVALID_ORDER, 11));
    assert!(parse_directive("u8, table, order = descending1").is_err());
}

#[test]
fn order_value_is_case_sensitive() {
    assert_eq!(parse_directive("u8, t, order = Ascending"), Err(malformed(INVALID_ORDER, 7)));
    assert_eq!(parse_directive("u8, t, order = DESCENDING"), Err(malformed(INVALID_ORDER, 7)));
    assert_eq!(
        parse_directive("u8, t, Order = ascending").unwrap_err().kind,
        ErrorKind::MalformedDirective
    );
}

#[test]
fn every_field_of_a_directive() {
    assert_eq!(
        parse_directive("u8, table, order = descending, exponent = 7"),
        Ok(directive(Width::U8, "table", 4, Order::Descending, 7))
    );
    assert_eq!(
        parse_directive("u16,T"),
        Ok(directive(Width::U16, "T", 4, Order::Ascending, 10))
    );
    assert_eq!(
        parse_directive("u32, t, order = ascending"),
        Ok(directive(Width::U32, "t", 5, Order::Ascending, 10))
    );
    assert_eq!(
        parse_directive("u64, t, exponent = 3"),
        Ok(directive(Width::U64, "t", 5, Order::Ascending, 3))
    );
    assert_eq!(
        parse_directive("usize, POWERS_OF_2, order=descending, exponent=2"),
        Ok(directive(Width::Usize, "POWERS_OF_2", 7, Order::Descending, 2))
    );
}

#[test]
fn white_space_and_comments_around_the_parts() {
    assert_eq!(
        parse_directive("  u8  ,\n\ttable ,order=descending , exponent = 10 "),
        Ok(directive(Width::U8, "table", 9, Order::Descending, 10))
    );
    assert_eq!(
        parse_directive("u8 /**/, table /* the name */, order = descending"),
        Ok(directive(Width::U8, "table", 9, Order::Descending, 10))
    );
}

#[test]
fn separators_inside_comments_divide_nothing() {
    assert_eq!(
        parse_directive("u8 /* 8, 16 */, t"),
        Ok(directive(Width::U8, "t", 16, Order::Ascending, 10))
    );
    assert_eq!(
        parse_directive("u8, t // the name, really\n, exponent = 3"),
        Ok(directive(Width::U8, "t", 4, Order::Ascending, 3))
    );
    assert_eq!(
        parse_directive("u8, t, exponent /* = 7 */ = 3"),
        Ok(directive(Width::U8, "t", 4, Order::Ascending, 3))
    );
    assert_eq!(
        parse_directive("u8, t /* /* nested, */ , */, order = descending"),
        Ok(directive(Width::U8, "t", 4, Order::Descending, 10))
    );
    assert_eq!(
        parse_directive("u8, t, order /* = */ = /* , */ descending /*/ , */, exponent = 2"),
        Ok(directive(Width::U8, "t", 4, Order::Descending, 2))
    );
}

#[test]
fn integer_literals_as_rust_writes_them() {
    assert_eq!(parse_directive("u8, t, exponent = 0x10").unwrap().exponent, 16);
    assert_eq!(parse_directive("u8, t, exponent = 0b101").unwrap().exponent, 5);
    assert_eq!(parse_directive("u8, t, exponent = 0o17").unwrap().exponent, 15);
    assert_eq!(parse_directive("u8, t, exponent = 1_0").unwrap().exponent, 10);
    assert_eq!(parse_directive("u8, t, exponent = 12u8").unwrap().exponent, 12);
    assert_eq!(parse_directive("u8, t, exponent = 0").unwrap().exponent, 0);
    assert_eq!(
        parse_directive("u64, t, exponent = 18446744073709551615").unwrap().exponent as u64,
        to_usize(u64::MAX) as u64
    );
    for value in ["ten", "-3", "\"10\"", "18446744073709551616", ""] {
        let text = format!("u8, t, exponent = {}", value);
        assert_eq!(
            parse_directive(&text),
            Err(malformed("expected integer literal", 18)),
            "{}",
            text
        );
    }
    assert_eq!(
        parse_directive("u8, t, exponent = 1.5"),
        Err(malformed("unexpected token", 19))
    );
    assert_eq!(
        parse_directive("u8, t, exponent = 1 0"),
        Err(malformed("unexpected token", 20))
    );
    assert_eq!(
        parse_directive("u8, t, exponent = 3 = 4"),
        Err(malformed("unexpected token", 20))
    );
}

#[test]
fn the_type_is_read_as_a_rust_type() {
    assert_eq!(parse_directive("::u8, t").unwrap().element_width, Width::U8);
    assert_eq!(parse_directive("u8::Max, t").unwrap().element_width, Width::U8);
    assert_eq!(parse_directive("u128, t"), Err(unsupported("u128", 6)));
    assert_eq!(parse_directive("U8, t"), Err(unsupported("U8", 4)));
    assert_eq!(parse_directive("std::u8, t"), Err(unsupported("std", 9)));
    assert_eq!(parse_directive("a::u16, t"), Err(unsupported("a", 8)));
    assert_eq!(parse_directive("Vec<u8>, t"), Err(unsupported("Vec < u8 >", 9)));
    assert_eq!(parse_directive("u8<T>, t"), Err(unsupported("u8 < T >", 7)));
    for text in ["", ", t", "8, t", "=, t", "&, t", " , t", "fn, t", "dyn, t"] {
        let at = text.chars().take_while(|c| *c == ' ').count();
        assert_eq!(parse_directive(text), Err(malformed("expected a type", at)), "{}", text);
    }
}

#[test]
fn a_type_that_is_no_path_is_not_supported() {
    assert_eq!(parse_directive("&u8, t"), Err(unsupported("&u8", 5)));
    assert_eq!(parse_directive("[u8; 2], NAME"), Err(unsupported("[u8; 2]", 9)));
    assert_eq!(parse_directive(" (u8) , t"), Err(unsupported("(u8)", 8)));
    assert_eq!(parse_directive("fn(), t"), Err(unsupported("fn()", 6)));
    assert_eq!(parse_directive("fn(u8) -> u8, t"), Err(unsupported("fn(u8) -> u8", 14)));
    assert_eq!(parse_directive("*const u8, t"), Err(unsupported("*const u8", 11)));
    assert_eq!(parse_directive("!, t"), Err(unsupported("!", 3)));
    assert_eq!(parse_directive("_, t"), Err(unsupported("_", 3)));
    assert_eq!(parse_directive("dyn A + B, t"), Err(unsupported("dyn A + B", 11)));
    assert_eq!(parse_directive("u8 + B, t"), Err(unsupported("u8 + B", 8)));
    let d = table_of("[u8; 2], NAME").unwrap_err();
    assert_eq!(d.kind, ErrorKind::UnsupportedWidth);
    assert_eq!(d.message, "table_of not implemented for type `[u8; 2]`");
}

#[test]
fn a_type_with_commas_inside_is_one_part() {
    assert_eq!(parse_directive("(u8, u16), t"), Err(unsupported("(u8, u16)", 11)));
    assert_eq!(parse_directive("Vec<u8, A>, t"), Err(unsupported("Vec < u8 , A >", 12)));
    assert_eq!(parse_directive("[(u8, u8); 2], t"), Err(unsupported("[(u8, u8); 2]", 15)));
    assert_eq!(
        parse_directive("fn(u8, u8) -> Vec<u8, A>, t"),
        Err(unsupported("fn(u8, u8) -> Vec<u8, A>", 26))
    );
    assert_eq!(
        parse_directive("A<fn() -> u8, B>, t, order = descending"),
        Err(unsupported("A < fn ( ) -> u8 , B >", 18))
    );
    assert_eq!(parse_directive("::std::collections::HashMap<u8, u8>, t"), Err(unsupported("std", 37)));
}

#[test]
fn a_type_with_an_apostrophe_is_not_supported_and_not_read() {
    assert_eq!(
        parse_directive("for<'b> dyn 'a + T, X"),
        Err(unsupported("for<'b> dyn 'a + T", 20))
    );
    assert_eq!(
        table_of("for<'b> dyn 'a + T, X").unwrap_err().kind,
        ErrorKind::UnsupportedWidth
    );
    assert_eq!(parse_directive("&'a u8, t"), Err(unsupported("&'a u8", 8)));
    assert_eq!(parse_directive(" Cow<'a, u8> , t"), Err(unsupported("Cow<'a, u8>", 15)));
    assert_eq!(parse_directive("', t"), Err(unsupported("'", 3)));
    assert_eq!(
        parse_directive("u8 /* it's u8 */, t"),
        Err(unsupported("u8 /* it's u8 */", 18))
    );
    assert_eq!(
        parse_directive("u8, t /* it's the name */, exponent = 3 // that's all"),
        Ok(directive(Width::U8, "t", 4, Order::Ascending, 3))
    );
    assert_eq!(parse_directive("&'a u8"), Err(malformed("expected `,`", 6)));
    assert_eq!(parse_directive("&'a u8, 5"), Err(malformed("expected identifier", 8)));
}

#[test]
fn the_name_is_an_identifier() {
    assert_eq!(parse_directive("u8, _x1").unwrap().output_name, "_x1");
    for text in ["u8, ", "u8, 1x", "u8, fn", "u8, _", "u8, \"t\"", "u8, 5"] {
        assert_eq!(parse_directive(text), Err(malformed("expected identifier", 4)), "{}", text);
    }
    for text in ["u8,", "u8,, t", "u8,1x"] {
        assert_eq!(parse_directive(text), Err(malformed("expected identifier", 3)), "{}", text);
    }
}

#[test]
fn a_missing_comma_is_reported_at_what_follows() {
    assert_eq!(parse_directive("u8"), Err(malformed("expected `,`", 2)));
    assert_eq!(parse_directive("u8 "), Err(malformed("expected `,`", 3)));
    assert_eq!(parse_directive("u8 table"), Err(malformed("expected `,`", 3)));
    assert_eq!(parse_directive("u8 table, x"), Err(malformed("expected `,`", 3)));
    assert_eq!(parse_directive("  u8  5 , t"), Err(malformed("expected `,`", 6)));
    assert_eq!(parse_directive("Vec<u8> t"), Err(malformed("expected `,`", 8)));
    assert_eq!(parse_directive("u8 = 5"), Err(malformed("expected `,`", 3)));
    assert_eq!(
        parse_directive("u8, t order = descending"),
        Err(malformed("expected `,`", 6))
    );
    assert_eq!(parse_directive("u8, a b"), Err(malformed("expected `,`", 6)));
    assert_eq!(parse_directive("u8, a.b"), Err(malformed("expected `,`", 5)));
    assert_eq!(
        parse_directive("u8, t, order = ascending exponent = 3"),
        Err(malformed("expected `,`", 25))
    );
    assert_eq!(
        parse_directive("u8, t, order = ascending descending"),
        Err(malformed("expected `,`", 25))
    );
}

#[test]
fn a_missing_equals_sign_is_reported_where_it_should_stand() {
    assert_eq!(parse_directive("u8, t, order"), Err(malformed("expected `=`", 12)));
    assert_eq!(parse_directive("u8, t, exponent"), Err(malformed("expected `=`", 15)));
    assert_eq!(parse_directive("u8, t, order ascending"), Err(malformed("expected `=`", 13)));
    assert_eq!(parse_directive("u8, t, exponent 3"), Err(malformed("expected `=`", 16)));
    assert_eq!(parse_directive("u8, t, exponent <= 3"), Err(malformed("expected `=`", 16)));
    assert_eq!(
        parse_directive("u8, t, order = ascending, exponent 3"),
        Err(malformed("expected `=`", 35))
    );
}

#[test]
fn parts_that_are_missing_or_too_many() {
    assert_eq!(parse_directive("u8, t,"), Err(malformed("expected identifier", 6)));
    assert_eq!(parse_directive("u8, t, = 3"), Err(malformed("expected identifier", 7)));
    assert_eq!(parse_directive("u8, t, order = "), Err(malformed("expected identifier", 15)));
    assert_eq!(parse_directive("u8, t, order = 5"), Err(malformed("expected identifier", 15)));
    assert_eq!(
        parse_directive("u8, t, exponent = 5, order = ascending"),
        Err(malformed("unexpected token", 19))
    );
    assert_eq!(
        parse_directive("u8, t, order = ascending, exponent = 5,"),
        Err(malformed("unexpected token", 38))
    );
    assert_eq!(
        parse_directive("u8, t, order = ascending, exponent = 5, more"),
        Err(malformed("unexpected token", 38))
    );
    assert_eq!(
        parse_directive("u8, t, order = ascending,"),
        Err(malformed("expected identifier", 25))
    );
}

#[test]
fn keywords_are_taken_literally() {
    assert_eq!(
        parse_directive("u8, t, sort = ascending"),
        Err(malformed("Expected `order` or `exponent`", 7))
    );
    assert_eq!(
        parse_directive("u8, t, ORDER = ascending"),
        Err(malformed("Expected `order` or `exponent`", 7))
    );
    assert_eq!(
        parse_directive("u8, t, order = ascending, order = descending"),
        Err(malformed("Expected `exponent`", 26))
    );
    assert_eq!(
        parse_directive("u8, t, order = ascending, base = 3"),
        Err(malformed("Expected `exponent`", 26))
    );
    assert_eq!(
        parse_directive("u8, t, order = ascending, Exponent = 3"),
        Err(malformed("Expected `exponent`", 26))
    );
}

#[test]
fn the_first_failure_decides() {
    assert_eq!(
        parse_directive("i32, t, order = sideways"),
        Err(malformed(INVALID_ORDER, 8))
    );
    assert_eq!(
        parse_directive("i32, 5, order = sideways"),
        Err(malformed("expected identifier", 5))
    );
    assert_eq!(parse_directive("&, 5"), Err(malformed("expected a type", 0)));
    assert_eq!(parse_directive("[u8; 2], t, exponent = x"), Err(malformed("expected integer literal", 23)));
    let d = parse_directive("i32, t, exponent = 0").unwrap_err();
    assert_eq!(d.kind, ErrorKind::UnsupportedWidth);
}

#[test]
fn positions_count_characters() {
    assert_eq!(
        parse_directive("u8, t\u{e9}, order = up"),
        Err(malformed(INVALID_ORDER, 8))
    );
    assert_eq!(
        parse_directive("u8 /* \u{e9}\u{e9} */, 5"),
        Err(malformed("expected identifier", 13))
    );
}

#[test]
fn keyword_of_a_key() {
    assert_eq!(keyword_of("order", 9, true), Ok(Keyword::Order));
    assert_eq!(keyword_of("exponent", 9, true), Ok(Keyword::Exponent));
    assert_eq!(keyword_of("exponent", 9, false), Ok(Keyword::Exponent));
    assert_eq!(keyword_of("order", 9, false), Err(malformed("Expected `exponent`", 9)));
    assert_eq!(keyword_of("x", 9, false), Err(malformed("Expected `exponent`", 9)));
    assert_eq!(keyword_of("x", 2, true), Err(malformed("Expected `order` or `exponent`", 2)));
    assert_eq!(keyword_of("", 2, true), Err(malformed("Expected `order` or `exponent`", 2)));
}

#[test]
fn order_of_a_word() {
    assert_eq!(order_of("ascending", 1), Ok(Order::Ascending));
    assert_eq!(order_of("descending", 1), Ok(Order::Descending));
    assert_eq!(order_of("descending1", 1), Err(malformed(INVALID_ORDER, 1)));
    assert_eq!(order_of("", 1), Err(malformed(INVALID_ORDER, 1)));
    assert_eq!(Order::from_keyword("ascending"), Some(Order::Ascending));
    assert_eq!(Order::from_keyword("descending"), Some(Order::Descending));
    assert_eq!(Order::from_keyword("Descending"), None);
    assert_eq!(Order::from_keyword("ascending "), None);
}

#[test]
fn exponent_cast_to_the_pointer_sized_type() {
    assert_eq!(to_usize(77), 77);
    assert_eq!(to_usize(0), 0);
    assert_eq!(to_usize(u64::MAX), u64::MAX as usize);
    assert_eq!(to_usize(1 << 40), (1u64 << 40) as usize);
}

#[test]
fn element_of_a_reading() {
    let head = |h: &str| TypeReading::Head(String::from(h));
    assert_eq!(element_of(head("u8"), "u8"), Some(Ok(Width::U8)));
    assert_eq!(element_of(head("u16"), " u16 "), Some(Ok(Width::U16)));
    assert_eq!(element_of(head("u32"), "u32"), Some(Ok(Width::U32)));
    assert_eq!(element_of(head("u64"), "u64"), Some(Ok(Width::U64)));
    assert_eq!(element_of(head("usize"), "usize"), Some(Ok(Width::Usize)));
    assert_eq!(element_of(head("i32"), " i32"), Some(Err(String::from("i32"))));
    assert_eq!(element_of(head("std"), "std::u8"), Some(Err(String::from("std"))));
    assert_eq!(element_of(TypeReading::NoPath, "  [u8; 2]\t"), Some(Err(String::from("[u8; 2]"))));
    assert_eq!(element_of(TypeReading::NoPath, "   "), Some(Err(String::new())));
    assert_eq!(element_of(TypeReading::NoType, "u8"), None);
    for width in [Width::U8, Width::U16, Width::U32, Width::U64, Width::Usize] {
        assert_eq!(Width::from_spelling(width.spelling()), Some(width));
    }
    for spelling in ["", "u", "u8 ", " u8", "U8", "u128", "i8", "isize", "u 8"] {
        assert_eq!(Width::from_spelling(spelling), None, "{}", spelling);
    }
}

#[test]
fn misread_at_a_place() {
    assert_eq!(
        misread_at(Some(3), Kind::Type, "u8 table", 0, "expected `,`"),
        malformed("expected `,`", 3)
    );
    assert_eq!(
        misread_at(Some(2), Kind::Identifier, " a   b", 10, "expected `=`"),
        malformed("expected `=`", 15)
    );
    assert_eq!(
        misread_at(Some(2), Kind::Integer, " 5", 10, "unexpected token"),
        malformed("unexpected token", 12)
    );
    assert_eq!(misread_at(None, Kind::Type, "  ?", 4, "x"), malformed("expected a type", 6));
    assert_eq!(
        misread_at(None, Kind::Identifier, "", 4, "x"),
        malformed("expected identifier", 4)
    );
    assert_eq!(
        misread_at(None, Kind::Integer, " x", 4, "x"),
        malformed("expected integer literal", 5)
    );
}

#[test]
fn find_and_same_text() {
    assert_eq!(find("a,b,c", ',', 0), 1);
    assert_eq!(find("a,b,c", ',', 1), 1);
    assert_eq!(find("a,b,c", ',', 2), 3);
    assert_eq!(find("a,b,c", ',', 4), 5);
    assert_eq!(find("a,b,c", ',', 5), 5);
    assert_eq!(find("", ',', 0), 0);
    assert_eq!(find("\u{e9}\u{e9}=x", '=', 0), 2);
    assert_eq!(skip_blanks("  a b", 0), 2);
    assert_eq!(skip_blanks("  a b", 2), 2);
    assert_eq!(skip_blanks("  a b", 3), 4);
    assert_eq!(skip_blanks(" \t\r\n", 0), 4);
    assert_eq!(skip_blanks("", 0), 0);
    assert_eq!(skip_blanks("\u{a0}x", 0), 0);
    assert!(same_text("", ""));
    assert!(same_text("order", "order"));
    assert!(!same_text("order", "orde"));
    assert!(!same_text("order", "ordet"));
    assert!(!same_text("a", ""));
    assert!(lacks("abc", '\''));
    assert!(lacks("", '\''));
    assert!(!lacks("a'c", '\''));
    assert_eq!(trim("  a b \n"), "a b");
    assert_eq!(trim("a"), "a");
    assert_eq!(trim(" \t "), "");
    assert_eq!(trim(""), "");
    assert!(is_word('a') && is_word('Z') && is_word('0') && is_word('_') && is_word('\u{e9}'));
    assert!(!is_word(' ') && !is_word('-') && !is_word(',') && !is_word('<'));
    assert!(cuts_word("ab", 1));
    assert!(!cuts_word("ab", 0) && !cuts_word("ab", 2) && !cuts_word("a b", 1));
    assert!(!cuts_word("a.b", 1) && !cuts_word("a.b", 2));
}

#[test]
fn find_outside_brackets_and_comments() {
    assert_eq!(find_outside("a,b", ','), 1);
    assert_eq!(find_outside("abc", ','), 3);
    assert_eq!(find_outside("", ','), 0);
    assert_eq!(find_outside("(a,b),c", ','), 5);
    assert_eq!(find_outside("[a,b],c", ','), 5);
    assert_eq!(find_outside("{a,b},c", ','), 5);
    assert_eq!(find_outside("A<b,c>,d", ','), 6);
    assert_eq!(find_outside("A<B<c,d>,e>,f", ','), 11);
    assert_eq!(find_outside("A<B<c,d>>,f", ','), 9);
    assert_eq!(find_outside("fn()->u8,b", ','), 8);
    assert_eq!(find_outside("A<fn()->u8,b>,c", ','), 13);
    assert_eq!(find_outside("[u8;1<2],b", ','), 8);
    assert_eq!(find_outside("a>b,c", ','), 3);
    assert_eq!(find_outside("a),b", ','), 2);
    assert_eq!(find_outside("(a,b", ','), 4);
    assert_eq!(find_outside("/*,*/a,b", ','), 6);
    assert_eq!(find_outside("/*/,*/a,b", ','), 7);
    assert_eq!(find_outside("/*/*,*/,*/,b", ','), 10);
    assert_eq!(find_outside("/**/,b", ','), 4);
    assert_eq!(find_outside("/* , ", ','), 5);
    assert_eq!(find_outside("a//,\n,b", ','), 5);
    assert_eq!(find_outside("a//,", ','), 4);
    assert_eq!(find_outside("a/ /,b", ','), 4);
    assert_eq!(find_outside("a / b,c", ','), 5);
    assert_eq!(find_outside("// /* \n,", ','), 7);
    assert_eq!(find_outside("/* // */,", ','), 8);
    assert_eq!(find_outside("(/* ) */,),b", ','), 10);
    assert_eq!(find_outside("k /*=*/ = v", '='), 8);
    assert_eq!(find_outside("k (=) = v", '='), 6);
}

#[test]
fn positions_lie_in_the_text() {
    let texts = [
        "", " ", ",", ",,", ",,,", ",,,,", "u8", "u8,", "u8, ", "u8, t", "u8, t,", "u8, t, ",
        "u8, t, =", "u8, t, order", "u8, t, order =", "u8, t, order = ", "u8, t, order = up",
        "u8, t, order = ascending,", "u8, t, order = ascending, ", "u8, t, order = ascending, =",
        "u8, t, order = ascending, exponent", "u8, t, order = ascending, exponent = ",
        "u8, t, order = ascending, exponent = 2,", "u8, t, exponent = 2, ", "i8, t", "   ",
        "u8, t, exponent = 0", "\u{e9}, \u{e9}, \u{e9} = \u{e9}", "u8 t", "u8, t u", "(u8, t",
        "u8, t, order ascending", "u8, t, exponent = 1 2", "/* u8, t", "u8 // , t", "'a, t", "[u8; 2]",
    ];
    for text in texts {
        let length = text.chars().count();
        match parse_directive(text) {
            Ok(d) => assert!(d.name_position <= length, "{}", text),
            Err(d) => assert!(d.position <= length, "{}", text),
        }
        if let Err(d) = table_of(text) {
            assert!(d.position <= length, "{}", text);
        }
    }
}

#[test]
fn directives_written_part_by_part() {
    let types = [("u8", Width::U8), (" u16 ", Width::U16), ("\tusize /* , */", Width::Usize)];
    let names = [("t", "t", 0), (" TABLE", "TABLE", 1), ("  _n1 ", "_n1", 2)];
    let orders = [
        (None, Order::Ascending),
        (Some("order=ascending"), Order::Ascending),
        (Some(" order = descending "), Order::Descending),
    ];
    let exponents = [(None, 10), (Some("exponent=2"), 2), (Some(" exponent = 0x1f "), 31)];
    for (type_text, width) in types {
        for (name_text, name, blanks) in names {
            for (order_text, order) in orders {
                for (exponent_text, exponent) in exponents {
                    let mut text = format!("{},{}", type_text, name_text);
                    for clause in [order_text, exponent_text].into_iter().flatten() {
                        text.push(',');
                        text.push_str(clause);
                    }
                    let at = type_text.chars().count() + 1 + blanks;
                    assert_eq!(
                        parse_directive(&text),
                        Ok(directive(width, name, at, order, exponent)),
                        "{}",
                        text
                    );
                }
            }
        }
    }
}
