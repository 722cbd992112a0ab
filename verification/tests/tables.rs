use tablepower::artifact::{generate, reverse, ConstArray};
use tablepower::directive::{Diagnostic, Directive, ErrorKind, Order, DEFAULT_EXPONENT};
use tablepower::powers::power_sequence;
use tablepower::width::Width;
use tablepower::{expand, table_of};

fn values(text: &str) -> Vec<u64> {
    table_of(text).expect("the directive has a table").values
}

fn request(width: Width, order: Order, exponent: usize) -> Directive {
    Directive {
        element_width: width,
        output_name: String::from("TABLE"),
        name_position: 4,
        order,
        exponent,
    }
}

#[test]
fn u8_with_default_exponent() {
    assert_eq!(values("u8, table"), vec![1, 10, 100]);
    assert_eq!(values("u8, table").len(), 3);
    assert!(100u64 * 10 > u64::from(u8::MAX));
}

#[test]
fn u8_descending_with_exponent_ten() {
    assert_eq!(values("u8, table, order = descending, exponent = 10"), vec![100, 10, 1]);
}

#[test]
fn u16_with_default_exponent() {
    assert_eq!(values("u16, table"), vec![1, 10, 100, 1000, 10000]);
    assert!(10000u64 * 10 > u64::from(u16::MAX));
}

#[test]
fn descending_table_as_in_a_program() {
    let table = table_of("u8, table, order = descending").unwrap();
    assert!(table.values.len() == 3);
    assert_eq!(table.values, [100, 10, 1]);
    assert_eq!(table.name, "table");
    assert_eq!(table.width, Width::U8);
}

#[test]
fn default_exponent_is_ten() {
    assert_eq!(DEFAULT_EXPONENT, 10);
    assert_eq!(values("u16, t"), values("u16, t, exponent = 10"));
}

#[test]
fn default_order_is_ascending() {
    assert_eq!(values("u16, t, exponent = 3"), values("u16, t, order = ascending, exponent = 3"));
}

#[test]
fn u32_and_u64_and_usize_with_default_exponent() {
    let u32_table = values("u32, t");
    assert_eq!(u32_table.len(), 10);
    assert_eq!(u32_table[9], 1_000_000_000);
    let u64_table = values("u64, t");
    assert_eq!(u64_table.len(), 20);
    assert_eq!(u64_table[19], 10_000_000_000_000_000_000);
    let usize_table = values("usize, t");
    let mut expected: Vec<u64> = Vec::new();
    let mut current: usize = 1;
    loop {
        expected.push(current as u64);
        match current.checked_mul(10) {
            Some(next) => current = next,
            None => break,
        }
    }
    assert_eq!(usize_table, expected);
}

#[test]
fn table_ends_where_the_next_power_overflows() {
    let widths = [
        (Width::U8, u64::from(u8::MAX)),
        (Width::U16, u64::from(u16::MAX)),
        (Width::U32, u64::from(u32::MAX)),
        (Width::U64, u64::MAX),
        (Width::Usize, usize::MAX as u64),
    ];
    for (width, max) in widths {
        assert_eq!(width.max_value(), max);
        for exponent in [2usize, 3, 7, 10, 16, 255] {
            let table = power_sequence(width, exponent).unwrap();
            let base = exponent as u128;
            let mut count = 0usize;
            let mut power: u128 = 1;
            while power <= u128::from(max) {
                assert_eq!(u128::from(table[count]), power);
                count += 1;
                power *= base;
            }
            assert_eq!(table.len(), count);
            assert!(u128::from(*table.last().unwrap()) * base > u128::from(max));
        }
    }
}

#[test]
fn powers_of_two_in_u32() {
    let table = power_sequence(Width::U32, 2).unwrap();
    assert_eq!(table.len(), 32);
    assert_eq!(table[0], 1);
    assert_eq!(table[31], 2_147_483_648);
}

#[test]
fn exponent_that_is_the_largest_value() {
    assert_eq!(power_sequence(Width::U8, 255), Some(vec![1, 255]));
    assert_eq!(power_sequence(Width::U16, 65535), Some(vec![1, 65535]));
}

#[test]
fn exponent_is_cast_into_the_width() {
    assert_eq!(Width::U8.truncate(258), 2);
    assert_eq!(Width::U8.truncate(255), 255);
    assert_eq!(Width::U16.truncate(65536 + 10), 10);
    assert_eq!(Width::U64.truncate(usize::MAX), usize::MAX as u64);
    assert_eq!(Width::Usize.truncate(usize::MAX), usize::MAX as u64);
    assert_eq!(power_sequence(Width::U8, 258), Some(vec![1, 2, 4, 8, 16, 32, 64, 128]));
    assert_eq!(values("u8, t, exponent = 266"), vec![1, 10, 100]);
}

#[test]
fn exponent_without_a_last_power_is_refused() {
    assert_eq!(power_sequence(Width::U8, 0), None);
    assert_eq!(power_sequence(Width::U64, 1), None);
    assert_eq!(power_sequence(Width::U8, 256), None);
    assert_eq!(power_sequence(Width::U8, 257), None);
    for text in ["u8, t, exponent = 0", "u32, t, exponent = 1", "u8, t, exponent = 256"] {
        let d = table_of(text).unwrap_err();
        assert_eq!(d.kind, ErrorKind::NonTerminatingSequence);
        assert_eq!(d.message, "table_of needs an exponent of at least 2 in the element type");
        assert_eq!(d.position, text.find(',').unwrap() + 2);
    }
    let refused = generate(&request(Width::U16, Order::Descending, 65537)).unwrap_err();
    assert_eq!(
        refused,
        Diagnostic {
            kind: ErrorKind::NonTerminatingSequence,
            message: String::from("table_of needs an exponent of at least 2 in the element type"),
            position: 4,
        }
    );
}

#[test]
fn generate_builds_the_array_of_a_directive() {
    let array = generate(&request(Width::U16, Order::Descending, 10)).unwrap();
    assert_eq!(
        array,
        ConstArray {
            name: String::from("TABLE"),
            width: Width::U16,
            values: vec![10000, 1000, 100, 10, 1],
        }
    );
    let array = generate(&request(Width::U8, Order::Ascending, 4)).unwrap();
    assert_eq!(array.values, vec![1, 4, 16, 64]);
}

#[test]
fn descending_is_ascending_reversed() {
    for width in [Width::U8, Width::U16, Width::U32, Width::U64, Width::Usize] {
        for exponent in [2usize, 5, 10, 300] {
            let up = generate(&request(width, Order::Ascending, exponent)).unwrap().values;
            let down = generate(&request(width, Order::Descending, exponent)).unwrap().values;
            let mut up_reversed = up.clone();
            up_reversed.reverse();
            let mut down_reversed = down.clone();
            down_reversed.reverse();
            assert_eq!(up_reversed, down);
            assert_eq!(down_reversed, up);
        }
    }
}

#[test]
fn reverse_turns_a_vector_round() {
    let mut even = vec![1, 2, 3, 4];
    reverse(&mut even);
    assert_eq!(even, vec![4, 3, 2, 1]);
    let mut odd = vec![1, 2, 3];
    reverse(&mut odd);
    assert_eq!(odd, vec![3, 2, 1]);
    let mut one = vec![7];
    reverse(&mut one);
    assert_eq!(one, vec![7]);
    let mut none: Vec<u64> = Vec::new();
    reverse(&mut none);
    assert!(none.is_empty());
}

#[test]
fn same_text_gives_the_same_output() {
    for text in ["u8, table", "u64, T, order = descending, exponent = 3", "i32, table", "u8"] {
        assert_eq!(table_of(text), table_of(text));
        assert_eq!(expand(text), expand(text));
        let first = expand(text).map(String::into_bytes);
        let second = expand(text).map(String::into_bytes);
        assert_eq!(first, second);
    }
}

#[test]
fn declaration_of_a_table() {
    assert_eq!(
        expand("u8, table, order = descending").unwrap(),
        "const table: [u8; 3] = [100, 10, 1];"
    );
    assert_eq!(
        expand("u16, POWERS").unwrap(),
        "const POWERS: [u16; 5] = [1, 10, 100, 1000, 10000];"
    );
    assert_eq!(expand("u8, one, exponent = 255").unwrap(), "const one: [u8; 2] = [1, 255];");
    assert_eq!(
        expand("usize, big, exponent = 4294967296").map_err(|d| d.kind),
        if usize::MAX as u64 == u64::MAX {
            Ok(String::from("const big: [usize; 2] = [1, 4294967296];"))
        } else {
            Err(ErrorKind::NonTerminatingSequence)
        }
    );
}

#[test]
fn declaration_writes_every_digit() {
    let array = ConstArray {
        name: String::from("N"),
        width: Width::U64,
        values: vec![0, 9, 10, 1234567890, u64::MAX],
    };
    assert_eq!(
        array.render(),
        "const N: [u64; 5] = [0, 9, 10, 1234567890, 18446744073709551615];"
    );
    let empty = ConstArray { name: String::from("E"), width: Width::Usize, values: Vec::new() };
    assert_eq!(empty.render(), "const E: [usize; 0] = [];");
    let twelve = ConstArray { name: String::from("L"), width: Width::U8, values: vec![1; 12] };
    assert_eq!(twelve.render(), "const L: [u8; 12] = [1, 1, 1, 1, 1, 1, 1, 1, 1, 1, 1, 1];");
}

#[test]
fn capacity_is_the_count_of_decimal_powers() {
    assert_eq!(Width::U8.capacity(), 3);
    assert_eq!(Width::U16.capacity(), 5);
    assert_eq!(Width::U32.capacity(), 10);
    assert_eq!(Width::U64.capacity(), 20);
    assert_eq!(Width::Usize.capacity(), 20);
    for width in [Width::U8, Width::U16, Width::U32, Width::U64] {
        assert_eq!(power_sequence(width, 10).unwrap().len(), width.capacity());
    }
    for width in [Width::U8, Width::U16, Width::U32, Width::U64, Width::Usize] {
        for exponent in [10usize, 11, 100, 255] {
            assert!(power_sequence(width, exponent).unwrap().len() <= width.capacity());
        }
    }
    assert!(power_sequence(Width::U8, 2).unwrap().len() > Width::U8.capacity());
}
