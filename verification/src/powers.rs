//! The powers of a base that fit below a limit.

use vstd::arithmetic::power::*;
use vstd::prelude::*;

use crate::width::Width;

verus! {

/// How many powers of `base`, counted from the zeroth, do not exceed `max`.
/// A base below 2 has no table, and counts as none.
pub open spec fn power_count(base: nat, max: nat) -> nat
    decreases max,
{
    if base < 2 || max < 1 {
        0
    } else {
        proof {
            assert(max / base < max) by (nonlinear_arith)
                requires
                    base >= 2,
                    max >= 1,
            ;
        }
        1 + power_count(base, max / base)
    }
}

/// The powers of `base` that do not exceed `max`, from the zeroth upward.
pub open spec fn power_table(base: nat, max: nat) -> Seq<nat> {
    Seq::new(power_count(base, max), |i: int| pow(base as int, i as nat) as nat)
}

/// The numbers that a vector of elements holds.
pub open spec fn values_of(elements: Seq<u64>) -> Seq<nat> {
    elements.map_values(|v: u64| v as nat)
}

/// The table of a width for an exponent as a directive gives it: the
/// exponent is cast into the width first, and the powers of what is left
/// are taken up to the width's largest value.
pub open spec fn table_values(width: Width, exponent: nat) -> Seq<nat> {
    power_table(width.cast(exponent), width.max())
}

/// A power of `base` does not exceed `max` exactly when its index is below
/// the count.
pub proof fn lemma_power_count_spans(base: nat, max: nat, k: nat)
    requires
        base >= 2,
    ensures
        pow(base as int, k) <= max <==> k < power_count(base, max),
    decreases k,
{
    reveal(pow);
    if max < 1 {
        lemma_pow_positive(base as int, k);
    } else if k > 0 {
        let p = pow(base as int, (k - 1) as nat);
        lemma_pow_positive(base as int, (k - 1) as nat);
        lemma_power_count_spans(base, max / base, (k - 1) as nat);
        assert((base * p <= max) <==> (p <= max / base)) by (nonlinear_arith)
            requires
                base >= 2,
                p >= 1,
                max >= 1,
        ;
    }
}

/// The table is not empty, its last element is within `max`, and one more
/// multiplication by `base` leaves `max` behind.
pub proof fn lemma_power_table_is_maximal(base: nat, max: nat)
    requires
        base >= 2,
        max >= 1,
    ensures
        power_table(base, max).len() >= 1,
        power_table(base, max)[0] == 1,
        forall|i: int|
            0 <= i < power_table(base, max).len() ==> 1 <= #[trigger] power_table(base, max)[i]
                <= max,
        forall|i: int|
            0 < i < power_table(base, max).len() ==> #[trigger] power_table(base, max)[i]
                == power_table(base, max)[i - 1] * base,
        power_table(base, max).last() * base > max,
{
    reveal(pow);
    let n = power_count(base, max);
    lemma_power_count_spans(base, max, 0);
    lemma_power_count_spans(base, max, n);
    assert forall|i: int| 0 <= i < n implies 1 <= #[trigger] power_table(base, max)[i] <= max by {
        lemma_power_count_spans(base, max, i as nat);
        lemma_pow_positive(base as int, i as nat);
    }
    lemma_pow_positive(base as int, (n - 1) as nat);
    assert(pow(base as int, n) == base * pow(base as int, (n - 1) as nat));
    assert(power_table(base, max).last() * base == pow(base as int, n)) by (nonlinear_arith)
        requires
            pow(base as int, n) == base * pow(base as int, (n - 1) as nat),
            power_table(base, max).last() == pow(base as int, (n - 1) as nat),
    ;
    assert forall|i: int| 0 < i < n implies #[trigger] power_table(base, max)[i] == power_table(
        base,
        max,
    )[i - 1] * base by {
        lemma_pow_positive(base as int, i as nat);
        lemma_pow_positive(base as int, (i - 1) as nat);
        assert(pow(base as int, i as nat) == base * pow(base as int, (i - 1) as nat));
        assert(base * pow(base as int, (i - 1) as nat) == pow(base as int, (i - 1) as nat) * base)
            by (nonlinear_arith);
    }
}

/// A sequence that starts at 1, multiplies by `base` from each element to
/// the next, stays within `max` and could not take one more element is the
/// table.
pub proof fn lemma_power_table_is_unique(table: Seq<nat>, base: nat, max: nat)
    requires
        base >= 2,
        table.len() >= 1,
        forall|i: int| 0 <= i < table.len() ==> #[trigger] table[i] == pow(base as int, i as nat),
        table.last() <= max,
        table.last() * base > max,
    ensures
        table == power_table(base, max),
{
    reveal(pow);
    let n = table.len();
    assert(pow(base as int, n) == base * pow(base as int, (n - 1) as nat));
    assert(pow(base as int, n) > max) by (nonlinear_arith)
        requires
            pow(base as int, n) == base * pow(base as int, (n - 1) as nat),
            table.last() == pow(base as int, (n - 1) as nat),
            table.last() * base > max,
    ;
    lemma_power_count_spans(base, max, n);
    lemma_power_count_spans(base, max, (n - 1) as nat);
    assert(table =~= power_table(base, max));
}

/// With a base of ten or more, the table has no more elements than the
/// width's capacity says; with ten itself, a fixed width's table has
/// exactly that many.
pub proof fn lemma_capacity_bounds_decimal_tables(width: Width, base: nat)
    requires
        base >= 10,
    ensures
        power_table(base, width.max()).len() <= width.decimal_capacity(),
        base == 10 && width != Width::Usize ==> power_table(base, width.max()).len()
            == width.decimal_capacity(),
{
    let cap = width.decimal_capacity();
    let max = width.max();
    lemma_pow_of_ten(cap);
    if base > 10 {
        lemma_pow_base_increases(10, base, cap);
    }
    assert(pow(base as int, cap) > max);
    lemma_power_count_spans(base, max, cap);
    if base == 10 && width != Width::Usize {
        lemma_pow_of_ten((cap - 1) as nat);
        lemma_power_count_spans(base, max, (cap - 1) as nat);
    }
}

/// The powers of ten that tell where each width ends.
proof fn lemma_pow_of_ten(e: nat)
    requires
        e <= 20,
    ensures
        e == 2 ==> pow(10, e) == 100,
        e == 3 ==> pow(10, e) == 1_000,
        e == 4 ==> pow(10, e) == 10_000,
        e == 5 ==> pow(10, e) == 100_000,
        e == 9 ==> pow(10, e) == 1_000_000_000,
        e == 10 ==> pow(10, e) == 10_000_000_000,
        e == 19 ==> pow(10, e) == 10_000_000_000_000_000_000,
        e == 20 ==> pow(10, e) == 100_000_000_000_000_000_000,
{
    reveal(pow);
    assert(pow(10, 0) == 1);
    assert(pow(10, 1) == 10);
    assert(pow(10, 2) == 100);
    assert(pow(10, 3) == 1_000);
    assert(pow(10, 4) == 10_000);
    assert(pow(10, 5) == 100_000);
    assert(pow(10, 6) == 1_000_000);
    assert(pow(10, 7) == 10_000_000);
    assert(pow(10, 8) == 100_000_000);
    assert(pow(10, 9) == 1_000_000_000);
    assert(pow(10, 10) == 10_000_000_000);
    assert(pow(10, 11) == 100_000_000_000);
    assert(pow(10, 12) == 1_000_000_000_000);
    assert(pow(10, 13) == 10_000_000_000_000);
    assert(pow(10, 14) == 100_000_000_000_000);
    assert(pow(10, 15) == 1_000_000_000_000_000);
    assert(pow(10, 16) == 10_000_000_000_000_000);
    assert(pow(10, 17) == 100_000_000_000_000_000);
    assert(pow(10, 18) == 1_000_000_000_000_000_000);
    assert(pow(10, 19) == 10_000_000_000_000_000_000);
    assert(pow(10, 20) == 100_000_000_000_000_000_000);
}

/// A larger base has the larger power.
proof fn lemma_pow_base_increases(small: nat, large: nat, e: nat)
    requires
        small <= large,
    ensures
        pow(small as int, e) <= pow(large as int, e),
        0 <= pow(small as int, e),
    decreases e,
{
    reveal(pow);
    if e > 0 {
        lemma_pow_base_increases(small, large, (e - 1) as nat);
        let s = pow(small as int, (e - 1) as nat);
        let l = pow(large as int, (e - 1) as nat);
        assert(small * s <= large * l && 0 <= small * s) by (nonlinear_arith)
            requires
                0 <= s <= l,
                0 <= small <= large,
        ;
    }
}

/// Computes every power of the exponent that the width can hold, from 1
/// upward. The exponent is first cast into the width, as the element type
/// would have it; a multiplication that overflows the width ends the table.
/// An exponent that is 0 or 1 after the cast has no last power, and no table.
pub fn power_sequence(width: Width, exponent: usize) -> (table: Option<Vec<u64>>)
    ensures
        table is None <==> width.cast(exponent as nat) < 2,
        table matches Some(v) ==> values_of(v@) == table_values(width, exponent as nat),
{
    let max: u64 = width.max_value();
    let base: u64 = width.truncate(exponent);
    if base < 2 {
        return None;
    }
    let mut table: Vec<u64> = Vec::with_capacity(width.capacity());
    let mut current: u64 = 1;
    proof {
        lemma_pow0(base as int);
    }
    loop
        invariant_except_break
            2 <= base <= max,
            1 <= current <= max,
            current == pow(base as int, table@.len() as nat),
            forall|i: int| 0 <= i < table@.len() ==> table@[i] == pow(base as int, i as nat),
        ensures
            2 <= base <= max,
            table@.len() >= 1,
            forall|i: int| 0 <= i < table@.len() ==> table@[i] == pow(base as int, i as nat),
            table@.last() <= max,
            table@.last() * base > max,
        decreases max - current,
    {
        table.push(current);
        let product: Option<u64> = current.checked_mul(base);
        let next: u64 = match product {
            Some(p) => p,
            None => {
                break;
            },
        };
        if next > max {
            break;
        }
        proof {
            reveal(pow);
            assert(current * base > current) by (nonlinear_arith)
                requires
                    current >= 1,
                    base >= 2,
            ;
            assert(pow(base as int, table@.len() as nat) == base * pow(
                base as int,
                (table@.len() - 1) as nat,
            ));
            assert(base * current == current * base) by (nonlinear_arith);
        }
        current = next;
    }
    proof {
        let values = values_of(table@);
        assert forall|i: int| 0 <= i < values.len() implies #[trigger] values[i] == pow(
            base as int,
            i as nat,
        ) by {}
        lemma_power_table_is_unique(values, base as nat, max as nat);
    }
    Some(table)
}

} // verus!
