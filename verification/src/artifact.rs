//! The constant array that a directive describes, and its declaration.

use vstd::arithmetic::div_mod::lemma_small_mod;
use vstd::arithmetic::power::pow;
use vstd::prelude::*;
use vstd::string::*;

use crate::directive::{outcome, Diagnostic, DiagnosticView, Directive, DirectiveView, Order};
use crate::powers::{
    lemma_power_count_spans, lemma_power_table_is_maximal, power_sequence, table_values,
    values_of,
};
use crate::text::{decimal, push_decimal};
use crate::width::Width;

verus! {

/// A named constant array of one unsigned integer type. The values are kept
/// in 64 bits whatever the element type; those of an array that `generate`
/// built all fit the type.
#[derive(Debug, PartialEq, Eq)]
pub struct ConstArray {
    pub name: String,
    pub width: Width,
    pub values: Vec<u64>,
}

/// A constant array as contracts see it.
pub struct ConstArrayView {
    pub name: Seq<char>,
    pub width: Width,
    pub values: Seq<nat>,
}

impl View for ConstArray {
    type V = ConstArrayView;

    open spec fn view(&self) -> ConstArrayView {
        ConstArrayView { name: self.name@, width: self.width, values: values_of(self.values@) }
    }
}

impl Clone for ConstArray {
    fn clone(&self) -> (copy: Self)
        ensures
            copy@ == self@,
    {
        ConstArray { name: self.name.clone(), width: self.width, values: self.values.clone() }
    }
}

/// The table of a width and an exponent in the order asked for.
pub open spec fn arranged_table(width: Width, exponent: nat, order: Order) -> Seq<nat> {
    order.arrange(table_values(width, exponent))
}

/// What a directive yields: the array of its table, or the diagnostic for
/// an exponent that is 0 or 1 once it is cast into the element type.
pub open spec fn generated(directive: DirectiveView) -> Result<ConstArrayView, DiagnosticView> {
    if directive.element_width.cast(directive.exponent) < 2 {
        Err(Diagnostic::endless(directive.name_position as int))
    } else {
        Ok(
            ConstArrayView {
                name: directive.output_name,
                width: directive.element_width,
                values: arranged_table(
                    directive.element_width,
                    directive.exponent,
                    directive.order,
                ),
            },
        )
    }
}

/// Values in decimal, with a comma and a space between each two.
pub open spec fn listed(values: Seq<nat>) -> Seq<char>
    decreases values.len(),
{
    if values.len() == 0 {
        Seq::empty()
    } else if values.len() == 1 {
        decimal(values[0])
    } else {
        listed(values.drop_last()) + ", "@ + decimal(values.last())
    }
}

/// The declaration of a constant array:
/// `const NAME: [TYPE; LENGTH] = [V0, V1, ...];`.
pub open spec fn declaration(array: ConstArrayView) -> Seq<char> {
    "const "@ + array.name + ": ["@ + array.width.name() + "; "@ + decimal(array.values.len())
        + "] = ["@ + listed(array.values) + "];"@
}

/// Reverses a vector in place.
pub fn reverse(values: &mut Vec<u64>)
    ensures
        final(values)@ == old(values)@.reverse(),
{
    let ghost before: Seq<u64> = values@;
    let n: usize = values.len();
    let mut i: usize = 0;
    while i < n / 2
        invariant
            values@.len() == n,
            before.len() == n,
            i <= n / 2,
            forall|k: int| 0 <= k < i ==> values@[k] == before[n - 1 - k],
            forall|k: int| 0 <= k < i ==> values@[n - 1 - k] == before[k],
            forall|k: int| i <= k < n - i ==> values@[k] == before[k],
        decreases n / 2 - i,
    {
        let low: u64 = values[i];
        let high: u64 = values[n - 1 - i];
        values.set(i, high);
        values.set(n - 1 - i, low);
        i += 1;
    }
    assert(values@ =~= before.reverse());
}

/// Builds the array that a directive asks for: every power of the exponent
/// that the element type holds, in the directive's order, under the
/// directive's name.
///
/// The exponent is cast into the element type first, and bits that do not
/// fit are lost. Where 0 or 1 is left, no table has an end, and the
/// directive is refused with a diagnostic at the name's position.
pub fn generate(directive: &Directive) -> (r: Result<ConstArray, Diagnostic>)
    ensures
        outcome(r) == generated(directive@),
{
    match power_sequence(directive.element_width, directive.exponent) {
        None => Err(Diagnostic::new_endless(directive.name_position)),
        Some(table) => {
            let mut values: Vec<u64> = table;
            match directive.order {
                Order::Ascending => {},
                Order::Descending => {
                    reverse(&mut values);
                    assert(values_of(values@) =~= values_of(table@).reverse());
                },
            }
            Ok(
                ConstArray {
                    name: directive.output_name.clone(),
                    width: directive.element_width,
                    values,
                },
            )
        },
    }
}

impl ConstArray {
    /// Writes the declaration of the array.
    pub fn render(&self) -> (text: String)
        ensures
            text@ == declaration(self@),
    {
        let mut out: String = String::from_str("const ");
        out.append(self.name.as_str());
        out.append(": [");
        out.append(self.width.spelling());
        out.append("; ");
        let n: usize = self.values.len();
        push_decimal(&mut out, n as u64);
        out.append("] = [");
        let ghost head: Seq<char> = out@;
        let ghost all: Seq<nat> = values_of(self.values@);
        let mut i: usize = 0;
        while i < n
            invariant
                n == self.values@.len(),
                all == values_of(self.values@),
                i <= n,
                out@ == head + listed(all.take(i as int)),
            decreases n - i,
        {
            if i > 0 {
                out.append(", ");
            }
            push_decimal(&mut out, self.values[i]);
            proof {
                let next = all.take(i + 1);
                assert(next.drop_last() =~= all.take(i as int));
                assert(next.last() == all[i as int]);
                assert(out@ =~= head + listed(next));
            }
            i += 1;
        }
        proof {
            assert(all.take(n as int) =~= all);
        }
        out.append("];");
        out
    }
}

/// A table is the other order's table, reversed.
pub proof fn lemma_orders_mirror(width: Width, exponent: nat)
    ensures
        arranged_table(width, exponent, Order::Descending) == arranged_table(
            width,
            exponent,
            Order::Ascending,
        ).reverse(),
        arranged_table(width, exponent, Order::Ascending) == arranged_table(
            width,
            exponent,
            Order::Descending,
        ).reverse(),
{
    let up = arranged_table(width, exponent, Order::Ascending);
    assert(up.reverse().reverse() =~= up);
}

/// For an exponent of at least 2 that the element type holds, the table
/// has as many elements as there are powers of the exponent within the
/// type, beginning with the zeroth; each element is the power of its index;
/// and the last element times the exponent is beyond the type.
pub proof fn lemma_table_ends_at_overflow(width: Width, exponent: nat)
    requires
        2 <= exponent <= width.max(),
    ensures
        table_values(width, exponent).len() >= 1,
        forall|k: nat|
            k < table_values(width, exponent).len() <==> #[trigger] pow(exponent as int, k)
                <= width.max(),
        forall|i: int|
            0 <= i < table_values(width, exponent).len() ==> #[trigger] table_values(
                width,
                exponent,
            )[i] == pow(exponent as int, i as nat),
        table_values(width, exponent).last() * exponent > width.max(),
{
    lemma_small_mod(exponent, width.max() + 1);
    lemma_power_table_is_maximal(exponent, width.max());
    assert forall|k: nat|
        k < table_values(width, exponent).len() <==> #[trigger] pow(exponent as int, k)
            <= width.max() by {
        lemma_power_count_spans(exponent, width.max(), k);
    }
    assert forall|i: int| 0 <= i < table_values(width, exponent).len() implies #[trigger] table_values(
        width,
        exponent,
    )[i] == pow(exponent as int, i as nat) by {
        vstd::arithmetic::power::lemma_pow_positive(exponent as int, i as nat);
    }
}

/// An array that was generated holds its directive's name and element
/// type and at least one value, and every value of it is at least 1 and
/// within the element type.
pub proof fn lemma_generated_fits_the_width(directive: DirectiveView)
    ensures
        generated(directive) matches Ok(array) ==> {
            &&& array.name == directive.output_name
            &&& array.width == directive.element_width
            &&& array.values.len() >= 1
            &&& forall|i: int|
                0 <= i < array.values.len() ==> 1 <= #[trigger] array.values[i]
                    <= array.width.max()
        },
{
    let base = directive.element_width.cast(directive.exponent);
    if base >= 2 {
        lemma_power_table_is_maximal(base, directive.element_width.max());
    }
}

} // verus!
