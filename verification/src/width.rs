//! The element types a table can have, and what each of them can hold.

use vstd::arithmetic::div_mod::lemma_small_mod;
use vstd::prelude::*;

use crate::text::same_text;

verus! {

/// The unsigned integer types a table can be built for.
#[derive(Clone, Copy, Debug, PartialEq, Eq, Structural)]
pub enum Width {
    U8,
    U16,
    U32,
    U64,
    /// The pointer-sized type of the machine that builds the table.
    Usize,
}

impl Width {
    /// The largest value an element of this width can hold.
    pub open spec fn max(self) -> nat {
        match self {
            Width::U8 => 0xff,
            Width::U16 => 0xffff,
            Width::U32 => 0xffff_ffff,
            Width::U64 => 0xffff_ffff_ffff_ffff,
            Width::Usize => usize::MAX as nat,
        }
    }

    /// What a cast into this width makes of `value`: the value modulo the
    /// number of values the width has.
    pub open spec fn cast(self, value: nat) -> nat {
        value % (self.max() + 1)
    }

    /// How many powers of ten the width holds at most, for the fixed widths
    /// the exact count, for the pointer-sized one that of 64 bits.
    pub open spec fn decimal_capacity(self) -> nat {
        match self {
            Width::U8 => 3,
            Width::U16 => 5,
            Width::U32 => 10,
            Width::U64 => 20,
            Width::Usize => 20,
        }
    }

    /// The name of the type as it is written in a directive and in a
    /// declaration.
    pub open spec fn name(self) -> Seq<char> {
        match self {
            Width::U8 => "u8"@,
            Width::U16 => "u16"@,
            Width::U32 => "u32"@,
            Width::U64 => "u64"@,
            Width::Usize => "usize"@,
        }
    }

    /// The width that `spelling` names, if it is one of the five.
    pub open spec fn named(spelling: Seq<char>) -> Option<Width> {
        if spelling == "u8"@ {
            Some(Width::U8)
        } else if spelling == "u16"@ {
            Some(Width::U16)
        } else if spelling == "u32"@ {
            Some(Width::U32)
        } else if spelling == "u64"@ {
            Some(Width::U64)
        } else if spelling == "usize"@ {
            Some(Width::Usize)
        } else {
            None
        }
    }

    /// The largest value of the width.
    pub fn max_value(self) -> (m: u64)
        ensures
            m == self.max(),
    {
        match self {
            Width::U8 => 0xff,
            Width::U16 => 0xffff,
            Width::U32 => 0xffff_ffff,
            Width::U64 => 0xffff_ffff_ffff_ffff,
            Width::Usize => usize::MAX as u64,
        }
    }

    /// Casts `value` into the width, dropping the bits that do not fit.
    pub fn truncate(self, value: usize) -> (r: u64)
        ensures
            r == self.cast(value as nat),
            r <= self.max(),
    {
        let m: u64 = self.max_value();
        let v: u64 = value as u64;
        if v <= m {
            proof {
                lemma_small_mod(v as nat, (m + 1) as nat);
            }
            v
        } else {
            v % (m + 1)
        }
    }

    /// The number of elements to reserve room for before a table is built.
    /// It is a hint: the table ends where the next power overflows, whatever
    /// this says.
    pub fn capacity(self) -> (n: usize)
        ensures
            n == self.decimal_capacity(),
    {
        match self {
            Width::U8 => 3,
            Width::U16 => 5,
            Width::U32 => 10,
            Width::U64 => 20,
            Width::Usize => 20,
        }
    }

    /// The name of the type.
    pub fn spelling(self) -> (s: &'static str)
        ensures
            s@ == self.name(),
    {
        match self {
            Width::U8 => "u8",
            Width::U16 => "u16",
            Width::U32 => "u32",
            Width::U64 => "u64",
            Width::Usize => "usize",
        }
    }

    /// Looks a type name up. Only `u8`, `u16`, `u32`, `u64` and `usize`,
    /// written exactly so, name a width.
    pub fn from_spelling(spelling: &str) -> (w: Option<Width>)
        ensures
            w == Width::named(spelling@),
    {
        if same_text(spelling, "u8") {
            Some(Width::U8)
        } else if same_text(spelling, "u16") {
            Some(Width::U16)
        } else if same_text(spelling, "u32") {
            Some(Width::U32)
        } else if same_text(spelling, "u64") {
            Some(Width::U64)
        } else if same_text(spelling, "usize") {
            Some(Width::Usize)
        } else {
            None
        }
    }
}

/// Every width is found again under its own name.
pub proof fn lemma_name_names_width(width: Width)
    ensures
        Width::named(width.name()) == Some(width),
{
    reveal_strlit("u8");
    reveal_strlit("u16");
    reveal_strlit("u32");
    reveal_strlit("u64");
    reveal_strlit("usize");
    assert("u8"@.len() == 2 && "u16"@.len() == 3 && "usize"@.len() == 5);
    assert("u16"@[1] == '1' && "u32"@[1] == '3' && "u64"@[1] == '6');
}

/// A value that the width holds comes through the cast unchanged, and what
/// comes out of the cast is always held by the width.
pub proof fn lemma_cast_keeps_what_fits(width: Width, value: nat)
    ensures
        width.cast(value) <= width.max(),
        value <= width.max() ==> width.cast(value) == value,
{
    if value <= width.max() {
        lemma_small_mod(value, width.max() + 1);
    }
}

/// A name that is a width's is that width's and no other's.
pub proof fn lemma_named_is_name(spelling: Seq<char>, width: Width)
    ensures
        Width::named(spelling) == Some(width) ==> spelling == width.name(),
{
}

} // verus!
