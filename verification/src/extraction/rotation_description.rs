//! The rotations a query can be opened at.

use vstd::prelude::*;

use super::text::{push_signed_decimal, signed_decimal};

verus! {

/// A rotation: only -1, 0 and 1 are named, to keep the number of scalars of
/// the generated verifier small; any other offset is a custom one. The last
/// row has a name of its own.
#[derive(Clone, Copy, Debug, PartialEq, Eq, Structural, Hash, PartialOrd, Ord)]
pub enum RotationDescription {
    Last,
    Previous,
    Current,
    Next,
    Custom(i32),
}

impl RotationDescription {
    /// The name of the evaluation point in the generated source.
    pub open spec fn spec_name(self) -> Seq<char> {
        match self {
            RotationDescription::Last => "x_last"@,
            RotationDescription::Previous => "x_prev"@,
            RotationDescription::Current => "x_current"@,
            RotationDescription::Next => "x_next"@,
            RotationDescription::Custom(n) => "x_rot_"@ + signed_decimal(n as int),
        }
    }

    /// The rotation for an offset.
    pub open spec fn spec_from_i32(input: i32) -> Self {
        if input == -1 {
            RotationDescription::Previous
        } else if input == 0 {
            RotationDescription::Current
        } else if input == 1 {
            RotationDescription::Next
        } else {
            RotationDescription::Custom(input)
        }
    }

    /// The name of the evaluation point in the generated source.
    pub fn to_string(&self) -> (s: String)
        ensures
            s@ == self.spec_name(),
    {
        match self {
            RotationDescription::Last => String::from_str("x_last"),
            RotationDescription::Previous => String::from_str("x_prev"),
            RotationDescription::Current => String::from_str("x_current"),
            RotationDescription::Next => String::from_str("x_next"),
            RotationDescription::Custom(n) => {
                let mut s = String::from_str("x_rot_");
                push_signed_decimal(&mut s, *n);
                s
            },
        }
    }

    /// The rotation for an offset: -1, 0 and 1 are named, others are custom.
    pub fn from_i32(input: i32) -> (r: Self)
        ensures
            r == Self::spec_from_i32(input),
    {
        match input {
            -1 => RotationDescription::Previous,
            0 => RotationDescription::Current,
            1 => RotationDescription::Next,
            n => RotationDescription::Custom(n),
        }
    }
}

impl Default for RotationDescription {
    /// The current row.
    fn default() -> (r: Self)
        ensures
            r == RotationDescription::Current,
    {
        RotationDescription::Current
    }
}

/// No offset gives the last row, and an offset given a name is one of -1, 0
/// and 1.
pub proof fn lemma_from_i32_named(input: i32)
    ensures
        !(RotationDescription::spec_from_i32(input) is Last),
        !(RotationDescription::spec_from_i32(input) is Custom) <==> (-1 <= input <= 1),
{
}

} // verus!
