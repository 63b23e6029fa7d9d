use vstd::prelude::*;

verus! {

/// The error type of the whole rendering pipeline.  Every fatal condition
/// carries the offending value and, where it helps, the name of the field
/// or stage that produced it, so that `message` can name both.
#[derive(Debug, Clone, PartialEq, Eq)]
pub enum UpdaterError {
    /// A scalar cannot be represented in the 18-bit datastream encoding.
    ValueTooLarge { field: &'static str, value: u64 },
    /// A palette index is outside the 8-entry palette.
    ColorOutOfRange { value: u8 },
    /// The encoded datastream does not fit its reserved pixel block.
    CapacityExceeded { needed: u64, capacity: u64 },
    /// A layout quantity grew beyond the largest representable dimension.
    GeometryOverflow { field: &'static str, value: u64 },
}

/// The decimal digits of `v`, most significant first.
pub open spec fn spec_decimal(v: nat) -> Seq<char>
    decreases v,
{
    if v < 10 {
        seq![spec_digit_char(v)]
    } else {
        spec_decimal(v / 10) + seq![spec_digit_char(v % 10)]
    }
}

pub open spec fn spec_digit_char(d: nat) -> char {
    if d == 0 {
        '0'
    } else if d == 1 {
        '1'
    } else if d == 2 {
        '2'
    } else if d == 3 {
        '3'
    } else if d == 4 {
        '4'
    } else if d == 5 {
        '5'
    } else if d == 6 {
        '6'
    } else if d == 7 {
        '7'
    } else if d == 8 {
        '8'
    } else {
        '9'
    }
}

/// One decimal digit as a string slice.
pub fn digit_str(d: u64) -> (r: &'static str)
    requires
        d < 10,
    ensures
        r@ == seq![spec_digit_char(d as nat)],
{
    proof {
        reveal_strlit("0");
        reveal_strlit("1");
        reveal_strlit("2");
        reveal_strlit("3");
        reveal_strlit("4");
        reveal_strlit("5");
        reveal_strlit("6");
        reveal_strlit("7");
        reveal_strlit("8");
        reveal_strlit("9");
    }
    let r: &'static str = if d == 0 {
        "0"
    } else if d == 1 {
        "1"
    } else if d == 2 {
        "2"
    } else if d == 3 {
        "3"
    } else if d == 4 {
        "4"
    } else if d == 5 {
        "5"
    } else if d == 6 {
        "6"
    } else if d == 7 {
        "7"
    } else if d == 8 {
        "8"
    } else {
        "9"
    };
    proof {
        assert(r@ =~= seq![spec_digit_char(d as nat)]);
    }
    r
}

/// Renders `v` in decimal.
pub fn u64_to_string(v: u64) -> (r: String)
    ensures
        r@ == spec_decimal(v as nat),
    decreases v,
{
    if v < 10 {
        digit_str(v).to_owned()
    } else {
        let mut s = u64_to_string(v / 10);
        s.append(digit_str(v % 10));
        proof {
            assert(s@ =~= spec_decimal(v as nat));
        }
        s
    }
}

/// The exact rendering of each failure: the stage or field by name, and
/// the offending value in decimal.
pub open spec fn spec_message(e: UpdaterError) -> Seq<char> {
    match e {
        UpdaterError::ValueTooLarge { field, value } => "value "@ + spec_decimal(value as nat)
            + " of "@ + field@ + " is too large to be represented"@,
        UpdaterError::ColorOutOfRange { value } => "color index "@ + spec_decimal(value as nat)
            + " is out of range"@,
        UpdaterError::CapacityExceeded { needed, capacity } => {
            "not enough space for datastream: "@ + spec_decimal(needed as nat)
                + " pixels needed, "@ + spec_decimal(capacity as nat) + " reserved"@
        },
        UpdaterError::GeometryOverflow { field, value } => "layout quantity "@ + spec_decimal(
            value as nat,
        ) + " of "@ + field@ + " cannot be represented"@,
    }
}

impl UpdaterError {
    /// The human-readable description of the failure, naming the field and
    /// value that triggered it.
    pub fn message(&self) -> (r: String)
        ensures
            r@ == spec_message(*self),
    {
        proof {
            reveal_strlit("value ");
            reveal_strlit(" of ");
            reveal_strlit(" is too large to be represented");
            reveal_strlit("color index ");
            reveal_strlit(" is out of range");
            reveal_strlit("not enough space for datastream: ");
            reveal_strlit(" pixels needed, ");
            reveal_strlit(" reserved");
            reveal_strlit("layout quantity ");
            reveal_strlit(" cannot be represented");
        }
        let r = match self {
            UpdaterError::ValueTooLarge { field, value } => {
                let mut s = "value ".to_owned();
                s.append(u64_to_string(*value).as_str());
                s.append(" of ");
                s.append(field);
                s.append(" is too large to be represented");
                s
            },
            UpdaterError::ColorOutOfRange { value } => {
                let mut s = "color index ".to_owned();
                s.append(u64_to_string(*value as u64).as_str());
                s.append(" is out of range");
                s
            },
            UpdaterError::CapacityExceeded { needed, capacity } => {
                let mut s = "not enough space for datastream: ".to_owned();
                s.append(u64_to_string(*needed).as_str());
                s.append(" pixels needed, ");
                s.append(u64_to_string(*capacity).as_str());
                s.append(" reserved");
                s
            },
            UpdaterError::GeometryOverflow { field, value } => {
                let mut s = "layout quantity ".to_owned();
                s.append(u64_to_string(*value).as_str());
                s.append(" of ");
                s.append(field);
                s.append(" cannot be represented");
                s
            },
        };
        proof {
            assert(r@ =~= spec_message(*self));
        }
        r
    }
}

} // verus!
