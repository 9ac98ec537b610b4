//! The ordered magnitude tiers for data quantities and the scaler that maps a
//! magnitude index to its tier. Tier `i` stands for a scaling of `base^i`
//! (base 1024 in byte mode, 1000 in bit mode); no tier beyond `Y` exists, and
//! a larger magnitude is a recoverable formatting error, not a wraparound.

use vstd::prelude::*;

verus! {

/// One magnitude tier: `B` scales by `base^0`, `K` by `base^1`, and so on up
/// to `Y` at `base^8`.
#[derive(Clone, Copy, Debug, PartialEq, Eq, Structural)]
pub enum DataUnit {
    B,
    K,
    M,
    G,
    T,
    P,
    E,
    Z,
    Y,
}

/// The symbol letter of the tier at magnitude `m`, for `m <= 8`; the fixed
/// table B, K, M, G, T, P, E, Z, Y.
pub open spec fn symbol_of_magnitude(m: nat) -> char {
    if m == 0 {
        'B'
    } else if m == 1 {
        'K'
    } else if m == 2 {
        'M'
    } else if m == 3 {
        'G'
    } else if m == 4 {
        'T'
    } else if m == 5 {
        'P'
    } else if m == 6 {
        'E'
    } else if m == 7 {
        'Z'
    } else if m == 8 {
        'Y'
    } else {
        '?'
    }
}

impl DataUnit {
    /// The magnitude index this tier scales by.
    pub open spec fn index(self) -> nat {
        match self {
            DataUnit::B => 0,
            DataUnit::K => 1,
            DataUnit::M => 2,
            DataUnit::G => 3,
            DataUnit::T => 4,
            DataUnit::P => 5,
            DataUnit::E => 6,
            DataUnit::Z => 7,
            DataUnit::Y => 8,
        }
    }

    /// The tier's symbol letter.
    pub open spec fn spec_symbol(self) -> char {
        symbol_of_magnitude(self.index())
    }

    /// Map a magnitude index to its tier. A magnitude above the largest tier
    /// is reported as `None`, a recoverable formatting error.
    pub fn from_magnitude(m: u32) -> (r: Option<DataUnit>)
        ensures
            m <= 8 ==> (r matches Some(u) && u.index() == m && u.spec_symbol()
                == symbol_of_magnitude(m as nat)),
            m > 8 ==> r is None,
    {
        match m {
            0u32 => Some(DataUnit::B),
            1u32 => Some(DataUnit::K),
            2u32 => Some(DataUnit::M),
            3u32 => Some(DataUnit::G),
            4u32 => Some(DataUnit::T),
            5u32 => Some(DataUnit::P),
            6u32 => Some(DataUnit::E),
            7u32 => Some(DataUnit::Z),
            8u32 => Some(DataUnit::Y),
            _ => None,
        }
    }

    /// The tier's symbol as a one-character string.
    pub fn symbol(self) -> (s: &'static str)
        ensures
            s@ == seq![self.spec_symbol()],
    {
        let s: &'static str = match self {
            DataUnit::B => "B",
            DataUnit::K => "K",
            DataUnit::M => "M",
            DataUnit::G => "G",
            DataUnit::T => "T",
            DataUnit::P => "P",
            DataUnit::E => "E",
            DataUnit::Z => "Z",
            DataUnit::Y => "Y",
        };
        proof {
            reveal_strlit("B");
            reveal_strlit("K");
            reveal_strlit("M");
            reveal_strlit("G");
            reveal_strlit("T");
            reveal_strlit("P");
            reveal_strlit("E");
            reveal_strlit("Z");
            reveal_strlit("Y");
            assert(s@ =~= seq![self.spec_symbol()]);
        }
        s
    }
}

} // verus!
