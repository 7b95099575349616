//! Byte counts in the largest binary unit that they reach, to two decimals.
use vstd::prelude::*;

verus! {

pub const KB: u64 = 1024;
pub const MB: u64 = 1048576;
pub const GB: u64 = 1073741824;
pub const TB: u64 = 1099511627776;

/// The unit a byte count is shown in.
#[derive(Clone, Copy, Debug, PartialEq, Eq, Structural)]
pub enum SizeUnit {
    B,
    KB,
    MB,
    GB,
    TB,
}

pub open spec fn scale(u: SizeUnit) -> nat {
    match u {
        SizeUnit::B => 1,
        SizeUnit::KB => KB as nat,
        SizeUnit::MB => MB as nat,
        SizeUnit::GB => GB as nat,
        SizeUnit::TB => TB as nat,
    }
}

/// The largest unit that `bytes` reaches.
pub open spec fn unit_for(bytes: nat) -> SizeUnit {
    if bytes >= TB {
        SizeUnit::TB
    } else if bytes >= GB {
        SizeUnit::GB
    } else if bytes >= MB {
        SizeUnit::MB
    } else if bytes >= KB {
        SizeUnit::KB
    } else {
        SizeUnit::B
    }
}

/// `n / d` rounded to the nearest integer, ties to the even one.
pub open spec fn round_half_even(n: nat, d: nat) -> nat
    recommends
        d > 0,
{
    let q = n / d;
    let r = n % d;
    if 2 * r > d || (2 * r == d && q % 2 == 1) {
        q + 1
    } else {
        q
    }
}

pub open spec fn unit_symbol(u: SizeUnit) -> Seq<char> {
    match u {
        SizeUnit::B => "B"@,
        SizeUnit::KB => "KB"@,
        SizeUnit::MB => "MB"@,
        SizeUnit::GB => "GB"@,
        SizeUnit::TB => "TB"@,
    }
}

impl SizeUnit {
    /// The unit's symbol, as printed after the number.
    pub fn symbol(&self) -> (r: &'static str)
        ensures
            r@ == unit_symbol(*self),
    {
        match self {
            SizeUnit::B => "B",
            SizeUnit::KB => "KB",
            SizeUnit::MB => "MB",
            SizeUnit::GB => "GB",
            SizeUnit::TB => "TB",
        }
    }
}

/// A byte count as a number of whole units and hundredths of a unit.
/// Counts under one KB are whole bytes with no fraction.
#[derive(Clone, Copy, Debug, PartialEq, Eq, Structural)]
pub struct SizeReading {
    pub unit: SizeUnit,
    pub whole: u64,
    pub hundredths: u64,
}

/// `bytes` in the largest unit it reaches; in KB and above, rounded to the
/// nearest hundredth of the unit, a tie going to the even hundredth.
pub fn format_size(bytes: u64) -> (r: SizeReading)
    ensures
        r.unit == unit_for(bytes as nat),
        r.unit == SizeUnit::B ==> r.whole == bytes && r.hundredths == 0,
        r.unit != SizeUnit::B ==> {
            &&& r.hundredths < 100
            &&& r.whole * 100 + r.hundredths == round_half_even(bytes as nat * 100, scale(r.unit))
        },
{
    let unit = if bytes >= TB {
        SizeUnit::TB
    } else if bytes >= GB {
        SizeUnit::GB
    } else if bytes >= MB {
        SizeUnit::MB
    } else if bytes >= KB {
        SizeUnit::KB
    } else {
        return SizeReading { unit: SizeUnit::B, whole: bytes, hundredths: 0 };
    };
    let d: u64 = match unit {
        SizeUnit::TB => TB,
        SizeUnit::GB => GB,
        SizeUnit::MB => MB,
        _ => KB,
    };
    assert(d as nat == scale(unit));
    let n: u128 = (bytes as u128) * 100;
    let q: u128 = n / (d as u128);
    let rem: u128 = n % (d as u128);
    assert(q <= n / 1024) by (nonlinear_arith)
        requires
            q == n / (d as u128),
            d >= 1024,
    ;
    let rounded: u128 = if 2 * rem > d as u128 || (2 * rem == d as u128 && q % 2 == 1) {
        q + 1
    } else {
        q
    };
    assert(rounded == round_half_even(bytes as nat * 100, scale(unit)));
    SizeReading { unit, whole: (rounded / 100) as u64, hundredths: (rounded % 100) as u64 }
}

} // verus!
