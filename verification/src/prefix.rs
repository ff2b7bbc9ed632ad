//! Multiplicative prefixes.
//!
//! A prefix is a pure scale factor with a display symbol. Composing a prefix
//! with a unit yields a new unit of the same quantity whose factor to its
//! raw base is the prefix's factor; nothing else of the unit changes.

use vstd::prelude::*;
use vstd::string::StringExecFns;

use crate::ratio::Rat;
use crate::ratio::Ratio;

verus! {

/// The decimal prefixes, from 10 to the 24th down to 10 to the -24th.
#[derive(Clone, Copy, Debug, PartialEq, Eq, Structural)]
pub enum SIPrefix {
    Yotta,
    Zetta,
    Exa,
    Peta,
    Tera,
    Giga,
    Mega,
    Kilo,
    Hecto,
    Deca,
    One,
    Deci,
    Centi,
    Milli,
    Micro,
    Nano,
    Pico,
    Femto,
    Atto,
    Zepto,
    Yocto,
}

/// The exact scale of each decimal prefix.
pub open spec fn prefix_scale(p: SIPrefix) -> Rat {
    match p {
        SIPrefix::Yotta => Rat { n: 1000000000000000000000000, d: 1 },
        SIPrefix::Zetta => Rat { n: 1000000000000000000000, d: 1 },
        SIPrefix::Exa => Rat { n: 1000000000000000000, d: 1 },
        SIPrefix::Peta => Rat { n: 1000000000000000, d: 1 },
        SIPrefix::Tera => Rat { n: 1000000000000, d: 1 },
        SIPrefix::Giga => Rat { n: 1000000000, d: 1 },
        SIPrefix::Mega => Rat { n: 1000000, d: 1 },
        SIPrefix::Kilo => Rat { n: 1000, d: 1 },
        SIPrefix::Hecto => Rat { n: 100, d: 1 },
        SIPrefix::Deca => Rat { n: 10, d: 1 },
        SIPrefix::One => Rat { n: 1, d: 1 },
        SIPrefix::Deci => Rat { n: 1, d: 10 },
        SIPrefix::Centi => Rat { n: 1, d: 100 },
        SIPrefix::Milli => Rat { n: 1, d: 1000 },
        SIPrefix::Micro => Rat { n: 1, d: 1000000 },
        SIPrefix::Nano => Rat { n: 1, d: 1000000000 },
        SIPrefix::Pico => Rat { n: 1, d: 1000000000000 },
        SIPrefix::Femto => Rat { n: 1, d: 1000000000000000 },
        SIPrefix::Atto => Rat { n: 1, d: 1000000000000000000 },
        SIPrefix::Zepto => Rat { n: 1, d: 1000000000000000000000 },
        SIPrefix::Yocto => Rat { n: 1, d: 1000000000000000000000000 },
    }
}

/// The display symbol of each decimal prefix.
pub open spec fn prefix_symbol(p: SIPrefix) -> Seq<char> {
    match p {
        SIPrefix::Yotta => "Y"@,
        SIPrefix::Zetta => "Z"@,
        SIPrefix::Exa => "E"@,
        SIPrefix::Peta => "P"@,
        SIPrefix::Tera => "T"@,
        SIPrefix::Giga => "G"@,
        SIPrefix::Mega => "M"@,
        SIPrefix::Kilo => "k"@,
        SIPrefix::Hecto => "h"@,
        SIPrefix::Deca => "da"@,
        SIPrefix::One => ""@,
        SIPrefix::Deci => "d"@,
        SIPrefix::Centi => "c"@,
        SIPrefix::Milli => "m"@,
        SIPrefix::Micro => "μ"@,
        SIPrefix::Nano => "n"@,
        SIPrefix::Pico => "p"@,
        SIPrefix::Femto => "f"@,
        SIPrefix::Atto => "a"@,
        SIPrefix::Zepto => "z"@,
        SIPrefix::Yocto => "y"@,
    }
}

impl SIPrefix {
    /// The scale factor of this prefix, as an exact ratio.
    pub fn factor(&self) -> (r: Ratio)
        ensures
            r@ == prefix_scale(*self),
            r.pos(),
    {
        match self {
            SIPrefix::Yotta => Ratio::new(1000000000000000000000000, 1),
            SIPrefix::Zetta => Ratio::new(1000000000000000000000, 1),
            SIPrefix::Exa => Ratio::new(1000000000000000000, 1),
            SIPrefix::Peta => Ratio::new(1000000000000000, 1),
            SIPrefix::Tera => Ratio::new(1000000000000, 1),
            SIPrefix::Giga => Ratio::new(1000000000, 1),
            SIPrefix::Mega => Ratio::new(1000000, 1),
            SIPrefix::Kilo => Ratio::new(1000, 1),
            SIPrefix::Hecto => Ratio::new(100, 1),
            SIPrefix::Deca => Ratio::new(10, 1),
            SIPrefix::One => Ratio::new(1, 1),
            SIPrefix::Deci => Ratio::new(1, 10),
            SIPrefix::Centi => Ratio::new(1, 100),
            SIPrefix::Milli => Ratio::new(1, 1000),
            SIPrefix::Micro => Ratio::new(1, 1000000),
            SIPrefix::Nano => Ratio::new(1, 1000000000),
            SIPrefix::Pico => Ratio::new(1, 1000000000000),
            SIPrefix::Femto => Ratio::new(1, 1000000000000000),
            SIPrefix::Atto => Ratio::new(1, 1000000000000000000),
            SIPrefix::Zepto => Ratio::new(1, 1000000000000000000000),
            SIPrefix::Yocto => Ratio::new(1, 1000000000000000000000000),
        }
    }

    /// The display abbreviation of this prefix.
    pub fn abbreviation(&self) -> (r: &'static str)
        ensures
            r@ == prefix_symbol(*self),
    {
        match self {
            SIPrefix::Yotta => "Y",
            SIPrefix::Zetta => "Z",
            SIPrefix::Exa => "E",
            SIPrefix::Peta => "P",
            SIPrefix::Tera => "T",
            SIPrefix::Giga => "G",
            SIPrefix::Mega => "M",
            SIPrefix::Kilo => "k",
            SIPrefix::Hecto => "h",
            SIPrefix::Deca => "da",
            SIPrefix::One => "",
            SIPrefix::Deci => "d",
            SIPrefix::Centi => "c",
            SIPrefix::Milli => "m",
            SIPrefix::Micro => "μ",
            SIPrefix::Nano => "n",
            SIPrefix::Pico => "p",
            SIPrefix::Femto => "f",
            SIPrefix::Atto => "a",
            SIPrefix::Zepto => "z",
            SIPrefix::Yocto => "y",
        }
    }

    /// This prefix as a free-standing descriptor.
    pub fn descriptor(&self) -> (r: Prefix)
        ensures
            r.factor@ == prefix_scale(*self),
            r.factor.pos(),
            r.symbol@ == prefix_symbol(*self),
    {
        Prefix { factor: self.factor(), symbol: String::from_str(self.abbreviation()) }
    }
}

/// A prefix as immutable data: a positive scale factor and a symbol.
#[derive(Clone, Debug)]
pub struct Prefix {
    pub factor: Ratio,
    pub symbol: String,
}

impl Prefix {
    /// A prefix from a positive scale factor and a symbol.
    pub fn new(factor: Ratio, symbol: String) -> (r: Prefix)
        requires
            factor.pos(),
        ensures
            r.factor == factor,
            r.symbol == symbol,
    {
        Prefix { factor, symbol }
    }
}

} // verus!
