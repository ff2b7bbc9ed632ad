//! A units-of-measure library.
//!
//! Physical quantities (length, mass, force, ...) are identified by a
//! dimension vector of signed exponents, packed into a single integer code.
//! Units attach exact rational conversion factors to a quantity, prefixes
//! scale units, and values carry a magnitude together with a unit. The
//! conversion engine moves a magnitude between any two units of the same
//! quantity through the quantity's canonical base representation.

pub mod dimension;
pub mod prefix;
pub mod quantity;
pub mod ratio;
pub mod unit;
pub mod value;
