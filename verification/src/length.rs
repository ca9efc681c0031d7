//! Lengths in millimetres, kept exactly to nine decimal places.

use vstd::prelude::*;

verus! {

/// How many billionths make up one millimetre.
pub const UNITS_PER_MM: u64 = 1_000_000_000;

/// How many billionths make up one centimetre.
pub const UNITS_PER_CM: u64 = 10_000_000_000;

/// How many billionths make up one inch (25.4 mm).
pub const UNITS_PER_INCH: u64 = 25_400_000_000;

/// A length in millimetres with nine exact decimal places.
///
/// The single field counts billionths of a millimetre, so `Mm(210_000_000_000)`
/// is 210 mm and `Mm(215_900_000_000)` is 215.9 mm.
#[derive(Clone, Copy, Debug, PartialEq, Eq, Structural)]
pub struct Mm(pub u64);

} // verus!
