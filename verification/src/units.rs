//! Byte counts in whole megabytes and gigabytes, and shares of a whole.

use vstd::prelude::*;

verus! {

/// Bytes in one megabyte.
pub const BYTES_PER_MB: u64 = 1_048_576;

/// Bytes in one gigabyte.
pub const BYTES_PER_GB: u64 = 1_073_741_824;

/// The whole megabytes in a byte count; a remainder is dropped.
pub open spec fn megabytes_of(bytes: u64) -> u64 {
    (bytes / BYTES_PER_MB) as u64
}

/// The whole gigabytes in a byte count; a remainder is dropped.
pub open spec fn gigabytes_of(bytes: u64) -> u64 {
    (bytes / BYTES_PER_GB) as u64
}

/// Converts a byte count to whole megabytes, rounding down.
pub fn to_megabytes(bytes: u64) -> (mb: u64)
    ensures
        mb == megabytes_of(bytes),
        mb * BYTES_PER_MB <= bytes < (mb + 1) * BYTES_PER_MB,
{
    bytes / BYTES_PER_MB
}

/// Converts a byte count to whole gigabytes, rounding down.
pub fn to_gigabytes(bytes: u64) -> (gb: u64)
    ensures
        gb == gigabytes_of(bytes),
        gb * BYTES_PER_GB <= bytes < (gb + 1) * BYTES_PER_GB,
{
    bytes / BYTES_PER_GB
}

/// A share of a whole, from which a percentage is read: one hundred times
/// `part` divided by `whole`.
///
/// The two counts are kept as they were measured, so nothing is lost to
/// rounding before the value is shown. `Zero` is the percentage of a guarded
/// computation whose whole is empty. A `Ratio` whose `whole` is 0 has no
/// numeric value: shown as a binary floating-point number it is a NaN when
/// `part` is 0 too, and an infinity otherwise.
#[derive(Clone, Copy, Debug, PartialEq, Eq)]
pub enum Percentage {
    Zero,
    Ratio { part: u64, whole: u64 },
}

impl Percentage {
    /// Whether the percentage is a number.
    pub open spec fn is_number(self) -> bool {
        match self {
            Percentage::Zero => true,
            Percentage::Ratio { part, whole } => whole > 0,
        }
    }

    /// Whether the percentage is a number from 0 to 100.
    pub open spec fn in_range(self) -> bool {
        match self {
            Percentage::Zero => true,
            Percentage::Ratio { part, whole } => whole > 0 && 0 <= 100 * part <= 100 * whole,
        }
    }

    /// Whether the percentage is exactly 0.
    pub open spec fn is_zero(self) -> bool {
        match self {
            Percentage::Zero => true,
            Percentage::Ratio { part, whole } => whole > 0 && part == 0,
        }
    }

    /// The unguarded share of `part` in `whole`, whatever `whole` is.
    pub fn of(part: u64, whole: u64) -> (p: Percentage)
        ensures
            p == (Percentage::Ratio { part, whole }),
            p.is_number() <==> whole > 0,
            p.in_range() <==> whole > 0 && part <= whole,
    {
        Percentage::Ratio { part, whole }
    }

    /// The share of `part` in `whole`, and 0 where `whole` is 0.
    pub fn guarded(part: u64, whole: u64) -> (p: Percentage)
        ensures
            p == Percentage::guarded_of(part, whole),
            p.is_number(),
            p.in_range() <==> whole == 0 || part <= whole,
    {
        if whole > 0 {
            Percentage::Ratio { part, whole }
        } else {
            Percentage::Zero
        }
    }

    /// What `guarded` returns.
    pub open spec fn guarded_of(part: u64, whole: u64) -> Percentage {
        if whole > 0 {
            Percentage::Ratio { part, whole }
        } else {
            Percentage::Zero
        }
    }
}

} // verus!
