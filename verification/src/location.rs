//! Coordinates in fixed point.
//!
//! A coordinate holds latitude and longitude in millionths of a degree, so
//! that two coordinates are the same value exactly when they agree to six
//! decimal places. Distances are whole millimetres. Measuring a distance
//! takes trigonometry and is left to the caller: the library is handed the
//! distances that its rules ask for.

use vstd::prelude::*;
use vstd::arithmetic::div_mod::{lemma_fundamental_div_mod, lemma_fundamental_div_mod_converse};

verus! {

/// Millionths of a degree in one degree.
pub const MICRODEGREES: i64 = 1_000_000;

/// Two coordinates closer than this many millimetres are the same place.
pub const SAME_PLACE_MM: u64 = 10_000;

/// Largest magnitude of a coordinate that `Location::round` accepts.
pub const ROUND_LIMIT: i64 = 0x7fff_ffff_ffff_ffff - 500_000;

/// Latitude and longitude, in millionths of a degree.
#[derive(Clone, Copy, Debug, PartialEq, Eq, Hash, Structural)]
pub struct Location(pub i64, pub i64);

/// The step between the values that remain after rounding to `decimals`
/// decimal places, in millionths of a degree.
pub open spec fn rounding_unit(decimals: u32) -> int {
    if decimals == 0 {
        1_000_000
    } else if decimals == 1 {
        100_000
    } else if decimals == 2 {
        10_000
    } else if decimals == 3 {
        1_000
    } else if decimals == 4 {
        100
    } else if decimals == 5 {
        10
    } else {
        1
    }
}

/// The multiple of `unit` nearest to `x`; a tie goes away from zero.
pub open spec fn round_half_away(x: int, unit: int) -> int {
    if x >= 0 {
        ((x + unit / 2) / unit) * unit
    } else {
        -(((unit / 2 - x) / unit) * unit)
    }
}

/// Whether the distance between two coordinates makes them the same place.
pub open spec fn is_same_place(distance_mm: u64) -> bool {
    distance_mm < SAME_PLACE_MM
}

/// Decides from their distance whether two coordinates are the same place.
pub fn same_place(distance_mm: u64) -> (same: bool)
    ensures
        same == is_same_place(distance_mm),
{
    distance_mm < SAME_PLACE_MM
}

fn unit_for(decimals: u32) -> (unit: i64)
    ensures
        unit == rounding_unit(decimals),
{
    match decimals {
        0 => 1_000_000,
        1 => 100_000,
        2 => 10_000,
        3 => 1_000,
        4 => 100,
        5 => 10,
        _ => 1,
    }
}

fn round_coordinate(x: i64, unit: i64) -> (rounded: i64)
    requires
        1 <= unit <= 1_000_000,
        -ROUND_LIMIT <= x <= ROUND_LIMIT,
    ensures
        rounded == round_half_away(x as int, unit as int),
{
    let half: i64 = unit / 2;
    if x >= 0 {
        let q: i64 = (x + half) / unit;
        proof {
            lemma_fundamental_div_mod(x + half, unit as int);
            assert(unit * q == q * unit) by (nonlinear_arith);
        }
        q * unit
    } else {
        let q: i64 = (half - x) / unit;
        proof {
            lemma_fundamental_div_mod(half - x, unit as int);
            assert(unit * q == q * unit) by (nonlinear_arith);
        }
        -(q * unit)
    }
}

impl Location {
    /// Whether both coordinates are small enough to be rounded.
    pub open spec fn can_round(self) -> bool {
        &&& -ROUND_LIMIT <= self.0 <= ROUND_LIMIT
        &&& -ROUND_LIMIT <= self.1 <= ROUND_LIMIT
    }

    /// A coordinate from latitude and longitude in millionths of a degree.
    pub fn new(lat: i64, lon: i64) -> (location: Location)
        ensures
            location == Location(lat, lon),
    {
        Location(lat, lon)
    }

    /// Rounds both coordinates to `decimals` decimal places of a degree, ties
    /// away from zero. Six places or more leave the coordinate as it is.
    pub fn round(&self, decimals: u32) -> (rounded: Location)
        requires
            self.can_round(),
        ensures
            rounded.0 == round_half_away(self.0 as int, rounding_unit(decimals)),
            rounded.1 == round_half_away(self.1 as int, rounding_unit(decimals)),
            decimals >= 6 ==> rounded == *self,
    {
        let unit = unit_for(decimals);
        Location(round_coordinate(self.0, unit), round_coordinate(self.1, unit))
    }
}

/// Rounding yields the multiple of the unit that is nearest to the value, and
/// of two nearest multiples the one further from zero.
pub proof fn lemma_round_is_nearest(x: int, unit: int)
    requires
        unit == 1 || (unit >= 2 && unit % 2 == 0),
    ensures
        round_half_away(x, unit) % unit == 0,
        2 * (round_half_away(x, unit) - x) <= unit,
        2 * (x - round_half_away(x, unit)) <= unit,
        x >= 0 ==> 2 * (x - round_half_away(x, unit)) < unit,
        x < 0 ==> 2 * (round_half_away(x, unit) - x) < unit,
{
    let half = unit / 2;
    assert(unit == 1 ==> half == 0);
    assert(unit >= 2 ==> 2 * half == unit);
    if x >= 0 {
        let q = (x + half) / unit;
        lemma_fundamental_div_mod(x + half, unit);
        assert(unit * q == q * unit) by (nonlinear_arith);
        lemma_fundamental_div_mod_converse(q * unit, unit, q, 0);
    } else {
        let q = (half - x) / unit;
        lemma_fundamental_div_mod(half - x, unit);
        assert(unit * q == q * unit) by (nonlinear_arith);
        assert(-(q * unit) == (-q) * unit) by (nonlinear_arith);
        lemma_fundamental_div_mod_converse((-q) * unit, unit, -q, 0);
    }
}

/// Rounding a value that is already rounded changes nothing.
pub proof fn lemma_round_idempotent(x: int, unit: int)
    requires
        unit == 1 || (unit >= 2 && unit % 2 == 0),
    ensures
        round_half_away(round_half_away(x, unit), unit) == round_half_away(x, unit),
{
    let half = unit / 2;
    let r = round_half_away(x, unit);
    if x >= 0 {
        let q = (x + half) / unit;
        lemma_fundamental_div_mod(x + half, unit);
        assert(q >= 0) by (nonlinear_arith)
            requires
                x + half >= 0,
                unit > 0,
                q == (x + half) / unit,
        ;
        assert(q * unit >= 0) by (nonlinear_arith)
            requires
                q >= 0,
                unit > 0,
        ;
        lemma_fundamental_div_mod_converse(q * unit + half, unit, q, half);
    } else {
        let q = (half - x) / unit;
        lemma_fundamental_div_mod(half - x, unit);
        assert(q >= 0) by (nonlinear_arith)
            requires
                half - x >= 0,
                unit > 0,
                q == (half - x) / unit,
        ;
        assert(q * unit >= 0) by (nonlinear_arith)
            requires
                q >= 0,
                unit > 0,
        ;
        lemma_fundamental_div_mod_converse(q * unit + half, unit, q, half);
        if q == 0 {
            assert(q * unit == 0) by (nonlinear_arith)
                requires
                    q == 0,
            ;
            lemma_fundamental_div_mod_converse(half, unit, 0, half);
        }
    }
}

} // verus!
