//! The plan of the hexagonal lattice: which points surround an origin, ring
//! by ring, and in which order they are visited.

use vstd::prelude::*;
use vstd::arithmetic::div_mod::lemma_fundamental_div_mod_converse;
use crate::direction::Direction;
use crate::location::Location;

verus! {

/// One point of the lattice, given by the way that leads to it.
///
/// `Ring { level, corner, step }` is reached from the origin by going `level`
/// spacings along `corner`, which leads to a corner of the ring, and from
/// there `step` spacings along the bearing that `Direction::next` gives for
/// `corner`.
#[derive(Clone, Copy, Debug, PartialEq, Eq, Hash, Structural)]
pub enum GridPoint {
    Origin,
    Ring { level: u32, corner: Direction, step: u32 },
}

/// Number of points of the lattice with `level` rings.
pub open spec fn grid_len(level: int) -> int {
    1 + 3 * level * (level + 1)
}

/// Point `k` of ring `level`, counted from zero: the sides come clockwise,
/// from the side that starts at the corner in the north, and each side gives
/// the `level` points that follow its corner.
pub open spec fn ring_point(level: u32, k: int) -> GridPoint {
    GridPoint::Ring {
        level,
        corner: Direction::at(k / (level as int)),
        step: (k % (level as int) + 1) as u32,
    }
}

/// The points of ring `level`, in the order of the plan.
pub open spec fn ring(level: u32) -> Seq<GridPoint> {
    Seq::new((6 * level) as nat, |k: int| ring_point(level, k))
}

/// The plan for `level` rings: the origin, then ring 1, then ring 2, and so on.
pub open spec fn grid(level: u32) -> Seq<GridPoint>
    decreases level,
{
    if level == 0 {
        seq![GridPoint::Origin]
    } else {
        grid((level - 1) as u32) + ring(level)
    }
}

/// One spacing along a bearing, in the coordinates of the lattice: whole
/// spacings to the north and whole spacings to the south-east. A spacing to
/// the north-east is one of each.
pub open spec fn stride(bearing: Direction) -> (int, int) {
    match bearing {
        Direction::North => (1, 0),
        Direction::NorthEast => (1, 1),
        Direction::SouthEast => (0, 1),
        Direction::South => (-1, 0),
        Direction::SouthWest => (-1, -1),
        Direction::NorthWest => (0, -1),
    }
}

/// Where a point of the plan lies, in the coordinates of the lattice: the
/// place reached from the origin by `level` strides along the corner's
/// bearing and `step` strides along the bearing of the side.
pub open spec fn position(point: GridPoint) -> (int, int) {
    match point {
        GridPoint::Origin => (0, 0),
        GridPoint::Ring { level, corner, step } => match corner {
            Direction::North => (level as int, step as int),
            Direction::NorthEast => (level - step, level as int),
            Direction::SouthEast => (-step, level - step),
            Direction::South => (-level, -step),
            Direction::SouthWest => (step - level, -level),
            Direction::NorthWest => (step as int, step - level),
        },
    }
}

/// How many spacings a place of the lattice is away from the origin, by the
/// shortest way along the six bearings.
pub open spec fn rings_away(place: (int, int)) -> int {
    let north = if place.0 < 0 {
        -place.0
    } else {
        place.0
    };
    let south_east = if place.1 < 0 {
        -place.1
    } else {
        place.1
    };
    if (place.0 < 0) == (place.1 < 0) {
        if north > south_east {
            north
        } else {
            south_east
        }
    } else {
        north + south_east
    }
}

impl GridPoint {
    /// Where the point lies in the coordinates of the lattice: whole
    /// spacings to the north and to the south-east of the origin.
    pub fn position(&self) -> (place: (i64, i64))
        ensures
            place.0 == position(*self).0,
            place.1 == position(*self).1,
    {
        match self {
            GridPoint::Origin => (0, 0),
            GridPoint::Ring { level, corner, step } => {
                let l: i64 = *level as i64;
                let i: i64 = *step as i64;
                match corner {
                    Direction::North => (l, i),
                    Direction::NorthEast => (l - i, l),
                    Direction::SouthEast => (-i, l - i),
                    Direction::South => (-l, -i),
                    Direction::SouthWest => (i - l, -l),
                    Direction::NorthWest => (i, i - l),
                }
            },
        }
    }
}

impl Location {
    /// The plan of the lattice with `level` rings around any origin.
    pub fn compute_locations(level: u32) -> (plan: Vec<GridPoint>)
        requires
            grid_len(level as int) <= usize::MAX,
        ensures
            plan@ == grid(level),
            plan@.len() == grid_len(level as int),
            level == 0 ==> plan@ == seq![GridPoint::Origin],
    {
        let directions = Direction::iter();
        let mut plan: Vec<GridPoint> = Vec::new();
        plan.push(GridPoint::Origin);
        assert(plan@ =~= grid(0));
        let mut l: u32 = 0;
        while l < level
            invariant
                l <= level,
                plan@ == grid(l),
                directions@ == Direction::cycle(),
            decreases level - l,
        {
            l = l + 1;
            let ghost inner = plan@;
            let mut d: usize = 0;
            while d < 6
                invariant
                    d <= 6,
                    1 <= l <= level,
                    directions@ == Direction::cycle(),
                    plan@ == inner + ring(l).subrange(0, d * l),
                decreases 6 - d,
            {
                let corner = directions[d];
                let mut i: u32 = 0;
                while i < l
                    invariant
                        d < 6,
                        i <= l,
                        1 <= l,
                        corner == Direction::at(d as int),
                        plan@ == inner + ring(l).subrange(0, d * l + i),
                    decreases l - i,
                {
                    proof {
                        lemma_fundamental_div_mod_converse(d * l + i, l as int, d as int, i as int);
                        assert(d * l + i < 6 * l) by (nonlinear_arith)
                            requires
                                d < 6,
                                i < l,
                        ;
                    }
                    i = i + 1;
                    plan.push(GridPoint::Ring { level: l, corner, step: i });
                    assert(plan@ =~= inner + ring(l).subrange(0, d * l + i));
                }
                proof {
                    assert(d * l + l == (d + 1) * l) by (nonlinear_arith);
                }
                d = d + 1;
            }
            proof {
                assert(ring(l).subrange(0, 6 * l) =~= ring(l));
            }
        }
        proof {
            lemma_grid_len(level);
        }
        plan
    }
}

/// The lattice with `k` rings has `1 + 3 k (k + 1)` points: one with no ring,
/// seven with one, nineteen with two.
pub proof fn lemma_grid_len(level: u32)
    ensures
        grid(level).len() == grid_len(level as int),
        grid(0).len() == 1,
        grid(1).len() == 7,
        grid(2).len() == 19,
    decreases level,
{
    reveal_with_fuel(grid, 3);
    if level > 0 {
        lemma_grid_len((level - 1) as u32);
        assert(grid_len(level as int) == grid_len(level - 1) + 6 * level) by (nonlinear_arith);
    }
}

/// With no ring the plan is the origin alone, and every plan starts there.
pub proof fn lemma_grid_starts_at_origin(level: u32)
    ensures
        grid(0) == seq![GridPoint::Origin],
        grid(level).len() >= 1,
        grid(level)[0] == GridPoint::Origin,
    decreases level,
{
    if level > 0 {
        lemma_grid_starts_at_origin((level - 1) as u32);
    }
}

/// A plan with more rings starts with the plan with fewer: the position of a
/// point does not depend on how many rings follow.
pub proof fn lemma_grid_prefix(inner: u32, outer: u32)
    requires
        inner <= outer,
    ensures
        grid(inner).len() <= grid(outer).len(),
        grid(outer).subrange(0, grid(inner).len() as int) == grid(inner),
    decreases outer - inner,
{
    if inner == outer {
        assert(grid(outer).subrange(0, grid(inner).len() as int) =~= grid(inner));
    } else {
        lemma_grid_prefix(inner, (outer - 1) as u32);
        assert(grid(outer).subrange(0, grid(inner).len() as int) =~= grid((outer - 1) as u32).subrange(
            0,
            grid(inner).len() as int,
        ));
    }
}

/// Where a point of ring `level` stands in a plan that has that ring: after
/// the `grid_len(level - 1)` points of the rings inside, side after side.
pub proof fn lemma_grid_point(rings: u32, level: u32, side: int, step: u32)
    requires
        1 <= level <= rings,
        0 <= side < 6,
        1 <= step <= level,
    ensures
        grid_len(level - 1) + side * level + step - 1 < grid(rings).len(),
        grid(rings)[grid_len(level - 1) + side * level + step - 1] == (GridPoint::Ring {
            level,
            corner: Direction::at(side),
            step,
        }),
{
    let k = side * level + step - 1;
    lemma_grid_len((level - 1) as u32);
    lemma_grid_len(level);
    lemma_grid_prefix(level, rings);
    assert(0 <= side * level) by (nonlinear_arith)
        requires
            0 <= side,
            1 <= level,
    ;
    assert(k < 6 * level) by (nonlinear_arith)
        requires
            k == side * level + step - 1,
            side < 6,
            step <= level,
    ;
    lemma_fundamental_div_mod_converse(k, level as int, side, step - 1);
    assert(grid(level)[grid_len(level - 1) + k] == ring(level)[k]);
    assert(grid(rings).subrange(0, grid(level).len() as int)[grid_len(level - 1) + k] == grid(rings)[grid_len(
        level - 1,
    ) + k]);
}

/// The place of a point of a ring is the sum of its strides: `level` of them
/// along the bearing of the corner, and `step` along the bearing of the side.
pub proof fn lemma_position_sums_strides(level: u32, corner: Direction, step: u32)
    ensures
        position(GridPoint::Ring { level, corner, step }).0 == level * stride(corner).0 + step * stride(
            Direction::at(corner.index() + 2),
        ).0,
        position(GridPoint::Ring { level, corner, step }).1 == level * stride(corner).1 + step * stride(
            Direction::at(corner.index() + 2),
        ).1,
{
    let along = stride(corner);
    let aside = stride(Direction::at(corner.index() + 2));
    assert(level * 1 == level && level * 0 == 0 && level * (-1) == -level && step * 1 == step && step
        * 0 == 0 && step * (-1) == -step);
}

/// The six points of the first ring are the six neighbours of the origin:
/// each lies one stride away, along the bearing that follows the bearing of
/// its corner in the cycle. So the plan visits the neighbours clockwise, from
/// the one in the north-east to the one in the north.
pub proof fn lemma_first_ring_is_the_neighbours(corner: Direction)
    ensures
        position(GridPoint::Ring { level: 1, corner, step: 1 }) == stride(
            Direction::at(corner.index() + 1),
        ),
        grid(1)[1 + corner.index()] == (GridPoint::Ring { level: 1, corner, step: 1 }),
{
    lemma_grid_point(1, 1, corner.index(), 1);
    crate::direction::lemma_at_index(corner);
}

/// On the lattice a stride and the stride along the opposite bearing cancel
/// each other, and the stride between two bearings that are 120 degrees
/// apart is their sum.
pub proof fn lemma_strides(bearing: Direction)
    ensures
        stride(bearing).0 + stride(Direction::at(bearing.index() + 3)).0 == 0,
        stride(bearing).1 + stride(Direction::at(bearing.index() + 3)).1 == 0,
        stride(bearing).0 + stride(Direction::at(bearing.index() + 2)).0 == stride(
            Direction::at(bearing.index() + 1),
        ).0,
        stride(bearing).1 + stride(Direction::at(bearing.index() + 2)).1 == stride(
            Direction::at(bearing.index() + 1),
        ).1,
        rings_away(stride(bearing)) == 1,
{
}

/// On the lattice a place is as far from the origin as the origin is from
/// it, and only the origin is no spacing away from itself.
pub proof fn lemma_rings_away(place: (int, int))
    ensures
        rings_away(place) == rings_away((-place.0, -place.1)),
        rings_away(place) >= 0,
        rings_away(place) == 0 <==> place == (0int, 0int),
{
}

/// A point of ring `level` lies `level` spacings away from the origin.
pub proof fn lemma_ring_is_a_ring(level: u32, corner: Direction, step: u32)
    requires
        1 <= step <= level,
    ensures
        rings_away(position(GridPoint::Ring { level, corner, step })) == level,
{
}

/// Two points of the plan that lie at the same place are the same point: the
/// plan visits no place twice.
pub proof fn lemma_grid_visits_once(rings: u32, i: int, j: int)
    requires
        0 <= i < grid(rings).len(),
        0 <= j < grid(rings).len(),
        position(grid(rings)[i]) == position(grid(rings)[j]),
    ensures
        i == j,
{
    lemma_grid_index(rings, i);
    lemma_grid_index(rings, j);
    if i > 0 && j > 0 {
        let a = grid(rings)[i];
        let b = grid(rings)[j];
        lemma_ring_is_a_ring(a->level, a->corner, a->step);
        lemma_ring_is_a_ring(b->level, b->corner, b->step);
        assert(a->level == b->level);
        assert(a->corner == b->corner);
        assert(a->step == b->step);
        assert(a->corner.index() * a->level == b->corner.index() * b->level);
    } else if i > 0 {
        let a = grid(rings)[i];
        lemma_ring_is_a_ring(a->level, a->corner, a->step);
    } else if j > 0 {
        let b = grid(rings)[j];
        lemma_ring_is_a_ring(b->level, b->corner, b->step);
    }
}

/// Every place of the lattice that lies at most `rings` spacings away from
/// the origin is a point of the plan: the plan leaves no place out.
pub proof fn lemma_grid_visits_all(rings: u32, place: (int, int))
    requires
        rings_away(place) <= rings,
    ensures
        exists|k: int| 0 <= k < grid(rings).len() && position(#[trigger] grid(rings)[k]) == place,
{
    let away = rings_away(place);
    if away == 0 {
        lemma_grid_starts_at_origin(rings);
        assert(position(grid(rings)[0]) == place);
    } else {
        let level = away as u32;
        let (north, south_east) = place;
        let (side, step): (int, int) = if north == away && 1 <= south_east {
            (0, south_east)
        } else if south_east == away && 0 <= north {
            (1, away - north)
        } else if north < 0 && south_east >= 0 {
            (2, -north)
        } else if north == -away && south_east <= -1 {
            (3, -south_east)
        } else if south_east == -away && north <= 0 {
            (4, away + north)
        } else {
            (5, north)
        };
        lemma_grid_point(rings, level, side, step as u32);
        let k = grid_len(level - 1) + side * level + step - 1;
        assert(position(grid(rings)[k]) == place);
    }
}

/// The point at a position of the plan, by the position alone: the origin
/// at the start, and after it, ring by ring and side by side, the point
/// whose ring, side and step the position counts out.
pub proof fn lemma_grid_index(rings: u32, k: int)
    requires
        0 <= k < grid(rings).len(),
    ensures
        k == 0 ==> grid(rings)[k] == GridPoint::Origin,
        k > 0 ==> (grid(rings)[k] matches GridPoint::Ring { level, corner, step } && 1 <= level <= rings
            && 1 <= step <= level && k == grid_len(level - 1) + corner.index() * level + step - 1),
    decreases rings,
{
    if rings > 0 {
        let inner = grid((rings - 1) as u32);
        lemma_grid_len((rings - 1) as u32);
        if k < inner.len() {
            lemma_grid_index((rings - 1) as u32, k);
        } else {
            let j = k - inner.len();
            assert(grid(rings)[k] == ring(rings)[j]);
            let side = j / (rings as int);
            let step = j % (rings as int);
            vstd::arithmetic::div_mod::lemma_fundamental_div_mod(j, rings as int);
            assert(0 <= step < rings) by (nonlinear_arith)
                requires
                    rings > 0,
                    step == j % (rings as int),
            ;
            assert(0 <= side < 6) by (nonlinear_arith)
                requires
                    0 <= j < 6 * rings,
                    rings > 0,
                    j == rings * side + step,
                    0 <= step < rings,
            ;
            crate::direction::lemma_at_index(Direction::at(side));
            assert(Direction::at(side).index() == side);
            assert(rings * side == side * rings) by (nonlinear_arith);
        }
    }
}

} // verus!
