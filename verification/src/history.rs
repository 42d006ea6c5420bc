//! The history filter: which locations of a plan were scouted so recently
//! that they are left out of the queue.

use vstd::prelude::*;
use crate::clock::unix_now;
use crate::location::{Location, SAME_PLACE_MM};
use crate::models::ScoutedChat;

verus! {

/// Seconds in a day.
pub const SECONDS_PER_DAY: i64 = 86_400;

/// For how many days a scouted location is left alone, unless configured
/// otherwise.
pub const DAYS_COOLDOWN: i64 = 3;

/// A location closer than this many millimetres to a location scouted of
/// late counts as scouted: a tenth of the default spacing of the lattice.
pub const SCOUTED_RADIUS_MM: u64 = 86_000;

/// Whether a discovery pass at `scouted_at` is less than `days_cooldown`
/// days old at `now`.
pub open spec fn is_recent(scouted_at: i64, now: i64, days_cooldown: i64) -> bool {
    scouted_at > now - days_cooldown * SECONDS_PER_DAY
}

/// The locations of the rows of recent discovery passes, each once, in the
/// order in which the rows first name them.
pub open spec fn recent_locations(rows: Seq<ScoutedChat>, now: i64, days_cooldown: i64) -> Seq<
    Location,
>
    decreases rows.len(),
{
    if rows.len() == 0 {
        Seq::empty()
    } else {
        let before = recent_locations(rows.drop_last(), now, days_cooldown);
        let row = rows.last();
        if is_recent(row.scouted_at, now, days_cooldown) && !before.contains(row.location) {
            before.push(row.location)
        } else {
            before
        }
    }
}

/// Whether the table of distances says that places `i` and `j` are the same
/// place. A pair without an entry in the table is not.
pub open spec fn is_near(distances: Seq<Vec<u64>>, i: int, j: int) -> bool {
    &&& 0 <= i < distances.len()
    &&& 0 <= j < distances[i]@.len()
    &&& distances[i]@[j] < SAME_PLACE_MM
}

/// Whether place `i` is the same place as one of the places at `kept`.
pub open spec fn near_any(distances: Seq<Vec<u64>>, i: int, kept: Seq<usize>) -> bool {
    exists|k: int| 0 <= k < kept.len() && is_near(distances, i, #[trigger] kept[k] as int)
}

/// The positions of the first `len` places that are left when every place
/// is counted once: a place is left out if it is the same place as one that
/// stays and comes before it.
pub open spec fn distinct_positions(distances: Seq<Vec<u64>>, len: int) -> Seq<usize>
    decreases len,
{
    if len <= 0 {
        Seq::empty()
    } else {
        let before = distinct_positions(distances, len - 1);
        if near_any(distances, len - 1, before) {
            before
        } else {
            before.push((len - 1) as usize)
        }
    }
}

/// The locations at the given positions.
pub open spec fn locations_at(locations: Seq<Location>, positions: Seq<usize>) -> Seq<Location> {
    Seq::new(positions.len(), |k: int| locations[positions[k] as int])
}

/// Whether one of the distances is below the radius.
pub open spec fn within_radius(distances: Seq<u64>, radius_mm: u64) -> bool {
    exists|j: int| 0 <= j < distances.len() && #[trigger] distances[j] < radius_mm
}

/// Whether location `i` stays in the queue: it does unless one of its
/// distances is below the radius. A location without distances stays.
pub open spec fn is_kept(distances: Seq<Vec<u64>>, radius_mm: u64, i: int) -> bool {
    !(0 <= i < distances.len() && within_radius(distances[i]@, radius_mm))
}

/// The queue that is left of the first `len` locations: those that stay, in
/// their order.
pub open spec fn remaining(
    locations: Seq<Location>,
    distances: Seq<Vec<u64>>,
    radius_mm: u64,
    len: int,
) -> Seq<Location>
    decreases len,
{
    if len <= 0 {
        Seq::empty()
    } else {
        let before = remaining(locations, distances, radius_mm, len - 1);
        if is_kept(distances, radius_mm, len - 1) {
            before.push(locations[len - 1])
        } else {
            before
        }
    }
}

/// Whether a discovery pass at `scouted_at` is recent at `now`.
pub fn scouted_recently(scouted_at: i64, now: i64, days_cooldown: i64) -> (recent: bool)
    ensures
        recent == is_recent(scouted_at, now, days_cooldown),
{
    let window: i128 = days_cooldown as i128 * 86_400;
    scouted_at as i128 > now as i128 - window
}

/// The locations that were scouted within the last `days_cooldown` days,
/// each once.
pub fn scouted_locations(rows: &Vec<ScoutedChat>, days_cooldown: i64) -> (recent: Vec<Location>)
    ensures
        exists|now: i64| recent@ == recent_locations(rows@, now, days_cooldown),
        recent@.no_duplicates(),
{
    scouted_locations_at(rows, unix_now(), days_cooldown)
}

/// The locations that were scouted within the last `days_cooldown` days
/// before `now`, each once.
pub fn scouted_locations_at(rows: &Vec<ScoutedChat>, now: i64, days_cooldown: i64) -> (recent: Vec<
    Location,
>)
    ensures
        recent@ == recent_locations(rows@, now, days_cooldown),
        recent@.no_duplicates(),
{
    let mut recent: Vec<Location> = Vec::new();
    let mut i: usize = 0;
    assert(rows@.subrange(0, 0) =~= Seq::<ScoutedChat>::empty());
    while i < rows.len()
        invariant
            i <= rows.len(),
            recent@ == recent_locations(rows@.subrange(0, i as int), now, days_cooldown),
            recent@.no_duplicates(),
        decreases rows.len() - i,
    {
        proof {
            let longer = rows@.subrange(0, i + 1);
            assert(longer.drop_last() =~= rows@.subrange(0, i as int));
            assert(longer.last() == rows@[i as int]);
        }
        let location = rows[i].location;
        if scouted_recently(rows[i].scouted_at, now, days_cooldown) && !contains_location(
            &recent,
            location,
        ) {
            recent.push(location);
        }
        i = i + 1;
    }
    assert(rows@.subrange(0, rows.len() as int) =~= rows@);
    recent
}

/// The locations that are left when every place is counted once, in their
/// order. `distances[i][j]` holds the distance, in millimetres, between
/// `locations[i]` and `locations[j]`; two locations closer than
/// `SAME_PLACE_MM` are the same place, and of them the first stays.
pub fn distinct_places(locations: &Vec<Location>, distances: &Vec<Vec<u64>>) -> (places: Vec<Location>)
    ensures
        places@ == locations_at(
            locations@,
            distinct_positions(distances@, locations@.len() as int),
        ),
{
    let mut kept: Vec<usize> = Vec::new();
    let mut places: Vec<Location> = Vec::new();
    let mut i: usize = 0;
    while i < locations.len()
        invariant
            i <= locations.len(),
            kept@ == distinct_positions(distances@, i as int),
            places@ == locations_at(locations@, kept@),
            forall|k: int| 0 <= k < kept@.len() ==> #[trigger] kept@[k] < i,
        decreases locations.len() - i,
    {
        let mut near = false;
        if i < distances.len() {
            let row = &distances[i];
            let mut k: usize = 0;
            while k < kept.len() && !near
                invariant
                    k <= kept.len(),
                    i < distances.len(),
                    row@ == distances@[i as int]@,
                    near ==> near_any(distances@, i as int, kept@),
                    !near ==> forall|m: int|
                        0 <= m < k ==> !is_near(distances@, i as int, #[trigger] kept@[m] as int),
                decreases kept.len() - k,
            {
                let j = kept[k];
                if j < row.len() && row[j] < SAME_PLACE_MM {
                    near = true;
                    assert(is_near(distances@, i as int, kept@[k as int] as int));
                }
                k = k + 1;
            }
        }
        if !near {
            kept.push(i);
            places.push(locations[i]);
            assert(places@ =~= locations_at(locations@, kept@));
        }
        i = i + 1;
    }
    places
}

/// Whether `location` is among `locations`.
pub fn contains_location(locations: &Vec<Location>, location: Location) -> (found: bool)
    ensures
        found == locations@.contains(location),
{
    let mut i: usize = 0;
    while i < locations.len()
        invariant
            i <= locations.len(),
            forall|k: int| 0 <= k < i ==> locations@[k] != location,
        decreases locations.len() - i,
    {
        if locations[i] == location {
            return true;
        }
        i = i + 1;
    }
    false
}

/// Whether a location with these distances to the locations scouted of late
/// counts as scouted itself.
pub fn already_scouted(distances: &Vec<u64>, radius_mm: u64) -> (scouted: bool)
    ensures
        scouted == within_radius(distances@, radius_mm),
{
    let mut j: usize = 0;
    while j < distances.len()
        invariant
            j <= distances.len(),
            forall|k: int| 0 <= k < j ==> distances@[k] >= radius_mm,
        decreases distances.len() - j,
    {
        if distances[j] < radius_mm {
            return true;
        }
        j = j + 1;
    }
    false
}

/// The queue to start from: the locations of the plan without those that
/// count as scouted. `distances[i]` holds the distances, in millimetres,
/// from `locations[i]` to each location scouted of late.
pub fn filter_locations(locations: Vec<Location>, distances: &Vec<Vec<u64>>, radius_mm: u64) -> (queue:
    Vec<Location>)
    ensures
        queue@ == remaining(locations@, distances@, radius_mm, locations@.len() as int),
{
    let mut queue: Vec<Location> = Vec::new();
    let mut i: usize = 0;
    while i < locations.len()
        invariant
            i <= locations.len(),
            queue@ == remaining(locations@, distances@, radius_mm, i as int),
        decreases locations.len() - i,
    {
        let scouted = i < distances.len() && already_scouted(&distances[i], radius_mm);
        if !scouted {
            queue.push(locations[i]);
        }
        i = i + 1;
    }
    queue
}

/// A location is among the recent ones exactly when a row of a recent
/// discovery pass names it; a pass that is older names none.
pub proof fn lemma_recent_locations(
    rows: Seq<ScoutedChat>,
    now: i64,
    days_cooldown: i64,
    location: Location,
)
    ensures
        recent_locations(rows, now, days_cooldown).contains(location) <==> exists|i: int|
            0 <= i < rows.len() && (#[trigger] rows[i]).location == location && is_recent(
                rows[i].scouted_at,
                now,
                days_cooldown,
            ),
    decreases rows.len(),
{
    let recent = recent_locations(rows, now, days_cooldown);
    if rows.len() > 0 {
        let shorter = rows.drop_last();
        let before = recent_locations(shorter, now, days_cooldown);
        let row = rows.last();
        lemma_recent_locations(shorter, now, days_cooldown, location);
        assert(forall|i: int| 0 <= i < shorter.len() ==> shorter[i] == rows[i]);
        if recent.contains(location) {
            let k = choose|k: int| 0 <= k < recent.len() && recent[k] == location;
            if k < before.len() {
                assert(before[k] == location);
                let i = choose|i: int|
                    0 <= i < shorter.len() && (#[trigger] shorter[i]).location == location
                        && is_recent(shorter[i].scouted_at, now, days_cooldown);
                assert(rows[i].location == location);
            } else {
                assert(rows[rows.len() - 1].location == location);
            }
        }
        if exists|i: int|
            0 <= i < rows.len() && (#[trigger] rows[i]).location == location && is_recent(
                rows[i].scouted_at,
                now,
                days_cooldown,
            ) {
            let i = choose|i: int|
                0 <= i < rows.len() && (#[trigger] rows[i]).location == location && is_recent(
                    rows[i].scouted_at,
                    now,
                    days_cooldown,
                );
            if i < shorter.len() {
                assert(shorter[i].location == location);
                let k = choose|k: int| 0 <= k < before.len() && before[k] == location;
                assert(recent[k] == location);
            } else if before.contains(location) {
                let k = choose|k: int| 0 <= k < before.len() && before[k] == location;
                assert(recent[k] == location);
            } else {
                assert(recent[recent.len() - 1] == location);
            }
        }
    }
}

/// The queue holds every location that stays, and a location all of whose
/// occurrences in the plan count as scouted is not in it.
pub proof fn lemma_remaining(
    locations: Seq<Location>,
    distances: Seq<Vec<u64>>,
    radius_mm: u64,
    len: int,
    location: Location,
)
    requires
        0 <= len <= locations.len(),
    ensures
        remaining(locations, distances, radius_mm, len).contains(location) <==> exists|i: int|
            0 <= i < len && #[trigger] locations[i] == location && is_kept(distances, radius_mm, i),
        remaining(locations, distances, radius_mm, len).len() <= len,
    decreases len,
{
    let queue = remaining(locations, distances, radius_mm, len);
    if len > 0 {
        let before = remaining(locations, distances, radius_mm, len - 1);
        lemma_remaining(locations, distances, radius_mm, len - 1, location);
        if queue.contains(location) {
            let k = choose|k: int| 0 <= k < queue.len() && queue[k] == location;
            if k < before.len() {
                assert(before[k] == location);
            } else {
                assert(locations[len - 1] == location);
            }
        }
        if exists|i: int|
            0 <= i < len && #[trigger] locations[i] == location && is_kept(distances, radius_mm, i) {
            let i = choose|i: int|
                0 <= i < len && #[trigger] locations[i] == location && is_kept(
                    distances,
                    radius_mm,
                    i,
                );
            if i < len - 1 {
                let k = choose|k: int| 0 <= k < before.len() && before[k] == location;
                assert(queue[k] == location);
            } else {
                assert(queue[queue.len() - 1] == location);
            }
        }
    }
}

/// When every place is counted once, the places that stay keep their
/// order, no two of them are the same place as far as the later one's
/// distances say, and a place is left out only for a place that stays and
/// comes before it.
pub proof fn lemma_distinct_positions(distances: Seq<Vec<u64>>, len: int)
    requires
        0 <= len <= usize::MAX,
    ensures
        distinct_positions(distances, len).len() <= len,
        forall|k: int|
            0 <= k < distinct_positions(distances, len).len() ==> #[trigger] distinct_positions(
                distances,
                len,
            )[k] < len,
        forall|a: int, b: int|
            0 <= a < b < distinct_positions(distances, len).len() ==> {
                &&& #[trigger] distinct_positions(distances, len)[a] < #[trigger] distinct_positions(
                    distances,
                    len,
                )[b]
                &&& !is_near(
                    distances,
                    distinct_positions(distances, len)[b] as int,
                    distinct_positions(distances, len)[a] as int,
                )
            },
        forall|i: int|
            0 <= i < len ==> (#[trigger] distinct_positions(distances, len).contains(i as usize)
                <==> !near_any(distances, i, distinct_positions(distances, i))),
        len > 0 ==> distinct_positions(distances, len)[0] == 0,
    decreases len,
{
    if len > 0 {
        let before = distinct_positions(distances, len - 1);
        let all = distinct_positions(distances, len);
        lemma_distinct_positions(distances, len - 1);
        if near_any(distances, len - 1, before) {
            assert(!all.contains((len - 1) as usize)) by {
                if all.contains((len - 1) as usize) {
                    let k = choose|k: int| 0 <= k < all.len() && all[k] == (len - 1) as usize;
                    assert(before[k] < len - 1);
                }
            }
        } else {
            assert(all[all.len() - 1] == (len - 1) as usize);
            assert forall|a: int, b: int| 0 <= a < b < all.len() implies {
                &&& #[trigger] all[a] < #[trigger] all[b]
                &&& !is_near(distances, all[b] as int, all[a] as int)
            } by {
                if b == all.len() - 1 {
                    assert(before[a] < len - 1);
                    assert(!is_near(distances, len - 1, before[a] as int));
                } else {
                    assert(before[a] < before[b]);
                }
            }
            assert forall|i: int| 0 <= i < len - 1 implies (#[trigger] all.contains(i as usize)
                <==> before.contains(i as usize)) by {
                if before.contains(i as usize) {
                    let k = choose|k: int| 0 <= k < before.len() && before[k] == i as usize;
                    assert(all[k] == i as usize);
                }
                if all.contains(i as usize) {
                    let k = choose|k: int| 0 <= k < all.len() && all[k] == i as usize;
                    assert(before[k] == i as usize);
                }
            }
        }
        if len == 1 {
            assert(before.len() == 0);
        } else {
            assert(all[0] == before[0]);
        }
    }
}

} // verus!
