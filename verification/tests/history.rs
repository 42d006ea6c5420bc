use fetish_common::history::{
    already_scouted, contains_location, distinct_places, filter_locations, scouted_locations,
    scouted_locations_at,
    scouted_recently, DAYS_COOLDOWN, SCOUTED_RADIUS_MM, SECONDS_PER_DAY,
};
use fetish_common::location::Location;
use fetish_common::models::ScoutedChat;

const NOW: i64 = 1_700_000_000;
const A: Location = Location(48_859_270, 2_382_861);
const B: Location = Location(48_867_004, 2_382_861);
const C: Location = Location(48_851_536, 2_382_861);

fn row(chat_id: i64, location: Location, days_ago: i64) -> ScoutedChat {
    ScoutedChat { chat_id, location, scouted_at: NOW - days_ago * SECONDS_PER_DAY, joined_at: None }
}

#[test]
fn defaults_of_the_filter() {
    assert_eq!(DAYS_COOLDOWN, 3);
    assert_eq!(SCOUTED_RADIUS_MM, 86_000);
    assert_eq!(SECONDS_PER_DAY, 86_400);
}

#[test]
fn recency_is_strict_at_the_edge_of_the_window() {
    assert!(scouted_recently(NOW, NOW, 3));
    assert!(scouted_recently(NOW - 3 * 86_400 + 1, NOW, 3));
    assert!(!scouted_recently(NOW - 3 * 86_400, NOW, 3));
    assert!(!scouted_recently(NOW - 4 * 86_400, NOW, 3));
    assert!(scouted_recently(NOW + 10, NOW, 3));
    assert!(!scouted_recently(NOW, NOW, 0));
}

#[test]
fn recency_does_not_overflow() {
    assert!(scouted_recently(0, i64::MIN, i64::MAX));
    assert!(!scouted_recently(0, i64::MAX, i64::MIN));
    assert!(scouted_recently(i64::MIN, i64::MIN, 1));
    assert!(!scouted_recently(i64::MAX, i64::MAX, -1));
}

#[test]
fn recent_locations_come_once_each() {
    let rows = vec![row(1, A, 1), row(2, B, 4), row(3, A, 2), row(4, C, 0), row(5, B, 5)];
    assert_eq!(scouted_locations_at(&rows, NOW, 3), vec![A, C]);
    assert_eq!(scouted_locations_at(&rows, NOW, 5), vec![A, B, C]);
    assert_eq!(scouted_locations_at(&rows, NOW, 0), Vec::<Location>::new());
    assert_eq!(scouted_locations_at(&vec![], NOW, 3), Vec::<Location>::new());
}

#[test]
fn recent_locations_read_the_clock() {
    let rows = vec![
        ScoutedChat { chat_id: 1, location: A, scouted_at: 1_000, joined_at: None },
        ScoutedChat { chat_id: 2, location: B, scouted_at: i64::MAX, joined_at: None },
    ];
    assert_eq!(scouted_locations(&rows, 3), vec![B]);
}

#[test]
fn contains_location_compares_both_coordinates() {
    assert!(contains_location(&vec![A, B], B));
    assert!(!contains_location(&vec![A, B], C));
    assert!(!contains_location(&vec![A], Location(A.0, A.1 + 1)));
    assert!(!contains_location(&vec![], A));
}

#[test]
fn scouted_means_one_distance_below_the_radius() {
    assert!(already_scouted(&vec![200_000, 50_000], 86_000));
    assert!(already_scouted(&vec![85_999], 86_000));
    assert!(!already_scouted(&vec![86_000], 86_000));
    assert!(!already_scouted(&vec![200_000, 90_000], 86_000));
    assert!(!already_scouted(&vec![], 86_000));
    assert!(!already_scouted(&vec![0], 0));
}

#[test]
fn filter_keeps_what_is_far_from_every_scouted_location() {
    let distances = vec![vec![50_000], vec![200_000], vec![86_000, 10], vec![]];
    let queue = filter_locations(vec![A, B, C, A], &distances, SCOUTED_RADIUS_MM);
    assert_eq!(queue, vec![B, A]);
}

#[test]
fn filter_keeps_a_location_without_distances() {
    let queue = filter_locations(vec![A, B, C], &vec![vec![1]], SCOUTED_RADIUS_MM);
    assert_eq!(queue, vec![B, C]);
    assert_eq!(filter_locations(vec![A, B], &vec![], SCOUTED_RADIUS_MM), vec![A, B]);
    assert_eq!(filter_locations(vec![], &vec![vec![1]], SCOUTED_RADIUS_MM), Vec::<Location>::new());
}

#[test]
fn filter_never_reorders() {
    let locations = vec![C, A, B, A, C];
    let distances = vec![vec![90_000], vec![1], vec![90_000], vec![90_000], vec![1]];
    assert_eq!(filter_locations(locations, &distances, SCOUTED_RADIUS_MM), vec![C, B, A]);
}

#[test]
fn places_closer_than_ten_metres_are_counted_once() {
    let distances = vec![
        vec![0, 9_999, 500_000, 10_000],
        vec![9_999, 0, 500_000, 5_000],
        vec![500_000, 500_000, 0, 500_000],
        vec![10_000, 5_000, 500_000, 0],
    ];
    let d = Location(A.0 + 1, A.1);
    assert_eq!(distinct_places(&vec![A, B, C, d], &distances), vec![A, C, d]);
}

#[test]
fn place_is_left_out_only_for_a_place_that_stays() {
    let distances = vec![vec![0], vec![5_000, 0], vec![500_000, 5_000, 0]];
    assert_eq!(distinct_places(&vec![A, B, C], &distances), vec![A, C]);
}

#[test]
fn places_without_distances_all_stay() {
    assert_eq!(distinct_places(&vec![A, A, B], &vec![]), vec![A, A, B]);
    assert_eq!(distinct_places(&vec![A, B], &vec![vec![], vec![]]), vec![A, B]);
    assert_eq!(distinct_places(&vec![], &vec![vec![1]]), Vec::<Location>::new());
    assert_eq!(distinct_places(&vec![A], &vec![vec![0]]), vec![A]);
}
