use pearl_calculator::optimizer::{SearchParams, generate_candidates};
use pearl_calculator::settings::CannonMode;

fn params(max_tnt: u32, max_vertical: Option<u32>, has_vertical: bool, mode: CannonMode)
    -> SearchParams {
    SearchParams {
        max_tnt,
        max_vertical_tnt: max_vertical,
        search_radius: 5,
        has_vertical,
        cannon_mode: mode,
    }
}

#[test]
fn expansion_covers_the_nonnegative_neighborhood() {
    let groups = vec![((0i32, 0i32, 0i32), vec![5u32])];
    let p = params(0, None, false, CannonMode::Standard);
    let cands = generate_candidates(groups, &p);
    // Offsets -5..=5 on each side, negative counts rejected: 6 x 6 remain.
    assert_eq!(cands.len(), 36);
    assert!(cands.iter().all(|c| c.1 == vec![5u32]));
    assert!(cands.iter().any(|c| c.0 == (5, 5, 0)));
    assert!(cands.iter().all(|c| c.0.2 == 0));
}

#[test]
fn per_side_cap_rejects_large_candidates() {
    let groups = vec![((0i32, 0i32, 0i32), vec![1u32])];
    let p = params(3, None, false, CannonMode::Standard);
    let cands = generate_candidates(groups, &p);
    // Only counts 0..=3 on each side survive the cap.
    assert_eq!(cands.len(), 16);
}

#[test]
fn accumulation_mode_disables_the_per_side_cap() {
    let groups = vec![((0i32, 0i32, 0i32), vec![1u32])];
    let p = params(3, None, false, CannonMode::Accumulation);
    let cands = generate_candidates(groups, &p);
    assert_eq!(cands.len(), 36);
}

#[test]
fn vertical_source_adds_its_own_offsets_and_cap() {
    let groups = vec![((0i32, 0i32, 1i32), vec![2u32])];
    let p = params(0, Some(1), true, CannonMode::Standard);
    let cands = generate_candidates(groups, &p);
    // Vertical offsets -1..=1 around center 1, capped at 1: counts 0 and 1.
    assert!(cands.iter().all(|c| c.0.2 <= 1));
    assert_eq!(cands.len(), 36 * 2);
}

#[test]
fn ticks_merge_across_centers_mapping_to_the_same_candidate() {
    let groups = vec![((0i32, 0i32, 0i32), vec![7u32]), ((1i32, 1i32, 0i32), vec![9u32])];
    let p = params(0, None, false, CannonMode::Standard);
    let cands = generate_candidates(groups, &p);
    let shared = cands.iter().find(|c| c.0 == (1, 1, 0)).unwrap();
    assert_eq!(shared.1, vec![7u32, 9u32]);
}

#[test]
fn negative_centers_still_reach_their_nonnegative_neighbors() {
    let groups = vec![((-4i32, -4i32, 0i32), vec![3u32])];
    let p = params(0, None, false, CannonMode::Standard);
    let cands = generate_candidates(groups, &p);
    // Only offsets raising both counts to zero or one survive.
    assert_eq!(cands.len(), 4);
    assert!(cands.iter().any(|c| c.0 == (0, 0, 0)));
    assert!(cands.iter().any(|c| c.0 == (1, 1, 0)));
}
