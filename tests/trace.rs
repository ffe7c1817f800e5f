use raytrace::trace::{nearest, path_step, PathStep, DEPTH_LIMIT};

#[test]
fn nearest_of_no_objects() {
    assert_eq!(nearest(&vec![]), None);
}

#[test]
fn nearest_when_all_miss() {
    assert_eq!(nearest(&vec![None, None, None]), None);
}

#[test]
fn nearest_picks_smallest_key() {
    assert_eq!(nearest(&vec![Some(7), None, Some(3), Some(5)]), Some(2));
    assert_eq!(nearest(&vec![None, Some(u32::MAX)]), Some(1));
}

#[test]
fn nearest_prefers_first_of_equal_keys() {
    assert_eq!(nearest(&vec![Some(9), Some(4), None, Some(4)]), Some(1));
}

#[test]
fn nearest_orders_distances_by_bits() {
    let keys: Vec<Option<u32>> = [4.0f32, 0.5, 100.0, 0.0001].iter().map(|t| Some(t.to_bits())).collect();
    assert_eq!(nearest(&keys), Some(3));
}

#[test]
fn empty_scene_shows_background() {
    assert_eq!(path_step(0, &vec![]), PathStep::Escaped);
    assert_eq!(path_step(DEPTH_LIMIT - 1, &vec![]), PathStep::Escaped);
}

#[test]
fn depth_ceiling_absorbs() {
    assert_eq!(DEPTH_LIMIT, 100);
    assert_eq!(path_step(100, &vec![Some(1)]), PathStep::Absorbed);
    assert_eq!(path_step(100, &vec![]), PathStep::Absorbed);
    assert_eq!(path_step(usize::MAX, &vec![None]), PathStep::Absorbed);
}

#[test]
fn hit_scatters_one_level_deeper() {
    assert_eq!(
        path_step(0, &vec![None, Some(8), Some(2)]),
        PathStep::Scattered { object: 2, depth: 1 }
    );
    assert_eq!(path_step(99, &vec![Some(0)]), PathStep::Scattered { object: 0, depth: 100 });
}
