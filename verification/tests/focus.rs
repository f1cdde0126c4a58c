use layout_manager::command::Direction2D;
use layout_manager::focus::{axis_overlaps, is_in_direction, navigation_score, FocusManager, FocusRegion};
use layout_manager::geometry::{bottom, center_x, contains, right, Rect};
use layout_manager::layout::ComponentId;

fn region(id: u128, x: u16, y: u16, w: u16, h: u16) -> FocusRegion {
    FocusRegion { focus: ComponentId(id), component: ComponentId(id + 100), rect: Rect::new(x, y, w, h) }
}

/// A 2x2 grid: 1 top-left, 2 top-right, 3 bottom-left, 4 bottom-right.
fn grid() -> Vec<FocusRegion> {
    vec![region(1, 0, 0, 10, 5), region(2, 10, 0, 10, 5), region(3, 0, 5, 10, 5), region(4, 10, 5, 10, 5)]
}

#[test]
fn new_manager_keeps_initial_until_regions_arrive() {
    let mut focus = FocusManager::new(ComponentId(3));
    assert_eq!(focus.current(), Some(ComponentId(3)));
    assert_eq!(focus.focused_component(), None);
    focus.set_regions(grid());
    assert_eq!(focus.current(), Some(ComponentId(3)));
    assert_eq!(focus.focused_component(), Some(ComponentId(103)));
}

#[test]
fn missing_focus_resets_to_first_region() {
    let mut focus = FocusManager::new(ComponentId(9));
    focus.set_regions(grid());
    assert_eq!(focus.current(), Some(ComponentId(1)));
    focus.set_regions(Vec::new());
    assert_eq!(focus.current(), None);
}

#[test]
fn set_current_ignores_unknown_focus() {
    let mut focus = FocusManager::new(ComponentId(1));
    focus.set_regions(grid());
    focus.set_current(ComponentId(42));
    assert_eq!(focus.current(), Some(ComponentId(1)));
    focus.set_current(ComponentId(4));
    assert_eq!(focus.current(), Some(ComponentId(4)));
}

#[test]
fn cycling_wraps_around() {
    let mut focus = FocusManager::new(ComponentId(4));
    focus.set_regions(grid());
    focus.next();
    assert_eq!(focus.current(), Some(ComponentId(1)));
    focus.previous();
    assert_eq!(focus.current(), Some(ComponentId(4)));
    focus.previous();
    assert_eq!(focus.current(), Some(ComponentId(3)));
}

#[test]
fn previous_undoes_next() {
    for start in 1..=4u128 {
        let mut focus = FocusManager::new(ComponentId(start));
        focus.set_regions(grid());
        focus.next();
        focus.previous();
        assert_eq!(focus.current(), Some(ComponentId(start)));
        focus.previous();
        focus.next();
        assert_eq!(focus.current(), Some(ComponentId(start)));
    }
}

#[test]
fn full_turn_visits_every_region() {
    let mut focus = FocusManager::new(ComponentId(2));
    focus.set_regions(grid());
    let mut seen = Vec::new();
    for _ in 0..4 {
        focus.next();
        seen.push(focus.current().unwrap().0);
    }
    assert_eq!(seen, vec![3, 4, 1, 2]);
}

#[test]
fn cycling_without_regions_clears_focus() {
    let mut focus = FocusManager::new(ComponentId(1));
    focus.next();
    assert_eq!(focus.current(), None);
}

#[test]
fn geometric_moves_follow_the_grid() {
    let mut focus = FocusManager::new(ComponentId(1));
    focus.set_regions(grid());
    focus.move_geometric(Direction2D::Right);
    assert_eq!(focus.current(), Some(ComponentId(2)));
    focus.move_geometric(Direction2D::Down);
    assert_eq!(focus.current(), Some(ComponentId(4)));
    focus.move_geometric(Direction2D::Left);
    assert_eq!(focus.current(), Some(ComponentId(3)));
    focus.move_geometric(Direction2D::Up);
    assert_eq!(focus.current(), Some(ComponentId(1)));
    focus.move_geometric(Direction2D::Up);
    assert_eq!(focus.current(), Some(ComponentId(1)));
    focus.move_geometric(Direction2D::Left);
    assert_eq!(focus.current(), Some(ComponentId(1)));
}

#[test]
fn geometric_move_prefers_aligned_region() {
    // From region 1, both 2 (aligned, far) and 3 (diagonal, near) lie to the right.
    let regions = vec![region(1, 0, 0, 10, 4), region(2, 30, 0, 10, 4), region(3, 12, 10, 10, 4)];
    let mut focus = FocusManager::new(ComponentId(1));
    focus.set_regions(regions);
    focus.move_geometric(Direction2D::Right);
    assert_eq!(focus.current(), Some(ComponentId(2)));
}

#[test]
fn geometric_move_ties_go_to_first_region() {
    let regions = vec![region(1, 0, 0, 10, 10), region(2, 10, 0, 10, 10), region(3, 10, 0, 10, 10)];
    let mut focus = FocusManager::new(ComponentId(1));
    focus.set_regions(regions);
    focus.move_geometric(Direction2D::Right);
    assert_eq!(focus.current(), Some(ComponentId(2)));
}

#[test]
fn region_at_hit_tests() {
    let mut focus = FocusManager::new(ComponentId(1));
    focus.set_regions(grid());
    assert_eq!(focus.region_at(12, 6).map(|r| r.focus), Some(ComponentId(4)));
    assert_eq!(focus.region_at(0, 0).map(|r| r.focus), Some(ComponentId(1)));
    assert_eq!(focus.region_at(20, 0).map(|r| r.focus), None);
}

#[test]
fn navigation_score_values() {
    let from = Rect::new(0, 0, 10, 4);
    // aligned, gap 20: 20 * 100 + 0
    assert_eq!(navigation_score(from, Rect::new(30, 0, 10, 4), Direction2D::Right), 2000);
    // diagonal, gap 2, centre rows 2 vs 12: 200 + 10 + 10 000 000
    assert_eq!(navigation_score(from, Rect::new(12, 10, 10, 4), Direction2D::Right), 10_000_210);
    assert_eq!(navigation_score(Rect::new(0, 20, 10, 4), Rect::new(4, 0, 10, 5), Direction2D::Up), 1504);
}

#[test]
fn direction_and_overlap_predicates() {
    let a = Rect::new(0, 0, 10, 4);
    assert!(is_in_direction(a, Rect::new(10, 0, 5, 5), Direction2D::Right));
    assert!(!is_in_direction(a, Rect::new(9, 0, 5, 5), Direction2D::Right));
    assert!(is_in_direction(a, Rect::new(0, 4, 5, 5), Direction2D::Down));
    assert!(axis_overlaps(a, Rect::new(20, 3, 5, 5), Direction2D::Right));
    assert!(!axis_overlaps(a, Rect::new(20, 4, 5, 5), Direction2D::Right));
}

#[test]
fn rect_helpers_saturate() {
    let r = Rect::new(65530, 10, 20, 7);
    assert_eq!(right(r), u16::MAX);
    assert_eq!(bottom(r), 17);
    assert_eq!(center_x(Rect::new(4, 0, 9, 1)), 8);
    assert!(contains(Rect::new(2, 2, 3, 3), 4, 4));
    assert!(!contains(Rect::new(2, 2, 3, 3), 5, 4));
}

#[test]
fn aligned_region_always_beats_diagonal_one() {
    let from = Rect::new(0, 0, 10, 10);
    let aligned_far = Rect::new(0, 120, 10, 10);
    let diagonal_near = Rect::new(20, 10, 10, 10);
    assert!(navigation_score(from, aligned_far, Direction2D::Down) < navigation_score(from, diagonal_near, Direction2D::Down));
    let mut focus = FocusManager::new(ComponentId(1));
    focus.set_regions(vec![
        FocusRegion { focus: ComponentId(1), component: ComponentId(1), rect: from },
        FocusRegion { focus: ComponentId(2), component: ComponentId(2), rect: diagonal_near },
        FocusRegion { focus: ComponentId(3), component: ComponentId(3), rect: aligned_far },
    ]);
    focus.move_geometric(Direction2D::Down);
    assert_eq!(focus.current(), Some(ComponentId(3)));
}
