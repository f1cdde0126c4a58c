use layout_manager::geometry::Rect;
use layout_manager::layout::{ComponentId, Constraint, Direction, LayoutSpec};

#[test]
fn leaf_uses_one_id_for_component_and_focus() {
    let mut leaves = Vec::new();
    LayoutSpec::leaf(ComponentId(7)).collect_leaves(&mut leaves);
    assert_eq!(leaves, vec![(ComponentId(7), ComponentId(7))]);
    let mut leaves = Vec::new();
    LayoutSpec::focused_leaf(ComponentId(7), ComponentId(8)).collect_leaves(&mut leaves);
    assert_eq!(leaves, vec![(ComponentId(7), ComponentId(8))]);
}

fn nested() -> LayoutSpec {
    LayoutSpec::split(
        Direction::Horizontal,
        vec![
            (Constraint::Length(10), LayoutSpec::leaf(ComponentId(1))),
            (
                Constraint::Min(0),
                LayoutSpec::split(
                    Direction::Vertical,
                    vec![
                        (Constraint::Length(3), LayoutSpec::focused_leaf(ComponentId(2), ComponentId(20))),
                        (Constraint::Min(0), LayoutSpec::focused_leaf(ComponentId(2), ComponentId(21))),
                    ],
                ),
            ),
        ],
    )
}

#[test]
fn leaves_are_collected_depth_first() {
    let mut leaves = vec![(ComponentId(0), ComponentId(0))];
    nested().collect_leaves(&mut leaves);
    assert_eq!(
        leaves,
        vec![
            (ComponentId(0), ComponentId(0)),
            (ComponentId(1), ComponentId(1)),
            (ComponentId(2), ComponentId(20)),
            (ComponentId(2), ComponentId(21)),
        ]
    );
}

#[test]
fn compute_splits_nested_tree() {
    let regions = nested().compute(Rect::new(0, 0, 40, 10));
    let ids: Vec<(u128, u128)> = regions.iter().map(|r| (r.component.0, r.focus.0)).collect();
    assert_eq!(ids, vec![(1, 1), (2, 20), (2, 21)]);
    assert_eq!(regions[0].rect, Rect::new(0, 0, 10, 10));
    assert_eq!(regions[1].rect, Rect::new(10, 0, 30, 3));
    assert_eq!(regions[2].rect, Rect::new(10, 3, 30, 7));
}

#[test]
fn compute_demo_two_pane_split() {
    let layout = LayoutSpec::split(
        Direction::Horizontal,
        vec![
            (Constraint::Length(28), LayoutSpec::leaf(ComponentId(1))),
            (Constraint::Min(20), LayoutSpec::leaf(ComponentId(2))),
        ],
    );
    let regions = layout.compute(Rect::new(0, 0, 100, 30));
    assert_eq!(regions.len(), 2);
    assert_eq!(regions[0].rect, Rect::new(0, 0, 28, 30));
    assert_eq!(regions[1].rect, Rect::new(28, 0, 72, 30));
}

#[test]
fn compute_matches_layout_solver_examples() {
    let layout = LayoutSpec::split(
        Direction::Vertical,
        vec![
            (Constraint::Length(5), LayoutSpec::leaf(ComponentId(1))),
            (Constraint::Min(0), LayoutSpec::leaf(ComponentId(2))),
        ],
    );
    let regions = layout.compute(Rect::new(2, 2, 10, 10));
    assert_eq!(regions[0].rect, Rect::new(2, 2, 10, 5));
    assert_eq!(regions[1].rect, Rect::new(2, 7, 10, 5));
    let ratio = LayoutSpec::split(
        Direction::Horizontal,
        vec![
            (Constraint::Ratio(1, 3), LayoutSpec::leaf(ComponentId(1))),
            (Constraint::Ratio(2, 3), LayoutSpec::leaf(ComponentId(2))),
        ],
    );
    let regions = ratio.compute(Rect::new(0, 0, 9, 2));
    assert_eq!(regions[0].rect, Rect::new(0, 0, 3, 2));
    assert_eq!(regions[1].rect, Rect::new(3, 0, 6, 2));
}

#[test]
fn empty_split_has_no_regions() {
    let layout = LayoutSpec::split(Direction::Vertical, Vec::new());
    assert!(layout.compute(Rect::new(0, 0, 10, 10)).is_empty());
    let mut leaves = Vec::new();
    layout.collect_leaves(&mut leaves);
    assert!(leaves.is_empty());
}

#[test]
fn children_are_laid_out_in_their_own_areas() {
    let children = vec![
        (Constraint::Length(3), LayoutSpec::leaf(ComponentId(1))),
        (
            Constraint::Min(0),
            LayoutSpec::split(
                Direction::Horizontal,
                vec![
                    (Constraint::Length(4), LayoutSpec::leaf(ComponentId(2))),
                    (Constraint::Min(0), LayoutSpec::leaf(ComponentId(3))),
                ],
            ),
        ),
    ];
    let chunks = vec![Rect::new(0, 0, 10, 3), Rect::new(0, 3, 10, 7)];
    let mut out = Vec::new();
    LayoutSpec::lay_out_children(&children, &chunks, &mut out);
    let ids: Vec<u128> = out.iter().map(|r| r.component.0).collect();
    assert_eq!(ids, vec![1, 2, 3]);
    assert_eq!(out[0].rect, Rect::new(0, 0, 10, 3));
    assert_eq!(out[1].rect, Rect::new(0, 3, 4, 7));
    assert_eq!(out[2].rect, Rect::new(4, 3, 6, 7));
}

#[test]
fn regions_stay_inside_the_area() {
    let layout = LayoutSpec::split(
        Direction::Vertical,
        vec![
            (Constraint::Length(50), LayoutSpec::leaf(ComponentId(1))),
            (Constraint::Percentage(70), LayoutSpec::leaf(ComponentId(2))),
            (Constraint::Fill(1), LayoutSpec::leaf(ComponentId(3))),
        ],
    );
    let area = Rect::new(5, 5, 20, 12);
    for r in layout.compute(area) {
        assert!(r.rect.x == area.x && r.rect.width == area.width);
        assert!(area.y <= r.rect.y && r.rect.y + r.rect.height <= area.y + area.height);
    }
}
