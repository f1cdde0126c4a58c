use layout_manager::geometry::Rect;
use layout_manager::widget::WidgetListState;

#[test]
fn doc_example_select_first_then_next() {
    let mut state = WidgetListState::new();
    state.select_first(3);
    state.select_next(3);
    assert_eq!(state.selected(), Some(1));
}

#[test]
fn select_next_clamps_and_clears() {
    let mut state = WidgetListState::new();
    state.select_next(3);
    assert_eq!(state.selected(), Some(0));
    state.select(Some(2));
    state.select_next(3);
    assert_eq!(state.selected(), Some(2));
    state.select_next(0);
    assert_eq!(state.selected(), None);
    state.select(Some(usize::MAX));
    state.select_next(5);
    assert_eq!(state.selected(), Some(4));
}

#[test]
fn select_previous_clamps_at_first() {
    let mut state = WidgetListState::new();
    state.select_previous(3);
    assert_eq!(state.selected(), Some(0));
    state.select_previous(3);
    assert_eq!(state.selected(), Some(0));
    state.select(Some(2));
    state.select_previous(3);
    assert_eq!(state.selected(), Some(1));
    state.select_previous(0);
    assert_eq!(state.selected(), None);
}

#[test]
fn select_first_and_last() {
    let mut state = WidgetListState::new();
    state.select_last(4);
    assert_eq!(state.selected(), Some(3));
    state.select_first(4);
    assert_eq!(state.selected(), Some(0));
    state.select_last(0);
    assert_eq!(state.selected(), None);
    state.select_first(0);
    assert_eq!(state.selected(), None);
}

#[test]
fn scroll_by_amounts_clamp() {
    let mut state = WidgetListState::new().with_selected(Some(2));
    state.scroll_down_by(5, 10);
    assert_eq!(state.selected(), Some(7));
    state.scroll_down_by(usize::MAX, 10);
    assert_eq!(state.selected(), Some(9));
    state.scroll_up_by(4);
    assert_eq!(state.selected(), Some(5));
    state.scroll_up_by(100);
    assert_eq!(state.selected(), Some(0));
    let mut empty = WidgetListState::new();
    empty.scroll_up_by(3);
    assert_eq!(empty.selected(), Some(0));
    empty.scroll_down_by(3, 0);
    assert_eq!(empty.selected(), None);
}

#[test]
fn select_none_resets_offset() {
    let mut state = WidgetListState::new().with_offset(4).with_selected(Some(6));
    assert_eq!(state.offset(), 4);
    state.select(Some(1));
    assert_eq!(state.offset(), 4);
    state.select(None);
    assert_eq!(state.offset(), 0);
    assert_eq!(state.selected(), None);
    *state.offset_mut() = 9;
    assert_eq!(state.offset(), 9);
}

#[test]
fn layout_scrolls_selection_into_view() {
    let mut state = WidgetListState::new().with_selected(Some(7));
    let area = Rect::new(2, 3, 20, 5);
    let rows = state.layout_rows(10, 1, area);
    assert_eq!(state.offset(), 3);
    assert_eq!(rows.len(), 5);
    let indices: Vec<usize> = rows.iter().map(|r| r.index).collect();
    assert_eq!(indices, vec![3, 4, 5, 6, 7]);
    assert_eq!(rows[0].area, Rect::new(2, 3, 20, 1));
    assert_eq!(rows[4].area, Rect::new(2, 7, 20, 1));
    let highlighted: Vec<bool> = rows.iter().map(|r| r.highlighted).collect();
    assert_eq!(highlighted, vec![false, false, false, false, true]);
}

#[test]
fn layout_scrolls_up_to_selection() {
    let mut state = WidgetListState::new().with_offset(6).with_selected(Some(2));
    let rows = state.layout_rows(10, 2, Rect::new(0, 0, 10, 7));
    assert_eq!(state.offset(), 2);
    assert_eq!(rows.len(), 3);
    assert_eq!(rows[1].index, 3);
    assert_eq!(rows[1].area, Rect::new(0, 2, 10, 2));
}

#[test]
fn layout_clamps_offset_to_last_screenful() {
    let mut state = WidgetListState::new().with_offset(50);
    let rows = state.layout_rows(8, 1, Rect::new(0, 0, 10, 5));
    assert_eq!(state.offset(), 3);
    assert_eq!(rows.len(), 5);
    let mut short = WidgetListState::new().with_offset(5);
    let rows = short.layout_rows(2, 1, Rect::new(0, 0, 10, 5));
    assert_eq!(short.offset(), 0);
    assert_eq!(rows.len(), 2);
}

#[test]
fn layout_without_room_draws_nothing() {
    let mut state = WidgetListState::new().with_offset(4).with_selected(Some(1));
    assert!(state.layout_rows(10, 0, Rect::new(0, 0, 10, 5)).is_empty());
    assert!(state.layout_rows(10, 3, Rect::new(0, 0, 10, 2)).is_empty());
    assert_eq!(state.offset(), 4);
}
