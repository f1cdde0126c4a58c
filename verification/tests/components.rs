use layout_manager::command::{AppCommand, Direction2D, PointerButton, PointerEvent, PointerGesture, UiAction};
use layout_manager::component::content::{ContentComponentEvent, ContentMode};
use layout_manager::component::{Component, ContentComponent, EventOutcome, RenderContext, SidebarComponent};
use layout_manager::event::{Event, MouseEvent, MoveEvent, Submit, Tick};
use layout_manager::geometry::Rect;
use layout_manager::layout::ComponentId;
use layout_manager::widget::ListRow;

fn click_at_row(local_y: u16) -> Event {
    Event::Mouse(MouseEvent(PointerEvent {
        gesture: PointerGesture::Down(PointerButton::Left),
        x: 3,
        y: local_y,
        local_x: Some(3),
        local_y: Some(local_y),
    }))
}

fn scroll(gesture: PointerGesture) -> Event {
    Event::Mouse(MouseEvent(PointerEvent { gesture, x: 0, y: 0, local_x: Some(0), local_y: Some(0) }))
}

fn selected_mode(outcome: EventOutcome) -> Option<ContentMode> {
    match outcome {
        EventOutcome::Consumed(actions) => match actions.as_slice() {
            [UiAction::Response(Event::Content(ContentComponentEvent::ContentMode(m)))] => Some(*m),
            _ => panic!("unexpected actions {:?}", actions),
        },
        EventOutcome::Ignored => None,
    }
}

#[test]
fn content_modes_in_menu_order() {
    assert_eq!(ContentMode::all(), &[ContentMode::Counter, ContentMode::Help, ContentMode::Logs]);
    let names: Vec<&str> = ContentMode::all().iter().map(|m| m.as_str()).collect();
    assert_eq!(names, vec!["Counter", "Help", "Logs"]);
}

#[test]
fn component_kinds() {
    assert_eq!(SidebarComponent::kind(), "sidebar");
    assert_eq!(ContentComponent::kind(), "content");
    assert_eq!(SidebarComponent::new().get_kind(), "sidebar");
    assert_eq!(ContentComponent::new().get_kind(), "content");
}

#[test]
fn new_components_get_distinct_ids() {
    let a = SidebarComponent::new();
    let b = SidebarComponent::new();
    let c = ContentComponent::new();
    assert_ne!(a.id(), b.id());
    assert_ne!(a.id(), c.id());
}

#[test]
fn sidebar_starts_on_first_item() {
    let s = SidebarComponent::new();
    assert_eq!(s.items(), &vec![ContentMode::Counter, ContentMode::Help, ContentMode::Logs]);
    assert_eq!(s.state().selected(), Some(0));
}

#[test]
fn sidebar_moves_and_clamps() {
    let mut s = SidebarComponent::new();
    // A handled move is consumed without asking anything of the application.
    assert!(matches!(s.on(Event::Move(MoveEvent(Direction2D::Up))), EventOutcome::Consumed(a) if a.is_empty()));
    assert_eq!(s.state().selected(), Some(0));
    s.on(Event::Move(MoveEvent(Direction2D::Down)));
    s.on(Event::Move(MoveEvent(Direction2D::Down)));
    s.on(Event::Move(MoveEvent(Direction2D::Down)));
    assert_eq!(s.state().selected(), Some(2));
    assert!(matches!(s.on(scroll(PointerGesture::ScrollUp)), EventOutcome::Consumed(a) if a.is_empty()));
    assert_eq!(s.state().selected(), Some(1));
    s.on(scroll(PointerGesture::ScrollDown));
    assert_eq!(s.state().selected(), Some(2));
    assert!(matches!(s.on(Event::Move(MoveEvent(Direction2D::Left))), EventOutcome::Ignored));
    assert!(matches!(s.on(Event::Tick(Tick)), EventOutcome::Ignored));
    assert_eq!(s.state().selected(), Some(2));
}

#[test]
fn sidebar_submit_selects_mode() {
    let mut s = SidebarComponent::new();
    s.on(Event::Move(MoveEvent(Direction2D::Down)));
    assert_eq!(selected_mode(s.on(Event::Submit(Submit))), Some(ContentMode::Help));
}

#[test]
fn sidebar_click_selects_row_below_border() {
    let mut s = SidebarComponent::new();
    assert_eq!(selected_mode(s.on(click_at_row(3))), Some(ContentMode::Logs));
    assert_eq!(s.state().selected(), Some(2));
    // The first item is in the row below the border.
    assert_eq!(selected_mode(s.on(click_at_row(1))), Some(ContentMode::Counter));
    assert_eq!(s.state().selected(), Some(0));
    s.on(Event::Move(MoveEvent(Direction2D::Down)));
    // A click on the border row hits no item and changes nothing.
    assert_eq!(selected_mode(s.on(click_at_row(0))), None);
    assert_eq!(s.state().selected(), Some(1));
    // Below the last item nothing happens.
    assert_eq!(selected_mode(s.on(click_at_row(4))), None);
    assert_eq!(s.state().selected(), Some(1));
    // A click without local coordinates misses.
    let outside = Event::Mouse(MouseEvent(PointerEvent {
        gesture: PointerGesture::Down(PointerButton::Left),
        x: 90,
        y: 1,
        local_x: None,
        local_y: None,
    }));
    assert_eq!(selected_mode(s.on(outside)), None);
}

fn fetch_logs_of(outcome: EventOutcome) -> (ComponentId, usize) {
    match outcome {
        EventOutcome::Consumed(actions) => match actions.as_slice() {
            [UiAction::App(AppCommand::FetchLogs { origin, amount })] => (*origin, *amount),
            _ => panic!("unexpected actions {:?}", actions),
        },
        EventOutcome::Ignored => panic!("event ignored"),
    }
}

#[test]
fn content_starts_in_log_mode() {
    let c = ContentComponent::new();
    assert_eq!(c.mode(), ContentMode::Logs);
    assert_eq!(c.counter(), 0);
    assert_eq!(c.last_click(), None);
    assert!(c.current_logs().is_none());
    assert!(c.log_rows().is_empty());
}

#[test]
fn content_counter_moves_and_asks_for_logs() {
    let mut c = ContentComponent::new();
    let id = c.id();
    assert_eq!(
        fetch_logs_of(c.on(Event::Content(ContentComponentEvent::ContentMode(ContentMode::Counter)))),
        (id, 400)
    );
    assert_eq!(c.mode(), ContentMode::Counter);
    assert_eq!(fetch_logs_of(c.on(Event::Move(MoveEvent(Direction2D::Right)))), (id, 400));
    c.on(Event::Move(MoveEvent(Direction2D::Up)));
    assert_eq!(c.counter(), 2);
    c.on(Event::Move(MoveEvent(Direction2D::Left)));
    assert_eq!(c.counter(), 1);
    // Scrolling does what the arrow keys do: up raises, down lowers.
    c.on(scroll(PointerGesture::ScrollUp));
    c.on(scroll(PointerGesture::ScrollUp));
    assert_eq!(c.counter(), 3);
    assert_eq!(fetch_logs_of(c.on(scroll(PointerGesture::ScrollDown))), (id, 400));
    assert_eq!(c.counter(), 2);
    // Clicks are not handled by the content pane.
    assert!(matches!(c.on(click_at_row(2)), EventOutcome::Ignored));
    assert_eq!(c.counter(), 2);
    // A tick is not handled by the content pane.
    assert!(matches!(c.on(Event::Tick(Tick)), EventOutcome::Ignored));
    assert_eq!(c.counter(), 2);
    // An event the pane does not understand is ignored.
    assert!(matches!(c.on(Event::Submit(Submit)), EventOutcome::Ignored));
    assert_eq!(c.counter(), 2);
    assert_eq!(c.mode(), ContentMode::Counter);
}

#[test]
fn content_help_mode_ignores_movement() {
    let mut c = ContentComponent::new();
    c.on(Event::Content(ContentComponentEvent::ContentMode(ContentMode::Help)));
    c.on(Event::Move(MoveEvent(Direction2D::Up)));
    assert_eq!(c.counter(), 0);
    assert_eq!(c.mode(), ContentMode::Help);
}

#[test]
fn content_lays_out_received_logs() {
    let mut c = ContentComponent::new();
    let ctx = RenderContext { focused: true, focus_id: c.id() };
    c.prepare_render(Rect::new(0, 0, 20, 5), ctx);
    assert!(c.log_rows().is_empty());
    let lines: Vec<String> = (0..5).map(|i| format!("line {}", i)).collect();
    c.on(Event::Content(ContentComponentEvent::NewLogs(lines.clone())));
    assert_eq!(c.current_logs(), Some(&lines));
    c.prepare_render(Rect::new(0, 0, 20, 5), ctx);
    // Nothing is selected yet; three rows fit inside the border.
    assert_eq!(
        c.log_rows(),
        &vec![
            ListRow { index: 0, area: Rect::new(1, 1, 18, 1), highlighted: false },
            ListRow { index: 1, area: Rect::new(1, 2, 18, 1), highlighted: false },
            ListRow { index: 2, area: Rect::new(1, 3, 18, 1), highlighted: false },
        ]
    );
    c.on(Event::Move(MoveEvent(Direction2D::Up)));
    c.on(Event::Move(MoveEvent(Direction2D::Up)));
    c.on(Event::Move(MoveEvent(Direction2D::Up)));
    c.on(Event::Move(MoveEvent(Direction2D::Up)));
    c.prepare_render(Rect::new(0, 0, 20, 5), ctx);
    // Selection 3 is below the visible rows: the list scrolls by one.
    assert_eq!(
        c.log_rows(),
        &vec![
            ListRow { index: 1, area: Rect::new(1, 1, 18, 1), highlighted: false },
            ListRow { index: 2, area: Rect::new(1, 2, 18, 1), highlighted: false },
            ListRow { index: 3, area: Rect::new(1, 3, 18, 1), highlighted: true },
        ]
    );
    // An area with no room inside the border shows no rows.
    c.prepare_render(Rect::new(3, 4, 1, 1), ctx);
    assert!(c.log_rows().is_empty());
    c.prepare_render(Rect::new(3, 4, 12, 3), ctx);
    assert_eq!(c.log_rows().len(), 1);
    assert_eq!(c.log_rows()[0].area, Rect::new(4, 5, 10, 1));
    // Outside log mode nothing is laid out.
    c.on(Event::Content(ContentComponentEvent::ContentMode(ContentMode::Counter)));
    c.prepare_render(Rect::new(0, 0, 20, 5), ctx);
    assert!(c.log_rows().is_empty());
}

#[test]
fn pane_titles_follow_the_mode() {
    assert_eq!(ContentMode::Counter.view_title(), "Counter View");
    assert_eq!(ContentMode::Help.view_title(), "Help View");
    assert_eq!(ContentMode::Logs.view_title(), "Log view");
}

#[test]
fn sidebar_keeps_its_selection_in_view() {
    let mut s = SidebarComponent::new();
    let ctx = RenderContext { focused: true, focus_id: s.id() };
    s.on(Event::Move(MoveEvent(Direction2D::Down)));
    s.on(Event::Move(MoveEvent(Direction2D::Down)));
    // One row fits inside the border: the list scrolls to the selection.
    s.prepare_render(Rect::new(0, 0, 10, 3), ctx);
    assert_eq!(s.state().offset(), 2);
    s.on(Event::Move(MoveEvent(Direction2D::Up)));
    s.prepare_render(Rect::new(0, 0, 10, 3), ctx);
    assert_eq!(s.state().offset(), 1);
    // With room for every item the offset goes back to the top.
    s.prepare_render(Rect::new(0, 0, 10, 10), ctx);
    assert_eq!(s.state().offset(), 0);
}
