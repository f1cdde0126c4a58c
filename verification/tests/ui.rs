use layout_manager::command::{
    AppCommand, Command, Direction2D, FocusCommand, MouseButton, MouseEventKind, TerminalMouseEvent, UiAction,
};
use layout_manager::component::content::{ContentComponentEvent, ContentMode};
use layout_manager::component::demo::DemoComponent;
use layout_manager::event::{Event, MoveEvent, Submit};
use layout_manager::geometry::Rect;
use layout_manager::input::{KeyCode, KeyEvent, KeyEventKind, KeyModifiers};
use layout_manager::layout::ComponentId;
use layout_manager::ui::{RenderJob, Ui};

fn demo() -> (Ui<DemoComponent>, ComponentId, ComponentId) {
    let ui = Ui::default_ui().ok().expect("demo builds");
    let sid = ui.focus().current().expect("initial focus");
    let mut ui = ui;
    let jobs = ui.render(Rect::new(0, 0, 100, 30));
    let cid = jobs[1].component;
    (ui, sid, cid)
}

fn key(code: KeyCode) -> KeyEvent {
    KeyEvent { code, modifiers: KeyModifiers::none(), kind: KeyEventKind::Press }
}

fn mouse(kind: MouseEventKind, column: u16, row: u16) -> TerminalMouseEvent {
    TerminalMouseEvent { kind, column, row, modifiers: KeyModifiers::none() }
}

fn sidebar_selection(ui: &Ui<DemoComponent>, sid: &ComponentId) -> Option<usize> {
    match ui.component(sid) {
        Some(DemoComponent::Sidebar(s)) => s.state().selected(),
        _ => panic!("not a sidebar"),
    }
}

fn selected_mode(actions: &[UiAction]) -> ContentMode {
    match actions {
        [UiAction::Response(Event::Content(ContentComponentEvent::ContentMode(m)))] => *m,
        other => panic!("unexpected actions {:?}", other),
    }
}

#[test]
fn demo_renders_two_panes() {
    let mut ui = Ui::default_ui().ok().expect("demo builds");
    let sid = ui.focus().current().unwrap();
    let jobs = ui.render(Rect::new(0, 0, 100, 30));
    assert_eq!(jobs.len(), 2);
    assert_eq!(jobs[0], RenderJob { component: sid, focus: sid, rect: Rect::new(0, 0, 28, 30), focused: true });
    let cid = jobs[1].component;
    assert_ne!(cid, sid);
    assert_eq!(jobs[1], RenderJob { component: cid, focus: cid, rect: Rect::new(28, 0, 72, 30), focused: false });
    assert_eq!(ui.focus().focused_component(), Some(sid));
}

#[test]
fn tab_cycles_focus_between_panes() {
    let (mut ui, sid, cid) = demo();
    assert!(ui.handle_key_event(KeyEvent { code: KeyCode::Tab, modifiers: KeyModifiers::none(), kind: KeyEventKind::Press }).is_empty());
    assert_eq!(ui.focus().current(), Some(cid));
    let jobs = ui.render(Rect::new(0, 0, 100, 30));
    assert!(!jobs[0].focused && jobs[1].focused);
    ui.handle_key_event(key(KeyCode::Tab));
    assert_eq!(ui.focus().current(), Some(sid));
    ui.handle_key_event(KeyEvent { code: KeyCode::BackTab, modifiers: KeyModifiers::shift(), kind: KeyEventKind::Press });
    assert_eq!(ui.focus().current(), Some(cid));
}

#[test]
fn alt_arrows_move_focus_geometrically() {
    let (mut ui, sid, cid) = demo();
    ui.handle_key_event(KeyEvent { code: KeyCode::Right, modifiers: KeyModifiers::alt(), kind: KeyEventKind::Press });
    assert_eq!(ui.focus().current(), Some(cid));
    ui.handle_key_event(KeyEvent { code: KeyCode::Right, modifiers: KeyModifiers::alt(), kind: KeyEventKind::Press });
    assert_eq!(ui.focus().current(), Some(cid));
    ui.handle_key_event(KeyEvent { code: KeyCode::Left, modifiers: KeyModifiers::alt(), kind: KeyEventKind::Press });
    assert_eq!(ui.focus().current(), Some(sid));
}

#[test]
fn quit_key_bubbles_up() {
    let (mut ui, _, _) = demo();
    let actions = ui.handle_key_event(key(KeyCode::Char('q')));
    assert!(matches!(actions.as_slice(), [UiAction::App(AppCommand::Quit)]));
    assert!(ui.handle_key_event(key(KeyCode::Char('x'))).is_empty());
}

#[test]
fn sidebar_keys_select_and_submit() {
    let (mut ui, sid, _) = demo();
    assert!(ui.handle_key_event(key(KeyCode::Down)).is_empty());
    assert_eq!(sidebar_selection(&ui, &sid), Some(1));
    let actions = ui.handle_key_event(key(KeyCode::Enter));
    assert_eq!(selected_mode(&actions), ContentMode::Help);
}

#[test]
fn click_focuses_and_selects() {
    let (mut ui, sid, cid) = demo();
    // A click in the content pane moves focus there; the pane ignores clicks.
    assert!(ui.handle_mouse_event(mouse(MouseEventKind::Down(MouseButton::Left), 40, 5)).is_empty());
    assert_eq!(ui.focus().current(), Some(cid));
    // A click on the sidebar's third row selects its second item.
    let actions = ui.handle_mouse_event(mouse(MouseEventKind::Down(MouseButton::Left), 3, 2));
    assert_eq!(ui.focus().current(), Some(sid));
    assert_eq!(selected_mode(&actions), ContentMode::Help);
    assert_eq!(sidebar_selection(&ui, &sid), Some(1));
    // Moving the pointer does not move focus.
    ui.handle_mouse_event(mouse(MouseEventKind::Moved, 40, 5));
    assert_eq!(ui.focus().current(), Some(sid));
}

#[test]
fn scrolling_goes_to_the_hovered_component() {
    let (mut ui, sid, cid) = demo();
    // The pointer is over the content pane: it receives the scroll, while
    // the sidebar keeps focus and its selection.
    let actions = ui.handle_mouse_event(mouse(MouseEventKind::ScrollDown, 50, 10));
    assert!(matches!(actions.as_slice(), [UiAction::App(AppCommand::FetchLogs { origin, .. })] if *origin == cid));
    assert_eq!(sidebar_selection(&ui, &sid), Some(0));
    assert_eq!(ui.focus().current(), Some(sid));
    // With focus on the content pane, a scroll over the sidebar moves it.
    ui.handle_key_event(key(KeyCode::Tab));
    assert_eq!(ui.focus().current(), Some(cid));
    assert!(ui.handle_mouse_event(mouse(MouseEventKind::ScrollDown, 5, 5)).is_empty());
    assert_eq!(sidebar_selection(&ui, &sid), Some(1));
    assert_eq!(ui.focus().current(), Some(cid));
}

#[test]
fn pointer_before_first_frame_is_unbound() {
    let mut ui = Ui::default_ui().ok().expect("demo builds");
    assert!(ui.handle_mouse_event(mouse(MouseEventKind::Down(MouseButton::Left), 3, 2)).is_empty());
}

#[test]
fn broadcast_commands_collect_actions_in_order() {
    let (mut ui, _, cid) = demo();
    let actions = ui.dispatch(Command::BroadCast(Event::Submit(Submit)));
    assert_eq!(actions.len(), 1);
    assert!(matches!(&actions[0], UiAction::Response(Event::Content(ContentComponentEvent::ContentMode(ContentMode::Counter)))));
    assert!(ui.dispatch(Command::BroadCast(Event::Tick(layout_manager::event::Tick))).is_empty());
    let actions = ui.dispatch(Command::BroadCastTillConsumed(Event::Move(MoveEvent(Direction2D::Right))));
    assert!(matches!(actions.as_slice(), [UiAction::App(AppCommand::FetchLogs { origin, .. })] if *origin == cid));
    assert!(matches!(ui.dispatch(Command::App(AppCommand::Quit)).as_slice(), [UiAction::App(AppCommand::Quit)]));
    assert!(ui.dispatch(Command::Focus(FocusCommand::Next)).is_empty());
    assert_eq!(ui.focus().current(), Some(cid));
}

#[test]
fn event_for_a_component_reaches_it() {
    let (mut ui, _, cid) = demo();
    let actions = ui.dispatch_event_for_component(cid, Event::Content(ContentComponentEvent::NewLogs(vec!["l".to_string()])));
    assert!(matches!(actions.as_slice(), [UiAction::App(AppCommand::FetchLogs { .. })]));
    match ui.component(&cid) {
        Some(DemoComponent::Content(c)) => assert_eq!(c.current_logs(), Some(&vec!["l".to_string()])),
        _ => unreachable!(),
    }
    assert!(ui.dispatch_event_for_component(ComponentId(1), Event::Submit(Submit)).is_empty());
    // Focused-component dispatch goes to the sidebar.
    assert!(matches!(ui.dispatch_to_focused_component(Event::Submit(Submit)).as_slice(), [UiAction::Response(_)]));
}
