use layout_manager::app::{App, EventContainer};
use layout_manager::command::{AppCommand, MouseButton, MouseEventKind, TerminalMouseEvent, UiAction};
use layout_manager::component::content::ContentMode;
use layout_manager::component::demo::DemoComponent;
use layout_manager::geometry::Rect;
use layout_manager::input::{KeyCode, KeyEvent, KeyEventKind, KeyModifiers};
use layout_manager::layout::ComponentId;

fn started() -> (App<DemoComponent>, ComponentId, ComponentId) {
    let mut app = App::new().ok().expect("demo builds");
    let jobs = app.render(Rect::new(0, 0, 100, 30));
    let (sid, cid) = (jobs[0].component, jobs[1].component);
    (app, sid, cid)
}

fn key(code: KeyCode, kind: KeyEventKind) -> EventContainer {
    EventContainer::Key(KeyEvent { code, modifiers: KeyModifiers::none(), kind })
}

fn content_mode(app: &App<DemoComponent>, cid: &ComponentId) -> ContentMode {
    match app.ui().component(cid) {
        Some(DemoComponent::Content(c)) => c.mode(),
        _ => panic!("not the content pane"),
    }
}

#[test]
fn new_app_runs() {
    let app = App::new().ok().expect("demo builds");
    assert!(app.running());
}

#[test]
fn quit_stops_the_loop() {
    let (mut app, _, _) = started();
    let step = app.handle_event(EventContainer::Quit);
    assert!(!app.running());
    assert!(step.send.is_empty());
    assert_eq!(step.fetch_logs, None);
}

#[test]
fn quit_key_sends_quit() {
    let (mut app, _, _) = started();
    let step = app.handle_event(key(KeyCode::Esc, KeyEventKind::Press));
    assert!(matches!(step.send.as_slice(), [EventContainer::Quit]));
    assert!(app.running());
    let step = app.handle_event(step.send.into_iter().next().unwrap());
    assert!(step.send.is_empty());
    assert!(!app.running());
}

#[test]
fn key_releases_and_repeats_are_ignored() {
    let (mut app, _, _) = started();
    assert!(app.handle_event(key(KeyCode::Char('q'), KeyEventKind::Release)).send.is_empty());
    assert!(app.handle_event(key(KeyCode::Char('q'), KeyEventKind::Repeat)).send.is_empty());
    assert!(app.handle_event(EventContainer::Other).send.is_empty());
    assert!(app.running());
}

#[test]
fn tick_changes_nothing() {
    let (mut app, _, _) = started();
    let step = app.handle_event(EventContainer::Tick);
    assert!(step.send.is_empty());
    assert_eq!(step.fetch_logs, None);
    assert!(app.running());
}

#[test]
fn handled_key_asks_for_logs() {
    let (mut app, _, cid) = started();
    // Focus the content pane, then move in it.
    app.handle_event(key(KeyCode::Tab, KeyEventKind::Press));
    let step = app.handle_event(key(KeyCode::Up, KeyEventKind::Press));
    match step.send.as_slice() {
        [EventContainer::FetchLogs { origin, amount }] => {
            assert_eq!(*origin, cid);
            assert_eq!(*amount, 400);
        }
        other => panic!("unexpected {:?}", other),
    }
}

#[test]
fn fetch_logs_message_asks_the_loop_to_read() {
    let (mut app, _, cid) = started();
    let step = app.handle_event(EventContainer::FetchLogs { origin: cid, amount: 5 });
    assert!(step.send.is_empty());
    assert_eq!(step.fetch_logs, Some((cid, 5)));
    app.deliver_logs(cid, vec!["b".to_string(), "a".to_string()]);
    match app.ui().component(&cid) {
        Some(DemoComponent::Content(c)) => assert_eq!(c.current_logs(), Some(&vec!["b".to_string(), "a".to_string()])),
        _ => unreachable!(),
    }
}

#[test]
fn sidebar_choice_switches_content_mode() {
    let (mut app, _, cid) = started();
    assert_eq!(content_mode(&app, &cid), ContentMode::Logs);
    // Enter on the first sidebar item: the response is consumed by the
    // content pane, and nothing goes back on the channel.
    let step = app.handle_event(key(KeyCode::Enter, KeyEventKind::Press));
    assert!(step.send.is_empty());
    assert_eq!(content_mode(&app, &cid), ContentMode::Counter);
    // A click on the second item switches to help.
    let click = TerminalMouseEvent {
        kind: MouseEventKind::Down(MouseButton::Left),
        column: 2,
        row: 2,
        modifiers: KeyModifiers::none(),
    };
    let step = app.handle_event(EventContainer::Mouse(click));
    assert!(step.send.is_empty());
    assert_eq!(content_mode(&app, &cid), ContentMode::Help);
}

#[test]
fn apply_actions_turns_commands_into_messages() {
    let (mut app, _, cid) = started();
    let out = app.apply_actions(vec![
        UiAction::App(AppCommand::FetchLogs { origin: cid, amount: 3 }),
        UiAction::App(AppCommand::Quit),
    ]);
    assert!(matches!(
        out.as_slice(),
        [EventContainer::FetchLogs { origin, amount: 3 }, EventContainer::Quit] if *origin == cid
    ));
    // The messages are only requests: the loop still runs.
    assert!(app.running());
    app.quit();
    assert!(!app.running());
}
