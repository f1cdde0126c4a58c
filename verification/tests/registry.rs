use layout_manager::command::{AppCommand, Direction2D, UiAction};
use layout_manager::component::content::{ContentComponentEvent, ContentMode};
use layout_manager::component::demo::DemoComponent;
use layout_manager::component::{Component, ComponentRegistry, ContentComponent, EventOutcome, RenderContext, SidebarComponent};
use layout_manager::event::{Event, MoveEvent, Submit, Tick};
use layout_manager::geometry::Rect;
use layout_manager::layout::ComponentId;

fn two() -> (ComponentRegistry<DemoComponent>, ComponentId, ComponentId) {
    let s = SidebarComponent::new();
    let c = ContentComponent::new();
    let (sid, cid) = (s.id(), c.id());
    let mut reg = ComponentRegistry::new();
    reg.insert(DemoComponent::Sidebar(s));
    reg.insert(DemoComponent::Content(c));
    (reg, sid, cid)
}

fn sidebar_selection(reg: &ComponentRegistry<DemoComponent>, id: &ComponentId) -> Option<usize> {
    match reg.get(id) {
        Some(DemoComponent::Sidebar(s)) => s.state().selected(),
        _ => panic!("not a sidebar"),
    }
}

#[test]
fn empty_registry() {
    let reg: ComponentRegistry<DemoComponent> = ComponentRegistry::new();
    assert!(reg.ids().is_empty());
    assert!(!reg.contains(&ComponentId(1)));
    assert!(reg.get(&ComponentId(1)).is_none());
    assert_eq!(reg.get_kind(&ComponentId(1)), None);
}

#[test]
fn lookup_by_id_in_insertion_order() {
    let (reg, sid, cid) = two();
    assert_eq!(reg.ids(), vec![sid, cid]);
    assert!(reg.contains(&sid) && reg.contains(&cid));
    assert_eq!(reg.get_kind(&sid), Some("sidebar"));
    assert_eq!(reg.get_kind(&cid), Some("content"));
    assert!(matches!(reg.get(&cid), Some(DemoComponent::Content(_))));
}

#[test]
fn dispatch_reaches_only_the_target() {
    let (mut reg, sid, cid) = two();
    assert!(matches!(reg.on(&sid, Event::Move(MoveEvent(Direction2D::Down))), EventOutcome::Consumed(a) if a.is_empty()));
    assert_eq!(sidebar_selection(&reg, &sid), Some(1));
    assert!(matches!(reg.on(&ComponentId(12345), Event::Move(MoveEvent(Direction2D::Down))), EventOutcome::Ignored));
    assert_eq!(sidebar_selection(&reg, &sid), Some(1));
    match reg.on(&cid, Event::Move(MoveEvent(Direction2D::Up))) {
        EventOutcome::Consumed(actions) => assert!(matches!(
            actions.as_slice(),
            [UiAction::App(AppCommand::FetchLogs { origin, amount: 400 })] if *origin == cid
        )),
        EventOutcome::Ignored => panic!("content ignored a move"),
    }
}

#[test]
fn broadcast_reaches_everyone_in_order() {
    let (mut reg, _sid, cid) = two();
    let outcomes = reg.on_broad_cast(&Event::Submit(Submit));
    assert_eq!(outcomes.len(), 2);
    assert!(matches!(
        &outcomes[0],
        EventOutcome::Consumed(a) if matches!(a.as_slice(), [UiAction::Response(Event::Content(ContentComponentEvent::ContentMode(ContentMode::Counter)))])
    ));
    // The content pane does not understand a submit.
    assert!(matches!(&outcomes[1], EventOutcome::Ignored));
    let outcomes = reg.on_broad_cast(&Event::Move(MoveEvent(Direction2D::Right)));
    assert!(matches!(&outcomes[0], EventOutcome::Ignored));
    assert!(matches!(
        &outcomes[1],
        EventOutcome::Consumed(a) if matches!(a.as_slice(), [UiAction::App(AppCommand::FetchLogs { origin, .. })] if *origin == cid)
    ));
    // Nobody handles a tick.
    let outcomes = reg.on_broad_cast(&Event::Tick(Tick));
    assert!(matches!(&outcomes[0], EventOutcome::Ignored) && matches!(&outcomes[1], EventOutcome::Ignored));
}

#[test]
fn till_consumed_stops_at_first_consumer() {
    let (mut reg, sid, cid) = two();
    // The sidebar ignores a sideways move, the content pane consumes it.
    match reg.on_till_consumed(&Event::Move(MoveEvent(Direction2D::Left))) {
        EventOutcome::Consumed(actions) => assert!(matches!(
            actions.as_slice(),
            [UiAction::App(AppCommand::FetchLogs { origin, .. })] if *origin == cid
        )),
        EventOutcome::Ignored => panic!("nobody consumed"),
    }
    // A submit is consumed by the sidebar, so the content pane never sees it.
    let before = match reg.get(&cid) {
        Some(DemoComponent::Content(c)) => c.mode(),
        _ => unreachable!(),
    };
    assert!(matches!(reg.on_till_consumed(&Event::Submit(Submit)), EventOutcome::Consumed(_)));
    assert_eq!(sidebar_selection(&reg, &sid), Some(0));
    match reg.get(&cid) {
        Some(DemoComponent::Content(c)) => assert_eq!(c.mode(), before),
        _ => unreachable!(),
    }
}

#[test]
fn till_consumed_without_consumer_is_ignored() {
    let mut reg: ComponentRegistry<DemoComponent> = ComponentRegistry::new();
    reg.insert(DemoComponent::Sidebar(SidebarComponent::new()));
    assert!(matches!(reg.on_till_consumed(&Event::Tick(Tick)), EventOutcome::Ignored));
}

#[test]
fn render_prepares_the_target() {
    let (mut reg, _sid, cid) = two();
    reg.on(&cid, Event::Content(ContentComponentEvent::NewLogs(vec!["a".to_string()])));
    reg.render(&cid, Rect::new(0, 0, 10, 4), RenderContext { focused: false, focus_id: cid });
    match reg.get(&cid) {
        Some(DemoComponent::Content(c)) => {
            assert_eq!(c.log_rows().len(), 1);
            assert_eq!(c.log_rows()[0].area, Rect::new(1, 1, 8, 1));
        }
        _ => unreachable!(),
    }
}
