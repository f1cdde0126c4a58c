use layout_manager::builder::{BuildError, UiBuilder};
use layout_manager::component::demo::DemoComponent;
use layout_manager::component::{Component, ContentComponent, SidebarComponent};
use layout_manager::layout::{ComponentId, Constraint, Direction, LayoutSpec};
use layout_manager::ui::Ui;

fn err_of(r: Result<Ui<DemoComponent>, BuildError>) -> BuildError {
    match r {
        Ok(_) => panic!("configuration was accepted"),
        Err(e) => e,
    }
}

fn two_leaves(a: LayoutSpec, b: LayoutSpec) -> LayoutSpec {
    LayoutSpec::split(Direction::Horizontal, vec![(Constraint::Length(10), a), (Constraint::Min(0), b)])
}

#[test]
fn missing_layout_is_rejected() {
    let e = err_of(UiBuilder::<DemoComponent>::new().component(DemoComponent::Sidebar(SidebarComponent::new())).build());
    assert!(matches!(e, BuildError::MissingLayout));
}

#[test]
fn layout_without_leaves_is_rejected() {
    let e = err_of(Ui::<DemoComponent>::builder().layout(LayoutSpec::split(Direction::Vertical, Vec::new())).build());
    assert!(matches!(e, BuildError::NoLeaves));
}

#[test]
fn unknown_component_is_rejected() {
    let e = err_of(Ui::<DemoComponent>::builder().layout(LayoutSpec::leaf(ComponentId(5))).build());
    assert!(matches!(e, BuildError::MissingComponent(ComponentId(5))));
}

#[test]
fn duplicate_focus_is_rejected() {
    let s = SidebarComponent::new();
    let sid = s.id();
    let layout = two_leaves(LayoutSpec::focused_leaf(sid, ComponentId(9)), LayoutSpec::focused_leaf(sid, ComponentId(9)));
    let e = err_of(Ui::builder().component(DemoComponent::Sidebar(s)).layout(layout).build());
    assert!(matches!(e, BuildError::DuplicateFocus(ComponentId(9))));
}

#[test]
fn one_component_may_fill_two_regions() {
    let s = SidebarComponent::new();
    let sid = s.id();
    let layout = two_leaves(LayoutSpec::focused_leaf(sid, ComponentId(8)), LayoutSpec::focused_leaf(sid, ComponentId(9)));
    let ui = Ui::builder().component(DemoComponent::Sidebar(s)).layout(layout).build().ok().expect("valid");
    assert_eq!(ui.focus().current(), Some(ComponentId(8)));
}

#[test]
fn initial_focus_must_be_in_layout() {
    let s = SidebarComponent::new();
    let sid = s.id();
    let e = err_of(
        Ui::builder()
            .component(DemoComponent::Sidebar(s))
            .layout(LayoutSpec::leaf(sid))
            .initial_focus(ComponentId(77))
            .build(),
    );
    assert!(matches!(e, BuildError::InitialFocusNotInLayout(ComponentId(77))));
}

#[test]
fn unused_components_are_reported() {
    let s = SidebarComponent::new();
    let c = ContentComponent::new();
    let d = ContentComponent::new();
    let (sid, cid, did) = (s.id(), c.id(), d.id());
    let e = err_of(
        Ui::builder()
            .component(DemoComponent::Sidebar(s))
            .component(DemoComponent::Content(c))
            .component(DemoComponent::Content(d))
            .layout(LayoutSpec::leaf(sid))
            .build(),
    );
    match e {
        BuildError::UnusedComponents(ids) => assert_eq!(ids, vec![cid, did]),
        other => panic!("unexpected {:?}", other),
    }
}

#[test]
fn first_violated_rule_is_reported() {
    // A missing component is reported before a bad initial focus and unused components.
    let c = ContentComponent::new();
    let e = err_of(
        Ui::builder()
            .component(DemoComponent::Content(c))
            .layout(LayoutSpec::leaf(ComponentId(3)))
            .initial_focus(ComponentId(4))
            .build(),
    );
    assert!(matches!(e, BuildError::MissingComponent(ComponentId(3))));
}

#[test]
fn valid_configuration_builds() {
    let s = SidebarComponent::new();
    let c = ContentComponent::new();
    let (sid, cid) = (s.id(), c.id());
    let ui = Ui::builder()
        .component(DemoComponent::Sidebar(s))
        .component(DemoComponent::Content(c))
        .layout(two_leaves(LayoutSpec::leaf(sid), LayoutSpec::leaf(cid)))
        .initial_focus(cid)
        .build()
        .ok()
        .expect("valid");
    assert_eq!(ui.focus().current(), Some(cid));
    assert!(ui.component(&sid).is_some());
    assert!(ui.component(&cid).is_some());
    // No frame has been drawn yet.
    assert_eq!(ui.focus().focused_component(), None);
}

#[test]
fn default_ui_focuses_the_sidebar() {
    let ui = Ui::default_ui().ok().expect("the demo configuration is valid");
    let focused = ui.focus().current().expect("a focus");
    assert!(matches!(ui.component(&focused), Some(DemoComponent::Sidebar(_))));
}

#[test]
fn demo_ui_builds_around_the_given_panes() {
    let s = SidebarComponent::new();
    let c = ContentComponent::new();
    let (sid, cid) = (s.id(), c.id());
    let mut ui = Ui::demo_ui(s, c).ok().expect("distinct IDs");
    assert_eq!(ui.focus().current(), Some(sid));
    let jobs = ui.render(layout_manager::geometry::Rect::new(0, 0, 60, 10));
    assert_eq!(jobs.len(), 2);
    assert_eq!((jobs[0].component, jobs[1].component), (sid, cid));
}
