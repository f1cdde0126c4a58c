use layout_manager::command::{Direction2D, PointerEvent, PointerGesture};
use layout_manager::component::content::{ContentComponentEvent, ContentMode};
use layout_manager::event::{clone_lines, Event, MouseEvent, MoveEvent, Submit, Tick};

fn pointer() -> PointerEvent {
    PointerEvent { gesture: PointerGesture::ScrollDown, x: 4, y: 5, local_x: None, local_y: None }
}

#[test]
fn event_names_follow_payload_types() {
    assert_eq!(Event::Move(MoveEvent(Direction2D::Left)).event_name(), "MoveEvent");
    assert_eq!(Event::Submit(Submit).event_name(), "Submit");
    assert_eq!(Event::Mouse(MouseEvent(pointer())).event_name(), "MouseEvent");
    assert_eq!(Event::Tick(Tick).event_name(), "Tick");
    assert_eq!(
        Event::Content(ContentComponentEvent::ContentMode(ContentMode::Help)).event_name(),
        "ContentComponentEvent::ContentMode"
    );
    assert_eq!(
        Event::Content(ContentComponentEvent::NewLogs(Vec::new())).event_name(),
        "ContentComponentEvent::NewLogs"
    );
}

#[test]
fn downcast_ref_matches_only_its_type() {
    let e = Event::Move(MoveEvent(Direction2D::Up));
    assert_eq!(e.downcast_ref::<MoveEvent>(), Some(&MoveEvent(Direction2D::Up)));
    assert!(e.downcast_ref::<Submit>().is_none());
    assert!(e.downcast_ref::<MouseEvent>().is_none());
    assert!(e.downcast_ref::<Tick>().is_none());
    assert!(e.downcast_ref::<ContentComponentEvent>().is_none());
    let m = Event::Mouse(MouseEvent(pointer()));
    assert_eq!(m.downcast_ref::<MouseEvent>(), Some(&MouseEvent(pointer())));
    let c = Event::Content(ContentComponentEvent::ContentMode(ContentMode::Logs));
    assert!(matches!(
        c.downcast_ref::<ContentComponentEvent>(),
        Some(ContentComponentEvent::ContentMode(ContentMode::Logs))
    ));
}

#[test]
fn downcast_to_gives_the_event_back_on_mismatch() {
    let e = Event::Submit(Submit);
    let back = e.downcast_to::<Tick>().unwrap_err();
    assert!(matches!(back, Event::Submit(Submit)));
    assert_eq!(back.downcast_to::<Submit>().unwrap(), Submit);
    let logs = Event::Content(ContentComponentEvent::NewLogs(vec!["a".to_string(), "b".to_string()]));
    match logs.downcast_to::<ContentComponentEvent>() {
        Ok(ContentComponentEvent::NewLogs(lines)) => assert_eq!(lines, vec!["a".to_string(), "b".to_string()]),
        other => panic!("unexpected {:?}", other),
    }
}

#[test]
fn box_clone_copies_payload() {
    let e = Event::Content(ContentComponentEvent::NewLogs(vec!["x".to_string()]));
    let c = e.box_clone();
    match (e, c) {
        (Event::Content(ContentComponentEvent::NewLogs(a)), Event::Content(ContentComponentEvent::NewLogs(b))) => {
            assert_eq!(a, b)
        }
        _ => panic!("clone changed the variant"),
    }
    let m = Event::Mouse(MouseEvent(pointer()));
    assert!(matches!(m.box_clone(), Event::Mouse(MouseEvent(p)) if p == pointer()));
    assert_eq!(clone_lines(&vec!["1".to_string(), "2".to_string()]), vec!["1".to_string(), "2".to_string()]);
}
