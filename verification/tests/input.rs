use layout_manager::command::{
    AppCommand, Command, Direction2D, FocusCommand, PointerBinding, PointerButton, PointerEvent, PointerGesture,
};
use layout_manager::component::{ContentComponent, SidebarComponent};
use layout_manager::event::{Event, MoveEvent, Submit, Tick};
use layout_manager::input::{InputManager, KeyCode, KeyEvent, KeyEventKind, KeyModifiers, KeyStroke};

fn press(code: KeyCode, modifiers: KeyModifiers) -> KeyEvent {
    KeyEvent { code, modifiers, kind: KeyEventKind::Press }
}

fn pointer(gesture: PointerGesture, x: u16, y: u16) -> PointerEvent {
    PointerEvent { gesture, x, y, local_x: Some(1), local_y: Some(2) }
}

#[test]
fn modifier_bits_are_distinct_flags() {
    let all = [
        KeyModifiers::shift(),
        KeyModifiers::control(),
        KeyModifiers::alt(),
        KeyModifiers::super_key(),
        KeyModifiers::hyper(),
        KeyModifiers::meta(),
    ];
    assert_eq!(KeyModifiers::none(), KeyModifiers::empty());
    assert_eq!(KeyModifiers::none().bits, 0);
    for (i, a) in all.iter().enumerate() {
        assert_eq!(a.bits, 1u8 << i);
    }
}

#[test]
fn key_stroke_drops_event_kind() {
    let stroke = KeyStroke::from(KeyEvent { code: KeyCode::Char('x'), modifiers: KeyModifiers::alt(), kind: KeyEventKind::Release });
    assert_eq!(stroke, KeyStroke { code: KeyCode::Char('x'), modifiers: KeyModifiers::alt() });
}

#[test]
fn empty_manager_resolves_nothing() {
    let input = InputManager::new();
    assert!(input.resolve_key(press(KeyCode::Esc, KeyModifiers::none()), None).is_none());
    assert!(input.resolve_key(press(KeyCode::Esc, KeyModifiers::none()), Some("sidebar")).is_none());
    assert!(input.resolve_pointer(pointer(PointerGesture::ScrollUp, 0, 0), Some("content")).is_none());
}

#[test]
fn default_keymap_global_quit_keys() {
    let input = InputManager::default_keymap();
    for key in [
        press(KeyCode::Esc, KeyModifiers::none()),
        press(KeyCode::Char('q'), KeyModifiers::none()),
        press(KeyCode::Char('c'), KeyModifiers::control()),
    ] {
        assert!(matches!(input.resolve_key(key, None), Some(Command::App(AppCommand::Quit))));
        assert!(matches!(input.resolve_key(key, Some("sidebar")), Some(Command::App(AppCommand::Quit))));
    }
    // A plain 'c' is not bound, nor is 'q' with a modifier.
    assert!(input.resolve_key(press(KeyCode::Char('c'), KeyModifiers::none()), None).is_none());
    assert!(input.resolve_key(press(KeyCode::Char('q'), KeyModifiers::shift()), None).is_none());
}

#[test]
fn default_keymap_focus_keys() {
    let input = InputManager::default_keymap();
    assert!(matches!(
        input.resolve_key(press(KeyCode::Tab, KeyModifiers::none()), Some("content")),
        Some(Command::Focus(FocusCommand::Next))
    ));
    assert!(matches!(
        input.resolve_key(press(KeyCode::BackTab, KeyModifiers::shift()), None),
        Some(Command::Focus(FocusCommand::Previous))
    ));
    for (code, dir) in [
        (KeyCode::Up, Direction2D::Up),
        (KeyCode::Down, Direction2D::Down),
        (KeyCode::Left, Direction2D::Left),
        (KeyCode::Right, Direction2D::Right),
    ] {
        match input.resolve_key(press(code, KeyModifiers::alt()), Some("sidebar")) {
            Some(Command::Focus(FocusCommand::Move(d))) => assert_eq!(d, dir),
            other => panic!("unexpected {:?}", other),
        }
    }
}

#[test]
fn default_keymap_component_keys_shadow_nothing_globally() {
    let input = InputManager::default_keymap();
    let up = press(KeyCode::Up, KeyModifiers::none());
    assert!(matches!(
        input.resolve_key(up, Some(SidebarComponent::kind())),
        Some(Command::FocusedComponent(Event::Move(MoveEvent(Direction2D::Up))))
    ));
    assert!(matches!(
        input.resolve_key(press(KeyCode::Down, KeyModifiers::none()), Some(ContentComponent::kind())),
        Some(Command::FocusedComponent(Event::Move(MoveEvent(Direction2D::Down))))
    ));
    // Without a focused component, plain arrows are unbound.
    assert!(input.resolve_key(up, None).is_none());
    // Enter submits in the sidebar only.
    let enter = press(KeyCode::Enter, KeyModifiers::none());
    assert!(matches!(
        input.resolve_key(enter, Some("sidebar")),
        Some(Command::FocusedComponent(Event::Submit(Submit)))
    ));
    assert!(input.resolve_key(enter, Some("content")).is_none());
    // An unknown kind falls back to the global table.
    assert!(input.resolve_key(up, Some("other")).is_none());
}

#[test]
fn default_keymap_pointer_bindings_forward_event() {
    let input = InputManager::default_keymap();
    let p = pointer(PointerGesture::Down(PointerButton::Left), 30, 4);
    match input.resolve_pointer(p, Some("content")) {
        Some(Command::FocusedComponent(Event::Mouse(m))) => assert_eq!(m.0, p),
        other => panic!("unexpected {:?}", other),
    }
    let scroll = pointer(PointerGesture::ScrollDown, 3, 3);
    match input.resolve_pointer(scroll, Some("sidebar")) {
        Some(Command::FocusedComponent(Event::Mouse(m))) => assert_eq!(m.0, scroll),
        other => panic!("unexpected {:?}", other),
    }
    // Right clicks and pointers outside components are unbound.
    assert!(input.resolve_pointer(pointer(PointerGesture::Down(PointerButton::Right), 3, 3), Some("sidebar")).is_none());
    assert!(input.resolve_pointer(p, None).is_none());
}

#[test]
fn component_binding_wins_over_global() {
    let mut input = InputManager::new();
    input.bind_app_event(KeyCode::Char('x'), KeyModifiers::none(), Command::App(AppCommand::Quit));
    input.bind_key_component("list", KeyCode::Char('x'), KeyModifiers::none(), Command::FocusedComponent(Event::Tick(Tick)));
    let x = press(KeyCode::Char('x'), KeyModifiers::none());
    assert!(matches!(input.resolve_key(x, Some("list")), Some(Command::FocusedComponent(Event::Tick(Tick)))));
    assert!(matches!(input.resolve_key(x, Some("other")), Some(Command::App(AppCommand::Quit))));
    assert!(matches!(input.resolve_key(x, None), Some(Command::App(AppCommand::Quit))));
}

#[test]
fn rebinding_replaces_the_command() {
    let mut input = InputManager::new();
    input.bind_app_event(KeyCode::F(1), KeyModifiers::none(), Command::App(AppCommand::Quit));
    input.bind_app_event(KeyCode::F(1), KeyModifiers::none(), Command::Focus(FocusCommand::Next));
    assert!(matches!(
        input.resolve_key(press(KeyCode::F(1), KeyModifiers::none()), None),
        Some(Command::Focus(FocusCommand::Next))
    ));
    // A different modifier is a different binding.
    assert!(input.resolve_key(press(KeyCode::F(1), KeyModifiers::shift()), None).is_none());
}

#[test]
fn fixed_pointer_binding_ignores_position() {
    let mut input = InputManager::new();
    input.bind_pointer_app_event(PointerGesture::ScrollUp, PointerBinding::Fixed(Event::Move(MoveEvent(Direction2D::Up))));
    input.bind_pointer_component("list", PointerGesture::ScrollUp, PointerBinding::WithEvent);
    for (x, y) in [(0u16, 0u16), (50, 7), (200, 100)] {
        assert!(matches!(
            input.resolve_pointer(pointer(PointerGesture::ScrollUp, x, y), None),
            Some(Command::FocusedComponent(Event::Move(MoveEvent(Direction2D::Up))))
        ));
        assert!(matches!(
            input.resolve_pointer(pointer(PointerGesture::ScrollUp, x, y), Some("other")),
            Some(Command::FocusedComponent(Event::Move(MoveEvent(Direction2D::Up))))
        ));
    }
    let p = pointer(PointerGesture::ScrollUp, 9, 9);
    match input.resolve_pointer(p, Some("list")) {
        Some(Command::FocusedComponent(Event::Mouse(m))) => assert_eq!(m.0, p),
        other => panic!("unexpected {:?}", other),
    }
}

#[test]
fn kind_strings_compare_by_characters() {
    assert!(layout_manager::bindings::str_eq("sidebar", "sidebar"));
    assert!(!layout_manager::bindings::str_eq("sidebar", "sidebars"));
    assert!(!layout_manager::bindings::str_eq("é", "e"));
    assert!(layout_manager::bindings::str_eq("", ""));
}
