//! Keyboard types, and input binding and resolution.
//!
//! [`InputManager`] keeps two lookup tables for keys and two for pointer
//! gestures: a global one and one per component kind.  Resolution tries the
//! component-specific table first and falls back to the global one.

use vstd::prelude::*;
use crate::bindings::{BindingKey, BindingMap, entry_matches};
use crate::command::{AppCommand, BindingView, Command, CommandView, Direction2D, FocusCommand, PointerBinding, PointerButton, PointerEvent, PointerGesture};
use crate::component::{ComponentKind, ContentComponent, SidebarComponent};
use crate::event::{Event, EventView, MouseEvent, MoveEvent, Submit};

verus! {

/// A key as the terminal reports it.
#[derive(Clone, Copy, Debug, PartialEq, Eq, Structural, Hash)]
pub enum KeyCode {
    Backspace,
    Enter,
    Left,
    Right,
    Up,
    Down,
    Home,
    End,
    PageUp,
    PageDown,
    Tab,
    BackTab,
    Delete,
    Insert,
    F(u8),
    Char(char),
    Null,
    Esc,
    CapsLock,
    ScrollLock,
    NumLock,
    PrintScreen,
    Pause,
    Menu,
    KeypadBegin,
    /// A media key, by its position in the terminal library's media key list.
    Media(u8),
    /// A modifier key pressed on its own, by its position in the terminal
    /// library's modifier key list.
    Modifier(u8),
}

/// Modifier keys held during a key press, as a bit set.
#[derive(Clone, Copy, Debug, PartialEq, Eq, Structural, Hash)]
pub struct KeyModifiers {
    pub bits: u8,
}

impl KeyModifiers {
    /// No modifier.
    pub fn none() -> (r: KeyModifiers)
        ensures
            r.bits == 0,
    {
        KeyModifiers { bits: 0 }
    }

    /// Shift.
    pub fn shift() -> (r: KeyModifiers)
        ensures
            r.bits == 1,
    {
        KeyModifiers { bits: 1 }
    }

    /// Control.
    pub fn control() -> (r: KeyModifiers)
        ensures
            r.bits == 2,
    {
        KeyModifiers { bits: 2 }
    }

    /// Alt.
    pub fn alt() -> (r: KeyModifiers)
        ensures
            r.bits == 4,
    {
        KeyModifiers { bits: 4 }
    }

    /// Super.
    pub fn super_key() -> (r: KeyModifiers)
        ensures
            r.bits == 8,
    {
        KeyModifiers { bits: 8 }
    }

    /// Hyper.
    pub fn hyper() -> (r: KeyModifiers)
        ensures
            r.bits == 16,
    {
        KeyModifiers { bits: 16 }
    }

    /// Meta.
    pub fn meta() -> (r: KeyModifiers)
        ensures
            r.bits == 32,
    {
        KeyModifiers { bits: 32 }
    }

    /// No modifier held.
    pub fn empty() -> (r: KeyModifiers)
        ensures
            r.bits == 0,
    {
        KeyModifiers { bits: 0 }
    }
}

/// Whether a key event is a press, a repeat or a release.
#[derive(Clone, Copy, Debug, PartialEq, Eq, Structural)]
pub enum KeyEventKind {
    Press,
    Repeat,
    Release,
}

/// A key event as the terminal reports it.
#[derive(Clone, Copy, Debug, PartialEq, Eq, Structural)]
pub struct KeyEvent {
    pub code: KeyCode,
    pub modifiers: KeyModifiers,
    pub kind: KeyEventKind,
}

/// A normalised key press: key code plus modifier mask.
#[derive(Clone, Copy, Debug, PartialEq, Eq, Structural, Hash)]
pub struct KeyStroke {
    pub code: KeyCode,
    pub modifiers: KeyModifiers,
}

impl vstd::std_specs::convert::FromSpecImpl<KeyEvent> for KeyStroke {
    open spec fn obeys_from_spec() -> bool {
        true
    }

    open spec fn from_spec(v: KeyEvent) -> KeyStroke {
        KeyStroke { code: v.code, modifiers: v.modifiers }
    }
}

impl From<KeyEvent> for KeyStroke {
    fn from(value: KeyEvent) -> (r: KeyStroke) {
        KeyStroke { code: value.code, modifiers: value.modifiers }
    }
}

} // verus!

verus! {

impl BindingKey for KeyStroke {
    open spec fn key_eq(self, other: Self) -> bool {
        self == other
    }

    fn same(&self, other: &Self) -> (r: bool) {
        *self == *other
    }

    proof fn lemma_key_eq_equivalence(a: Self, b: Self, c: Self) {
    }
}

impl BindingKey for PointerGesture {
    open spec fn key_eq(self, other: Self) -> bool {
        self == other
    }

    fn same(&self, other: &Self) -> (r: bool) {
        *self == *other
    }

    proof fn lemma_key_eq_equivalence(a: Self, b: Self, c: Self) {
    }
}

/// The value of an optional command.
pub open spec fn command_view(c: Option<Command>) -> Option<CommandView> {
    match c {
        Some(c) => Some(c@),
        None => None,
    }
}

/// The value of an optional pointer binding.
pub open spec fn binding_view(b: Option<PointerBinding>) -> Option<BindingView> {
    match b {
        Some(b) => Some(b@),
        None => None,
    }
}

/// The key stroke of a key event.
pub open spec fn stroke_of(key: KeyEvent) -> KeyStroke {
    KeyStroke { code: key.code, modifiers: key.modifiers }
}


/// `KeyStroke` for `code` with modifier bits `bits`.
pub open spec fn stroke(code: KeyCode, bits: u8) -> KeyStroke {
    KeyStroke { code, modifiers: KeyModifiers { bits } }
}

/// The global key bindings of the default keymap: quit on `Esc`, `q` and
/// `Ctrl-C`; cycle focus on `Tab` / `Shift-BackTab`; move focus
/// geometrically on `Alt+Arrow`.
pub open spec fn default_key_app(s: KeyStroke) -> Option<CommandView> {
    if s == stroke(KeyCode::Esc, 0) || s == stroke(KeyCode::Char('q'), 0) || s == stroke(KeyCode::Char('c'), 2) {
        Some(CommandView::App(AppCommand::Quit))
    } else if s == stroke(KeyCode::Tab, 0) {
        Some(CommandView::Focus(FocusCommand::Next))
    } else if s == stroke(KeyCode::BackTab, 1) {
        Some(CommandView::Focus(FocusCommand::Previous))
    } else if s == stroke(KeyCode::Up, 4) {
        Some(CommandView::Focus(FocusCommand::Move(Direction2D::Up)))
    } else if s == stroke(KeyCode::Down, 4) {
        Some(CommandView::Focus(FocusCommand::Move(Direction2D::Down)))
    } else if s == stroke(KeyCode::Left, 4) {
        Some(CommandView::Focus(FocusCommand::Move(Direction2D::Left)))
    } else if s == stroke(KeyCode::Right, 4) {
        Some(CommandView::Focus(FocusCommand::Move(Direction2D::Right)))
    } else {
        None
    }
}

/// The component key bindings of the default keymap: `Up` / `Down` send a
/// [`MoveEvent`](crate::event::MoveEvent) to the content pane and the
/// sidebar, and `Enter` submits in the sidebar.
pub open spec fn default_key_component(k: ComponentKind, s: KeyStroke) -> Option<CommandView> {
    if (k@ == "content"@ || k@ == "sidebar"@) && s == stroke(KeyCode::Up, 0) {
        Some(CommandView::FocusedComponent(EventView::Move(Direction2D::Up)))
    } else if (k@ == "content"@ || k@ == "sidebar"@) && s == stroke(KeyCode::Down, 0) {
        Some(CommandView::FocusedComponent(EventView::Move(Direction2D::Down)))
    } else if k@ == "sidebar"@ && s == stroke(KeyCode::Enter, 0) {
        Some(CommandView::FocusedComponent(EventView::Submit))
    } else {
        None
    }
}

/// The component pointer bindings of the default keymap: scrolling and a
/// left-button press over either pane forward the full pointer event.
pub open spec fn default_pointer_component(k: ComponentKind, g: PointerGesture) -> Option<BindingView> {
    if (k@ == "content"@ || k@ == "sidebar"@) && (g == PointerGesture::ScrollUp || g == PointerGesture::ScrollDown
        || g == PointerGesture::Down(PointerButton::Left)) {
        Some(BindingView::WithEvent)
    } else {
        None
    }
}

/// Manages key and pointer bindings for the application.
///
/// Bindings are split into two scopes: global ones, active whatever is
/// focused or hovered, and per-component ones, keyed by the component kind
/// and checked before the global table so components can shadow global keys.
pub struct InputManager {
    key_app: BindingMap<KeyStroke, Command>,
    key_component: BindingMap<(ComponentKind, KeyStroke), Command>,
    pointer_app: BindingMap<PointerGesture, PointerBinding>,
    pointer_component: BindingMap<(ComponentKind, PointerGesture), PointerBinding>,
}

impl InputManager {
    /// The global binding for `stroke`.
    pub closed spec fn spec_key_app(&self, stroke: KeyStroke) -> Option<CommandView> {
        command_view(self.key_app.spec_get(stroke))
    }

    /// The binding for `stroke` in components of kind `kind`.
    pub closed spec fn spec_key_component(&self, kind: ComponentKind, stroke: KeyStroke) -> Option<CommandView> {
        command_view(self.key_component.spec_get((kind, stroke)))
    }

    /// The global binding for `gesture`.
    pub closed spec fn spec_pointer_app(&self, gesture: PointerGesture) -> Option<BindingView> {
        binding_view(self.pointer_app.spec_get(gesture))
    }

    /// The binding for `gesture` in components of kind `kind`.
    pub closed spec fn spec_pointer_component(&self, kind: ComponentKind, gesture: PointerGesture) -> Option<BindingView> {
        binding_view(self.pointer_component.spec_get((kind, gesture)))
    }

    /// The command a key event resolves to while a component of kind
    /// `focused` has focus: its component binding, else the global one.
    pub open spec fn spec_resolve_key(&self, key: KeyEvent, focused: Option<ComponentKind>) -> Option<CommandView> {
        if focused is Some && self.spec_key_component(focused->0, stroke_of(key)) is Some {
            self.spec_key_component(focused->0, stroke_of(key))
        } else {
            self.spec_key_app(stroke_of(key))
        }
    }

    /// The binding that applies to `gesture` over a component of kind
    /// `hovered`: its component binding, else the global one.
    pub open spec fn spec_pointer_binding(&self, gesture: PointerGesture, hovered: Option<ComponentKind>) -> Option<BindingView> {
        if hovered is Some && self.spec_pointer_component(hovered->0, gesture) is Some {
            self.spec_pointer_component(hovered->0, gesture)
        } else {
            self.spec_pointer_app(gesture)
        }
    }

    /// The command a pointer event resolves to over a component of kind
    /// `hovered`: `Fixed` bindings give their event, `WithEvent` bindings a
    /// [`MouseEvent`] carrying the pointer data.
    pub open spec fn spec_resolve_pointer(&self, pointer: PointerEvent, hovered: Option<ComponentKind>) -> Option<CommandView> {
        match self.spec_pointer_binding(pointer.gesture, hovered) {
            None => None,
            Some(BindingView::Fixed(e)) => Some(CommandView::FocusedComponent(e)),
            Some(BindingView::WithEvent) => Some(CommandView::FocusedComponent(EventView::Mouse(pointer))),
        }
    }

    /// Bindings of a component kind depend only on the kind's characters.
    pub proof fn lemma_kind_by_view(&self, k1: ComponentKind, k2: ComponentKind)
        requires
            k1@ == k2@,
        ensures
            forall|s: KeyStroke| #[trigger] self.spec_key_component(k1, s) == self.spec_key_component(k2, s),
            forall|g: PointerGesture| #[trigger] self.spec_pointer_component(k1, g) == self.spec_pointer_component(k2, g),
    {
        assert forall|s: KeyStroke| #[trigger] self.spec_key_component(k1, s) == self.spec_key_component(k2, s) by {
            assert(entry_matches::<(ComponentKind, KeyStroke), Command>((k1, s)) =~= entry_matches::<(ComponentKind, KeyStroke), Command>((k2, s)));
        }
        assert forall|g: PointerGesture| #[trigger] self.spec_pointer_component(k1, g) == self.spec_pointer_component(k2, g) by {
            assert(entry_matches::<(ComponentKind, PointerGesture), PointerBinding>((k1, g)) =~= entry_matches::<(ComponentKind, PointerGesture), PointerBinding>((k2, g)));
        }
    }

    /// A manager without any binding.
    pub fn new() -> (r: InputManager)
        ensures
            forall|s: KeyStroke| #[trigger] r.spec_key_app(s) is None,
            forall|k: ComponentKind, s: KeyStroke| #[trigger] r.spec_key_component(k, s) is None,
            forall|g: PointerGesture| #[trigger] r.spec_pointer_app(g) is None,
            forall|k: ComponentKind, g: PointerGesture| #[trigger] r.spec_pointer_component(k, g) is None,
    {
        InputManager {
            key_app: BindingMap::new(),
            key_component: BindingMap::new(),
            pointer_app: BindingMap::new(),
            pointer_component: BindingMap::new(),
        }
    }


    /// Build the default keymap used by the demo application: the bindings
    /// of [`default_key_app`], [`default_key_component`] and
    /// [`default_pointer_component`], and no global pointer binding.
    pub fn default_keymap() -> (r: InputManager)
        ensures
            forall|s: KeyStroke| #[trigger] r.spec_key_app(s) == default_key_app(s),
            forall|k: ComponentKind, s: KeyStroke| #[trigger] r.spec_key_component(k, s) == default_key_component(k, s),
            forall|g: PointerGesture| #[trigger] r.spec_pointer_app(g) is None,
            forall|k: ComponentKind, g: PointerGesture| #[trigger]
                r.spec_pointer_component(k, g) == default_pointer_component(k, g),
    {
        let mut input = InputManager::new();
        input.bind_app_event(KeyCode::Esc, KeyModifiers::none(), Command::App(AppCommand::Quit));
        input.bind_app_event(KeyCode::Char('q'), KeyModifiers::none(), Command::App(AppCommand::Quit));
        input.bind_app_event(KeyCode::Char('c'), KeyModifiers::control(), Command::App(AppCommand::Quit));
        input.bind_app_event(KeyCode::Tab, KeyModifiers::none(), Command::Focus(FocusCommand::Next));
        input.bind_app_event(KeyCode::BackTab, KeyModifiers::shift(), Command::Focus(FocusCommand::Previous));
        input.bind_app_event(KeyCode::Up, KeyModifiers::alt(), Command::Focus(FocusCommand::Move(Direction2D::Up)));
        input.bind_app_event(KeyCode::Down, KeyModifiers::alt(), Command::Focus(FocusCommand::Move(Direction2D::Down)));
        input.bind_app_event(KeyCode::Left, KeyModifiers::alt(), Command::Focus(FocusCommand::Move(Direction2D::Left)));
        input.bind_app_event(KeyCode::Right, KeyModifiers::alt(), Command::Focus(FocusCommand::Move(Direction2D::Right)));
        let ghost app = input;

        // ContentComponent
        input.bind_pointer_component(ContentComponent::kind(), PointerGesture::ScrollUp, PointerBinding::WithEvent);
        input.bind_pointer_component(ContentComponent::kind(), PointerGesture::ScrollDown, PointerBinding::WithEvent);
        input.bind_pointer_component(
            ContentComponent::kind(),
            PointerGesture::Down(PointerButton::Left),
            PointerBinding::WithEvent,
        );
        input.bind_key_component(
            ContentComponent::kind(),
            KeyCode::Up,
            KeyModifiers::empty(),
            Command::FocusedComponent(Event::Move(MoveEvent(Direction2D::Up))),
        );
        input.bind_key_component(
            ContentComponent::kind(),
            KeyCode::Down,
            KeyModifiers::empty(),
            Command::FocusedComponent(Event::Move(MoveEvent(Direction2D::Down))),
        );
        input.bind_pointer_component(
            ContentComponent::kind(),
            PointerGesture::Down(PointerButton::Left),
            PointerBinding::WithEvent,
        );

        // SidebarComponent
        input.bind_pointer_component(SidebarComponent::kind(), PointerGesture::ScrollUp, PointerBinding::WithEvent);
        input.bind_pointer_component(SidebarComponent::kind(), PointerGesture::ScrollDown, PointerBinding::WithEvent);
        input.bind_pointer_component(
            SidebarComponent::kind(),
            PointerGesture::Down(PointerButton::Left),
            PointerBinding::WithEvent,
        );
        input.bind_key_component(
            SidebarComponent::kind(),
            KeyCode::Up,
            KeyModifiers::empty(),
            Command::FocusedComponent(Event::Move(MoveEvent(Direction2D::Up))),
        );
        input.bind_key_component(
            SidebarComponent::kind(),
            KeyCode::Down,
            KeyModifiers::empty(),
            Command::FocusedComponent(Event::Move(MoveEvent(Direction2D::Down))),
        );
        input.bind_key_component(
            SidebarComponent::kind(),
            KeyCode::Enter,
            KeyModifiers::none(),
            Command::FocusedComponent(Event::Submit(Submit)),
        );
        proof {
            reveal_strlit("content");
            reveal_strlit("sidebar");
            assert forall|s: KeyStroke| #[trigger] input.spec_key_app(s) == default_key_app(s) by {
                assert(input.spec_key_app(s) == app.spec_key_app(s));
            }
        }
        input
    }

    /// Resolve a key event to a [`Command`]: the binding of the focused
    /// component's kind first, then the global binding; `None` if unbound.
    pub fn resolve_key(&self, key: KeyEvent, focused: Option<ComponentKind>) -> (r: Option<Command>)
        ensures
            command_view(r) == self.spec_resolve_key(key, focused),
    {
        let stroke = KeyStroke::from(key);
        if let Some(kind) = focused {
            if let Some(command) = self.key_component.get(&(kind, stroke)) {
                return Some(command.clone());
            }
        }
        match self.key_app.get(&stroke) {
            Some(command) => Some(command.clone()),
            None => None,
        }
    }

    /// Resolve a pointer event to a [`Command`]: the binding of the hovered
    /// component's kind first, then the global binding; `None` if unbound.
    pub fn resolve_pointer(&self, pointer: PointerEvent, hovered: Option<ComponentKind>) -> (r: Option<Command>)
        ensures
            command_view(r) == self.spec_resolve_pointer(pointer, hovered),
    {
        let mut binding: Option<&PointerBinding> = None;
        if let Some(kind) = hovered {
            binding = self.pointer_component.get(&(kind, pointer.gesture));
        }
        if binding.is_none() {
            binding = self.pointer_app.get(&pointer.gesture);
        }
        match binding {
            None => None,
            Some(PointerBinding::Fixed(event)) => Some(Command::FocusedComponent(event.box_clone())),
            Some(PointerBinding::WithEvent) => Some(Command::FocusedComponent(Event::Mouse(MouseEvent(pointer)))),
        }
    }

    /// Add a global key binding (replacing an existing one for the same keys).
    pub fn bind_app_event(&mut self, code: KeyCode, modifiers: KeyModifiers, command: Command)
        ensures
            forall|s: KeyStroke| #[trigger]
                final(self).spec_key_app(s) == if s == (KeyStroke { code, modifiers }) {
                    Some(command@)
                } else {
                    old(self).spec_key_app(s)
                },
            forall|k: ComponentKind, s: KeyStroke| #[trigger]
                final(self).spec_key_component(k, s) == old(self).spec_key_component(k, s),
            forall|g: PointerGesture| #[trigger] final(self).spec_pointer_app(g) == old(self).spec_pointer_app(g),
            forall|k: ComponentKind, g: PointerGesture| #[trigger]
                final(self).spec_pointer_component(k, g) == old(self).spec_pointer_component(k, g),
    {
        let ghost cv = command@;
        self.key_app.insert(KeyStroke { code, modifiers }, command);
        assert forall|s: KeyStroke| #[trigger]
            self.spec_key_app(s) == if s == (KeyStroke { code, modifiers }) {
                Some(cv)
            } else {
                old(self).spec_key_app(s)
            } by {
            assert(self.key_app.spec_get(s) == if s.key_eq(KeyStroke { code, modifiers }) {
                Some(command)
            } else {
                old(self).key_app.spec_get(s)
            });
        }
    }

    /// Add a key binding for a specific component kind.
    pub fn bind_key_component(&mut self, component: ComponentKind, code: KeyCode, modifiers: KeyModifiers, command: Command)
        ensures
            forall|s: KeyStroke| #[trigger] final(self).spec_key_app(s) == old(self).spec_key_app(s),
            forall|k: ComponentKind, s: KeyStroke| #[trigger]
                final(self).spec_key_component(k, s) == if k@ == component@ && s == (KeyStroke { code, modifiers }) {
                    Some(command@)
                } else {
                    old(self).spec_key_component(k, s)
                },
            forall|g: PointerGesture| #[trigger] final(self).spec_pointer_app(g) == old(self).spec_pointer_app(g),
            forall|k: ComponentKind, g: PointerGesture| #[trigger]
                final(self).spec_pointer_component(k, g) == old(self).spec_pointer_component(k, g),
    {
        let ghost cv = command@;
        self.key_component.insert((component, KeyStroke { code, modifiers }), command);
        assert forall|k: ComponentKind, s: KeyStroke| #[trigger]
            self.spec_key_component(k, s) == if k@ == component@ && s == (KeyStroke { code, modifiers }) {
                Some(cv)
            } else {
                old(self).spec_key_component(k, s)
            } by {}
    }

    /// Add a global pointer gesture binding.
    pub fn bind_pointer_app_event(&mut self, gesture: PointerGesture, binding: PointerBinding)
        ensures
            forall|s: KeyStroke| #[trigger] final(self).spec_key_app(s) == old(self).spec_key_app(s),
            forall|k: ComponentKind, s: KeyStroke| #[trigger]
                final(self).spec_key_component(k, s) == old(self).spec_key_component(k, s),
            forall|g: PointerGesture| #[trigger]
                final(self).spec_pointer_app(g) == if g == gesture {
                    Some(binding@)
                } else {
                    old(self).spec_pointer_app(g)
                },
            forall|k: ComponentKind, g: PointerGesture| #[trigger]
                final(self).spec_pointer_component(k, g) == old(self).spec_pointer_component(k, g),
    {
        let ghost bv = binding@;
        self.pointer_app.insert(gesture, binding);
        assert forall|g: PointerGesture| #[trigger]
            self.spec_pointer_app(g) == if g == gesture {
                Some(bv)
            } else {
                old(self).spec_pointer_app(g)
            } by {}
    }

    /// Add a pointer gesture binding for a specific component kind.
    pub fn bind_pointer_component(&mut self, component: ComponentKind, gesture: PointerGesture, binding: PointerBinding)
        ensures
            forall|s: KeyStroke| #[trigger] final(self).spec_key_app(s) == old(self).spec_key_app(s),
            forall|k: ComponentKind, s: KeyStroke| #[trigger]
                final(self).spec_key_component(k, s) == old(self).spec_key_component(k, s),
            forall|g: PointerGesture| #[trigger] final(self).spec_pointer_app(g) == old(self).spec_pointer_app(g),
            forall|k: ComponentKind, g: PointerGesture| #[trigger]
                final(self).spec_pointer_component(k, g) == if k@ == component@ && g == gesture {
                    Some(binding@)
                } else {
                    old(self).spec_pointer_component(k, g)
                },
    {
        let ghost bv = binding@;
        self.pointer_component.insert((component, gesture), binding);
        assert forall|k: ComponentKind, g: PointerGesture| #[trigger]
            self.spec_pointer_component(k, g) == if k@ == component@ && g == gesture {
                Some(bv)
            } else {
                old(self).spec_pointer_component(k, g)
            } by {}
    }
}

} // verus!

verus! {

/// A component binding answers a key before the global table does: when
/// the focused component's kind binds the key, that binding is the result.
pub proof fn law_component_key_binding_wins(m: InputManager, key: KeyEvent, kind: ComponentKind, cmd: CommandView)
    requires
        m.spec_key_component(kind, stroke_of(key)) == Some(cmd),
    ensures
        m.spec_resolve_key(key, Some(kind)) == Some(cmd),
{
}

/// The global table answers every key the focused component's kind does
/// not bind, and every key when nothing is focused.
pub proof fn law_global_key_fallback(m: InputManager, key: KeyEvent, focused: Option<ComponentKind>)
    requires
        focused is None || m.spec_key_component(focused->0, stroke_of(key)) is None,
    ensures
        m.spec_resolve_key(key, focused) == m.spec_key_app(stroke_of(key)),
{
}

/// A `Fixed` pointer binding produces its event wherever the pointer is.
pub proof fn law_fixed_binding_ignores_position(m: InputManager, p: PointerEvent, hovered: Option<ComponentKind>, e: EventView)
    requires
        m.spec_pointer_binding(p.gesture, hovered) == Some(BindingView::Fixed(e)),
    ensures
        m.spec_resolve_pointer(p, hovered) == Some(CommandView::FocusedComponent(e)),
{
}

/// A `WithEvent` pointer binding forwards the full pointer event.
pub proof fn law_with_event_binding_forwards_pointer(m: InputManager, p: PointerEvent, hovered: Option<ComponentKind>)
    requires
        m.spec_pointer_binding(p.gesture, hovered) == Some(BindingView::WithEvent),
    ensures
        m.spec_resolve_pointer(p, hovered) == Some(CommandView::FocusedComponent(EventView::Mouse(p))),
{
}

/// A pointer event over no component uses the global table only.
pub proof fn law_pointer_outside_components_is_global(m: InputManager, g: PointerGesture)
    ensures
        m.spec_pointer_binding(g, None) == m.spec_pointer_app(g),
{
}

} // verus!
