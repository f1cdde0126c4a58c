//! Commands and pointer types produced by the input layer.

use vstd::prelude::*;
use crate::geometry::{Rect, contains, sat_sub};
use crate::layout::ComponentId;
use crate::input::KeyModifiers;
use crate::event::{Event, EventView};

verus! {

/// A cardinal direction in 2D space, used for focus navigation and component events.
#[derive(Clone, Copy, Debug, PartialEq, Eq, Structural)]
pub enum Direction2D {
    Up,
    Down,
    Left,
    Right,
}

/// Top-level application commands that the UI layer bubbles up to the application.
#[derive(Clone, Copy, Debug, PartialEq, Eq, Structural)]
pub enum AppCommand {
    Quit,
    /// Ask the application to read the latest `amount` log lines and hand
    /// them to the component `origin`.
    FetchLogs { origin: ComponentId, amount: usize },
}

/// Commands that control which component has keyboard focus.
#[derive(Clone, Copy, Debug, PartialEq, Eq, Structural)]
pub enum FocusCommand {
    /// Move focus geometrically in the given direction.
    Move(Direction2D),
    /// Cycle focus to the next region in order.
    Next,
    /// Cycle focus to the previous region in order.
    Previous,
}

} // verus!

verus! {

/// A mouse button as the terminal reports it.
#[derive(Clone, Copy, Debug, PartialEq, Eq, Structural)]
pub enum MouseButton {
    Left,
    Right,
    Middle,
}

/// The kind of a terminal mouse event.
#[derive(Clone, Copy, Debug, PartialEq, Eq, Structural)]
pub enum MouseEventKind {
    Down(MouseButton),
    Up(MouseButton),
    Drag(MouseButton),
    Moved,
    ScrollDown,
    ScrollUp,
    ScrollLeft,
    ScrollRight,
}

/// A mouse event as the terminal reports it: kind and absolute cell.
#[derive(Clone, Copy, Debug, PartialEq, Eq, Structural)]
pub struct TerminalMouseEvent {
    pub kind: MouseEventKind,
    pub column: u16,
    pub row: u16,
    pub modifiers: KeyModifiers,
}

/// A mouse button.
#[derive(Clone, Copy, Debug, PartialEq, Eq, Structural, Hash)]
pub enum PointerButton {
    Left,
    Right,
    Middle,
}

/// A normalised mouse gesture, used as the key in pointer binding tables.
#[derive(Clone, Copy, Debug, PartialEq, Eq, Structural, Hash)]
pub enum PointerGesture {
    /// Button pressed.
    Down(PointerButton),
    /// Button released.
    Up(PointerButton),
    /// Button held while moving.
    Drag(PointerButton),
    /// Cursor moved (no button held).
    Moved,
    ScrollUp,
    ScrollDown,
    ScrollLeft,
    ScrollRight,
}

/// A pointer event with both global and component-local coordinates.
///
/// `local_x` / `local_y` are relative to the top-left corner of the
/// component rect the pointer was over, and `None` when it was over none.
#[derive(Clone, Copy, Debug, PartialEq, Eq, Structural)]
pub struct PointerEvent {
    /// The normalised gesture that triggered this event.
    pub gesture: PointerGesture,
    /// Absolute terminal column.
    pub x: u16,
    /// Absolute terminal row.
    pub y: u16,
    /// Column relative to the target component's rect, or `None` if outside.
    pub local_x: Option<u16>,
    /// Row relative to the target component's rect, or `None` if outside.
    pub local_y: Option<u16>,
}

impl PointerButton {
    /// The pointer button for a terminal mouse button.
    pub open spec fn spec_from_button(value: MouseButton) -> PointerButton {
        match value {
            MouseButton::Left => PointerButton::Left,
            MouseButton::Right => PointerButton::Right,
            MouseButton::Middle => PointerButton::Middle,
        }
    }
}

impl vstd::std_specs::convert::FromSpecImpl<MouseButton> for PointerButton {
    open spec fn obeys_from_spec() -> bool {
        true
    }

    open spec fn from_spec(v: MouseButton) -> PointerButton {
        PointerButton::spec_from_button(v)
    }
}

impl From<MouseButton> for PointerButton {
    fn from(value: MouseButton) -> (r: PointerButton) {
        match value {
            MouseButton::Left => PointerButton::Left,
            MouseButton::Right => PointerButton::Right,
            MouseButton::Middle => PointerButton::Middle,
        }
    }
}

impl PointerGesture {
    /// The gesture for a terminal mouse event kind.
    pub open spec fn spec_from_kind(value: MouseEventKind) -> PointerGesture {
        match value {
            MouseEventKind::Down(b) => PointerGesture::Down(PointerButton::spec_from_button(b)),
            MouseEventKind::Up(b) => PointerGesture::Up(PointerButton::spec_from_button(b)),
            MouseEventKind::Drag(b) => PointerGesture::Drag(PointerButton::spec_from_button(b)),
            MouseEventKind::Moved => PointerGesture::Moved,
            MouseEventKind::ScrollUp => PointerGesture::ScrollUp,
            MouseEventKind::ScrollDown => PointerGesture::ScrollDown,
            MouseEventKind::ScrollLeft => PointerGesture::ScrollLeft,
            MouseEventKind::ScrollRight => PointerGesture::ScrollRight,
        }
    }
}

impl vstd::std_specs::convert::FromSpecImpl<MouseEventKind> for PointerGesture {
    open spec fn obeys_from_spec() -> bool {
        true
    }

    open spec fn from_spec(v: MouseEventKind) -> PointerGesture {
        PointerGesture::spec_from_kind(v)
    }
}

impl From<MouseEventKind> for PointerGesture {
    fn from(value: MouseEventKind) -> (r: PointerGesture) {
        match value {
            MouseEventKind::Down(button) => PointerGesture::Down(PointerButton::from(button)),
            MouseEventKind::Up(button) => PointerGesture::Up(PointerButton::from(button)),
            MouseEventKind::Drag(button) => PointerGesture::Drag(PointerButton::from(button)),
            MouseEventKind::Moved => PointerGesture::Moved,
            MouseEventKind::ScrollUp => PointerGesture::ScrollUp,
            MouseEventKind::ScrollDown => PointerGesture::ScrollDown,
            MouseEventKind::ScrollLeft => PointerGesture::ScrollLeft,
            MouseEventKind::ScrollRight => PointerGesture::ScrollRight,
        }
    }
}

/// The pointer event for a terminal mouse event over `target`.
pub open spec fn spec_pointer_event(event: TerminalMouseEvent, target: Option<Rect>) -> PointerEvent {
    let inside = target is Some && target->0.spec_contains(event.column, event.row);
    PointerEvent {
        gesture: PointerGesture::spec_from_kind(event.kind),
        x: event.column,
        y: event.row,
        local_x: if inside {
            Some(sat_sub(event.column, target->0.x))
        } else {
            None
        },
        local_y: if inside {
            Some(sat_sub(event.row, target->0.y))
        } else {
            None
        },
    }
}

impl PointerEvent {
    /// Convert a terminal mouse event into a [`PointerEvent`]; when the cell
    /// falls within `target`, the local coordinates are relative to its corner.
    pub fn from_mouse_event(event: TerminalMouseEvent, target: Option<Rect>) -> (r: PointerEvent)
        ensures
            r == spec_pointer_event(event, target),
            r.x == event.column && r.y == event.row,
            match target {
                Some(rect) => if rect.x <= event.column < rect.spec_right() && rect.y <= event.row < rect.spec_bottom() {
                    &&& r.local_x == Some((event.column - rect.x) as u16)
                    &&& r.local_y == Some((event.row - rect.y) as u16)
                } else {
                    r.local_x is None && r.local_y is None
                },
                None => r.local_x is None && r.local_y is None,
            },
    {
        let gesture = PointerGesture::from(event.kind);
        let (local_x, local_y) = match target {
            Some(rect) => if contains(rect, event.column, event.row) {
                (Some(event.column.saturating_sub(rect.x)), Some(event.row.saturating_sub(rect.y)))
            } else {
                (None, None)
            },
            None => (None, None),
        };
        PointerEvent { gesture, x: event.column, y: event.row, local_x, local_y }
    }

    /// Whether a mouse event of `kind` moves keyboard focus to the clicked
    /// region: only a button press does.
    pub fn is_focus_event(kind: MouseEventKind) -> (r: bool)
        ensures
            r == kind is Down,
    {
        match kind {
            MouseEventKind::Down(_) => true,
            _ => false,
        }
    }
}

} // verus!

verus! {

/// Top-level command produced by the input layer and dispatched by the UI.
#[derive(Debug)]
pub enum Command {
    App(AppCommand),
    Focus(FocusCommand),
    /// Route the event to the focused (or pointer-targeted) component.
    FocusedComponent(Event),
    /// Send a copy of the event to every component.
    BroadCast(Event),
    /// Offer the event to the components in turn until one consumes it.
    BroadCastTillConsumed(Event),
}

/// The value of a [`Command`].
pub enum CommandView {
    App(AppCommand),
    Focus(FocusCommand),
    FocusedComponent(EventView),
    BroadCast(EventView),
    BroadCastTillConsumed(EventView),
}

impl View for Command {
    type V = CommandView;

    open spec fn view(&self) -> CommandView {
        match self {
            Command::App(c) => CommandView::App(*c),
            Command::Focus(c) => CommandView::Focus(*c),
            Command::FocusedComponent(e) => CommandView::FocusedComponent(e@),
            Command::BroadCast(e) => CommandView::BroadCast(e@),
            Command::BroadCastTillConsumed(e) => CommandView::BroadCastTillConsumed(e@),
        }
    }
}

impl Clone for Command {
    fn clone(&self) -> (r: Command)
        ensures
            r@ == self@,
    {
        match self {
            Command::App(c) => Command::App(*c),
            Command::Focus(c) => Command::Focus(*c),
            Command::FocusedComponent(e) => Command::FocusedComponent(e.box_clone()),
            Command::BroadCast(e) => Command::BroadCast(e.box_clone()),
            Command::BroadCastTillConsumed(e) => Command::BroadCastTillConsumed(e.box_clone()),
        }
    }
}

/// An action produced by the UI layer that the application must act on.
#[derive(Debug)]
pub enum UiAction {
    /// A command for the main application.
    App(AppCommand),
    /// An event to offer to the components until one consumes it.
    Response(Event),
}

/// The value of a [`UiAction`].
pub enum UiActionView {
    App(AppCommand),
    Response(EventView),
}

impl View for UiAction {
    type V = UiActionView;

    open spec fn view(&self) -> UiActionView {
        match self {
            UiAction::App(c) => UiActionView::App(*c),
            UiAction::Response(e) => UiActionView::Response(e@),
        }
    }
}

/// The values of a list of actions.
pub open spec fn actions_view(actions: Seq<UiAction>) -> Seq<UiActionView> {
    actions.map_values(|a: UiAction| a@)
}

/// Describes how a pointer gesture maps to a component event.
///
/// - `Fixed(event)`: always produces this event, whatever the pointer position.
/// - `WithEvent`: produces a `MouseEvent` with the full pointer data.
#[derive(Debug)]
pub enum PointerBinding {
    Fixed(Event),
    WithEvent,
}

/// The value of a [`PointerBinding`].
pub enum BindingView {
    Fixed(EventView),
    WithEvent,
}

impl View for PointerBinding {
    type V = BindingView;

    open spec fn view(&self) -> BindingView {
        match self {
            PointerBinding::Fixed(e) => BindingView::Fixed(e@),
            PointerBinding::WithEvent => BindingView::WithEvent,
        }
    }
}

impl Clone for PointerBinding {
    fn clone(&self) -> (r: PointerBinding)
        ensures
            r@ == self@,
    {
        match self {
            PointerBinding::Fixed(e) => PointerBinding::Fixed(e.box_clone()),
            PointerBinding::WithEvent => PointerBinding::WithEvent,
        }
    }
}

} // verus!

verus! {

/// A pointer event's local coordinates are the cell's offset from the
/// top-left corner of the target it falls in, so they lie within the
/// target's size; outside any target there are none.  The absolute cell is
/// kept as it is.
pub proof fn law_local_coordinates_are_relative(event: TerminalMouseEvent, rect: Rect)
    ensures
        ({
            let p = spec_pointer_event(event, Some(rect));
            &&& p.x == event.column && p.y == event.row
            &&& rect.x <= event.column < rect.spec_right() && rect.y <= event.row < rect.spec_bottom() ==> {
                &&& p.local_x is Some && p.local_y is Some
                &&& rect.x + p.local_x->0 == event.column
                &&& rect.y + p.local_y->0 == event.row
                &&& p.local_x->0 < rect.width
                &&& p.local_y->0 < rect.height
            }
            &&& !(rect.x <= event.column < rect.spec_right() && rect.y <= event.row < rect.spec_bottom()) ==> p.local_x is None
                && p.local_y is None
        }),
        spec_pointer_event(event, None).local_x is None,
        spec_pointer_event(event, None).local_y is None,
{
}

} // verus!
