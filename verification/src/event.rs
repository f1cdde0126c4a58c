//! Events routed to components.
//!
//! Every event a component can receive is one variant of [`Event`]; each
//! payload type implements [`EventPayload`], which is what
//! [`Event::downcast_ref`] and [`Event::downcast_to`] use to recover it.

use vstd::prelude::*;
use crate::command::{Direction2D, PointerEvent};
use crate::component::content::{ContentComponentEvent, ContentEventView};

verus! {

/// Keyboard navigation in a direction.
#[derive(Clone, Copy, Debug, PartialEq, Eq, Structural)]
pub struct MoveEvent(pub Direction2D);

/// Confirm / submit the current selection.
#[derive(Clone, Copy, Debug, PartialEq, Eq, Structural)]
pub struct Submit;

/// A pointer interaction (click, scroll, drag) with its coordinates.
#[derive(Clone, Copy, Debug, PartialEq, Eq, Structural)]
pub struct MouseEvent(pub PointerEvent);

/// The periodic timer tick.
#[derive(Clone, Copy, Debug, PartialEq, Eq, Structural)]
pub struct Tick;

/// An event routed to components.
#[derive(Debug)]
pub enum Event {
    Move(MoveEvent),
    Submit(Submit),
    Mouse(MouseEvent),
    Tick(Tick),
    Content(ContentComponentEvent),
}

/// The value of an event, with log lines as a sequence.
pub enum EventView {
    Move(Direction2D),
    Submit,
    Mouse(PointerEvent),
    Tick,
    Content(ContentEventView),
}

impl View for Event {
    type V = EventView;

    open spec fn view(&self) -> EventView {
        match self {
            Event::Move(m) => EventView::Move(m.0),
            Event::Submit(_) => EventView::Submit,
            Event::Mouse(m) => EventView::Mouse(m.0),
            Event::Tick(_) => EventView::Tick,
            Event::Content(c) => EventView::Content(c@),
        }
    }
}

/// A payload type that can be recovered from an [`Event`].
pub trait EventPayload: View + Sized {
    /// The payload an event of value `event` carries, if it is of this type.
    spec fn spec_extract(event: EventView) -> Option<Self::V>;

    /// Borrow the payload of `event`, if it is of this type.
    fn extract_ref(event: &Event) -> (r: Option<&Self>)
        ensures
            match r {
                Some(p) => Self::spec_extract(event@) == Some(p@),
                None => Self::spec_extract(event@) is None,
            },
    ;

    /// Take the payload out of `event`, or give the event back.
    fn extract(event: Event) -> (r: Result<Self, Event>)
        ensures
            match r {
                Ok(p) => Self::spec_extract(event@) == Some(p@),
                Err(e) => e@ == event@ && Self::spec_extract(event@) is None,
            },
    ;
}

impl View for MoveEvent {
    type V = Direction2D;

    open spec fn view(&self) -> Direction2D {
        self.0
    }
}

impl View for Submit {
    type V = ();

    open spec fn view(&self) -> () {
        ()
    }
}

impl View for MouseEvent {
    type V = PointerEvent;

    open spec fn view(&self) -> PointerEvent {
        self.0
    }
}

impl View for Tick {
    type V = ();

    open spec fn view(&self) -> () {
        ()
    }
}

impl EventPayload for MoveEvent {
    open spec fn spec_extract(event: EventView) -> Option<Direction2D> {
        match event {
            EventView::Move(d) => Some(d),
            _ => None,
        }
    }

    fn extract_ref(event: &Event) -> (r: Option<&MoveEvent>) {
        match event {
            Event::Move(m) => Some(m),
            _ => None,
        }
    }

    fn extract(event: Event) -> (r: Result<MoveEvent, Event>) {
        match event {
            Event::Move(m) => Ok(m),
            other => Err(other),
        }
    }
}

impl EventPayload for Submit {
    open spec fn spec_extract(event: EventView) -> Option<()> {
        match event {
            EventView::Submit => Some(()),
            _ => None,
        }
    }

    fn extract_ref(event: &Event) -> (r: Option<&Submit>) {
        match event {
            Event::Submit(s) => Some(s),
            _ => None,
        }
    }

    fn extract(event: Event) -> (r: Result<Submit, Event>) {
        match event {
            Event::Submit(s) => Ok(s),
            other => Err(other),
        }
    }
}

impl EventPayload for MouseEvent {
    open spec fn spec_extract(event: EventView) -> Option<PointerEvent> {
        match event {
            EventView::Mouse(p) => Some(p),
            _ => None,
        }
    }

    fn extract_ref(event: &Event) -> (r: Option<&MouseEvent>) {
        match event {
            Event::Mouse(m) => Some(m),
            _ => None,
        }
    }

    fn extract(event: Event) -> (r: Result<MouseEvent, Event>) {
        match event {
            Event::Mouse(m) => Ok(m),
            other => Err(other),
        }
    }
}

impl EventPayload for Tick {
    open spec fn spec_extract(event: EventView) -> Option<()> {
        match event {
            EventView::Tick => Some(()),
            _ => None,
        }
    }

    fn extract_ref(event: &Event) -> (r: Option<&Tick>) {
        match event {
            Event::Tick(t) => Some(t),
            _ => None,
        }
    }

    fn extract(event: Event) -> (r: Result<Tick, Event>) {
        match event {
            Event::Tick(t) => Ok(t),
            other => Err(other),
        }
    }
}

impl EventPayload for ContentComponentEvent {
    open spec fn spec_extract(event: EventView) -> Option<ContentEventView> {
        match event {
            EventView::Content(c) => Some(c),
            _ => None,
        }
    }

    fn extract_ref(event: &Event) -> (r: Option<&ContentComponentEvent>) {
        match event {
            Event::Content(c) => Some(c),
            _ => None,
        }
    }

    fn extract(event: Event) -> (r: Result<ContentComponentEvent, Event>) {
        match event {
            Event::Content(c) => Ok(c),
            other => Err(other),
        }
    }
}

/// A copy of a list of log lines.
pub fn clone_lines(lines: &Vec<String>) -> (r: Vec<String>)
    ensures
        r@ == lines@,
{
    let r = lines.clone();
    assert(r@ =~= lines@);
    r
}

impl Event {
    /// The event's type name (for enum payloads, `Type::Variant`).
    pub fn event_name(&self) -> (r: &'static str)
        ensures
            r@ == match self@ {
                EventView::Move(_) => "MoveEvent"@,
                EventView::Submit => "Submit"@,
                EventView::Mouse(_) => "MouseEvent"@,
                EventView::Tick => "Tick"@,
                EventView::Content(ContentEventView::ContentMode(_)) => "ContentComponentEvent::ContentMode"@,
                EventView::Content(ContentEventView::NewLogs(_)) => "ContentComponentEvent::NewLogs"@,
            },
    {
        match self {
            Event::Move(_) => "MoveEvent",
            Event::Submit(_) => "Submit",
            Event::Mouse(_) => "MouseEvent",
            Event::Tick(_) => "Tick",
            Event::Content(ContentComponentEvent::ContentMode(_)) => "ContentComponentEvent::ContentMode",
            Event::Content(ContentComponentEvent::NewLogs(_)) => "ContentComponentEvent::NewLogs",
        }
    }

    /// A copy of the event.
    pub fn box_clone(&self) -> (r: Event)
        ensures
            r@ == self@,
    {
        match self {
            Event::Move(m) => Event::Move(*m),
            Event::Submit(s) => Event::Submit(*s),
            Event::Mouse(m) => Event::Mouse(*m),
            Event::Tick(t) => Event::Tick(*t),
            Event::Content(ContentComponentEvent::ContentMode(mode)) => Event::Content(
                ContentComponentEvent::ContentMode(*mode),
            ),
            Event::Content(ContentComponentEvent::NewLogs(lines)) => Event::Content(
                ContentComponentEvent::NewLogs(clone_lines(lines)),
            ),
        }
    }

    /// Tries to borrow the event as payload type `T`.
    pub fn downcast_ref<T: EventPayload>(&self) -> (r: Option<&T>)
        ensures
            match r {
                Some(p) => T::spec_extract(self@) == Some(p@),
                None => T::spec_extract(self@) is None,
            },
    {
        T::extract_ref(self)
    }

    /// Tries to convert the event into payload type `T`, giving it back on failure.
    pub fn downcast_to<T: EventPayload>(self) -> (r: Result<T, Event>)
        ensures
            match r {
                Ok(p) => T::spec_extract(self@) == Some(p@),
                Err(e) => e@ == self@ && T::spec_extract(self@) is None,
            },
    {
        T::extract(self)
    }
}

} // verus!
