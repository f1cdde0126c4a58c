//! Component trait and supporting types.
//!
//! Every UI pane is a [`Component`].  Components are registered with the UI
//! builder and placed in the layout tree via a layout leaf.

pub mod content;
pub mod demo;
pub mod registry;
pub mod sidebar;

use vstd::prelude::*;
use crate::command::{UiAction, UiActionView, actions_view};
use crate::event::{Event, EventView};
use crate::geometry::Rect;
use crate::layout::ComponentId;


pub use content::ContentComponent;
pub use registry::ComponentRegistry;
pub use sidebar::SidebarComponent;

verus! {

/// The type used to identify a component's kind (for input routing).
pub type ComponentKind = &'static str;

/// Data passed to a component when it is prepared for drawing.
#[derive(Clone, Copy, Debug, PartialEq, Eq, Structural)]
pub struct RenderContext {
    /// Whether this component's slot currently holds keyboard focus.
    pub focused: bool,
    /// The focus-region ID associated with this render slot.
    pub focus_id: ComponentId,
}

/// Returned by a component's `on` handler: whether the event was consumed.
#[derive(Debug)]
pub enum EventOutcome {
    /// The component did not handle this event.
    Ignored,
    /// The component handled the event and may have produced UI-level actions.
    Consumed(Vec<UiAction>),
}

/// The value of an [`EventOutcome`].
pub enum OutcomeView {
    Ignored,
    Consumed(Seq<UiActionView>),
}

impl View for EventOutcome {
    type V = OutcomeView;

    open spec fn view(&self) -> OutcomeView {
        match self {
            EventOutcome::Ignored => OutcomeView::Ignored,
            EventOutcome::Consumed(actions) => OutcomeView::Consumed(actions_view(actions@)),
        }
    }
}

/// A UI component: it has a unique instance ID and a kind string, reacts to
/// events, and prepares its drawing data for a given area.
///
/// The component's value (`Self::V`) is its model; every operation is
/// specified over it, and keeps the ID, the kind and the invariant.
pub trait Component: View + Sized {
    /// The instance ID of a component with model `m`.
    spec fn spec_id(m: Self::V) -> ComponentId;

    /// The kind of a component with model `m`.
    spec fn spec_kind(m: Self::V) -> Seq<char>;

    /// The component's invariant.
    spec fn inv(m: Self::V) -> bool;

    /// New model and outcome after handling `event`.
    spec fn spec_on(m: Self::V, event: EventView) -> (Self::V, OutcomeView);

    /// New model after preparing to draw into `area`.
    spec fn spec_prepare(m: Self::V, area: Rect, ctx: RenderContext) -> Self::V;

    /// Handling an event and preparing a frame keep the ID, the kind and the invariant.
    proof fn lemma_steps_preserve(m: Self::V, event: EventView, area: Rect, ctx: RenderContext)
        requires
            Self::inv(m),
        ensures
            Self::inv(Self::spec_on(m, event).0),
            Self::spec_id(Self::spec_on(m, event).0) == Self::spec_id(m),
            Self::spec_kind(Self::spec_on(m, event).0) == Self::spec_kind(m),
            Self::inv(Self::spec_prepare(m, area, ctx)),
            Self::spec_id(Self::spec_prepare(m, area, ctx)) == Self::spec_id(m),
            Self::spec_kind(Self::spec_prepare(m, area, ctx)) == Self::spec_kind(m),
    ;

    /// Returns this component's unique instance ID.
    fn id(&self) -> (r: ComponentId)
        ensures
            r == Self::spec_id(self@),
    ;

    /// Returns the string identifying the component type (used for input routing).
    fn get_kind(&self) -> (r: ComponentKind)
        ensures
            r@ == Self::spec_kind(self@),
    ;

    /// Handle an event routed by the input layer.
    fn on(&mut self, event: Event) -> (r: EventOutcome)
        requires
            Self::inv(old(self)@),
        ensures
            (final(self)@, r@) == Self::spec_on(old(self)@, event@),
    ;

    /// Compute what is drawn into `area` this frame.
    fn prepare_render(&mut self, area: Rect, ctx: RenderContext)
        requires
            Self::inv(old(self)@),
        ensures
            final(self)@ == Self::spec_prepare(old(self)@, area, ctx),
    ;
}

} // verus!
