//! The component type of the built-in two-pane demo: either pane.

use vstd::prelude::*;
use crate::component::content::{ContentComponent, ContentModel};
use crate::component::sidebar::{SidebarComponent, SidebarModel};
use crate::component::{Component, ComponentKind, EventOutcome, OutcomeView, RenderContext};
use crate::event::{Event, EventView};
use crate::geometry::Rect;
use crate::layout::ComponentId;

verus! {

/// One of the demo's components.
pub enum DemoComponent {
    Sidebar(SidebarComponent),
    Content(ContentComponent),
}

/// The value of a [`DemoComponent`].
pub enum DemoModel {
    Sidebar(SidebarModel),
    Content(ContentModel),
}

impl View for DemoComponent {
    type V = DemoModel;

    open spec fn view(&self) -> DemoModel {
        match self {
            DemoComponent::Sidebar(s) => DemoModel::Sidebar(s@),
            DemoComponent::Content(c) => DemoModel::Content(c@),
        }
    }
}

impl Component for DemoComponent {
    open spec fn spec_id(m: DemoModel) -> ComponentId {
        match m {
            DemoModel::Sidebar(s) => SidebarComponent::spec_id(s),
            DemoModel::Content(c) => ContentComponent::spec_id(c),
        }
    }

    open spec fn spec_kind(m: DemoModel) -> Seq<char> {
        match m {
            DemoModel::Sidebar(s) => SidebarComponent::spec_kind(s),
            DemoModel::Content(c) => ContentComponent::spec_kind(c),
        }
    }

    open spec fn inv(m: DemoModel) -> bool {
        match m {
            DemoModel::Sidebar(s) => SidebarComponent::inv(s),
            DemoModel::Content(c) => ContentComponent::inv(c),
        }
    }

    open spec fn spec_on(m: DemoModel, event: EventView) -> (DemoModel, OutcomeView) {
        match m {
            DemoModel::Sidebar(s) => {
                let (s2, o) = SidebarComponent::spec_on(s, event);
                (DemoModel::Sidebar(s2), o)
            },
            DemoModel::Content(c) => {
                let (c2, o) = ContentComponent::spec_on(c, event);
                (DemoModel::Content(c2), o)
            },
        }
    }

    open spec fn spec_prepare(m: DemoModel, area: Rect, ctx: RenderContext) -> DemoModel {
        match m {
            DemoModel::Sidebar(s) => DemoModel::Sidebar(SidebarComponent::spec_prepare(s, area, ctx)),
            DemoModel::Content(c) => DemoModel::Content(ContentComponent::spec_prepare(c, area, ctx)),
        }
    }

    proof fn lemma_steps_preserve(m: DemoModel, event: EventView, area: Rect, ctx: RenderContext) {
        match m {
            DemoModel::Sidebar(s) => SidebarComponent::lemma_steps_preserve(s, event, area, ctx),
            DemoModel::Content(c) => ContentComponent::lemma_steps_preserve(c, event, area, ctx),
        }
    }

    fn id(&self) -> (r: ComponentId) {
        match self {
            DemoComponent::Sidebar(s) => s.id(),
            DemoComponent::Content(c) => c.id(),
        }
    }

    fn get_kind(&self) -> (r: ComponentKind) {
        match self {
            DemoComponent::Sidebar(s) => s.get_kind(),
            DemoComponent::Content(c) => c.get_kind(),
        }
    }

    fn on(&mut self, event: Event) -> (r: EventOutcome) {
        match self {
            DemoComponent::Sidebar(s) => s.on(event),
            DemoComponent::Content(c) => c.on(event),
        }
    }

    fn prepare_render(&mut self, area: Rect, ctx: RenderContext) {
        match self {
            DemoComponent::Sidebar(s) => s.prepare_render(area, ctx),
            DemoComponent::Content(c) => c.prepare_render(area, ctx),
        }
    }
}

} // verus!
