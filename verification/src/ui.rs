//! Central UI coordinator.
//!
//! [`Ui`] ties together the layout tree, focus management, input resolution
//! and the component registry.  Every frame it recomputes the laid-out
//! regions, updates focus and prepares each component for drawing; incoming
//! key and mouse events are resolved to [`Command`]s and dispatched.

use vstd::prelude::*;
use crate::builder::{BuildError, BuildErrorView, UiBuilder};
use crate::command::{
    AppCommand, Command, CommandView, FocusCommand, PointerEvent, TerminalMouseEvent, UiAction, UiActionView, actions_view,
    spec_pointer_event,
};
use crate::component::demo::{DemoComponent, DemoModel};
use crate::component::registry::{
    has_id, index_of, lemma_same_ids, model_has_id, models_wf, outcome_actions, till_consumed_models, till_consumed_outcome,
};
use crate::component::{Component, ComponentKind, ComponentRegistry, ContentComponent, EventOutcome, OutcomeView, RenderContext, SidebarComponent};
use crate::event::{Event, EventView};
use crate::focus::{
    FocusManager, FocusRegion, component_for_focus, covers, cycle_target, focus_in, geometric_target, has_focus,
    cycle_start, reconciled_focus, unique_focus,
};
use crate::geometry::Rect;
use crate::input::{InputManager, KeyEvent, KeyStroke, default_key_app, default_key_component, default_pointer_component};
use crate::command::PointerGesture;
use crate::component::content::{ContentMode, ContentModel};
use crate::component::sidebar::SidebarModel;
use crate::widget::{ListRow, WidgetListState};
use crate::layout::{ComponentId, Constraint, Direction, LaidOutRegion, LayoutSpec, region_ids};
use crate::seq_search::{first_index, is_first, lemma_first_found, lemma_first_is_first};

verus! {

/// One region to draw this frame.
#[derive(Clone, Copy, Debug, PartialEq, Eq, Structural)]
pub struct RenderJob {
    /// The component that draws into `rect`.
    pub component: ComponentId,
    /// The focus identity of the region.
    pub focus: ComponentId,
    /// The region's area.
    pub rect: Rect,
    /// The region holds keyboard focus.
    pub focused: bool,
}

/// `(component, focus)` of each focus region.
pub open spec fn focus_region_ids(regions: Seq<FocusRegion>) -> Seq<(ComponentId, ComponentId)> {
    regions.map_values(|r: FocusRegion| (r.component, r.focus))
}

/// The focus regions of laid-out regions.
pub open spec fn to_focus_regions(regions: Seq<LaidOutRegion>) -> Seq<FocusRegion> {
    regions.map_values(|r: LaidOutRegion| FocusRegion { focus: r.focus, component: r.component, rect: r.rect })
}

/// The actions of one outcome.
pub open spec fn outcome_list(o: OutcomeView) -> Seq<UiActionView> {
    match o {
        OutcomeView::Ignored => Seq::empty(),
        OutcomeView::Consumed(a) => a,
    }
}

/// Models and actions after handing `event` to the component `target`.
pub open spec fn deliver<C: Component>(models: Seq<C::V>, target: Option<ComponentId>, event: EventView) -> (Seq<C::V>, Seq<UiActionView>) {
    match target {
        None => (models, Seq::empty()),
        Some(id) => match index_of::<C>(models, id) {
            None => (models, Seq::empty()),
            Some(i) => (
                models.update(i, C::spec_on(models[i], event).0),
                outcome_list(C::spec_on(models[i], event).1),
            ),
        },
    }
}

/// Models, focus and actions after dispatching `command`.
pub open spec fn spec_dispatch<C: Component>(
    models: Seq<C::V>,
    current: Option<ComponentId>,
    regions: Seq<FocusRegion>,
    command: CommandView,
) -> (Seq<C::V>, Option<ComponentId>, Seq<UiActionView>) {
    match command {
        CommandView::App(cmd) => (models, current, seq![UiActionView::App(cmd)]),
        CommandView::Focus(FocusCommand::Move(d)) => (models, geometric_target(current, regions, d), Seq::empty()),
        CommandView::Focus(FocusCommand::Next) => (models, cycle_target(current, regions, 1), Seq::empty()),
        CommandView::Focus(FocusCommand::Previous) => (models, cycle_target(current, regions, -1), Seq::empty()),
        CommandView::FocusedComponent(e) => {
            let (m, a) = deliver::<C>(models, component_for_focus(current, regions), e);
            (m, current, a)
        },
        CommandView::BroadCast(e) => (
            models.map_values(|m: C::V| C::spec_on(m, e).0),
            current,
            outcome_actions(models.map_values(|m: C::V| C::spec_on(m, e).1)),
        ),
        CommandView::BroadCastTillConsumed(e) => (
            till_consumed_models::<C>(models, e),
            current,
            outcome_list(till_consumed_outcome::<C>(models, e)),
        ),
    }
}

/// The kind of the component `id`.
pub open spec fn kind_of<C: Component>(models: Seq<C::V>, id: Option<ComponentId>) -> Option<Seq<char>> {
    match id {
        None => None,
        Some(id) => match index_of::<C>(models, id) {
            Some(i) => Some(C::spec_kind(models[i])),
            None => None,
        },
    }
}

/// A kind string with the characters `v`.
pub open spec fn canonical_kind(v: Seq<char>) -> ComponentKind {
    choose|k: ComponentKind| k@ == v
}

/// Kind strings for optional kind characters.
pub open spec fn canonical(v: Option<Seq<char>>) -> Option<ComponentKind> {
    match v {
        Some(v) => Some(canonical_kind(v)),
        None => None,
    }
}

/// The region under the mouse, if any.
pub open spec fn mouse_hit(regions: Seq<FocusRegion>, mouse: TerminalMouseEvent) -> Option<FocusRegion> {
    match first_index(regions, covers(mouse.column, mouse.row)) {
        Some(i) => Some(regions[i]),
        None => None,
    }
}

/// Focus after a mouse event: a button press over a region focuses it.
pub open spec fn mouse_focus(current: Option<ComponentId>, regions: Seq<FocusRegion>, mouse: TerminalMouseEvent) -> Option<ComponentId> {
    if mouse_hit(regions, mouse) is Some && mouse.kind is Down {
        Some(mouse_hit(regions, mouse)->0.focus)
    } else {
        current
    }
}

/// The pointer event built from a mouse event.
pub open spec fn mouse_pointer(regions: Seq<FocusRegion>, mouse: TerminalMouseEvent) -> PointerEvent {
    spec_pointer_event(
        mouse,
        match mouse_hit(regions, mouse) {
            Some(r) => Some(r.rect),
            None => None,
        },
    )
}

/// Models, focus and actions after a key event.
pub open spec fn key_outcome<C: Component>(
    models: Seq<C::V>,
    current: Option<ComponentId>,
    regions: Seq<FocusRegion>,
    input: InputManager,
    key: KeyEvent,
) -> (Seq<C::V>, Option<ComponentId>, Seq<UiActionView>) {
    match input.spec_resolve_key(key, canonical(kind_of::<C>(models, component_for_focus(current, regions)))) {
        None => (models, current, Seq::empty()),
        Some(cmd) => spec_dispatch::<C>(models, current, regions, cmd),
    }
}

/// Models, focus and actions after a mouse event.
pub open spec fn mouse_outcome<C: Component>(
    models: Seq<C::V>,
    current: Option<ComponentId>,
    regions: Seq<FocusRegion>,
    input: InputManager,
    mouse: TerminalMouseEvent,
) -> (Seq<C::V>, Option<ComponentId>, Seq<UiActionView>) {
    let current1 = mouse_focus(current, regions, mouse);
    let hovered = match mouse_hit(regions, mouse) {
        Some(region) => kind_of::<C>(models, Some(region.component)),
        None => None,
    };
    match input.spec_resolve_pointer(mouse_pointer(regions, mouse), canonical(hovered)) {
        None => (models, current1, Seq::empty()),
        Some(CommandView::FocusedComponent(e)) => {
            let (m, a) = deliver::<C>(models, pointer_target(current1, regions, mouse), e);
            (m, current1, a)
        },
        Some(cmd) => spec_dispatch::<C>(models, current1, regions, cmd),
    }
}

/// The component a pointer-bound event goes to: the one under the pointer,
/// or the focused one when the pointer is over no region.
pub open spec fn pointer_target(current: Option<ComponentId>, regions: Seq<FocusRegion>, mouse: TerminalMouseEvent) -> Option<ComponentId> {
    match mouse_hit(regions, mouse) {
        Some(r) => Some(r.component),
        None => component_for_focus(current, regions),
    }
}

/// Models after preparing each region, in order, for drawing.
pub open spec fn prepare_fold<C: Component>(models: Seq<C::V>, regions: Seq<LaidOutRegion>, current: Option<ComponentId>) -> Seq<C::V>
    decreases regions.len(),
{
    if regions.len() == 0 {
        models
    } else {
        let ms = prepare_fold::<C>(models, regions.drop_last(), current);
        let r = regions.last();
        match index_of::<C>(ms, r.component) {
            Some(i) => ms.update(
                i,
                C::spec_prepare(ms[i], r.rect, RenderContext { focused: current == Some(r.focus), focus_id: r.focus }),
            ),
            None => ms,
        }
    }
}

/// The regions of drawing jobs.
pub open spec fn job_regions(jobs: Seq<RenderJob>) -> Seq<LaidOutRegion> {
    jobs.map_values(|j: RenderJob| LaidOutRegion { component: j.component, focus: j.focus, rect: j.rect })
}

/// The drawing jobs of laid-out regions.
pub open spec fn render_jobs(regions: Seq<LaidOutRegion>, current: Option<ComponentId>) -> Seq<RenderJob> {
    regions.map_values(
        |r: LaidOutRegion|
            RenderJob { component: r.component, focus: r.focus, rect: r.rect, focused: current == Some(r.focus) },
    )
}

/// The full UI: layout, focus, input bindings and component instances.
///
/// Construct via [`Ui::builder`] (validated) or [`Ui::default_ui`] (the
/// built-in two-pane demo).
pub struct Ui<C> {
    layout: LayoutSpec,
    components: ComponentRegistry<C>,
    focus: FocusManager,
    input: InputManager,
}

impl<C: Component> Ui<C> {
    /// The layout tree.
    pub closed spec fn spec_layout(&self) -> LayoutSpec {
        self.layout
    }

    /// The component models, in registration order.
    pub closed spec fn spec_models(&self) -> Seq<C::V> {
        self.components.spec_models()
    }

    /// The focused focus ID.
    pub closed spec fn spec_current(&self) -> Option<ComponentId> {
        self.focus.spec_current()
    }

    /// The focus regions of the last frame.
    pub closed spec fn spec_regions(&self) -> Seq<FocusRegion> {
        self.focus.spec_regions()
    }

    /// The input bindings.
    pub closed spec fn spec_input(&self) -> InputManager {
        self.input
    }

    /// The UI is consistent: components are well formed, every leaf's
    /// component is registered, focus IDs are unique, and the regions of the
    /// last frame (if any) are the layout's leaves.
    pub open spec fn wf(&self) -> bool {
        let leaves = self.spec_layout().spec_leaves();
        &&& models_wf::<C>(self.spec_models())
        &&& forall|i: int| 0 <= i < leaves.len() ==> has_id::<C>(self.spec_models(), (#[trigger] leaves[i]).0)
        &&& forall|a: int, b: int|
            0 <= a < leaves.len() && 0 <= b < leaves.len() && a != b ==> (#[trigger] leaves[a]).1 != (#[trigger] leaves[b]).1
        &&& self.spec_regions().len() == 0 || focus_region_ids(self.spec_regions()) == leaves
    }

    /// Return a fresh, empty [`UiBuilder`].
    pub fn builder() -> (r: UiBuilder<C>)
        ensures
            r.spec_layout() is None,
            r.spec_models() == Seq::<C::V>::empty(),
            r.spec_initial_focus() is None,
            r.spec_input() is None,
            models_wf::<C>(r.spec_models()),
    {
        UiBuilder::new()
    }

    /// Construct a `Ui` directly from its parts (used by the builder).
    pub(crate) fn from_parts(layout: LayoutSpec, components: ComponentRegistry<C>, focus: FocusManager, input: InputManager) -> (r: Ui<C>)
        ensures
            r.spec_layout() == layout,
            r.spec_models() == components.spec_models(),
            r.spec_current() == focus.spec_current(),
            r.spec_regions() == focus.spec_regions(),
            r.spec_input() == input,
    {
        Ui { layout, components, focus, input }
    }

    /// The component with `id`, if present.
    pub fn component(&self, id: &ComponentId) -> (r: Option<&C>)
        ensures
            match r {
                Some(c) => index_of::<C>(self.spec_models(), *id) is Some && c@ == self.spec_models()[index_of::<C>(
                    self.spec_models(),
                    *id,
                )->0],
                None => index_of::<C>(self.spec_models(), *id) is None,
            },
    {
        self.components.get(id)
    }

    /// The focus manager.
    pub fn focus(&self) -> (r: &FocusManager)
        ensures
            r.spec_current() == self.spec_current(),
            r.spec_regions() == self.spec_regions(),
    {
        &self.focus
    }

    /// Recompute the layout for `area`, update the focus regions, and prepare
    /// every component for drawing; returns the regions to draw, in layout order.
    pub fn render(&mut self, area: Rect) -> (jobs: Vec<RenderJob>)
        requires
            old(self).wf(),
        ensures
            final(self).wf(),
            final(self).spec_layout() == old(self).spec_layout(),
            final(self).spec_input() == old(self).spec_input(),
            old(self).spec_layout().tiles(area, job_regions(jobs@)),
            old(self).spec_layout().lays_out(area, job_regions(jobs@)),
            final(self).spec_regions() == to_focus_regions(job_regions(jobs@)),
            final(self).spec_current() == reconciled_focus(old(self).spec_current(), to_focus_regions(job_regions(jobs@))),
            final(self).spec_models() == prepare_fold::<C>(old(self).spec_models(), job_regions(jobs@), final(self).spec_current()),
            jobs@ == render_jobs(job_regions(jobs@), final(self).spec_current()),
            forall|i: int| 0 <= i < jobs@.len() ==> (#[trigger] jobs@[i]).focused == (final(self).spec_current() == Some(
                jobs@[i].focus,
            )),
    {
        let regions = self.layout.compute(area);
        self.update_focus_regions(&regions);
        let current = self.focus.current();
        let ghost models0 = self.spec_models();
        let mut jobs: Vec<RenderJob> = Vec::new();
        let mut i: usize = 0;
        while i < regions.len()
            invariant
                i <= regions.len(),
                self.wf(),
                self.spec_layout() == old(self).spec_layout(),
                self.spec_input() == old(self).spec_input(),
                self.spec_regions() == to_focus_regions(regions@),
                self.spec_current() == current,
                old(self).spec_layout().lays_out(area, regions@),
                old(self).spec_layout().tiles(area, regions@),
                models0.len() == self.spec_models().len(),
                forall|j: int| 0 <= j < models0.len() ==> C::spec_id(#[trigger] self.spec_models()[j]) == C::spec_id(models0[j]),
                self.spec_models() == prepare_fold::<C>(models0, regions@.take(i as int), current),
                jobs@ == render_jobs(regions@.take(i as int), current),
            decreases regions.len() - i,
        {
            let region = regions[i];
            let focused = match current {
                Some(c) => c == region.focus,
                None => false,
            };
            let ctx = RenderContext { focused, focus_id: region.focus };
            let ghost before = self.spec_models();
            self.components.render(&region.component, region.rect, ctx);
            proof {
                assert(regions@.take(i + 1).drop_last() =~= regions@.take(i as int));
                match index_of::<C>(before, region.component) {
                    Some(k) => {
                        lemma_first_is_first(before, model_has_id::<C>(region.component));
                        C::lemma_steps_preserve(before[k], EventView::Tick, region.rect, ctx);
                    },
                    None => {},
                }
                lemma_same_ids::<C>(before, self.spec_models());
            }
            jobs.push(RenderJob { component: region.component, focus: region.focus, rect: region.rect, focused });
            assert(render_jobs(regions@.take(i + 1), current) =~= render_jobs(regions@.take(i as int), current).push(
                RenderJob { component: region.component, focus: region.focus, rect: region.rect, focused },
            ));
            i = i + 1;
        }
        proof {
            assert(regions@.take(regions@.len() as int) =~= regions@);
            lemma_same_ids::<C>(models0, self.spec_models());
            assert(job_regions(jobs@) =~= regions@);
        }
        jobs
    }

    /// Resolve a key event to a [`Command`] (through the focused component's
    /// kind) and dispatch it; returns the actions the application must act on.
    pub fn handle_key_event(&mut self, key: KeyEvent) -> (r: Vec<UiAction>)
        requires
            old(self).wf(),
        ensures
            final(self).wf(),
            final(self).spec_layout() == old(self).spec_layout(),
            final(self).spec_input() == old(self).spec_input(),
            final(self).spec_regions() == old(self).spec_regions(),
            (final(self).spec_models(), final(self).spec_current(), actions_view(r@)) == key_outcome::<C>(
                old(self).spec_models(),
                old(self).spec_current(),
                old(self).spec_regions(),
                old(self).spec_input(),
                key,
            ),
    {
        let kind = self.get_focused_kind();
        proof {
            self.lemma_canonical(kind);
        }
        let command = match self.input.resolve_key(key, kind) {
            Some(c) => c,
            None => {
                let r: Vec<UiAction> = Vec::new();
                assert(actions_view(r@) =~= Seq::<UiActionView>::empty());
                return r;
            },
        };
        self.dispatch(command)
    }

    /// Resolve a mouse event and dispatch it.
    ///
    /// A button press over a region first moves focus there.  The region
    /// under the pointer determines the component kind used to resolve the
    /// pointer binding and the local coordinates of the pointer event, and
    /// its component receives a pointer-bound component event (the focused
    /// component does when the pointer is over no region).
    pub fn handle_mouse_event(&mut self, mouse: TerminalMouseEvent) -> (r: Vec<UiAction>)
        requires
            old(self).wf(),
        ensures
            final(self).wf(),
            final(self).spec_layout() == old(self).spec_layout(),
            final(self).spec_input() == old(self).spec_input(),
            final(self).spec_regions() == old(self).spec_regions(),
            (final(self).spec_models(), final(self).spec_current(), actions_view(r@)) == mouse_outcome::<C>(
                old(self).spec_models(),
                old(self).spec_current(),
                old(self).spec_regions(),
                old(self).spec_input(),
                mouse,
            ),
    {
        let hit: Option<FocusRegion> = match self.focus.region_at(mouse.column, mouse.row) {
            Some(region) => Some(*region),
            None => None,
        };
        proof {
            match first_index(self.spec_regions(), covers(mouse.column, mouse.row)) {
                Some(i) => {
                    lemma_first_is_first(self.spec_regions(), covers(mouse.column, mouse.row));
                },
                None => {},
            }
        }
        if let Some(region) = hit {
            if PointerEvent::is_focus_event(mouse.kind) {
                proof {
                    let i = first_index(self.spec_regions(), covers(mouse.column, mouse.row))->0;
                    assert(self.spec_regions()[i].focus == region.focus);
                    assert(focus_in(self.spec_regions(), region.focus));
                }
                self.focus.set_current(region.focus);
            }
        }
        let target = match hit {
            Some(region) => Some(region.rect),
            None => None,
        };
        let pointer = PointerEvent::from_mouse_event(mouse, target);
        let hovered = self.get_hovered_kind(hit);
        proof {
            self.lemma_canonical(hovered);
        }
        let command = match self.input.resolve_pointer(pointer, hovered) {
            Some(c) => c,
            None => {
                let r: Vec<UiAction> = Vec::new();
                assert(actions_view(r@) =~= Seq::<UiActionView>::empty());
                return r;
            },
        };
        match command {
            Command::FocusedComponent(event) => match hit {
                Some(region) => self.dispatch_event_for_component(region.component, event),
                None => self.dispatch_to_focused_component(event),
            },
            other => self.dispatch(other),
        }
    }

    /// Dispatch a resolved [`Command`] to the sub-system it addresses.
    pub fn dispatch(&mut self, command: Command) -> (r: Vec<UiAction>)
        requires
            old(self).wf(),
        ensures
            final(self).wf(),
            final(self).spec_layout() == old(self).spec_layout(),
            final(self).spec_input() == old(self).spec_input(),
            final(self).spec_regions() == old(self).spec_regions(),
            (final(self).spec_models(), final(self).spec_current(), actions_view(r@)) == spec_dispatch::<C>(
                old(self).spec_models(),
                old(self).spec_current(),
                old(self).spec_regions(),
                command@,
            ),
    {
        match command {
            Command::App(cmd) => {
                let r = vec![UiAction::App(cmd)];
                assert(actions_view(r@) =~= seq![UiActionView::App(cmd)]);
                r
            },
            Command::Focus(FocusCommand::Move(dir)) => {
                self.focus.move_geometric(dir);
                let r: Vec<UiAction> = Vec::new();
                assert(actions_view(r@) =~= Seq::<UiActionView>::empty());
                r
            },
            Command::Focus(FocusCommand::Next) => {
                self.focus.next();
                let r: Vec<UiAction> = Vec::new();
                assert(actions_view(r@) =~= Seq::<UiActionView>::empty());
                r
            },
            Command::Focus(FocusCommand::Previous) => {
                self.focus.previous();
                let r: Vec<UiAction> = Vec::new();
                assert(actions_view(r@) =~= Seq::<UiActionView>::empty());
                r
            },
            Command::FocusedComponent(event) => self.dispatch_to_focused_component(event),
            Command::BroadCast(event) => {
                let ghost models = self.spec_models();
                let outcomes = self.components.on_broad_cast(&event);
                proof {
                    assert forall|j: int| 0 <= j < models.len() implies C::spec_id(#[trigger] self.spec_models()[j]) == C::spec_id(models[j]) by {
                        C::lemma_steps_preserve(models[j], event@, Rect { x: 0, y: 0, width: 0, height: 0 }, RenderContext { focused: false, focus_id: ComponentId(0) });
                    }
                    lemma_same_ids::<C>(models, self.spec_models());
                }
                collect_actions(outcomes)
            },
            Command::BroadCastTillConsumed(event) => {
                let ghost models = self.spec_models();
                let outcome = self.components.on_till_consumed(&event);
                proof {
                    assert forall|j: int| 0 <= j < models.len() implies C::spec_id(#[trigger] self.spec_models()[j]) == C::spec_id(models[j]) by {
                        C::lemma_steps_preserve(models[j], event@, Rect { x: 0, y: 0, width: 0, height: 0 }, RenderContext { focused: false, focus_id: ComponentId(0) });
                    }
                    lemma_same_ids::<C>(models, self.spec_models());
                }
                outcome_into_actions(outcome)
            },
        }
    }

    /// Route an event to the component of the focused region.
    pub fn dispatch_to_focused_component(&mut self, event: Event) -> (r: Vec<UiAction>)
        requires
            old(self).wf(),
        ensures
            final(self).wf(),
            final(self).spec_layout() == old(self).spec_layout(),
            final(self).spec_input() == old(self).spec_input(),
            final(self).spec_regions() == old(self).spec_regions(),
            final(self).spec_current() == old(self).spec_current(),
            (final(self).spec_models(), actions_view(r@)) == deliver::<C>(
                old(self).spec_models(),
                component_for_focus(old(self).spec_current(), old(self).spec_regions()),
                event@,
            ),
    {
        let id = match self.focus.focused_component() {
            Some(id) => id,
            None => {
                let r: Vec<UiAction> = Vec::new();
                assert(actions_view(r@) =~= Seq::<UiActionView>::empty());
                return r;
            },
        };
        self.dispatch_event_for_component(id, event)
    }

    /// Hand an event to the component `id`; returns its actions (none when
    /// there is no such component or it ignores the event).
    pub fn dispatch_event_for_component(&mut self, id: ComponentId, event: Event) -> (r: Vec<UiAction>)
        requires
            old(self).wf(),
        ensures
            final(self).wf(),
            final(self).spec_layout() == old(self).spec_layout(),
            final(self).spec_input() == old(self).spec_input(),
            final(self).spec_regions() == old(self).spec_regions(),
            final(self).spec_current() == old(self).spec_current(),
            (final(self).spec_models(), actions_view(r@)) == deliver::<C>(old(self).spec_models(), Some(id), event@),
    {
        let ghost models = self.spec_models();
        let ghost ev = event@;
        let outcome = self.components.on(&id, event);
        proof {
            match index_of::<C>(models, id) {
                Some(i) => {
                    lemma_first_is_first(models, model_has_id::<C>(id));
                    C::lemma_steps_preserve(models[i], ev, Rect { x: 0, y: 0, width: 0, height: 0 }, RenderContext { focused: false, focus_id: ComponentId(0) });
                },
                None => {},
            }
            lemma_same_ids::<C>(models, self.spec_models());
        }
        outcome_into_actions(outcome)
    }

    fn get_focused_kind(&self) -> (r: Option<ComponentKind>)
        requires
            self.wf(),
        ensures
            match r {
                Some(k) => kind_of::<C>(self.spec_models(), component_for_focus(self.spec_current(), self.spec_regions()))
                    == Some(k@),
                None => kind_of::<C>(self.spec_models(), component_for_focus(self.spec_current(), self.spec_regions()))
                    is None,
            },
    {
        match self.focus.focused_component() {
            Some(id) => self.components.get_kind(&id),
            None => None,
        }
    }

    fn get_hovered_kind(&self, hit: Option<FocusRegion>) -> (r: Option<ComponentKind>)
        ensures
            match r {
                Some(k) => hit is Some && kind_of::<C>(self.spec_models(), Some(hit->0.component)) == Some(k@),
                None => hit is None || kind_of::<C>(self.spec_models(), Some(hit->0.component)) is None,
            },
    {
        match hit {
            Some(region) => self.components.get_kind(&region.component),
            None => None,
        }
    }

    proof fn lemma_canonical(&self, kind: Option<ComponentKind>)
        ensures
            match kind {
                Some(k) => canonical(Some(k@))->0@ == k@,
                None => true,
            },
            forall|key: KeyEvent| #[trigger] self.input.spec_resolve_key(key, kind) == self.input.spec_resolve_key(
                key,
                canonical(match kind {
                    Some(k) => Some(k@),
                    None => None,
                }),
            ),
            forall|p: PointerEvent| #[trigger] self.input.spec_resolve_pointer(p, kind) == self.input.spec_resolve_pointer(
                p,
                canonical(match kind {
                    Some(k) => Some(k@),
                    None => None,
                }),
            ),
    {
        match kind {
            Some(k) => {
                let c = canonical_kind(k@);
                assert(c@ == k@);
                self.input.lemma_kind_by_view(k, c);
            },
            None => {},
        }
    }

    fn update_focus_regions(&mut self, regions: &Vec<LaidOutRegion>)
        requires
            old(self).wf(),
            region_ids(regions@) == old(self).spec_layout().spec_leaves(),
        ensures
            final(self).wf(),
            final(self).spec_layout() == old(self).spec_layout(),
            final(self).spec_input() == old(self).spec_input(),
            final(self).spec_models() == old(self).spec_models(),
            final(self).spec_regions() == to_focus_regions(regions@),
            final(self).spec_current() == reconciled_focus(old(self).spec_current(), to_focus_regions(regions@)),
    {
        let mut out: Vec<FocusRegion> = Vec::new();
        let mut i: usize = 0;
        while i < regions.len()
            invariant
                i <= regions.len(),
                out@ == to_focus_regions(regions@.take(i as int)),
            decreases regions.len() - i,
        {
            let region = regions[i];
            out.push(FocusRegion { focus: region.focus, component: region.component, rect: region.rect });
            assert(to_focus_regions(regions@.take(i + 1)) =~= to_focus_regions(regions@.take(i as int)).push(
                FocusRegion { focus: region.focus, component: region.component, rect: region.rect },
            ));
            i = i + 1;
        }
        assert(regions@.take(regions@.len() as int) =~= regions@);
        assert(focus_region_ids(out@) =~= region_ids(regions@));
        self.focus.set_regions(out);
    }
}

/// The actions of one outcome, consuming it.
fn outcome_into_actions(outcome: EventOutcome) -> (r: Vec<UiAction>)
    ensures
        actions_view(r@) == outcome_list(outcome@),
{
    match outcome {
        EventOutcome::Ignored => {
            let r: Vec<UiAction> = Vec::new();
            assert(actions_view(r@) =~= Seq::<UiActionView>::empty());
            r
        },
        EventOutcome::Consumed(actions) => actions,
    }
}

/// The actions of all outcomes, in order, consuming them.
fn collect_actions(outcomes: Vec<EventOutcome>) -> (r: Vec<UiAction>)
    ensures
        actions_view(r@) == outcome_actions(outcomes@.map_values(|o: EventOutcome| o@)),
{
    let ghost all = outcomes@;
    let mut rest = outcomes;
    let mut out: Vec<UiAction> = Vec::new();
    let mut taken: usize = 0;
    assert(all.len() == rest.len());
    assert(rest@ =~= all.subrange(0, all.len() as int));
    while rest.len() > 0
        invariant
            all.len() <= usize::MAX,
            taken + rest@.len() == all.len(),
            rest@ == all.subrange(taken as int, all.len() as int),
            actions_view(out@) == outcome_actions(all.take(taken as int).map_values(|o: EventOutcome| o@)),
        decreases rest.len(),
    {
        let o = rest.remove(0);
        assert(o@ == all[taken as int]@);
        let mut acts = outcome_into_actions(o);
        let ghost before = out@;
        out.append(&mut acts);
        assert(all.take(taken + 1).map_values(|o: EventOutcome| o@).drop_last() =~= all.take(taken as int).map_values(|o: EventOutcome| o@));
        assert(actions_view(out@) =~= actions_view(before) + outcome_list(all[taken as int]@));
        taken = taken + 1;
        assert(rest@ =~= all.subrange(taken as int, all.len() as int));
    }
    assert(all.take(all.len() as int) =~= all);
    out
}

/// The demo layout around the sidebar `s` and the content pane `c`: the
/// two panes laid out side by side as a 28-column sidebar and a content pane
/// of at least 20 columns, with the sidebar focused, the default keymap, and
/// no frame drawn yet.
pub open spec fn is_demo_layout(ui: Ui<DemoComponent>, s: SidebarModel, c: ContentModel) -> bool {
    let sid = s.id;
    let cid = c.id;
    &&& ui.wf()
    &&& ui.spec_models() == seq![DemoModel::Sidebar(s), DemoModel::Content(c)]
    &&& ui.spec_current() == Some(sid)
    &&& ui.spec_regions() == Seq::<FocusRegion>::empty()
    &&& ui.spec_layout().spec_leaves() == seq![(sid, sid), (cid, cid)]
    &&& ui.spec_layout() matches LayoutSpec::Split { direction, children }
    &&& direction == Direction::Horizontal
    &&& children@ == seq![
        (Constraint::Length(28), LayoutSpec::Leaf { component: sid, focus: sid }),
        (Constraint::Min(20), LayoutSpec::Leaf { component: cid, focus: cid }),
    ]
    &&& forall|st: KeyStroke| #[trigger] ui.spec_input().spec_key_app(st) == default_key_app(st)
    &&& forall|k: ComponentKind, st: KeyStroke| #[trigger]
        ui.spec_input().spec_key_component(k, st) == default_key_component(k, st)
    &&& forall|g: PointerGesture| #[trigger] ui.spec_input().spec_pointer_app(g) is None
    &&& forall|k: ComponentKind, g: PointerGesture| #[trigger]
        ui.spec_input().spec_pointer_component(k, g) == default_pointer_component(k, g)
}

/// The built-in demo UI as it is built: the demo layout around a fresh
/// sidebar (first item selected) and a fresh content pane.
pub open spec fn is_demo_ui(ui: Ui<DemoComponent>) -> bool {
    &&& ui.spec_models().len() == 2
    &&& ui.spec_models()[0] matches DemoModel::Sidebar(s)
    &&& s.items == seq![ContentMode::Counter, ContentMode::Help, ContentMode::Logs]
    &&& s.state == WidgetListState::default_state().after_select(Some(0))
    &&& ui.spec_models()[1] matches DemoModel::Content(c)
    &&& c.counter == 0
    &&& c.last_click is None
    &&& c.mode == ContentMode::Logs
    &&& c.list_state is None
    &&& c.log_entries == 400
    &&& c.logs is None
    &&& c.rows == Seq::<ListRow>::empty()
    &&& is_demo_layout(ui, s, c)
}

impl Ui<DemoComponent> {
    /// Build the built-in two-pane demo UI from a fresh sidebar and a fresh
    /// content pane (see [`demo_ui`](Self::demo_ui)).  It fails only when the
    /// two freshly generated component IDs coincide.
    pub fn default_ui() -> (r: Result<Ui<DemoComponent>, BuildError>)
        ensures
            match r {
                Ok(ui) => is_demo_ui(ui),
                Err(e) => e@ is DuplicateFocus,
            },
    {
        let sidebar_component = SidebarComponent::new();
        let content_component = ContentComponent::new();
        Self::demo_ui(sidebar_component, content_component)
    }

    /// Build the demo UI around `sidebar_component` and `content_component`:
    /// a 28-column sidebar and a content pane of at least 20 columns, side by
    /// side, with the sidebar focused.  It succeeds exactly when the two
    /// components have different IDs; otherwise the second leaf repeats the
    /// focus ID of the first.
    pub fn demo_ui(sidebar_component: SidebarComponent, content_component: ContentComponent) -> (r: Result<
        Ui<DemoComponent>,
        BuildError,
    >)
        requires
            SidebarComponent::inv(sidebar_component@),
        ensures
            r is Ok <==> sidebar_component@.id != content_component@.id,
            r matches Ok(ui) ==> is_demo_layout(ui, sidebar_component@, content_component@),
            r matches Err(e) ==> e@ == BuildErrorView::DuplicateFocus(content_component@.id),
    {
        let sid = sidebar_component.id();
        let cid = content_component.id();
        let first = (Constraint::Length(28), LayoutSpec::leaf(sid));
        let second = (Constraint::Min(20), LayoutSpec::leaf(cid));
        let ghost f = first;
        let ghost g = second;
        let mut children: Vec<(Constraint, LayoutSpec)> = Vec::new();
        children.push(first);
        children.push(second);
        proof {
            let cs = children@;
            assert(cs =~= seq![f, g]);
            assert(cs.drop_last() =~= seq![f]);
            assert(cs.drop_last().drop_last() =~= Seq::<(Constraint, LayoutSpec)>::empty());
            assert(LayoutSpec::leaves_of(cs.drop_last().drop_last()) =~= Seq::empty());
            assert(f.1.spec_leaves() =~= seq![(sid, sid)]);
            assert(g.1.spec_leaves() =~= seq![(cid, cid)]);
            assert(LayoutSpec::leaves_of(cs.drop_last()) =~= seq![(sid, sid)]);
            assert(LayoutSpec::leaves_of(cs) =~= seq![(sid, sid), (cid, cid)]);
        }
        let layout = LayoutSpec::split(Direction::Horizontal, children);
        assert(layout.spec_leaves() =~= seq![(sid, sid), (cid, cid)]);
        let ghost lv = layout.spec_leaves();
        let b = Self::builder().initial_focus(sid).layout(layout);
        let s = DemoComponent::Sidebar(sidebar_component);
        let c = DemoComponent::Content(content_component);
        let ghost sm = s@;
        let ghost cm = c@;
        proof {
            crate::seq_search::lemma_first_none(Seq::<DemoModel>::empty(), model_has_id::<DemoComponent>(sid));
        }
        let b = b.component(s);
        assert(b.spec_models() =~= seq![sm]);
        proof {
            if sid != cid {
                crate::seq_search::lemma_first_none(seq![sm], model_has_id::<DemoComponent>(cid));
            } else {
                assert(crate::seq_search::is_first(seq![sm], model_has_id::<DemoComponent>(cid), 0));
                crate::seq_search::lemma_first_found(seq![sm], model_has_id::<DemoComponent>(cid), 0);
            }
        }
        let b = b.component(c);
        proof {
            let ids = crate::component::registry::model_ids::<DemoComponent>(b.spec_models());
            if sid != cid {
                assert(b.spec_models() =~= seq![sm, cm]);
                assert(ids =~= seq![sid, cid]);
                assert(ids[0] == sid && ids[1] == cid);
                assert forall|j: int| 0 <= j < crate::builder::positions(lv.len()).len() implies !crate::builder::bad_leaf(lv, ids)(
                    #[trigger] crate::builder::positions(lv.len())[j],
                ) by {
                    assert(ids.contains(lv[j].0));
                }
                crate::seq_search::lemma_first_none(crate::builder::positions(lv.len()), crate::builder::bad_leaf(lv, ids));
                assert(crate::builder::leaf_focuses(lv)[0] == sid);
                assert(crate::builder::leaf_components(lv) =~= seq![sid, cid]);
                reveal_with_fuel(Seq::filter, 3);
                assert(crate::builder::unused_ids(ids, lv) =~= Seq::<ComponentId>::empty());
            } else {
                assert(b.spec_models() =~= seq![cm]);
                assert(ids =~= seq![cid]);
                assert(ids[0] == cid);
                assert(!crate::builder::leaf_is_bad(lv, ids, 0));
                assert(lv[0].1 == lv[1].1);
                assert(crate::builder::leaf_is_bad(lv, ids, 1));
                assert(crate::seq_search::is_first(crate::builder::positions(lv.len()), crate::builder::bad_leaf(lv, ids), 1));
                crate::seq_search::lemma_first_found(crate::builder::positions(lv.len()), crate::builder::bad_leaf(lv, ids), 1);
            }
        }
        b.build()
    }
}

} // verus!

verus! {

/// Tab and Shift-Tab walk the focus slots in layout order. `Next` moves focus
/// one slot forward and `Previous` one slot back, wrapping at the ends; with
/// focus on the slot at position `i` that is the slot after `i` (the first
/// after the last) and the slot before `i` (the last before the first).
/// Neither touches the components or emits actions.
pub proof fn law_focus_commands_cycle<C: Component>(models: Seq<C::V>, regions: Seq<FocusRegion>, i: int)
    requires
        unique_focus(regions),
        0 <= i < regions.len(),
    ensures
        forall|current: Option<ComponentId>|
            #![trigger spec_dispatch::<C>(models, current, regions, CommandView::Focus(FocusCommand::Next))]
            spec_dispatch::<C>(models, current, regions, CommandView::Focus(FocusCommand::Next)).1
                == cycle_target(current, regions, 1),
        forall|current: Option<ComponentId>|
            #![trigger spec_dispatch::<C>(models, current, regions, CommandView::Focus(FocusCommand::Previous))]
            spec_dispatch::<C>(models, current, regions, CommandView::Focus(FocusCommand::Previous)).1
                == cycle_target(current, regions, -1),
        spec_dispatch::<C>(models, Some(regions[i].focus), regions, CommandView::Focus(FocusCommand::Next)) == (
            models,
            Some(regions[if i + 1 < regions.len() { i + 1 } else { 0 }].focus),
            Seq::<UiActionView>::empty(),
        ),
        spec_dispatch::<C>(models, Some(regions[i].focus), regions, CommandView::Focus(FocusCommand::Previous)) == (
            models,
            Some(regions[if i > 0 { i - 1 } else { regions.len() - 1 }].focus),
            Seq::<UiActionView>::empty(),
        ),
{
    let n = regions.len() as int;
    let c = regions[i].focus;
    let f = if i + 1 < n { i + 1 } else { 0 };
    let b = if i > 0 { i - 1 } else { n - 1 };
    assert(cycle_start(Some(c), regions) == i) by {
        assert(is_first(regions, has_focus(c), i));
        lemma_first_found(regions, has_focus(c), i);
    }
    assert((i + 1) % n == f) by {
        if i + 1 == n {
            vstd::arithmetic::div_mod::lemma_mod_self_0(n);
        } else {
            vstd::arithmetic::div_mod::lemma_small_mod((i + 1) as nat, n as nat);
        }
    }
    assert((i - 1) % n == b) by {
        if i == 0 {
            vstd::arithmetic::div_mod::lemma_mod_add_multiples_vanish(-1, n);
            vstd::arithmetic::div_mod::lemma_small_mod((n - 1) as nat, n as nat);
        } else {
            vstd::arithmetic::div_mod::lemma_small_mod((i - 1) as nat, n as nat);
        }
    }
    assert(cycle_target(Some(c), regions, 1) == Some(regions[f].focus));
    assert(cycle_target(Some(c), regions, -1) == Some(regions[b].focus));
}

/// The focus context a slot is prepared with: focused exactly when its focus
/// identity holds keyboard focus.
pub open spec fn slot_context(r: LaidOutRegion, current: Option<ComponentId>) -> RenderContext {
    RenderContext { focused: current == Some(r.focus), focus_id: r.focus }
}

proof fn lemma_prepare_keeps_ids<C: Component>(models: Seq<C::V>, regions: Seq<LaidOutRegion>, current: Option<ComponentId>)
    requires
        models_wf::<C>(models),
    ensures
        prepare_fold::<C>(models, regions, current).len() == models.len(),
        models_wf::<C>(prepare_fold::<C>(models, regions, current)),
        forall|i: int|
            0 <= i < models.len() ==> C::spec_id(#[trigger] prepare_fold::<C>(models, regions, current)[i])
                == C::spec_id(models[i]),
    decreases regions.len(),
{
    if regions.len() > 0 {
        let ms = prepare_fold::<C>(models, regions.drop_last(), current);
        lemma_prepare_keeps_ids::<C>(models, regions.drop_last(), current);
        let r = regions.last();
        let ctx = RenderContext { focused: current == Some(r.focus), focus_id: r.focus };
        match index_of::<C>(ms, r.component) {
            Some(i) => {
                lemma_first_is_first(ms, model_has_id::<C>(r.component));
                C::lemma_steps_preserve(ms[i], EventView::Tick, r.rect, ctx);
                let ns = ms.update(i, C::spec_prepare(ms[i], r.rect, ctx));
                assert(ns == prepare_fold::<C>(models, regions, current));
                assert forall|a: int| 0 <= a < ns.len() implies C::spec_id(#[trigger] ns[a]) == C::spec_id(ms[a]) by {}
            },
            None => {},
        }
    }
}

/// A component's model is only changed by the slots that show it.
proof fn lemma_prepare_untouched_after<C: Component>(
    models: Seq<C::V>,
    regions: Seq<LaidOutRegion>,
    current: Option<ComponentId>,
    j: int,
    m: int,
)
    requires
        models_wf::<C>(models),
        0 <= j < models.len(),
        0 <= m <= regions.len(),
        forall|l: int| m <= l < regions.len() ==> (#[trigger] regions[l]).component != C::spec_id(models[j]),
    ensures
        prepare_fold::<C>(models, regions, current)[j] == prepare_fold::<C>(models, regions.take(m), current)[j],
    decreases regions.len(),
{
    if regions.len() == m {
        assert(regions.take(m) =~= regions);
    } else {
        let ms = prepare_fold::<C>(models, regions.drop_last(), current);
        assert(regions.drop_last().take(m) =~= regions.take(m));
        lemma_prepare_untouched_after::<C>(models, regions.drop_last(), current, j, m);
        lemma_prepare_keeps_ids::<C>(models, regions.drop_last(), current);
        let r = regions.last();
        match index_of::<C>(ms, r.component) {
            Some(i) => {
                lemma_first_is_first(ms, model_has_id::<C>(r.component));
                assert(i != j);
            },
            None => {},
        }
    }
}

/// Each slot is prepared with its own focus state: the component shown last
/// in slot `k` gets the context `focused == (current == Some(slot focus))`,
/// applied to its model as the earlier slots left it; a component shown in
/// `k` alone is prepared once, from its model before the frame. This holds
/// also when one component is shown in several slots, each with its own
/// focus identity.
pub proof fn law_prepare_uses_slot_focus<C: Component>(
    models: Seq<C::V>,
    regions: Seq<LaidOutRegion>,
    current: Option<ComponentId>,
    k: int,
    j: int,
)
    requires
        models_wf::<C>(models),
        0 <= k < regions.len(),
        0 <= j < models.len(),
        C::spec_id(models[j]) == regions[k].component,
        forall|l: int| k < l < regions.len() ==> (#[trigger] regions[l]).component != regions[k].component,
    ensures
        slot_context(regions[k], current).focused == (current == Some(regions[k].focus)),
        prepare_fold::<C>(models, regions, current)[j] == C::spec_prepare(
            prepare_fold::<C>(models, regions.take(k), current)[j],
            regions[k].rect,
            slot_context(regions[k], current),
        ),
        (forall|l: int| 0 <= l < k ==> (#[trigger] regions[l]).component != regions[k].component) ==> prepare_fold::<C>(
            models,
            regions,
            current,
        )[j] == C::spec_prepare(models[j], regions[k].rect, slot_context(regions[k], current)),
{
    let id = regions[k].component;
    lemma_prepare_untouched_after::<C>(models, regions, current, j, k + 1);
    let pre = regions.take(k + 1);
    assert(pre.drop_last() =~= regions.take(k));
    assert(pre.last() == regions[k]);
    let ms = prepare_fold::<C>(models, regions.take(k), current);
    lemma_prepare_keeps_ids::<C>(models, regions.take(k), current);
    assert(is_first(ms, model_has_id::<C>(id), j));
    lemma_first_found(ms, model_has_id::<C>(id), j);
    if forall|l: int| 0 <= l < k ==> (#[trigger] regions[l]).component != regions[k].component {
        let tk = regions.take(k);
        assert forall|l: int| 0 <= l < tk.len() implies (#[trigger] tk[l]).component != C::spec_id(models[j]) by {
            assert(tk[l] == regions[l]);
        }
        lemma_prepare_untouched_after::<C>(models, tk, current, j, 0);
        assert(tk.take(0) =~= Seq::<LaidOutRegion>::empty());
    }
}

/// Click to focus: a button press over a region focuses that region, unless
/// the command it resolves to moves focus itself.
pub proof fn law_click_focuses_region<C: Component>(
    models: Seq<C::V>,
    current: Option<ComponentId>,
    regions: Seq<FocusRegion>,
    input: InputManager,
    mouse: TerminalMouseEvent,
)
    requires
        mouse.kind is Down,
        mouse_hit(regions, mouse) is Some,
        ({
            let hovered = kind_of::<C>(models, Some(mouse_hit(regions, mouse)->0.component));
            !(input.spec_resolve_pointer(mouse_pointer(regions, mouse), canonical(hovered)) matches Some(CommandView::Focus(_)))
        }),
    ensures
        mouse_outcome::<C>(models, current, regions, input, mouse).1 == Some(mouse_hit(regions, mouse)->0.focus),
{
}

/// In a consistent UI the component of the focused region is registered,
/// so the focused component always has a kind.
pub proof fn law_focused_component_is_registered<C: Component>(ui: Ui<C>)
    requires
        ui.wf(),
    ensures
        component_for_focus(ui.spec_current(), ui.spec_regions()) is Some ==> has_id::<C>(
            ui.spec_models(),
            component_for_focus(ui.spec_current(), ui.spec_regions())->0,
        ),
{
    let regions = ui.spec_regions();
    let leaves = ui.spec_layout().spec_leaves();
    match ui.spec_current() {
        Some(c) => match first_index(regions, has_focus(c)) {
            Some(i) => {
                lemma_first_is_first(regions, has_focus(c));
                assert(focus_region_ids(regions)[i] == (regions[i].component, regions[i].focus));
                assert(leaves[i].0 == regions[i].component);
            },
            None => {},
        },
        None => {},
    }
}

} // verus!

verus! {

/// Pointer-bound events go to the component under the pointer: when a
/// mouse event over a region resolves to a component event, that region's
/// component receives it, whichever component has focus.
pub proof fn law_pointer_event_goes_to_hovered<C: Component>(
    models: Seq<C::V>,
    current: Option<ComponentId>,
    regions: Seq<FocusRegion>,
    input: InputManager,
    mouse: TerminalMouseEvent,
    e: EventView,
)
    requires
        mouse_hit(regions, mouse) is Some,
        input.spec_resolve_pointer(
            mouse_pointer(regions, mouse),
            canonical(kind_of::<C>(models, Some(mouse_hit(regions, mouse)->0.component))),
        ) == Some(CommandView::FocusedComponent(e)),
    ensures
        ({
            let (m, c, a) = mouse_outcome::<C>(models, current, regions, input, mouse);
            let (dm, da) = deliver::<C>(models, Some(mouse_hit(regions, mouse)->0.component), e);
            m == dm && a == da
        }),
{
}

} // verus!
