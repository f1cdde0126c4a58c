//! Sidebar component: a navigable list of content modes.

use vstd::prelude::*;
use crate::command::{Direction2D, PointerEvent, PointerGesture, UiAction, UiActionView, actions_view};
use crate::component::content::{ContentComponentEvent, ContentEventView, ContentMode};
use crate::component::{Component, ComponentKind, EventOutcome, OutcomeView, RenderContext};
use crate::event::{Event, EventView, MouseEvent, MoveEvent, Submit};
use crate::geometry::{Rect, sat_sub};
use crate::layout::ComponentId;
use crate::widget::{WidgetListState, bordered_inner, spec_bordered_inner};

verus! {

/// A list of content modes displayed in the left pane.
///
/// Handles [`MoveEvent`] (up/down) and [`MouseEvent`] (scroll and
/// click-to-select); a click on an item or a [`Submit`] asks the content
/// pane to switch to the selected mode.
pub struct SidebarComponent {
    id: ComponentId,
    items: Vec<ContentMode>,
    state: WidgetListState,
}

/// The value of a [`SidebarComponent`].
pub struct SidebarModel {
    pub id: ComponentId,
    pub items: Seq<ContentMode>,
    pub state: WidgetListState,
}

impl View for SidebarComponent {
    type V = SidebarModel;

    closed spec fn view(&self) -> SidebarModel {
        SidebarModel { id: self.id, items: self.items@, state: self.state }
    }
}

/// Index of the selected item (0 when nothing is selected).
pub open spec fn sidebar_selected(m: SidebarModel) -> int {
    match m.state.spec_selected() {
        Some(i) => i as int,
        None => 0,
    }
}

/// The model after selecting `index`.
pub open spec fn sidebar_with_selection(m: SidebarModel, index: int) -> SidebarModel {
    SidebarModel { id: m.id, items: m.items, state: m.state.after_select(Some(index as usize)) }
}

/// The model after moving the selection down (clamped to the last item).
pub open spec fn sidebar_next(m: SidebarModel) -> SidebarModel {
    let last = if m.items.len() >= 1 {
        m.items.len() - 1
    } else {
        0
    };
    sidebar_with_selection(m, if sidebar_selected(m) + 1 <= last {
        sidebar_selected(m) + 1
    } else {
        last
    })
}

/// The model after moving the selection up (clamped to the first item).
pub open spec fn sidebar_previous(m: SidebarModel) -> SidebarModel {
    sidebar_with_selection(m, if sidebar_selected(m) >= 1 {
        sidebar_selected(m) - 1
    } else {
        0
    })
}

/// A click at `pointer` lands on an item: the items occupy the rows below
/// the top border row, one row each.
pub open spec fn sidebar_click_hits(m: SidebarModel, pointer: PointerEvent) -> bool {
    pointer.local_y is Some && pointer.local_y->0 >= 1 && pointer.local_y->0 - 1 < m.items.len()
}

/// A handled event that asks nothing of the application.
pub open spec fn handled() -> OutcomeView {
    OutcomeView::Consumed(Seq::empty())
}

/// The action asking the content pane to show the selected mode.
pub open spec fn sidebar_response(m: SidebarModel) -> OutcomeView {
    OutcomeView::Consumed(
        seq![UiActionView::Response(EventView::Content(ContentEventView::ContentMode(m.items[sidebar_selected(m)])))],
    )
}

/// New model and outcome of the sidebar for `event`.
pub open spec fn sidebar_on(m: SidebarModel, event: EventView) -> (SidebarModel, OutcomeView) {
    match event {
        EventView::Move(Direction2D::Up) => (sidebar_previous(m), handled()),
        EventView::Move(Direction2D::Down) => (sidebar_next(m), handled()),
        EventView::Move(_) => (m, OutcomeView::Ignored),
        EventView::Mouse(p) => match p.gesture {
            PointerGesture::ScrollUp => (sidebar_previous(m), handled()),
            PointerGesture::ScrollDown => (sidebar_next(m), handled()),
            PointerGesture::Down(_) => if sidebar_click_hits(m, p) {
                let m2 = sidebar_with_selection(m, p.local_y->0 - 1);
                (m2, sidebar_response(m2))
            } else {
                (m, OutcomeView::Ignored)
            },
            _ => (m, OutcomeView::Ignored),
        },
        EventView::Submit => (m, sidebar_response(m)),
        _ => (m, OutcomeView::Ignored),
    }
}

impl SidebarComponent {
    /// Create a sidebar listing every content mode, with the first selected.
    pub fn new() -> (r: SidebarComponent)
        ensures
            r@.items == seq![ContentMode::Counter, ContentMode::Help, ContentMode::Logs],
            r@.state == WidgetListState::default_state().after_select(Some(0)),
            Self::inv(r@),
    {
        let mut state = WidgetListState::new();
        state.select(Some(0));
        let items = vstd::slice::slice_to_vec(ContentMode::all());
        proof {
            WidgetListState::default_state().lemma_transitions(0, Some(0), 0, Rect { x: 0, y: 0, width: 0, height: 0 });
        }
        SidebarComponent { id: ComponentId::generate(), items, state }
    }

    /// The sidebar's kind string.
    pub fn kind() -> (r: ComponentKind)
        ensures
            r@ == "sidebar"@,
    {
        "sidebar"
    }

    fn selected_index(&self) -> (r: usize)
        ensures
            r == sidebar_selected(self@),
    {
        match self.state.selected() {
            Some(i) => i,
            None => 0,
        }
    }

    fn select_next(&mut self)
        ensures
            final(self)@ == sidebar_next(old(self)@),
    {
        let selected = self.selected_index();
        let last = self.items.len().saturating_sub(1);
        let next = if selected < last {
            selected + 1
        } else {
            last
        };
        self.state.select(Some(next));
    }

    fn select_previous(&mut self)
        ensures
            final(self)@ == sidebar_previous(old(self)@),
    {
        let selected = self.selected_index();
        self.state.select(Some(selected.saturating_sub(1)));
    }

    /// Select the item under a click; returns whether an item was hit.
    fn click(&mut self, event: &PointerEvent) -> (hit: bool)
        ensures
            hit == sidebar_click_hits(old(self)@, *event),
            final(self)@ == if hit {
                sidebar_with_selection(old(self)@, event.local_y->0 - 1)
            } else {
                old(self)@
            },
    {
        if let Some(local_y) = event.local_y {
            if local_y >= 1 {
                let index = (local_y - 1) as usize;
                if index < self.items.len() {
                    self.state.select(Some(index));
                    return true;
                }
            }
        }
        false
    }

    fn get_selected(&self) -> (r: ContentMode)
        requires
            Self::inv(self@),
        ensures
            r == self@.items[sidebar_selected(self@)],
    {
        self.items[self.selected_index()]
    }

    /// The items, in display order.
    pub fn items(&self) -> (r: &Vec<ContentMode>)
        ensures
            r@ == self@.items,
    {
        &self.items
    }

    /// The selection and scroll state.
    pub fn state(&self) -> (r: WidgetListState)
        ensures
            r == self@.state,
    {
        self.state
    }
}

proof fn lemma_select_keeps_inv(m: SidebarModel, index: int)
    requires
        0 <= index < m.items.len(),
        m.items.len() <= usize::MAX,
    ensures
        SidebarComponent::inv(sidebar_with_selection(m, index)),
        sidebar_selected(sidebar_with_selection(m, index)) == index,
{
    m.state.lemma_transitions(0, Some(index as usize), 0, Rect { x: 0, y: 0, width: 0, height: 0 });
}

/// The outcome of a handled event that asks nothing of the application.
fn consumed_without_actions() -> (r: EventOutcome)
    ensures
        r@ == handled(),
{
    let actions: Vec<UiAction> = Vec::new();
    assert(actions_view(actions@) =~= Seq::<UiActionView>::empty());
    EventOutcome::Consumed(actions)
}

impl Component for SidebarComponent {
    open spec fn spec_id(m: SidebarModel) -> ComponentId {
        m.id
    }

    open spec fn spec_kind(m: SidebarModel) -> Seq<char> {
        "sidebar"@
    }

    open spec fn inv(m: SidebarModel) -> bool {
        &&& 0 < m.items.len() <= usize::MAX
        &&& m.state.spec_selected() is Some
        &&& m.state.spec_selected()->0 < m.items.len()
    }

    open spec fn spec_on(m: SidebarModel, event: EventView) -> (SidebarModel, OutcomeView) {
        sidebar_on(m, event)
    }

    open spec fn spec_prepare(m: SidebarModel, area: Rect, ctx: RenderContext) -> SidebarModel {
        SidebarModel { state: m.state.after_layout(m.items.len() as usize, 1, spec_bordered_inner(area)), ..m }
    }

    proof fn lemma_steps_preserve(m: SidebarModel, event: EventView, area: Rect, ctx: RenderContext) {
        let last = m.items.len() - 1;
        let s = sidebar_selected(m);
        lemma_select_keeps_inv(m, if s + 1 <= last { s + 1 } else { last });
        lemma_select_keeps_inv(m, if s >= 1 { s - 1 } else { 0 });
        m.state.lemma_transitions(m.items.len() as usize, None, 1, spec_bordered_inner(area));
        match event {
            EventView::Mouse(p) => {
                if sidebar_click_hits(m, p) {
                    lemma_select_keeps_inv(m, p.local_y->0 - 1);
                }
            },
            _ => {},
        }
    }

    fn id(&self) -> (r: ComponentId) {
        self.id
    }

    fn get_kind(&self) -> (r: ComponentKind) {
        SidebarComponent::kind()
    }

    fn on(&mut self, event: Event) -> (r: EventOutcome) {
        if let Some(MoveEvent(direction)) = event.downcast_ref::<MoveEvent>() {
            match direction {
                Direction2D::Up => self.select_previous(),
                Direction2D::Down => self.select_next(),
                Direction2D::Left | Direction2D::Right => {
                    return EventOutcome::Ignored;
                },
            }
            return consumed_without_actions();
        }
        if let Some(MouseEvent(pointer)) = event.downcast_ref::<MouseEvent>() {
            match pointer.gesture {
                PointerGesture::ScrollUp => {
                    self.select_previous();
                    return consumed_without_actions();
                },
                PointerGesture::ScrollDown => {
                    self.select_next();
                    return consumed_without_actions();
                },
                PointerGesture::Down(_) => {
                    if self.click(pointer) {
                        proof {
                            lemma_select_keeps_inv(old(self)@, pointer.local_y->0 - 1);
                        }
                        let selected = self.get_selected();
                        let actions = vec![
                            UiAction::Response(Event::Content(ContentComponentEvent::ContentMode(selected))),
                        ];
                        assert(actions_view(actions@) =~= seq![UiActionView::Response(EventView::Content(ContentEventView::ContentMode(selected)))]);
                        return EventOutcome::Consumed(actions);
                    }
                    return EventOutcome::Ignored;
                },
                _ => return EventOutcome::Ignored,
            }
        }
        if event.downcast_ref::<Submit>().is_some() {
            let selected = self.get_selected();
            let actions = vec![UiAction::Response(Event::Content(ContentComponentEvent::ContentMode(selected)))];
            assert(actions_view(actions@) =~= seq![UiActionView::Response(EventView::Content(ContentEventView::ContentMode(selected)))]);
            return EventOutcome::Consumed(actions);
        }
        EventOutcome::Ignored
    }

    fn prepare_render(&mut self, area: Rect, ctx: RenderContext) {
        let inner = bordered_inner(area);
        let _rows = self.state.layout_rows(self.items.len(), 1, inner);
    }
}

} // verus!

verus! {

/// A press on the sidebar's top border row hits no item: the selection
/// stays and the event is ignored.
pub proof fn law_border_row_click_selects_nothing(m: SidebarModel, p: PointerEvent, b: crate::command::PointerButton)
    requires
        p.local_y == Some(0u16),
        p.gesture == PointerGesture::Down(b),
    ensures
        sidebar_on(m, EventView::Mouse(p)) == (m, OutcomeView::Ignored),
{
}

} // verus!
