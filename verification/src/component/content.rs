//! Content component: the main right-hand pane.

use vstd::prelude::*;
use crate::command::{AppCommand, Direction2D, PointerEvent, PointerGesture, UiAction, UiActionView, actions_view};
use crate::component::{Component, ComponentKind, EventOutcome, OutcomeView, RenderContext};
use crate::event::{Event, EventView, MouseEvent, MoveEvent};
use crate::geometry::Rect;
use crate::layout::ComponentId;
use crate::widget::{ListRow, WidgetListState, bordered_inner, spec_bordered_inner};

verus! {

/// What the content pane shows.
#[derive(Clone, Copy, Debug, PartialEq, Eq, Structural)]
pub enum ContentMode {
    Counter,
    Help,
    Logs,
}

impl ContentMode {
    /// All modes, in menu order.
    pub fn all() -> (r: &'static [ContentMode])
        ensures
            r@ == seq![ContentMode::Counter, ContentMode::Help, ContentMode::Logs],
    {
        &[ContentMode::Counter, ContentMode::Help, ContentMode::Logs]
    }

    /// The title of the pane's border in this mode.
    pub fn view_title(&self) -> (r: &'static str)
        ensures
            r@ == match *self {
                ContentMode::Counter => "Counter View"@,
                ContentMode::Help => "Help View"@,
                ContentMode::Logs => "Log view"@,
            },
    {
        match self {
            ContentMode::Counter => "Counter View",
            ContentMode::Help => "Help View",
            ContentMode::Logs => "Log view",
        }
    }

    /// The mode's display name.
    pub fn as_str(&self) -> (r: &'static str)
        ensures
            r@ == match *self {
                ContentMode::Counter => "Counter"@,
                ContentMode::Help => "Help"@,
                ContentMode::Logs => "Logs"@,
            },
    {
        match self {
            ContentMode::Counter => "Counter",
            ContentMode::Help => "Help",
            ContentMode::Logs => "Logs",
        }
    }
}

} // verus!

verus! {

/// Events understood by the content component.
#[derive(Debug)]
pub enum ContentComponentEvent {
    /// Switch the pane to another mode.
    ContentMode(ContentMode),
    /// Freshly read log lines, newest first.
    NewLogs(Vec<String>),
}

/// The value of a [`ContentComponentEvent`].
pub enum ContentEventView {
    ContentMode(ContentMode),
    NewLogs(Seq<String>),
}

impl View for ContentComponentEvent {
    type V = ContentEventView;

    open spec fn view(&self) -> ContentEventView {
        match self {
            ContentComponentEvent::ContentMode(m) => ContentEventView::ContentMode(*m),
            ContentComponentEvent::NewLogs(lines) => ContentEventView::NewLogs(lines@),
        }
    }
}

} // verus!

verus! {

/// Demonstration content pane.
///
/// Depending on its mode it shows an integer counter, a help text, or the
/// latest log lines.  Movement and scroll events change the counter or the
/// log selection (scrolling as the arrow keys do); [`ContentComponentEvent`]s
/// switch the mode or deliver logs.  Every handled event asks the
/// application for fresh logs; other events, ticks among them, are ignored.
pub struct ContentComponent {
    id: ComponentId,
    counter: i64,
    last_click: Option<PointerEvent>,
    state: ContentMode,
    option_log_list_state: Option<WidgetListState>,
    log_entries: usize,
    current_logs: Option<Vec<String>>,
    log_rows: Vec<ListRow>,
}

/// The value of a [`ContentComponent`].
pub struct ContentModel {
    pub id: ComponentId,
    pub counter: i64,
    pub last_click: Option<PointerEvent>,
    pub mode: ContentMode,
    pub list_state: Option<WidgetListState>,
    pub log_entries: usize,
    pub logs: Option<Seq<String>>,
    pub rows: Seq<ListRow>,
}

impl View for ContentComponent {
    type V = ContentModel;

    closed spec fn view(&self) -> ContentModel {
        ContentModel {
            id: self.id,
            counter: self.counter,
            last_click: self.last_click,
            mode: self.state,
            list_state: self.option_log_list_state,
            log_entries: self.log_entries,
            logs: match self.current_logs {
                Some(v) => Some(v@),
                None => None,
            },
            rows: self.log_rows@,
        }
    }
}

/// How far an event moves the counter or the log selection, for the events
/// the pane understands: moves and scrolls (up and right raise, down and
/// left lower, scrolling as the arrow keys do) and content events (no
/// movement).  `None` for every other event, which the pane ignores.
pub open spec fn content_delta(event: EventView) -> Option<int> {
    match event {
        EventView::Move(d) => Some(
            match d {
                Direction2D::Right | Direction2D::Up => 1int,
                Direction2D::Left | Direction2D::Down => -1int,
            },
        ),
        EventView::Mouse(p) => match p.gesture {
            PointerGesture::ScrollUp => Some(1int),
            PointerGesture::ScrollDown => Some(-1int),
            _ => None,
        },
        EventView::Content(_) => Some(0int),
        _ => None,
    }
}

/// `counter + delta`, saturated to the `i64` range.
pub open spec fn saturating_counter(counter: i64, delta: int) -> i64 {
    if counter + delta > i64::MAX {
        i64::MAX
    } else if counter + delta < i64::MIN {
        i64::MIN
    } else {
        (counter + delta) as i64
    }
}

/// The model after applying `delta` in the current mode: the counter moves
/// in counter mode, the log selection in log mode (forward for a positive
/// delta), and nothing moves for a zero delta or in help mode.
pub open spec fn content_apply_delta(m: ContentModel, delta: int) -> ContentModel {
    if delta == 0 {
        m
    } else {
        match m.mode {
            ContentMode::Counter => ContentModel { counter: saturating_counter(m.counter, delta), ..m },
            ContentMode::Help => m,
            ContentMode::Logs => {
                let st = match m.list_state {
                    Some(s) => s,
                    None => WidgetListState::default_state(),
                };
                ContentModel {
                    list_state: Some(
                        if delta < 0 {
                            st.after_select_previous(m.log_entries)
                        } else {
                            st.after_select_next(m.log_entries)
                        },
                    ),
                    ..m
                }
            },
        }
    }
}

/// New model and outcome of the content pane for `event`: an event it
/// does not understand is ignored and changes nothing; every other event
/// is consumed, applied, and asks the application for fresh logs.  A
/// content event (a mode change or new logs) moves neither the counter nor
/// the log selection.
pub open spec fn content_on(m: ContentModel, event: EventView) -> (ContentModel, OutcomeView) {
    match content_delta(event) {
        None => (m, OutcomeView::Ignored),
        Some(delta) => {
            let m1 = content_apply_delta(m, delta);
            let m2 = match event {
                EventView::Content(ContentEventView::ContentMode(mode)) => ContentModel { mode, ..m1 },
                _ => m1,
            };
            let m3 = match event {
                EventView::Content(ContentEventView::NewLogs(lines)) => ContentModel { logs: Some(lines), ..m2 },
                _ => m2,
            };
            (
                m3,
                OutcomeView::Consumed(
                    seq![UiActionView::App(AppCommand::FetchLogs { origin: m.id, amount: m.log_entries })],
                ),
            )
        },
    }
}

/// The model after preparing to draw into `area`: in log mode with logs
/// present, the log list is laid out one line per entry inside the pane's
/// border; otherwise no list rows are drawn.
pub open spec fn content_prepare(m: ContentModel, area: Rect) -> ContentModel {
    if m.mode == ContentMode::Logs && m.logs is Some {
        let st = match m.list_state {
            Some(s) => s,
            None => WidgetListState::default_state(),
        };
        let len = m.logs->0.len() as usize;
        let inner = spec_bordered_inner(area);
        ContentModel {
            list_state: Some(st.after_layout(len, 1, inner)),
            rows: st.spec_layout_rows(len, 1, inner),
            ..m
        }
    } else {
        ContentModel { rows: Seq::empty(), ..m }
    }
}

impl ContentComponent {
    /// Create a content pane in log mode, with the counter at zero and no logs yet.
    pub fn new() -> (r: ContentComponent)
        ensures
            r@.counter == 0,
            r@.last_click is None,
            r@.mode == ContentMode::Logs,
            r@.list_state is None,
            r@.log_entries == 400,
            r@.logs is None,
            r@.rows == Seq::<ListRow>::empty(),
    {
        ContentComponent {
            id: ComponentId::generate(),
            counter: 0,
            last_click: None,
            state: ContentMode::Logs,
            option_log_list_state: None,
            log_entries: 400,
            current_logs: None,
            log_rows: Vec::new(),
        }
    }

    /// The content pane's kind string.
    pub fn kind() -> (r: ComponentKind)
        ensures
            r@ == "content"@,
    {
        "content"
    }

    /// The counter value.
    pub fn counter(&self) -> (r: i64)
        ensures
            r == self@.counter,
    {
        self.counter
    }

    /// The last recorded click, if any.
    pub fn last_click(&self) -> (r: Option<PointerEvent>)
        ensures
            r == self@.last_click,
    {
        self.last_click
    }

    /// The current mode.
    pub fn mode(&self) -> (r: ContentMode)
        ensures
            r == self@.mode,
    {
        self.state
    }

    /// The received log lines, if any.
    pub fn current_logs(&self) -> (r: Option<&Vec<String>>)
        ensures
            match r {
                Some(v) => self@.logs == Some(v@),
                None => self@.logs is None,
            },
    {
        match &self.current_logs {
            Some(v) => Some(v),
            None => None,
        }
    }

    /// The log list rows laid out for the current frame.
    pub fn log_rows(&self) -> (r: &Vec<ListRow>)
        ensures
            r@ == self@.rows,
    {
        &self.log_rows
    }
}

impl Component for ContentComponent {
    open spec fn spec_id(m: ContentModel) -> ComponentId {
        m.id
    }

    open spec fn spec_kind(m: ContentModel) -> Seq<char> {
        "content"@
    }

    open spec fn inv(m: ContentModel) -> bool {
        true
    }

    open spec fn spec_on(m: ContentModel, event: EventView) -> (ContentModel, OutcomeView) {
        content_on(m, event)
    }

    open spec fn spec_prepare(m: ContentModel, area: Rect, ctx: RenderContext) -> ContentModel {
        content_prepare(m, area)
    }

    proof fn lemma_steps_preserve(m: ContentModel, event: EventView, area: Rect, ctx: RenderContext) {
    }

    fn id(&self) -> (r: ComponentId) {
        self.id
    }

    fn get_kind(&self) -> (r: ComponentKind) {
        ContentComponent::kind()
    }

    fn on(&mut self, event: Event) -> (r: EventOutcome) {
        let ghost m = self@;
        let delta: i64 = if let Some(MoveEvent(direction)) = event.downcast_ref::<MoveEvent>() {
            match direction {
                Direction2D::Right | Direction2D::Up => 1,
                Direction2D::Left | Direction2D::Down => -1,
            }
        } else if let Some(MouseEvent(pointer)) = event.downcast_ref::<MouseEvent>() {
            match pointer.gesture {
                PointerGesture::ScrollUp => 1,
                PointerGesture::ScrollDown => -1,
                _ => return EventOutcome::Ignored,
            }
        } else if event.downcast_ref::<ContentComponentEvent>().is_some() {
            0
        } else {
            return EventOutcome::Ignored;
        };
        if delta != 0 {
            match self.state {
                ContentMode::Counter => {
                    self.counter = if delta > 0 && self.counter == i64::MAX {
                        i64::MAX
                    } else if delta < 0 && self.counter == i64::MIN {
                        i64::MIN
                    } else {
                        self.counter + delta
                    };
                },
                ContentMode::Help => {},
                ContentMode::Logs => {
                    let mut state = match self.option_log_list_state {
                        Some(s) => s,
                        None => WidgetListState::new(),
                    };
                    if delta < 0 {
                        state.select_previous(self.log_entries);
                    } else {
                        state.select_next(self.log_entries);
                    }
                    self.option_log_list_state = Some(state);
                },
            }
        }
        assert(self@ == content_apply_delta(m, delta as int));
        if let Some(ContentComponentEvent::ContentMode(content_mode)) = event.downcast_ref::<ContentComponentEvent>() {
            self.state = *content_mode;
        }
        match event.downcast_to::<ContentComponentEvent>() {
            Ok(ContentComponentEvent::NewLogs(logs)) => {
                self.current_logs = Some(logs);
            },
            _ => {},
        }
        let actions = vec![UiAction::App(AppCommand::FetchLogs { origin: self.id, amount: self.log_entries })];
        assert(actions_view(actions@) =~= seq![UiActionView::App(AppCommand::FetchLogs { origin: m.id, amount: m.log_entries })]);
        EventOutcome::Consumed(actions)
    }

    fn prepare_render(&mut self, area: Rect, ctx: RenderContext) {
        let logs_len: Option<usize> = match &self.current_logs {
            Some(entries) => Some(entries.len()),
            None => None,
        };
        match (self.state, logs_len) {
            (ContentMode::Logs, Some(len)) => {
                let mut list_state = match self.option_log_list_state {
                    Some(s) => s,
                    None => WidgetListState::new(),
                };
                let inner = bordered_inner(area);
                let rows = list_state.layout_rows(len, 1, inner);
                self.option_log_list_state = Some(list_state);
                self.log_rows = rows;
            },
            _ => {
                self.log_rows = Vec::new();
            },
        }
    }
}

} // verus!
