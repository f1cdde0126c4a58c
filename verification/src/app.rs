//! Application state and the decisions of the main loop.
//!
//! The application owns the [`Ui`] and the `running` flag.  Each event
//! taken from the event channel is handed to [`App::handle_event`], which
//! updates the state and says what the loop must do next: which messages to
//! put back on the channel, and whether logs must be fetched for a component.

use vstd::prelude::*;
use crate::builder::BuildError;
use crate::command::{AppCommand, Command, UiAction, UiActionView, actions_view};
use crate::component::demo::DemoComponent;
use crate::component::content::{ContentComponentEvent, ContentEventView};
use crate::component::registry::till_consumed_models;
use crate::component::Component;
use crate::event::{Event, EventView, Tick};
use crate::focus::FocusRegion;
use crate::geometry::Rect;
use crate::input::{KeyEvent, KeyEventKind};
use crate::command::TerminalMouseEvent;
use crate::layout::ComponentId;
use crate::ui::{RenderJob, Ui, deliver, key_outcome, mouse_outcome, spec_dispatch};

verus! {

/// A message on the application's event channel.
#[derive(Debug)]
pub enum EventContainer {
    /// The periodic timer tick.
    Tick,
    /// Stop the main loop.
    Quit,
    /// A key event from the terminal.
    Key(KeyEvent),
    /// A mouse event from the terminal.
    Mouse(TerminalMouseEvent),
    /// Any other terminal event (resize, focus change, paste).
    Other,
    /// An event a component escalates past the UI (not handled yet).
    ComponentEvent(Event),
    /// Read the latest `amount` log lines for component `origin`.
    FetchLogs { origin: ComponentId, amount: usize },
}

/// The messages the application puts on its channel for a list of UI
/// actions: `Quit` and `FetchLogs` commands become messages of the same
/// name; responses produce no message.
pub open spec fn outgoing(actions: Seq<UiActionView>) -> Seq<EventContainer>
    decreases actions.len(),
{
    if actions.len() == 0 {
        seq![]
    } else {
        outgoing(actions.drop_last()) + match actions.last() {
            UiActionView::App(AppCommand::Quit) => seq![EventContainer::Quit],
            UiActionView::App(AppCommand::FetchLogs { origin, amount }) => seq![EventContainer::FetchLogs { origin, amount }],
            UiActionView::Response(_) => Seq::<EventContainer>::empty(),
        }
    }
}

/// Component models after offering each response among `actions`, in order,
/// to the components until one consumes it.
pub open spec fn respond_fold<C: Component>(models: Seq<C::V>, actions: Seq<UiActionView>) -> Seq<C::V>
    decreases actions.len(),
{
    if actions.len() == 0 {
        models
    } else {
        let ms = respond_fold::<C>(models, actions.drop_last());
        match actions.last() {
            UiActionView::Response(e) => till_consumed_models::<C>(ms, e),
            _ => ms,
        }
    }
}

/// What the main loop must do after an event.
#[derive(Debug)]
pub struct AppStep {
    /// Messages to put on the event channel, in order.
    pub send: Vec<EventContainer>,
    /// Read the latest `amount` log lines and hand them to component `origin`.
    pub fetch_logs: Option<(ComponentId, usize)>,
}

/// Top-level application state: the UI and whether the main loop runs.
pub struct App<C> {
    running: bool,
    ui: Ui<C>,
}

impl<C: Component> App<C> {
    /// The main loop keeps running.
    pub closed spec fn spec_running(&self) -> bool {
        self.running
    }

    /// The UI.
    pub closed spec fn spec_ui(&self) -> Ui<C> {
        self.ui
    }

    /// The application is consistent: its UI is.
    pub open spec fn wf(&self) -> bool {
        self.spec_ui().wf()
    }

    /// A running application around `ui`.
    pub fn from_ui(ui: Ui<C>) -> (r: App<C>)
        ensures
            r.spec_running(),
            r.spec_ui() == ui,
    {
        App { running: true, ui }
    }

    /// Whether the main loop should keep running.
    pub fn running(&self) -> (r: bool)
        ensures
            r == self.spec_running(),
    {
        self.running
    }

    /// The UI.
    pub fn ui(&self) -> (r: &Ui<C>)
        ensures
            *r == self.spec_ui(),
    {
        &self.ui
    }

    /// Prepare a frame for `area` (see [`Ui::render`]).
    pub fn render(&mut self, area: Rect) -> (jobs: Vec<RenderJob>)
        requires
            old(self).wf(),
        ensures
            final(self).wf(),
            final(self).spec_running() == old(self).spec_running(),
            final(self).spec_ui().spec_layout() == old(self).spec_ui().spec_layout(),
            final(self).spec_ui().spec_input() == old(self).spec_ui().spec_input(),
            old(self).spec_ui().spec_layout().tiles(area, crate::ui::job_regions(jobs@)),
            old(self).spec_ui().spec_layout().lays_out(area, crate::ui::job_regions(jobs@)),
            final(self).spec_ui().spec_regions() == crate::ui::to_focus_regions(crate::ui::job_regions(jobs@)),
            final(self).spec_ui().spec_current() == crate::focus::reconciled_focus(
                old(self).spec_ui().spec_current(),
                crate::ui::to_focus_regions(crate::ui::job_regions(jobs@)),
            ),
            final(self).spec_ui().spec_models() == crate::ui::prepare_fold::<C>(
                old(self).spec_ui().spec_models(),
                crate::ui::job_regions(jobs@),
                final(self).spec_ui().spec_current(),
            ),
            jobs@ == crate::ui::render_jobs(crate::ui::job_regions(jobs@), final(self).spec_ui().spec_current()),
            forall|i: int| 0 <= i < jobs@.len() ==> (#[trigger] jobs@[i]).focused == (final(self).spec_ui().spec_current()
                == Some(jobs@[i].focus)),
    {
        self.ui.render(area)
    }

    /// Dispatch a key event to the UI and apply the resulting actions;
    /// returns the messages to put on the channel.
    pub fn handle_key_event(&mut self, key: KeyEvent) -> (r: Vec<EventContainer>)
        requires
            old(self).wf(),
        ensures
            final(self).wf(),
            final(self).spec_running() == old(self).spec_running(),
            final(self).spec_ui().spec_layout() == old(self).spec_ui().spec_layout(),
            final(self).spec_ui().spec_input() == old(self).spec_ui().spec_input(),
            final(self).spec_ui().spec_regions() == old(self).spec_ui().spec_regions(),
            ({
                let (m, c, a) = key_outcome::<C>(
                    old(self).spec_ui().spec_models(),
                    old(self).spec_ui().spec_current(),
                    old(self).spec_ui().spec_regions(),
                    old(self).spec_ui().spec_input(),
                    key,
                );
                &&& r@ == outgoing(a)
                &&& final(self).spec_ui().spec_models() == respond_fold::<C>(m, a)
                &&& final(self).spec_ui().spec_current() == c
            }),
    {
        let actions = self.ui.handle_key_event(key);
        self.apply_actions(actions)
    }

    /// Dispatch a mouse event to the UI and apply the resulting actions;
    /// returns the messages to put on the channel.
    pub fn handle_mouse_event(&mut self, mouse: TerminalMouseEvent) -> (r: Vec<EventContainer>)
        requires
            old(self).wf(),
        ensures
            final(self).wf(),
            final(self).spec_running() == old(self).spec_running(),
            final(self).spec_ui().spec_layout() == old(self).spec_ui().spec_layout(),
            final(self).spec_ui().spec_input() == old(self).spec_ui().spec_input(),
            final(self).spec_ui().spec_regions() == old(self).spec_ui().spec_regions(),
            ({
                let (m, c, a) = mouse_outcome::<C>(
                    old(self).spec_ui().spec_models(),
                    old(self).spec_ui().spec_current(),
                    old(self).spec_ui().spec_regions(),
                    old(self).spec_ui().spec_input(),
                    mouse,
                );
                &&& r@ == outgoing(a)
                &&& final(self).spec_ui().spec_models() == respond_fold::<C>(m, a)
                &&& final(self).spec_ui().spec_current() == c
            }),
    {
        let actions = self.ui.handle_mouse_event(mouse);
        self.apply_actions(actions)
    }

    /// Translate UI actions into channel messages: `Quit` and `FetchLogs`
    /// become messages; a response is offered to the components until one
    /// consumes it (what that component returns is dropped).
    pub fn apply_actions(&mut self, actions: Vec<UiAction>) -> (r: Vec<EventContainer>)
        requires
            old(self).wf(),
        ensures
            final(self).wf(),
            final(self).spec_running() == old(self).spec_running(),
            r@ == outgoing(actions_view(actions@)),
            final(self).spec_ui().spec_models() == respond_fold::<C>(old(self).spec_ui().spec_models(), actions_view(actions@)),
            final(self).spec_ui().spec_current() == old(self).spec_ui().spec_current(),
            final(self).spec_ui().spec_regions() == old(self).spec_ui().spec_regions(),
            final(self).spec_ui().spec_layout() == old(self).spec_ui().spec_layout(),
            final(self).spec_ui().spec_input() == old(self).spec_ui().spec_input(),
    {
        let ghost all = actions_view(actions@);
        let ghost n = actions@.len();
        let mut rest = actions;
        let mut out: Vec<EventContainer> = Vec::new();
        let mut taken: usize = 0;
        assert(n == rest.len());
        assert(all =~= actions_view(rest@).subrange(0, n as int));
        while rest.len() > 0
            invariant
                self.wf(),
                self.spec_running() == old(self).spec_running(),
                n <= usize::MAX,
                all.len() == n,
                taken + rest@.len() == n,
                actions_view(rest@) == all.subrange(taken as int, n as int),
                out@ == outgoing(all.take(taken as int)),
                self.spec_ui().spec_models() == respond_fold::<C>(old(self).spec_ui().spec_models(), all.take(taken as int)),
                self.spec_ui().spec_current() == old(self).spec_ui().spec_current(),
                self.spec_ui().spec_regions() == old(self).spec_ui().spec_regions(),
                self.spec_ui().spec_layout() == old(self).spec_ui().spec_layout(),
                self.spec_ui().spec_input() == old(self).spec_ui().spec_input(),
            decreases rest.len(),
        {
            let ghost rv = actions_view(rest@);
            let action = rest.remove(0);
            assert(action@ == all[taken as int]) by {
                assert(rv[0] == action@);
            }
            assert(actions_view(rest@) =~= all.subrange(taken + 1, n as int)) by {
                assert(actions_view(rest@) =~= rv.subrange(1, rv.len() as int));
            }
            assert(all.take(taken + 1).drop_last() =~= all.take(taken as int));
            match action {
                UiAction::App(AppCommand::Quit) => {
                    out.push(EventContainer::Quit);
                },
                UiAction::App(AppCommand::FetchLogs { origin, amount }) => {
                    out.push(EventContainer::FetchLogs { origin, amount });
                },
                UiAction::Response(event) => {
                    let _result = self.ui.dispatch(Command::BroadCastTillConsumed(event));
                },
            }
            taken = taken + 1;
        }
        assert(all.take(n as int) =~= all);
        out
    }

    /// Called on every tick: broadcast a [`Tick`] to all components.
    pub fn tick(&mut self) -> (r: Vec<UiAction>)
        requires
            old(self).wf(),
        ensures
            final(self).wf(),
            final(self).spec_running() == old(self).spec_running(),
            final(self).spec_ui().spec_models() == spec_dispatch::<C>(
                old(self).spec_ui().spec_models(),
                old(self).spec_ui().spec_current(),
                old(self).spec_ui().spec_regions(),
                crate::command::CommandView::BroadCast(EventView::Tick),
            ).0,
            actions_view(r@) == spec_dispatch::<C>(
                old(self).spec_ui().spec_models(),
                old(self).spec_ui().spec_current(),
                old(self).spec_ui().spec_regions(),
                crate::command::CommandView::BroadCast(EventView::Tick),
            ).2,
            final(self).spec_ui().spec_current() == old(self).spec_ui().spec_current(),
            final(self).spec_ui().spec_regions() == old(self).spec_ui().spec_regions(),
            final(self).spec_ui().spec_layout() == old(self).spec_ui().spec_layout(),
            final(self).spec_ui().spec_input() == old(self).spec_ui().spec_input(),
    {
        self.ui.dispatch(Command::BroadCast(Event::Tick(Tick)))
    }

    /// Stop the main loop after the current iteration.
    pub fn quit(&mut self)
        ensures
            !final(self).spec_running(),
            final(self).spec_ui() == old(self).spec_ui(),
    {
        self.running = false;
    }

    /// Hand freshly read log lines to component `origin` (what it returns is dropped).
    pub fn deliver_logs(&mut self, origin: ComponentId, logs: Vec<String>)
        requires
            old(self).wf(),
        ensures
            final(self).wf(),
            final(self).spec_running() == old(self).spec_running(),
            final(self).spec_ui().spec_models() == deliver::<C>(
                old(self).spec_ui().spec_models(),
                Some(origin),
                EventView::Content(ContentEventView::NewLogs(logs@)),
            ).0,
            final(self).spec_ui().spec_current() == old(self).spec_ui().spec_current(),
            final(self).spec_ui().spec_regions() == old(self).spec_ui().spec_regions(),
            final(self).spec_ui().spec_layout() == old(self).spec_ui().spec_layout(),
            final(self).spec_ui().spec_input() == old(self).spec_ui().spec_input(),
    {
        let event = Event::Content(ContentComponentEvent::NewLogs(logs));
        let _result = self.ui.dispatch_event_for_component(origin, event);
    }

    /// Update the state for one message from the event channel and say what
    /// the loop must do next.
    ///
    /// `Tick` broadcasts a tick; `Quit` stops the loop; key presses and mouse
    /// events go to the UI; other terminal events and key releases and
    /// repeats are ignored; `FetchLogs` asks the loop to read logs.
    /// Component escalations are not handled yet and are not accepted.
    pub fn handle_event(&mut self, event: EventContainer) -> (r: AppStep)
        requires
            old(self).wf(),
            !(event is ComponentEvent),
        ensures
            final(self).wf(),
            final(self).spec_running() == (old(self).spec_running() && !(event is Quit)),
            final(self).spec_ui().spec_layout() == old(self).spec_ui().spec_layout(),
            final(self).spec_ui().spec_input() == old(self).spec_ui().spec_input(),
            final(self).spec_ui().spec_regions() == old(self).spec_ui().spec_regions(),
            r.fetch_logs == match event {
                EventContainer::FetchLogs { origin, amount } => Some((origin, amount)),
                _ => None,
            },
            event is Quit || event is Other || event is FetchLogs || (event is Key && event->Key_0.kind != KeyEventKind::Press)
                ==> final(self).spec_ui() == old(self).spec_ui() && r.send@.len() == 0,
            event is Tick ==> ({
                let (m, c, a) = spec_dispatch::<C>(
                    old(self).spec_ui().spec_models(),
                    old(self).spec_ui().spec_current(),
                    old(self).spec_ui().spec_regions(),
                    crate::command::CommandView::BroadCast(EventView::Tick),
                );
                &&& r.send@ == outgoing(a)
                &&& final(self).spec_ui().spec_models() == respond_fold::<C>(m, a)
                &&& final(self).spec_ui().spec_current() == c
            }),
            event is Key && event->Key_0.kind == KeyEventKind::Press ==> ({
                let (m, c, a) = key_outcome::<C>(
                    old(self).spec_ui().spec_models(),
                    old(self).spec_ui().spec_current(),
                    old(self).spec_ui().spec_regions(),
                    old(self).spec_ui().spec_input(),
                    event->Key_0,
                );
                &&& r.send@ == outgoing(a)
                &&& final(self).spec_ui().spec_models() == respond_fold::<C>(m, a)
                &&& final(self).spec_ui().spec_current() == c
            }),
            event is Mouse ==> ({
                let (m, c, a) = mouse_outcome::<C>(
                    old(self).spec_ui().spec_models(),
                    old(self).spec_ui().spec_current(),
                    old(self).spec_ui().spec_regions(),
                    old(self).spec_ui().spec_input(),
                    event->Mouse_0,
                );
                &&& r.send@ == outgoing(a)
                &&& final(self).spec_ui().spec_models() == respond_fold::<C>(m, a)
                &&& final(self).spec_ui().spec_current() == c
            }),
    {
        match event {
            EventContainer::Tick => {
                let actions = self.tick();
                let send = self.apply_actions(actions);
                AppStep { send, fetch_logs: None }
            },
            EventContainer::Quit => {
                self.quit();
                AppStep { send: Vec::new(), fetch_logs: None }
            },
            EventContainer::Key(key) => {
                if key.kind == KeyEventKind::Press {
                    let send = self.handle_key_event(key);
                    AppStep { send, fetch_logs: None }
                } else {
                    AppStep { send: Vec::new(), fetch_logs: None }
                }
            },
            EventContainer::Mouse(mouse) => {
                let send = self.handle_mouse_event(mouse);
                AppStep { send, fetch_logs: None }
            },
            EventContainer::Other => AppStep { send: Vec::new(), fetch_logs: None },
            EventContainer::ComponentEvent(_) => AppStep { send: Vec::new(), fetch_logs: None },
            EventContainer::FetchLogs { origin, amount } => AppStep { send: Vec::new(), fetch_logs: Some((origin, amount)) },
        }
    }
}

impl App<DemoComponent> {
    /// A running application with the built-in demo UI (see [`Ui::default_ui`]).
    pub fn new() -> (r: Result<App<DemoComponent>, BuildError>)
        ensures
            match r {
                Ok(app) => app.wf() && app.spec_running() && crate::ui::is_demo_ui(app.spec_ui()),
                Err(e) => e@ is DuplicateFocus,
            },
    {
        match Ui::default_ui() {
            Ok(ui) => Ok(App::from_ui(ui)),
            Err(e) => Err(e),
        }
    }
}

} // verus!

verus! {

/// Whether the main loop still runs after handling `events`, starting from
/// `running` (each message stops it exactly when it is `Quit`, as
/// [`App::handle_event`] states).
pub open spec fn running_after(running: bool, events: Seq<EventContainer>) -> bool
    decreases events.len(),
{
    if events.len() == 0 {
        running
    } else {
        running_after(running, events.drop_last()) && !(events.last() is Quit)
    }
}

/// The main loop handles messages until the first `Quit`: when the `k`-th
/// message is the first `Quit`, the loop still runs after each of the first
/// `k - 1` messages (so it draws a frame and takes a message `k` times) and
/// stops after the `k`-th.
pub proof fn law_loop_runs_until_first_quit(events: Seq<EventContainer>)
    requires
        events.len() > 0,
        events.last() is Quit,
        forall|i: int| 0 <= i < events.len() - 1 ==> !(#[trigger] events[i] is Quit),
    ensures
        forall|j: int| 0 <= j < events.len() ==> #[trigger] running_after(true, events.take(j)),
        !running_after(true, events),
{
    assert forall|j: int| 0 <= j < events.len() implies #[trigger] running_after(true, events.take(j)) by {
        lemma_running_prefix(events, j);
    }
}

proof fn lemma_running_prefix(events: Seq<EventContainer>, j: int)
    requires
        0 <= j < events.len(),
        forall|i: int| 0 <= i < events.len() - 1 ==> !(#[trigger] events[i] is Quit),
    ensures
        running_after(true, events.take(j)),
    decreases j,
{
    if j > 0 {
        lemma_running_prefix(events, j - 1);
        assert(events.take(j).drop_last() =~= events.take(j - 1));
        assert(events.take(j).last() == events[j - 1]);
    } else {
        assert(events.take(0).len() == 0);
    }
}

} // verus!
