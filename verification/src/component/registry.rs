//! Storage for the mounted components, keyed by their IDs.

use vstd::prelude::*;
use crate::command::{UiAction, UiActionView, actions_view};
use crate::component::{Component, ComponentKind, EventOutcome, OutcomeView, RenderContext};
use crate::event::{Event, EventView};
use crate::geometry::Rect;
use crate::layout::ComponentId;
use crate::seq_search::{first_index, is_first, lemma_first_exists, lemma_first_found, lemma_first_is_first, lemma_first_none};

verus! {

/// Predicate: the component model carries `id`.
pub open spec fn model_has_id<C: Component>(id: ComponentId) -> spec_fn(C::V) -> bool {
    |m: C::V| C::spec_id(m) == id
}

/// The IDs of a list of component models.
pub open spec fn model_ids<C: Component>(models: Seq<C::V>) -> Seq<ComponentId> {
    models.map_values(|m: C::V| C::spec_id(m))
}

/// Every model satisfies the component invariant and no two share an ID.
pub open spec fn models_wf<C: Component>(models: Seq<C::V>) -> bool {
    &&& forall|i: int| 0 <= i < models.len() ==> C::inv(#[trigger] models[i])
    &&& forall|i: int, j: int|
        0 <= i < models.len() && 0 <= j < models.len() && i != j ==> C::spec_id(#[trigger] models[i])
            != C::spec_id(#[trigger] models[j])
}

/// The position of the component with `id`.
pub open spec fn index_of<C: Component>(models: Seq<C::V>, id: ComponentId) -> Option<int> {
    first_index(models, model_has_id::<C>(id))
}

/// Some component carries `id`.
pub open spec fn has_id<C: Component>(models: Seq<C::V>, id: ComponentId) -> bool {
    index_of::<C>(models, id) is Some
}

/// The actions of a list of outcomes, in order.
pub open spec fn outcome_actions(outcomes: Seq<OutcomeView>) -> Seq<UiActionView>
    decreases outcomes.len(),
{
    if outcomes.len() == 0 {
        seq![]
    } else {
        outcome_actions(outcomes.drop_last()) + match outcomes.last() {
            OutcomeView::Ignored => Seq::<UiActionView>::empty(),
            OutcomeView::Consumed(a) => a,
        }
    }
}

/// Predicate: the component consumes `event`.
pub open spec fn consumes<C: Component>(event: EventView) -> spec_fn(C::V) -> bool {
    |m: C::V| C::spec_on(m, event).1 is Consumed
}

/// Component `j` is offered `event` when the event is offered to the
/// components in turn until one consumes it: no component before it
/// consumes the event.
pub open spec fn offered_until_consumed<C: Component>(models: Seq<C::V>, event: EventView, j: int) -> bool {
    forall|i: int| 0 <= i < j ==> !(#[trigger] C::spec_on(models[i], event).1 is Consumed)
}

/// Position up to which `event` is offered when it is offered until consumed.
pub open spec fn till_consumed_stop<C: Component>(models: Seq<C::V>, event: EventView) -> int {
    match first_index(models, consumes::<C>(event)) {
        Some(k) => k,
        None => models.len() - 1,
    }
}

/// Models after offering `event` to each component in turn until one consumes it.
pub open spec fn till_consumed_models<C: Component>(models: Seq<C::V>, event: EventView) -> Seq<C::V> {
    Seq::new(
        models.len(),
        |j: int|
            if j <= till_consumed_stop::<C>(models, event) {
                C::spec_on(models[j], event).0
            } else {
                models[j]
            },
    )
}

/// Outcome of offering `event` until consumed: the consumer's, or `Ignored`.
pub open spec fn till_consumed_outcome<C: Component>(models: Seq<C::V>, event: EventView) -> OutcomeView {
    match first_index(models, consumes::<C>(event)) {
        Some(k) => C::spec_on(models[k], event).1,
        None => OutcomeView::Ignored,
    }
}

/// Stores all mounted components, keyed by their [`ComponentId`].
pub struct ComponentRegistry<C> {
    components: Vec<C>,
}

impl<C: Component> ComponentRegistry<C> {
    /// The component models, in insertion order.
    pub closed spec fn spec_models(&self) -> Seq<C::V> {
        self.components@.map_values(|c: C| c@)
    }

    /// No two components share an ID and each satisfies its invariant.
    pub open spec fn wf(&self) -> bool {
        models_wf::<C>(self.spec_models())
    }

    /// An empty registry.
    pub fn new() -> (r: ComponentRegistry<C>)
        ensures
            r.spec_models() == Seq::<C::V>::empty(),
            r.wf(),
    {
        let r = ComponentRegistry { components: Vec::new() };
        assert(r.spec_models() =~= Seq::<C::V>::empty());
        r
    }

    fn position(&self, id: &ComponentId) -> (r: Option<usize>)
        ensures
            match r {
                Some(i) => index_of::<C>(self.spec_models(), *id) == Some(i as int),
                None => index_of::<C>(self.spec_models(), *id) is None,
            },
    {
        let ghost models = self.spec_models();
        let mut i: usize = 0;
        while i < self.components.len()
            invariant
                models == self.spec_models(),
                models.len() == self.components@.len(),
                i <= self.components.len(),
                forall|j: int| 0 <= j < i ==> !model_has_id::<C>(*id)(#[trigger] models[j]),
            decreases self.components.len() - i,
        {
            if self.components[i].id() == *id {
                proof {
                    assert(models[i as int] == self.components@[i as int]@);
                    assert(is_first(models, model_has_id::<C>(*id), i as int));
                    lemma_first_found(models, model_has_id::<C>(*id), i as int);
                }
                return Some(i);
            }
            i = i + 1;
        }
        proof {
            lemma_first_none(models, model_has_id::<C>(*id));
        }
        None
    }

    /// Insert a component; one with the same ID is replaced.
    pub fn insert(&mut self, component: C)
        requires
            old(self).wf(),
            C::inv(component@),
        ensures
            final(self).wf(),
            final(self).spec_models() == inserted_models::<C>(old(self).spec_models(), component@),
    {
        let id = component.id();
        let ghost cm = component@;
        match self.position(&id) {
            Some(i) => {
                proof {
                    lemma_first_is_first(self.spec_models(), model_has_id::<C>(id));
                }
                self.components.set(i, component);
                assert(self.spec_models() =~= old(self).spec_models().update(i as int, cm));
            },
            None => {
                self.components.push(component);
                assert(self.spec_models() =~= old(self).spec_models().push(cm));
                proof {
                    let models = old(self).spec_models();
                    assert forall|j: int| 0 <= j < models.len() implies C::spec_id(#[trigger] models[j]) != id by {
                        if C::spec_id(models[j]) == id {
                            lemma_first_exists(models, model_has_id::<C>(id), j);
                        }
                    }
                }
            },
        }
    }

    /// Return `true` if a component with `id` is registered.
    pub fn contains(&self, id: &ComponentId) -> (r: bool)
        ensures
            r == has_id::<C>(self.spec_models(), *id),
    {
        self.position(id).is_some()
    }

    /// All registered component IDs, in insertion order.
    pub fn ids(&self) -> (r: Vec<ComponentId>)
        ensures
            r@ == model_ids::<C>(self.spec_models()),
    {
        let mut out: Vec<ComponentId> = Vec::new();
        let mut i: usize = 0;
        while i < self.components.len()
            invariant
                i <= self.components.len(),
                out@ == model_ids::<C>(self.spec_models().take(i as int)),
            decreases self.components.len() - i,
        {
            out.push(self.components[i].id());
            assert(model_ids::<C>(self.spec_models().take(i + 1)) =~= model_ids::<C>(self.spec_models().take(i as int)).push(
                C::spec_id(self.spec_models()[i as int]),
            ));
            i = i + 1;
        }
        assert(self.spec_models().take(self.components.len() as int) =~= self.spec_models());
        out
    }

    /// The component with `id`, if present.
    pub fn get(&self, id: &ComponentId) -> (r: Option<&C>)
        ensures
            match r {
                Some(c) => index_of::<C>(self.spec_models(), *id) is Some && c@ == self.spec_models()[index_of::<C>(
                    self.spec_models(),
                    *id,
                )->0],
                None => index_of::<C>(self.spec_models(), *id) is None,
            },
    {
        match self.position(id) {
            Some(i) => Some(&self.components[i]),
            None => None,
        }
    }

    /// Return the kind string of the component with `id`, if present.
    pub fn get_kind(&self, id: &ComponentId) -> (r: Option<ComponentKind>)
        ensures
            match r {
                Some(k) => index_of::<C>(self.spec_models(), *id) is Some && k@ == C::spec_kind(
                    self.spec_models()[index_of::<C>(self.spec_models(), *id)->0],
                ),
                None => index_of::<C>(self.spec_models(), *id) is None,
            },
    {
        match self.position(id) {
            Some(i) => Some(self.components[i].get_kind()),
            None => None,
        }
    }

    /// Apply a component operation to the component at `i`.
    fn on_at(&mut self, i: usize, event: Event) -> (r: EventOutcome)
        requires
            old(self).wf(),
            i < old(self).spec_models().len(),
        ensures
            final(self).wf(),
            final(self).spec_models() == old(self).spec_models().update(
                i as int,
                C::spec_on(old(self).spec_models()[i as int], event@).0,
            ),
            r@ == C::spec_on(old(self).spec_models()[i as int], event@).1,
    {
        let ghost models = self.spec_models();
        proof {
            C::lemma_steps_preserve(models[i as int], event@, Rect { x: 0, y: 0, width: 0, height: 0 }, RenderContext { focused: false, focus_id: ComponentId(0) });
        }
        let mut c = self.components.remove(i);
        let r = c.on(event);
        self.components.insert(i, c);
        assert(self.spec_models() =~= models.update(i as int, C::spec_on(models[i as int], event@).0));
        r
    }

    /// Dispatch an event to the component with `id`; `Ignored` when no
    /// component with that ID is registered.
    pub fn on(&mut self, id: &ComponentId, event: Event) -> (r: EventOutcome)
        requires
            old(self).wf(),
        ensures
            final(self).wf(),
            match index_of::<C>(old(self).spec_models(), *id) {
                Some(i) => {
                    &&& final(self).spec_models() == old(self).spec_models().update(
                        i,
                        C::spec_on(old(self).spec_models()[i], event@).0,
                    )
                    &&& r@ == C::spec_on(old(self).spec_models()[i], event@).1
                },
                None => final(self).spec_models() == old(self).spec_models() && r@ == OutcomeView::Ignored,
            },
    {
        match self.position(id) {
            Some(i) => self.on_at(i, event),
            None => EventOutcome::Ignored,
        }
    }

    /// Send a copy of `event` to every component, in insertion order, and
    /// return their outcomes in the same order.
    pub fn on_broad_cast(&mut self, event: &Event) -> (r: Vec<EventOutcome>)
        requires
            old(self).wf(),
        ensures
            final(self).wf(),
            final(self).spec_models() == old(self).spec_models().map_values(|m: C::V| C::spec_on(m, event@).0),
            r@.map_values(|o: EventOutcome| o@) == old(self).spec_models().map_values(|m: C::V| C::spec_on(m, event@).1),
    {
        let ghost models = self.spec_models();
        let mut out: Vec<EventOutcome> = Vec::new();
        let mut i: usize = 0;
        while i < self.components.len()
            invariant
                self.wf(),
                self.spec_models().len() == models.len(),
                i <= models.len(),
                forall|j: int| 0 <= j < i ==> #[trigger] self.spec_models()[j] == C::spec_on(models[j], event@).0,
                forall|j: int| i <= j < models.len() ==> #[trigger] self.spec_models()[j] == models[j],
                out@.len() == i,
                forall|j: int| 0 <= j < i ==> (#[trigger] out@[j])@ == C::spec_on(models[j], event@).1,
            decreases models.len() - i,
        {
            let o = self.on_at(i, event.box_clone());
            out.push(o);
            i = i + 1;
        }
        assert(self.spec_models() =~= models.map_values(|m: C::V| C::spec_on(m, event@).0));
        assert(out@.map_values(|o: EventOutcome| o@) =~= models.map_values(|m: C::V| C::spec_on(m, event@).1));
        out
    }

    /// Offer `event` to the components in insertion order until one consumes
    /// it; returns that component's outcome, or `Ignored` when none did.
    pub fn on_till_consumed(&mut self, event: &Event) -> (r: EventOutcome)
        requires
            old(self).wf(),
        ensures
            final(self).wf(),
            final(self).spec_models() == till_consumed_models::<C>(old(self).spec_models(), event@),
            r@ == till_consumed_outcome::<C>(old(self).spec_models(), event@),
            final(self).spec_models().len() == old(self).spec_models().len(),
            forall|j: int|
                0 <= j < old(self).spec_models().len() ==> #[trigger] final(self).spec_models()[j] == if offered_until_consumed::<C>(
                    old(self).spec_models(),
                    event@,
                    j,
                ) {
                    C::spec_on(old(self).spec_models()[j], event@).0
                } else {
                    old(self).spec_models()[j]
                },
    {
        let ghost models = self.spec_models();
        let mut i: usize = 0;
        while i < self.components.len()
            invariant
                self.wf(),
                self.spec_models().len() == models.len(),
                i <= models.len(),
                forall|j: int| 0 <= j < i ==> #[trigger] self.spec_models()[j] == C::spec_on(models[j], event@).0,
                forall|j: int| i <= j < models.len() ==> #[trigger] self.spec_models()[j] == models[j],
                forall|j: int| 0 <= j < i ==> !consumes::<C>(event@)(#[trigger] models[j]),
                models == old(self).spec_models(),
            decreases models.len() - i,
        {
            let o = self.on_at(i, event.box_clone());
            let ghost ov = o@;
            match o {
                EventOutcome::Consumed(actions) => {
                    proof {
                        assert(ov == C::spec_on(models[i as int], event@).1);
                        assert(is_first(models, consumes::<C>(event@), i as int));
                        lemma_first_found(models, consumes::<C>(event@), i as int);
                        assert(self.spec_models() =~= till_consumed_models::<C>(models, event@));
                    }
                    return EventOutcome::Consumed(actions);
                },
                EventOutcome::Ignored => {},
            }
            i = i + 1;
        }
        proof {
            lemma_first_none(models, consumes::<C>(event@));
            assert(self.spec_models() =~= till_consumed_models::<C>(models, event@));
        }
        EventOutcome::Ignored
    }

    /// Prepare the component with `id` for drawing into `area`, if present.
    pub fn render(&mut self, id: &ComponentId, area: Rect, ctx: RenderContext)
        requires
            old(self).wf(),
        ensures
            final(self).wf(),
            final(self).spec_models() == match index_of::<C>(old(self).spec_models(), *id) {
                Some(i) => old(self).spec_models().update(i, C::spec_prepare(old(self).spec_models()[i], area, ctx)),
                None => old(self).spec_models(),
            },
    {
        match self.position(id) {
            Some(i) => {
                let ghost models = self.spec_models();
                proof {
                    C::lemma_steps_preserve(models[i as int], EventView::Tick, area, ctx);
                }
                let mut c = self.components.remove(i);
                c.prepare_render(area, ctx);
                self.components.insert(i, c);
                assert(self.spec_models() =~= models.update(i as int, C::spec_prepare(models[i as int], area, ctx)));
            },
            None => {},
        }
    }
}

} // verus!

verus! {

/// Replacing models by ones with the same IDs keeps every lookup by ID.
pub proof fn lemma_same_ids<C: Component>(old_models: Seq<C::V>, new_models: Seq<C::V>)
    requires
        old_models.len() == new_models.len(),
        forall|j: int| 0 <= j < old_models.len() ==> C::spec_id(#[trigger] new_models[j]) == C::spec_id(old_models[j]),
    ensures
        forall|id: ComponentId| #[trigger] index_of::<C>(new_models, id) == index_of::<C>(old_models, id),
        model_ids::<C>(new_models) == model_ids::<C>(old_models),
{
    assert forall|id: ComponentId| #[trigger] index_of::<C>(new_models, id) == index_of::<C>(old_models, id) by {
        crate::seq_search::lemma_first_index_same(new_models, model_has_id::<C>(id), old_models, model_has_id::<C>(id));
    }
    assert(model_ids::<C>(new_models) =~= model_ids::<C>(old_models));
}

} // verus!

verus! {

/// The models after inserting a component with model `m`: it replaces the
/// component with the same ID, or is appended.
pub open spec fn inserted_models<C: Component>(models: Seq<C::V>, m: C::V) -> Seq<C::V> {
    match index_of::<C>(models, C::spec_id(m)) {
        Some(i) => models.update(i, m),
        None => models.push(m),
    }
}

/// What is inserted is found: right after a component is inserted, a lookup
/// by its ID finds exactly that component, and a lookup by any other ID
/// finds what it found before.
pub proof fn law_lookup_after_insert<C: Component>(models: Seq<C::V>, m: C::V, other: ComponentId)
    requires
        models_wf::<C>(models),
    ensures
        ({
            let after = inserted_models::<C>(models, m);
            &&& index_of::<C>(after, C::spec_id(m)) is Some
            &&& after[index_of::<C>(after, C::spec_id(m))->0] == m
            &&& other != C::spec_id(m) ==> match index_of::<C>(models, other) {
                Some(k) => index_of::<C>(after, other) is Some && after[index_of::<C>(after, other)->0] == models[k],
                None => index_of::<C>(after, other) is None,
            }
        }),
{
    let id = C::spec_id(m);
    let after = inserted_models::<C>(models, m);
    let n = models.len() as int;
    match index_of::<C>(models, id) {
        Some(i) => {
            lemma_first_is_first(models, model_has_id::<C>(id));
            assert(after == models.update(i, m));
            assert(is_first(after, model_has_id::<C>(id), i)) by {
                assert forall|j: int| 0 <= j < i implies !model_has_id::<C>(id)(#[trigger] after[j]) by {
                    assert(after[j] == models[j]);
                }
            }
            lemma_first_found(after, model_has_id::<C>(id), i);
            if other != id {
                match index_of::<C>(models, other) {
                    Some(k) => {
                        lemma_first_is_first(models, model_has_id::<C>(other));
                        assert(k != i);
                        assert(is_first(after, model_has_id::<C>(other), k)) by {
                            assert forall|j: int| 0 <= j < k implies !model_has_id::<C>(other)(#[trigger] after[j]) by {
                                if j != i {
                                    assert(after[j] == models[j]);
                                }
                            }
                        }
                        lemma_first_found(after, model_has_id::<C>(other), k);
                    },
                    None => {
                        assert forall|j: int| 0 <= j < after.len() implies !model_has_id::<C>(other)(#[trigger] after[j]) by {
                            if j != i {
                                assert(after[j] == models[j]);
                                if C::spec_id(models[j]) == other {
                                    lemma_first_exists(models, model_has_id::<C>(other), j);
                                }
                            }
                        }
                        lemma_first_none(after, model_has_id::<C>(other));
                    },
                }
            }
        },
        None => {
            assert(after == models.push(m));
            assert(is_first(after, model_has_id::<C>(id), n)) by {
                assert forall|j: int| 0 <= j < n implies !model_has_id::<C>(id)(#[trigger] after[j]) by {
                    assert(after[j] == models[j]);
                    if C::spec_id(models[j]) == id {
                        lemma_first_exists(models, model_has_id::<C>(id), j);
                    }
                }
            }
            lemma_first_found(after, model_has_id::<C>(id), n);
            if other != id {
                match index_of::<C>(models, other) {
                    Some(k) => {
                        lemma_first_is_first(models, model_has_id::<C>(other));
                        assert(is_first(after, model_has_id::<C>(other), k)) by {
                            assert forall|j: int| 0 <= j < k implies !model_has_id::<C>(other)(#[trigger] after[j]) by {
                                assert(after[j] == models[j]);
                            }
                        }
                        lemma_first_found(after, model_has_id::<C>(other), k);
                    },
                    None => {
                        assert forall|j: int| 0 <= j < after.len() implies !model_has_id::<C>(other)(#[trigger] after[j]) by {
                            if j < n {
                                assert(after[j] == models[j]);
                                if C::spec_id(models[j]) == other {
                                    lemma_first_exists(models, model_has_id::<C>(other), j);
                                }
                            }
                        }
                        lemma_first_none(after, model_has_id::<C>(other));
                    },
                }
            }
        },
    }
}

} // verus!

verus! {

/// Offering an event until it is consumed stops at the first consumer: the
/// components up to and including the first one that consumes the event
/// handle it, every component after it is left as it was, and the outcome
/// is that consumer's (`Ignored` when no component consumes it).
pub proof fn law_offer_stops_at_first_consumer<C: Component>(models: Seq<C::V>, event: EventView)
    ensures
        till_consumed_models::<C>(models, event).len() == models.len(),
        forall|j: int|
            0 <= j < models.len() ==> #[trigger] till_consumed_models::<C>(models, event)[j] == if offered_until_consumed::<C>(
                models,
                event,
                j,
            ) {
                C::spec_on(models[j], event).0
            } else {
                models[j]
            },
        forall|k: int|
            0 <= k < models.len() && offered_until_consumed::<C>(models, event, k) && (#[trigger] C::spec_on(
                models[k],
                event,
            )).1 is Consumed ==> till_consumed_outcome::<C>(models, event) == C::spec_on(models[k], event).1,
        (forall|k: int| 0 <= k < models.len() ==> !(#[trigger] C::spec_on(models[k], event).1 is Consumed))
            ==> till_consumed_outcome::<C>(models, event) == OutcomeView::Ignored,
{
    let p = consumes::<C>(event);
    match first_index(models, p) {
        Some(k) => {
            lemma_first_is_first(models, p);
            assert forall|j: int| 0 <= j < models.len() implies #[trigger] till_consumed_models::<C>(models, event)[j]
                == if offered_until_consumed::<C>(models, event, j) {
                C::spec_on(models[j], event).0
            } else {
                models[j]
            } by {
                if j <= k {
                    assert forall|i: int| 0 <= i < j implies !(#[trigger] C::spec_on(models[i], event).1 is Consumed) by {
                        assert(!p(models[i]));
                    }
                } else {
                    assert(p(models[k]));
                    assert(!offered_until_consumed::<C>(models, event, j)) by {
                        assert(C::spec_on(models[k], event).1 is Consumed);
                    }
                }
            }
            assert forall|q: int|
                0 <= q < models.len() && offered_until_consumed::<C>(models, event, q) && (#[trigger] C::spec_on(
                    models[q],
                    event,
                )).1 is Consumed implies till_consumed_outcome::<C>(models, event) == C::spec_on(models[q], event).1 by {
                if q < k {
                    assert(!p(models[q]));
                } else if q > k {
                    assert(C::spec_on(models[k], event).1 is Consumed);
                }
            }
        },
        None => {
            assert forall|j: int| 0 <= j < models.len() implies #[trigger] till_consumed_models::<C>(models, event)[j]
                == if offered_until_consumed::<C>(models, event, j) {
                C::spec_on(models[j], event).0
            } else {
                models[j]
            } by {
                assert forall|i: int| 0 <= i < j implies !(#[trigger] C::spec_on(models[i], event).1 is Consumed) by {
                    if C::spec_on(models[i], event).1 is Consumed {
                        assert(p(models[i]));
                        lemma_first_exists(models, p, i);
                    }
                }
            }
            assert forall|q: int|
                0 <= q < models.len() && offered_until_consumed::<C>(models, event, q) && (#[trigger] C::spec_on(
                    models[q],
                    event,
                )).1 is Consumed implies till_consumed_outcome::<C>(models, event) == C::spec_on(models[q], event).1 by {
                assert(p(models[q]));
                lemma_first_exists(models, p, q);
            }
        },
    }
}

} // verus!
