//! Validated builder for [`Ui`].
//!
//! [`UiBuilder`] collects the layout tree, the component instances, the
//! initial focus and the input manager, and validates the combination at
//! [`build`](UiBuilder::build) time.

use vstd::prelude::*;
use crate::component::registry::{model_ids, models_wf};
use crate::component::{Component, ComponentRegistry};
use crate::focus::FocusManager;
use crate::input::{InputManager, default_key_app, default_key_component, default_pointer_component};
use crate::input::KeyStroke;
use crate::command::PointerGesture;
use crate::component::ComponentKind;
use crate::layout::{ComponentId, LayoutSpec};
use crate::seq_search::{first_index, is_first, lemma_first_found, lemma_first_none};
use crate::ui::Ui;

verus! {

/// Why a UI configuration was rejected.
#[derive(Debug)]
pub enum BuildError {
    /// No layout was set.
    MissingLayout,
    /// The layout has no leaf.
    NoLeaves,
    /// A leaf references a component that is not registered.
    MissingComponent(ComponentId),
    /// Two leaves share a focus ID.
    DuplicateFocus(ComponentId),
    /// The initial focus ID is not a focus ID of the layout.
    InitialFocusNotInLayout(ComponentId),
    /// Registered components that no leaf uses.
    UnusedComponents(Vec<ComponentId>),
}

/// The value of a [`BuildError`].
pub enum BuildErrorView {
    MissingLayout,
    NoLeaves,
    MissingComponent(ComponentId),
    DuplicateFocus(ComponentId),
    InitialFocusNotInLayout(ComponentId),
    UnusedComponents(Seq<ComponentId>),
}

impl View for BuildError {
    type V = BuildErrorView;

    open spec fn view(&self) -> BuildErrorView {
        match self {
            BuildError::MissingLayout => BuildErrorView::MissingLayout,
            BuildError::NoLeaves => BuildErrorView::NoLeaves,
            BuildError::MissingComponent(id) => BuildErrorView::MissingComponent(*id),
            BuildError::DuplicateFocus(id) => BuildErrorView::DuplicateFocus(*id),
            BuildError::InitialFocusNotInLayout(id) => BuildErrorView::InitialFocusNotInLayout(*id),
            BuildError::UnusedComponents(ids) => BuildErrorView::UnusedComponents(ids@),
        }
    }
}

/// The component IDs of a list of leaves.
pub open spec fn leaf_components(leaves: Seq<(ComponentId, ComponentId)>) -> Seq<ComponentId> {
    leaves.map_values(|l: (ComponentId, ComponentId)| l.0)
}

/// The focus IDs of a list of leaves.
pub open spec fn leaf_focuses(leaves: Seq<(ComponentId, ComponentId)>) -> Seq<ComponentId> {
    leaves.map_values(|l: (ComponentId, ComponentId)| l.1)
}

/// Leaf `i` references an unregistered component or repeats an earlier focus ID.
pub open spec fn leaf_is_bad(leaves: Seq<(ComponentId, ComponentId)>, ids: Seq<ComponentId>, i: int) -> bool {
    !ids.contains(leaves[i].0) || exists|j: int| 0 <= j < i && (#[trigger] leaves[j]).1 == leaves[i].1
}

/// Predicate over leaf positions: the leaf is bad.
pub open spec fn bad_leaf(leaves: Seq<(ComponentId, ComponentId)>, ids: Seq<ComponentId>) -> spec_fn(int) -> bool {
    |i: int| leaf_is_bad(leaves, ids, i)
}

/// The positions `0 .. n`.
pub open spec fn positions(n: nat) -> Seq<int> {
    Seq::new(n, |i: int| i)
}

/// Predicate: no leaf uses the component.
pub open spec fn is_unused(leaves: Seq<(ComponentId, ComponentId)>) -> spec_fn(ComponentId) -> bool {
    |id: ComponentId| !leaf_components(leaves).contains(id)
}

/// The registered IDs that no leaf uses, in registration order.
pub open spec fn unused_ids(ids: Seq<ComponentId>, leaves: Seq<(ComponentId, ComponentId)>) -> Seq<ComponentId> {
    ids.filter(is_unused(leaves))
}

/// The outcome of validating a configuration: the initial focus of the UI,
/// or the first violated rule.
pub open spec fn build_outcome(
    layout: Option<LayoutSpec>,
    ids: Seq<ComponentId>,
    initial: Option<ComponentId>,
) -> Result<ComponentId, BuildErrorView> {
    match layout {
        None => Err(BuildErrorView::MissingLayout),
        Some(l) => {
            let leaves = l.spec_leaves();
            if leaves.len() == 0 {
                Err(BuildErrorView::NoLeaves)
            } else {
                match first_index(positions(leaves.len()), bad_leaf(leaves, ids)) {
                    Some(i) => if !ids.contains(leaves[i].0) {
                        Err(BuildErrorView::MissingComponent(leaves[i].0))
                    } else {
                        Err(BuildErrorView::DuplicateFocus(leaves[i].1))
                    },
                    None => {
                        let init = match initial {
                            Some(f) => f,
                            None => leaves[0].1,
                        };
                        if !leaf_focuses(leaves).contains(init) {
                            Err(BuildErrorView::InitialFocusNotInLayout(init))
                        } else if unused_ids(ids, leaves).len() > 0 {
                            Err(BuildErrorView::UnusedComponents(unused_ids(ids, leaves)))
                        } else {
                            Ok(init)
                        }
                    },
                }
            }
        },
    }
}

/// Builder for [`Ui`].
///
/// At [`build`](UiBuilder::build) time: the layout must contain at least one
/// leaf; every leaf must reference a registered component; focus IDs must be
/// unique; the initial focus must be in the layout; every registered
/// component must appear in the layout.
pub struct UiBuilder<C> {
    layout: Option<LayoutSpec>,
    components: ComponentRegistry<C>,
    initial_focus: Option<ComponentId>,
    input: Option<InputManager>,
}

fn contains_id(v: &Vec<ComponentId>, id: ComponentId) -> (r: bool)
    ensures
        r == v@.contains(id),
{
    let mut i: usize = 0;
    while i < v.len()
        invariant
            i <= v.len(),
            forall|j: int| 0 <= j < i ==> v@[j] != id,
        decreases v.len() - i,
    {
        if v[i] == id {
            assert(v@[i as int] == id);
            return true;
        }
        i = i + 1;
    }
    false
}

impl<C: Component> UiBuilder<C> {
    /// The layout set so far.
    pub closed spec fn spec_layout(&self) -> Option<LayoutSpec> {
        self.layout
    }

    /// The registered component models.
    pub closed spec fn spec_models(&self) -> Seq<C::V> {
        self.components.spec_models()
    }

    /// The initial focus set so far.
    pub closed spec fn spec_initial_focus(&self) -> Option<ComponentId> {
        self.initial_focus
    }

    /// The input manager set so far.
    pub closed spec fn spec_input(&self) -> Option<InputManager> {
        self.input
    }

    /// An empty builder.
    pub fn new() -> (r: UiBuilder<C>)
        ensures
            r.spec_layout() is None,
            r.spec_models() == Seq::<C::V>::empty(),
            r.spec_initial_focus() is None,
            r.spec_input() is None,
            models_wf::<C>(r.spec_models()),
    {
        UiBuilder { layout: None, components: ComponentRegistry::new(), initial_focus: None, input: None }
    }

    /// Register a component; one with the same ID is replaced.
    pub fn component(self, component: C) -> (r: UiBuilder<C>)
        requires
            models_wf::<C>(self.spec_models()),
            C::inv(component@),
        ensures
            models_wf::<C>(r.spec_models()),
            r.spec_models() == crate::component::registry::inserted_models::<C>(self.spec_models(), component@),
            r.spec_layout() == self.spec_layout(),
            r.spec_initial_focus() == self.spec_initial_focus(),
            r.spec_input() == self.spec_input(),
    {
        let mut s = self;
        s.components.insert(component);
        s
    }

    /// Set the layout tree.
    pub fn layout(self, layout: LayoutSpec) -> (r: UiBuilder<C>)
        ensures
            r.spec_layout() == Some(layout),
            r.spec_models() == self.spec_models(),
            r.spec_initial_focus() == self.spec_initial_focus(),
            r.spec_input() == self.spec_input(),
    {
        let mut s = self;
        s.layout = Some(layout);
        s
    }

    /// Set the focus ID that holds focus when the UI first renders (by
    /// default, the first leaf's).
    pub fn initial_focus(self, focus: ComponentId) -> (r: UiBuilder<C>)
        ensures
            r.spec_initial_focus() == Some(focus),
            r.spec_layout() == self.spec_layout(),
            r.spec_models() == self.spec_models(),
            r.spec_input() == self.spec_input(),
    {
        let mut s = self;
        s.initial_focus = Some(focus);
        s
    }

    /// Override the default input manager.
    pub fn input(self, input: InputManager) -> (r: UiBuilder<C>)
        ensures
            r.spec_input() == Some(input),
            r.spec_layout() == self.spec_layout(),
            r.spec_models() == self.spec_models(),
            r.spec_initial_focus() == self.spec_initial_focus(),
    {
        let mut s = self;
        s.input = Some(input);
        s
    }

    /// Validate the configuration and construct a [`Ui`]: the first violated
    /// rule is reported, in the order layout, leaves, each leaf's component
    /// and focus, initial focus, unused components.
    pub fn build(self) -> (r: Result<Ui<C>, BuildError>)
        requires
            models_wf::<C>(self.spec_models()),
        ensures
            match build_outcome(self.spec_layout(), model_ids::<C>(self.spec_models()), self.spec_initial_focus()) {
                Ok(init) => r is Ok && {
                    let ui = r->Ok_0;
                    &&& ui.wf()
                    &&& Some(ui.spec_layout()) == self.spec_layout()
                    &&& ui.spec_models() == self.spec_models()
                    &&& ui.spec_current() == Some(init)
                    &&& ui.spec_regions() == Seq::<crate::focus::FocusRegion>::empty()
                    &&& match self.spec_input() {
                        Some(i) => ui.spec_input() == i,
                        None => {
                            &&& forall|s: KeyStroke| #[trigger] ui.spec_input().spec_key_app(s) == default_key_app(s)
                            &&& forall|k: ComponentKind, s: KeyStroke| #[trigger]
                                ui.spec_input().spec_key_component(k, s) == default_key_component(k, s)
                            &&& forall|g: PointerGesture| #[trigger] ui.spec_input().spec_pointer_app(g) is None
                            &&& forall|k: ComponentKind, g: PointerGesture| #[trigger]
                                ui.spec_input().spec_pointer_component(k, g) == default_pointer_component(k, g)
                        },
                    }
                },
                Err(e) => r is Err && r->Err_0@ == e,
            },
    {
        let ghost ids = model_ids::<C>(self.spec_models());
        let layout = match self.layout {
            Some(l) => l,
            None => return Err(BuildError::MissingLayout),
        };
        let input = match self.input {
            Some(i) => i,
            None => InputManager::default_keymap(),
        };
        let mut leaves: Vec<(ComponentId, ComponentId)> = Vec::new();
        layout.collect_leaves(&mut leaves);
        assert(leaves@ =~= layout.spec_leaves());
        if leaves.len() == 0 {
            return Err(BuildError::NoLeaves);
        }
        let ghost lv = leaves@;
        let mut focus_ids: Vec<ComponentId> = Vec::new();
        let mut i: usize = 0;
        while i < leaves.len()
            invariant
                lv == leaves@,
                lv == layout.spec_leaves(),
                lv.len() > 0,
                self.spec_layout() == Some(layout),
                ids == model_ids::<C>(self.components.spec_models()),
                self.components.spec_models() == self.spec_models(),
                i <= leaves.len(),
                focus_ids@ == leaf_focuses(lv.take(i as int)),
                forall|j: int| 0 <= j < i ==> !leaf_is_bad(lv, ids, j),
            decreases leaves.len() - i,
        {
            let (component, focus) = leaves[i];
            if !self.components.contains(&component) {
                proof {
                    assert(!ids.contains(component)) by {
                        if ids.contains(component) {
                            let k = choose|k: int| 0 <= k < ids.len() && ids[k] == component;
                            crate::seq_search::lemma_first_exists(
                                self.components.spec_models(),
                                crate::component::registry::model_has_id::<C>(component),
                                k,
                            );
                        }
                    }
                    lemma_first_bad(lv, ids, i as int);
                }
                return Err(BuildError::MissingComponent(component));
            }
            if contains_id(&focus_ids, focus) {
                proof {
                    assert(ids.contains(component)) by {
                        let k = crate::component::registry::index_of::<C>(self.components.spec_models(), component)->0;
                        crate::seq_search::lemma_first_is_first(
                            self.components.spec_models(),
                            crate::component::registry::model_has_id::<C>(component),
                        );
                        assert(ids[k] == component);
                    }
                    let k = choose|k: int| 0 <= k < focus_ids@.len() && focus_ids@[k] == focus;
                    assert(lv[k].1 == lv[i as int].1);
                    lemma_first_bad(lv, ids, i as int);
                }
                return Err(BuildError::DuplicateFocus(focus));
            }
            proof {
                assert(ids.contains(component)) by {
                    let k = crate::component::registry::index_of::<C>(self.components.spec_models(), component)->0;
                    crate::seq_search::lemma_first_is_first(
                        self.components.spec_models(),
                        crate::component::registry::model_has_id::<C>(component),
                    );
                    assert(ids[k] == component);
                }
                assert(!leaf_is_bad(lv, ids, i as int)) by {
                    if exists|j: int| 0 <= j < i && (#[trigger] lv[j]).1 == lv[i as int].1 {
                        let j = choose|j: int| 0 <= j < i && (#[trigger] lv[j]).1 == lv[i as int].1;
                        assert(focus_ids@[j] == focus);
                    }
                }
            }
            focus_ids.push(focus);
            assert(leaf_focuses(lv.take(i + 1)) =~= leaf_focuses(lv.take(i as int)).push(focus));
            i = i + 1;
        }
        proof {
            assert(lv.take(lv.len() as int) =~= lv);
            assert forall|j: int| 0 <= j < positions(lv.len()).len() implies !bad_leaf(lv, ids)(#[trigger] positions(lv.len())[j]) by {}
            lemma_first_none(positions(lv.len()), bad_leaf(lv, ids));
        }
        let initial = match self.initial_focus {
            Some(f) => f,
            None => leaves[0].1,
        };
        if !contains_id(&focus_ids, initial) {
            return Err(BuildError::InitialFocusNotInLayout(initial));
        }
        let all_ids = self.components.ids();
        let mut unused: Vec<ComponentId> = Vec::new();
        let mut components_of_leaves: Vec<ComponentId> = Vec::new();
        let mut j: usize = 0;
        while j < leaves.len()
            invariant
                lv == leaves@,
                j <= leaves.len(),
                components_of_leaves@ == leaf_components(lv.take(j as int)),
            decreases leaves.len() - j,
        {
            components_of_leaves.push(leaves[j].0);
            assert(leaf_components(lv.take(j + 1)) =~= leaf_components(lv.take(j as int)).push(lv[j as int].0));
            j = j + 1;
        }
        assert(lv.take(lv.len() as int) =~= lv);
        let mut k: usize = 0;
        while k < all_ids.len()
            invariant
                all_ids@ == ids,
                components_of_leaves@ == leaf_components(lv),
                k <= all_ids.len(),
                unused@ == unused_ids(ids.take(k as int), lv),
            decreases all_ids.len() - k,
        {
            let id = all_ids[k];
            assert(ids.take(k + 1).drop_last() =~= ids.take(k as int));
            if !contains_id(&components_of_leaves, id) {
                unused.push(id);
            }
            assert(unused@ =~= unused_ids(ids.take(k + 1), lv)) by {
                reveal(Seq::filter);
            }
            k = k + 1;
        }
        assert(ids.take(ids.len() as int) =~= ids);
        if unused.len() > 0 {
            return Err(BuildError::UnusedComponents(unused));
        }
        proof {
            assert forall|x: int| 0 <= x < lv.len() implies crate::component::registry::has_id::<C>(self.components.spec_models(), (#[trigger] lv[x]).0) by {
                assert(!leaf_is_bad(lv, ids, x));
                let m = choose|m: int| 0 <= m < ids.len() && ids[m] == lv[x].0;
                crate::seq_search::lemma_first_exists(
                    self.components.spec_models(),
                    crate::component::registry::model_has_id::<C>(lv[x].0),
                    m,
                );
            }
            assert forall|a: int, b: int| 0 <= a < lv.len() && 0 <= b < lv.len() && a != b implies (#[trigger] lv[a]).1 != (#[trigger] lv[b]).1 by {
                if a < b {
                    assert(!leaf_is_bad(lv, ids, b));
                } else {
                    assert(!leaf_is_bad(lv, ids, a));
                }
            }
        }
        Ok(Ui::from_parts(layout, self.components, FocusManager::new(initial), input))
    }
}

proof fn lemma_first_bad(leaves: Seq<(ComponentId, ComponentId)>, ids: Seq<ComponentId>, i: int)
    requires
        0 <= i < leaves.len(),
        leaf_is_bad(leaves, ids, i),
        forall|j: int| 0 <= j < i ==> !leaf_is_bad(leaves, ids, j),
    ensures
        first_index(positions(leaves.len()), bad_leaf(leaves, ids)) == Some(i),
{
    assert(is_first(positions(leaves.len()), bad_leaf(leaves, ids), i));
    lemma_first_found(positions(leaves.len()), bad_leaf(leaves, ids), i);
}

} // verus!

verus! {

/// The configuration satisfies every rule of the builder: the layout is
/// set and has a leaf, every leaf's component is registered, focus IDs are
/// unique, the initial focus (the first leaf's by default) is a focus ID of
/// the layout, and every registered component is used.
pub open spec fn valid_configuration(layout: Option<LayoutSpec>, ids: Seq<ComponentId>, initial: Option<ComponentId>) -> bool {
    &&& layout is Some
    &&& layout->0.spec_leaves().len() > 0
    &&& forall|i: int| 0 <= i < layout->0.spec_leaves().len() ==> ids.contains(#[trigger] layout->0.spec_leaves()[i].0)
    &&& forall|a: int, b: int|
        0 <= a < b < layout->0.spec_leaves().len() ==> (#[trigger] layout->0.spec_leaves()[a]).1
            != (#[trigger] layout->0.spec_leaves()[b]).1
    &&& leaf_focuses(layout->0.spec_leaves()).contains(
        match initial {
            Some(f) => f,
            None => layout->0.spec_leaves()[0].1,
        },
    )
    &&& forall|k: int| 0 <= k < ids.len() ==> leaf_components(layout->0.spec_leaves()).contains(#[trigger] ids[k])
}

/// A configuration passes validation exactly when it satisfies every rule.
pub proof fn law_build_accepts_exactly_valid_configurations(
    layout: Option<LayoutSpec>,
    ids: Seq<ComponentId>,
    initial: Option<ComponentId>,
)
    ensures
        build_outcome(layout, ids, initial) is Ok <==> valid_configuration(layout, ids, initial),
{
    if layout is Some && layout->0.spec_leaves().len() > 0 {
        let leaves = layout->0.spec_leaves();
        let pos = positions(leaves.len());
        let unused = unused_ids(ids, leaves);
        let pred = is_unused(leaves);
        match first_index(pos, bad_leaf(leaves, ids)) {
            Some(i) => {
                crate::seq_search::lemma_first_is_first(pos, bad_leaf(leaves, ids));
                assert(leaf_is_bad(leaves, ids, i));
                if ids.contains(leaves[i].0) {
                    let j = choose|j: int| 0 <= j < i && (#[trigger] leaves[j]).1 == leaves[i].1;
                    assert(leaves[j].1 == leaves[i].1);
                }
                assert(!valid_configuration(layout, ids, initial));
            },
            None => {
                assert forall|i: int| 0 <= i < leaves.len() implies !leaf_is_bad(leaves, ids, i) by {
                    if leaf_is_bad(leaves, ids, i) {
                        assert(bad_leaf(leaves, ids)(pos[i]));
                        crate::seq_search::lemma_first_exists(pos, bad_leaf(leaves, ids), i);
                    }
                }
                assert forall|a: int, b: int| 0 <= a < b < leaves.len() implies (#[trigger] leaves[a]).1
                    != (#[trigger] leaves[b]).1 by {
                    assert(!leaf_is_bad(leaves, ids, b));
                }
                if unused.len() > 0 {
                    let u = unused[0];
                    ids.lemma_filter_pred(pred, 0);
                    assert(unused.contains(u));
                    ids.lemma_filter_contains_rev(pred, u);
                    assert(ids.contains(u));
                    let k = choose|k: int| 0 <= k < ids.len() && ids[k] == u;
                    assert(!leaf_components(leaves).contains(ids[k]));
                    assert(!valid_configuration(layout, ids, initial));
                } else {
                    assert forall|k: int| 0 <= k < ids.len() implies leaf_components(leaves).contains(#[trigger] ids[k]) by {
                        if !leaf_components(leaves).contains(ids[k]) {
                            ids.lemma_filter_contains(pred, k);
                            assert(unused.contains(ids[k]));
                        }
                    }
                    assert forall|i: int| 0 <= i < leaves.len() implies ids.contains(#[trigger] leaves[i].0) by {
                        assert(!leaf_is_bad(leaves, ids, i));
                    }
                }
            },
        }
    }
}

} // verus!
