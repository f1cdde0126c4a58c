//! Layout tree and region computation.

use vstd::prelude::*;
use crate::geometry::Rect;
use ratatui::layout::{Constraint as RC, Direction as RD, Layout, Rect as RR};
use crate::layout::Constraint::{Fill, Length, Max, Min, Percentage, Ratio};
use crate::layout::Direction::{Horizontal, Vertical};

verus! {

/// Unique identifier for a component instance or a focus slot.
///
/// The value is the 128-bit form of a UUID, so identifiers can be generated
/// when a component is constructed without any central registry.
#[derive(Clone, Copy, Debug, PartialEq, Eq, Structural, Hash)]
pub struct ComponentId(pub u128);

impl ComponentId {
    /// A fresh random identifier, drawn from `uuid::Uuid::new_v4`.
    ///
    /// The value is random: nothing is promised about it, in particular not
    /// that two calls give different identifiers.
    #[verifier::external_body]
    pub(crate) fn generate() -> (r: ComponentId) {
        ComponentId(uuid::Uuid::new_v4().as_u128())
    }
}

} // verus!

verus! {

/// Split direction of a layout node.
#[derive(Clone, Copy, Debug, PartialEq, Eq, Structural)]
pub enum Direction {
    Horizontal,
    Vertical,
}

/// Size constraint of one child of a split node (solved by ratatui's layout engine).
#[derive(Clone, Copy, Debug, PartialEq, Eq, Structural)]
pub enum Constraint {
    Min(u16),
    Max(u16),
    Length(u16),
    Percentage(u16),
    Ratio(u32, u32),
    Fill(u16),
}

/// `chunk` is an area ratatui's layout solver can give a child when it
/// splits `area` in `direction`: it spans the whole area across the split and
/// lies inside it along the split.
pub open spec fn split_fits(direction: Direction, area: Rect, chunk: Rect) -> bool {
    match direction {
        Direction::Horizontal => {
            &&& chunk.y == area.y
            &&& chunk.height == area.height
            &&& area.x <= chunk.x
            &&& chunk.x + chunk.width <= area.spec_right()
        },
        Direction::Vertical => {
            &&& chunk.x == area.x
            &&& chunk.width == area.width
            &&& area.y <= chunk.y
            &&& chunk.y + chunk.height <= area.spec_bottom()
        },
    }
}

/// `inner` lies inside `outer`.
pub open spec fn rect_within(inner: Rect, outer: Rect) -> bool {
    &&& outer.x <= inner.x
    &&& inner.x + inner.width <= outer.x + outer.width
    &&& outer.y <= inner.y
    &&& inner.y + inner.height <= outer.y + outer.height
}

/// Whether ratatui's layout solver may answer `chunks` when it splits `area`
/// in `direction` among `constraints`.  It is a relation, not a function:
/// when several layouts are optimal, the one the solver picks may differ
/// between processes.
pub uninterp spec fn solver_may_split(direction: Direction, constraints: Seq<Constraint>, area: Rect, chunks: Seq<Rect>) -> bool;

/// Split `area` among `constraints` with ratatui's constraint solver
/// (`Layout::new(direction, constraints).split(area)`).
///
/// Trusted: ratatui builds exactly one rectangle per constraint; each takes
/// the area's position and extent across the split, and its start and end
/// along the split are solver variables that required constraints keep
/// within the area (`Layout::try_split`, `changes_to_rects`).  Which sizes
/// the solver picks is only named, as one answer the solver may give
/// (`solver_may_split`): the solver walks hash maps seeded anew in each
/// process, so when several layouts are optimal the one it picks may differ
/// between processes.  ratatui panics ("failed to split") only if the
/// solver rejects its own constraints, which its required constraints rule
/// out, so no input is excluded.
#[verifier::external_body]
fn layout_split(direction: Direction, constraints: &Vec<Constraint>, area: Rect) -> (r: Vec<Rect>)
    ensures
        solver_may_split(direction, constraints@, area, r@),
        r@.len() == constraints@.len(),
        forall|i: int| 0 <= i < r@.len() ==> split_fits(direction, area, #[trigger] r@[i]),
{
    let d = match direction { Horizontal => RD::Horizontal, Vertical => RD::Vertical };
    let cs = constraints.iter().map(|c| match *c {
        Min(v) => RC::Min(v), Max(v) => RC::Max(v), Length(v) => RC::Length(v),
        Percentage(v) => RC::Percentage(v), Ratio(a, b) => RC::Ratio(a, b), Fill(v) => RC::Fill(v),
    });
    let rects = Layout::new(d, cs).split(RR { x: area.x, y: area.y, width: area.width, height: area.height });
    rects.iter().map(|r| Rect { x: r.x, y: r.y, width: r.width, height: r.height }).collect()
}

/// A node in the layout tree.
///
/// Every `Leaf` carries two IDs: `component`, the component that renders
/// into the slot, and `focus`, the focus slot that keyboard focus tracks.
/// They are equal for [`LayoutSpec::leaf`] and may differ for
/// [`LayoutSpec::focused_leaf`] (one component shown in several slots).
#[derive(Debug)]
pub enum LayoutSpec {
    /// A terminal node occupied by one component.
    Leaf { component: ComponentId, focus: ComponentId },
    /// A node that splits its area among child nodes.
    Split { direction: Direction, children: Vec<(Constraint, LayoutSpec)> },
}

/// The result of evaluating one leaf against a concrete area.
#[derive(Clone, Copy, Debug, PartialEq, Eq, Structural)]
pub struct LaidOutRegion {
    /// The component to render into `rect`.
    pub component: ComponentId,
    /// The focus identity for this region.
    pub focus: ComponentId,
    /// The terminal area assigned to this region.
    pub rect: Rect,
}

/// The areas the layout solver gave the children of the splits of a tree,
/// split by split, mirroring the tree.
pub enum SplitAreas {
    /// A leaf: nothing is split.
    Leaf,
    /// A split: the area given to each child, and the same record for each
    /// child.
    Split { chunks: Seq<Rect>, parts: Seq<SplitAreas> },
}

/// The constraints of a list of children.
pub open spec fn constraints_of(children: Seq<(Constraint, LayoutSpec)>) -> Seq<Constraint> {
    children.map_values(|c: (Constraint, LayoutSpec)| c.0)
}

/// The `(component, focus)` pair of each region.
pub open spec fn region_ids(regions: Seq<LaidOutRegion>) -> Seq<(ComponentId, ComponentId)> {
    regions.map_values(|r: LaidOutRegion| (r.component, r.focus))
}

impl LayoutSpec {
    /// `(component, focus)` of every leaf, depth-first, left to right.
    pub open spec fn spec_leaves(self) -> Seq<(ComponentId, ComponentId)>
        decreases self,
    {
        match self {
            LayoutSpec::Leaf { component, focus } => seq![(component, focus)],
            LayoutSpec::Split { children, .. } => Self::leaves_of(children@),
        }
    }

    /// Leaves of a list of children, in order.
    pub open spec fn leaves_of(children: Seq<(Constraint, LayoutSpec)>) -> Seq<(ComponentId, ComponentId)>
        decreases children,
    {
        if children.len() == 0 {
            seq![]
        } else {
            Self::leaves_of(children.drop_last()) + children.last().1.spec_leaves()
        }
    }

    /// `regions` is a layout of the tree in `area`: one region per leaf, in
    /// depth-first order, carrying the leaf's component and focus IDs, every
    /// region inside `area`; a tree that is a single leaf takes the whole
    /// area.  How a split shares its area among its children is stated by
    /// [`children_lay_out`](Self::children_lay_out) over the areas the layout
    /// solver assigned.
    pub open spec fn lays_out(self, area: Rect, regions: Seq<LaidOutRegion>) -> bool {
        &&& region_ids(regions) == self.spec_leaves()
        &&& forall|i: int| 0 <= i < regions.len() ==> rect_within(#[trigger] regions[i].rect, area)
        &&& self is Leaf ==> regions == seq![LaidOutRegion { component: self->component, focus: self->focus, rect: area }]
    }

    /// `regions` are the regions of `children` laid out child by child: the
    /// last child's regions, laid out in its own area `chunks[k]` (`k` its
    /// position), follow those of the children before it.
    pub open spec fn children_lay_out(children: Seq<(Constraint, LayoutSpec)>, chunks: Seq<Rect>, regions: Seq<LaidOutRegion>) -> bool
        decreases children.len(),
    {
        if children.len() == 0 {
            regions.len() == 0
        } else {
            let n = Self::leaves_of(children.drop_last()).len() as int;
            &&& n <= regions.len()
            &&& Self::children_lay_out(children.drop_last(), chunks, regions.subrange(0, n))
            &&& children.last().1.lays_out(chunks[children.len() - 1], regions.subrange(n, regions.len() as int))
        }
    }

    /// Children laid out in areas inside `area` give the children's leaves,
    /// every region inside `area`.
    pub proof fn lemma_children_lay_out(
        children: Seq<(Constraint, LayoutSpec)>,
        chunks: Seq<Rect>,
        regions: Seq<LaidOutRegion>,
        area: Rect,
    )
        requires
            Self::children_lay_out(children, chunks, regions),
            children.len() <= chunks.len(),
            forall|i: int| 0 <= i < chunks.len() ==> rect_within(#[trigger] chunks[i], area),
        ensures
            region_ids(regions) == Self::leaves_of(children),
            forall|i: int| 0 <= i < regions.len() ==> rect_within(#[trigger] regions[i].rect, area),
        decreases children.len(),
    {
        if children.len() == 0 {
            assert(region_ids(regions) =~= Seq::<(ComponentId, ComponentId)>::empty());
        } else {
            let n = Self::leaves_of(children.drop_last()).len() as int;
            let front = regions.subrange(0, n);
            let back = regions.subrange(n, regions.len() as int);
            Self::lemma_children_lay_out(children.drop_last(), chunks, front, area);
            assert(regions =~= front + back);
            assert(region_ids(regions) =~= region_ids(front) + region_ids(back));
            let c = chunks[children.len() - 1];
            assert forall|i: int| 0 <= i < regions.len() implies rect_within(#[trigger] regions[i].rect, area) by {
                if i < n {
                    assert(regions[i] == front[i]);
                } else {
                    assert(regions[i] == back[i - n]);
                    assert(rect_within(back[i - n].rect, c));
                }
            }
        }
    }

    /// `regions` is what the tree lays out in `area` when the layout solver
    /// gives the children of each split the areas recorded in `t`: a leaf
    /// takes the whole area; a split gives each child its own area, taken
    /// from an answer the solver may give for the split's direction, its
    /// children's constraints and its area (so it spans the split area across
    /// the split and lies inside it along the split), and lists each child's
    /// regions, laid out in that area, in child order.
    pub open spec fn tiles_by(self, area: Rect, regions: Seq<LaidOutRegion>, t: SplitAreas) -> bool
        decreases self,
    {
        match self {
            LayoutSpec::Leaf { component, focus } => regions == seq![LaidOutRegion { component, focus, rect: area }],
            LayoutSpec::Split { direction, children } => match t {
                SplitAreas::Leaf => false,
                SplitAreas::Split { chunks, parts } => {
                    &&& solver_may_split(direction, constraints_of(children@), area, chunks)
                    &&& chunks.len() == children@.len()
                    &&& forall|i: int| 0 <= i < chunks.len() ==> split_fits(direction, area, #[trigger] chunks[i])
                    &&& Self::children_tile(children@, chunks, parts, regions)
                },
            },
        }
    }

    /// `regions` are the regions of `children`, child by child: the child at
    /// position `k` is laid out in `chunks[k]`, its splits as `parts[k]`
    /// records, and its regions follow those of the children before it.
    pub open spec fn children_tile(
        children: Seq<(Constraint, LayoutSpec)>,
        chunks: Seq<Rect>,
        parts: Seq<SplitAreas>,
        regions: Seq<LaidOutRegion>,
    ) -> bool
        decreases children,
    {
        if children.len() == 0 {
            regions.len() == 0 && parts.len() == 0
        } else {
            let n = Self::leaves_of(children.drop_last()).len() as int;
            &&& parts.len() == children.len()
            &&& n <= regions.len()
            &&& Self::children_tile(children.drop_last(), chunks, parts.drop_last(), regions.subrange(0, n))
            &&& children.last().1.tiles_by(
                chunks[children.len() - 1],
                regions.subrange(n, regions.len() as int),
                parts.last(),
            )
        }
    }

    /// `regions` is a layout of the tree in `area`, for some areas the
    /// layout solver may give the children of its splits.
    pub open spec fn tiles(self, area: Rect, regions: Seq<LaidOutRegion>) -> bool {
        exists|t: SplitAreas| self.tiles_by(area, regions, t)
    }

    /// Create a leaf where the component ID and focus ID are the same.
    pub fn leaf(id: ComponentId) -> (r: LayoutSpec)
        ensures
            r == (LayoutSpec::Leaf { component: id, focus: id }),
    {
        LayoutSpec::Leaf { component: id, focus: id }
    }

    /// Create a leaf with distinct component and focus IDs.
    pub fn focused_leaf(component: ComponentId, focus: ComponentId) -> (r: LayoutSpec)
        ensures
            r == (LayoutSpec::Leaf { component, focus }),
    {
        LayoutSpec::Leaf { component, focus }
    }

    /// Create a split node that divides its area among children.
    pub fn split(direction: Direction, children: Vec<(Constraint, LayoutSpec)>) -> (r: LayoutSpec)
        ensures
            r == (LayoutSpec::Split { direction, children }),
    {
        LayoutSpec::Split { direction, children }
    }

    /// Walk the tree against `area` and return a flat list of laid-out
    /// regions, one per leaf in depth-first order.
    pub fn compute(&self, area: Rect) -> (r: Vec<LaidOutRegion>)
        ensures
            self.tiles(area, r@),
            self.lays_out(area, r@),
            region_ids(r@) == self.spec_leaves(),
    {
        let mut out: Vec<LaidOutRegion> = Vec::new();
        let t = self.compute_into(area, &mut out);
        proof {
            assert(out@.subrange(0, out@.len() as int) =~= out@);
            assert(self.tiles_by(area, out@, t@));
        }
        out
    }

    /// Append all `(component, focus)` pairs, depth-first, to `out`.
    pub fn collect_leaves(&self, out: &mut Vec<(ComponentId, ComponentId)>)
        ensures
            final(out)@ == old(out)@ + self.spec_leaves(),
        decreases self,
    {
        match self {
            LayoutSpec::Leaf { component, focus } => {
                out.push((*component, *focus));
            },
            LayoutSpec::Split { children, .. } => {
                let ghost start = out@;
                let mut i: usize = 0;
                while i < children.len()
                    invariant
                        i <= children.len(),
                        self is Split,
                        self->children == *children,
                        out@ == start + Self::leaves_of(children@.take(i as int)),
                    decreases children.len() - i,
                {
                    assert(children@.take(i + 1).drop_last() =~= children@.take(i as int));
                    proof {
                        assert(decreases_to!(*children => children@));
                        assert(decreases_to!(children@ => children@[i as int]));
                        assert(decreases_to!(children@[i as int] => children@[i as int].1));
                        assert(*children == self->children);
                        assert(decreases_to!(*self => self->children));
                        assert(decreases_to!(*self => children@[i as int].1));
                    }
                    children[i].1.collect_leaves(out);
                    i = i + 1;
                }
                assert(children@.take(children.len() as int) =~= children@);
            },
        }
    }

    fn compute_into(&self, area: Rect, out: &mut Vec<LaidOutRegion>) -> (t: Ghost<SplitAreas>)
        ensures
            final(out)@.len() >= old(out)@.len(),
            final(out)@.subrange(0, old(out)@.len() as int) == old(out)@,
            self.lays_out(area, final(out)@.subrange(old(out)@.len() as int, final(out)@.len() as int)),
            self.tiles_by(area, final(out)@.subrange(old(out)@.len() as int, final(out)@.len() as int), t@),
        decreases self, 0nat,
    {
        match self {
            LayoutSpec::Leaf { component, focus } => {
                let ghost start = out@;
                out.push(LaidOutRegion { component: *component, focus: *focus, rect: area });
                assert(out@.subrange(0, start.len() as int) =~= start);
                assert(out@.subrange(start.len() as int, out@.len() as int) =~= seq![
                    LaidOutRegion { component: *component, focus: *focus, rect: area },
                ]);
                assert(region_ids(seq![LaidOutRegion { component: *component, focus: *focus, rect: area }]) =~= self.spec_leaves());
                Ghost(SplitAreas::Leaf)
            },
            LayoutSpec::Split { direction, children } => {
                let constraints = split_constraints(children);
                let chunks = layout_split(*direction, &constraints, area);
                let ghost start = out@;
                proof {
                    assert(decreases_to!(*self => self->children));
                }
                let parts = Self::lay_out_children_in(children, &chunks, out);
                proof {
                    assert forall|i: int| 0 <= i < chunks@.len() implies rect_within(#[trigger] chunks@[i], area) by {
                        assert(split_fits(*direction, area, chunks@[i]));
                    }
                    Self::lemma_children_lay_out(
                        children@,
                        chunks@,
                        out@.subrange(start.len() as int, out@.len() as int),
                        area,
                    );
                }
                Ghost(SplitAreas::Split { chunks: chunks@, parts: parts@ })
            },
        }
    }

    /// Lay out each child in its own area, `chunks[k]` for the child at
    /// position `k`, appending the regions to `out` in child order.
    pub fn lay_out_children(children: &Vec<(Constraint, LayoutSpec)>, chunks: &Vec<Rect>, out: &mut Vec<LaidOutRegion>)
        requires
            chunks@.len() == children@.len(),
        ensures
            final(out)@.len() >= old(out)@.len(),
            final(out)@.subrange(0, old(out)@.len() as int) == old(out)@,
            Self::children_lay_out(children@, chunks@, final(out)@.subrange(old(out)@.len() as int, final(out)@.len() as int)),
            exists|parts: Seq<SplitAreas>|
                Self::children_tile(
                    children@,
                    chunks@,
                    parts,
                    final(out)@.subrange(old(out)@.len() as int, final(out)@.len() as int),
                ),
    {
        let parts = Self::lay_out_children_in(children, chunks, out);
        proof {
            let seg = out@.subrange(old(out)@.len() as int, out@.len() as int);
            assert(Self::children_tile(children@, chunks@, parts@, seg));
        }
    }

    fn lay_out_children_in(children: &Vec<(Constraint, LayoutSpec)>, chunks: &Vec<Rect>, out: &mut Vec<LaidOutRegion>) -> (parts: Ghost<Seq<SplitAreas>>)
        requires
            chunks@.len() == children@.len(),
        ensures
            final(out)@.len() >= old(out)@.len(),
            final(out)@.subrange(0, old(out)@.len() as int) == old(out)@,
            Self::children_lay_out(children@, chunks@, final(out)@.subrange(old(out)@.len() as int, final(out)@.len() as int)),
            Self::children_tile(children@, chunks@, parts@, final(out)@.subrange(old(out)@.len() as int, final(out)@.len() as int)),
        decreases *children, 1nat,
    {
        let ghost start = out@;
        let ghost s0 = start.len() as int;
        let mut i: usize = 0;
        let ghost mut parts: Seq<SplitAreas> = Seq::empty();
        assert(out@.subrange(s0, out@.len() as int) =~= Seq::<LaidOutRegion>::empty());
        assert(children@.take(0) =~= Seq::<(Constraint, LayoutSpec)>::empty());
        assert(out@.subrange(0, s0) =~= start);
        while i < children.len()
            invariant
                i <= children.len(),
                chunks@.len() == children@.len(),
                out@.len() >= s0,
                s0 == start.len(),
                out@.subrange(0, s0) == start,
                Self::children_lay_out(children@.take(i as int), chunks@, out@.subrange(s0, out@.len() as int)),
                Self::children_tile(children@.take(i as int), chunks@, parts, out@.subrange(s0, out@.len() as int)),
            decreases children.len() - i,
        {
            let ghost mid = out@;
            proof {
                assert(decreases_to!(*children => children@));
                assert(decreases_to!(children@ => children@[i as int]));
                assert(decreases_to!(children@[i as int] => children@[i as int].1));
                assert(decreases_to!(*children => children@[i as int].1));
                Self::lemma_children_ids(children@.take(i as int), chunks@, mid.subrange(s0, mid.len() as int));
            }
            let t = children[i].1.compute_into(chunks[i], out);
            proof {
                let seg = out@.subrange(s0, out@.len() as int);
                let k = mid.len() - s0;
                let cs = children@.take(i + 1);
                assert(cs.drop_last() =~= children@.take(i as int));
                assert(cs.last() == children@[i as int]);
                assert(Self::leaves_of(cs.drop_last()).len() == k);
                assert(seg.subrange(0, k) =~= mid.subrange(s0, mid.len() as int)) by {
                    assert forall|x: int| 0 <= x < k implies seg.subrange(0, k)[x] == mid.subrange(s0, mid.len() as int)[x] by {
                        assert(out@.subrange(0, mid.len() as int)[s0 + x] == mid[s0 + x]);
                    }
                }
                assert(seg.subrange(k, seg.len() as int) =~= out@.subrange(mid.len() as int, out@.len() as int));
                assert(Self::children_lay_out(cs, chunks@, seg));
                assert(parts.push(t@).drop_last() =~= parts);
                assert(Self::children_tile(cs, chunks@, parts.push(t@), seg));
                parts = parts.push(t@);
                assert(out@.subrange(0, s0) =~= start) by {
                    assert forall|x: int| 0 <= x < s0 implies out@.subrange(0, s0)[x] == start[x] by {
                        assert(out@.subrange(0, mid.len() as int)[x] == mid[x]);
                        assert(mid.subrange(0, s0)[x] == start[x]);
                    }
                }
            }
            i = i + 1;
        }
        assert(children@.take(children.len() as int) =~= children@);
        Ghost(parts)
    }

    /// Laid-out children give the children's leaves.
    proof fn lemma_children_ids(children: Seq<(Constraint, LayoutSpec)>, chunks: Seq<Rect>, regions: Seq<LaidOutRegion>)
        requires
            Self::children_lay_out(children, chunks, regions),
        ensures
            region_ids(regions) == Self::leaves_of(children),
        decreases children.len(),
    {
        if children.len() > 0 {
            let n = Self::leaves_of(children.drop_last()).len() as int;
            let front = regions.subrange(0, n);
            let back = regions.subrange(n, regions.len() as int);
            Self::lemma_children_ids(children.drop_last(), chunks, front);
            assert(regions =~= front + back);
            assert(region_ids(regions) =~= region_ids(front) + region_ids(back));
        } else {
            assert(region_ids(regions) =~= Seq::<(ComponentId, ComponentId)>::empty());
        }
    }
}

/// The constraints of the children of a split, in order.
fn split_constraints(children: &Vec<(Constraint, LayoutSpec)>) -> (r: Vec<Constraint>)
    ensures
        r@ == constraints_of(children@),
{
    let mut constraints: Vec<Constraint> = Vec::new();
    let mut j: usize = 0;
    while j < children.len()
        invariant
            j <= children.len(),
            constraints@ == constraints_of(children@.take(j as int)),
        decreases children.len() - j,
    {
        constraints.push(children[j].0);
        assert(constraints_of(children@.take(j + 1)) =~= constraints_of(children@.take(j as int)).push(children@[j as int].0));
        j = j + 1;
    }
    assert(children@.take(children.len() as int) =~= children@);
    constraints
}

} // verus!
