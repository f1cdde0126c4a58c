//! Focus management: which focus slot holds keyboard focus, and the three
//! ways to move it (direct assignment, cyclic, geometric).

use vstd::prelude::*;
use crate::command::Direction2D;
use crate::geometry::{Rect, abs_diff, abs_diff_u16, bottom, center_x, center_y, contains, right, sat_sub};
use crate::layout::ComponentId;
use crate::seq_search::{first_index, is_first, lemma_first_exists, lemma_first_found, lemma_first_is_first, lemma_first_none};

verus! {

/// A focus slot as it exists in screen space.
#[derive(Clone, Copy, Debug, PartialEq, Eq, Structural)]
pub struct FocusRegion {
    /// The focus identity for this slot.
    pub focus: ComponentId,
    /// The component that renders into this slot.
    pub component: ComponentId,
    /// The terminal area occupied by this region.
    pub rect: Rect,
}

/// Predicate: the region carries focus identity `f`.
pub open spec fn has_focus(f: ComponentId) -> spec_fn(FocusRegion) -> bool {
    |r: FocusRegion| r.focus == f
}

/// Predicate: the region covers the cell `(x, y)`.
pub open spec fn covers(x: u16, y: u16) -> spec_fn(FocusRegion) -> bool {
    |r: FocusRegion| r.rect.spec_contains(x, y)
}

/// Some region of `regions` carries focus identity `f`.
pub open spec fn focus_in(regions: Seq<FocusRegion>, f: ComponentId) -> bool {
    exists|i: int| 0 <= i < regions.len() && (#[trigger] regions[i]).focus == f
}

/// No two regions share a focus identity.
pub open spec fn unique_focus(regions: Seq<FocusRegion>) -> bool {
    forall|i: int, j: int|
        0 <= i < regions.len() && 0 <= j < regions.len() && i != j ==> (#[trigger] regions[i]).focus
            != (#[trigger] regions[j]).focus
}

/// The component rendered in the region that holds focus `current`.
pub open spec fn component_for_focus(current: Option<ComponentId>, regions: Seq<FocusRegion>) -> Option<ComponentId> {
    match current {
        None => None,
        Some(c) => match first_index(regions, has_focus(c)) {
            Some(i) => Some(regions[i].component),
            None => None,
        },
    }
}

/// The focus kept after the region list is replaced: the old focus if it is
/// still present, otherwise the first region's (or none for an empty list).
pub open spec fn reconciled_focus(current: Option<ComponentId>, regions: Seq<FocusRegion>) -> Option<ComponentId> {
    if current is Some && focus_in(regions, current->0) {
        current
    } else if regions.len() == 0 {
        None
    } else {
        Some(regions[0].focus)
    }
}

/// Index from which cyclic navigation starts: the position of the focused
/// region, or 0 when the focus is absent from the list.
pub open spec fn cycle_start(current: Option<ComponentId>, regions: Seq<FocusRegion>) -> int {
    match current {
        Some(c) => match first_index(regions, has_focus(c)) {
            Some(i) => i,
            None => 0,
        },
        None => 0,
    }
}

/// The focus after cycling by `delta` positions (with wrap-around).
pub open spec fn cycle_target(current: Option<ComponentId>, regions: Seq<FocusRegion>, delta: int) -> Option<ComponentId> {
    if regions.len() == 0 {
        None
    } else {
        Some(regions[(cycle_start(current, regions) + delta) % (regions.len() as int)].focus)
    }
}

/// `to` lies entirely in `direction` relative to `from`.
pub open spec fn spec_is_in_direction(from: Rect, to: Rect, direction: Direction2D) -> bool {
    match direction {
        Direction2D::Up => to.spec_bottom() <= from.y,
        Direction2D::Down => to.y >= from.spec_bottom(),
        Direction2D::Left => to.spec_right() <= from.x,
        Direction2D::Right => to.x >= from.spec_right(),
    }
}

/// `a` and `b` overlap on the axis perpendicular to `direction`.
pub open spec fn spec_axis_overlaps(a: Rect, b: Rect, direction: Direction2D) -> bool {
    match direction {
        Direction2D::Up | Direction2D::Down => a.x < b.spec_right() && b.x < a.spec_right(),
        Direction2D::Left | Direction2D::Right => a.y < b.spec_bottom() && b.y < a.spec_bottom(),
    }
}

/// Gap between the two rectangles along the direction of movement.
pub open spec fn spec_primary_gap(from: Rect, to: Rect, direction: Direction2D) -> u16 {
    match direction {
        Direction2D::Up => sat_sub(from.y, to.spec_bottom()),
        Direction2D::Down => sat_sub(to.y, from.spec_bottom()),
        Direction2D::Left => sat_sub(from.x, to.spec_right()),
        Direction2D::Right => sat_sub(to.x, from.spec_right()),
    }
}

/// Centre-to-centre distance on the perpendicular axis.
pub open spec fn spec_secondary_offset(from: Rect, to: Rect, direction: Direction2D) -> u16 {
    match direction {
        Direction2D::Up | Direction2D::Down => abs_diff(from.spec_center_x(), to.spec_center_x()),
        Direction2D::Left | Direction2D::Right => abs_diff(from.spec_center_y(), to.spec_center_y()),
    }
}

/// Penalty added to the score of a region that does not overlap the focused
/// one on the perpendicular axis; it exceeds every score of an overlapping
/// region, so aligned regions are always preferred.
pub const MISALIGNED_PENALTY: u32 = 10_000_000;

/// Score of a candidate for geometric navigation; lower is better:
/// primary gap × 100, plus the perpendicular centre offset, plus
/// [`MISALIGNED_PENALTY`] when the two rectangles do not overlap on the
/// perpendicular axis.
pub open spec fn spec_navigation_score(from: Rect, to: Rect, direction: Direction2D) -> int {
    spec_primary_gap(from, to, direction) * 100 + spec_secondary_offset(from, to, direction) + if spec_axis_overlaps(
        from,
        to,
        direction,
    ) {
        0int
    } else {
        MISALIGNED_PENALTY as int
    }
}

/// Region `i` is a valid geometric target when moving from `from` in `direction`.
pub open spec fn is_nav_candidate(regions: Seq<FocusRegion>, from: FocusRegion, direction: Direction2D, i: int) -> bool {
    &&& 0 <= i < regions.len()
    &&& regions[i].focus != from.focus
    &&& spec_is_in_direction(from.rect, regions[i].rect, direction)
}

/// Region `i` is the first candidate with the lowest score.
pub open spec fn is_best_candidate(regions: Seq<FocusRegion>, from: FocusRegion, direction: Direction2D, i: int) -> bool {
    &&& is_nav_candidate(regions, from, direction, i)
    &&& forall|j: int|
        is_nav_candidate(regions, from, direction, j) ==> spec_navigation_score(from.rect, regions[i].rect, direction)
            <= spec_navigation_score(from.rect, #[trigger] regions[j].rect, direction)
    &&& forall|j: int|
        0 <= j < i && is_nav_candidate(regions, from, direction, j) ==> spec_navigation_score(
            from.rect,
            regions[i].rect,
            direction,
        ) < spec_navigation_score(from.rect, #[trigger] regions[j].rect, direction)
}

/// Position of the best geometric target, if any region qualifies.
pub open spec fn best_candidate(regions: Seq<FocusRegion>, from: FocusRegion, direction: Direction2D) -> Option<int> {
    if exists|i: int| is_best_candidate(regions, from, direction, i) {
        Some(choose|i: int| is_best_candidate(regions, from, direction, i))
    } else {
        None
    }
}

/// The focus after a geometric move: unchanged when nothing is focused, the
/// focus is not on screen, or no region lies in `direction`.
pub open spec fn geometric_target(current: Option<ComponentId>, regions: Seq<FocusRegion>, direction: Direction2D) -> Option<ComponentId> {
    match current {
        None => current,
        Some(c) => match first_index(regions, has_focus(c)) {
            None => current,
            Some(k) => match best_candidate(regions, regions[k], direction) {
                None => current,
                Some(b) => Some(regions[b].focus),
            },
        },
    }
}


/// Cycling back undoes cycling forward: when the focused slot is on screen
/// and focus identities are unique, `previous` after `next` (and `next` after
/// `previous`) returns focus to where it was.
pub proof fn law_cycle_round_trip(regions: Seq<FocusRegion>, c: ComponentId)
    requires
        unique_focus(regions),
        focus_in(regions, c),
    ensures
        cycle_target(cycle_target(Some(c), regions, 1), regions, -1) == Some(c),
        cycle_target(cycle_target(Some(c), regions, -1), regions, 1) == Some(c),
{
    let n = regions.len() as int;
    let j = choose|j: int| 0 <= j < regions.len() && (#[trigger] regions[j]).focus == c;
    lemma_first_exists(regions, has_focus(c), j);
    let i = first_index(regions, has_focus(c))->0;
    assert(cycle_start(Some(c), regions) == i);
    // forward then back
    let f = if i + 1 == n { 0 } else { i + 1 };
    if i + 1 == n {
        vstd::arithmetic::div_mod::lemma_mod_self_0(n);
    } else {
        vstd::arithmetic::div_mod::lemma_small_mod((i + 1) as nat, n as nat);
    }
    assert((i + 1) % n == f);
    let t = regions[f].focus;
    assert(is_first(regions, has_focus(t), f));
    lemma_first_found(regions, has_focus(t), f);
    assert(cycle_start(Some(t), regions) == f);
    if f == 0 {
        vstd::arithmetic::div_mod::lemma_mod_add_multiples_vanish(-1, n);
        vstd::arithmetic::div_mod::lemma_small_mod((n - 1) as nat, n as nat);
    } else {
        vstd::arithmetic::div_mod::lemma_small_mod((f - 1) as nat, n as nat);
    }
    assert((f - 1) % n == i);
    // back then forward
    let g = if i == 0 { n - 1 } else { i - 1 };
    if i == 0 {
        vstd::arithmetic::div_mod::lemma_mod_add_multiples_vanish(-1, n);
        vstd::arithmetic::div_mod::lemma_small_mod((n - 1) as nat, n as nat);
    } else {
        vstd::arithmetic::div_mod::lemma_small_mod((i - 1) as nat, n as nat);
    }
    assert((i - 1) % n == g);
    let u = regions[g].focus;
    assert(is_first(regions, has_focus(u), g));
    lemma_first_found(regions, has_focus(u), g);
    if g + 1 == n {
        vstd::arithmetic::div_mod::lemma_mod_self_0(n);
    } else {
        vstd::arithmetic::div_mod::lemma_small_mod((g + 1) as nat, n as nat);
    }
    assert((g + 1) % n == i);
}


/// The focus after cycling forward `k` times.
pub open spec fn cycle_times(current: Option<ComponentId>, regions: Seq<FocusRegion>, k: nat) -> Option<ComponentId>
    decreases k,
{
    if k == 0 {
        current
    } else {
        cycle_target(cycle_times(current, regions, (k - 1) as nat), regions, 1)
    }
}

proof fn lemma_cycle_times_position(regions: Seq<FocusRegion>, c: ComponentId, i: int, k: nat)
    requires
        unique_focus(regions),
        is_first(regions, has_focus(c), i),
    ensures
        cycle_times(Some(c), regions, k) == Some(regions[(i + k) % (regions.len() as int)].focus),
    decreases k,
{
    let n = regions.len() as int;
    if k == 0 {
        vstd::arithmetic::div_mod::lemma_small_mod(i as nat, n as nat);
    } else {
        lemma_cycle_times_position(regions, c, i, (k - 1) as nat);
        let j = (i + k - 1) % n;
        vstd::arithmetic::div_mod::lemma_mod_bound(i + k - 1, n);
        let t = regions[j].focus;
        assert(is_first(regions, has_focus(t), j));
        lemma_first_found(regions, has_focus(t), j);
        vstd::arithmetic::div_mod::lemma_add_mod_noop(i + k - 1, 1, n);
        if n == 1 {
            assert(j + 1 == 1);
        } else {
            vstd::arithmetic::div_mod::lemma_small_mod(1, n as nat);
        }
        vstd::arithmetic::div_mod::lemma_add_mod_noop(j, 1, n);
        vstd::arithmetic::div_mod::lemma_mod_bound(j, n);
        vstd::arithmetic::div_mod::lemma_small_mod(j as nat, n as nat);
        assert((j + 1) % n == (i + k) % n);
    }
}

/// Cycling forward visits every region once per turn: with unique focus
/// identities, `len` steps of `next` from an on-screen focus return to it,
/// and every region is reached within those steps.
pub proof fn law_cycle_full_turn(regions: Seq<FocusRegion>, c: ComponentId)
    requires
        unique_focus(regions),
        focus_in(regions, c),
    ensures
        cycle_times(Some(c), regions, regions.len()) == Some(c),
        forall|j: int|
            0 <= j < regions.len() ==> exists|k: nat| k < regions.len() && #[trigger] cycle_times(Some(c), regions, k) == Some(
                (#[trigger] regions[j]).focus,
            ),
{
    let n = regions.len() as int;
    let w = choose|w: int| 0 <= w < regions.len() && (#[trigger] regions[w]).focus == c;
    lemma_first_exists(regions, has_focus(c), w);
    let i = first_index(regions, has_focus(c))->0;
    lemma_cycle_times_position(regions, c, i, regions.len());
    vstd::arithmetic::div_mod::lemma_mod_add_multiples_vanish(i, n);
    vstd::arithmetic::div_mod::lemma_small_mod(i as nat, n as nat);
    assert forall|j: int| 0 <= j < regions.len() implies exists|k: nat| k < regions.len() && #[trigger] cycle_times(
        Some(c),
        regions,
        k,
    ) == Some((#[trigger] regions[j]).focus) by {
        let k: nat = if j >= i {
            (j - i) as nat
        } else {
            (j - i + n) as nat
        };
        lemma_cycle_times_position(regions, c, i, k);
        if j >= i {
            vstd::arithmetic::div_mod::lemma_small_mod(j as nat, n as nat);
        } else {
            vstd::arithmetic::div_mod::lemma_mod_add_multiples_vanish(j, n);
            vstd::arithmetic::div_mod::lemma_small_mod(j as nat, n as nat);
        }
    }
}

/// After a region list is installed, focus always names one of its regions
/// (or nothing, exactly when the list is empty), and a focus that is still
/// on screen is never moved.
pub proof fn law_reconciled_focus_is_on_screen(current: Option<ComponentId>, regions: Seq<FocusRegion>)
    ensures
        reconciled_focus(current, regions) is None <==> regions.len() == 0,
        reconciled_focus(current, regions) is Some ==> focus_in(regions, reconciled_focus(current, regions)->0),
        current is Some && focus_in(regions, current->0) ==> reconciled_focus(current, regions) == current,
{
    if regions.len() > 0 && !(current is Some && focus_in(regions, current->0)) {
        assert(regions[0].focus == regions[0].focus);
    }
}

/// A geometric move either leaves focus where it was or moves it to a region
/// that lies entirely in the requested direction, carries another focus
/// identity, and has the lowest navigation score of all such regions.
pub proof fn law_geometric_move_is_best(current: ComponentId, regions: Seq<FocusRegion>, direction: Direction2D)
    ensures
        geometric_target(Some(current), regions, direction) == Some(current) || exists|k: int, b: int|
            #![trigger regions[k], regions[b]]
            {
                &&& first_index(regions, has_focus(current)) == Some(k)
                &&& geometric_target(Some(current), regions, direction) == Some(regions[b].focus)
                &&& regions[b].focus != current
                &&& spec_is_in_direction(regions[k].rect, regions[b].rect, direction)
                &&& forall|j: int|
                    is_nav_candidate(regions, regions[k], direction, j) ==> spec_navigation_score(
                        regions[k].rect,
                        regions[b].rect,
                        direction,
                    ) <= spec_navigation_score(regions[k].rect, #[trigger] regions[j].rect, direction)
            },
{
    match first_index(regions, has_focus(current)) {
        None => {},
        Some(k) => {
            lemma_first_is_first(regions, has_focus(current));
            match best_candidate(regions, regions[k], direction) {
                None => {},
                Some(b) => {
                    assert(is_best_candidate(regions, regions[k], direction, b));
                    assert(regions[k].focus == current);
                },
            }
        },
    }
}

/// Among the positions below `n`, `i` is the first candidate with the
/// lowest score.
pub open spec fn is_best_below(regions: Seq<FocusRegion>, from: FocusRegion, direction: Direction2D, n: int, i: int) -> bool {
    &&& 0 <= i < n
    &&& is_nav_candidate(regions, from, direction, i)
    &&& forall|j: int|
        0 <= j < n && is_nav_candidate(regions, from, direction, j) ==> spec_navigation_score(from.rect, regions[i].rect, direction)
            <= spec_navigation_score(from.rect, #[trigger] regions[j].rect, direction)
    &&& forall|j: int|
        0 <= j < i && is_nav_candidate(regions, from, direction, j) ==> spec_navigation_score(
            from.rect,
            regions[i].rect,
            direction,
        ) < spec_navigation_score(from.rect, #[trigger] regions[j].rect, direction)
}

proof fn lemma_best_below_exists(regions: Seq<FocusRegion>, from: FocusRegion, direction: Direction2D, n: int)
    requires
        0 <= n <= regions.len(),
        exists|j: int| 0 <= j < n && is_nav_candidate(regions, from, direction, j),
    ensures
        exists|i: int| is_best_below(regions, from, direction, n, i),
    decreases n,
{
    let m = n - 1;
    if exists|j: int| 0 <= j < m && is_nav_candidate(regions, from, direction, j) {
        lemma_best_below_exists(regions, from, direction, m);
        let p = choose|i: int| is_best_below(regions, from, direction, m, i);
        if is_nav_candidate(regions, from, direction, m) && spec_navigation_score(from.rect, regions[m].rect, direction)
            < spec_navigation_score(from.rect, regions[p].rect, direction) {
            assert(is_best_below(regions, from, direction, n, m));
        } else {
            assert(is_best_below(regions, from, direction, n, p));
        }
    } else {
        assert(is_nav_candidate(regions, from, direction, m));
        assert(is_best_below(regions, from, direction, n, m));
    }
}

/// A geometric move from an on-screen focus moves whenever some other
/// region lies in the requested direction: it moves to the first such region
/// with the lowest navigation score.
pub proof fn law_geometric_move_moves_when_possible(current: ComponentId, regions: Seq<FocusRegion>, direction: Direction2D, k: int, j: int)
    requires
        first_index(regions, has_focus(current)) == Some(k),
        is_nav_candidate(regions, regions[k], direction, j),
    ensures
        exists|b: int|
            is_best_candidate(regions, regions[k], direction, b) && geometric_target(Some(current), regions, direction) == Some(
                #[trigger] regions[b].focus,
            ),
{
    let from = regions[k];
    lemma_best_below_exists(regions, from, direction, regions.len() as int);
    let i = choose|i: int| is_best_below(regions, from, direction, regions.len() as int, i);
    assert(is_best_candidate(regions, from, direction, i));
    let b = best_candidate(regions, from, direction)->0;
    assert(is_best_candidate(regions, from, direction, b));
    assert(regions[b].focus == regions[b].focus);
}

/// Aligned regions always win: a region that overlaps the focused one on the
/// perpendicular axis scores lower than any region that does not.
pub proof fn law_aligned_region_beats_misaligned(from: Rect, a: Rect, b: Rect, direction: Direction2D)
    requires
        spec_axis_overlaps(from, a, direction),
        !spec_axis_overlaps(from, b, direction),
    ensures
        spec_navigation_score(from, a, direction) < spec_navigation_score(from, b, direction),
{
    assert(spec_primary_gap(from, a, direction) <= 65535);
    assert(spec_secondary_offset(from, a, direction) <= 65535);
}

/// Tracks which focus slot currently holds keyboard focus.
///
/// Regions are refreshed every frame via [`set_regions`](Self::set_regions);
/// when the focused ID is no longer present, focus resets to the first region.
pub struct FocusManager {
    current: Option<ComponentId>,
    regions: Vec<FocusRegion>,
}

impl FocusManager {
    /// The focused focus ID.
    pub closed spec fn spec_current(&self) -> Option<ComponentId> {
        self.current
    }

    /// The regions of the current frame, in layout order.
    pub closed spec fn spec_regions(&self) -> Seq<FocusRegion> {
        self.regions@
    }

    /// A manager with nothing focused and no regions.
    pub fn empty() -> (r: FocusManager)
        ensures
            r.spec_current() is None,
            r.spec_regions() == Seq::<FocusRegion>::empty(),
    {
        FocusManager { current: None, regions: Vec::new() }
    }

    /// Create a new manager with `initial` as the focused ID.
    ///
    /// The ID is accepted before any regions are loaded; it stays focused on
    /// the first `set_regions` call that includes it.
    pub fn new(initial: ComponentId) -> (r: FocusManager)
        ensures
            r.spec_current() == Some(initial),
            r.spec_regions() == Seq::<FocusRegion>::empty(),
    {
        FocusManager { current: Some(initial), regions: Vec::new() }
    }

    /// Return the currently focused focus ID, if any.
    pub fn current(&self) -> (r: Option<ComponentId>)
        ensures
            r == self.spec_current(),
    {
        self.current
    }

    /// Position of the first region with focus identity `focus`.
    fn position_of(&self, focus: ComponentId) -> (r: Option<usize>)
        ensures
            match r {
                Some(i) => first_index(self.regions@, has_focus(focus)) == Some(i as int),
                None => first_index(self.regions@, has_focus(focus)) is None,
            },
            r is None <==> !focus_in(self.regions@, focus),
    {
        let mut i: usize = 0;
        while i < self.regions.len()
            invariant
                i <= self.regions.len(),
                forall|j: int| 0 <= j < i ==> !has_focus(focus)(#[trigger] self.regions@[j]),
            decreases self.regions.len() - i,
        {
            if self.regions[i].focus == focus {
                proof {
                    assert(is_first(self.regions@, has_focus(focus), i as int));
                    lemma_first_found(self.regions@, has_focus(focus), i as int);
                }
                return Some(i);
            }
            i = i + 1;
        }
        proof {
            lemma_first_none(self.regions@, has_focus(focus));
            assert forall|j: int| 0 <= j < self.regions@.len() implies (#[trigger] self.regions@[j]).focus != focus by {
                assert(!has_focus(focus)(self.regions@[j]));
            }
        }
        None
    }

    /// Move focus to `focus` directly; ignored when no region carries `focus`.
    pub fn set_current(&mut self, focus: ComponentId)
        ensures
            final(self).spec_regions() == old(self).spec_regions(),
            final(self).spec_current() == if focus_in(old(self).spec_regions(), focus) {
                Some(focus)
            } else {
                old(self).spec_current()
            },
    {
        if self.position_of(focus).is_some() {
            self.current = Some(focus);
        }
    }

    /// Return the component ID of the currently focused region.
    pub fn focused_component(&self) -> (r: Option<ComponentId>)
        ensures
            r == component_for_focus(self.spec_current(), self.spec_regions()),
    {
        match self.current {
            None => None,
            Some(c) => match self.position_of(c) {
                Some(i) => Some(self.regions[i].component),
                None => None,
            },
        }
    }

    /// Return the region under the given terminal cell, if any.
    pub fn region_at(&self, x: u16, y: u16) -> (r: Option<&FocusRegion>)
        ensures
            match r {
                Some(region) => exists|i: int|
                    first_index(self.spec_regions(), covers(x, y)) == Some(i) && self.spec_regions()[i] == *region,
                None => first_index(self.spec_regions(), covers(x, y)) is None,
            },
    {
        let mut i: usize = 0;
        while i < self.regions.len()
            invariant
                i <= self.regions.len(),
                forall|j: int| 0 <= j < i ==> !covers(x, y)(#[trigger] self.regions@[j]),
            decreases self.regions.len() - i,
        {
            if contains(self.regions[i].rect, x, y) {
                proof {
                    assert(is_first(self.regions@, covers(x, y), i as int));
                    lemma_first_found(self.regions@, covers(x, y), i as int);
                }
                return Some(&self.regions[i]);
            }
            i = i + 1;
        }
        proof {
            lemma_first_none(self.regions@, covers(x, y));
        }
        None
    }

    /// Replace the region list with a new snapshot from the current frame.
    ///
    /// If the focused ID is absent from the new list, focus resets to the
    /// first region of the new list.
    pub fn set_regions(&mut self, regions: Vec<FocusRegion>)
        ensures
            final(self).spec_regions() == regions@,
            final(self).spec_current() == reconciled_focus(old(self).spec_current(), regions@),
    {
        self.regions = regions;
        let keep = match self.current {
            Some(c) => self.position_of(c).is_some(),
            None => false,
        };
        if !keep {
            self.current = if self.regions.len() > 0 {
                Some(self.regions[0].focus)
            } else {
                None
            };
        }
    }

    /// Move focus to the next region in order (wraps around).
    pub fn next(&mut self)
        ensures
            final(self).spec_regions() == old(self).spec_regions(),
            final(self).spec_current() == cycle_target(old(self).spec_current(), old(self).spec_regions(), 1),
    {
        self.offset(1);
    }

    /// Move focus to the previous region in order (wraps around).
    pub fn previous(&mut self)
        ensures
            final(self).spec_regions() == old(self).spec_regions(),
            final(self).spec_current() == cycle_target(old(self).spec_current(), old(self).spec_regions(), -1),
    {
        self.offset(-1);
    }

    fn offset(&mut self, delta: isize)
        requires
            delta == 1 || delta == -1,
        ensures
            final(self).spec_regions() == old(self).spec_regions(),
            final(self).spec_current() == cycle_target(old(self).spec_current(), old(self).spec_regions(), delta as int),
    {
        if self.regions.len() == 0 {
            self.current = None;
            return;
        }
        let index: usize = match self.current {
            Some(c) => match self.position_of(c) {
                Some(i) => i,
                None => 0,
            },
            None => 0,
        };
        let len = self.regions.len();
        let next: usize = if delta > 0 {
            if index + 1 == len {
                0
            } else {
                index + 1
            }
        } else {
            if index == 0 {
                len - 1
            } else {
                index - 1
            }
        };
        proof {
            let n = len as int;
            if delta > 0 {
                if index + 1 == len {
                    vstd::arithmetic::div_mod::lemma_mod_self_0(n);
                } else {
                    vstd::arithmetic::div_mod::lemma_small_mod((index + 1) as nat, n as nat);
                }
            } else {
                if index == 0 {
                    vstd::arithmetic::div_mod::lemma_mod_add_multiples_vanish(-1, n);
                    vstd::arithmetic::div_mod::lemma_small_mod((n - 1) as nat, n as nat);
                } else {
                    vstd::arithmetic::div_mod::lemma_small_mod((index - 1) as nat, n as nat);
                }
            }
            assert(next as int == (cycle_start(old(self).spec_current(), old(self).spec_regions()) + delta) % n);
        }
        self.current = Some(self.regions[next].focus);
    }

    /// Move focus to the nearest region in the given screen direction.
    ///
    /// A candidate is "in direction" only if its near edge is at or past the
    /// far edge of the focused region.  Among candidates the one with the
    /// lowest navigation score wins (the first one on a tie).
    pub fn move_geometric(&mut self, direction: Direction2D)
        ensures
            final(self).spec_regions() == old(self).spec_regions(),
            final(self).spec_current() == geometric_target(old(self).spec_current(), old(self).spec_regions(), direction),
    {
        let current_id = match self.current {
            Some(c) => c,
            None => return,
        };
        let k = match self.position_of(current_id) {
            Some(k) => k,
            None => return,
        };
        let from = self.regions[k];
        let ghost regions = self.regions@;
        let mut best: Option<usize> = None;
        let mut best_score: u32 = 0;
        let mut i: usize = 0;
        while i < self.regions.len()
            invariant
                regions == self.regions@,
                i <= regions.len(),
                from == regions[k as int],
                match best {
                    None => forall|j: int| 0 <= j < i ==> !is_nav_candidate(regions, from, direction, j),
                    Some(b) => {
                        &&& b < i
                        &&& is_nav_candidate(regions, from, direction, b as int)
                        &&& best_score == spec_navigation_score(from.rect, regions[b as int].rect, direction)
                        &&& forall|j: int|
                            0 <= j < i && is_nav_candidate(regions, from, direction, j)
                                ==> best_score <= spec_navigation_score(from.rect, #[trigger] regions[j].rect, direction)
                        &&& forall|j: int|
                            0 <= j < b && is_nav_candidate(regions, from, direction, j)
                                ==> best_score < spec_navigation_score(from.rect, #[trigger] regions[j].rect, direction)
                    },
                },
            decreases regions.len() - i,
        {
            let candidate = self.regions[i];
            if candidate.focus != from.focus && is_in_direction(from.rect, candidate.rect, direction) {
                let score = navigation_score(from.rect, candidate.rect, direction);
                match best {
                    None => {
                        best = Some(i);
                        best_score = score;
                    },
                    Some(_) => {
                        if score < best_score {
                            best = Some(i);
                            best_score = score;
                        }
                    },
                }
            }
            i = i + 1;
        }
        match best {
            None => {
                proof {
                    assert forall|b: int| !is_best_candidate(regions, from, direction, b) by {
                        if is_best_candidate(regions, from, direction, b) {
                            assert(!is_nav_candidate(regions, from, direction, b));
                        }
                    }
                }
            },
            Some(b) => {
                proof {
                    assert(is_best_candidate(regions, from, direction, b as int));
                    assert forall|c: int| is_best_candidate(regions, from, direction, c) implies c == b by {
                        if c < b {
                            assert(is_nav_candidate(regions, from, direction, c));
                        } else if b < c {
                            assert(is_nav_candidate(regions, from, direction, b as int));
                        }
                    }
                }
                self.current = Some(self.regions[b].focus);
            },
        }
    }
}

/// Return true if `to` lies entirely in `direction` relative to `from`.
pub fn is_in_direction(from: Rect, to: Rect, direction: Direction2D) -> (r: bool)
    ensures
        r == spec_is_in_direction(from, to, direction),
{
    match direction {
        Direction2D::Up => bottom(to) <= from.y,
        Direction2D::Down => to.y >= bottom(from),
        Direction2D::Left => right(to) <= from.x,
        Direction2D::Right => to.x >= right(from),
    }
}

/// Score a candidate region for geometric navigation (lower is better).
pub fn navigation_score(from: Rect, to: Rect, direction: Direction2D) -> (r: u32)
    ensures
        r as int == spec_navigation_score(from, to, direction),
{
    let primary: u16 = match direction {
        Direction2D::Up => from.y.saturating_sub(bottom(to)),
        Direction2D::Down => to.y.saturating_sub(bottom(from)),
        Direction2D::Left => from.x.saturating_sub(right(to)),
        Direction2D::Right => to.x.saturating_sub(right(from)),
    };
    let secondary: u16 = match direction {
        Direction2D::Up | Direction2D::Down => abs_diff_u16(center_x(from), center_x(to)),
        Direction2D::Left | Direction2D::Right => abs_diff_u16(center_y(from), center_y(to)),
    };
    let overlap_penalty: u32 = if axis_overlaps(from, to, direction) {
        0
    } else {
        MISALIGNED_PENALTY
    };
    (primary as u32) * 100 + secondary as u32 + overlap_penalty
}

/// Return true if `a` and `b` overlap on the axis perpendicular to `direction`.
pub fn axis_overlaps(a: Rect, b: Rect, direction: Direction2D) -> (r: bool)
    ensures
        r == spec_axis_overlaps(a, b, direction),
{
    match direction {
        Direction2D::Up | Direction2D::Down => a.x < right(b) && b.x < right(a),
        Direction2D::Left | Direction2D::Right => a.y < bottom(b) && b.y < bottom(a),
    }
}

} // verus!

verus! {

/// Moving up or down, between two aligned regions at the same distance
/// along the move, the one whose centre column is closer to the focused
/// region's centre column scores lower (is preferred).
pub proof fn law_vertical_move_prefers_closer_centre_column(from: Rect, a: Rect, b: Rect, direction: Direction2D)
    requires
        direction == Direction2D::Up || direction == Direction2D::Down,
        direction == Direction2D::Down ==> a.y == b.y,
        direction == Direction2D::Up ==> a.spec_bottom() == b.spec_bottom(),
        a.x < from.spec_right() && from.x < a.spec_right(),
        b.x < from.spec_right() && from.x < b.spec_right(),
        abs_diff(from.spec_center_x(), a.spec_center_x()) < abs_diff(from.spec_center_x(), b.spec_center_x()),
    ensures
        spec_navigation_score(from, a, direction) < spec_navigation_score(from, b, direction),
{
}

/// Moving left or right, between two aligned regions at the same distance
/// along the move, the one whose centre row is closer to the focused
/// region's centre row scores lower (is preferred).
pub proof fn law_horizontal_move_prefers_closer_centre_row(from: Rect, a: Rect, b: Rect, direction: Direction2D)
    requires
        direction == Direction2D::Left || direction == Direction2D::Right,
        direction == Direction2D::Right ==> a.x == b.x,
        direction == Direction2D::Left ==> a.spec_right() == b.spec_right(),
        a.y < from.spec_bottom() && from.y < a.spec_bottom(),
        b.y < from.spec_bottom() && from.y < b.spec_bottom(),
        abs_diff(from.spec_center_y(), a.spec_center_y()) < abs_diff(from.spec_center_y(), b.spec_center_y()),
    ensures
        spec_navigation_score(from, a, direction) < spec_navigation_score(from, b, direction),
{
}

} // verus!
