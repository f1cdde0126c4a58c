//! Selection and scrolling state for a list of equally tall items, and the
//! row layout computed when such a list is drawn.

use vstd::prelude::*;
use crate::geometry::{Rect, sat_add, sat_sub};
use ratatui::layout::Rect as RR;
use ratatui::widgets::Block;

verus! {

/// `min(a, b)` on integers.
pub open spec fn min_int(a: int, b: int) -> int {
    if a <= b {
        a
    } else {
        b
    }
}

/// State for a widget list, tracking the scroll offset and current selection.
///
/// The `offset` is the index of the first item that should be drawn; the
/// row layout adjusts it so that the selected item stays visible.  The
/// navigation methods take the number of items as `len`, since the state
/// does not know how many items the list contains.
#[derive(Clone, Copy, Debug, Default, PartialEq, Eq, Structural)]
pub struct WidgetListState {
    /// Index of the first visible item.
    offset: usize,
    /// Index of the currently selected item, if any.
    selected: Option<usize>,
}

/// Selection after moving forward by `amount` in a list of `len` items.
pub open spec fn advanced_selection(selected: Option<usize>, amount: int, len: int) -> Option<usize> {
    if len == 0 {
        None
    } else {
        match selected {
            Some(i) => Some(min_int(i + amount, len - 1) as usize),
            None => Some(0),
        }
    }
}

/// Selection after moving back by `amount` (clamped to the first item).
pub open spec fn retreated_selection(selected: Option<usize>, amount: int) -> Option<usize> {
    match selected {
        Some(i) => Some(if i >= amount {
            (i - amount) as usize
        } else {
            0
        }),
        None => Some(0),
    }
}

/// One drawn row of a widget list.
#[derive(Clone, Copy, Debug, PartialEq, Eq, Structural)]
pub struct ListRow {
    /// Index of the item drawn in this row.
    pub index: usize,
    /// Area the item occupies.
    pub area: Rect,
    /// The item is the selected one and is drawn highlighted.
    pub highlighted: bool,
}

/// Offset after clamping to the item count and scrolling the selection into
/// view, for `visible` rows of `len` items.
pub open spec fn adjusted_offset(offset: usize, selected: Option<usize>, len: int, visible: int) -> int {
    let max_offset = if len >= visible {
        len - visible
    } else {
        0
    };
    let clamped = min_int(offset as int, max_offset);
    match selected {
        None => clamped,
        Some(s) => {
            let s = min_int(s as int, if len >= 1 {
                len - 1
            } else {
                0
            });
            if s < clamped {
                s
            } else if s >= clamped + visible {
                s + 1 - visible
            } else {
                clamped
            }
        },
    }
}

/// The rows drawn for `len` items of height `item_height` in `area`,
/// starting at item `offset`.
pub open spec fn spec_rows(offset: int, selected: Option<usize>, len: int, item_height: u16, area: Rect) -> Seq<ListRow> {
    let visible = area.height / item_height;
    let count = min_int(visible as int, len - offset);
    Seq::new(
        if count > 0 {
            count as nat
        } else {
            0
        },
        |k: int| row_at(offset, k, selected, item_height, area),
    )
}

/// Row `k` of a list drawn from item `offset`.
pub open spec fn row_at(offset: int, k: int, selected: Option<usize>, item_height: u16, area: Rect) -> ListRow {
    ListRow {
        index: (offset + k) as usize,
        area: Rect { x: area.x, y: (area.y + k * item_height) as u16, width: area.width, height: item_height },
        highlighted: selected == Some((offset + k) as usize),
    }
}

proof fn lemma_rows_fit(k: int, h: int, height: int)
    requires
        h > 0,
        k >= 0,
        height >= 0,
    ensures
        (k + 1) * h <= height <==> k < height / h,
        k * h >= 0,
{
    let q = height / h;
    let r = height % h;
    vstd::arithmetic::div_mod::lemma_fundamental_div_mod(height, h);
    assert(0 <= r < h) by {
        vstd::arithmetic::div_mod::lemma_mod_bound(height, h);
    }
    assert(height == h * q + r);
    assert((k + 1) * h <= height <==> k < q) by (nonlinear_arith)
        requires
            h > 0,
            height == h * q + r,
            0 <= r < h,
            k >= 0,
    ;
    assert(k * h >= 0) by (nonlinear_arith)
        requires
            h > 0,
            k >= 0,
    ;
}

/// Laying out the rows keeps the selected item on screen: when the list is
/// not empty, at least one row fits and an item is selected, the (clamped)
/// selection lies between the new offset and the last visible row, and the
/// offset never scrolls past the last screenful.
pub proof fn law_layout_keeps_selection_visible(st: WidgetListState, len: usize, item_height: u16, area: Rect)
    requires
        len > 0,
        item_height > 0,
        area.height >= item_height,
        st.spec_selected() is Some,
    ensures
        ({
            let visible = (area.height / item_height) as int;
            let offset = st.after_layout(len, item_height, area).spec_offset() as int;
            let s = min_int(st.spec_selected()->0 as int, len - 1);
            &&& offset <= s < offset + visible
            &&& offset <= if len >= visible {
                len - visible
            } else {
                0
            }
        }),
{
    let visible = (area.height / item_height) as int;
    assert(visible >= 1) by {
        lemma_rows_fit(0, item_height as int, area.height as int);
    }
}

impl WidgetListState {
    /// The state with no selection and a zero offset.
    pub closed spec fn default_state() -> WidgetListState {
        WidgetListState { offset: 0, selected: None }
    }

    /// The scroll offset.
    pub closed spec fn spec_offset(self) -> usize {
        self.offset
    }

    /// The selected index.
    pub closed spec fn spec_selected(self) -> Option<usize> {
        self.selected
    }

    /// The state after `select_next(len)`.
    pub closed spec fn after_select_next(self, len: usize) -> WidgetListState {
        WidgetListState { offset: self.offset, selected: advanced_selection(self.selected, 1, len as int) }
    }

    /// The state after `select_previous(len)`.
    pub closed spec fn after_select_previous(self, len: usize) -> WidgetListState {
        WidgetListState {
            offset: self.offset,
            selected: if len == 0 {
                None
            } else {
                retreated_selection(self.selected, 1)
            },
        }
    }

    /// The state after `select(index)`.
    pub closed spec fn after_select(self, index: Option<usize>) -> WidgetListState {
        WidgetListState {
            offset: if index is None {
                0
            } else {
                self.offset
            },
            selected: index,
        }
    }

    /// The state after laying out `len` items of height `item_height` in `area`.
    pub closed spec fn after_layout(self, len: usize, item_height: u16, area: Rect) -> WidgetListState {
        if item_height == 0 || area.height < item_height {
            self
        } else {
            WidgetListState {
                offset: adjusted_offset(self.offset, self.selected, len as int, (area.height / item_height) as int) as usize,
                selected: self.selected,
            }
        }
    }

    /// The rows produced by laying out `len` items of height `item_height` in `area`.
    pub open spec fn spec_layout_rows(self, len: usize, item_height: u16, area: Rect) -> Seq<ListRow> {
        if item_height == 0 || area.height < item_height {
            Seq::empty()
        } else {
            spec_rows(self.after_layout(len, item_height, area).spec_offset() as int, self.spec_selected(), len as int, item_height, area)
        }
    }

    /// Accessors of the transition results.
    pub proof fn lemma_transitions(self, len: usize, index: Option<usize>, item_height: u16, area: Rect)
        ensures
            self.after_select_next(len).spec_offset() == self.spec_offset(),
            self.after_select_next(len).spec_selected() == advanced_selection(self.spec_selected(), 1, len as int),
            self.after_select_previous(len).spec_offset() == self.spec_offset(),
            self.after_select(index).spec_selected() == index,
            self.after_layout(len, item_height, area).spec_selected() == self.spec_selected(),
    {
    }

    /// Creates a new state with no selection and a zero offset.
    pub fn new() -> (r: WidgetListState)
        ensures
            r == WidgetListState::default_state(),
            r.spec_offset() == 0,
            r.spec_selected() is None,
    {
        WidgetListState { offset: 0, selected: None }
    }

    /// Returns the current scroll offset (the index of the first visible item).
    pub fn offset(&self) -> (r: usize)
        ensures
            r == self.spec_offset(),
    {
        self.offset
    }

    /// Returns a mutable reference to the scroll offset.
    pub fn offset_mut(&mut self) -> (r: &mut usize)
        ensures
            *r == old(self).spec_offset(),
            final(self).spec_offset() == *final(r),
            final(self).spec_selected() == old(self).spec_selected(),
    {
        &mut self.offset
    }

    /// Sets the scroll offset, consuming and returning `self` for chaining.
    pub fn with_offset(self, offset: usize) -> (r: WidgetListState)
        ensures
            r.spec_offset() == offset,
            r.spec_selected() == self.spec_selected(),
    {
        let mut s = self;
        s.offset = offset;
        s
    }

    /// Returns the index of the selected item, or `None` if nothing is selected.
    pub fn selected(&self) -> (r: Option<usize>)
        ensures
            r == self.spec_selected(),
    {
        self.selected
    }

    /// Sets the selected item; `None` also resets the offset to `0`.
    pub fn select(&mut self, index: Option<usize>)
        ensures
            *final(self) == old(self).after_select(index),
            final(self).spec_selected() == index,
            final(self).spec_offset() == if index is None {
                0
            } else {
                old(self).spec_offset()
            },
    {
        self.selected = index;
        if index.is_none() {
            self.offset = 0;
        }
    }

    /// Sets the selected item, consuming and returning `self` for chaining.
    pub fn with_selected(self, index: Option<usize>) -> (r: WidgetListState)
        ensures
            r.spec_selected() == index,
            r.spec_offset() == if index is None {
                0
            } else {
                self.spec_offset()
            },
    {
        let mut s = self;
        s.select(index);
        s
    }

    /// Selects the next item, clamped to the last item; selects the first
    /// item when nothing is selected and clears the selection when `len` is 0.
    pub fn select_next(&mut self, len: usize)
        ensures
            *final(self) == old(self).after_select_next(len),
            final(self).spec_offset() == old(self).spec_offset(),
            final(self).spec_selected() == advanced_selection(old(self).spec_selected(), 1, len as int),
    {
        self.scroll_down_by(1, len);
    }

    /// Selects the previous item, clamped to the first item; selects the first
    /// item when nothing is selected and clears the selection when `len` is 0.
    pub fn select_previous(&mut self, len: usize)
        ensures
            *final(self) == old(self).after_select_previous(len),
            final(self).spec_offset() == old(self).spec_offset(),
            final(self).spec_selected() == if len == 0 {
                None
            } else {
                retreated_selection(old(self).spec_selected(), 1)
            },
    {
        if len == 0 {
            self.selected = None;
            return;
        }
        self.scroll_up_by(1);
    }

    /// Selects the first item, or clears the selection if the list is empty.
    pub fn select_first(&mut self, len: usize)
        ensures
            final(self).spec_offset() == old(self).spec_offset(),
            final(self).spec_selected() == if len > 0 {
                Some(0usize)
            } else {
                None
            },
    {
        self.selected = if len > 0 {
            Some(0)
        } else {
            None
        };
    }

    /// Selects the last item, or clears the selection if the list is empty.
    pub fn select_last(&mut self, len: usize)
        ensures
            final(self).spec_offset() == old(self).spec_offset(),
            final(self).spec_selected() == if len > 0 {
                Some((len - 1) as usize)
            } else {
                None
            },
    {
        self.selected = len.checked_sub(1);
    }

    /// Moves the selection down by `amount`, clamped to the last item.
    pub fn scroll_down_by(&mut self, amount: usize, len: usize)
        ensures
            final(self).spec_offset() == old(self).spec_offset(),
            final(self).spec_selected() == advanced_selection(old(self).spec_selected(), amount as int, len as int),
    {
        if len == 0 {
            self.selected = None;
            return;
        }
        let next = match self.selected {
            Some(i) => if i >= len - 1 || amount >= len - 1 - i {
                len - 1
            } else {
                i + amount
            },
            None => 0,
        };
        self.selected = Some(next);
    }

    /// Moves the selection up by `amount`, clamped to the first item; selects
    /// the first item when nothing is selected.
    pub fn scroll_up_by(&mut self, amount: usize)
        ensures
            final(self).spec_offset() == old(self).spec_offset(),
            final(self).spec_selected() == retreated_selection(old(self).spec_selected(), amount as int),
    {
        let prev = match self.selected {
            Some(i) => i.saturating_sub(amount),
            None => 0,
        };
        self.selected = Some(prev);
    }

    /// Lay out the rows of a list of `len` items, each `item_height` rows
    /// tall, inside `area`, and update the offset so the selection stays
    /// visible.  Nothing changes and no row is produced when `item_height`,
    /// `area.height` or the number of fitting rows is zero.
    pub fn layout_rows(&mut self, len: usize, item_height: u16, area: Rect) -> (rows: Vec<ListRow>)
        ensures
            *final(self) == old(self).after_layout(len, item_height, area),
            rows@ == old(self).spec_layout_rows(len, item_height, area),
            final(self).spec_selected() == old(self).spec_selected(),
            item_height == 0 || area.height < item_height ==> *final(self) == *old(self) && rows@.len() == 0,
            item_height > 0 && area.height >= item_height ==> {
                &&& final(self).spec_offset() as int == adjusted_offset(
                    old(self).spec_offset(),
                    old(self).spec_selected(),
                    len as int,
                    (area.height / item_height) as int,
                )
                &&& rows@ == spec_rows(
                    final(self).spec_offset() as int,
                    old(self).spec_selected(),
                    len as int,
                    item_height,
                    area,
                )
            },
            len > 0 && item_height > 0 && area.height >= item_height && old(self).spec_selected() is Some
                && old(self).spec_selected()->0 < len ==> ({
                let visible = (area.height / item_height) as int;
                let offset = final(self).spec_offset() as int;
                let s = old(self).spec_selected()->0 as int;
                &&& offset <= s < offset + visible
                &&& offset <= if len >= visible {
                    len - visible
                } else {
                    0
                }
                &&& s - offset < rows@.len()
                &&& rows@[s - offset].index == s
                &&& rows@[s - offset].highlighted
            }),
    {
        if item_height == 0 || area.height == 0 {
            return Vec::new();
        }
        proof {
            lemma_rows_fit(0, item_height as int, area.height as int);
        }
        let visible_count: usize = (area.height / item_height) as usize;
        if visible_count == 0 {
            return Vec::new();
        }
        let max_offset = len.saturating_sub(visible_count);
        if self.offset > max_offset {
            self.offset = max_offset;
        }
        if let Some(selected) = self.selected {
            let last = len.saturating_sub(1);
            let selected = if selected < last {
                selected
            } else {
                last
            };
            if selected < self.offset {
                self.offset = selected;
            } else if selected - self.offset >= visible_count {
                self.offset = selected + 1 - visible_count;
            }
        }
        let ghost offset = self.offset as int;
        let ghost visible = visible_count as int;
        let count: usize = if len - self.offset < visible_count {
            len - self.offset
        } else {
            visible_count
        };
        let limit: u32 = area.y as u32 + area.height as u32;
        let mut rows: Vec<ListRow> = Vec::new();
        let mut k: usize = 0;
        let mut y: u32 = area.y as u32;
        while k < count
            invariant
                offset + count <= len,
                count <= visible,
                item_height > 0,
                visible == (area.height / item_height) as int,
                limit == area.y + area.height,
                k <= count,
                rows@.len() == k,
                y == area.y + k * item_height,
                y <= limit,
                forall|j: int|
                    0 <= j < rows@.len() ==> #[trigger] rows@[j] == row_at(
                        offset,
                        j,
                        old(self).spec_selected(),
                        item_height,
                        area,
                    ),
                self.selected == old(self).spec_selected(),
                self.offset == offset,
            decreases count - k,
        {
            proof {
                lemma_rows_fit(k as int, item_height as int, area.height as int);
                assert(y + item_height == area.y + (k + 1) * item_height) by (nonlinear_arith)
                    requires
                        y == area.y + k * item_height,
                ;
            }
            let i = self.offset + k;
            let row = ListRow {
                index: i,
                area: Rect { x: area.x, y: y as u16, width: area.width, height: item_height },
                highlighted: self.selected == Some(i),
            };
            rows.push(row);
            y = y + item_height as u32;
            k = k + 1;
        }
        proof {
            assert(rows@ =~= spec_rows(offset, old(self).spec_selected(), len as int, item_height, area));
            if len > 0 && old(self).spec_selected() is Some {
                law_layout_keeps_selection_visible(*old(self), len, item_height, area);
            }
        }
        rows
    }
}

} // verus!

verus! {

/// `min(a, b)` on `u16`.
pub open spec fn min_u16(a: u16, b: u16) -> u16 {
    if a <= b {
        a
    } else {
        b
    }
}

/// The area inside a one-cell border on all four sides.
pub open spec fn spec_bordered_inner(area: Rect) -> Rect {
    Rect {
        x: min_u16(sat_add(area.x, 1), area.spec_right()),
        y: min_u16(sat_add(area.y, 1), area.spec_bottom()),
        width: sat_sub(sat_sub(area.width, 1), 1),
        height: sat_sub(sat_sub(area.height, 1), 1),
    }
}

/// The inner area of a bordered ratatui block:
/// `ratatui::widgets::Block::bordered().inner(area)`.
///
/// Trusted: ratatui moves the corner one cell right and down (not past the
/// far edge) and shrinks width and height by two, saturating at zero.
#[verifier::external_body]
pub(crate) fn bordered_inner(area: Rect) -> (r: Rect)
    ensures
        r == spec_bordered_inner(area),
{
    let inner = Block::bordered().inner(RR { x: area.x, y: area.y, width: area.width, height: area.height });
    Rect { x: inner.x, y: inner.y, width: inner.width, height: inner.height }
}

} // verus!
