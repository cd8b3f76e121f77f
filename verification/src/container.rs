//! `TuiContainer`: a child with padding on the left and at the bottom and an
//! optional background color.

use vstd::prelude::*;

use crate::buffer::{CellMap, TuiBuffer, TuiCell};
use crate::column::{min_rows, natural_height};
use crate::element::{event_keeps_drawing, layout_keeps_measure, TuiElement};
use crate::event::{TuiEvent, TuiEventContext};
use crate::geometry::{TuiConstraint, TuiRect, TuiSize};
use crate::style::{TuiColor, TuiStyle};

verus! {

/// `a - b`, or zero when `b` is larger.
pub open spec fn saturating_sub(a: u16, b: u16) -> u16 {
    if a >= b {
        (a - b) as u16
    } else {
        0
    }
}

/// The area a container with paddings `left` and `bottom` gives its child
/// within `area`.
pub open spec fn padded_area(area: TuiRect, left: u16, bottom: u16) -> TuiRect {
    TuiRect {
        x: if area.x + left <= u16::MAX {
            (area.x + left) as u16
        } else {
            u16::MAX
        },
        y: area.y,
        width: saturating_sub(area.width, left),
        height: saturating_sub(area.height, bottom),
    }
}

/// `cell` with its background set to `color`.
pub open spec fn with_bg(cell: TuiCell, color: TuiColor) -> TuiCell {
    TuiCell { style: TuiStyle { bg: Some(color), ..cell.style }, ..cell }
}

/// The cell at `p` of `cells` after painting the background of `area` with
/// `color`.
pub open spec fn filled_cell(cells: CellMap, area: TuiRect, color: TuiColor, p: (int, int)) -> TuiCell {
    if area.holds(p.0, p.1) {
        with_bg(cells[p], color)
    } else {
        cells[p]
    }
}

/// `cells` with the background of `area` painted with `color`.
pub open spec fn fill_cells(cells: CellMap, area: TuiRect, color: TuiColor) -> CellMap {
    cells.dom().mk_map(|p: (int, int)| filled_cell(cells, area, color, p))
}

/// The constraint a container with paddings `left` and `bottom` gives its
/// child within `max`.
pub open spec fn inner_constraint(max: TuiSize, left: u16, bottom: u16) -> TuiConstraint {
    TuiConstraint {
        min: TuiSize { width: 0, height: 0 },
        max: TuiSize {
            width: saturating_sub(max.width, left),
            height: saturating_sub(max.height, bottom),
        },
    }
}

/// The size of a container within `max` whose child took `child`: the
/// child's size cut to the inner room, plus the paddings that fit.
pub open spec fn padded_size(child: TuiSize, max: TuiSize, left: u16, bottom: u16) -> TuiSize {
    let inner = inner_constraint(max, left, bottom).max;
    TuiSize {
        width: ((if child.width < inner.width {
            child.width
        } else {
            inner.width
        }) + (max.width - inner.width)) as u16,
        height: ((if child.height < inner.height {
            child.height
        } else {
            inner.height
        }) + (max.height - inner.height)) as u16,
    }
}

/// Paints the background of every cell of `area` with `color`, keeping the
/// characters, foregrounds and modifiers.
pub fn fill_background(buffer: &mut TuiBuffer, area: TuiRect, color: TuiColor)
    ensures
        final(buffer).spec_area() == old(buffer).spec_area(),
        final(buffer)@ == fill_cells(old(buffer)@, area, color),
        forall|a: int, b: int| #[trigger]
            final(buffer).cell_at(a, b) == match old(buffer).cell_at(a, b) {
                Some(c) => if area.holds(a, b) {
                    Some(with_bg(c, color))
                } else {
                    Some(c)
                },
                None => None,
            },
{
    let right = area.right();
    let bottom = area.bottom();
    let mut y = area.y;
    while y < bottom
        invariant
            area.y <= y <= bottom,
            bottom == area.spec_bottom(),
            right == area.spec_right(),
            buffer.spec_area() == old(buffer).spec_area(),
            forall|a: int, b: int| #[trigger]
                buffer.cell_at(a, b) == match old(buffer).cell_at(a, b) {
                    Some(c) => if area.holds(a, b) && b < y {
                        Some(with_bg(c, color))
                    } else {
                        Some(c)
                    },
                    None => None,
                },
        decreases bottom - y,
    {
        let mut x = area.x;
        while x < right
            invariant
                area.x <= x <= right,
                area.y <= y < bottom,
                bottom == area.spec_bottom(),
                right == area.spec_right(),
                buffer.spec_area() == old(buffer).spec_area(),
                forall|a: int, b: int| #[trigger]
                    buffer.cell_at(a, b) == match old(buffer).cell_at(a, b) {
                        Some(c) => if area.holds(a, b) && (b < y || (b == y && a < x)) {
                            Some(with_bg(c, color))
                        } else {
                            Some(c)
                        },
                        None => None,
                    },
            decreases right - x,
        {
            buffer.set_background(x, y, color);
            x = x + 1;
        }
        y = y + 1;
    }
    let ghost filled = fill_cells(old(buffer)@, area, color);
    assert forall|p: (int, int)|
        #![trigger buffer@.contains_key(p)]
        #![trigger filled.contains_key(p)]
        buffer@.contains_key(p) == filled.contains_key(p) && (buffer@.contains_key(p)
            ==> buffer@[p] == filled[p]) by {
        assert(buffer.cell_at(p.0, p.1) == match old(buffer).cell_at(p.0, p.1) {
            Some(c) => if area.holds(p.0, p.1) {
                Some(with_bg(c, color))
            } else {
                Some(c)
            },
            None => None,
        });
    }
    assert(buffer@ =~= filled);
}

/// A child with padding and an optional background.
pub struct TuiContainer<C> {
    child: C,
    padding_left: u16,
    padding_bottom: u16,
    background: Option<TuiColor>,
}

impl<C> TuiContainer<C> {
    /// The wrapped child.
    pub closed spec fn wrapped(&self) -> C {
        self.child
    }

    /// Columns kept empty left of the child.
    pub closed spec fn left_padding(&self) -> u16 {
        self.padding_left
    }

    /// Rows kept empty below the child.
    pub closed spec fn bottom_padding(&self) -> u16 {
        self.padding_bottom
    }

    /// The color painted behind the whole area, if any.
    pub closed spec fn background_color(&self) -> Option<TuiColor> {
        self.background
    }

    /// Whether `other` has the paddings and background of this container.
    pub open spec fn same_settings(&self, other: &TuiContainer<C>) -> bool {
        &&& other.left_padding() == self.left_padding()
        &&& other.bottom_padding() == self.bottom_padding()
        &&& other.background_color() == self.background_color()
    }

    /// The area the child gets within `area`.
    pub open spec fn child_area(&self, area: TuiRect) -> TuiRect {
        padded_area(area, self.left_padding(), self.bottom_padding())
    }

    /// The constraint the child gets within `constraint`.
    pub open spec fn child_constraint(&self, constraint: TuiConstraint) -> TuiConstraint {
        inner_constraint(constraint.max, self.left_padding(), self.bottom_padding())
    }

    /// Wraps `child` without padding or background.
    pub fn new(child: C) -> (r: TuiContainer<C>)
        ensures
            r.wrapped() == child,
            r.left_padding() == 0,
            r.bottom_padding() == 0,
            r.background_color() is None,
    {
        TuiContainer { child, padding_left: 0, padding_bottom: 0, background: None }
    }

    /// This container with `cells` columns of padding on the left.
    pub fn with_padding_left(self, cells: u16) -> (r: TuiContainer<C>)
        ensures
            r.wrapped() == self.wrapped(),
            r.left_padding() == cells,
            r.bottom_padding() == self.bottom_padding(),
            r.background_color() == self.background_color(),
    {
        TuiContainer { padding_left: cells, ..self }
    }

    /// This container with `rows` rows of padding at the bottom.
    pub fn with_padding_bottom(self, rows: u16) -> (r: TuiContainer<C>)
        ensures
            r.wrapped() == self.wrapped(),
            r.left_padding() == self.left_padding(),
            r.bottom_padding() == rows,
            r.background_color() == self.background_color(),
    {
        TuiContainer { padding_bottom: rows, ..self }
    }

    /// This container painting `color` behind its area.
    pub fn with_background(self, color: TuiColor) -> (r: TuiContainer<C>)
        ensures
            r.wrapped() == self.wrapped(),
            r.left_padding() == self.left_padding(),
            r.bottom_padding() == self.bottom_padding(),
            r.background_color() == Some(color),
    {
        TuiContainer { background: Some(color), ..self }
    }

    /// The area the child gets within `area`.
    pub fn inner_area(&self, area: TuiRect) -> (r: TuiRect)
        ensures
            r == self.child_area(area),
    {
        TuiRect {
            x: area.x.saturating_add(self.padding_left),
            y: area.y,
            width: area.width.saturating_sub(self.padding_left),
            height: area.height.saturating_sub(self.padding_bottom),
        }
    }
}

impl<C: TuiElement> TuiElement for TuiContainer<C> {
    /// The child's size within the inner room, plus the paddings.
    open spec fn measure(&self, constraint: TuiConstraint) -> TuiSize {
        padded_size(
            self.wrapped().measure(self.child_constraint(constraint)),
            constraint.max,
            self.left_padding(),
            self.bottom_padding(),
        )
    }

    open spec fn laid_out(&self, constraint: TuiConstraint, after: &Self) -> bool {
        &&& self.wrapped().laid_out(self.child_constraint(constraint), &after.wrapped())
        &&& self.same_settings(after)
    }

    /// The background over the whole area, then the child in its area.
    open spec fn draw(&self, area: TuiRect, cells: CellMap) -> CellMap {
        self.wrapped().draw(
            self.child_area(area),
            match self.background_color() {
                Some(color) => fill_cells(cells, area, color),
                None => cells,
            },
        )
    }

    /// What the child answers in its area.
    open spec fn handles(&self, event: TuiEvent, area: TuiRect) -> bool {
        self.wrapped().handles(event, self.child_area(area))
    }

    open spec fn responds(
        &self,
        event: TuiEvent,
        area: TuiRect,
        before: TuiEventContext,
        after: TuiEventContext,
    ) -> bool {
        self.wrapped().responds(event, self.child_area(area), before, after)
    }

    open spec fn after_event(&self, event: TuiEvent, area: TuiRect, after: &Self) -> bool {
        &&& self.wrapped().after_event(event, self.child_area(area), &after.wrapped())
        &&& self.same_settings(after)
    }

    fn layout(&mut self, constraint: TuiConstraint) -> (r: TuiSize) {
        let inner = TuiSize {
            width: constraint.max.width.saturating_sub(self.padding_left),
            height: constraint.max.height.saturating_sub(self.padding_bottom),
        };
        let size = self.child.layout(TuiConstraint { min: TuiSize::zero(), max: inner });
        let w = if size.width < inner.width {
            size.width
        } else {
            inner.width
        };
        let h = if size.height < inner.height {
            size.height
        } else {
            inner.height
        };
        TuiSize {
            width: w + (constraint.max.width - inner.width),
            height: h + (constraint.max.height - inner.height),
        }
    }

    fn render(&self, area: TuiRect, buffer: &mut TuiBuffer) {
        match self.background {
            Some(color) => fill_background(buffer, area, color),
            None => {},
        }
        self.child.render(self.inner_area(area), buffer);
    }

    fn cursor_position(&self, area: TuiRect) -> Option<(u16, u16)> {
        self.child.cursor_position(self.inner_area(area))
    }

    fn dispatch_event(
        &mut self,
        event: &TuiEvent,
        area: TuiRect,
        event_ctx: &mut TuiEventContext,
    ) -> (r: bool) {
        let inner = self.inner_area(area);
        self.child.dispatch_event(event, inner, event_ctx)
    }
}

/// A container adds its bottom padding to a child of natural height.
pub proof fn lemma_container_natural<C: TuiElement>(e: TuiContainer<C>, width: u16, n: nat)
    requires
        natural_height(e.wrapped(), saturating_sub(width, e.left_padding()), n),
    ensures
        natural_height(e, width, n + e.bottom_padding() as nat),
{
    assert forall|constraint: TuiConstraint| constraint.max.width == width implies #[trigger] e.measure(
        constraint,
    ).height == min_rows(n + e.bottom_padding() as nat, constraint.max.height) by {
        let inner = e.child_constraint(constraint);
        assert(e.wrapped().measure(inner).height == min_rows(n, inner.max.height));
    }
}

/// A container keeps its measure through layout when its child's type does.
pub proof fn lemma_container_layout_keeps_measure<C: TuiElement>()
    requires
        layout_keeps_measure::<C>(),
    ensures
        layout_keeps_measure::<TuiContainer<C>>(),
{
    assert forall|e: TuiContainer<C>, after: TuiContainer<C>, constraint: TuiConstraint, any: TuiConstraint|
        #![trigger e.laid_out(constraint, &after), after.measure(any)]
        e.laid_out(constraint, &after) implies after.measure(any) == e.measure(any) by {
        let inner = e.child_constraint(any);
        assert(e.wrapped().laid_out(e.child_constraint(constraint), &after.wrapped()));
        assert(after.wrapped().measure(inner) == e.wrapped().measure(inner));
    }
}

/// A container draws after an event as before when its child's type does.
pub proof fn lemma_container_event_keeps_drawing<C: TuiElement>()
    requires
        event_keeps_drawing::<C>(),
    ensures
        event_keeps_drawing::<TuiContainer<C>>(),
{
    assert forall|
        e: TuiContainer<C>,
        after: TuiContainer<C>,
        event: TuiEvent,
        area: TuiRect,
        at: TuiRect,
        cells: CellMap,
    |
        #![trigger e.after_event(event, area, &after), after.draw(at, cells)]
        e.after_event(event, area, &after) implies after.draw(at, cells) == e.draw(at, cells) by {
        let filled = match e.background_color() {
            Some(color) => fill_cells(cells, at, color),
            None => cells,
        };
        assert(e.wrapped().after_event(event, e.child_area(area), &after.wrapped()));
        assert(after.wrapped().draw(e.child_area(at), filled) == e.wrapped().draw(
            e.child_area(at),
            filled,
        ));
    }
}

} // verus!
