//! The element interface: what every node of a terminal UI tree can do, and
//! what each of its calls does, stated over the element's state.

use vstd::prelude::*;

use crate::buffer::{CellMap, TuiBuffer};
use crate::event::{TuiEvent, TuiEventContext};
use crate::geometry::{TuiConstraint, TuiRect, TuiSize};

verus! {

/// A node of a terminal UI tree. `layout` is called before `render` and
/// `dispatch_event` each frame; the last two receive the area the parent
/// placed the element in.
///
/// Each call is described by spec functions of the element's state before
/// the call: what `layout` returns and leaves behind, what `render` paints,
/// what `dispatch_event` answers, how it may change the event context and
/// what it leaves behind. Their default bodies describe the empty element,
/// which takes the least room allowed, draws nothing and handles nothing;
/// every element of this library states its own.
pub trait TuiElement {
    /// The size `layout` returns within `constraint`.
    open spec fn measure(&self, constraint: TuiConstraint) -> TuiSize {
        constraint.min
    }

    /// Whether `after` is a state `layout` within `constraint` may leave.
    open spec fn laid_out(&self, constraint: TuiConstraint, after: &Self) -> bool {
        true
    }

    /// The cells after `render` within `area` over `cells`.
    open spec fn draw(&self, area: TuiRect, cells: CellMap) -> CellMap {
        cells
    }

    /// Whether `dispatch_event` reports `event` within `area` handled.
    open spec fn handles(&self, event: TuiEvent, area: TuiRect) -> bool {
        false
    }

    /// Whether dispatching `event` within `area` may turn the context
    /// `before` into `after`.
    open spec fn responds(
        &self,
        event: TuiEvent,
        area: TuiRect,
        before: TuiEventContext,
        after: TuiEventContext,
    ) -> bool {
        after == before
    }

    /// Whether `after` is a state dispatching `event` within `area` may
    /// leave.
    open spec fn after_event(&self, event: TuiEvent, area: TuiRect, after: &Self) -> bool {
        true
    }

    /// Measures the element within `constraint`, recording whatever the
    /// later calls need.
    fn layout(&mut self, constraint: TuiConstraint) -> (r: TuiSize)
        ensures
            r == old(self).measure(constraint),
            old(self).laid_out(constraint, final(self)),
    ;

    /// Draws the element into `buffer` within `area`.
    fn render(&self, area: TuiRect, buffer: &mut TuiBuffer)
        ensures
            final(buffer).spec_area() == old(buffer).spec_area(),
            final(buffer)@ == self.draw(area, old(buffer)@),
    ;

    /// Where the terminal cursor belongs, if the element shows one; by
    /// default it shows none.
    fn cursor_position(&self, area: TuiRect) -> (r: Option<(u16, u16)>)
        default_ensures
            r is None,
    {
        None
    }

    /// Offers `event` to the element; returns whether it was handled.
    fn dispatch_event(
        &mut self,
        event: &TuiEvent,
        area: TuiRect,
        event_ctx: &mut TuiEventContext,
    ) -> (r: bool)
        ensures
            r == old(self).handles(*event, area),
            old(self).responds(*event, area, *old(event_ctx), *final(event_ctx)),
            old(self).after_event(*event, area, final(self)),
    ;
}

/// Whether every element of type `E` measures after a layout as it did
/// before, in any constraint.
pub open spec fn layout_keeps_measure<E: TuiElement>() -> bool {
    forall|e: E, after: E, constraint: TuiConstraint, any: TuiConstraint|
        #![trigger e.laid_out(constraint, &after), after.measure(any)]
        e.laid_out(constraint, &after) ==> after.measure(any) == e.measure(any)
}

/// Whether every element of type `E` draws after an event as it did
/// before, in any area.
pub open spec fn event_keeps_drawing<E: TuiElement>() -> bool {
    forall|e: E, after: E, event: TuiEvent, area: TuiRect, at: TuiRect, cells: CellMap|
        #![trigger e.after_event(event, area, &after), after.draw(at, cells)]
        e.after_event(event, area, &after) ==> after.draw(at, cells) == e.draw(at, cells)
}

/// The empty element: takes the least room allowed, draws nothing, handles
/// nothing.
impl TuiElement for () {
    fn layout(&mut self, constraint: TuiConstraint) -> (r: TuiSize) {
        constraint.min
    }

    fn render(&self, area: TuiRect, buffer: &mut TuiBuffer) {
    }

    fn dispatch_event(
        &mut self,
        event: &TuiEvent,
        area: TuiRect,
        event_ctx: &mut TuiEventContext,
    ) -> (r: bool) {
        false
    }
}

} // verus!

