//! `TuiHoverable`: wraps a child element and runs a callback when it is
//! clicked.
//!
//! Layout, rendering and the cursor are the child's. On `dispatch_event` the
//! event is offered to the child first; if the child consumes it, dispatch
//! stops. Otherwise a `LeftMouseDown` whose position lies within the element's
//! area runs the click handler and is reported handled. Other events are left
//! unhandled so ancestors can react.

use vstd::prelude::*;

use crate::buffer::{CellMap, TuiBuffer};
use crate::element::TuiElement;
use crate::event::{TuiEvent, TuiEventContext};
use crate::geometry::{TuiConstraint, TuiRect, TuiSize};

verus! {

/// Something that reacts to an event with the event's context.
pub trait TuiEventCallback {
    /// Whether one run may turn the context `before` into `after`.
    spec fn effect(&self, before: TuiEventContext, after: TuiEventContext) -> bool;

    /// Runs the callback once on `event_ctx`.
    fn call(&self, event_ctx: &mut TuiEventContext)
        ensures
            self.effect(*old(event_ctx), *final(event_ctx)),
    ;
}

/// The handler type of a wrapper that was given none; running it changes
/// nothing.
pub struct NoCallback;

impl TuiEventCallback for NoCallback {
    open spec fn effect(&self, before: TuiEventContext, after: TuiEventContext) -> bool {
        after == before
    }

    fn call(&self, event_ctx: &mut TuiEventContext) {
    }
}

/// A callback made from a closure that accepts every context.
pub struct FnCallback<F: Fn(&mut TuiEventContext)> {
    pub(crate) f: F,
}

impl<F: Fn(&mut TuiEventContext)> FnCallback<F> {
    /// The closure this callback runs.
    pub closed spec fn closure(&self) -> F {
        self.f
    }

    #[verifier::type_invariant]
    pub(crate) open spec fn callable(self) -> bool {
        forall|c: &mut TuiEventContext| call_requires(self.f, (c,))
    }

    /// Wraps `f`.
    pub fn new(f: F) -> (r: FnCallback<F>)
        requires
            forall|c: &mut TuiEventContext| call_requires(f, (c,)),
        ensures
            r.closure() == f,
    {
        FnCallback { f }
    }
}

impl<F: Fn(&mut TuiEventContext)> TuiEventCallback for FnCallback<F> {
    /// An arbitrary closure may change the context in any way; what one run
    /// of it does is stated on `call`, through the closure's own contract.
    open spec fn effect(&self, before: TuiEventContext, after: TuiEventContext) -> bool {
        true
    }

    /// Runs the closure once on the context: the context changes as one run
    /// of the closure allows.
    fn call(&self, event_ctx: &mut TuiEventContext)
        ensures
            exists|m: &mut TuiEventContext|
                mut_ref_current(m) == *old(event_ctx) && mut_ref_future(m) == *final(event_ctx)
                    && call_ensures(self.closure(), (m,), ()),
    {
        proof {
            use_type_invariant(self);
        }
        (self.f)(event_ctx);
    }
}

/// Whether `event` is a left press inside `area`.
pub open spec fn is_click_in(event: TuiEvent, area: TuiRect) -> bool {
    match event {
        TuiEvent::LeftMouseDown { position, .. } => area.holds(position.x as int, position.y as int),
        _ => false,
    }
}

/// What a click wrapper does with an event its child has seen.
#[derive(Clone, Copy, Debug, PartialEq, Eq, Structural)]
pub struct ClickOutcome {
    /// Whether the click handler runs.
    pub run_handler: bool,
    /// Whether the event is reported handled.
    pub handled: bool,
}

/// Decides what a click wrapper does: the handler runs only for a left press
/// inside `area` that the child left unhandled, and only when there is a
/// handler; the event is handled if the child handled it or the handler ran.
pub fn resolve_click(
    child_handled: bool,
    event: &TuiEvent,
    area: TuiRect,
    has_handler: bool,
) -> (r: ClickOutcome)
    ensures
        r.run_handler == (!child_handled && has_handler && is_click_in(*event, area)),
        r.handled == (child_handled || r.run_handler),
{
    if child_handled {
        return ClickOutcome { run_handler: false, handled: true };
    }
    let hit = match event {
        TuiEvent::LeftMouseDown { position, .. } => area.contains_point(*position),
        _ => false,
    };
    let run = has_handler && hit;
    ClickOutcome { run_handler: run, handled: run }
}

/// A child element with an optional click handler.
pub struct TuiHoverable<C, K> {
    child: C,
    on_click: Option<K>,
}

impl<C, K> TuiHoverable<C, K> {
    /// The wrapped child.
    pub closed spec fn wrapped(&self) -> C {
        self.child
    }

    /// The registered click handler, if any.
    pub closed spec fn handler(&self) -> Option<K> {
        self.on_click
    }

    /// Whether a click handler is registered.
    pub open spec fn has_click_handler(&self) -> bool {
        self.handler() is Some
    }

    /// Wraps `child` with `on_click` as its click handler.
    pub fn with_handler(child: C, on_click: Option<K>) -> (r: TuiHoverable<C, K>)
        ensures
            r.wrapped() == child,
            r.handler() == on_click,
    {
        TuiHoverable { child, on_click }
    }

    /// Takes the wrapper apart into its child and its click handler.
    pub fn into_parts(self) -> (r: (C, Option<K>))
        ensures
            r.0 == self.wrapped(),
            r.1 == self.handler(),
    {
        (self.child, self.on_click)
    }

    /// Registers `callback` to run when a `LeftMouseDown` within this
    /// element's area reaches it unhandled by the child; it replaces any
    /// handler registered before.
    pub fn on_click<F: Fn(&mut TuiEventContext)>(self, callback: F) -> (r: TuiHoverable<
        C,
        FnCallback<F>,
    >)
        requires
            forall|c: &mut TuiEventContext| call_requires(callback, (c,)),
        ensures
            r.wrapped() == self.wrapped(),
            r.handler() matches Some(h) && h.closure() == callback,
    {
        TuiHoverable { child: self.child, on_click: Some(FnCallback::new(callback)) }
    }

    /// Registers `callback` as the click handler, replacing any handler
    /// registered before.
    pub fn with_click_callback<K2>(self, callback: K2) -> (r: TuiHoverable<C, K2>)
        ensures
            r.wrapped() == self.wrapped(),
            r.handler() == Some(callback),
    {
        TuiHoverable { child: self.child, on_click: Some(callback) }
    }
}

impl<C> TuiHoverable<C, NoCallback> {
    /// Wraps `child`, with no click handler yet.
    pub fn new(child: C) -> (r: TuiHoverable<C, NoCallback>)
        ensures
            r.wrapped() == child,
            r.handler() is None,
    {
        TuiHoverable { child, on_click: None }
    }
}

impl<C: TuiElement, K: TuiEventCallback> TuiHoverable<C, K> {
    /// Whether the click handler runs for `event` within `area`: a left press
    /// inside the area that the child leaves unhandled, with a handler
    /// registered.
    pub open spec fn runs_handler(&self, event: TuiEvent, area: TuiRect) -> bool {
        !self.wrapped().handles(event, area) && self.has_click_handler() && is_click_in(
            event,
            area,
        )
    }
}

impl<C: TuiElement, K: TuiEventCallback> TuiElement for TuiHoverable<C, K> {
    /// The child's size.
    open spec fn measure(&self, constraint: TuiConstraint) -> TuiSize {
        self.wrapped().measure(constraint)
    }

    open spec fn laid_out(&self, constraint: TuiConstraint, after: &Self) -> bool {
        &&& self.wrapped().laid_out(constraint, &after.wrapped())
        &&& after.handler() == self.handler()
    }

    /// What the child draws.
    open spec fn draw(&self, area: TuiRect, cells: CellMap) -> CellMap {
        self.wrapped().draw(area, cells)
    }

    /// Handled when the child handles it or the click handler runs.
    open spec fn handles(&self, event: TuiEvent, area: TuiRect) -> bool {
        self.wrapped().handles(event, area) || self.runs_handler(event, area)
    }

    /// The child's response, then one run of the handler when it runs.
    open spec fn responds(
        &self,
        event: TuiEvent,
        area: TuiRect,
        before: TuiEventContext,
        after: TuiEventContext,
    ) -> bool {
        exists|mid: TuiEventContext|
            #![trigger self.wrapped().responds(event, area, before, mid)]
            self.wrapped().responds(event, area, before, mid) && if self.runs_handler(
                event,
                area,
            ) {
                self.handler()->Some_0.effect(mid, after)
            } else {
                after == mid
            }
    }

    open spec fn after_event(&self, event: TuiEvent, area: TuiRect, after: &Self) -> bool {
        &&& self.wrapped().after_event(event, area, &after.wrapped())
        &&& after.handler() == self.handler()
    }

    fn layout(&mut self, constraint: TuiConstraint) -> (r: TuiSize) {
        self.child.layout(constraint)
    }

    fn render(&self, area: TuiRect, buffer: &mut TuiBuffer) {
        self.child.render(area, buffer);
    }

    fn cursor_position(&self, area: TuiRect) -> Option<(u16, u16)> {
        self.child.cursor_position(area)
    }

    fn dispatch_event(
        &mut self,
        event: &TuiEvent,
        area: TuiRect,
        event_ctx: &mut TuiEventContext,
    ) -> (r: bool) {
        let child_handled = self.child.dispatch_event(event, area, event_ctx);
        let ghost mid = *event_ctx;
        let outcome = resolve_click(child_handled, event, area, self.on_click.is_some());
        if outcome.run_handler {
            match &self.on_click {
                Some(callback) => callback.call(event_ctx),
                None => {},
            }
        }
        assert(old(self).wrapped().responds(*event, area, *old(event_ctx), mid));
        outcome.handled
    }
}

} // verus!
