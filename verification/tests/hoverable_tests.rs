use std::cell::Cell;
use std::rc::Rc;

use tui_blocks::buffer::TuiBuffer;
use tui_blocks::element::TuiElement;
use tui_blocks::event::{ModifiersState, TuiEvent, TuiEventContext};
use tui_blocks::geometry::{TuiConstraint, TuiPoint, TuiRect, TuiSize};
use tui_blocks::hoverable::{resolve_click, TuiHoverable};

fn left_mouse_down(x: u16, y: u16) -> TuiEvent {
    TuiEvent::LeftMouseDown {
        position: TuiPoint::new(x, y),
        modifiers: ModifiersState::default(),
        click_count: 1,
        is_first_mouse: false,
    }
}

#[test]
fn click_inside_area_runs_callback_and_reports_handled() {
    let hits = Rc::new(Cell::new(0u32));
    let counter = hits.clone();
    let mut hoverable = TuiHoverable::new(()).on_click(move |_ctx| {
        counter.set(counter.get() + 1);
    });

    let area = TuiRect::new(0, 0, 4, 2);
    let mut event_ctx = TuiEventContext::default();

    let handled = hoverable.dispatch_event(&left_mouse_down(1, 1), area, &mut event_ctx);
    assert!(handled);
    assert_eq!(hits.get(), 1);

    // A click outside the area is left unhandled and runs no callback.
    let handled = hoverable.dispatch_event(&left_mouse_down(10, 10), area, &mut event_ctx);
    assert!(!handled);
    assert_eq!(hits.get(), 1);
}

#[test]
fn child_consumes_the_event_before_the_wrapper() {
    let outer_hits = Rc::new(Cell::new(0u32));
    let outer_counter = outer_hits.clone();

    // A child that always handles the event pre-empts the wrapper's click.
    let child = AlwaysHandles;
    let mut hoverable = TuiHoverable::new(child).on_click(move |_| {
        outer_counter.set(outer_counter.get() + 1);
    });

    let mut event_ctx = TuiEventContext::default();
    let handled =
        hoverable.dispatch_event(&left_mouse_down(0, 0), TuiRect::new(0, 0, 1, 1), &mut event_ctx);

    assert!(handled);
    assert_eq!(outer_hits.get(), 0);
}

/// A leaf element that reports every event as handled, used to verify the
/// wrapper defers to its child.
struct AlwaysHandles;

impl TuiElement for AlwaysHandles {
    fn layout(&mut self, constraint: TuiConstraint) -> TuiSize {
        constraint.min
    }

    fn render(&self, _area: TuiRect, _buffer: &mut TuiBuffer) {}

    fn dispatch_event(
        &mut self,
        _event: &TuiEvent,
        _area: TuiRect,
        _event_ctx: &mut TuiEventContext,
    ) -> bool {
        true
    }
}

#[test]
fn other_events_are_left_unhandled() {
    let hits = Rc::new(Cell::new(0u32));
    let counter = hits.clone();
    let mut hoverable = TuiHoverable::new(()).on_click(move |_ctx| counter.set(counter.get() + 1));
    let area = TuiRect::new(0, 0, 4, 2);
    let mut event_ctx = TuiEventContext::default();
    let moved = TuiEvent::MouseMoved { position: TuiPoint::new(1, 1) };
    assert!(!hoverable.dispatch_event(&moved, area, &mut event_ctx));
    let up = TuiEvent::LeftMouseUp { position: TuiPoint::new(1, 1), modifiers: ModifiersState::default() };
    assert!(!hoverable.dispatch_event(&up, area, &mut event_ctx));
    assert_eq!(hits.get(), 0);
}

#[test]
fn no_handler_leaves_clicks_unhandled() {
    let mut hoverable = TuiHoverable::new(());
    let mut event_ctx = TuiEventContext::default();
    assert!(!hoverable.dispatch_event(&left_mouse_down(0, 0), TuiRect::new(0, 0, 2, 2), &mut event_ctx));
}

#[test]
fn resolve_click_decisions() {
    let area = TuiRect::new(2, 3, 4, 2);
    let inside = left_mouse_down(5, 4);
    let right_edge = left_mouse_down(6, 4);
    let r = resolve_click(false, &inside, area, true);
    assert!(r.run_handler && r.handled);
    let r = resolve_click(true, &inside, area, true);
    assert!(!r.run_handler && r.handled);
    let r = resolve_click(false, &right_edge, area, true);
    assert!(!r.run_handler && !r.handled);
    let r = resolve_click(false, &inside, area, false);
    assert!(!r.run_handler && !r.handled);
}

#[test]
fn rect_contains_point_edges() {
    let area = TuiRect::new(2, 3, 4, 2);
    assert!(area.contains_point(TuiPoint::new(2, 3)));
    assert!(area.contains_point(TuiPoint::new(5, 4)));
    assert!(!area.contains_point(TuiPoint::new(6, 4)));
    assert!(!area.contains_point(TuiPoint::new(5, 5)));
    assert!(!area.contains_point(TuiPoint::new(1, 3)));
    let edge = TuiRect::new(65530, 0, 100, 1);
    assert_eq!(edge.right(), 65535);
    assert!(edge.contains_point(TuiPoint::new(65534, 0)));
    assert!(!edge.contains_point(TuiPoint::new(65535, 0)));
}

#[test]
fn later_click_handler_replaces_earlier_one() {
    let first = Rc::new(Cell::new(0u32));
    let second = Rc::new(Cell::new(0u32));
    let a = first.clone();
    let b = second.clone();
    let mut hoverable = TuiHoverable::new(())
        .on_click(move |_ctx| a.set(a.get() + 1))
        .on_click(move |_ctx| b.set(b.get() + 1));
    let mut event_ctx = TuiEventContext::default();
    assert!(hoverable.dispatch_event(&left_mouse_down(0, 0), TuiRect::new(0, 0, 2, 2), &mut event_ctx));
    assert_eq!(first.get(), 0);
    assert_eq!(second.get(), 1);
}
