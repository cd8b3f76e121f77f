use std::cell::Cell;
use std::rc::Rc;

use tui_blocks::buffer::TuiBuffer;
use tui_blocks::collapsible::TuiCollapsible;
use tui_blocks::element::TuiElement;
use tui_blocks::event::{ModifiersState, TuiEvent, TuiEventContext};
use tui_blocks::geometry::{TuiConstraint, TuiPoint, TuiRect, TuiSize};
use tui_blocks::text::TuiText;

/// Lays out (so the inner tree is built) then renders `element` to one string
/// per row.
fn layout_and_render<E: TuiElement>(element: &mut E, size: TuiSize) -> Vec<String> {
    let area = TuiRect::new(0, 0, size.width, size.height);
    element.layout(TuiConstraint::loose(size));
    let mut buffer = TuiBuffer::empty(area);
    element.render(area, &mut buffer);
    buffer.to_lines()
}

fn left_mouse_down(x: u16, y: u16) -> TuiEvent {
    TuiEvent::LeftMouseDown {
        position: TuiPoint::new(x, y),
        modifiers: ModifiersState::default(),
        click_count: 1,
        is_first_mouse: false,
    }
}

#[test]
fn expanded_renders_header_with_down_chevron_and_body() {
    let mut collapsible = TuiCollapsible::new(false, "Thinking...", TuiText::new("reasoning"));
    let lines = layout_and_render(&mut collapsible, TuiSize::new(20, 4));
    assert_eq!(lines[0].trim_end(), "Thinking... ▾");
    assert_eq!(lines[1].trim_end(), "reasoning");
}

#[test]
fn collapsed_renders_only_header_with_right_chevron() {
    let mut collapsible = TuiCollapsible::new(true, "Thinking...", TuiText::new("reasoning"));
    let lines = layout_and_render(&mut collapsible, TuiSize::new(20, 4));
    assert_eq!(lines[0].trim_end(), "Thinking... ▸");
    // The body is not rendered when collapsed.
    assert!(lines[1..].iter().all(|line| line.trim().is_empty()));
}

#[test]
fn header_click_invokes_on_toggle() {
    let hits = Rc::new(Cell::new(0u32));
    let counter = hits.clone();
    let mut collapsible = TuiCollapsible::new(false, "Thinking...", TuiText::new("reasoning"))
        .on_toggle(move |_ctx| counter.set(counter.get() + 1));

    let size = TuiSize::new(20, 4);
    let area = TuiRect::new(0, 0, size.width, size.height);
    collapsible.layout(TuiConstraint::loose(size));

    let mut event_ctx = TuiEventContext::default();
    // Click on the header row (row 0).
    let handled = collapsible.dispatch_event(&left_mouse_down(2, 0), area, &mut event_ctx);
    assert!(handled);
    assert_eq!(hits.get(), 1);
}

#[test]
fn body_click_does_not_toggle() {
    let hits = Rc::new(Cell::new(0u32));
    let counter = hits.clone();
    let mut collapsible = TuiCollapsible::new(false, "Thinking...", TuiText::new("reasoning"))
        .on_toggle(move |_ctx| counter.set(counter.get() + 1));
    let size = TuiSize::new(20, 4);
    let area = TuiRect::new(0, 0, size.width, size.height);
    collapsible.layout(TuiConstraint::loose(size));
    let mut event_ctx = TuiEventContext::default();
    let handled = collapsible.dispatch_event(&left_mouse_down(2, 1), area, &mut event_ctx);
    assert!(!handled);
    assert_eq!(hits.get(), 0);
}

#[test]
fn custom_chevron_glyphs_and_header_text() {
    let collapsible = TuiCollapsible::new(true, "Details", TuiText::new("body"))
        .with_chevron_glyphs("+", "-");
    assert_eq!(collapsible.chevron(), "+");
    assert_eq!(collapsible.header_text(), "Details +");
    let expanded = TuiCollapsible::new(false, "Details", TuiText::new("body"))
        .with_chevron_glyphs("+", "-");
    assert_eq!(expanded.chevron(), "-");
    assert_eq!(expanded.header_text(), "Details -");
}

#[test]
fn collapsed_layout_is_one_row_and_expanded_adds_body() {
    let mut collapsed = TuiCollapsible::new(true, "Thinking...", TuiText::new("a\nb"));
    let size = collapsed.layout(TuiConstraint::loose(TuiSize::new(20, 10)));
    assert_eq!(size.height, 1);
    let mut expanded = TuiCollapsible::new(false, "Thinking...", TuiText::new("a\nb"));
    let size = expanded.layout(TuiConstraint::loose(TuiSize::new(20, 10)));
    assert_eq!(size.height, 3);
    assert_eq!(size.width, 13);
}

#[test]
fn long_header_is_truncated() {
    let mut collapsible = TuiCollapsible::new(true, "Thinking about it", TuiText::new("x"));
    let lines = layout_and_render(&mut collapsible, TuiSize::new(8, 2));
    assert_eq!(lines[0], "Thinking");
    assert_eq!(lines[1].trim(), "");
}

#[test]
fn layout_again_keeps_size_and_body() {
    let mut collapsible = TuiCollapsible::new(false, "Thinking...", TuiText::new("a\nb"));
    let constraint = TuiConstraint::loose(TuiSize::new(20, 10));
    let first = collapsible.layout(constraint);
    let second = collapsible.layout(constraint);
    assert_eq!(first, second);
    assert_eq!(first.height, 3);
    let lines = layout_and_render(&mut collapsible, TuiSize::new(20, 4));
    assert_eq!(lines[1].trim_end(), "a");
    assert_eq!(lines[2].trim_end(), "b");
}

#[test]
fn collapsing_shortens_the_section() {
    let constraint = TuiConstraint::loose(TuiSize::new(20, 10));
    let mut expanded = TuiCollapsible::new(false, "Details", TuiText::new("one\ntwo"));
    let mut collapsed = TuiCollapsible::new(true, "Details", TuiText::new("one\ntwo"));
    assert_eq!(expanded.layout(constraint).height, 3);
    assert_eq!(collapsed.layout(constraint).height, 1);
}

#[test]
fn click_before_layout_is_not_handled() {
    let hits = Rc::new(Cell::new(0u32));
    let counter = hits.clone();
    let mut collapsible = TuiCollapsible::new(false, "Thinking...", TuiText::new("x"))
        .on_toggle(move |_ctx| counter.set(counter.get() + 1));
    let mut event_ctx = TuiEventContext::default();
    assert!(!collapsible.dispatch_event(&left_mouse_down(0, 0), TuiRect::new(0, 0, 20, 4), &mut event_ctx));
    assert_eq!(hits.get(), 0);
}

#[test]
fn later_toggle_handler_replaces_earlier_one() {
    let first = Rc::new(Cell::new(0u32));
    let second = Rc::new(Cell::new(0u32));
    let f = first.clone();
    let g = second.clone();
    let mut collapsible = TuiCollapsible::new(false, "Thinking...", TuiText::new("reasoning"))
        .on_toggle(move |_ctx| f.set(f.get() + 1))
        .on_toggle(move |_ctx| g.set(g.get() + 1));
    let size = TuiSize::new(20, 4);
    let area = TuiRect::new(0, 0, size.width, size.height);
    collapsible.layout(TuiConstraint::loose(size));
    let mut event_ctx = TuiEventContext::default();
    assert!(collapsible.dispatch_event(&left_mouse_down(2, 0), area, &mut event_ctx));
    assert_eq!(first.get(), 0);
    assert_eq!(second.get(), 1);
}

#[test]
fn toggle_registered_after_build_leaves_built_header_alone() {
    let first = Rc::new(Cell::new(0u32));
    let second = Rc::new(Cell::new(0u32));
    let f = first.clone();
    let g = second.clone();
    let size = TuiSize::new(20, 4);
    let area = TuiRect::new(0, 0, size.width, size.height);
    let mut collapsible = TuiCollapsible::new(false, "Thinking...", TuiText::new("reasoning"))
        .on_toggle(move |_ctx| f.set(f.get() + 1));
    collapsible.layout(TuiConstraint::loose(size));
    let mut collapsible = collapsible.on_toggle(move |_ctx| g.set(g.get() + 1));
    collapsible.layout(TuiConstraint::loose(size));
    let mut event_ctx = TuiEventContext::default();
    assert!(collapsible.dispatch_event(&left_mouse_down(2, 0), area, &mut event_ctx));
    assert_eq!(first.get(), 1);
    assert_eq!(second.get(), 0);
}

#[test]
fn header_click_leaves_rendering_unchanged() {
    let mut collapsible = TuiCollapsible::new(false, "Thinking...", TuiText::new("reasoning"))
        .on_toggle(|ctx| ctx.notify());
    let before = layout_and_render(&mut collapsible, TuiSize::new(20, 4));
    let mut event_ctx = TuiEventContext::default();
    assert!(collapsible.dispatch_event(&left_mouse_down(2, 0), TuiRect::new(0, 0, 20, 4), &mut event_ctx));
    assert!(event_ctx.is_notified());
    let after = layout_and_render(&mut collapsible, TuiSize::new(20, 4));
    assert_eq!(before, after);
}
