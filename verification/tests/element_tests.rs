use tui_blocks::buffer::{TuiBuffer, TuiCell};
use tui_blocks::column::TuiColumn;
use tui_blocks::container::{fill_background, TuiContainer};
use tui_blocks::element::TuiElement;
use tui_blocks::event::{TuiAction, TuiEventContext};
use tui_blocks::geometry::{TuiConstraint, TuiRect, TuiSize};
use tui_blocks::strings::{join_lines, push_decimal};
use tui_blocks::style::{Modifier, TuiColor, TuiStyle};
use tui_blocks::text::{split_text_lines, TuiText};
use tui_blocks::thinking::MessageId;

fn render<E: TuiElement>(element: &mut E, width: u16, height: u16) -> Vec<String> {
    let area = TuiRect::new(0, 0, width, height);
    element.layout(TuiConstraint::loose(TuiSize::new(width, height)));
    let mut buffer = TuiBuffer::empty(area);
    element.render(area, &mut buffer);
    buffer.to_lines()
}

#[test]
fn text_wraps_at_width_and_splits_at_newlines() {
    let mut text = TuiText::new("abcdefg\nhi");
    let size = text.layout(TuiConstraint::loose(TuiSize::new(3, 10)));
    assert_eq!(size, TuiSize::new(3, 4));
    let lines = render(&mut text, 3, 5);
    assert_eq!(lines, vec!["abc", "def", "g  ", "hi ", "   "]);
}

#[test]
fn text_truncates_and_clips_height() {
    let mut text = TuiText::new("abcdefg\nhi\nthird").truncate();
    let size = text.layout(TuiConstraint::loose(TuiSize::new(4, 2)));
    assert_eq!(size, TuiSize::new(4, 2));
    let lines = render(&mut text, 4, 2);
    assert_eq!(lines, vec!["abcd", "hi  "]);
}

#[test]
fn text_rows_of_empty_and_zero_width() {
    let text = TuiText::new("");
    assert_eq!(text.rows(5), vec![Vec::<char>::new()]);
    assert!(text.rows(0).is_empty());
    let t = TuiText::new("a\n");
    assert_eq!(t.rows(5), vec![vec!['a'], vec![]]);
}

#[test]
fn text_style_reaches_cells() {
    let style = TuiStyle::default().fg(TuiColor::Indexed(3)).add_modifier(Modifier::bold());
    let text = TuiText::new("x").with_style(style);
    let area = TuiRect::new(1, 1, 2, 1);
    let mut buffer = TuiBuffer::empty(TuiRect::new(0, 0, 4, 3));
    text.render(area, &mut buffer);
    assert_eq!(buffer.get(1, 1), Some(TuiCell { symbol: 'x', style }));
    assert_eq!(buffer.get(2, 1).map(|c| c.symbol), Some(' '));
    assert_eq!(buffer.get(9, 9), None);
    assert_eq!(style.add_modifier.0, 1);
}

#[test]
fn column_stacks_children_and_clips() {
    let mut column = TuiColumn::new()
        .child(TuiText::new("one"))
        .child(TuiText::new("two\nthree"))
        .child(TuiText::new("four"));
    let size = column.layout(TuiConstraint::loose(TuiSize::new(10, 3)));
    assert_eq!(size.height, 3);
    assert_eq!(size.width, 5);
    let lines = render(&mut column, 10, 3);
    assert_eq!(lines[0].trim_end(), "one");
    assert_eq!(lines[1].trim_end(), "two");
    assert_eq!(lines[2].trim_end(), "three");
}

#[test]
fn container_pads_left_and_bottom_and_paints_background() {
    let mut container = TuiContainer::new(TuiText::new("hi"))
        .with_padding_left(2)
        .with_padding_bottom(1)
        .with_background(TuiColor::Indexed(4));
    let size = container.layout(TuiConstraint::loose(TuiSize::new(10, 10)));
    assert_eq!(size, TuiSize::new(4, 2));
    let area = TuiRect::new(0, 0, 5, 3);
    let mut buffer = TuiBuffer::empty(area);
    container.render(area, &mut buffer);
    let lines = buffer.to_lines();
    assert_eq!(lines[0], "  hi ");
    assert_eq!(buffer.get(0, 2).unwrap().style.bg, Some(TuiColor::Indexed(4)));
    assert_eq!(buffer.get(2, 0).unwrap().style.bg, None);
}

#[test]
fn fill_background_stays_in_area() {
    let mut buffer = TuiBuffer::empty(TuiRect::new(0, 0, 3, 2));
    fill_background(&mut buffer, TuiRect::new(1, 0, 5, 1), TuiColor::Reset);
    assert_eq!(buffer.get(0, 0).unwrap().style.bg, None);
    assert_eq!(buffer.get(1, 0).unwrap().style.bg, Some(TuiColor::Reset));
    assert_eq!(buffer.get(2, 0).unwrap().style.bg, Some(TuiColor::Reset));
    assert_eq!(buffer.get(2, 1).unwrap().style.bg, None);
}

#[test]
fn string_helpers() {
    assert_eq!(join_lines(&vec!["a".to_string(), "".to_string(), "b".to_string()]), "a\n\nb");
    assert_eq!(join_lines(&vec![]), "");
    let mut s = "n=".to_string();
    push_decimal(&mut s, 1070);
    assert_eq!(s, "n=1070");
    assert_eq!(split_text_lines("x\n\ny"), vec!["x", "", "y"]);
}

#[test]
fn event_context_collects_actions() {
    let mut ctx = TuiEventContext::default();
    assert!(!ctx.is_notified());
    ctx.dispatch_action(TuiAction::ToggleThinking(MessageId("m".to_string())));
    ctx.notify();
    assert!(ctx.is_notified());
    assert_eq!(ctx.take_actions(), vec![TuiAction::ToggleThinking(MessageId("m".to_string()))]);
    assert!(ctx.take_actions().is_empty());
}

#[test]
fn buffer_lines_cover_the_area_cell_by_cell() {
    let mut buffer = TuiBuffer::empty(TuiRect::new(2, 1, 3, 2));
    buffer.set_cell(3, 2, TuiCell { symbol: 'x', style: TuiStyle::default() });
    let lines = buffer.to_lines();
    assert_eq!(lines, vec!["   ".to_string(), " x ".to_string()]);
}
