use tui_blocks::agent_block::{
    format_elapsed_seconds, input_lines, reasoning_body, thinking_header, BlockTheme,
    TuiAIBlock, TuiAIBlockSection,
};
use tui_blocks::agent_model::{
    AIAgentAction, AIAgentExchangeId, AIAgentInput, AIAgentOutput, AIAgentOutputMessage,
    AIAgentOutputMessageType, AIAgentText, AIAgentTextSection, AIConversationId, AIExchange,
    ReasoningDuration,
};
use tui_blocks::buffer::TuiBuffer;
use tui_blocks::element::TuiElement;
use tui_blocks::event::{ModifiersState, TuiAction, TuiEvent, TuiEventContext};
use tui_blocks::geometry::{TuiConstraint, TuiPoint, TuiRect, TuiSize};
use tui_blocks::style::TuiColor;
use tui_blocks::thinking::MessageId;

fn theme() -> BlockTheme {
    BlockTheme {
        foreground: TuiColor::Indexed(15),
        input_background: TuiColor::Rgb(20, 30, 40),
        plain_text: TuiColor::Indexed(7),
        muted: TuiColor::Indexed(8),
    }
}

fn plain(text: &str) -> AIAgentTextSection {
    AIAgentTextSection::PlainText { text: text.to_string() }
}

fn text_message(id: &str, parts: Vec<AIAgentTextSection>) -> AIAgentOutputMessage {
    AIAgentOutputMessage {
        id: MessageId(id.to_string()),
        message: AIAgentOutputMessageType::Text(AIAgentText { sections: parts }),
    }
}

fn reasoning(id: &str, body: &str, finished_secs: Option<u64>) -> AIAgentOutputMessage {
    AIAgentOutputMessage {
        id: MessageId(id.to_string()),
        message: AIAgentOutputMessageType::Reasoning {
            text: AIAgentText { sections: vec![plain(body)] },
            finished_duration: finished_secs.map(ReasoningDuration::from_secs),
        },
    }
}

fn exchange(query: Option<&str>, messages: Vec<AIAgentOutputMessage>) -> AIExchange {
    AIExchange {
        inputs: vec![AIAgentInput { display_query: query.map(|q| q.to_string()) }],
        output: Some(AIAgentOutput { messages }),
    }
}

fn block() -> TuiAIBlock {
    TuiAIBlock::new(AIConversationId("conv".to_string()), AIAgentExchangeId("ex".to_string()))
}

fn render_lines(block: &mut TuiAIBlock, exchange: &AIExchange, size: TuiSize) -> Vec<String> {
    let mut element = block.render_element(exchange, &theme());
    let area = TuiRect::new(0, 0, size.width, size.height);
    element.layout(TuiConstraint::loose(size));
    let mut buffer = TuiBuffer::empty(area);
    element.render(area, &mut buffer);
    buffer.to_lines()
}

fn click(x: u16, y: u16) -> TuiEvent {
    TuiEvent::LeftMouseDown {
        position: TuiPoint::new(x, y),
        modifiers: ModifiersState::default(),
        click_count: 1,
        is_first_mouse: false,
    }
}

#[test]
fn elapsed_seconds_pluralization() {
    assert_eq!(format_elapsed_seconds(ReasoningDuration::from_secs(1)), "1 second");
    assert_eq!(format_elapsed_seconds(ReasoningDuration::from_secs(0)), "0 seconds");
    assert_eq!(format_elapsed_seconds(ReasoningDuration::from_secs(2)), "2 seconds");
    assert_eq!(format_elapsed_seconds(ReasoningDuration::from_secs(305)), "305 seconds");
    assert_eq!(
        format_elapsed_seconds(ReasoningDuration::new(1, 900_000_000)),
        "1 second"
    );
    assert_eq!(
        format_elapsed_seconds(ReasoningDuration::from_secs(u64::MAX)),
        "18446744073709551615 seconds"
    );
}

#[test]
fn thinking_headers() {
    assert_eq!(thinking_header(None), "Thinking...");
    assert_eq!(thinking_header(Some(ReasoningDuration::from_secs(1))), "Thought for 1 second");
    assert_eq!(thinking_header(Some(ReasoningDuration::from_secs(12))), "Thought for 12 seconds");
}

#[test]
fn reasoning_body_joins_plain_text_only() {
    let text = AIAgentText {
        sections: vec![plain("first"), AIAgentTextSection::Code, plain(""), plain("last")],
    };
    assert_eq!(reasoning_body(&text), "first\n\nlast");
    assert_eq!(reasoning_body(&AIAgentText { sections: vec![] }), "");
}

#[test]
fn input_lines_carry_prompt_and_indent() {
    let lines = input_lines("hello\nworld");
    assert_eq!(lines, vec!["≫ hello".to_string(), "  world".to_string()]);
    assert_eq!(input_lines(""), vec!["≫ ".to_string()]);
}

#[test]
fn streaming_reasoning_yields_expanded_thinking_section() {
    let mut block = block();
    let ex = exchange(Some("why?"), vec![reasoning("r1", "pondering", None)]);
    let sections = block.sections(&ex);
    assert_eq!(
        sections,
        vec![
            TuiAIBlockSection::Input("why?".to_string()),
            TuiAIBlockSection::Thinking {
                message_id: MessageId("r1".to_string()),
                finished_duration: None,
                body: "pondering".to_string(),
            },
        ]
    );
    assert!(!block.is_thinking_collapsed(&MessageId("r1".to_string())));
    let lines = render_lines(&mut block, &ex, TuiSize::new(30, 8));
    assert_eq!(lines[0].trim_end(), "≫ why?");
    assert_eq!(lines[1].trim_end(), "");
    assert_eq!(lines[2].trim_end(), "Thinking... ▾");
    assert_eq!(lines[3].trim_end(), "    pondering");
}

#[test]
fn empty_reasoning_still_yields_a_thinking_section() {
    let mut block = block();
    let ex = exchange(None, vec![reasoning("r1", "", None)]);
    let sections = block.sections(&ex);
    assert_eq!(sections.len(), 1);
    assert!(matches!(sections[0], TuiAIBlockSection::Thinking { .. }));
}

#[test]
fn finished_reasoning_auto_collapses_with_header() {
    let mut block = block();
    let id = MessageId("r1".to_string());
    let streaming = exchange(Some("q"), vec![reasoning("r1", "pondering", None)]);
    block.sections(&streaming);
    assert!(!block.is_thinking_collapsed(&id));
    let done = exchange(Some("q"), vec![reasoning("r1", "pondering", Some(3))]);
    let lines = render_lines(&mut block, &done, TuiSize::new(30, 8));
    assert!(block.is_thinking_collapsed(&id));
    assert_eq!(lines[2].trim_end(), "Thought for 3 seconds ▸");
    assert_eq!(lines[3].trim_end(), "");
    // Rendering again keeps it collapsed.
    render_lines(&mut block, &done, TuiSize::new(30, 8));
    assert!(block.is_thinking_collapsed(&id));
}

#[test]
fn manual_toggle_before_finish_prevents_auto_collapse() {
    let mut block = block();
    let id = MessageId("r1".to_string());
    block.sections(&exchange(None, vec![reasoning("r1", "a", None)]));
    block.toggle_thinking(&id);
    assert!(block.is_thinking_collapsed(&id));
    block.toggle_thinking(&id);
    assert!(!block.is_thinking_collapsed(&id));
    block.sections(&exchange(None, vec![reasoning("r1", "a", Some(1))]));
    assert!(!block.is_thinking_collapsed(&id));
}

#[test]
fn expand_after_auto_collapse_stays_expanded() {
    let mut block = block();
    let id = MessageId("r1".to_string());
    let done = exchange(None, vec![reasoning("r1", "a", Some(2))]);
    block.sections(&done);
    assert!(block.is_thinking_collapsed(&id));
    block.handle_action(&TuiAction::ToggleThinking(id.clone()));
    assert!(!block.is_thinking_collapsed(&id));
    block.sections(&done);
    assert!(!block.is_thinking_collapsed(&id));
}

#[test]
fn reasoning_interleaves_with_text_and_tool_calls_in_order() {
    let mut block = block();
    let messages = vec![
        text_message("t1", vec![plain("intro"), plain(""), AIAgentTextSection::Table]),
        reasoning("r1", "step one", Some(1)),
        AIAgentOutputMessage {
            id: MessageId("a1".to_string()),
            message: AIAgentOutputMessageType::Action(AIAgentAction { id: "call-1".to_string() }),
        },
        AIAgentOutputMessage {
            id: MessageId("w1".to_string()),
            message: AIAgentOutputMessageType::WebSearch,
        },
        reasoning("r2", "step two", None),
        text_message("t2", vec![plain("outro")]),
    ];
    let sections = block.sections(&exchange(None, messages));
    assert_eq!(
        sections,
        vec![
            TuiAIBlockSection::PlainText("intro".to_string()),
            TuiAIBlockSection::Thinking {
                message_id: MessageId("r1".to_string()),
                finished_duration: Some(ReasoningDuration::from_secs(1)),
                body: "step one".to_string(),
            },
            TuiAIBlockSection::ToolCall(Box::new(AIAgentAction { id: "call-1".to_string() })),
            TuiAIBlockSection::Thinking {
                message_id: MessageId("r2".to_string()),
                finished_duration: None,
                body: "step two".to_string(),
            },
            TuiAIBlockSection::PlainText("outro".to_string()),
        ]
    );
    // Independent blocks: the finished one collapsed, the streaming one not.
    assert!(block.is_thinking_collapsed(&MessageId("r1".to_string())));
    assert!(!block.is_thinking_collapsed(&MessageId("r2".to_string())));
}

#[test]
fn inputs_join_shown_queries() {
    let mut block = block();
    let ex = AIExchange {
        inputs: vec![
            AIAgentInput { display_query: Some("one".to_string()) },
            AIAgentInput { display_query: None },
            AIAgentInput { display_query: Some("two".to_string()) },
        ],
        output: None,
    };
    assert_eq!(block.sections(&ex), vec![TuiAIBlockSection::Input("one\ntwo".to_string())]);
    let none = AIExchange { inputs: vec![AIAgentInput { display_query: None }], output: None };
    assert!(block.sections(&none).is_empty());
}

#[test]
fn header_click_toggles_through_dispatched_action() {
    let mut block = block();
    let id = MessageId("r1".to_string());
    let ex = exchange(Some("q"), vec![reasoning("r1", "body", None)]);
    let mut element = block.render_element(&ex, &theme());
    let area = TuiRect::new(0, 0, 30, 8);
    element.layout(TuiConstraint::loose(TuiSize::new(30, 8)));
    let mut event_ctx = TuiEventContext::default();
    // Row 2 holds the thinking header, below the input row and its padding.
    assert!(element.dispatch_event(&click(1, 2), area, &mut event_ctx));
    assert!(event_ctx.is_notified());
    block.apply_dispatched(&mut event_ctx);
    assert!(block.is_thinking_collapsed(&id));
    // The dispatched actions were consumed.
    block.apply_dispatched(&mut event_ctx);
    assert!(block.is_thinking_collapsed(&id));
}

#[test]
fn desired_height_counts_every_section() {
    let mut block = block();
    let ex = exchange(Some("q"), vec![text_message("t", vec![plain("hello")])]);
    // Input row + padding, text row + padding.
    assert_eq!(block.desired_height(&ex, 20, &theme()), 4);
    let wrapped = exchange(None, vec![text_message("t", vec![plain("abcdefghij")])]);
    assert_eq!(block.desired_height(&wrapped, 4, &theme()), 4);
    let thinking = exchange(None, vec![reasoning("r", "abcdefgh", None)]);
    // Header, body wrapped at width 8 - 4 = 4 into two rows, padding.
    assert_eq!(block.desired_height(&thinking, 8, &theme()), 4);
}

#[test]
fn block_ids_and_model_replacement() {
    let mut block = block();
    assert_eq!(block.conversation_id(), AIConversationId("conv".to_string()));
    assert_eq!(block.exchange_id(), AIAgentExchangeId("ex".to_string()));
    block.sections(&exchange(None, vec![reasoning("r1", "a", Some(1))]));
    block.replace_model(AIConversationId("other".to_string()));
    assert_eq!(block.conversation_id(), AIConversationId("other".to_string()));
    assert_eq!(block.exchange_id(), AIAgentExchangeId("ex".to_string()));
    assert!(block.is_thinking_collapsed(&MessageId("r1".to_string())));
}

fn layout_and_render<E: TuiElement>(element: &mut E, size: TuiSize) -> (u16, Vec<String>) {
    let laid = element.layout(TuiConstraint::loose(size));
    let area = TuiRect::new(0, 0, size.width, laid.height);
    let mut buffer = TuiBuffer::empty(area);
    element.render(area, &mut buffer);
    (laid.height, buffer.to_lines())
}

#[test]
fn input_section_renders_prompt_then_aligned_lines_and_padding() {
    let section = TuiAIBlockSection::Input("a\nb".to_owned());
    let mut element = section.render_element(&theme());
    let (height, lines) = layout_and_render(&mut element, TuiSize::new(20, 10));
    assert_eq!(height, 3);
    assert_eq!(lines[0].trim_end(), "≫ a");
    assert_eq!(lines[1].trim_end(), "  b");
    assert_eq!(lines[2].trim(), "");
}

#[test]
fn plain_text_section_shows_text_then_one_padding_row() {
    let section = TuiAIBlockSection::PlainText("hello world".to_owned());
    let mut element = section.render_element(&theme());
    let (height, lines) = layout_and_render(&mut element, TuiSize::new(5, 10));
    let mut text = tui_blocks::text::TuiText::new("hello world");
    let (text_height, text_lines) = layout_and_render(&mut text, TuiSize::new(5, 10));
    assert_eq!(text_height, 3);
    assert_eq!(height, text_height + 1);
    assert_eq!(&lines[..3], &text_lines[..]);
    assert_eq!(lines[3].trim(), "");
}

#[test]
fn tool_call_section_is_one_status_row_whatever_the_call() {
    for id in ["call-1", "other"] {
        let section = TuiAIBlockSection::ToolCall(Box::new(AIAgentAction { id: id.to_string() }));
        let mut element = section.render_element(&theme());
        let (height, lines) = layout_and_render(&mut element, TuiSize::new(40, 10));
        assert_eq!(height, 2);
        assert_eq!(lines[0].trim_end(), "executed a tool call");
        assert_eq!(lines[1].trim(), "");
    }
}

#[test]
fn streaming_thinking_block_shows_header_indented_body_and_padding() {
    let mut block = block();
    let ex = exchange(None, vec![reasoning("m", "x", None)]);
    let mut element = block.render_element(&ex, &theme());
    let (height, lines) = layout_and_render(&mut element, TuiSize::new(20, 10));
    assert_eq!(height, 3);
    let trimmed: Vec<&str> = lines.iter().map(|l| l.trim_end()).collect();
    assert_eq!(trimmed, vec!["Thinking... ▾", "    x", ""]);
}

#[test]
fn collapsed_thinking_block_shows_only_its_header() {
    let mut block = block();
    let ex = exchange(None, vec![reasoning("m", "some long body", Some(5))]);
    let mut element = block.render_element(&ex, &theme());
    assert!(block.is_thinking_collapsed(&MessageId("m".to_string())));
    let (height, lines) = layout_and_render(&mut element, TuiSize::new(40, 10));
    assert_eq!(height, 2);
    assert_eq!(lines[0].trim_end(), "Thought for 5 seconds ▸");
    assert_eq!(lines[1].trim(), "");
}

#[test]
fn thinking_body_rows_are_all_indented() {
    let mut block = block();
    let ex = exchange(None, vec![reasoning("m", "abcdefghij", None)]);
    let mut element = block.render_element(&ex, &theme());
    let (height, lines) = layout_and_render(&mut element, TuiSize::new(8, 20));
    // Header, three body rows of four cells, padding.
    assert_eq!(height, 5);
    for row in &lines[1..4] {
        assert!(row.starts_with("    "), "row {:?} is not indented", row);
    }
    assert_eq!(lines[1].trim(), "abcd");
    assert_eq!(lines[2].trim(), "efgh");
    assert_eq!(lines[3].trim(), "ij");
}

#[test]
fn thinking_header_click_queues_one_toggle_and_redraw() {
    let block = block();
    let id = MessageId("m".to_string());
    let mut collapsible = block.thinking_collapsible(&id, None, "x", &theme());
    collapsible.layout(TuiConstraint::loose(TuiSize::new(20, 10)));
    let mut event_ctx = TuiEventContext::default();
    assert!(collapsible.dispatch_event(&click(3, 0), TuiRect::new(0, 0, 20, 10), &mut event_ctx));
    assert!(event_ctx.is_notified());
    assert_eq!(event_ctx.take_actions(), vec![TuiAction::ToggleThinking(id)]);
}

#[test]
fn toggling_twice_restores_the_block() {
    let mut block = block();
    let id = MessageId("m".to_string());
    let ex = exchange(None, vec![reasoning("m", "x", None)]);
    for expected in [true, false] {
        let mut element = block.render_element(&ex, &theme());
        element.layout(TuiConstraint::loose(TuiSize::new(20, 10)));
        let mut event_ctx = TuiEventContext::default();
        assert!(element.dispatch_event(&click(0, 0), TuiRect::new(0, 0, 20, 10), &mut event_ctx));
        block.apply_dispatched(&mut event_ctx);
        assert_eq!(block.is_thinking_collapsed(&id), expected);
    }
}

#[test]
fn reasoning_duration_carries_whole_seconds() {
    let d = ReasoningDuration::new(2, 1_500_000_000);
    assert_eq!(d.as_secs(), 3);
    assert_eq!(d.subsec_nanos(), 500_000_000);
    assert_eq!(format_elapsed_seconds(d), "3 seconds");
}

#[test]
fn collapsing_a_thinking_block_shortens_the_block() {
    let mut block = block();
    let id = MessageId("m".to_string());
    let ex = exchange(Some("q"), vec![reasoning("m", "one\ntwo\nthree", Some(2))]);
    // Finished reasoning collapses on first sight: input 2 rows, header 1, padding 1.
    let collapsed = block.desired_height(&ex, 30, &theme());
    assert_eq!(collapsed, 4);
    block.toggle_thinking(&id);
    let expanded = block.desired_height(&ex, 30, &theme());
    assert_eq!(expanded, 7);
    assert!(collapsed <= expanded);
}
