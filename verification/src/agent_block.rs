//! An agent block in the transcript: one exchange rendered as the user's
//! submitted input followed by the agent's response, with each reasoning
//! message shown as a collapsible thinking block.

use vstd::prelude::*;

use crate::agent_model::{
    AIAgentAction, AIAgentExchangeId, AIAgentInput, AIAgentOutputMessage,
    AIAgentOutputMessageType, AIAgentText, AIAgentTextSection, AIConversationId, AIExchange,
    ReasoningDuration,
};
use crate::buffer::{CellMap, TuiBuffer};
use crate::collapsible::{
    lemma_fresh_natural, CollapsiblePart, Reregistered, DEFAULT_CHEVRON_COLLAPSED,
    DEFAULT_CHEVRON_EXPANDED, TuiCollapsible,
};
use crate::column::{
    any_handles, at_most, child_area, lemma_any_handles_grows, lemma_child_area_within,
    lemma_child_areas_stack, lemma_column_natural, lemma_none_handles, lemma_responds_skip,
    lemma_stack_heights, lemma_stack_prefix, lemma_sum_rows_monotone, lemma_sum_rows_strict, min_rows, natural_height,
    responds_from, stack_constraint, stack_heights, sum_rows, TuiColumn,
};
use crate::container::{lemma_container_natural, padded_area, saturating_sub, TuiContainer};
use crate::element::TuiElement;
use crate::event::{TuiAction, TuiEvent, TuiEventContext};
use crate::geometry::{TuiConstraint, TuiRect, TuiSize};
use crate::hoverable::{is_click_in, NoCallback, TuiEventCallback};
use crate::strings::{
    chars_of, decimal, digits_value, join_lines, join_with, law_decimal_reads_back, push_decimal,
    push_str, views,
};
use crate::style::{Modifier, TuiColor, TuiStyle};
use crate::text::{
    lemma_split_lines_append, lemma_split_lines_nonempty, lemma_text_natural,
    lemma_wrapped_rows_nonempty,
    lemma_truncated_row_count, split_lines, split_text_lines, text_rows, TuiText,
};
use crate::thinking::{state_or_initial, toggled_in, MessageId, ThinkingStates, ThinkingUiState};

verus! {

/// Marker in front of the first line of the user's input.
pub const INPUT_PREFIX: &'static str = "≫ ";

/// Left indent (cells) of a thinking block's body, so every wrapped line
/// aligns beneath the header.
pub const THINKING_BODY_INDENT: u16 = 4;

/// Bottom padding (rows) beneath every rendered section, giving uniform
/// spacing between sections and after the last one.
pub const BLOCK_BOTTOM_PADDING: u16 = 1;

/// The colors a block is drawn with.
#[derive(Clone, Copy, Debug, PartialEq, Eq, Structural)]
pub struct BlockTheme {
    /// Text of the user's input.
    pub foreground: TuiColor,
    /// Background behind the user's input.
    pub input_background: TuiColor,
    /// The agent's plain text.
    pub plain_text: TuiColor,
    /// Thinking blocks and tool-call rows.
    pub muted: TuiColor,
}

/// An elapsed reasoning time in words: "1 second", otherwise the number of
/// seconds followed by " seconds".
pub open spec fn elapsed_seconds_text(secs: u64) -> Seq<char> {
    if secs == 1 {
        "1 second"@
    } else {
        decimal(secs as nat) + " seconds"@
    }
}

/// The header of a thinking block: "Thinking..." while the reasoning
/// streams, then how long it took.
pub open spec fn thinking_header_text(finished_duration: Option<ReasoningDuration>) -> Seq<char> {
    match finished_duration {
        Some(d) => "Thought for "@ + elapsed_seconds_text(d.seconds()),
        None => "Thinking..."@,
    }
}

/// Line `index` of the user's input as shown: the first behind the prompt
/// marker, the others indented by the marker's width.
pub open spec fn input_line(index: int, line: Seq<char>) -> Seq<char> {
    if index == 0 {
        INPUT_PREFIX@ + line
    } else {
        Seq::new(INPUT_PREFIX@.len(), |i: int| ' ') + line
    }
}

/// The lines of the user's input as shown.
pub open spec fn input_lines_of(text: Seq<char>) -> Seq<Seq<char>> {
    split_lines(text).map(|i: int, line: Seq<char>| input_line(i, line))
}

/// Formats an elapsed reasoning time as a seconds string.
pub fn format_elapsed_seconds(elapsed: ReasoningDuration) -> (r: String)
    ensures
        r@ == elapsed_seconds_text(elapsed.seconds()),
{
    let total_seconds = elapsed.as_secs();
    if total_seconds == 1 {
        "1 second".to_owned()
    } else {
        let mut text = String::new();
        push_decimal(&mut text, total_seconds);
        push_str(&mut text, " seconds");
        text
    }
}

/// The header of a thinking block.
pub fn thinking_header(finished_duration: Option<ReasoningDuration>) -> (r: String)
    ensures
        r@ == thinking_header_text(finished_duration),
{
    match finished_duration {
        Some(duration) => {
            let mut text = "Thought for ".to_owned();
            let elapsed = format_elapsed_seconds(duration);
            push_str(&mut text, elapsed.as_str());
            text
        },
        None => "Thinking...".to_owned(),
    }
}

/// The lines of the user's input as shown.
pub fn input_lines(text: &str) -> (r: Vec<String>)
    ensures
        views(r@) == input_lines_of(text@),
{
    let lines = split_text_lines(text);
    let indent = chars_of(INPUT_PREFIX).len();
    let mut out: Vec<String> = Vec::new();
    let mut i: usize = 0;
    while i < lines.len()
        invariant
            i <= lines@.len(),
            views(lines@) == split_lines(text@),
            indent == INPUT_PREFIX@.len(),
            views(out@) == input_lines_of(text@).take(i as int),
        decreases lines@.len() - i,
    {
        let mut line = String::new();
        if i == 0 {
            push_str(&mut line, INPUT_PREFIX);
        } else {
            let mut k: usize = 0;
            while k < indent
                invariant
                    k <= indent,
                    line@ == Seq::new(k as nat, |j: int| ' '),
                decreases indent - k,
            {
                line.push(' ');
                assert(line@ =~= Seq::new((k + 1) as nat, |j: int| ' '));
                k = k + 1;
            }
        }
        push_str(&mut line, lines[i].as_str());
        let ghost before = out@;
        let ghost shown = line@;
        out.push(line);
        proof {
            assert(views(lines@)[i as int] == lines@[i as int]@);
            assert(shown == input_line(i as int, split_lines(text@)[i as int]));
            assert(views(out@) =~= views(before).push(shown));
            assert(views(out@) =~= input_lines_of(text@).take(i + 1));
        }
        i = i + 1;
    }
    assert(input_lines_of(text@).take(lines@.len() as int) =~= input_lines_of(text@));
    out
}

/// The style of the user's input lines: bold foreground text on the input
/// background.
pub open spec fn input_text_style(theme: BlockTheme) -> TuiStyle {
    TuiStyle { fg: Some(theme.foreground), bg: Some(theme.input_background), add_modifier: Modifier(1) }
}

/// The style of the agent's plain text.
pub open spec fn plain_text_style(theme: BlockTheme) -> TuiStyle {
    TuiStyle { fg: Some(theme.plain_text), bg: None, add_modifier: Modifier(0) }
}

/// The style of a tool-call row: dimmed muted text.
pub open spec fn tool_call_text_style(theme: BlockTheme) -> TuiStyle {
    TuiStyle { fg: Some(theme.muted), bg: None, add_modifier: Modifier(2) }
}

/// The style of a thinking block's header and body: muted text.
pub open spec fn thinking_text_style(theme: BlockTheme) -> TuiStyle {
    TuiStyle { fg: Some(theme.muted), bg: None, add_modifier: Modifier(0) }
}

/// The status row that stands in for a tool call.
pub const TOOL_CALL_TEXT: &'static str = "executed a tool call";

/// The style of the user's input lines.
pub fn input_style(theme: &BlockTheme) -> (r: TuiStyle)
    ensures
        r == input_text_style(*theme),
{
    let style = TuiStyle::default().fg(theme.foreground).bg(theme.input_background).add_modifier(
        Modifier::bold(),
    );
    assert(0u16 | 1u16 == 1u16) by (bit_vector);
    style
}

/// The style of a tool-call row.
pub fn tool_call_style(theme: &BlockTheme) -> (r: TuiStyle)
    ensures
        r == tool_call_text_style(*theme),
{
    let style = TuiStyle::default().fg(theme.muted).add_modifier(Modifier::dim());
    assert(0u16 | 2u16 == 2u16) by (bit_vector);
    style
}

/// Renderable pieces of an agent block.
#[derive(Clone, Debug, PartialEq, Eq)]
pub enum TuiAIBlockSection {
    Input(String),
    PlainText(String),
    /// A status row standing in for an agent tool call.
    ToolCall(Box<AIAgentAction>),
    /// A reasoning segment, rendered as a collapsible block.
    Thinking { message_id: MessageId, finished_duration: Option<ReasoningDuration>, body: String },
}

/// The content of a section, with text as characters.
pub ghost enum SectionView {
    Input(Seq<char>),
    PlainText(Seq<char>),
    ToolCall(Seq<char>),
    Thinking { message_id: Seq<char>, finished_duration: Option<ReasoningDuration>, body: Seq<char> },
}

impl View for TuiAIBlockSection {
    type V = SectionView;

    open spec fn view(&self) -> SectionView {
        match self {
            TuiAIBlockSection::Input(text) => SectionView::Input(text@),
            TuiAIBlockSection::PlainText(text) => SectionView::PlainText(text@),
            TuiAIBlockSection::ToolCall(action) => SectionView::ToolCall(action.id@),
            TuiAIBlockSection::Thinking { message_id, finished_duration, body } => {
                SectionView::Thinking {
                    message_id: message_id@,
                    finished_duration: *finished_duration,
                    body: body@,
                }
            },
        }
    }
}

/// The header click of a thinking block: hands a toggle of the message's
/// collapse state to the owning view and asks for a redraw.
pub struct ThinkingToggle {
    message_id: MessageId,
}

impl ThinkingToggle {
    /// The message whose block this toggles.
    pub closed spec fn message(&self) -> Seq<char> {
        self.message_id@
    }

    /// The toggle of `message_id`'s block.
    pub fn new(message_id: &MessageId) -> (r: ThinkingToggle)
        ensures
            r.message() == message_id@,
    {
        ThinkingToggle { message_id: message_id.duplicate() }
    }
}

/// Whether `action` toggles the thinking block of message `id`.
pub open spec fn toggles(action: TuiAction, id: Seq<char>) -> bool {
    action matches TuiAction::ToggleThinking(m) && m@ == id
}

/// Whether `after` is `before` with one more action, a toggle of message
/// `id`'s block, and a redraw requested.
pub open spec fn toggle_dispatched(before: TuiEventContext, after: TuiEventContext, id: Seq<char>) -> bool {
    &&& after.dispatched().len() == before.dispatched().len() + 1
    &&& after.dispatched().drop_last() == before.dispatched()
    &&& toggles(after.dispatched().last(), id)
    &&& after.redraw_requested()
}

impl TuiEventCallback for ThinkingToggle {
    /// One toggle dispatched, and a redraw requested.
    open spec fn effect(&self, before: TuiEventContext, after: TuiEventContext) -> bool {
        toggle_dispatched(before, after, self.message())
    }

    fn call(&self, event_ctx: &mut TuiEventContext) {
        let ghost before = *event_ctx;
        event_ctx.dispatch_action(TuiAction::ToggleThinking(self.message_id.duplicate()));
        event_ctx.notify();
        assert(event_ctx.dispatched().drop_last() =~= before.dispatched());
    }
}

/// The element of the user's input: the lines in a column, on the input
/// background, with bottom padding.
pub type InputElement = TuiContainer<TuiContainer<TuiColumn<TuiText>>>;

/// The element of a text row: the text with bottom padding.
pub type TextElement = TuiContainer<TuiText>;

/// The toggle handler slot of a thinking block.
pub type ThinkingHandler = Reregistered<NoCallback, ThinkingToggle>;

/// The collapsible of a thinking block.
pub type ThinkingCollapsible = TuiCollapsible<TuiContainer<TuiText>, ThinkingHandler>;

/// The element of a thinking block: the collapsible with bottom padding.
pub type ThinkingElement = TuiContainer<ThinkingCollapsible>;

/// The element of one section of a block.
pub enum SectionElement {
    Input(InputElement),
    Text(TextElement),
    Thinking(ThinkingElement),
}

impl TuiElement for SectionElement {
    open spec fn measure(&self, constraint: TuiConstraint) -> TuiSize {
        match self {
            SectionElement::Input(e) => e.measure(constraint),
            SectionElement::Text(e) => e.measure(constraint),
            SectionElement::Thinking(e) => e.measure(constraint),
        }
    }

    open spec fn laid_out(&self, constraint: TuiConstraint, after: &Self) -> bool {
        ||| self matches SectionElement::Input(e) && after matches SectionElement::Input(a)
            && e.laid_out(constraint, &a)
        ||| self matches SectionElement::Text(e) && after matches SectionElement::Text(a)
            && e.laid_out(constraint, &a)
        ||| self matches SectionElement::Thinking(e) && after matches SectionElement::Thinking(a)
            && e.laid_out(constraint, &a)
    }

    open spec fn draw(&self, area: TuiRect, cells: CellMap) -> CellMap {
        match self {
            SectionElement::Input(e) => e.draw(area, cells),
            SectionElement::Text(e) => e.draw(area, cells),
            SectionElement::Thinking(e) => e.draw(area, cells),
        }
    }

    open spec fn handles(&self, event: TuiEvent, area: TuiRect) -> bool {
        match self {
            SectionElement::Input(e) => e.handles(event, area),
            SectionElement::Text(e) => e.handles(event, area),
            SectionElement::Thinking(e) => e.handles(event, area),
        }
    }

    open spec fn responds(
        &self,
        event: TuiEvent,
        area: TuiRect,
        before: TuiEventContext,
        after: TuiEventContext,
    ) -> bool {
        match self {
            SectionElement::Input(e) => e.responds(event, area, before, after),
            SectionElement::Text(e) => e.responds(event, area, before, after),
            SectionElement::Thinking(e) => e.responds(event, area, before, after),
        }
    }

    open spec fn after_event(&self, event: TuiEvent, area: TuiRect, after: &Self) -> bool {
        ||| self matches SectionElement::Input(e) && after matches SectionElement::Input(a)
            && e.after_event(event, area, &a)
        ||| self matches SectionElement::Text(e) && after matches SectionElement::Text(a)
            && e.after_event(event, area, &a)
        ||| self matches SectionElement::Thinking(e) && after matches SectionElement::Thinking(a)
            && e.after_event(event, area, &a)
    }

    fn layout(&mut self, constraint: TuiConstraint) -> (r: TuiSize) {
        match self {
            SectionElement::Input(e) => e.layout(constraint),
            SectionElement::Text(e) => e.layout(constraint),
            SectionElement::Thinking(e) => e.layout(constraint),
        }
    }

    fn render(&self, area: TuiRect, buffer: &mut TuiBuffer) {
        match self {
            SectionElement::Input(e) => e.render(area, buffer),
            SectionElement::Text(e) => e.render(area, buffer),
            SectionElement::Thinking(e) => e.render(area, buffer),
        }
    }

    fn dispatch_event(
        &mut self,
        event: &TuiEvent,
        area: TuiRect,
        event_ctx: &mut TuiEventContext,
    ) -> (r: bool) {
        match self {
            SectionElement::Input(e) => e.dispatch_event(event, area, event_ctx),
            SectionElement::Text(e) => e.dispatch_event(event, area, event_ctx),
            SectionElement::Thinking(e) => e.dispatch_event(event, area, event_ctx),
        }
    }
}

/// Whether `e` holds nothing but `element` under one row of bottom padding.
pub open spec fn padded_section<C>(e: TuiContainer<C>, element: C) -> bool {
    &&& e.wrapped() == element
    &&& e.left_padding() == 0
    &&& e.bottom_padding() == BLOCK_BOTTOM_PADDING
    &&& e.background_color() is None
}

/// Whether `t` is wrapping text `content` in `style`.
pub open spec fn is_text(t: TuiText, content: Seq<char>, style: TuiStyle) -> bool {
    &&& t.content() == content
    &&& t.text_style() == style
    &&& !t.truncates()
}

/// Whether `e` shows the user's input `text`: each line of
/// `input_lines_of(text)` as text in the input style, in a column on the
/// input background, with bottom padding.
pub open spec fn is_input_element(e: InputElement, text: Seq<char>, theme: BlockTheme) -> bool {
    let lines = input_lines_of(text);
    let filled = e.wrapped();
    let column = filled.wrapped();
    &&& padded_section(e, filled)
    &&& filled.left_padding() == 0
    &&& filled.bottom_padding() == 0
    &&& filled.background_color() == Some(theme.input_background)
    &&& column.laid_out_heights() == Seq::<u16>::empty()
    &&& column.child_count() == lines.len()
    &&& forall|i: int|
        0 <= i < lines.len() ==> #[trigger] is_text(
            column.children_view()[i],
            lines[i],
            input_text_style(theme),
        )
}

/// Whether `e` shows text `content` in `style` with bottom padding.
pub open spec fn is_text_element(e: TextElement, content: Seq<char>, style: TuiStyle) -> bool {
    padded_section(e, e.wrapped()) && is_text(e.wrapped(), content, style)
}

/// Whether `e` is the element of a section other than a thinking block.
pub open spec fn is_section_element(e: SectionElement, section: SectionView, theme: BlockTheme) -> bool {
    match section {
        SectionView::Input(text) => e matches SectionElement::Input(i) && is_input_element(i, text, theme),
        SectionView::PlainText(text) => e matches SectionElement::Text(t) && is_text_element(
            t,
            text,
            plain_text_style(theme),
        ),
        SectionView::ToolCall(_) => e matches SectionElement::Text(t) && is_text_element(
            t,
            TOOL_CALL_TEXT@,
            tool_call_text_style(theme),
        ),
        SectionView::Thinking { .. } => false,
    }
}

/// Whether message `id`'s block is collapsed in `states`.
pub open spec fn collapsed_in(states: Map<Seq<char>, ThinkingUiState>, id: Seq<char>) -> bool {
    states.contains_key(id) && states[id].collapsed
}

/// Whether `k` is the collapsible of the thinking block of message `id`:
/// collapsed as given, headed by the reasoning's status in the muted style
/// with the default glyphs, holding the toggle of `id` and the body indented
/// under the header, not built yet.
pub open spec fn is_thinking_collapsible(
    k: ThinkingCollapsible,
    collapsed: bool,
    id: Seq<char>,
    finished_duration: Option<ReasoningDuration>,
    body: Seq<char>,
    theme: BlockTheme,
) -> bool {
    &&& k.is_collapsed() == collapsed
    &&& k.label() == thinking_header_text(finished_duration)
    &&& k.header_style() == thinking_text_style(theme)
    &&& k.collapsed_glyph() == DEFAULT_CHEVRON_COLLAPSED@
    &&& k.expanded_glyph() == DEFAULT_CHEVRON_EXPANDED@
    &&& k.tree() is None
    &&& k.toggle() matches Some(Reregistered::Latest(t)) && t.message() == id
    &&& k.held_body() matches Some(b) && {
        &&& b.left_padding() == THINKING_BODY_INDENT
        &&& b.bottom_padding() == 0
        &&& b.background_color() is None
        &&& is_text(b.wrapped(), body, thinking_text_style(theme))
    }
}

/// Whether `e` is the thinking block of message `id` with bottom padding.
pub open spec fn is_thinking_element(
    e: ThinkingElement,
    collapsed: bool,
    id: Seq<char>,
    finished_duration: Option<ReasoningDuration>,
    body: Seq<char>,
    theme: BlockTheme,
) -> bool {
    padded_section(e, e.wrapped()) && is_thinking_collapsible(
        e.wrapped(),
        collapsed,
        id,
        finished_duration,
        body,
        theme,
    )
}

/// Whether `e` is the element of `section` in a block whose thinking states
/// are `states`.
pub open spec fn is_element_of(
    e: SectionElement,
    section: SectionView,
    states: Map<Seq<char>, ThinkingUiState>,
    theme: BlockTheme,
) -> bool {
    match section {
        SectionView::Thinking { message_id, finished_duration, body } => e matches SectionElement::Thinking(
            t,
        ) && is_thinking_element(
            t,
            collapsed_in(states, message_id),
            message_id,
            finished_duration,
            body,
            theme,
        ),
        _ => is_section_element(e, section, theme),
    }
}

/// Whether `column` is the element tree of a block with `sections`: one
/// element per section, in order, not laid out yet.
pub open spec fn is_block_element(
    column: TuiColumn<SectionElement>,
    sections: Seq<SectionView>,
    states: Map<Seq<char>, ThinkingUiState>,
    theme: BlockTheme,
) -> bool {
    &&& column.laid_out_heights() == Seq::<u16>::empty()
    &&& column.child_count() == sections.len()
    &&& forall|i: int|
        0 <= i < sections.len() ==> #[trigger] is_element_of(
            column.children_view()[i],
            sections[i],
            states,
            theme,
        )
}

/// The constraint a block's height is asked under: `width` columns, any
/// number of rows a terminal can have.
pub open spec fn height_query(width: u16) -> TuiConstraint {
    TuiConstraint {
        min: TuiSize { width: 0, height: 0 },
        max: TuiSize { width, height: 0xffff },
    }
}

impl TuiAIBlockSection {
    /// Converts one section other than a thinking block into an element,
    /// with bottom padding.
    pub fn render_element(&self, theme: &BlockTheme) -> (r: SectionElement)
        requires
            !(self is Thinking),
        ensures
            is_section_element(r, self@, *theme),
    {
        match self {
            TuiAIBlockSection::Input(text) => {
                let style = input_style(theme);
                let lines = input_lines(text.as_str());
                let mut column = TuiColumn::new();
                let mut i: usize = 0;
                while i < lines.len()
                    invariant
                        i <= lines@.len(),
                        views(lines@) == input_lines_of(text@),
                        style == input_text_style(*theme),
                        column.laid_out_heights() == Seq::<u16>::empty(),
                        column.child_count() == i,
                        forall|k: int|
                            0 <= k < i ==> #[trigger] is_text(
                                column.children_view()[k],
                                input_lines_of(text@)[k],
                                input_text_style(*theme),
                            ),
                    decreases lines@.len() - i,
                {
                    assert(views(lines@)[i as int] == lines@[i as int]@);
                    column = column.child(TuiText::new(lines[i].as_str()).with_style(style));
                    i = i + 1;
                }
                let content = TuiContainer::new(column).with_background(theme.input_background);
                SectionElement::Input(
                    TuiContainer::new(content).with_padding_bottom(BLOCK_BOTTOM_PADDING),
                )
            },
            TuiAIBlockSection::PlainText(text) => {
                let style = TuiStyle::default().fg(theme.plain_text);
                SectionElement::Text(
                    TuiContainer::new(TuiText::new(text.as_str()).with_style(style)).with_padding_bottom(
                        BLOCK_BOTTOM_PADDING,
                    ),
                )
            },
            TuiAIBlockSection::ToolCall(_action) => {
                SectionElement::Text(
                    TuiContainer::new(
                        TuiText::new(TOOL_CALL_TEXT).with_style(tool_call_style(theme)),
                    ).with_padding_bottom(BLOCK_BOTTOM_PADDING),
                )
            },
            TuiAIBlockSection::Thinking { .. } => {
                // Excluded by the precondition: thinking blocks carry collapse
                // state and are rendered by the block that owns it.
                proof {
                    assert(false);
                }
                SectionElement::Text(TuiContainer::new(TuiText::new("")))
            },
        }
    }
}

/// The views of `sections`.
pub open spec fn section_views(sections: Seq<TuiAIBlockSection>) -> Seq<SectionView> {
    sections.map_values(|s: TuiAIBlockSection| s@)
}

/// The shown queries of `inputs`, in order, skipping inputs that show none.
pub open spec fn display_queries(inputs: Seq<AIAgentInput>) -> Seq<Seq<char>>
    decreases inputs.len(),
{
    if inputs.len() == 0 {
        Seq::empty()
    } else {
        let rest = display_queries(inputs.drop_last());
        match inputs.last().display_query {
            Some(q) => rest.push(q@),
            None => rest,
        }
    }
}

/// The input text of an exchange: its shown queries, one per line.
pub open spec fn input_text(inputs: Seq<AIAgentInput>) -> Seq<char> {
    join_with(display_queries(inputs), '\n')
}

/// The input section, present when the input text is not empty.
pub open spec fn input_sections(inputs: Seq<AIAgentInput>) -> Seq<SectionView> {
    if input_text(inputs).len() > 0 {
        seq![SectionView::Input(input_text(inputs))]
    } else {
        Seq::empty()
    }
}

/// One plain-text section per non-empty plain-text part of an agent text.
pub open spec fn plain_text_sections(parts: Seq<AIAgentTextSection>) -> Seq<SectionView>
    decreases parts.len(),
{
    if parts.len() == 0 {
        Seq::empty()
    } else {
        let rest = plain_text_sections(parts.drop_last());
        match parts.last() {
            AIAgentTextSection::PlainText { text } => if text@.len() > 0 {
                rest.push(SectionView::PlainText(text@))
            } else {
                rest
            },
            _ => rest,
        }
    }
}

/// The plain-text parts of an agent text, empty ones included.
pub open spec fn plain_texts(parts: Seq<AIAgentTextSection>) -> Seq<Seq<char>>
    decreases parts.len(),
{
    if parts.len() == 0 {
        Seq::empty()
    } else {
        let rest = plain_texts(parts.drop_last());
        match parts.last() {
            AIAgentTextSection::PlainText { text } => rest.push(text@),
            _ => rest,
        }
    }
}

/// The body of a thinking block: the reasoning's plain-text parts joined
/// with newlines.
pub open spec fn reasoning_body_of(parts: Seq<AIAgentTextSection>) -> Seq<char> {
    join_with(plain_texts(parts), '\n')
}

/// The sections that one output message contributes.
pub open spec fn message_sections(m: AIAgentOutputMessage) -> Seq<SectionView> {
    match m.message {
        AIAgentOutputMessageType::Text(text) => plain_text_sections(text.sections@),
        AIAgentOutputMessageType::Action(action) => seq![SectionView::ToolCall(action.id@)],
        AIAgentOutputMessageType::Reasoning { text, finished_duration } => seq![
            SectionView::Thinking {
                message_id: m.id@,
                finished_duration,
                body: reasoning_body_of(text.sections@),
            },
        ],
        _ => Seq::empty(),
    }
}

/// The sections of output messages, in message order.
pub open spec fn output_sections(messages: Seq<AIAgentOutputMessage>) -> Seq<SectionView>
    decreases messages.len(),
{
    if messages.len() == 0 {
        Seq::empty()
    } else {
        output_sections(messages.drop_last()) + message_sections(messages.last())
    }
}

/// The output messages of an exchange; none before there is an output.
pub open spec fn output_messages(exchange: AIExchange) -> Seq<AIAgentOutputMessage> {
    match exchange.output {
        Some(output) => output.messages@,
        None => Seq::empty(),
    }
}

/// All sections of an exchange: the input section, then the output's.
pub open spec fn block_sections(exchange: AIExchange) -> Seq<SectionView> {
    input_sections(exchange.inputs@) + output_sections(output_messages(exchange))
}

/// Thinking states after observing one output message.
pub open spec fn state_after_message(
    states: Map<Seq<char>, ThinkingUiState>,
    m: AIAgentOutputMessage,
) -> Map<Seq<char>, ThinkingUiState> {
    match m.message {
        AIAgentOutputMessageType::Reasoning { text, finished_duration } => states.insert(
            m.id@,
            state_or_initial(states, m.id@).synced(finished_duration is Some),
        ),
        _ => states,
    }
}

/// Thinking states after observing output messages in order.
pub open spec fn states_after_messages(
    states: Map<Seq<char>, ThinkingUiState>,
    messages: Seq<AIAgentOutputMessage>,
) -> Map<Seq<char>, ThinkingUiState>
    decreases messages.len(),
{
    if messages.len() == 0 {
        states
    } else {
        state_after_message(states_after_messages(states, messages.drop_last()), messages.last())
    }
}

/// Thinking states after applying `actions` in order.
pub open spec fn states_after_actions(
    states: Map<Seq<char>, ThinkingUiState>,
    actions: Seq<TuiAction>,
) -> Map<Seq<char>, ThinkingUiState>
    decreases actions.len(),
{
    if actions.len() == 0 {
        states
    } else {
        let before = states_after_actions(states, actions.drop_last());
        match actions.last() {
            TuiAction::ToggleThinking(id) => before.insert(
                id@,
                state_or_initial(before, id@).toggled(),
            ),
        }
    }
}

/// Joins the shown queries of `inputs` into the block's input text.
pub fn input_text_of(inputs: &Vec<AIAgentInput>) -> (r: String)
    ensures
        r@ == input_text(inputs@),
{
    let mut queries: Vec<String> = Vec::new();
    let mut i: usize = 0;
    while i < inputs.len()
        invariant
            i <= inputs@.len(),
            views(queries@) == display_queries(inputs@.take(i as int)),
        decreases inputs@.len() - i,
    {
        proof {
            assert(inputs@.take(i + 1).drop_last() =~= inputs@.take(i as int));
        }
        match &inputs[i].display_query {
            Some(q) => {
                queries.push(q.clone());
                assert(views(queries@) =~= display_queries(inputs@.take(i + 1)));
            },
            None => {},
        }
        i = i + 1;
    }
    assert(inputs@.take(inputs@.len() as int) =~= inputs@);
    join_lines(&queries)
}

/// Appends one section per non-empty plain-text part of `parts`.
fn push_plain_text_sections(out: &mut Vec<TuiAIBlockSection>, parts: &Vec<AIAgentTextSection>)
    ensures
        section_views(final(out)@) == section_views(old(out)@) + plain_text_sections(parts@),
{
    let mut i: usize = 0;
    while i < parts.len()
        invariant
            i <= parts@.len(),
            section_views(out@) == section_views(old(out)@) + plain_text_sections(
                parts@.take(i as int),
            ),
        decreases parts@.len() - i,
    {
        proof {
            assert(parts@.take(i + 1).drop_last() =~= parts@.take(i as int));
        }
        let ghost before = out@;
        match &parts[i] {
            AIAgentTextSection::PlainText { text } => {
                if !text.as_str().is_empty() {
                    out.push(TuiAIBlockSection::PlainText(text.clone()));
                    assert(section_views(out@) =~= section_views(before).push(
                        SectionView::PlainText(text@),
                    ));
                }
            },
            _ => {},
        }
        assert(section_views(out@) =~= section_views(old(out)@) + plain_text_sections(
            parts@.take(i + 1),
        ));
        i = i + 1;
    }
    assert(parts@.take(parts@.len() as int) =~= parts@);
}

/// Joins a reasoning message's plain-text parts into a single body string.
pub fn reasoning_body(text: &AIAgentText) -> (r: String)
    ensures
        r@ == reasoning_body_of(text.sections@),
{
    let parts = &text.sections;
    let mut texts: Vec<String> = Vec::new();
    let mut i: usize = 0;
    while i < parts.len()
        invariant
            i <= parts@.len(),
            views(texts@) == plain_texts(parts@.take(i as int)),
        decreases parts@.len() - i,
    {
        proof {
            assert(parts@.take(i + 1).drop_last() =~= parts@.take(i as int));
        }
        match &parts[i] {
            AIAgentTextSection::PlainText { text } => {
                texts.push(text.clone());
                assert(views(texts@) =~= plain_texts(parts@.take(i + 1)));
            },
            _ => {},
        }
        i = i + 1;
    }
    assert(parts@.take(parts@.len() as int) =~= parts@);
    join_lines(&texts)
}

/// A transcript block backed by one agent exchange, owning the collapse state
/// of its thinking blocks.
pub struct TuiAIBlock {
    conversation_id: AIConversationId,
    exchange_id: AIAgentExchangeId,
    thinking_states: ThinkingStates,
}

impl TuiAIBlock {
    /// The conversation that owns this block.
    pub closed spec fn conversation(&self) -> Seq<char> {
        self.conversation_id.0@
    }

    /// The exchange rendered by this block.
    pub closed spec fn exchange(&self) -> Seq<char> {
        self.exchange_id.0@
    }

    /// The collapse state of each reasoning message seen so far.
    pub closed spec fn thinking(&self) -> Map<Seq<char>, ThinkingUiState> {
        self.thinking_states@
    }

    /// Creates a block for `exchange_id` of `conversation_id`, with no
    /// thinking state yet.
    pub fn new(conversation_id: AIConversationId, exchange_id: AIAgentExchangeId) -> (r: TuiAIBlock)
        ensures
            r.conversation() == conversation_id.0@,
            r.exchange() == exchange_id.0@,
            r.thinking() == Map::<Seq<char>, ThinkingUiState>::empty(),
    {
        TuiAIBlock { conversation_id, exchange_id, thinking_states: ThinkingStates::new() }
    }

    /// Moves the block to `conversation_id` when its exchange is reassigned;
    /// the exchange and the thinking states stay.
    pub fn replace_model(&mut self, conversation_id: AIConversationId)
        ensures
            final(self).conversation() == conversation_id.0@,
            final(self).exchange() == old(self).exchange(),
            final(self).thinking() == old(self).thinking(),
    {
        self.conversation_id = conversation_id;
    }

    /// The conversation that currently owns this block.
    pub fn conversation_id(&self) -> (r: AIConversationId)
        ensures
            r.0@ == self.conversation(),
    {
        AIConversationId(self.conversation_id.0.clone())
    }

    /// The exchange rendered by this block.
    pub fn exchange_id(&self) -> (r: AIAgentExchangeId)
        ensures
            r.0@ == self.exchange(),
    {
        AIAgentExchangeId(self.exchange_id.0.clone())
    }

    /// Whether the thinking block of `message_id` is collapsed.
    pub fn is_thinking_collapsed(&self, message_id: &MessageId) -> (r: bool)
        ensures
            r == (self.thinking().contains_key(message_id@)
                && self.thinking()[message_id@].collapsed),
    {
        self.thinking_states.is_collapsed(message_id)
    }

    /// Applies a click on the header of `message_id`'s thinking block.
    pub fn toggle_thinking(&mut self, message_id: &MessageId)
        ensures
            final(self).thinking() == old(self).thinking().insert(
                message_id@,
                state_or_initial(old(self).thinking(), message_id@).toggled(),
            ),
            final(self).conversation() == old(self).conversation(),
            final(self).exchange() == old(self).exchange(),
    {
        self.thinking_states.toggle(message_id);
    }

    /// Applies the finish transition for a reasoning message seen as
    /// `finished` (or not).
    fn sync_thinking_state(&mut self, message_id: &MessageId, finished: bool)
        ensures
            final(self).thinking() == old(self).thinking().insert(
                message_id@,
                state_or_initial(old(self).thinking(), message_id@).synced(finished),
            ),
            final(self).conversation() == old(self).conversation(),
            final(self).exchange() == old(self).exchange(),
    {
        self.thinking_states.sync(message_id, finished);
    }

    /// Applies an action dispatched by this block's elements.
    pub fn handle_action(&mut self, action: &TuiAction)
        ensures
            match action {
                TuiAction::ToggleThinking(id) => final(self).thinking() == old(self).thinking().insert(
                    id@,
                    state_or_initial(old(self).thinking(), id@).toggled(),
                ),
            },
            final(self).conversation() == old(self).conversation(),
            final(self).exchange() == old(self).exchange(),
    {
        match action {
            TuiAction::ToggleThinking(id) => self.toggle_thinking(id),
        }
    }

    /// Applies, oldest first, the actions that the elements of this block
    /// dispatched into `event_ctx`, and removes them from it.
    pub fn apply_dispatched(&mut self, event_ctx: &mut TuiEventContext)
        ensures
            final(self).thinking() == states_after_actions(
                old(self).thinking(),
                old(event_ctx).dispatched(),
            ),
            final(event_ctx).dispatched() == Seq::<TuiAction>::empty(),
            final(event_ctx).redraw_requested() == old(event_ctx).redraw_requested(),
            final(self).conversation() == old(self).conversation(),
            final(self).exchange() == old(self).exchange(),
    {
        let actions = event_ctx.take_actions();
        let mut i: usize = 0;
        while i < actions.len()
            invariant
                i <= actions@.len(),
                actions@ == old(event_ctx).dispatched(),
                self.thinking() == states_after_actions(
                    old(self).thinking(),
                    actions@.take(i as int),
                ),
                self.conversation() == old(self).conversation(),
                self.exchange() == old(self).exchange(),
            decreases actions@.len() - i,
        {
            proof {
                assert(actions@.take(i + 1).drop_last() =~= actions@.take(i as int));
                assert(actions@.take(i + 1).last() == actions@[i as int]);
            }
            self.handle_action(&actions[i]);
            i = i + 1;
        }
        assert(actions@.take(actions@.len() as int) =~= actions@);
    }

    /// The collapsible of a thinking block: header from the finish status,
    /// collapse state from this block's record of the message, the body
    /// indented under the header, and a header click that hands a toggle for
    /// the message to the owning view.
    pub fn thinking_collapsible(
        &self,
        message_id: &MessageId,
        finished_duration: Option<ReasoningDuration>,
        body: &str,
        theme: &BlockTheme,
    ) -> (r: ThinkingCollapsible)
        ensures
            r.is_collapsed() == state_or_initial(self.thinking(), message_id@).collapsed,
            is_thinking_collapsible(
                r,
                collapsed_in(self.thinking(), message_id@),
                message_id@,
                finished_duration,
                body@,
                *theme,
            ),
    {
        let style = TuiStyle::default().fg(theme.muted);
        let header = thinking_header(finished_duration);
        let body_element = TuiContainer::new(TuiText::new(body).with_style(style)).with_padding_left(
            THINKING_BODY_INDENT,
        );
        let collapsed = self.is_thinking_collapsed(message_id);
        TuiCollapsible::new(collapsed, header.as_str(), body_element).with_header_style(
            style,
        ).with_toggle_callback(ThinkingToggle::new(message_id))
    }

    /// Renders a reasoning message as a collapsible thinking block with
    /// bottom padding.
    fn render_thinking(
        &self,
        message_id: &MessageId,
        finished_duration: Option<ReasoningDuration>,
        body: &str,
        theme: &BlockTheme,
    ) -> (r: ThinkingElement)
        ensures
            is_thinking_element(
                r,
                collapsed_in(self.thinking(), message_id@),
                message_id@,
                finished_duration,
                body@,
                *theme,
            ),
    {
        let collapsible = self.thinking_collapsible(message_id, finished_duration, body, theme);
        TuiContainer::new(collapsible).with_padding_bottom(BLOCK_BOTTOM_PADDING)
    }

    /// Builds this block's element tree for `exchange`: one element per
    /// section, in order, thinking blocks collapsed as this block records
    /// once the exchange's reasoning is observed.
    pub fn render_element(&mut self, exchange: &AIExchange, theme: &BlockTheme) -> (r: TuiColumn<
        SectionElement,
    >)
        ensures
            final(self).thinking() == states_after_messages(
                old(self).thinking(),
                output_messages(*exchange),
            ),
            is_block_element(r, block_sections(*exchange), final(self).thinking(), *theme),
            final(self).conversation() == old(self).conversation(),
            final(self).exchange() == old(self).exchange(),
    {
        let sections = self.sections(exchange);
        let ghost views = section_views(sections@);
        let mut column = TuiColumn::new();
        let mut i: usize = 0;
        while i < sections.len()
            invariant
                i <= sections@.len(),
                views == section_views(sections@),
                column.laid_out_heights() == Seq::<u16>::empty(),
                column.child_count() == i,
                forall|k: int|
                    0 <= k < i ==> #[trigger] is_element_of(
                        column.children_view()[k],
                        views[k],
                        self.thinking(),
                        *theme,
                    ),
            decreases sections@.len() - i,
        {
            assert(views[i as int] == sections@[i as int]@);
            let element = match &sections[i] {
                TuiAIBlockSection::Thinking { message_id, finished_duration, body } => {
                    SectionElement::Thinking(
                        self.render_thinking(message_id, *finished_duration, body.as_str(), theme),
                    )
                },
                section => section.render_element(theme),
            };
            column = column.child(element);
            i = i + 1;
        }
        column
    }

    /// This block's wrapped height at `width`: the height its element tree
    /// takes when laid out at that width with rows to spare.
    pub fn desired_height(&mut self, exchange: &AIExchange, width: u16, theme: &BlockTheme) -> (r:
        usize)
        ensures
            exists|column: TuiColumn<SectionElement>|
                #[trigger] is_block_element(
                    column,
                    block_sections(*exchange),
                    final(self).thinking(),
                    *theme,
                ) && r == column.measure(height_query(width)).height,
            final(self).thinking() == states_after_messages(
                old(self).thinking(),
                output_messages(*exchange),
            ),
            final(self).conversation() == old(self).conversation(),
            final(self).exchange() == old(self).exchange(),
    {
        let mut element = self.render_element(exchange, theme);
        let ghost built = element;
        let size = element.layout(TuiConstraint::loose(TuiSize::new(width, u16::MAX)));
        assert(is_block_element(built, block_sections(*exchange), self.thinking(), *theme));
        size.height as usize
    }

    /// Extracts the exchange's visible input and output into render sections,
    /// in message order, and applies the finish transition of every reasoning
    /// message on the way.
    pub fn sections(&mut self, exchange: &AIExchange) -> (r: Vec<TuiAIBlockSection>)
        ensures
            section_views(r@) == block_sections(*exchange),
            final(self).thinking() == states_after_messages(
                old(self).thinking(),
                output_messages(*exchange),
            ),
            final(self).conversation() == old(self).conversation(),
            final(self).exchange() == old(self).exchange(),
    {
        let mut sections: Vec<TuiAIBlockSection> = Vec::new();
        let input = input_text_of(&exchange.inputs);
        if !input.as_str().is_empty() {
            sections.push(TuiAIBlockSection::Input(input));
        }
        assert(section_views(sections@) =~= input_sections(exchange.inputs@));
        match &exchange.output {
            Some(output) => {
                let messages = &output.messages;
                let mut i: usize = 0;
                while i < messages.len()
                    invariant
                        i <= messages@.len(),
                        messages@ == output_messages(*exchange),
                        section_views(sections@) == input_sections(exchange.inputs@)
                            + output_sections(messages@.take(i as int)),
                        self.thinking() == states_after_messages(
                            old(self).thinking(),
                            messages@.take(i as int),
                        ),
                        self.conversation() == old(self).conversation(),
                        self.exchange() == old(self).exchange(),
                    decreases messages@.len() - i,
                {
                    let message = &messages[i];
                    proof {
                        assert(messages@.take(i + 1).drop_last() =~= messages@.take(i as int));
                        assert(messages@.take(i + 1).last() == messages@[i as int]);
                    }
                    let ghost before = sections@;
                    match &message.message {
                        AIAgentOutputMessageType::Text(text) => {
                            push_plain_text_sections(&mut sections, &text.sections);
                        },
                        AIAgentOutputMessageType::Action(action) => {
                            sections.push(TuiAIBlockSection::ToolCall(Box::new(action.duplicate())));
                            assert(section_views(sections@) =~= section_views(before).push(
                                SectionView::ToolCall(action.id@),
                            ));
                        },
                        AIAgentOutputMessageType::Reasoning { text, finished_duration } => {
                            self.sync_thinking_state(&message.id, finished_duration.is_some());
                            let body = reasoning_body(text);
                            sections.push(
                                TuiAIBlockSection::Thinking {
                                    message_id: message.id.duplicate(),
                                    finished_duration: *finished_duration,
                                    body,
                                },
                            );
                            assert(section_views(sections@) =~= section_views(before).push(
                                message_sections(*message)[0],
                            ));
                        },
                        _ => {},
                    }
                    assert(section_views(sections@) =~= input_sections(exchange.inputs@)
                        + output_sections(messages@.take(i + 1)));
                    i = i + 1;
                }
                assert(messages@.take(messages@.len() as int) =~= messages@);
            },
            None => {
                assert(section_views(sections@) =~= block_sections(*exchange));
            },
        }
        sections
    }
}


/// The number of thinking sections among `sections`.
pub open spec fn count_thinking(sections: Seq<SectionView>) -> nat
    decreases sections.len(),
{
    if sections.len() == 0 {
        0
    } else {
        count_thinking(sections.drop_last()) + if sections.last() is Thinking {
            1nat
        } else {
            0nat
        }
    }
}

/// The number of reasoning messages among `messages`.
pub open spec fn count_reasoning(messages: Seq<AIAgentOutputMessage>) -> nat
    decreases messages.len(),
{
    if messages.len() == 0 {
        0
    } else {
        count_reasoning(messages.drop_last()) + if messages.last().message is Reasoning {
            1nat
        } else {
            0nat
        }
    }
}

/// No two reasoning messages among `messages` share an id.
pub open spec fn reasoning_ids_distinct(messages: Seq<AIAgentOutputMessage>) -> bool {
    forall|i: int, j: int|
        0 <= i < j < messages.len() && messages[i].message is Reasoning
            && messages[j].message is Reasoning ==> messages[i].id@ != messages[j].id@
}

/// Whether the last reasoning message with id `id` among `messages` was
/// finished; `None` when there is none.
pub open spec fn finish_seen(messages: Seq<AIAgentOutputMessage>, id: Seq<char>) -> Option<bool>
    decreases messages.len(),
{
    if messages.len() == 0 {
        None
    } else {
        match messages.last().message {
            AIAgentOutputMessageType::Reasoning { text, finished_duration } => if messages.last().id@
                == id {
                Some(finished_duration is Some)
            } else {
                finish_seen(messages.drop_last(), id)
            },
            _ => finish_seen(messages.drop_last(), id),
        }
    }
}

proof fn lemma_count_thinking_append(a: Seq<SectionView>, b: Seq<SectionView>)
    ensures
        count_thinking(a + b) == count_thinking(a) + count_thinking(b),
    decreases b.len(),
{
    if b.len() == 0 {
        assert(a + b =~= a);
    } else {
        assert((a + b).drop_last() =~= a + b.drop_last());
        lemma_count_thinking_append(a, b.drop_last());
    }
}

proof fn lemma_plain_text_has_no_thinking(parts: Seq<AIAgentTextSection>)
    ensures
        count_thinking(plain_text_sections(parts)) == 0,
    decreases parts.len(),
{
    if parts.len() > 0 {
        lemma_plain_text_has_no_thinking(parts.drop_last());
        let rest = plain_text_sections(parts.drop_last());
        match parts.last() {
            AIAgentTextSection::PlainText { text } => if text@.len() > 0 {
                assert(rest.push(SectionView::PlainText(text@)).drop_last() =~= rest);
            },
            _ => {},
        }
    }
}

/// The sections of consecutive runs of messages are the sections of the
/// first run followed by those of the second: output keeps message order,
/// so reasoning interleaves with text as the messages do.
pub proof fn law_sections_follow_message_order(
    first: Seq<AIAgentOutputMessage>,
    second: Seq<AIAgentOutputMessage>,
)
    ensures
        output_sections(first + second) == output_sections(first) + output_sections(second),
    decreases second.len(),
{
    if second.len() == 0 {
        assert(first + second =~= first);
        assert(output_sections(first) + output_sections(second) =~= output_sections(first));
    } else {
        assert((first + second).drop_last() =~= first + second.drop_last());
        law_sections_follow_message_order(first, second.drop_last());
        assert(output_sections(first + second) =~= output_sections(first) + output_sections(
            second,
        ));
    }
}

/// Every reasoning message yields exactly one thinking block, an empty one
/// included, and nothing else does.
pub proof fn law_one_thinking_block_per_reasoning(messages: Seq<AIAgentOutputMessage>)
    ensures
        count_thinking(output_sections(messages)) == count_reasoning(messages),
    decreases messages.len(),
{
    if messages.len() > 0 {
        law_one_thinking_block_per_reasoning(messages.drop_last());
        let m = messages.last();
        lemma_count_thinking_append(output_sections(messages.drop_last()), message_sections(m));
        match m.message {
            AIAgentOutputMessageType::Text(text) => {
                lemma_plain_text_has_no_thinking(text.sections@);
            },
            AIAgentOutputMessageType::Action(action) => {
                assert(message_sections(m).drop_last() =~= Seq::<SectionView>::empty());
                assert(count_thinking(Seq::<SectionView>::empty()) == 0);
                assert(count_thinking(message_sections(m)) == 0);
            },
            AIAgentOutputMessageType::Reasoning { .. } => {
                assert(message_sections(m).drop_last() =~= Seq::<SectionView>::empty());
                assert(count_thinking(Seq::<SectionView>::empty()) == 0);
                assert(count_thinking(message_sections(m)) == 1);
            },
            _ => {
                assert(count_thinking(message_sections(m)) == 0);
            },
        }
    }
}

proof fn lemma_states_at(
    states: Map<Seq<char>, ThinkingUiState>,
    messages: Seq<AIAgentOutputMessage>,
    id: Seq<char>,
)
    requires
        reasoning_ids_distinct(messages),
    ensures
        match finish_seen(messages, id) {
            None => {
                &&& states_after_messages(states, messages).contains_key(id) == states.contains_key(id)
                &&& states.contains_key(id) ==> states_after_messages(states, messages)[id]
                    == states[id]
            },
            Some(finished) => {
                &&& states_after_messages(states, messages).contains_key(id)
                &&& states_after_messages(states, messages)[id] == state_or_initial(
                    states,
                    id,
                ).synced(finished)
            },
        },
    decreases messages.len(),
{
    if messages.len() > 0 {
        let init = messages.drop_last();
        assert(reasoning_ids_distinct(init)) by {
            assert forall|i: int, j: int|
                0 <= i < j < init.len() && init[i].message is Reasoning
                    && init[j].message is Reasoning implies init[i].id@ != init[j].id@ by {
                assert(init[i] == messages[i] && init[j] == messages[j]);
            }
        }
        lemma_states_at(states, init, id);
        let last = messages.last();
        match last.message {
            AIAgentOutputMessageType::Reasoning { text, finished_duration } => {
                if last.id@ == id {
                    assert(finish_seen(init, id) is None) by {
                        if finish_seen(init, id) is Some {
                            lemma_finish_seen_witness(init, id);
                            let i = choose|i: int|
                                0 <= i < init.len() && init[i].message is Reasoning && init[i].id@
                                    == id;
                            assert(messages[i] == init[i]);
                            assert(messages[messages.len() - 1] == last);
                        }
                    }
                }
            },
            _ => {},
        }
    }
}

proof fn lemma_finish_seen_witness(messages: Seq<AIAgentOutputMessage>, id: Seq<char>)
    requires
        finish_seen(messages, id) is Some,
    ensures
        exists|i: int|
            0 <= i < messages.len() && messages[i].message is Reasoning && messages[i].id@ == id,
    decreases messages.len(),
{
    let init = messages.drop_last();
    let last = messages.last();
    if last.message is Reasoning && last.id@ == id {
        assert(messages[messages.len() - 1] == last);
    } else {
        lemma_finish_seen_witness(init, id);
        let i = choose|i: int| 0 <= i < init.len() && init[i].message is Reasoning && init[i].id@ == id;
        assert(messages[i] == init[i]);
    }
}

/// Extracting the sections of the same exchange again, as each frame does,
/// leaves the thinking states as the first extraction left them (when no two
/// reasoning messages share an id).
pub proof fn law_rerender_keeps_states(
    states: Map<Seq<char>, ThinkingUiState>,
    messages: Seq<AIAgentOutputMessage>,
)
    requires
        reasoning_ids_distinct(messages),
    ensures
        states_after_messages(states_after_messages(states, messages), messages)
            == states_after_messages(states, messages),
{
    let once = states_after_messages(states, messages);
    let twice = states_after_messages(once, messages);
    assert forall|id: Seq<char>| #[trigger] twice.contains_key(id) == once.contains_key(id) && (
    once.contains_key(id) ==> twice[id] == once[id]) by {
        lemma_states_at(states, messages, id);
        lemma_states_at(once, messages, id);
    }
    assert(twice =~= once);
}

/// Rendering finished reasoning collapses its block, the first time it is
/// seen finished, unless the user toggled it (when no two reasoning messages
/// share an id).
pub proof fn law_render_collapses_finished_reasoning(
    states: Map<Seq<char>, ThinkingUiState>,
    messages: Seq<AIAgentOutputMessage>,
    id: Seq<char>,
)
    requires
        reasoning_ids_distinct(messages),
        finish_seen(messages, id) == Some(true),
        !state_or_initial(states, id).last_known_finished,
        !state_or_initial(states, id).user_toggled,
    ensures
        states_after_messages(states, messages).contains_key(id),
        states_after_messages(states, messages)[id].collapsed,
{
    lemma_states_at(states, messages, id);
}

/// Rendering reasoning that is still streaming leaves its block expanded
/// unless the user collapsed it (when no two reasoning messages share an id).
pub proof fn law_render_keeps_streaming_reasoning_expanded(
    states: Map<Seq<char>, ThinkingUiState>,
    messages: Seq<AIAgentOutputMessage>,
    id: Seq<char>,
)
    requires
        reasoning_ids_distinct(messages),
        finish_seen(messages, id) == Some(false),
        !state_or_initial(states, id).collapsed,
    ensures
        states_after_messages(states, messages).contains_key(id),
        !states_after_messages(states, messages)[id].collapsed,
{
    lemma_states_at(states, messages, id);
}

/// Whether `event` is a left press on the top row of `area`.
pub open spec fn is_click_on_top_row(event: TuiEvent, area: TuiRect) -> bool {
    event matches TuiEvent::LeftMouseDown { position, .. } && {
        &&& position.y == area.y
        &&& area.x <= position.x < area.x + area.width
    }
}

/// A click on the header row of a thinking block, laid out after it was
/// rendered, is handled; whatever the dispatch does to the event context, it
/// adds exactly one action, a toggle of that message's block, and requests a
/// redraw; and applying the dispatched actions toggles that block's state
/// and leaves every other block's state as it was.
pub proof fn law_header_click_toggles(
    rendered: ThinkingElement,
    laid_out: ThinkingElement,
    constraint: TuiConstraint,
    area: TuiRect,
    event: TuiEvent,
    before: TuiEventContext,
    after: TuiEventContext,
    states: Map<Seq<char>, ThinkingUiState>,
    collapsed: bool,
    id: Seq<char>,
    finished_duration: Option<ReasoningDuration>,
    body: Seq<char>,
    theme: BlockTheme,
)
    requires
        is_thinking_element(rendered, collapsed, id, finished_duration, body, theme),
        rendered.laid_out(constraint, &laid_out),
        constraint.max.width >= 1,
        constraint.max.height >= 2,
        area.height >= 2,
        area.y + area.height <= u16::MAX,
        area.x + area.width <= u16::MAX,
        is_click_on_top_row(event, area),
    ensures
        laid_out.handles(event, area),
        laid_out.responds(event, area, before, after) ==> {
            &&& toggle_dispatched(before, after, id)
            &&& states_after_actions(states, after.dispatched()) == {
                let prior = states_after_actions(states, before.dispatched());
                prior.insert(id, state_or_initial(prior, id).toggled())
            }
        },
{
    let k = rendered.wrapped();
    let k2 = laid_out.wrapped();
    let inner = rendered.child_constraint(constraint);
    let inner_area = rendered.child_area(area);
    assert(k.laid_out(inner, &k2));
    let tree = k2.tree()->Some_0;
    let fresh = choose|fresh: TuiColumn<CollapsiblePart<TuiContainer<TuiText>, ThinkingHandler>>|
        #[trigger] k.builds(fresh) && fresh.laid_out(inner, &tree);
    let kids = fresh.children_view();
    let kids2 = tree.children_view();
    let heights = tree.laid_out_heights();
    let n = fresh.child_count();
    assert(kids[0] matches CollapsiblePart::Header(_));
    let header = kids[0]->Header_0;
    let toggle = k.toggle()->Some_0;
    assert(kids[0].laid_out(stack_constraint(kids, 0, inner), &kids2[0]));
    let header2 = kids2[0]->Header_0;
    let first = stack_constraint(kids, 0, inner);
    assert(header.laid_out(first, &header2));
    assert(header2.handler() == Some(toggle));
    assert(header2.wrapped() == header.wrapped());
    // The header takes a row.
    let line = k.header_line();
    lemma_split_lines_nonempty(line);
    lemma_truncated_row_count(split_lines(line), first.max.width as nat);
    assert(stack_heights(kids, 0, inner) =~= Seq::<u16>::empty());
    assert(stack_heights(kids, 1, inner) =~= seq![
        at_most(kids[0].measure(first).height, first.max.height),
    ]);
    assert(heights[0] >= 1) by {
        lemma_stack_prefix(kids, 1, n, inner);
    }
    // The click lands in the header's area and runs its handler.
    let a0 = child_area(inner_area, heights, 0);
    assert(heights.take(0) =~= Seq::<u16>::empty());
    assert(a0.holds(event->LeftMouseDown_position.x as int, event->LeftMouseDown_position.y as int));
    assert(kids2[0].handles(event, a0));
    assert(tree.placed() == n);
    assert(any_handles(kids2, heights, inner_area, event, 1));
    lemma_any_handles_grows(kids2, heights, inner_area, event, 1, n);
    if laid_out.responds(event, area, before, after) {
        assert(responds_from(kids2, heights, inner_area, event, n as int, 0, before, after));
        let mid = choose|mid: TuiEventContext|
            #![trigger kids2[0].responds(event, child_area(inner_area, heights, 0), before, mid)]
            kids2[0].responds(event, child_area(inner_area, heights, 0), before, mid) && if kids2[0].handles(
                event,
                child_area(inner_area, heights, 0),
            ) {
                after == mid
            } else {
                responds_from(kids2, heights, inner_area, event, n as int, 1, mid, after)
            };
        assert(after == mid);
        assert(header2.responds(event, a0, before, after));
        assert(toggle_dispatched(before, after, id));
        let acts = after.dispatched();
        assert(acts.drop_last() == before.dispatched());
    }
}

/// The rows each line of the user's input takes at `width`.
pub open spec fn input_line_rows(text: Seq<char>, width: u16) -> Seq<nat> {
    input_lines_of(text).map_values(|line: Seq<char>| text_rows(line, width as nat, false).len())
}

/// How many rows the element of `section` takes at `width` in a block whose
/// thinking states are `states`, before the rows available cut it: its text
/// rows (a thinking block's header lines, and its body rows when expanded)
/// and one row of padding.
pub open spec fn section_height(
    section: SectionView,
    states: Map<Seq<char>, ThinkingUiState>,
    width: u16,
) -> nat {
    match section {
        SectionView::Input(text) => sum_rows(input_line_rows(text, width)) + 1,
        SectionView::PlainText(text) => text_rows(text, width as nat, false).len() + 1,
        SectionView::ToolCall(_) => text_rows(TOOL_CALL_TEXT@, width as nat, false).len() + 1,
        SectionView::Thinking { message_id, finished_duration, body } => split_lines(
            thinking_header_text(finished_duration).push(' '),
        ).len() + (if collapsed_in(states, message_id) {
            0nat
        } else {
            text_rows(body, saturating_sub(width, THINKING_BODY_INDENT) as nat, false).len()
        }) + 1,
    }
}

/// How many rows each of `sections` takes at `width`, before the rows
/// available cut it.
pub open spec fn section_heights(
    sections: Seq<SectionView>,
    states: Map<Seq<char>, ThinkingUiState>,
    width: u16,
) -> Seq<nat> {
    sections.map_values(|s: SectionView| section_height(s, states, width))
}

proof fn lemma_section_natural(
    e: SectionElement,
    section: SectionView,
    states: Map<Seq<char>, ThinkingUiState>,
    theme: BlockTheme,
    width: u16,
)
    requires
        is_element_of(e, section, states, theme),
    ensures
        natural_height(e, width, section_height(section, states, width)),
{
    let n = section_height(section, states, width);
    match section {
        SectionView::Input(text) => {
            let outer = e->Input_0;
            let filled = outer.wrapped();
            let column = filled.wrapped();
            let ns = input_line_rows(text, width);
            assert forall|j: int| 0 <= j < ns.len() implies #[trigger] natural_height(
                column.children_view()[j],
                width,
                ns[j],
            ) by {
                assert(is_text(column.children_view()[j], input_lines_of(text)[j], input_text_style(theme)));
                lemma_text_natural(column.children_view()[j], width);
            }
            lemma_column_natural(column, width, ns);
            lemma_container_natural(filled, width, sum_rows(ns));
            lemma_container_natural(outer, width, sum_rows(ns));
            assert forall|c: TuiConstraint| c.max.width == width implies #[trigger] e.measure(c).height
                == min_rows(n, c.max.height) by {
                assert(outer.measure(c).height == min_rows(n, c.max.height));
            }
        },
        SectionView::PlainText(_) => {
            let outer = e->Text_0;
            lemma_text_natural(outer.wrapped(), width);
            lemma_container_natural(outer, width, (n - 1) as nat);
            assert forall|c: TuiConstraint| c.max.width == width implies #[trigger] e.measure(c).height
                == min_rows(n, c.max.height) by {
                assert(outer.measure(c).height == min_rows(n, c.max.height));
            }
        },
        SectionView::ToolCall(_) => {
            let outer = e->Text_0;
            lemma_text_natural(outer.wrapped(), width);
            lemma_container_natural(outer, width, (n - 1) as nat);
            assert forall|c: TuiConstraint| c.max.width == width implies #[trigger] e.measure(c).height
                == min_rows(n, c.max.height) by {
                assert(outer.measure(c).height == min_rows(n, c.max.height));
            }
        },
        SectionView::Thinking { message_id, finished_duration, body } => {
            let outer = e->Thinking_0;
            let k = outer.wrapped();
            let b = k.held_body()->Some_0;
            let inner_width = saturating_sub(width, THINKING_BODY_INDENT);
            let body_rows = text_rows(body, inner_width as nat, false).len();
            lemma_text_natural(b.wrapped(), inner_width);
            lemma_container_natural(b, width, body_rows);
            lemma_fresh_natural(k, width, body_rows);
            // The header has the lines of its label, whichever glyph ends it.
            reveal_strlit("▸");
            reveal_strlit("▾");
            let stem = thinking_header_text(finished_duration).push(' ');
            lemma_split_lines_append(stem, DEFAULT_CHEVRON_COLLAPSED@);
            lemma_split_lines_append(stem, DEFAULT_CHEVRON_EXPANDED@);
            assert(split_lines(k.header_line()).len() == split_lines(stem).len());
            lemma_container_natural(outer, width, (n - 1) as nat);
            assert forall|c: TuiConstraint| c.max.width == width implies #[trigger] e.measure(c).height
                == min_rows(n, c.max.height) by {
                assert(outer.measure(c).height == min_rows(n, c.max.height));
            }
        },
    }
}

/// Collapsing shortens a block: two element trees of the same sections,
/// where every thinking block collapsed in the second is collapsed in the
/// first, are laid out at the same width (as `desired_height` does) and the
/// first is no taller; each is as tall as its sections' rows together, cut
/// at the rows a terminal can have.
pub proof fn law_collapsing_shortens_block(
    shorter: TuiColumn<SectionElement>,
    taller: TuiColumn<SectionElement>,
    sections: Seq<SectionView>,
    fewer_open: Map<Seq<char>, ThinkingUiState>,
    more_open: Map<Seq<char>, ThinkingUiState>,
    theme: BlockTheme,
    width: u16,
)
    requires
        is_block_element(shorter, sections, fewer_open, theme),
        is_block_element(taller, sections, more_open, theme),
        forall|id: Seq<char>| #[trigger] collapsed_in(more_open, id) ==> collapsed_in(fewer_open, id),
    ensures
        shorter.measure(height_query(width)).height <= taller.measure(height_query(width)).height,
        shorter.measure(height_query(width)).height == min_rows(
            sum_rows(section_heights(sections, fewer_open, width)),
            0xffff,
        ),
        taller.measure(height_query(width)).height == min_rows(
            sum_rows(section_heights(sections, more_open, width)),
            0xffff,
        ),
{
    let a = section_heights(sections, fewer_open, width);
    let b = section_heights(sections, more_open, width);
    assert forall|j: int| 0 <= j < a.len() implies #[trigger] natural_height(
        shorter.children_view()[j],
        width,
        a[j],
    ) by {
        lemma_section_natural(shorter.children_view()[j], sections[j], fewer_open, theme, width);
    }
    assert forall|j: int| 0 <= j < b.len() implies #[trigger] natural_height(
        taller.children_view()[j],
        width,
        b[j],
    ) by {
        lemma_section_natural(taller.children_view()[j], sections[j], more_open, theme, width);
    }
    assert forall|j: int| 0 <= j < a.len() implies #[trigger] a[j] <= b[j] by {
        match sections[j] {
            SectionView::Thinking { message_id, .. } => {
                assert(collapsed_in(more_open, message_id) ==> collapsed_in(fewer_open, message_id));
            },
            _ => {},
        }
    }
    lemma_column_natural(shorter, width, a);
    lemma_column_natural(taller, width, b);
    lemma_sum_rows_monotone(a, b);
    assert(shorter.measure(height_query(width)).height == min_rows(sum_rows(a), 0xffff));
    assert(taller.measure(height_query(width)).height == min_rows(sum_rows(b), 0xffff));
}

/// A part of a thinking block ignores an event that is no click inside its
/// area.
proof fn lemma_part_ignores(
    part: CollapsiblePart<TuiContainer<TuiText>, ThinkingHandler>,
    area: TuiRect,
    event: TuiEvent,
    before: TuiEventContext,
    after: TuiEventContext,
)
    requires
        !is_click_in(event, area),
    ensures
        !part.handles(event, area),
        part.responds(event, area, before, after) ==> after == before,
{
    match part {
        CollapsiblePart::Header(h) => {
            if part.responds(event, area, before, after) {
                let mid = choose|mid: TuiEventContext|
                    #![trigger h.wrapped().responds(event, area, before, mid)]
                    h.wrapped().responds(event, area, before, mid) && if h.runs_handler(
                        event,
                        area,
                    ) {
                        h.handler()->Some_0.effect(mid, after)
                    } else {
                        after == mid
                    };
            }
        },
        CollapsiblePart::Body(_) => {},
    }
}

/// A thinking block's collapsible ignores an event that is no click inside
/// its area.
proof fn lemma_collapsible_ignores(
    k: ThinkingCollapsible,
    area: TuiRect,
    event: TuiEvent,
    before: TuiEventContext,
    after: TuiEventContext,
)
    requires
        area.y + area.height <= u16::MAX,
        !is_click_in(event, area),
    ensures
        !k.handles(event, area),
        k.responds(event, area, before, after) ==> after == before,
{
    match k.tree() {
        Some(tree) => {
            let kids = tree.children_view();
            let hs = tree.laid_out_heights();
            let m = tree.placed();
            assert forall|j: int| 0 <= j < m implies !is_click_in(
                event,
                #[trigger] child_area(area, hs, j),
            ) by {
                if is_click_in(event, child_area(area, hs, j)) {
                    let p = event->LeftMouseDown_position;
                    lemma_child_area_within(area, hs, j, p.x as int, p.y as int);
                }
            }
            assert forall|j: int| 0 <= j < m implies !#[trigger] kids[j].handles(
                event,
                child_area(area, hs, j),
            ) by {
                lemma_part_ignores(kids[j], child_area(area, hs, j), event, before, before);
            }
            assert forall|j: int, b: TuiEventContext, a: TuiEventContext|
                0 <= j < m && #[trigger] kids[j].responds(event, child_area(area, hs, j), b, a)
                    implies a == b by {
                lemma_part_ignores(kids[j], child_area(area, hs, j), event, b, a);
            }
            lemma_none_handles(kids, hs, area, event, m);
            if k.responds(event, area, before, after) {
                lemma_responds_skip(kids, hs, area, event, m as int, 0, m as int, before, after);
            }
        },
        None => {},
    }
}

/// The element of a section ignores an event that is no click inside its
/// area: it leaves it unhandled and the context as it was.
proof fn lemma_section_ignores(
    e: SectionElement,
    area: TuiRect,
    event: TuiEvent,
    before: TuiEventContext,
    after: TuiEventContext,
)
    requires
        area.y + area.height <= u16::MAX,
        !is_click_in(event, area),
    ensures
        !e.handles(event, area),
        e.responds(event, area, before, after) ==> after == before,
{
    match e {
        SectionElement::Input(outer) => {
            let filled = outer.wrapped();
            let column = filled.wrapped();
            let inner = filled.child_area(outer.child_area(area));
            let kids = column.children_view();
            let hs = column.laid_out_heights();
            let m = column.placed();
            lemma_none_handles(kids, hs, inner, event, m);
            if e.responds(event, area, before, after) {
                lemma_responds_skip(kids, hs, inner, event, m as int, 0, m as int, before, after);
            }
        },
        SectionElement::Text(_) => {},
        SectionElement::Thinking(outer) => {
            let inner = outer.child_area(area);
            if is_click_in(event, inner) {
                let p = event->LeftMouseDown_position;
                assert(area.holds(p.x as int, p.y as int));
            }
            lemma_collapsible_ignores(outer.wrapped(), inner, event, before, after);
        },
    }
}

/// A click on the header row of a thinking section of a block's element
/// tree, laid out after it was rendered, is handled; whatever the dispatch
/// does to the event context, it adds exactly one action, a toggle of that
/// section's message, and requests a redraw; and applying the dispatched
/// actions toggles that message's state alone. The sections above do not
/// take the click.
pub proof fn law_block_header_click_toggles(
    rendered: TuiColumn<SectionElement>,
    laid_out: TuiColumn<SectionElement>,
    sections: Seq<SectionView>,
    states: Map<Seq<char>, ThinkingUiState>,
    theme: BlockTheme,
    constraint: TuiConstraint,
    area: TuiRect,
    j: int,
    event: TuiEvent,
    before: TuiEventContext,
    after: TuiEventContext,
    applied: Map<Seq<char>, ThinkingUiState>,
)
    requires
        is_block_element(rendered, sections, states, theme),
        rendered.laid_out(constraint, &laid_out),
        0 <= j < sections.len(),
        sections[j] is Thinking,
        constraint.max.width >= 1,
        stack_constraint(rendered.children_view(), j, constraint).max.height >= 2,
        area.y + area.height <= u16::MAX,
        area.x + area.width <= u16::MAX,
        child_area(area, laid_out.laid_out_heights(), j).height >= 2,
        is_click_on_top_row(event, child_area(area, laid_out.laid_out_heights(), j)),
    ensures
        laid_out.handles(event, area),
        laid_out.responds(event, area, before, after) ==> {
            let id = sections[j]->Thinking_message_id;
            &&& toggle_dispatched(before, after, id)
            &&& states_after_actions(applied, after.dispatched()) == {
                let prior = states_after_actions(applied, before.dispatched());
                prior.insert(id, state_or_initial(prior, id).toggled())
            }
        },
{
    let kids = rendered.children_view();
    let kids2 = laid_out.children_view();
    let hs = laid_out.laid_out_heights();
    let n = sections.len();
    lemma_stack_heights(kids, n, constraint);
    let section = sections[j];
    let id = section->Thinking_message_id;
    assert(is_element_of(kids[j], section, states, theme));
    let t0 = kids[j]->Thinking_0;
    let sc = stack_constraint(kids, j, constraint);
    assert(kids[j].laid_out(sc, &kids2[j]));
    let t1 = kids2[j]->Thinking_0;
    let aj = child_area(area, hs, j);
    law_header_click_toggles(
        t0,
        t1,
        sc,
        aj,
        event,
        before,
        after,
        applied,
        collapsed_in(states, id),
        id,
        section->Thinking_finished_duration,
        section->Thinking_body,
        theme,
    );
    // The click reaches the section.
    assert(kids2[j].handles(event, aj));
    assert(any_handles(kids2, hs, area, event, (j + 1) as nat));
    lemma_any_handles_grows(kids2, hs, area, event, (j + 1) as nat, n);
    // The sections above leave it alone.
    let x = event->LeftMouseDown_position.x as int;
    assert forall|k: int| 0 <= k < j implies !is_click_in(event, #[trigger] child_area(area, hs, k))
        by {
        lemma_child_areas_stack(area, hs, k, j, x);
    }
    assert forall|k: int| 0 <= k < j implies !#[trigger] kids2[k].handles(event, child_area(area, hs, k))
        by {
        lemma_section_ignores(kids2[k], child_area(area, hs, k), event, before, before);
    }
    assert forall|k: int, b: TuiEventContext, a: TuiEventContext|
        0 <= k < j && #[trigger] kids2[k].responds(event, child_area(area, hs, k), b, a) implies a
        == b by {
        lemma_section_ignores(kids2[k], child_area(area, hs, k), event, b, a);
    }
    if laid_out.responds(event, area, before, after) {
        lemma_responds_skip(kids2, hs, area, event, n as int, 0, j, before, after);
        let mid = choose|mid: TuiEventContext|
            #![trigger kids2[j].responds(event, child_area(area, hs, j), before, mid)]
            kids2[j].responds(event, child_area(area, hs, j), before, mid) && if kids2[j].handles(
                event,
                child_area(area, hs, j),
            ) {
                after == mid
            } else {
                responds_from(kids2, hs, area, event, n as int, j + 1, mid, after)
            };
        assert(t1.responds(event, aj, before, after));
    }
}

/// Collapsing an expanded thinking block makes its block strictly shorter:
/// of two element trees of the same sections, where every thinking block
/// collapsed in the second is collapsed in the first and some block is
/// collapsed only in the first, laid out at a width that leaves its body a
/// column, the first is shorter, unless the second already fills every row
/// a terminal can have.
pub proof fn law_collapsing_strictly_shortens_block(
    shorter: TuiColumn<SectionElement>,
    taller: TuiColumn<SectionElement>,
    sections: Seq<SectionView>,
    fewer_open: Map<Seq<char>, ThinkingUiState>,
    more_open: Map<Seq<char>, ThinkingUiState>,
    theme: BlockTheme,
    width: u16,
    j: int,
)
    requires
        is_block_element(shorter, sections, fewer_open, theme),
        is_block_element(taller, sections, more_open, theme),
        forall|id: Seq<char>| #[trigger] collapsed_in(more_open, id) ==> collapsed_in(fewer_open, id),
        0 <= j < sections.len(),
        sections[j] is Thinking,
        collapsed_in(fewer_open, sections[j]->Thinking_message_id),
        !collapsed_in(more_open, sections[j]->Thinking_message_id),
        width > THINKING_BODY_INDENT,
        taller.measure(height_query(width)).height < 0xffff,
    ensures
        shorter.measure(height_query(width)).height < taller.measure(height_query(width)).height,
{
    law_collapsing_shortens_block(shorter, taller, sections, fewer_open, more_open, theme, width);
    let a = section_heights(sections, fewer_open, width);
    let b = section_heights(sections, more_open, width);
    assert forall|k: int| 0 <= k < a.len() implies #[trigger] a[k] <= b[k] by {
        match sections[k] {
            SectionView::Thinking { message_id, .. } => {
                assert(collapsed_in(more_open, message_id) ==> collapsed_in(fewer_open, message_id));
            },
            _ => {},
        }
    }
    lemma_wrapped_rows_nonempty(
        sections[j]->Thinking_body,
        saturating_sub(width, THINKING_BODY_INDENT) as nat,
    );
    assert(a[j] < b[j]);
    lemma_sum_rows_strict(a, b, j);
}

/// A thinking block is drawn collapsed exactly when its message's recorded
/// state is collapsed, finished or not; so every header click flips whether
/// the block is drawn collapsed, a streaming block's included.
pub proof fn law_rendered_collapse_follows_state(
    states: Map<Seq<char>, ThinkingUiState>,
    id: Seq<char>,
)
    ensures
        collapsed_in(states, id) == state_or_initial(states, id).collapsed,
        collapsed_in(toggled_in(states, id), id) == !collapsed_in(states, id),
{
}

/// Plain-text sections keep every non-empty plain-text part wherever it
/// sits: the sections of parts joined end to end are the sections of each
/// run in turn, and a single part gives a section exactly when it is
/// non-empty plain text.
pub proof fn law_plain_text_sections_distribute(a: Seq<AIAgentTextSection>, b: Seq<AIAgentTextSection>)
    ensures
        plain_text_sections(a + b) == plain_text_sections(a) + plain_text_sections(b),
        forall|part: AIAgentTextSection| #[trigger]
            plain_text_sections(seq![part]) == match part {
                AIAgentTextSection::PlainText { text } => if text@.len() > 0 {
                    seq![SectionView::PlainText(text@)]
                } else {
                    Seq::<SectionView>::empty()
                },
                _ => Seq::<SectionView>::empty(),
            },
    decreases b.len(),
{
    assert forall|part: AIAgentTextSection| #[trigger]
        plain_text_sections(seq![part]) == match part {
            AIAgentTextSection::PlainText { text } => if text@.len() > 0 {
                seq![SectionView::PlainText(text@)]
            } else {
                Seq::<SectionView>::empty()
            },
            _ => Seq::<SectionView>::empty(),
        } by {
        let one = seq![part];
        assert(one.drop_last() =~= Seq::<AIAgentTextSection>::empty());
        assert(one.last() == part);
        assert(plain_text_sections(one.drop_last()) == Seq::<SectionView>::empty());
        match part {
            AIAgentTextSection::PlainText { text } => {
                assert(Seq::<SectionView>::empty().push(SectionView::PlainText(text@))
                    =~= seq![SectionView::PlainText(text@)]);
            },
            _ => {},
        }
    }
    if b.len() == 0 {
        assert(a + b =~= a);
        assert(plain_text_sections(a) + plain_text_sections(b) =~= plain_text_sections(a));
    } else {
        assert((a + b).drop_last() =~= a + b.drop_last());
        assert((a + b).last() == b.last());
        law_plain_text_sections_distribute(a, b.drop_last());
        assert(plain_text_sections(a + b) =~= plain_text_sections(a) + plain_text_sections(b));
    }
}

/// The user's input is shown line for line: the first line behind the
/// prompt marker, and every later line, whatever its place, behind the same
/// indent, as many spaces as the marker is wide (two).
pub proof fn law_input_lines_align(text: Seq<char>)
    ensures
        input_lines_of(text).len() == split_lines(text).len(),
        input_lines_of(text)[0] == INPUT_PREFIX@ + split_lines(text)[0],
        INPUT_PREFIX@.len() == 2,
        forall|i: int|
            1 <= i < split_lines(text).len() ==> #[trigger] input_lines_of(text)[i] == seq![' ', ' ']
                + split_lines(text)[i],
{
    reveal_strlit("≫ ");
    lemma_split_lines_nonempty(text);
    assert forall|i: int| 1 <= i < split_lines(text).len() implies #[trigger] input_lines_of(text)[i]
        == seq![' ', ' '] + split_lines(text)[i] by {
        assert(Seq::new(INPUT_PREFIX@.len(), |k: int| ' ') =~= seq![' ', ' ']);
    }
}

/// An elapsed time reads as its number of whole seconds in decimal, then the
/// unit, which is singular for exactly one second and plural for every other
/// count, zero included.
pub proof fn law_elapsed_text_names_seconds(secs: u64)
    ensures
        elapsed_seconds_text(secs) == decimal(secs as nat) + if secs == 1 {
            " second"@
        } else {
            " seconds"@
        },
        digits_value(decimal(secs as nat)) == secs,
{
    law_decimal_reads_back(secs as nat);
    if secs == 1 {
        reveal_strlit("1 second");
        reveal_strlit(" second");
        assert(decimal(1) =~= seq!['1']);
        assert(elapsed_seconds_text(secs) =~= decimal(secs as nat) + " second"@);
    }
}

/// A thinking block's header says "Thinking..." exactly while the reasoning
/// streams; once it has finished, however quickly, the header says how long
/// it took: "Thought for ", the seconds, and the unit.
pub proof fn law_header_names_finish(finished_duration: Option<ReasoningDuration>)
    ensures
        (thinking_header_text(finished_duration) == "Thinking..."@) == (finished_duration is None),
        finished_duration matches Some(d) ==> thinking_header_text(finished_duration) == "Thought for "@
            + decimal(d.seconds() as nat) + if d.seconds() == 1 {
            " second"@
        } else {
            " seconds"@
        },
{
    reveal_strlit("Thinking...");
    reveal_strlit("Thought for ");
    match finished_duration {
        Some(d) => {
            law_elapsed_text_names_seconds(d.seconds());
            let header = thinking_header_text(finished_duration);
            assert(header[2] == 'o');
            assert("Thinking..."@[2] == 'i');
            assert(("Thought for "@ + elapsed_seconds_text(d.seconds())) + Seq::<char>::empty()
                =~= "Thought for "@ + elapsed_seconds_text(d.seconds()));
            assert(header == "Thought for "@ + (decimal(d.seconds() as nat) + if d.seconds() == 1 {
                " second"@
            } else {
                " seconds"@
            }));
            assert(("Thought for "@ + (decimal(d.seconds() as nat) + if d.seconds() == 1 {
                " second"@
            } else {
                " seconds"@
            })) =~= "Thought for "@ + decimal(d.seconds() as nat) + if d.seconds() == 1 {
                " second"@
            } else {
                " seconds"@
            });
        },
        None => {},
    }
}

} // verus!
