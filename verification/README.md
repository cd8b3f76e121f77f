# tui_blocks

Verified terminal-UI building blocks for an agent transcript, written in Verus.

- `geometry`, `style`, `buffer`, `event`, `element`: cells, rectangles, styles, a cell
  buffer, input events, and the `TuiElement` interface. Each element states, as spec
  functions of its state, what `layout` returns and leaves behind (`measure`, `laid_out`),
  what `render` paints (`draw`, over the buffer's cell map), and what `dispatch_event`
  answers and may do to the event context (`handles`, `responds`, `after_event`).
- `text`, `column`, `container`: leaf text (wrapped or truncated), vertical stacks, padding
  and background; the composite elements are generic over their children, so their specs
  are stated from their children's.
- `hoverable`: a click wrapper; the click decision is `resolve_click`. Handlers implement
  `TuiEventCallback`, whose `effect` says what one run may do to the context.
- `collapsible`: a disclosure section whose header toggles it; the inner tree is built once,
  on first layout or dispatch. A later toggle registration replaces the held handler
  (`Reregistered`); a tree built before keeps the handler it was built with.
- `thinking`: per-message collapse state of reasoning blocks and its laws.
- `agent_model`, `agent_block`: the exchange data a block reads, section extraction, header
  formatting, and the block's element tree, one `SectionElement` per section.

Clicks on a thinking header run a `ThinkingToggle`, which dispatches a `TuiAction` into the
event context and requests a redraw; the view that owns the block passes the context to
`TuiAIBlock::apply_dispatched` to update the collapse state (`law_header_click_toggles`).
