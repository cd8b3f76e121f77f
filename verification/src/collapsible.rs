//! `TuiCollapsible`: a disclosure section, a clickable text header with a
//! chevron over a body that shows only when expanded.
//!
//! Build it with `TuiCollapsible::new`, passing the current `collapsed` state,
//! a header label and the body element. Register a toggle handler with
//! `on_toggle`, style the header line with `with_header_style`, and override
//! the disclosure glyphs with `with_chevron_glyphs`.
//!
//! The element is a composition of other elements: a column whose first child
//! is a click-handling, truncated text header (the label followed by a chevron
//! for the state) and whose second child, present only when expanded, is the
//! body. The caller owns the state: `collapsed` is read each frame, and the
//! toggle handler runs on a header click, leaving the caller to flip its own
//! state and render again.

use vstd::prelude::*;

use crate::buffer::{CellMap, TuiBuffer};
use crate::column::{
    at_most, child_area, lemma_column_congruent, lemma_draw_stack_congruent, lemma_stack_heights, lemma_stack_prefix, min_rows,
    natural_height, row_constraint, stack_heights, TuiColumn,
};
use crate::container::TuiContainer;
use crate::element::{event_keeps_drawing, layout_keeps_measure, TuiElement};
use crate::event::{TuiEvent, TuiEventContext};
use crate::geometry::{TuiConstraint, TuiRect, TuiSize};
use crate::hoverable::{FnCallback, NoCallback, TuiEventCallback, TuiHoverable};
use crate::strings::push_str;
use crate::style::TuiStyle;
use crate::text::{
    lemma_split_lines_append, lemma_truncated_row_count, paint_rows, split_lines, text_rows,
    text_size, TuiText,
};

verus! {

/// Default disclosure glyph shown when the section is collapsed.
pub const DEFAULT_CHEVRON_COLLAPSED: &'static str = "▸";

/// Default disclosure glyph shown when the section is expanded.
pub const DEFAULT_CHEVRON_EXPANDED: &'static str = "▾";

/// A child of a collapsible's inner column: the clickable header, or the
/// body.
pub enum CollapsiblePart<B, K> {
    Header(TuiHoverable<TuiText, K>),
    Body(B),
}

impl<B: TuiElement, K: TuiEventCallback> TuiElement for CollapsiblePart<B, K> {
    open spec fn measure(&self, constraint: TuiConstraint) -> TuiSize {
        match self {
            CollapsiblePart::Header(h) => h.measure(constraint),
            CollapsiblePart::Body(b) => b.measure(constraint),
        }
    }

    open spec fn laid_out(&self, constraint: TuiConstraint, after: &Self) -> bool {
        ||| self matches CollapsiblePart::Header(h) && after matches CollapsiblePart::Header(a)
            && h.laid_out(constraint, &a)
        ||| self matches CollapsiblePart::Body(b) && after matches CollapsiblePart::Body(a)
            && b.laid_out(constraint, &a)
    }

    open spec fn draw(&self, area: TuiRect, cells: CellMap) -> CellMap {
        match self {
            CollapsiblePart::Header(h) => h.draw(area, cells),
            CollapsiblePart::Body(b) => b.draw(area, cells),
        }
    }

    open spec fn handles(&self, event: TuiEvent, area: TuiRect) -> bool {
        match self {
            CollapsiblePart::Header(h) => h.handles(event, area),
            CollapsiblePart::Body(b) => b.handles(event, area),
        }
    }

    open spec fn responds(
        &self,
        event: TuiEvent,
        area: TuiRect,
        before: TuiEventContext,
        after: TuiEventContext,
    ) -> bool {
        match self {
            CollapsiblePart::Header(h) => h.responds(event, area, before, after),
            CollapsiblePart::Body(b) => b.responds(event, area, before, after),
        }
    }

    open spec fn after_event(&self, event: TuiEvent, area: TuiRect, after: &Self) -> bool {
        ||| self matches CollapsiblePart::Header(h) && after matches CollapsiblePart::Header(a)
            && h.after_event(event, area, &a)
        ||| self matches CollapsiblePart::Body(b) && after matches CollapsiblePart::Body(a)
            && b.after_event(event, area, &a)
    }

    fn layout(&mut self, constraint: TuiConstraint) -> (r: TuiSize) {
        match self {
            CollapsiblePart::Header(h) => h.layout(constraint),
            CollapsiblePart::Body(b) => b.layout(constraint),
        }
    }

    fn render(&self, area: TuiRect, buffer: &mut TuiBuffer) {
        match self {
            CollapsiblePart::Header(h) => h.render(area, buffer),
            CollapsiblePart::Body(b) => b.render(area, buffer),
        }
    }

    fn cursor_position(&self, area: TuiRect) -> Option<(u16, u16)> {
        match self {
            CollapsiblePart::Header(h) => h.cursor_position(area),
            CollapsiblePart::Body(b) => b.cursor_position(area),
        }
    }

    fn dispatch_event(
        &mut self,
        event: &TuiEvent,
        area: TuiRect,
        event_ctx: &mut TuiEventContext,
    ) -> (r: bool) {
        match self {
            CollapsiblePart::Header(h) => h.dispatch_event(event, area, event_ctx),
            CollapsiblePart::Body(b) => b.dispatch_event(event, area, event_ctx),
        }
    }
}

/// A header over a body that is shown only when expanded.
pub struct TuiCollapsible<B, K> {
    collapsed: bool,
    header_label: String,
    header_style: TuiStyle,
    chevron_collapsed: String,
    chevron_expanded: String,
    body: Option<B>,
    on_toggle: Option<K>,
    /// The composed inner tree, built on first layout or dispatch so that the
    /// moved-in body and toggle handler are consumed exactly once.
    built: Option<TuiColumn<CollapsiblePart<B, K>>>,
}

impl<B, K> TuiCollapsible<B, K> {
    /// Whether the section is collapsed.
    pub closed spec fn is_collapsed(&self) -> bool {
        self.collapsed
    }

    /// The header label.
    pub closed spec fn label(&self) -> Seq<char> {
        self.header_label@
    }

    /// The style of the header line.
    pub closed spec fn header_style(&self) -> TuiStyle {
        self.header_style
    }

    /// The glyph shown while collapsed.
    pub closed spec fn collapsed_glyph(&self) -> Seq<char> {
        self.chevron_collapsed@
    }

    /// The glyph shown while expanded.
    pub closed spec fn expanded_glyph(&self) -> Seq<char> {
        self.chevron_expanded@
    }

    /// The body, while it is not yet moved into the inner tree.
    pub closed spec fn held_body(&self) -> Option<B> {
        self.body
    }

    /// The toggle handler, while it is not yet moved into the header.
    pub closed spec fn toggle(&self) -> Option<K> {
        self.on_toggle
    }

    /// The inner tree, once built.
    pub closed spec fn tree(&self) -> Option<TuiColumn<CollapsiblePart<B, K>>> {
        self.built
    }

    /// Whether the body is still held.
    pub open spec fn holds_body(&self) -> bool {
        self.held_body() is Some
    }

    /// Whether the toggle handler is still held.
    pub open spec fn holds_toggle(&self) -> bool {
        self.toggle() is Some
    }

    /// Whether the inner tree has been built.
    pub open spec fn is_built(&self) -> bool {
        self.tree() is Some
    }

    /// Whether building now would show the body: expanded, with a body held.
    pub open spec fn shows_body(&self) -> bool {
        !self.is_collapsed() && self.holds_body()
    }

    /// The glyph for the current state.
    pub open spec fn chevron_glyph(&self) -> Seq<char> {
        if self.is_collapsed() {
            self.collapsed_glyph()
        } else {
            self.expanded_glyph()
        }
    }

    /// The header line: the label, a space, and the chevron.
    pub open spec fn header_line(&self) -> Seq<char> {
        self.label().push(' ') + self.chevron_glyph()
    }

    /// The settings that building does not change.
    pub open spec fn same_settings<K2>(&self, other: &TuiCollapsible<B, K2>) -> bool {
        &&& self.is_collapsed() == other.is_collapsed()
        &&& self.label() == other.label()
        &&& self.header_style() == other.header_style()
        &&& self.collapsed_glyph() == other.collapsed_glyph()
        &&& self.expanded_glyph() == other.expanded_glyph()
    }

    /// Whether `part` is the header built from this collapsible: a wrapper
    /// around the header line, truncated and in the header style, with the
    /// held toggle as its click handler.
    pub open spec fn is_header(&self, part: CollapsiblePart<B, K>) -> bool {
        part matches CollapsiblePart::Header(h) && {
            &&& h.wrapped().content() == self.header_line()
            &&& h.wrapped().text_style() == self.header_style()
            &&& h.wrapped().truncates()
            &&& h.handler() == self.toggle()
        }
    }

    /// Whether `tree` is the inner tree building makes from this
    /// collapsible: the header, then the held body when expanded, not yet
    /// laid out.
    pub open spec fn builds(&self, tree: TuiColumn<CollapsiblePart<B, K>>) -> bool {
        &&& tree.laid_out_heights() == Seq::<u16>::empty()
        &&& tree.child_count() == (if self.shows_body() {
            2nat
        } else {
            1nat
        })
        &&& self.is_header(tree.children_view()[0])
        &&& self.shows_body() ==> tree.children_view()[1] == CollapsiblePart::<B, K>::Body(
            self.held_body()->Some_0,
        )
    }

    /// What building leaves held: the body only when collapsed, no toggle.
    pub open spec fn holds_after_build(&self, after: &TuiCollapsible<B, K>) -> bool {
        &&& after.held_body() == (if self.is_collapsed() {
            self.held_body()
        } else {
            None
        })
        &&& after.toggle() is None
    }

    /// Sets the style applied to the header line (label and chevron).
    pub fn with_header_style(self, style: TuiStyle) -> (r: TuiCollapsible<B, K>)
        ensures
            r.is_collapsed() == self.is_collapsed(),
            r.label() == self.label(),
            r.header_style() == style,
            r.collapsed_glyph() == self.collapsed_glyph(),
            r.expanded_glyph() == self.expanded_glyph(),
            r.held_body() == self.held_body(),
            r.toggle() == self.toggle(),
            r.tree() == self.tree(),
    {
        TuiCollapsible { header_style: style, ..self }
    }

    /// Overrides the disclosure glyphs used for the collapsed and expanded
    /// states.
    pub fn with_chevron_glyphs(self, collapsed: &str, expanded: &str) -> (r: TuiCollapsible<B, K>)
        ensures
            r.is_collapsed() == self.is_collapsed(),
            r.label() == self.label(),
            r.header_style() == self.header_style(),
            r.collapsed_glyph() == collapsed@,
            r.expanded_glyph() == expanded@,
            r.held_body() == self.held_body(),
            r.toggle() == self.toggle(),
            r.tree() == self.tree(),
    {
        TuiCollapsible {
            chevron_collapsed: collapsed.to_owned(),
            chevron_expanded: expanded.to_owned(),
            ..self
        }
    }

    /// The chevron glyph for the current state.
    pub fn chevron(&self) -> (r: &str)
        ensures
            r@ == self.chevron_glyph(),
    {
        if self.collapsed {
            self.chevron_collapsed.as_str()
        } else {
            self.chevron_expanded.as_str()
        }
    }

    /// The header line: the label, a space, and the chevron.
    pub fn header_text(&self) -> (r: String)
        ensures
            r@ == self.header_line(),
    {
        let mut line = self.header_label.clone();
        line.push(' ');
        push_str(&mut line, self.chevron());
        line
    }

    /// Composes the header and body into the inner tree once, consuming the
    /// moved-in body and toggle handler.
    pub fn ensure_built(&mut self)
        ensures
            final(self).same_settings(old(self)),
            final(self).is_built(),
            old(self).is_built() ==> *final(self) == *old(self),
            !old(self).is_built() ==> {
                &&& old(self).builds(final(self).tree()->Some_0)
                &&& old(self).holds_after_build(final(self))
            },
    {
        if self.built.is_some() {
            return;
        }
        let header_line = self.header_text();
        let mut on_toggle: Option<K> = None;
        std::mem::swap(&mut on_toggle, &mut self.on_toggle);
        let header = TuiHoverable::with_handler(
            TuiText::new(header_line.as_str()).with_style(self.header_style).truncate(),
            on_toggle,
        );
        let mut column = TuiColumn::new().child(CollapsiblePart::Header(header));
        if !self.collapsed {
            let mut body: Option<B> = None;
            std::mem::swap(&mut body, &mut self.body);
            match body {
                Some(body) => {
                    column = column.child(CollapsiblePart::Body(body));
                },
                None => {},
            }
        }
        self.built = Some(column);
    }
}

/// The toggle handler of a collapsible after a later registration: the
/// handler registered later, or, in a header built before that
/// registration, the one it was built with.
pub enum Reregistered<E, L> {
    Earlier(E),
    Latest(L),
}

impl<E: TuiEventCallback, L: TuiEventCallback> TuiEventCallback for Reregistered<E, L> {
    /// What the handler held does.
    open spec fn effect(&self, before: TuiEventContext, after: TuiEventContext) -> bool {
        match self {
            Reregistered::Earlier(e) => e.effect(before, after),
            Reregistered::Latest(l) => l.effect(before, after),
        }
    }

    fn call(&self, event_ctx: &mut TuiEventContext) {
        match self {
            Reregistered::Earlier(e) => e.call(event_ctx),
            Reregistered::Latest(l) => l.call(event_ctx),
        }
    }
}

/// `handler` as the earlier handler of a later registration.
pub open spec fn kept_earlier<E, L>(handler: Option<E>) -> Option<Reregistered<E, L>> {
    match handler {
        Some(e) => Some(Reregistered::Earlier(e)),
        None => None,
    }
}

/// Whether `after` is `part` under a later registration: a header keeps its
/// text and its handler, bodies stay.
pub open spec fn retyped<B, E, L>(part: CollapsiblePart<B, E>, after: CollapsiblePart<B, Reregistered<E, L>>) -> bool {
    ||| part matches CollapsiblePart::Header(h) && after matches CollapsiblePart::Header(a) && {
        &&& a.wrapped() == h.wrapped()
        &&& a.handler() == kept_earlier::<E, L>(h.handler())
    }
    ||| part matches CollapsiblePart::Body(b) && after matches CollapsiblePart::Body(a) && a == b
}

/// The parts of `tree` under a later registration: headers keep their text
/// and their handler, bodies stay.
fn retype_tree<B, E, L>(tree: TuiColumn<CollapsiblePart<B, E>>) -> (r: TuiColumn<
    CollapsiblePart<B, Reregistered<E, L>>,
>)
    ensures
        r.laid_out_heights() == tree.laid_out_heights(),
        r.child_count() == tree.child_count(),
        forall|j: int|
            0 <= j < tree.child_count() ==> #[trigger] retyped(
                tree.children_view()[j],
                r.children_view()[j],
            ),
{
    let (mut parts, heights) = tree.into_parts();
    let ghost old_parts = parts@;
    let mut out: Vec<CollapsiblePart<B, Reregistered<E, L>>> = Vec::new();
    while parts.len() > 0
        invariant
            out@.len() + parts@.len() == old_parts.len(),
            parts@ == old_parts.skip(out@.len() as int),
            forall|j: int| 0 <= j < out@.len() ==> #[trigger] retyped(old_parts[j], out@[j]),
        decreases parts@.len(),
    {
        let part = parts.remove(0);
        let ghost k = out@.len();
        assert(part == old_parts[k as int]);
        let next = match part {
            CollapsiblePart::Header(h) => {
                let (child, handler) = h.into_parts();
                let kept = match handler {
                    Some(e) => Some(Reregistered::Earlier(e)),
                    None => None,
                };
                CollapsiblePart::Header(TuiHoverable::with_handler(child, kept))
            },
            CollapsiblePart::Body(b) => CollapsiblePart::Body(b),
        };
        out.push(next);
        assert(parts@ =~= old_parts.skip(out@.len() as int));
    }
    TuiColumn::from_parts(out, heights)
}

impl<B> TuiCollapsible<B, NoCallback> {
    /// Creates a collapsible with header `label` over `body`, disclosed when
    /// `collapsed` is `false`.
    pub fn new(collapsed: bool, label: &str, body: B) -> (r: TuiCollapsible<B, NoCallback>)
        ensures
            r.is_collapsed() == collapsed,
            r.label() == label@,
            r.header_style() == TuiStyle::plain(),
            r.collapsed_glyph() == DEFAULT_CHEVRON_COLLAPSED@,
            r.expanded_glyph() == DEFAULT_CHEVRON_EXPANDED@,
            r.held_body() == Some(body),
            r.toggle() is None,
            r.tree() is None,
    {
        TuiCollapsible {
            collapsed,
            header_label: label.to_owned(),
            header_style: TuiStyle::default(),
            chevron_collapsed: DEFAULT_CHEVRON_COLLAPSED.to_owned(),
            chevron_expanded: DEFAULT_CHEVRON_EXPANDED.to_owned(),
            body: Some(body),
            on_toggle: None,
            built: None,
        }
    }
}

impl<B, K> TuiCollapsible<B, K> {
    /// Registers `callback` to run when the header is clicked, replacing any
    /// handler registered before. A tree built before keeps its header and
    /// the handler it was built with.
    pub fn with_toggle_callback<L>(self, callback: L) -> (r: TuiCollapsible<B, Reregistered<K, L>>)
        ensures
            r.same_settings(&self),
            r.held_body() == self.held_body(),
            r.toggle() == Some(Reregistered::<K, L>::Latest(callback)),
            r.is_built() == self.is_built(),
            self.tree() matches Some(tree) ==> {
                let after = r.tree()->Some_0;
                &&& after.laid_out_heights() == tree.laid_out_heights()
                &&& after.child_count() == tree.child_count()
                &&& forall|j: int|
                    0 <= j < tree.child_count() ==> #[trigger] retyped(
                        tree.children_view()[j],
                        after.children_view()[j],
                    )
            },
    {
        let built = match self.built {
            Some(tree) => Some(retype_tree(tree)),
            None => None,
        };
        TuiCollapsible {
            collapsed: self.collapsed,
            header_label: self.header_label,
            header_style: self.header_style,
            chevron_collapsed: self.chevron_collapsed,
            chevron_expanded: self.chevron_expanded,
            body: self.body,
            on_toggle: Some(Reregistered::Latest(callback)),
            built,
        }
    }

    /// Registers `callback` to run when the header is clicked, replacing any
    /// handler registered before.
    pub fn on_toggle<F: Fn(&mut TuiEventContext)>(self, callback: F) -> (r: TuiCollapsible<
        B,
        Reregistered<K, FnCallback<F>>,
    >)
        requires
            forall|c: &mut TuiEventContext| call_requires(callback, (c,)),
        ensures
            r.same_settings(&self),
            r.held_body() == self.held_body(),
            r.toggle() matches Some(Reregistered::Latest(t)) && t.closure() == callback,
            r.is_built() == self.is_built(),
    {
        self.with_toggle_callback(FnCallback::new(callback))
    }
}

/// The size of a collapsible's header line within `constraint`.
pub open spec fn header_size(line: Seq<char>, constraint: TuiConstraint) -> TuiSize {
    text_size(text_rows(line, constraint.max.width as nat, true), constraint.max)
}

impl<B: TuiElement, K: TuiEventCallback> TuiCollapsible<B, K> {
    /// The size of the tree building makes, within `constraint`: the header
    /// row, then the body below it within the rows left when it is shown.
    pub open spec fn fresh_size(&self, constraint: TuiConstraint) -> TuiSize {
        let head = header_size(self.header_line(), constraint);
        let head_width = at_most(head.width, constraint.max.width);
        let head_height = at_most(head.height, constraint.max.height);
        if self.shows_body() {
            let rows = row_constraint(constraint, head_height as nat);
            let body = self.held_body()->Some_0.measure(rows);
            let body_width = at_most(body.width, constraint.max.width);
            TuiSize {
                width: if body_width > head_width {
                    body_width
                } else {
                    head_width
                },
                height: (head_height + at_most(body.height, rows.max.height)) as u16,
            }
        } else {
            TuiSize { width: head_width, height: head_height }
        }
    }

    /// A tree that building makes has the size `fresh_size` gives.
    pub proof fn lemma_fresh_measure(&self, tree: TuiColumn<CollapsiblePart<B, K>>, constraint: TuiConstraint)
        requires
            self.builds(tree),
        ensures
            tree.measure(constraint) == self.fresh_size(constraint),
    {
        reveal_with_fuel(crate::column::stack_heights, 3);
        reveal_with_fuel(crate::column::stack_width, 3);
        reveal_with_fuel(crate::column::total, 3);
        let kids = tree.children_view();
        let first = crate::column::stack_heights(kids, 1, constraint);
        assert(first.drop_last() =~= Seq::<u16>::empty());
        if self.shows_body() {
            let both = crate::column::stack_heights(kids, 2, constraint);
            assert(both.drop_last() =~= first);
        }
    }
}

impl<B: TuiElement, K: TuiEventCallback> TuiElement for TuiCollapsible<B, K> {
    /// The built tree's size; before building, the size of the tree
    /// building makes.
    open spec fn measure(&self, constraint: TuiConstraint) -> TuiSize {
        match self.tree() {
            Some(tree) => tree.measure(constraint),
            None => self.fresh_size(constraint),
        }
    }

    /// Built, with the settings kept, and the tree laid out: the one built
    /// before, or the one building makes now.
    open spec fn laid_out(&self, constraint: TuiConstraint, after: &Self) -> bool {
        &&& after.same_settings(self)
        &&& after.is_built()
        &&& match self.tree() {
            Some(tree) => {
                &&& tree.laid_out(constraint, &after.tree()->Some_0)
                &&& after.held_body() == self.held_body()
                &&& after.toggle() == self.toggle()
            },
            None => {
                &&& exists|fresh: TuiColumn<CollapsiblePart<B, K>>|
                    #[trigger] self.builds(fresh) && fresh.laid_out(
                        constraint,
                        &after.tree()->Some_0,
                    )
                &&& self.holds_after_build(after)
            },
        }
    }

    /// What the built tree draws; nothing before it is built.
    open spec fn draw(&self, area: TuiRect, cells: CellMap) -> CellMap {
        match self.tree() {
            Some(tree) => tree.draw(area, cells),
            None => cells,
        }
    }

    /// What the built tree answers; a tree built by the event itself has not
    /// been laid out and answers nothing.
    open spec fn handles(&self, event: TuiEvent, area: TuiRect) -> bool {
        match self.tree() {
            Some(tree) => tree.handles(event, area),
            None => false,
        }
    }

    open spec fn responds(
        &self,
        event: TuiEvent,
        area: TuiRect,
        before: TuiEventContext,
        after: TuiEventContext,
    ) -> bool {
        match self.tree() {
            Some(tree) => tree.responds(event, area, before, after),
            None => after == before,
        }
    }

    open spec fn after_event(&self, event: TuiEvent, area: TuiRect, after: &Self) -> bool {
        &&& after.same_settings(self)
        &&& after.is_built()
        &&& match self.tree() {
            Some(tree) => {
                &&& tree.after_event(event, area, &after.tree()->Some_0)
                &&& after.held_body() == self.held_body()
                &&& after.toggle() == self.toggle()
            },
            None => {
                &&& exists|fresh: TuiColumn<CollapsiblePart<B, K>>|
                    #[trigger] self.builds(fresh) && fresh.after_event(
                        event,
                        area,
                        &after.tree()->Some_0,
                    )
                &&& self.holds_after_build(after)
            },
        }
    }

    fn layout(&mut self, constraint: TuiConstraint) -> (r: TuiSize) {
        self.ensure_built();
        let ghost fresh = self.built->Some_0;
        proof {
            if !old(self).is_built() {
                old(self).lemma_fresh_measure(fresh, constraint);
            }
        }
        match &mut self.built {
            Some(built) => built.layout(constraint),
            None => TuiSize::zero(),
        }
    }

    fn render(&self, area: TuiRect, buffer: &mut TuiBuffer) {
        match &self.built {
            Some(built) => built.render(area, buffer),
            None => {},
        }
    }

    fn cursor_position(&self, area: TuiRect) -> (r: Option<(u16, u16)>) {
        match &self.built {
            Some(built) => built.cursor_position(area),
            None => None,
        }
    }

    fn dispatch_event(
        &mut self,
        event: &TuiEvent,
        area: TuiRect,
        event_ctx: &mut TuiEventContext,
    ) -> (r: bool) {
        self.ensure_built();
        let ghost fresh = self.built->Some_0;
        proof {
            if !old(self).is_built() {
                reveal_with_fuel(crate::column::any_handles, 1);
            }
        }
        match &mut self.built {
            Some(built) => built.dispatch_event(event, area, event_ctx),
            None => false,
        }
    }
}

/// A part measures after layout as before, when its body's type keeps its
/// measure through layout.
proof fn lemma_part_relaid<B: TuiElement, K: TuiEventCallback>(
    part: CollapsiblePart<B, K>,
    after: CollapsiblePart<B, K>,
    constraint: TuiConstraint,
    any: TuiConstraint,
)
    requires
        layout_keeps_measure::<B>(),
        part.laid_out(constraint, &after),
    ensures
        after.measure(any) == part.measure(any),
{
    match part {
        CollapsiblePart::Body(b) => {
            let a = after->Body_0;
            assert(b.laid_out(constraint, &a));
            assert(a.measure(any) == b.measure(any));
        },
        CollapsiblePart::Header(_) => {},
    }
}

/// Whether each part of `tree` measures, in every constraint, as the part of
/// `after` at the same place.
pub open spec fn measures_alike<B: TuiElement, K: TuiEventCallback>(
    tree: TuiColumn<CollapsiblePart<B, K>>,
    after: TuiColumn<CollapsiblePart<B, K>>,
) -> bool {
    &&& tree.child_count() == after.child_count()
    &&& forall|j: int, any: TuiConstraint|
        0 <= j < tree.child_count() ==> #[trigger] tree.children_view()[j].measure(any)
            == after.children_view()[j].measure(any)
}

/// Laying out a tree whose body's type keeps its measure through layout
/// leaves parts that measure as before.
proof fn lemma_tree_relaid<B: TuiElement, K: TuiEventCallback>(
    tree: TuiColumn<CollapsiblePart<B, K>>,
    after: TuiColumn<CollapsiblePart<B, K>>,
    constraint: TuiConstraint,
)
    requires
        layout_keeps_measure::<B>(),
        tree.laid_out(constraint, &after),
    ensures
        measures_alike(tree, after),
{
    assert forall|j: int, any: TuiConstraint|
        0 <= j < tree.child_count() implies #[trigger] tree.children_view()[j].measure(any)
        == after.children_view()[j].measure(any) by {
        lemma_part_relaid(
            tree.children_view()[j],
            after.children_view()[j],
            crate::column::stack_constraint(tree.children_view(), j, constraint),
            any,
        );
    }
}

/// Layout builds a collapsible at most once, and, when its body's type keeps
/// its measure through layout, changes neither its size nor what it holds:
/// laid out again, in any constraint, it measures as before, and once built
/// it keeps its body, its toggle and its settings.
pub proof fn law_layout_keeps_size<B: TuiElement, K: TuiEventCallback>(
    before: TuiCollapsible<B, K>,
    after: TuiCollapsible<B, K>,
    constraint: TuiConstraint,
    any: TuiConstraint,
)
    requires
        layout_keeps_measure::<B>(),
        before.laid_out(constraint, &after),
    ensures
        after.is_built(),
        after.same_settings(&before),
        after.measure(any) == before.measure(any),
        before.is_built() ==> after.held_body() == before.held_body() && after.toggle()
            == before.toggle(),
{
    let tree = after.tree()->Some_0;
    match before.tree() {
        Some(old_tree) => {
            lemma_tree_relaid(old_tree, tree, constraint);
            lemma_column_congruent(old_tree, tree, any);
        },
        None => {
            let fresh = choose|fresh: TuiColumn<CollapsiblePart<B, K>>|
                #[trigger] before.builds(fresh) && fresh.laid_out(constraint, &tree);
            lemma_tree_relaid(fresh, tree, constraint);
            lemma_column_congruent(fresh, tree, any);
            before.lemma_fresh_measure(fresh, any);
        },
    }
}

/// Whether `glyph` holds no newline.
pub open spec fn one_line(glyph: Seq<char>) -> bool {
    forall|i: int| 0 <= i < glyph.len() ==> glyph[i] != '\n'
}

/// Collapsing shortens a section: of two collapsibles that differ only in
/// their state, not built yet, with glyphs of one line each, the collapsed
/// one is no taller than the expanded one in any constraint, which adds its
/// body's height below the same header.
pub proof fn law_collapsing_shortens<B: TuiElement, K: TuiEventCallback>(
    collapsed: TuiCollapsible<B, K>,
    expanded: TuiCollapsible<B, K>,
    constraint: TuiConstraint,
)
    requires
        collapsed.is_collapsed(),
        !expanded.is_collapsed(),
        collapsed.label() == expanded.label(),
        collapsed.collapsed_glyph() == expanded.collapsed_glyph(),
        collapsed.expanded_glyph() == expanded.expanded_glyph(),
        one_line(collapsed.collapsed_glyph()),
        one_line(collapsed.expanded_glyph()),
        !collapsed.is_built(),
        !expanded.is_built(),
    ensures
        collapsed.measure(constraint).height <= expanded.measure(constraint).height,
        collapsed.measure(constraint).height == at_most(
            header_size(collapsed.header_line(), constraint).height,
            constraint.max.height,
        ),
{
    let stem = collapsed.label().push(' ');
    lemma_split_lines_append(stem, collapsed.collapsed_glyph());
    lemma_split_lines_append(stem, collapsed.expanded_glyph());
    let w = constraint.max.width as nat;
    lemma_truncated_row_count(split_lines(collapsed.header_line()), w);
    lemma_truncated_row_count(split_lines(expanded.header_line()), w);
}

/// A collapsible not built yet is as tall as its header line has lines,
/// plus, when it shows its body, the body's natural height, cut at the rows
/// available.
pub proof fn lemma_fresh_natural<B: TuiElement, K: TuiEventCallback>(
    k: TuiCollapsible<B, K>,
    width: u16,
    body_rows: nat,
)
    requires
        !k.is_built(),
        k.shows_body() ==> natural_height(k.held_body()->Some_0, width, body_rows),
    ensures
        natural_height(
            k,
            width,
            split_lines(k.header_line()).len() + if k.shows_body() {
                body_rows
            } else {
                0nat
            },
        ),
{
    let line = k.header_line();
    lemma_truncated_row_count(split_lines(line), width as nat);
    assert forall|constraint: TuiConstraint| constraint.max.width == width implies #[trigger] k.measure(
        constraint,
    ).height == min_rows(
        split_lines(line).len() + if k.shows_body() {
            body_rows
        } else {
            0nat
        },
        constraint.max.height,
    ) by {
        if k.shows_body() {
            let head = at_most(header_size(line, constraint).height, constraint.max.height);
            let rows = row_constraint(constraint, head as nat);
            assert(k.held_body()->Some_0.measure(rows).height == min_rows(
                body_rows,
                rows.max.height,
            ));
        }
    }
}

/// What a collapsible shows once its first layout built it: the header
/// line, cut at the width, in the header style, in the header's area at the
/// top; then, only when it is expanded, what its body, laid out in the rows
/// below the header, draws in the area below.
pub proof fn law_laid_out_collapsible_draws<B: TuiElement, K: TuiEventCallback>(
    before: TuiCollapsible<B, K>,
    after: TuiCollapsible<B, K>,
    constraint: TuiConstraint,
    area: TuiRect,
    cells: CellMap,
)
    requires
        !before.is_built(),
        before.laid_out(constraint, &after),
    ensures
        ({
            let tree = after.tree()->Some_0;
            let heights = tree.laid_out_heights();
            let header = paint_rows(
                cells,
                text_rows(before.header_line(), area.width as nat, true),
                child_area(area, heights, 0),
                before.header_style(),
            );
            &&& heights.len() == tree.child_count()
            &&& after.draw(area, cells) == if before.shows_body() {
                tree.children_view()[1]->Body_0.draw(child_area(area, heights, 1), header)
            } else {
                header
            }
            &&& before.shows_body() ==> before.held_body()->Some_0.laid_out(
                row_constraint(constraint, heights[0] as nat),
                &tree.children_view()[1]->Body_0,
            )
        }),
{
    let tree = after.tree()->Some_0;
    let fresh = choose|fresh: TuiColumn<CollapsiblePart<B, K>>|
        #[trigger] before.builds(fresh) && fresh.laid_out(constraint, &tree);
    let kids = fresh.children_view();
    let kids2 = tree.children_view();
    let n = fresh.child_count();
    let heights = tree.laid_out_heights();
    lemma_stack_heights(kids, n, constraint);
    assert(kids[0].laid_out(crate::column::stack_constraint(kids, 0, constraint), &kids2[0]));
    let header = kids[0]->Header_0;
    let header2 = kids2[0]->Header_0;
    assert(header2.wrapped() == header.wrapped());
    reveal_with_fuel(crate::column::draw_stack, 3);
    if before.shows_body() {
        assert(kids[1].laid_out(crate::column::stack_constraint(kids, 1, constraint), &kids2[1]));
        lemma_stack_prefix(kids, 1, n, constraint);
        let first = stack_heights(kids, 1, constraint);
        assert(first.drop_last() =~= Seq::<u16>::empty());
        assert(heights.take(1) == first);
        assert(heights[0] == first[0]);
    }
}

/// A part draws after an event as before, when its body's type does.
proof fn lemma_part_event_keeps_drawing<B: TuiElement, K: TuiEventCallback>(
    part: CollapsiblePart<B, K>,
    after: CollapsiblePart<B, K>,
    event: TuiEvent,
    area: TuiRect,
)
    requires
        event_keeps_drawing::<B>(),
        part.after_event(event, area, &after),
    ensures
        forall|at: TuiRect, cells: CellMap| #[trigger] after.draw(at, cells) == part.draw(at, cells),
{
    assert forall|at: TuiRect, cells: CellMap| #[trigger] after.draw(at, cells) == part.draw(at, cells)
        by {
        match part {
            CollapsiblePart::Body(b) => {
                let a = after->Body_0;
                assert(b.after_event(event, area, &a));
                assert(a.draw(at, cells) == b.draw(at, cells));
            },
            CollapsiblePart::Header(_) => {},
        }
    }
}

/// The collapsible never changes itself on an event: once built by its
/// first layout, a collapsible whose body's type draws after events as
/// before keeps its state, its header and its drawing through any event; it
/// is the caller that owns the state and renders again.
pub proof fn law_event_keeps_drawing<B: TuiElement, K: TuiEventCallback>(
    before: TuiCollapsible<B, K>,
    after: TuiCollapsible<B, K>,
    event: TuiEvent,
    area: TuiRect,
    at: TuiRect,
    cells: CellMap,
)
    requires
        event_keeps_drawing::<B>(),
        before.is_built(),
        before.after_event(event, area, &after),
    ensures
        after.same_settings(&before),
        after.header_line() == before.header_line(),
        after.draw(at, cells) == before.draw(at, cells),
{
    let tree = before.tree()->Some_0;
    let tree2 = after.tree()->Some_0;
    let kids = tree.children_view();
    let kids2 = tree2.children_view();
    assert forall|j: int, r: TuiRect, m: CellMap|
        0 <= j < tree.placed() implies #[trigger] kids2[j].draw(r, m) == kids[j].draw(r, m) by {
        if kids2[j] != kids[j] {
            lemma_part_event_keeps_drawing(kids[j], kids2[j], event, tree.area_of_child(area, j));
        }
    }
    lemma_draw_stack_congruent(
        kids2,
        kids,
        tree.laid_out_heights(),
        at,
        tree.placed(),
        cells,
    );
}

} // verus!
