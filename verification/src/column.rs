//! `TuiColumn`: children stacked top to bottom, each as tall as it asked to
//! be, within the height available.

use vstd::prelude::*;

use crate::buffer::{CellMap, TuiBuffer};
use crate::element::TuiElement;
use crate::event::{TuiEvent, TuiEventContext};
use crate::geometry::{TuiConstraint, TuiRect, TuiSize};

verus! {

/// The sum of `heights`.
pub open spec fn total(heights: Seq<u16>) -> nat
    decreases heights.len(),
{
    if heights.len() == 0 {
        0
    } else {
        total(heights.drop_last()) + heights.last() as nat
    }
}

/// `a`, or `b` when that is smaller.
pub open spec fn at_most(a: u16, b: u16) -> u16 {
    if a < b {
        a
    } else {
        b
    }
}

/// The constraint a child of a column gets within `constraint` once the
/// children above it took `used` rows: the column's width bounds and the
/// rows left.
pub open spec fn row_constraint(constraint: TuiConstraint, used: nat) -> TuiConstraint {
    TuiConstraint {
        min: TuiSize { width: constraint.min.width, height: 0 },
        max: TuiSize { width: constraint.max.width, height: (constraint.max.height - used) as u16 },
    }
}

/// The heights the first `n` of `children` get when laid out in a column
/// within `constraint`: each its measured height, cut at the rows left.
pub open spec fn stack_heights<C: TuiElement>(
    children: Seq<C>,
    n: nat,
    constraint: TuiConstraint,
) -> Seq<u16>
    decreases n,
{
    if n == 0 {
        Seq::empty()
    } else {
        let above = stack_heights(children, (n - 1) as nat, constraint);
        let rows = row_constraint(constraint, total(above));
        above.push(at_most(children[n - 1].measure(rows).height, rows.max.height))
    }
}

/// The constraint child `i` of a column of `children` gets within
/// `constraint`.
pub open spec fn stack_constraint<C: TuiElement>(
    children: Seq<C>,
    i: int,
    constraint: TuiConstraint,
) -> TuiConstraint {
    row_constraint(constraint, total(stack_heights(children, i as nat, constraint)))
}

/// The width the first `n` of `children` take in a column within
/// `constraint`: the widest of their measured widths, each cut at the
/// column's width.
pub open spec fn stack_width<C: TuiElement>(
    children: Seq<C>,
    n: nat,
    constraint: TuiConstraint,
) -> u16
    decreases n,
{
    if n == 0 {
        0
    } else {
        let before = stack_width(children, (n - 1) as nat, constraint);
        let w = at_most(
            children[n - 1].measure(stack_constraint(children, n - 1, constraint)).width,
            constraint.max.width,
        );
        if w > before {
            w
        } else {
            before
        }
    }
}

/// The area of child `i` of a column laid out with `heights` in `area`: it
/// starts below the children before it and is cut at the bottom of `area`.
pub open spec fn child_area(area: TuiRect, heights: Seq<u16>, i: int) -> TuiRect {
    let bottom = area.spec_bottom() as int;
    let top = if area.y + total(heights.take(i)) < bottom {
        area.y + total(heights.take(i))
    } else {
        bottom
    };
    let height = if heights[i] < bottom - top {
        heights[i] as int
    } else {
        bottom - top
    };
    TuiRect { x: area.x, y: top as u16, width: area.width, height: height as u16 }
}

/// The cells after the first `k` of `children` draw in their areas.
pub open spec fn draw_stack<C: TuiElement>(
    children: Seq<C>,
    heights: Seq<u16>,
    area: TuiRect,
    k: nat,
    cells: CellMap,
) -> CellMap
    decreases k,
{
    if k == 0 {
        cells
    } else {
        children[k - 1].draw(
            child_area(area, heights, k - 1),
            draw_stack(children, heights, area, (k - 1) as nat, cells),
        )
    }
}

/// Whether one of the first `k` of `children` handles `event` in its area.
pub open spec fn any_handles<C: TuiElement>(
    children: Seq<C>,
    heights: Seq<u16>,
    area: TuiRect,
    event: TuiEvent,
    k: nat,
) -> bool
    decreases k,
{
    if k == 0 {
        false
    } else {
        any_handles(children, heights, area, event, (k - 1) as nat) || children[k - 1].handles(
            event,
            child_area(area, heights, k - 1),
        )
    }
}

/// Whether offering `event` to children `i..m` in order, until one handles
/// it, may turn the context `before` into `after`.
pub open spec fn responds_from<C: TuiElement>(
    children: Seq<C>,
    heights: Seq<u16>,
    area: TuiRect,
    event: TuiEvent,
    m: int,
    i: int,
    before: TuiEventContext,
    after: TuiEventContext,
) -> bool
    decreases m - i,
{
    if i >= m {
        after == before
    } else {
        exists|mid: TuiEventContext|
            #![trigger children[i].responds(event, child_area(area, heights, i), before, mid)]
            children[i].responds(event, child_area(area, heights, i), before, mid) && if children[i].handles(
                event,
                child_area(area, heights, i),
            ) {
                after == mid
            } else {
                responds_from(children, heights, area, event, m, i + 1, mid, after)
            }
    }
}

/// `n`, or `rows` when that is fewer.
pub open spec fn min_rows(n: nat, rows: u16) -> nat {
    if n < rows {
        n
    } else {
        rows as nat
    }
}

/// The sum of `ns`.
pub open spec fn sum_rows(ns: Seq<nat>) -> nat
    decreases ns.len(),
{
    if ns.len() == 0 {
        0
    } else {
        sum_rows(ns.drop_last()) + ns.last()
    }
}

/// Whether `e`, given `width` columns, is `n` rows tall, cut at the rows it
/// is given, whatever else the constraint says.
pub open spec fn natural_height<E: TuiElement>(e: E, width: u16, n: nat) -> bool {
    forall|constraint: TuiConstraint|
        constraint.max.width == width ==> #[trigger] e.measure(constraint).height == min_rows(
            n,
            constraint.max.height,
        )
}

proof fn lemma_total_take(heights: Seq<u16>, i: int)
    requires
        0 <= i < heights.len(),
    ensures
        total(heights.take(i + 1)) == total(heights.take(i)) + heights[i],
{
    assert(heights.take(i + 1).drop_last() =~= heights.take(i));
}

/// A column lays out as many heights as children, within the height and
/// width available.
pub proof fn lemma_stack_heights<C: TuiElement>(children: Seq<C>, n: nat, constraint: TuiConstraint)
    ensures
        stack_heights(children, n, constraint).len() == n,
        total(stack_heights(children, n, constraint)) <= constraint.max.height,
        stack_width(children, n, constraint) <= constraint.max.width,
    decreases n,
{
    if n > 0 {
        lemma_stack_heights(children, (n - 1) as nat, constraint);
        let above = stack_heights(children, (n - 1) as nat, constraint);
        let next = stack_heights(children, n, constraint);
        assert(next.drop_last() =~= above);
    }
}

/// Children laid out in a vertical stack.
pub struct TuiColumn<C> {
    children: Vec<C>,
    heights: Vec<u16>,
}

impl<C> TuiColumn<C> {
    /// The children, top to bottom.
    pub closed spec fn children_view(&self) -> Seq<C> {
        self.children@
    }

    /// The number of children.
    pub open spec fn child_count(&self) -> nat {
        self.children_view().len()
    }

    /// The height each child got at the last layout.
    pub closed spec fn laid_out_heights(&self) -> Seq<u16> {
        self.heights@
    }

    /// The number of children that have an area: those laid out.
    pub open spec fn placed(&self) -> nat {
        if self.child_count() < self.laid_out_heights().len() {
            self.child_count()
        } else {
            self.laid_out_heights().len()
        }
    }

    /// The area of child `i` within `area`, by the last layout.
    pub open spec fn area_of_child(&self, area: TuiRect, i: int) -> TuiRect {
        child_area(area, self.laid_out_heights(), i)
    }

    /// A column without children.
    pub fn new() -> (r: TuiColumn<C>)
        ensures
            r.children_view() == Seq::<C>::empty(),
            r.laid_out_heights() == Seq::<u16>::empty(),
    {
        TuiColumn { children: Vec::new(), heights: Vec::new() }
    }

    /// This column with `child` added at the bottom.
    pub fn child(self, child: C) -> (r: TuiColumn<C>)
        ensures
            r.children_view() == self.children_view().push(child),
            r.laid_out_heights() == self.laid_out_heights(),
    {
        let mut column = self;
        column.children.push(child);
        column
    }

    /// Takes the column apart into its children and the heights of the last
    /// layout.
    pub fn into_parts(self) -> (r: (Vec<C>, Vec<u16>))
        ensures
            r.0@ == self.children_view(),
            r.1@ == self.laid_out_heights(),
    {
        (self.children, self.heights)
    }

    /// A column of `children` with `heights` recorded as the last layout.
    pub fn from_parts(children: Vec<C>, heights: Vec<u16>) -> (r: TuiColumn<C>)
        ensures
            r.children_view() == children@,
            r.laid_out_heights() == heights@,
    {
        TuiColumn { children, heights }
    }

    /// The area of child `i` within `area`, given the heights above it
    /// (capped at a height no area reaches).
    fn area_of(&self, area: TuiRect, i: usize, offset: u32) -> (r: TuiRect)
        requires
            i < self.heights@.len(),
            offset == (if total(self.heights@.take(i as int)) < 65536 {
                total(self.heights@.take(i as int))
            } else {
                65536
            }),
        ensures
            r == child_area(area, self.heights@, i as int),
    {
        let bottom = area.bottom() as u32;
        let top = if (area.y as u32) + offset < bottom {
            (area.y as u32) + offset
        } else {
            bottom
        };
        let h = self.heights[i] as u32;
        let height = if h < bottom - top {
            h
        } else {
            bottom - top
        };
        TuiRect { x: area.x, y: top as u16, width: area.width, height: height as u16 }
    }
}

/// The heights above child `i + 1`, capped as `area_of` expects.
fn next_offset(offset: u32, height: u16) -> (r: u32)
    requires
        offset <= 65536,
    ensures
        r == (if offset + height < 65536 {
            offset + height
        } else {
            65536
        }),
{
    if offset + (height as u32) < 65536 {
        offset + height as u32
    } else {
        65536
    }
}

impl<C: TuiElement> TuiElement for TuiColumn<C> {
    /// As wide as the widest child, as tall as the children's heights
    /// together.
    open spec fn measure(&self, constraint: TuiConstraint) -> TuiSize {
        TuiSize {
            width: stack_width(self.children_view(), self.child_count(), constraint),
            height: total(stack_heights(self.children_view(), self.child_count(), constraint)) as u16,
        }
    }

    /// Each child laid out within the rows left by those above it, and the
    /// heights recorded.
    open spec fn laid_out(&self, constraint: TuiConstraint, after: &Self) -> bool {
        &&& after.child_count() == self.child_count()
        &&& after.laid_out_heights() == stack_heights(
            self.children_view(),
            self.child_count(),
            constraint,
        )
        &&& forall|j: int|
            0 <= j < self.child_count() ==> #[trigger] self.children_view()[j].laid_out(
                stack_constraint(self.children_view(), j, constraint),
                &after.children_view()[j],
            )
    }

    /// Each placed child draws in its area, top to bottom.
    open spec fn draw(&self, area: TuiRect, cells: CellMap) -> CellMap {
        draw_stack(self.children_view(), self.laid_out_heights(), area, self.placed(), cells)
    }

    /// Handled when a placed child handles it in its area.
    open spec fn handles(&self, event: TuiEvent, area: TuiRect) -> bool {
        any_handles(self.children_view(), self.laid_out_heights(), area, event, self.placed())
    }

    /// The placed children respond in order until one handles the event.
    open spec fn responds(
        &self,
        event: TuiEvent,
        area: TuiRect,
        before: TuiEventContext,
        after: TuiEventContext,
    ) -> bool {
        responds_from(
            self.children_view(),
            self.laid_out_heights(),
            area,
            event,
            self.placed() as int,
            0,
            before,
            after,
        )
    }

    /// The heights stay; each child either stays or changes as the event
    /// may change it.
    open spec fn after_event(&self, event: TuiEvent, area: TuiRect, after: &Self) -> bool {
        &&& after.child_count() == self.child_count()
        &&& after.laid_out_heights() == self.laid_out_heights()
        &&& forall|j: int|
            0 <= j < self.child_count() ==> after.children_view()[j] == self.children_view()[j]
                || #[trigger] self.children_view()[j].after_event(
                event,
                self.area_of_child(area, j),
                &after.children_view()[j],
            )
    }

    fn layout(&mut self, constraint: TuiConstraint) -> (r: TuiSize) {
        let ghost kids = self.children@;
        let ghost n = kids.len();
        let mut heights: Vec<u16> = Vec::new();
        let mut used: u16 = 0;
        let mut width: u16 = 0;
        let mut i: usize = 0;
        let count = self.children.len();
        while i < count
            invariant
                count == kids.len(),
                n == kids.len(),
                self.children@.len() == n,
                i <= n,
                heights@ == stack_heights(kids, i as nat, constraint),
                used == total(heights@),
                used <= constraint.max.height,
                width == stack_width(kids, i as nat, constraint),
                forall|j: int| i <= j < n ==> self.children@[j] == kids[j],
                forall|j: int|
                    0 <= j < i ==> #[trigger] kids[j].laid_out(
                        stack_constraint(kids, j, constraint),
                        &self.children@[j],
                    ),
            decreases n - i,
        {
            proof {
                lemma_stack_heights(kids, i as nat, constraint);
            }
            let remaining = constraint.max.height - used;
            let child_constraint = TuiConstraint {
                min: TuiSize { width: constraint.min.width, height: 0 },
                max: TuiSize { width: constraint.max.width, height: remaining },
            };
            assert(child_constraint == stack_constraint(kids, i as int, constraint));
            let size = self.children[i].layout(child_constraint);
            let h = if size.height < remaining {
                size.height
            } else {
                remaining
            };
            let w = if size.width < constraint.max.width {
                size.width
            } else {
                constraint.max.width
            };
            if w > width {
                width = w;
            }
            let ghost before = heights@;
            heights.push(h);
            assert(heights@.drop_last() =~= before);
            used = used + h;
            i = i + 1;
        }
        self.heights = heights;
        TuiSize { width, height: used }
    }

    fn render(&self, area: TuiRect, buffer: &mut TuiBuffer) {
        let n = if self.children.len() < self.heights.len() {
            self.children.len()
        } else {
            self.heights.len()
        };
        let mut offset: u32 = 0;
        let mut i: usize = 0;
        while i < n
            invariant
                n == self.placed(),
                i <= n,
                offset == (if total(self.heights@.take(i as int)) < 65536 {
                    total(self.heights@.take(i as int))
                } else {
                    65536
                }),
                buffer.spec_area() == old(buffer).spec_area(),
                buffer@ == draw_stack(self.children@, self.heights@, area, i as nat, old(buffer)@),
            decreases n - i,
        {
            let child_rect = self.area_of(area, i, offset);
            self.children[i].render(child_rect, buffer);
            proof {
                lemma_total_take(self.heights@, i as int);
            }
            offset = next_offset(offset, self.heights[i]);
            i = i + 1;
        }
    }

    fn dispatch_event(
        &mut self,
        event: &TuiEvent,
        area: TuiRect,
        event_ctx: &mut TuiEventContext,
    ) -> (r: bool) {
        let ghost kids = self.children@;
        let ghost hs = self.heights@;
        let ghost start = *event_ctx;
        let n = if self.children.len() < self.heights.len() {
            self.children.len()
        } else {
            self.heights.len()
        };
        let mut offset: u32 = 0;
        let mut i: usize = 0;
        while i < n
            invariant
                n == old(self).placed(),
                kids == old(self).children@,
                hs == old(self).heights@,
                start == *old(event_ctx),
                self.children@.len() == kids.len(),
                self.heights@ == hs,
                i <= n,
                offset == (if total(hs.take(i as int)) < 65536 {
                    total(hs.take(i as int))
                } else {
                    65536
                }),
                !any_handles(kids, hs, area, *event, i as nat),
                forall|j: int| i <= j < kids.len() ==> self.children@[j] == kids[j],
                forall|j: int|
                    0 <= j < i ==> #[trigger] kids[j].after_event(
                        *event,
                        child_area(area, hs, j),
                        &self.children@[j],
                    ),
                forall|fin: TuiEventContext|
                    #[trigger] responds_from(kids, hs, area, *event, n as int, i as int, *event_ctx, fin)
                        ==> responds_from(kids, hs, area, *event, n as int, 0, start, fin),
            decreases n - i,
        {
            let child_rect = self.area_of(area, i, offset);
            let ghost now = *event_ctx;
            let handled = self.children[i].dispatch_event(event, child_rect, event_ctx);
            let ghost next = *event_ctx;
            assert(kids[i as int].responds(*event, child_area(area, hs, i as int), now, next));
            assert(handled == kids[i as int].handles(*event, child_area(area, hs, i as int)));
            if handled {
                assert(responds_from(kids, hs, area, *event, n as int, i as int, now, next));
                assert(any_handles(kids, hs, area, *event, (i + 1) as nat));
                proof {
                    lemma_any_handles_grows(kids, hs, area, *event, (i + 1) as nat, n as nat);
                }
                return true;
            }
            assert forall|fin: TuiEventContext|
                #[trigger] responds_from(kids, hs, area, *event, n as int, i + 1, next, fin)
                    implies responds_from(kids, hs, area, *event, n as int, 0, start, fin) by {
                assert(responds_from(kids, hs, area, *event, n as int, i as int, now, fin));
            }
            proof {
                lemma_total_take(hs, i as int);
            }
            offset = next_offset(offset, self.heights[i]);
            i = i + 1;
        }
        assert(responds_from(kids, hs, area, *event, n as int, n as int, *event_ctx, *event_ctx));
        false
    }
}

/// The heights of the first `k` children do not depend on the children
/// below them.
pub proof fn lemma_stack_prefix<C: TuiElement>(
    children: Seq<C>,
    k: nat,
    m: nat,
    constraint: TuiConstraint,
)
    requires
        k <= m,
    ensures
        stack_heights(children, m, constraint).take(k as int) == stack_heights(
            children,
            k,
            constraint,
        ),
    decreases m,
{
    lemma_stack_heights(children, m, constraint);
    lemma_stack_heights(children, k, constraint);
    if k == m {
        assert(stack_heights(children, m, constraint).take(k as int) =~= stack_heights(
            children,
            m,
            constraint,
        ));
    } else {
        lemma_stack_prefix(children, k, (m - 1) as nat, constraint);
        let all = stack_heights(children, m, constraint);
        assert(all.drop_last() == stack_heights(children, (m - 1) as nat, constraint));
        assert(all.take(k as int) =~= all.drop_last().take(k as int));
    }
}

/// Children that measure alike stack alike.
pub proof fn lemma_stack_congruent<C: TuiElement>(
    a: Seq<C>,
    b: Seq<C>,
    n: nat,
    constraint: TuiConstraint,
)
    requires
        forall|j: int, any: TuiConstraint|
            0 <= j < n ==> #[trigger] a[j].measure(any) == b[j].measure(any),
    ensures
        stack_heights(a, n, constraint) == stack_heights(b, n, constraint),
        stack_width(a, n, constraint) == stack_width(b, n, constraint),
    decreases n,
{
    if n > 0 {
        lemma_stack_congruent(a, b, (n - 1) as nat, constraint);
        let rows = stack_constraint(a, n - 1, constraint);
        assert(a[n - 1].measure(rows) == b[n - 1].measure(rows));
    }
}

proof fn lemma_stack_natural<C: TuiElement>(
    children: Seq<C>,
    ns: Seq<nat>,
    k: nat,
    constraint: TuiConstraint,
)
    requires
        k <= ns.len(),
        forall|j: int| 0 <= j < k ==> #[trigger] natural_height(children[j], constraint.max.width, ns[j]),
    ensures
        total(stack_heights(children, k, constraint)) == min_rows(
            sum_rows(ns.take(k as int)),
            constraint.max.height,
        ),
    decreases k,
{
    if k == 0 {
        assert(ns.take(0) =~= Seq::<nat>::empty());
    } else {
        lemma_stack_natural(children, ns, (k - 1) as nat, constraint);
        lemma_stack_heights(children, (k - 1) as nat, constraint);
        let above = stack_heights(children, (k - 1) as nat, constraint);
        let rows = row_constraint(constraint, total(above));
        assert(natural_height(children[k - 1], constraint.max.width, ns[k - 1]));
        assert(children[k - 1].measure(rows).height == min_rows(ns[k - 1], rows.max.height));
        let all = stack_heights(children, k, constraint);
        assert(all.drop_last() =~= above);
        assert(ns.take(k as int).drop_last() =~= ns.take(k - 1));
    }
}

/// A column of children with natural heights is as tall as their sum, cut
/// at the rows it is given.
pub proof fn lemma_column_natural<C: TuiElement>(column: TuiColumn<C>, width: u16, ns: Seq<nat>)
    requires
        ns.len() == column.child_count(),
        forall|j: int|
            0 <= j < ns.len() ==> #[trigger] natural_height(column.children_view()[j], width, ns[j]),
    ensures
        natural_height(column, width, sum_rows(ns)),
{
    assert forall|constraint: TuiConstraint| constraint.max.width == width implies #[trigger] column.measure(
        constraint,
    ).height == min_rows(sum_rows(ns), constraint.max.height) by {
        lemma_stack_natural(column.children_view(), ns, ns.len(), constraint);
        assert(ns.take(ns.len() as int) =~= ns);
        lemma_stack_heights(column.children_view(), ns.len(), constraint);
    }
}

/// The sum of rows grows with each of them.
pub proof fn lemma_sum_rows_monotone(a: Seq<nat>, b: Seq<nat>)
    requires
        a.len() == b.len(),
        forall|j: int| 0 <= j < a.len() ==> #[trigger] a[j] <= b[j],
    ensures
        sum_rows(a) <= sum_rows(b),
    decreases a.len(),
{
    if a.len() > 0 {
        lemma_sum_rows_monotone(a.drop_last(), b.drop_last());
    }
}

proof fn lemma_total_grows(heights: Seq<u16>, i: int, j: int)
    requires
        0 <= i < j <= heights.len(),
    ensures
        total(heights.take(j)) >= total(heights.take(i)) + heights[i],
    decreases j - i,
{
    lemma_total_take(heights, i);
    if j > i + 1 {
        lemma_total_grows(heights, i, j - 1);
        lemma_total_take(heights, j - 1);
    }
}

/// Within an area that fits on the screen, a child's area lies inside it.
pub proof fn lemma_child_area_within(area: TuiRect, heights: Seq<u16>, i: int, x: int, y: int)
    requires
        area.y + area.height <= u16::MAX,
        0 <= i < heights.len(),
        child_area(area, heights, i).holds(x, y),
    ensures
        area.holds(x, y),
        child_area(area, heights, i).y + child_area(area, heights, i).height <= u16::MAX,
{
}

/// Within an area that fits on the screen, the top row of a child's area
/// lies below the area of every child above it.
pub proof fn lemma_child_areas_stack(area: TuiRect, heights: Seq<u16>, i: int, j: int, x: int)
    requires
        area.y + area.height <= u16::MAX,
        0 <= i < j < heights.len(),
    ensures
        !child_area(area, heights, i).holds(x, child_area(area, heights, j).y as int),
{
    lemma_total_grows(heights, i, j);
}

/// Children from `i` on that leave an event unhandled and the context as it
/// was pass the event on: what the column does from `i` is what it does
/// from `j`.
pub proof fn lemma_responds_skip<C: TuiElement>(
    children: Seq<C>,
    heights: Seq<u16>,
    area: TuiRect,
    event: TuiEvent,
    m: int,
    i: int,
    j: int,
    before: TuiEventContext,
    after: TuiEventContext,
)
    requires
        0 <= i <= j <= m,
        forall|k: int| i <= k < j ==> !#[trigger] children[k].handles(event, child_area(area, heights, k)),
        forall|k: int, b: TuiEventContext, a: TuiEventContext|
            i <= k < j && #[trigger] children[k].responds(event, child_area(area, heights, k), b, a)
                ==> a == b,
        responds_from(children, heights, area, event, m, i, before, after),
    ensures
        responds_from(children, heights, area, event, m, j, before, after),
    decreases j - i,
{
    if i < j {
        let mid = choose|mid: TuiEventContext|
            #![trigger children[i].responds(event, child_area(area, heights, i), before, mid)]
            children[i].responds(event, child_area(area, heights, i), before, mid) && if children[i].handles(
                event,
                child_area(area, heights, i),
            ) {
                after == mid
            } else {
                responds_from(children, heights, area, event, m, i + 1, mid, after)
            };
        assert(!children[i].handles(event, child_area(area, heights, i)));
        assert(mid == before);
        lemma_responds_skip(children, heights, area, event, m, i + 1, j, before, after);
    }
}

/// When no child from `i` on handles an event, none answers it.
pub proof fn lemma_none_handles<C: TuiElement>(
    children: Seq<C>,
    heights: Seq<u16>,
    area: TuiRect,
    event: TuiEvent,
    k: nat,
)
    requires
        forall|j: int| 0 <= j < k ==> !#[trigger] children[j].handles(event, child_area(area, heights, j)),
    ensures
        !any_handles(children, heights, area, event, k),
    decreases k,
{
    if k > 0 {
        lemma_none_handles(children, heights, area, event, (k - 1) as nat);
    }
}

/// The sum of rows grows strictly when one of them does and none shrinks.
pub proof fn lemma_sum_rows_strict(a: Seq<nat>, b: Seq<nat>, j: int)
    requires
        a.len() == b.len(),
        0 <= j < a.len(),
        forall|k: int| 0 <= k < a.len() ==> #[trigger] a[k] <= b[k],
        a[j] < b[j],
    ensures
        sum_rows(a) < sum_rows(b),
    decreases a.len(),
{
    if j == a.len() - 1 {
        lemma_sum_rows_monotone(a.drop_last(), b.drop_last());
    } else {
        lemma_sum_rows_strict(a.drop_last(), b.drop_last(), j);
    }
}

/// Children that draw alike stack their drawings alike.
pub proof fn lemma_draw_stack_congruent<C: TuiElement>(
    a: Seq<C>,
    b: Seq<C>,
    heights: Seq<u16>,
    area: TuiRect,
    k: nat,
    cells: CellMap,
)
    requires
        forall|j: int, at: TuiRect, m: CellMap|
            0 <= j < k ==> #[trigger] a[j].draw(at, m) == b[j].draw(at, m),
    ensures
        draw_stack(a, heights, area, k, cells) == draw_stack(b, heights, area, k, cells),
    decreases k,
{
    if k > 0 {
        lemma_draw_stack_congruent(a, b, heights, area, (k - 1) as nat, cells);
        let below = draw_stack(a, heights, area, (k - 1) as nat, cells);
        assert(a[k - 1].draw(child_area(area, heights, k - 1), below) == b[k - 1].draw(
            child_area(area, heights, k - 1),
            below,
        ));
    }
}

/// Columns whose children measure alike measure alike.
pub proof fn lemma_column_congruent<C: TuiElement>(
    a: TuiColumn<C>,
    b: TuiColumn<C>,
    constraint: TuiConstraint,
)
    requires
        a.child_count() == b.child_count(),
        forall|j: int, any: TuiConstraint|
            0 <= j < a.child_count() ==> #[trigger] a.children_view()[j].measure(any)
                == b.children_view()[j].measure(any),
    ensures
        a.measure(constraint) == b.measure(constraint),
{
    lemma_stack_congruent(a.children_view(), b.children_view(), a.child_count(), constraint);
}

/// If one of the first `k` children handles an event, one of the first `m`
/// does, for `m` at least `k`.
pub proof fn lemma_any_handles_grows<C: TuiElement>(
    children: Seq<C>,
    heights: Seq<u16>,
    area: TuiRect,
    event: TuiEvent,
    k: nat,
    m: nat,
)
    requires
        k <= m,
        any_handles(children, heights, area, event, k),
    ensures
        any_handles(children, heights, area, event, m),
    decreases m - k,
{
    if k < m {
        lemma_any_handles_grows(children, heights, area, event, k + 1, m);
    }
}

} // verus!
