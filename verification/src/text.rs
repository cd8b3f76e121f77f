//! A block of styled text, split into lines at newlines and either wrapped
//! or truncated at the available width.

use vstd::prelude::*;

use crate::buffer::{CellMap, TuiBuffer, TuiCell};
use crate::column::{min_rows, natural_height};
use crate::element::{event_keeps_drawing, layout_keeps_measure, TuiElement};
use crate::event::{TuiEvent, TuiEventContext};
use crate::geometry::{TuiConstraint, TuiRect, TuiSize};
use crate::strings::{chars_of, views};
use crate::style::TuiStyle;

verus! {

/// The lines of `s`, split at each newline; the empty text has one empty
/// line.
pub open spec fn split_lines(s: Seq<char>) -> Seq<Seq<char>>
    decreases s.len(),
{
    if s.len() == 0 {
        seq![Seq::<char>::empty()]
    } else {
        let rest = split_lines(s.drop_last());
        if s.last() == '\n' {
            rest.push(Seq::empty())
        } else {
            rest.update(rest.len() - 1, rest.last().push(s.last()))
        }
    }
}

pub proof fn lemma_split_lines_nonempty(s: Seq<char>)
    ensures
        split_lines(s).len() >= 1,
    decreases s.len(),
{
    if s.len() > 0 {
        lemma_split_lines_nonempty(s.drop_last());
    }
}

/// `line` cut into rows of `width` characters; the last row may be shorter
/// and an empty line gives one empty row. Nothing fits in width zero.
pub open spec fn wrap_line(line: Seq<char>, width: nat) -> Seq<Seq<char>>
    decreases line.len(),
{
    if width == 0 {
        Seq::empty()
    } else if line.len() <= width {
        seq![line]
    } else {
        seq![line.take(width as int)] + wrap_line(line.skip(width as int), width)
    }
}

/// The rows one line takes: its first `width` characters when truncating,
/// its wrapped rows otherwise.
pub open spec fn line_rows(line: Seq<char>, width: nat, truncate: bool) -> Seq<Seq<char>> {
    if truncate {
        seq![line.take(if line.len() <= width { line.len() as int } else { width as int })]
    } else {
        wrap_line(line, width)
    }
}

/// The rows of `lines`, in order.
pub open spec fn rows_of(lines: Seq<Seq<char>>, width: nat, truncate: bool) -> Seq<Seq<char>>
    decreases lines.len(),
{
    if lines.len() == 0 {
        Seq::empty()
    } else {
        rows_of(lines.drop_last(), width, truncate) + line_rows(lines.last(), width, truncate)
    }
}

/// The rows `text` takes at `width`.
pub open spec fn text_rows(text: Seq<char>, width: nat, truncate: bool) -> Seq<Seq<char>> {
    rows_of(split_lines(text), width, truncate)
}

/// The character views of `rows`.
pub open spec fn deep(rows: Seq<Vec<char>>) -> Seq<Seq<char>> {
    rows.map_values(|r: Vec<char>| r@)
}

/// The length of the longest of `rows`.
pub open spec fn widest(rows: Seq<Seq<char>>) -> nat
    decreases rows.len(),
{
    if rows.len() == 0 {
        0
    } else {
        let rest = widest(rows.drop_last());
        if rows.last().len() > rest {
            rows.last().len()
        } else {
            rest
        }
    }
}

/// The character that text laid out as `rows` in `area` shows at (`x`,
/// `y`), if any.
pub open spec fn text_cell(rows: Seq<Seq<char>>, area: TuiRect, x: int, y: int) -> Option<char> {
    let r = y - area.y;
    let c = x - area.x;
    if 0 <= r < area.height && r < rows.len() && 0 <= c < rows[r].len() {
        Some(rows[r][c])
    } else {
        None
    }
}

/// A cell after text drawing: a cell the buffer holds and the text covers
/// shows the text's character in `style`; every other cell stays.
pub open spec fn painted(before: Option<TuiCell>, ch: Option<char>, style: TuiStyle) -> Option<TuiCell> {
    match (before, ch) {
        (Some(_), Some(c)) => Some(TuiCell { symbol: c, style }),
        _ => before,
    }
}

/// The cells after drawing text laid out as `rows` in `area` in `style` over
/// `cells`.
pub open spec fn paint_rows(cells: CellMap, rows: Seq<Seq<char>>, area: TuiRect, style: TuiStyle) -> CellMap {
    cells.dom().mk_map(|p: (int, int)| painted_cell(cells, rows, area, style, p))
}

/// The cell at `p` after drawing text laid out as `rows` in `area` in
/// `style` over `cells`.
pub open spec fn painted_cell(cells: CellMap, rows: Seq<Seq<char>>, area: TuiRect, style: TuiStyle, p: (int, int)) -> TuiCell {
    match text_cell(rows, area, p.0, p.1) {
        Some(c) => TuiCell { symbol: c, style },
        None => cells[p],
    }
}

/// The size of text laid out as `rows` within `max`: as wide as its widest
/// row, as tall as its rows, cut at the height available.
pub open spec fn text_size(rows: Seq<Seq<char>>, max: TuiSize) -> TuiSize {
    TuiSize {
        width: widest(rows) as u16,
        height: if rows.len() <= max.height {
            rows.len() as u16
        } else {
            max.height
        },
    }
}

/// Appending characters other than a newline keeps the number of lines.
pub proof fn lemma_split_lines_append(s: Seq<char>, t: Seq<char>)
    requires
        forall|i: int| 0 <= i < t.len() ==> t[i] != '\n',
    ensures
        split_lines(s + t).len() == split_lines(s).len(),
    decreases t.len(),
{
    if t.len() > 0 {
        assert((s + t).drop_last() =~= s + t.drop_last());
        assert((s + t).last() == t.last());
        lemma_split_lines_append(s, t.drop_last());
        lemma_split_lines_nonempty(s + t.drop_last());
    } else {
        assert(s + t =~= s);
    }
}

/// Text is as tall as its rows at the width it is given, cut at the rows
/// available.
pub proof fn lemma_text_natural(text: TuiText, width: u16)
    ensures
        natural_height(text, width, text.rows_at(width as nat).len()),
{
    assert forall|constraint: TuiConstraint| constraint.max.width == width implies #[trigger] text.measure(
        constraint,
    ).height == min_rows(text.rows_at(width as nat).len(), constraint.max.height) by {}
}

/// Layout leaves text as it was, so it measures as before.
pub proof fn lemma_text_layout_keeps_measure()
    ensures
        layout_keeps_measure::<TuiText>(),
{
}

/// Wrapped text takes at least one row at a width of one or more.
pub proof fn lemma_wrapped_rows_nonempty(text: Seq<char>, width: nat)
    requires
        width >= 1,
    ensures
        text_rows(text, width, false).len() >= 1,
{
    let lines = split_lines(text);
    lemma_split_lines_nonempty(text);
    let last = lines.last();
    if last.len() > width {
        assert(wrap_line(last, width).len() >= 1);
    }
}

/// Events leave text as it was, so it draws as before.
pub proof fn lemma_text_event_keeps_drawing()
    ensures
        event_keeps_drawing::<TuiText>(),
{
}

/// Truncated text takes one row per line.
pub proof fn lemma_truncated_row_count(lines: Seq<Seq<char>>, width: nat)
    ensures
        rows_of(lines, width, true).len() == lines.len(),
    decreases lines.len(),
{
    if lines.len() > 0 {
        lemma_truncated_row_count(lines.drop_last(), width);
    }
}

proof fn lemma_wrap_bounded(line: Seq<char>, width: nat)
    ensures
        forall|i: int|
            0 <= i < wrap_line(line, width).len() ==> #[trigger] wrap_line(line, width)[i].len()
                <= width,
    decreases line.len(),
{
    if width > 0 && line.len() > width {
        lemma_wrap_bounded(line.skip(width as int), width);
        let rest = wrap_line(line.skip(width as int), width);
        assert forall|i: int| 0 <= i < wrap_line(line, width).len() implies #[trigger] wrap_line(
            line,
            width,
        )[i].len() <= width by {
            if i > 0 {
                assert(wrap_line(line, width)[i] == rest[i - 1]);
            }
        }
    }
}

proof fn lemma_rows_bounded(lines: Seq<Seq<char>>, width: nat, truncate: bool)
    ensures
        forall|i: int|
            0 <= i < rows_of(lines, width, truncate).len() ==> #[trigger] rows_of(
                lines,
                width,
                truncate,
            )[i].len() <= width,
    decreases lines.len(),
{
    if lines.len() > 0 {
        lemma_rows_bounded(lines.drop_last(), width, truncate);
        lemma_wrap_bounded(lines.last(), width);
        let front = rows_of(lines.drop_last(), width, truncate);
        let back = line_rows(lines.last(), width, truncate);
        assert forall|i: int| 0 <= i < rows_of(lines, width, truncate).len() implies #[trigger] rows_of(
            lines,
            width,
            truncate,
        )[i].len() <= width by {
            if i >= front.len() {
                assert(rows_of(lines, width, truncate)[i] == back[i - front.len()]);
            } else {
                assert(rows_of(lines, width, truncate)[i] == front[i]);
            }
        }
    }
}

proof fn lemma_widest_bounded(rows: Seq<Seq<char>>, width: nat)
    requires
        forall|i: int| 0 <= i < rows.len() ==> #[trigger] rows[i].len() <= width,
    ensures
        widest(rows) <= width,
    decreases rows.len(),
{
    if rows.len() > 0 {
        lemma_widest_bounded(rows.drop_last(), width);
    }
}

/// The characters `v[from..to]`.
fn chunk(v: &Vec<char>, from: usize, to: usize) -> (r: Vec<char>)
    requires
        from <= to <= v@.len(),
    ensures
        r@ == v@.subrange(from as int, to as int),
{
    let mut r: Vec<char> = Vec::new();
    let mut i = from;
    while i < to
        invariant
            from <= i <= to <= v@.len(),
            r@ == v@.subrange(from as int, i as int),
        decreases to - i,
    {
        r.push(v[i]);
        assert(r@ =~= v@.subrange(from as int, i + 1));
        i = i + 1;
    }
    r
}

/// Appends the rows of `line`.
fn push_line_rows(out: &mut Vec<Vec<char>>, line: &Vec<char>, width: u16, truncate: bool)
    ensures
        deep(final(out)@) == deep(old(out)@) + line_rows(line@, width as nat, truncate),
{
    let ghost start = deep(out@);
    if truncate {
        let end = if line.len() <= width as usize {
            line.len()
        } else {
            width as usize
        };
        let row = chunk(line, 0, end);
        let ghost rv = row@;
        out.push(row);
        assert(rv =~= line@.take(end as int));
        assert(deep(out@) =~= start + line_rows(line@, width as nat, truncate));
    } else if width > 0 {
        let w = width as usize;
        let mut i: usize = 0;
        assert(line@.skip(0) =~= line@);
        while line.len() - i > w
            invariant
                i <= line@.len(),
                w == width as nat,
                w > 0,
                deep(out@) + wrap_line(line@.skip(i as int), w as nat) == start + wrap_line(
                    line@,
                    w as nat,
                ),
            decreases line@.len() - i,
        {
            let row = chunk(line, i, i + w);
            let ghost rv = row@;
            let ghost before = deep(out@);
            out.push(row);
            proof {
                let rest = line@.skip(i as int);
                assert(rest.take(w as int) =~= rv);
                assert(rest.skip(w as int) =~= line@.skip(i + w));
                assert(deep(out@) =~= before.push(rv));
                assert(wrap_line(rest, w as nat) =~= seq![rv] + wrap_line(
                    line@.skip(i + w),
                    w as nat,
                ));
                assert(deep(out@) + wrap_line(line@.skip(i + w), w as nat) =~= before
                    + wrap_line(rest, w as nat));
            }
            i = i + w;
        }
        let row = chunk(line, i, line.len());
        let ghost rv = row@;
        let ghost before = deep(out@);
        out.push(row);
        proof {
            assert(rv =~= line@.skip(i as int));
            assert(deep(out@) =~= before.push(rv));
            assert(wrap_line(line@.skip(i as int), w as nat) =~= seq![rv]);
            assert(deep(out@) =~= before + wrap_line(line@.skip(i as int), w as nat));
        }
    } else {
        assert(deep(out@) =~= start + line_rows(line@, width as nat, truncate));
    }
}

/// The lines of `text`, split at each newline.
pub fn split_text_lines(text: &str) -> (r: Vec<String>)
    ensures
        views(r@) == split_lines(text@),
{
    let chars = chars_of(text);
    let mut out: Vec<String> = Vec::new();
    let mut cur = String::new();
    let mut i: usize = 0;
    proof {
        assert(split_lines(chars@.take(0)) =~= seq![Seq::<char>::empty()]);
    }
    while i < chars.len()
        invariant
            i <= chars@.len(),
            chars@ == text@,
            views(out@) == split_lines(chars@.take(i as int)).drop_last(),
            cur@ == split_lines(chars@.take(i as int)).last(),
        decreases chars@.len() - i,
    {
        let c = chars[i];
        proof {
            lemma_split_lines_nonempty(chars@.take(i as int));
            assert(chars@.take(i + 1).drop_last() =~= chars@.take(i as int));
            assert(chars@.take(i + 1).last() == c);
        }
        let ghost lines = split_lines(chars@.take(i as int));
        if c == '\n' {
            let ghost before = out@;
            let ghost line = cur@;
            out.push(cur);
            cur = String::new();
            proof {
                assert(views(out@) =~= views(before).push(line));
                assert(split_lines(chars@.take(i + 1)) == lines.push(Seq::<char>::empty()));
                assert(lines.push(Seq::<char>::empty()).drop_last() =~= lines);
                assert(lines.drop_last().push(lines.last()) =~= lines);
            }
        } else {
            cur.push(c);
            proof {
                let next = lines.update(lines.len() - 1, lines.last().push(c));
                assert(split_lines(chars@.take(i + 1)) == next);
                assert(next.drop_last() =~= lines.drop_last());
            }
        }
        i = i + 1;
    }
    let ghost before = out@;
    let ghost line = cur@;
    out.push(cur);
    proof {
        let lines = split_lines(chars@.take(i as int));
        lemma_split_lines_nonempty(chars@.take(i as int));
        assert(chars@.take(i as int) =~= chars@);
        assert(views(out@) =~= views(before).push(line));
        assert(lines.drop_last().push(lines.last()) =~= lines);
    }
    out
}

/// A block of text drawn in one style.
pub struct TuiText {
    text: String,
    style: TuiStyle,
    truncate: bool,
}

impl TuiText {
    /// The text shown.
    pub closed spec fn content(&self) -> Seq<char> {
        self.text@
    }

    /// The style the text is drawn in.
    pub closed spec fn text_style(&self) -> TuiStyle {
        self.style
    }

    /// Whether lines are truncated rather than wrapped.
    pub closed spec fn truncates(&self) -> bool {
        self.truncate
    }

    /// The rows the text takes at `width`.
    pub open spec fn rows_at(&self, width: nat) -> Seq<Seq<char>> {
        text_rows(self.content(), width, self.truncates())
    }

    /// Wrapping text `text` in the default style.
    pub fn new(text: &str) -> (r: TuiText)
        ensures
            r.content() == text@,
            r.text_style() == TuiStyle::plain(),
            !r.truncates(),
    {
        TuiText { text: text.to_owned(), style: TuiStyle::default(), truncate: false }
    }

    /// This text drawn in `style`.
    pub fn with_style(self, style: TuiStyle) -> (r: TuiText)
        ensures
            r.content() == self.content(),
            r.text_style() == style,
            r.truncates() == self.truncates(),
    {
        TuiText { style, ..self }
    }

    /// This text with each line cut at the width instead of wrapped.
    pub fn truncate(self) -> (r: TuiText)
        ensures
            r.content() == self.content(),
            r.text_style() == self.text_style(),
            r.truncates(),
    {
        TuiText { truncate: true, ..self }
    }

    /// The rows the text takes at `width`.
    pub fn rows(&self, width: u16) -> (r: Vec<Vec<char>>)
        ensures
            deep(r@) == self.rows_at(width as nat),
    {
        let chars = chars_of(self.text.as_str());
        let mut out: Vec<Vec<char>> = Vec::new();
        let mut cur: Vec<char> = Vec::new();
        let mut i: usize = 0;
        proof {
            lemma_split_lines_nonempty(chars@.take(0));
            assert(split_lines(chars@.take(0)) =~= seq![Seq::<char>::empty()]);
        }
        while i < chars.len()
            invariant
                i <= chars@.len(),
                chars@ == self.text@,
                deep(out@) == rows_of(
                    split_lines(chars@.take(i as int)).drop_last(),
                    width as nat,
                    self.truncate,
                ),
                cur@ == split_lines(chars@.take(i as int)).last(),
            decreases chars@.len() - i,
        {
            let c = chars[i];
            proof {
                lemma_split_lines_nonempty(chars@.take(i as int));
                assert(chars@.take(i + 1).drop_last() =~= chars@.take(i as int));
                assert(chars@.take(i + 1).last() == c);
            }
            let ghost lines = split_lines(chars@.take(i as int));
            if c == '\n' {
                push_line_rows(&mut out, &cur, width, self.truncate);
                cur = Vec::new();
                proof {
                    assert(split_lines(chars@.take(i + 1)) == lines.push(Seq::<char>::empty()));
                    assert(lines.push(Seq::<char>::empty()).drop_last() =~= lines);
                    assert(lines.drop_last().push(lines.last()) =~= lines);
                }
            } else {
                cur.push(c);
                proof {
                    let next = lines.update(lines.len() - 1, lines.last().push(c));
                    assert(split_lines(chars@.take(i + 1)) == next);
                    assert(next.drop_last() =~= lines.drop_last());
                }
            }
            i = i + 1;
        }
        push_line_rows(&mut out, &cur, width, self.truncate);
        proof {
            let lines = split_lines(chars@.take(i as int));
            lemma_split_lines_nonempty(chars@.take(i as int));
            assert(chars@.take(i as int) =~= chars@);
            assert(lines.drop_last().push(lines.last()) =~= lines);
        }
        out
    }
}

impl TuiElement for TuiText {
    open spec fn measure(&self, constraint: TuiConstraint) -> TuiSize {
        text_size(self.rows_at(constraint.max.width as nat), constraint.max)
    }

    open spec fn laid_out(&self, constraint: TuiConstraint, after: &Self) -> bool {
        *after == *self
    }

    open spec fn draw(&self, area: TuiRect, cells: CellMap) -> CellMap {
        paint_rows(cells, self.rows_at(area.width as nat), area, self.text_style())
    }

    open spec fn handles(&self, event: TuiEvent, area: TuiRect) -> bool {
        false
    }

    open spec fn responds(
        &self,
        event: TuiEvent,
        area: TuiRect,
        before: TuiEventContext,
        after: TuiEventContext,
    ) -> bool {
        after == before
    }

    open spec fn after_event(&self, event: TuiEvent, area: TuiRect, after: &Self) -> bool {
        *after == *self
    }

    fn layout(&mut self, constraint: TuiConstraint) -> (r: TuiSize)
        ensures
            r.width <= constraint.max.width,
    {
        let rows = self.rows(constraint.max.width);
        let ghost all = deep(rows@);
        proof {
            lemma_rows_bounded(split_lines(self.text@), constraint.max.width as nat, self.truncate);
        }
        let mut width: u16 = 0;
        let mut i: usize = 0;
        while i < rows.len()
            invariant
                i <= rows@.len(),
                all == deep(rows@),
                all == self.rows_at(constraint.max.width as nat),
                forall|k: int| 0 <= k < all.len() ==> #[trigger] all[k].len() <= constraint.max.width,
                width == widest(all.take(i as int)),
            decreases rows@.len() - i,
        {
            proof {
                assert(all.take(i + 1).drop_last() =~= all.take(i as int));
                assert(all.take(i + 1).last() == all[i as int]);
                assert(all[i as int] == rows@[i as int]@);
                assert(all[i as int].len() <= constraint.max.width);
            }
            if rows[i].len() > width as usize {
                width = rows[i].len() as u16;
            }
            i = i + 1;
        }
        proof {
            assert(all.take(rows@.len() as int) =~= all);
            lemma_widest_bounded(all, constraint.max.width as nat);
        }
        let height = if rows.len() <= constraint.max.height as usize {
            rows.len() as u16
        } else {
            constraint.max.height
        };
        TuiSize { width, height }
    }

    fn render(&self, area: TuiRect, buffer: &mut TuiBuffer)
        ensures
            forall|a: int, b: int| #[trigger]
                final(buffer).cell_at(a, b) == painted(
                    old(buffer).cell_at(a, b),
                    text_cell(self.rows_at(area.width as nat), area, a, b),
                    self.text_style(),
                ),
    {
        let rows = self.rows(area.width);
        let ghost all = deep(rows@);
        let style = self.style;
        proof {
            lemma_rows_bounded(split_lines(self.text@), area.width as nat, self.truncate);
        }
        let mut r: usize = 0;
        while r < rows.len()
            invariant
                r <= rows@.len(),
                all == deep(rows@),
                all == self.rows_at(area.width as nat),
                forall|k: int| 0 <= k < all.len() ==> #[trigger] all[k].len() <= area.width,
                style == self.text_style(),
                buffer.spec_area() == old(buffer).spec_area(),
                forall|a: int, b: int| #[trigger]
                    buffer.cell_at(a, b) == painted(
                        old(buffer).cell_at(a, b),
                        if b - area.y < r { text_cell(all, area, a, b) } else { None },
                        style,
                    ),
            decreases rows@.len() - r,
        {
            let row = &rows[r];
            assert(row@ == all[r as int]);
            let mut c: usize = 0;
            while c < row.len()
                invariant
                    r < rows@.len(),
                    c <= row@.len(),
                    row@ == all[r as int],
                    row@.len() <= area.width,
                    all == deep(rows@),
                    buffer.spec_area() == old(buffer).spec_area(),
                    forall|a: int, b: int| #[trigger]
                        buffer.cell_at(a, b) == painted(
                            old(buffer).cell_at(a, b),
                            if b - area.y < r || (b - area.y == r && a - area.x < c) {
                                text_cell(all, area, a, b)
                            } else {
                                None
                            },
                            style,
                        ),
                decreases row@.len() - c,
            {
                if r < area.height as usize && (area.x as usize) + c <= 65535 && (area.y as usize)
                    + r <= 65535 {
                    let x = area.x + c as u16;
                    let y = area.y + r as u16;
                    buffer.set_cell(x, y, TuiCell { symbol: row[c], style });
                    proof {
                        assert forall|a: int, b: int| #[trigger]
                            buffer.cell_at(a, b) == painted(
                                old(buffer).cell_at(a, b),
                                if b - area.y < r || (b - area.y == r && a - area.x < c + 1) {
                                    text_cell(all, area, a, b)
                                } else {
                                    None
                                },
                                style,
                            ) by {
                            old(buffer).lemma_cell_in_area(a, b);
                        }
                    }
                } else {
                    proof {
                        assert forall|a: int, b: int| #[trigger]
                            buffer.cell_at(a, b) == painted(
                                old(buffer).cell_at(a, b),
                                if b - area.y < r || (b - area.y == r && a - area.x < c + 1) {
                                    text_cell(all, area, a, b)
                                } else {
                                    None
                                },
                                style,
                            ) by {
                            old(buffer).lemma_cell_in_area(a, b);
                        }
                    }
                }
                c = c + 1;
            }
            proof {
                assert forall|a: int, b: int| #[trigger]
                    buffer.cell_at(a, b) == painted(
                        old(buffer).cell_at(a, b),
                        if b - area.y < r + 1 { text_cell(all, area, a, b) } else { None },
                        style,
                    ) by {
                    if b - area.y == r && a - area.x >= row@.len() {
                        assert(text_cell(all, area, a, b) is None);
                    }
                }
            }
            r = r + 1;
        }
        proof {
            assert forall|a: int, b: int| #[trigger]
                buffer.cell_at(a, b) == painted(
                    old(buffer).cell_at(a, b),
                    text_cell(all, area, a, b),
                    style,
                ) by {
                if b - area.y >= rows@.len() {
                    assert(text_cell(all, area, a, b) is None);
                }
            }
            let paint = paint_rows(old(buffer)@, all, area, style);
            assert forall|p: (int, int)|
                #![trigger buffer@.contains_key(p)]
                #![trigger paint.contains_key(p)]
                buffer@.contains_key(p) == paint.contains_key(p) && (buffer@.contains_key(p)
                    ==> buffer@[p] == paint[p]) by {
                assert(buffer.cell_at(p.0, p.1) == painted(
                    old(buffer).cell_at(p.0, p.1),
                    text_cell(all, area, p.0, p.1),
                    style,
                ));
            }
            assert(buffer@ =~= paint);
        }
    }

    fn dispatch_event(
        &mut self,
        event: &TuiEvent,
        area: TuiRect,
        event_ctx: &mut TuiEventContext,
    ) -> (r: bool)
    {
        false
    }
}

} // verus!
