//! A grid of styled cells that elements render into.

use vstd::prelude::*;

use crate::geometry::TuiRect;
use crate::strings::views;
use crate::style::{TuiColor, TuiStyle};

verus! {

/// One cell: the character shown and its style.
#[derive(Clone, Copy, Debug, PartialEq, Eq, Structural)]
pub struct TuiCell {
    pub symbol: char,
    pub style: TuiStyle,
}

/// The cell of a freshly cleared buffer.
pub open spec fn blank_cell() -> TuiCell {
    TuiCell { symbol: ' ', style: TuiStyle::plain() }
}

/// What a buffer shows: the cell at each position it holds.
pub type CellMap = Map<(int, int), TuiCell>;

/// The cells covering `area`, row by row.
pub struct TuiBuffer {
    area: TuiRect,
    rows: Vec<Vec<TuiCell>>,
}

impl View for TuiBuffer {
    type V = CellMap;

    open spec fn view(&self) -> CellMap {
        Map::new(
            |p: (int, int)| self.cell_at(p.0, p.1) is Some,
            |p: (int, int)| self.cell_at(p.0, p.1)->Some_0,
        )
    }
}

impl TuiBuffer {
    /// One row per row of the area, each as long as the area is wide.
    #[verifier::type_invariant]
    spec fn rows_cover_area(self) -> bool {
        &&& self.rows@.len() == self.area.height
        &&& forall|r: int| 0 <= r < self.rows@.len() ==> #[trigger] self.rows@[r]@.len() == self.area.width
    }

    /// The area the buffer covers.
    pub closed spec fn spec_area(&self) -> TuiRect {
        self.area
    }

    /// The cell at (`x`, `y`), if the buffer holds that position.
    pub closed spec fn cell_at(&self, x: int, y: int) -> Option<TuiCell> {
        let row = y - self.area.y;
        let col = x - self.area.x;
        if self.area.holds(x, y) && row < self.rows@.len() && col < self.rows@[row]@.len() {
            Some(self.rows@[row]@[col])
        } else {
            None
        }
    }

    /// The characters of each row, top to bottom.
    pub closed spec fn lines(&self) -> Seq<Seq<char>> {
        self.rows@.map_values(|row: Vec<TuiCell>| row@.map_values(|c: TuiCell| c.symbol))
    }

    /// Every cell the buffer holds lies in its area.
    pub proof fn lemma_cell_in_area(&self, x: int, y: int)
        ensures
            self.cell_at(x, y) is Some ==> self.spec_area().holds(x, y),
    {
    }

    /// A buffer over `area` with every cell blank.
    pub fn empty(area: TuiRect) -> (r: TuiBuffer)
        ensures
            r.spec_area() == area,
            forall|x: int, y: int| #[trigger] r.cell_at(x, y) == if area.holds(x, y) {
                Some(blank_cell())
            } else {
                None
            },
            r.lines().len() == area.height,
            forall|j: int|
                0 <= j < area.height ==> #[trigger] r.lines()[j] == Seq::new(
                    area.width as nat,
                    |i: int| ' ',
                ),
    {
        let blank = TuiCell { symbol: ' ', style: TuiStyle::default() };
        let mut row: Vec<TuiCell> = Vec::new();
        let mut i: u16 = 0;
        while i < area.width
            invariant
                i <= area.width,
                row@.len() == i,
                blank == blank_cell(),
                forall|k: int| 0 <= k < i ==> row@[k] == blank_cell(),
            decreases area.width - i,
        {
            row.push(blank);
            i = i + 1;
        }
        let mut rows: Vec<Vec<TuiCell>> = Vec::new();
        let mut j: u16 = 0;
        while j < area.height
            invariant
                j <= area.height,
                rows@.len() == j,
                row@.len() == area.width,
                forall|k: int| 0 <= k < area.width ==> row@[k] == blank_cell(),
                forall|m: int| 0 <= m < j ==> rows@[m]@ == row@,
            decreases area.height - j,
        {
            rows.push(row.clone());
            j = j + 1;
        }
        let r = TuiBuffer { area, rows };
        assert forall|j: int| 0 <= j < area.height implies #[trigger] r.lines()[j] == Seq::new(
            area.width as nat,
            |i: int| ' ',
        ) by {
            assert(r.lines()[j] =~= Seq::new(area.width as nat, |i: int| ' '));
        }
        r
    }

    /// The area the buffer covers.
    pub fn area(&self) -> (r: TuiRect)
        ensures
            r == self.spec_area(),
    {
        self.area
    }

    /// Replaces the cell at (`x`, `y`) with `cell`; positions the buffer does
    /// not hold are ignored.
    pub fn set_cell(&mut self, x: u16, y: u16, cell: TuiCell)
        ensures
            final(self).spec_area() == old(self).spec_area(),
            forall|a: int, b: int| #[trigger]
                final(self).cell_at(a, b) == if a == x && b == y && old(self).cell_at(a, b) is Some {
                    Some(cell)
                } else {
                    old(self).cell_at(a, b)
                },
    {
        proof {
            use_type_invariant(&*self);
        }
        if self.area.contains_point(crate::geometry::TuiPoint { x, y }) {
            let row = y - self.area.y;
            let col = x - self.area.x;
            if (row as usize) < self.rows.len() && (col as usize) < self.rows[row as usize].len() {
                let mut updated = self.rows[row as usize].clone();
                updated.set(col as usize, cell);
                let mut taken = TuiBuffer {
                    area: TuiRect { x: 0, y: 0, width: 0, height: 0 },
                    rows: Vec::new(),
                };
                std::mem::swap(&mut taken, self);
                let TuiBuffer { area, rows } = taken;
                let mut rows = rows;
                rows.set(row as usize, updated);
                *self = TuiBuffer { area, rows };
            }
        }
    }

    /// The cell at (`x`, `y`), if the buffer holds that position.
    pub fn get(&self, x: u16, y: u16) -> (r: Option<TuiCell>)
        ensures
            r == self.cell_at(x as int, y as int),
    {
        if self.area.contains_point(crate::geometry::TuiPoint { x, y }) {
            let row = y - self.area.y;
            let col = x - self.area.x;
            if (row as usize) < self.rows.len() && (col as usize) < self.rows[row as usize].len() {
                return Some(self.rows[row as usize][col as usize]);
            }
        }
        None
    }

    /// Paints the background of the cell at (`x`, `y`) with `color`, keeping
    /// its character, foreground and modifiers.
    pub fn set_background(&mut self, x: u16, y: u16, color: TuiColor)
        ensures
            final(self).spec_area() == old(self).spec_area(),
            forall|a: int, b: int| #[trigger]
                final(self).cell_at(a, b) == match old(self).cell_at(a, b) {
                    Some(c) => if a == x && b == y {
                        Some(TuiCell { style: TuiStyle { bg: Some(color), ..c.style }, ..c })
                    } else {
                        Some(c)
                    },
                    None => None,
                },
    {
        match self.get(x, y) {
            Some(c) => {
                let cell = TuiCell { symbol: c.symbol, style: c.style.bg(color) };
                self.set_cell(x, y, cell);
            },
            None => {},
        }
    }

    /// The characters of each row, top to bottom, as strings.
    pub fn to_lines(&self) -> (r: Vec<String>)
        ensures
            views(r@) == self.lines(),
            r@.len() == self.spec_area().height,
            forall|y: int| 0 <= y < r@.len() ==> #[trigger] r@[y]@.len() == self.spec_area().width,
            forall|x: int, y: int|
                0 <= x < self.spec_area().width && 0 <= y < self.spec_area().height
                    && self.spec_area().holds(self.spec_area().x + x, self.spec_area().y + y)
                    ==> #[trigger] r@[y]@[x] == self.cell_at(
                    self.spec_area().x + x,
                    self.spec_area().y + y,
                )->Some_0.symbol,
    {
        proof {
            use_type_invariant(self);
        }
        let mut lines: Vec<String> = Vec::new();
        let mut j: usize = 0;
        while j < self.rows.len()
            invariant
                j <= self.rows@.len(),
                views(lines@) == self.lines().take(j as int),
            decreases self.rows@.len() - j,
        {
            let row = &self.rows[j];
            let mut line = String::new();
            let mut i: usize = 0;
            while i < row.len()
                invariant
                    i <= row@.len(),
                    line@ == row@.map_values(|c: TuiCell| c.symbol).take(i as int),
                decreases row@.len() - i,
            {
                line.push(row[i].symbol);
                assert(line@ =~= row@.map_values(|c: TuiCell| c.symbol).take(i + 1));
                i = i + 1;
            }
            assert(line@ =~= row@.map_values(|c: TuiCell| c.symbol));
            assert(self.lines()[j as int] == self.rows@[j as int]@.map_values(
                |c: TuiCell| c.symbol,
            ));
            let ghost prev = lines@;
            let ghost text = line@;
            lines.push(line);
            assert(views(lines@) =~= views(prev).push(text));
            assert(views(lines@) =~= self.lines().take(j + 1));
            j = j + 1;
        }
        assert(self.lines().take(self.rows@.len() as int) =~= self.lines());
        assert forall|y: int| 0 <= y < lines@.len() implies #[trigger] lines@[y]@ == self.rows@[y]@.map_values(
            |c: TuiCell| c.symbol,
        ) by {
            assert(views(lines@)[y] == lines@[y]@);
        }
        lines
    }
}

} // verus!
