//! The field: what a cell can hold, and the grid of cells.
use vstd::prelude::*;

verus! {

/// The colour of a colour block.
#[derive(Debug, Clone, Copy, PartialEq, Eq, Structural)]
pub enum ColorKind {
    Red,
    Blue,
    Green,
    Yellow,
}

impl ColorKind {
    /// Every colour, in the order in which random draws number them.
    pub const ALL: [ColorKind; 4] = [
        ColorKind::Red,
        ColorKind::Blue,
        ColorKind::Green,
        ColorKind::Yellow,
    ];

    /// The colour of a number; numbers past the last stand for the last.
    pub fn nth(i: usize) -> (color: ColorKind)
        ensures
            color == nth_color(i as int),
    {
        match i {
            0 => ColorKind::Red,
            1 => ColorKind::Blue,
            2 => ColorKind::Green,
            _ => ColorKind::Yellow,
        }
    }
}

/// The colour of a number; numbers past the last stand for the last.
pub open spec fn nth_color(i: int) -> ColorKind {
    if i == 0 {
        ColorKind::Red
    } else if i == 1 {
        ColorKind::Blue
    } else if i == 2 {
        ColorKind::Green
    } else {
        ColorKind::Yellow
    }
}

/// What an item block does when the player touches it.
#[derive(Debug, Clone, Copy, PartialEq, Eq, Structural)]
pub enum ItemEffect {
    ClearAbove,
    UnifyColors,
    StarifyScreen,
}

/// The content of one cell of the field.
#[derive(Debug, Clone, Copy, PartialEq, Eq, Structural)]
pub enum Cell {
    Empty,
    Color(ColorKind),
    /// A rock block, with the number of drill hits it has taken.
    Rock { hits: u8 },
    /// An air capsule.
    Oxygen,
    Diamond,
    /// A star block, with the time it has been in view.
    Star { visible_ms: u32 },
    Item(ItemEffect),
}

/// A row and a column of the field.
pub type Pos = (usize, usize);

/// One block that moved: where it is now, and where it was.
pub type BlockMove = (Pos, Pos);

/// The field. Row 0 is the surface, the last row the deepest.
#[derive(Debug)]
pub struct Board {
    pub rows: Vec<Vec<Cell>>,
    pub width: usize,
}

/// The mathematical field: rows of cells.
pub type Grid = Seq<Seq<Cell>>;

impl View for Board {
    type V = Grid;

    open spec fn view(&self) -> Grid {
        Seq::new(self.rows@.len(), |r: int| self.rows@[r]@)
    }
}

/// Every row of the grid has `width` cells.
pub open spec fn rectangular(g: Grid, width: nat) -> bool {
    forall|r: int| 0 <= r < g.len() ==> (#[trigger] g[r]).len() == width
}

/// The grid with one cell replaced.
pub open spec fn with_cell(g: Grid, row: int, col: int, cell: Cell) -> Grid {
    g.update(row, g[row].update(col, cell))
}

impl Board {
    /// Every row has exactly `width` cells.
    pub open spec fn wf(&self) -> bool {
        rectangular(self@, self.width as nat)
    }

    /// The number of columns.
    pub fn width(&self) -> (w: usize)
        ensures
            w == self.width,
    {
        self.width
    }

    /// The number of rows.
    pub fn depth_rows(&self) -> (n: usize)
        ensures
            n == self@.len(),
    {
        self.rows.len()
    }

    /// The content of one cell.
    pub fn cell(&self, row: usize, col: usize) -> (cell: Cell)
        requires
            self.wf(),
            row < self@.len(),
            col < self.width,
        ensures
            cell == self@[row as int][col as int],
    {
        assert(self@[row as int].len() == self.width);
        self.rows[row][col]
    }

    /// Replaces the content of one cell.
    pub fn set(&mut self, row: usize, col: usize, cell: Cell)
        requires
            old(self).wf(),
            row < old(self)@.len(),
            col < old(self).width,
        ensures
            final(self).wf(),
            final(self).width == old(self).width,
            final(self)@ == with_cell(old(self)@, row as int, col as int, cell),
    {
        assert(self@[row as int].len() == self.width);
        self.rows[row][col] = cell;
        assert(self@ =~= with_cell(old(self)@, row as int, col as int, cell));
    }
}

/// Copies a list of plain values.
pub fn copy_list<T: Copy>(list: &Vec<T>) -> (copy: Vec<T>)
    ensures
        copy@ == list@,
{
    let mut copy: Vec<T> = Vec::new();
    let mut i: usize = 0;
    while i < list.len()
        invariant
            i <= list@.len(),
            copy@ =~= list@.take(i as int),
        decreases list@.len() - i,
    {
        copy.push(list[i]);
        i = i + 1;
    }
    assert(copy@ =~= list@);
    copy
}

impl Clone for Board {
    fn clone(&self) -> (copy: Self)
        ensures
            copy@ == self@,
            copy.width == self.width,
    {
        let mut rows: Vec<Vec<Cell>> = Vec::new();
        let mut r: usize = 0;
        while r < self.rows.len()
            invariant
                r <= self.rows@.len(),
                rows@.len() == r,
                forall|i: int| 0 <= i < r ==> (#[trigger] rows@[i])@ == self.rows@[i]@,
            decreases self.rows@.len() - r,
        {
            rows.push(copy_list(&self.rows[r]));
            r = r + 1;
        }
        let copy = Board { rows, width: self.width };
        assert(copy@ =~= self@);
        copy
    }
}

} // verus!
