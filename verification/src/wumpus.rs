//! A tiny grid world for a hunt-the-wumpus sketch: a fixed 4 by 4 board of
//! numbers that can be poked cell by cell and printed.

use vstd::prelude::*;
use crate::pair::Pair;
use crate::text::dec_int;

verus! {

pub const MAP_WIDTH: i64 = 4;

pub const MAP_HEIGHT: i64 = 4;

/// The board: its extent and the number in each cell.
#[derive(Debug, Clone)]
pub struct World {
    pub size: Pair<i64>,
    pub grid: Vec<Vec<i64>>,
}

/// One rendered board row: the numbers run together, no separators.
pub open spec fn row_text(row: Seq<i64>) -> Seq<char>
    decreases row.len(),
{
    if row.len() == 0 {
        Seq::empty()
    } else {
        row_text(row.drop_last()) + dec_int(row.last() as int)
    }
}

/// The rendered board, one row per line.
pub open spec fn board_text(g: Seq<Vec<i64>>) -> Seq<char>
    decreases g.len(),
{
    if g.len() == 0 {
        Seq::empty()
    } else {
        board_text(g.drop_last()) + row_text(g.last()@) + "\n"@
    }
}

impl World {
    /// A fresh board, every cell zero.
    pub fn new() -> (w: World)
        ensures
            w.size.x == MAP_WIDTH,
            w.size.y == MAP_HEIGHT,
            w.grid@.len() == MAP_HEIGHT,
            forall|i: int| 0 <= i < MAP_HEIGHT ==> (#[trigger] w.grid@[i])@.len() == MAP_WIDTH,
            forall|i: int, j: int|
                0 <= i < MAP_HEIGHT && 0 <= j < MAP_WIDTH ==> (#[trigger] w.grid@[i]@[j]) == 0,
    {
        let mut grid: Vec<Vec<i64>> = Vec::new();
        let mut i: usize = 0;
        while i < 4
            invariant
                i <= 4,
                grid@.len() == i,
                forall|a: int| 0 <= a < i ==> (#[trigger] grid@[a])@.len() == 4,
                forall|a: int, b: int| 0 <= a < i && 0 <= b < 4 ==> (#[trigger] grid@[a]@[b]) == 0,
            decreases 4 - i,
        {
            let mut row: Vec<i64> = Vec::new();
            let mut j: usize = 0;
            while j < 4
                invariant
                    j <= 4,
                    row@.len() == j,
                    forall|b: int| 0 <= b < j ==> (#[trigger] row@[b]) == 0,
                decreases 4 - j,
            {
                row.push(0);
                j = j + 1;
            }
            grid.push(row);
            i = i + 1;
        }
        let size = Pair::new(MAP_WIDTH, MAP_HEIGHT);
        World { size, grid }
    }

    /// Write `value` into one cell, leaving the rest of the board alone.
    pub fn update(&mut self, cell: Pair<usize>, value: i64)
        requires
            cell.y < old(self).grid@.len(),
            cell.x < old(self).grid@[cell.y as int]@.len(),
        ensures
            final(self).size == old(self).size,
            final(self).grid@.len() == old(self).grid@.len(),
            forall|i: int|
                0 <= i < old(self).grid@.len() ==> (#[trigger] final(self).grid@[i])@.len() == old(
                    self,
                ).grid@[i]@.len(),
            forall|i: int, j: int|
                0 <= i < old(self).grid@.len() && 0 <= j < old(self).grid@[i]@.len()
                    ==> (#[trigger] final(self).grid@[i]@[j]) == (if i == cell.y && j == cell.x {
                    value
                } else {
                    old(self).grid@[i]@[j]
                }),
    {
        self.grid[cell.y][cell.x] = value;
    }

    /// The printable form of the board.
    pub fn render(&self) -> (s: String)
        ensures
            s@ == board_text(self.grid@),
    {
        let mut s = String::new();
        let mut i: usize = 0;
        while i < self.grid.len()
            invariant
                i <= self.grid@.len(),
                s@ == board_text(self.grid@.take(i as int)),
            decreases self.grid@.len() - i,
        {
            let row_len = self.grid[i].len();
            let mut j: usize = 0;
            while j < row_len
                invariant
                    j <= row_len,
                    i < self.grid@.len(),
                    row_len == self.grid@[i as int]@.len(),
                    s@ == board_text(self.grid@.take(i as int)) + row_text(
                        self.grid@[i as int]@.take(j as int),
                    ),
                decreases row_len - j,
            {
                let cell_string = crate::text::i64_to_string(self.grid[i][j]);
                s.append(cell_string.as_str());
                proof {
                    let t1 = self.grid@[i as int]@.take(j + 1);
                    assert(t1.drop_last() =~= self.grid@[i as int]@.take(j as int));
                    assert(t1.last() == self.grid@[i as int]@[j as int]);
                    assert(s@ =~= board_text(self.grid@.take(i as int)) + row_text(t1));
                }
                j = j + 1;
            }
            s.append("\n");
            proof {
                let t1 = self.grid@.take(i + 1);
                assert(t1.drop_last() =~= self.grid@.take(i as int));
                assert(t1.last() == self.grid@[i as int]);
                assert(self.grid@[i as int]@.take(row_len as int) =~= self.grid@[i as int]@);
                assert(s@ =~= board_text(t1));
            }
            i = i + 1;
        }
        proof {
            assert(self.grid@.take(self.grid@.len() as int) =~= self.grid@);
        }
        s
    }
}

} // verus!
