//! The full terminal grid: one column per terminal column, stepped and
//! rendered together.
//!
//! A frame is rendered as one linear instruction sequence: hide the cursor,
//! move to the origin, then every cell in row-major order (rows outer,
//! columns inner, as the terminal paints left to right, top to bottom),
//! then reset colors and flush. A tick steps every column once; columns are
//! independent, so the grid's step is exactly one possible column step per
//! column.

use crate::color::Rgb;
use crate::column::column_stepped;
use crate::column::Column;
use crate::glyph::glyph_instructions;
use crate::instruction::Instruction;
use rand_xoshiro::Xoshiro256PlusPlus;
use vstd::prelude::*;

verus! {

/// The instructions that paint the first x cells of row y, left to right.
pub open spec fn row_prefix_instructions(cols: Seq<Column>, y: int, x: int) -> Seq<Instruction>
    decreases x,
{
    if x <= 0 {
        Seq::empty()
    } else {
        row_prefix_instructions(cols, y, x - 1) + glyph_instructions(cols[x - 1].glyphs@[y])
    }
}

/// The instructions that paint the first y full rows, top to bottom.
pub open spec fn rows_prefix_instructions(cols: Seq<Column>, y: int) -> Seq<Instruction>
    decreases y,
{
    if y <= 0 {
        Seq::empty()
    } else {
        rows_prefix_instructions(cols, y - 1) + row_prefix_instructions(
            cols,
            y - 1,
            cols.len() as int,
        )
    }
}

/// The complete instruction sequence of one frame.
pub open spec fn frame_instructions(w: MatrixWaterFall) -> Seq<Instruction> {
    seq![Instruction::HideCursor, Instruction::MoveTo(0, 0)] + rows_prefix_instructions(
        w.columns@,
        w.height as int,
    ) + seq![Instruction::ResetColors, Instruction::Flush]
}

/// The full terminal grid of falling glyphs.
#[derive(Clone, Debug)]
pub struct MatrixWaterFall {
    pub width: u16,
    pub height: u16,
    pub base_color: Rgb,
    pub columns: Vec<Column>,
}

impl MatrixWaterFall {
    /// The grid's structural invariant: one well-formed column per terminal
    /// column, all of the grid's height.
    pub open spec fn wf(self) -> bool {
        &&& 1 <= self.height
        &&& self.columns@.len() == self.width as int
        &&& forall|i: int|
            0 <= i < self.columns@.len() ==> (#[trigger] self.columns@[i]).wf()
                && self.columns@[i].height == self.height
    }

    pub fn new(width: u16, height: u16, base_color: Rgb) -> (w: MatrixWaterFall)
        requires
            1 <= height,
        ensures
            w.wf(),
            w.width == width,
            w.height == height,
            w.base_color == base_color,
            forall|i: int|
                0 <= i < width as int ==> (#[trigger] w.columns@[i]).is_fresh(height, base_color),
    {
        let mut columns: Vec<Column> = Vec::new();
        let mut i: usize = 0;
        while i < width as usize
            invariant
                i <= width as usize,
                columns@.len() == i as int,
                forall|j: int|
                    0 <= j < i as int ==> (#[trigger] columns@[j]).wf() && columns@[j].is_fresh(
                        height,
                        base_color,
                    ),
                1 <= height,
            decreases width as usize - i,
        {
            columns.push(Column::new(height, base_color));
            i += 1;
        }
        MatrixWaterFall { width, height, base_color, columns }
    }

    /// Compose one frame: the exact instruction sequence that paints the
    /// grid, cell by cell in row-major order, framed by cursor hiding,
    /// homing, color reset and flush.
    pub fn render(&self) -> (out: Vec<Instruction>)
        requires
            self.wf(),
        ensures
            out@ == frame_instructions(*self),
    {
        let mut out: Vec<Instruction> = Vec::new();
        out.push(Instruction::HideCursor);
        out.push(Instruction::MoveTo(0, 0));
        let ghost head = out@;
        proof {
            assert(head =~= seq![Instruction::HideCursor, Instruction::MoveTo(0, 0)]);
        }
        let mut y: u16 = 0;
        while y < self.height
            invariant
                self.wf(),
                y <= self.height,
                out@ == head + rows_prefix_instructions(self.columns@, y as int),
            decreases self.height - y,
        {
            let mut x: usize = 0;
            while x < self.columns.len()
                invariant
                    self.wf(),
                    y < self.height,
                    x <= self.columns@.len(),
                    out@ == head + rows_prefix_instructions(self.columns@, y as int)
                        + row_prefix_instructions(self.columns@, y as int, x as int),
                decreases self.columns@.len() - x,
            {
                self.columns[x].render(&mut out, y);
                x += 1;
            }
            y += 1;
        }
        out.push(Instruction::ResetColors);
        out.push(Instruction::Flush);
        proof {
            assert(out@ =~= frame_instructions(*self));
        }
        out
    }

    /// One tick: every column steps once, independently.
    pub fn step(&mut self, rand: &mut Xoshiro256PlusPlus)
        requires
            old(self).wf(),
        ensures
            final(self).wf(),
            final(self).width == old(self).width,
            final(self).height == old(self).height,
            final(self).base_color == old(self).base_color,
            final(self).columns@.len() == old(self).columns@.len(),
            forall|i: int|
                0 <= i < old(self).columns@.len() ==> column_stepped(
                    #[trigger] old(self).columns@[i],
                    final(self).columns@[i],
                ),
    {
        let mut i: usize = 0;
        while i < self.columns.len()
            invariant
                self.columns@.len() == old(self).columns@.len(),
                i <= self.columns@.len(),
                self.width == old(self).width,
                self.height == old(self).height,
                self.base_color == old(self).base_color,
                old(self).wf(),
                forall|j: int|
                    0 <= j < i as int ==> column_stepped(
                        #[trigger] old(self).columns@[j],
                        self.columns@[j],
                    ) && self.columns@[j].wf() && self.columns@[j].height == self.height,
                forall|j: int|
                    i as int <= j < self.columns@.len() ==> self.columns@[j] == old(
                        self,
                    ).columns@[j],
            decreases self.columns@.len() - i,
        {
            self.columns[i].step(rand);
            i += 1;
        }
        proof {
            assert forall|j: int|
                0 <= j < self.columns@.len() implies (#[trigger] self.columns@[j]).wf()
                && self.columns@[j].height == self.height by {
                assert(column_stepped(old(self).columns@[j], self.columns@[j]));
            }
        }
    }
}

} // verus!
