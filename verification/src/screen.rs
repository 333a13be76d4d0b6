//! The back buffer that scenes draw on: a grid of glyphs with a colour each,
//! stored row by row.

use vstd::prelude::*;
use vstd::std_specs::iter::IteratorSpec;
use vstd::string::*;

verus! {

/// The colour of a glyph.
#[derive(Clone, Copy, Debug, PartialEq, Eq, Structural)]
pub enum Color {
    White,
    Green,
    Yellow,
    Rgb { r: u8, g: u8, b: u8 },
}

/// One position of the buffer.
#[derive(Clone, Copy, Debug, PartialEq, Eq, Structural)]
pub struct Cell {
    pub rune: char,
    pub color: Color,
}

/// What an untouched position holds: a white space.
pub open spec fn blank_cell() -> Cell {
    Cell { rune: ' ', color: Color::White }
}

/// The mathematical content of a screen: its dimensions and its cells, row by
/// row.
pub struct Frame {
    pub width: int,
    pub height: int,
    pub cells: Seq<Cell>,
}

impl Frame {
    /// The cells fill the dimensions exactly.
    pub open spec fn wf(self) -> bool {
        &&& 0 <= self.width <= u16::MAX
        &&& 0 <= self.height <= u16::MAX
        &&& self.cells.len() == self.width * self.height
    }

    /// Whether `(x, y)` is a position of the frame.
    pub open spec fn contains(self, x: int, y: int) -> bool {
        0 <= x < self.width && 0 <= y < self.height
    }

    /// The cell at `(x, y)`.
    pub open spec fn at(self, x: int, y: int) -> Cell
        recommends
            self.contains(x, y),
    {
        self.cells[y * self.width + x]
    }

    /// The frame with `cell` at `(x, y)`; the frame itself where `(x, y)` lies
    /// outside it.
    pub open spec fn put(self, x: int, y: int, cell: Cell) -> Frame {
        if self.contains(x, y) {
            Frame { cells: self.cells.update(y * self.width + x, cell), ..self }
        } else {
            self
        }
    }

    /// The frame of the given dimensions with every cell blank.
    pub open spec fn blank(width: int, height: int) -> Frame {
        Frame { width, height, cells: Seq::new((width * height) as nat, |i: int| blank_cell()) }
    }

    /// The frame after `runes[0 .. n]` were put, in `color`, at `(x, y)`,
    /// `(x + 1, y)` and so on.
    pub open spec fn put_run(self, x: int, y: int, runes: Seq<char>, color: Color, n: int) -> Frame
        decreases n,
    {
        if n <= 0 {
            self
        } else {
            self.put_run(x, y, runes, color, n - 1).put(
                x + n - 1,
                y,
                Cell { rune: runes[n - 1], color },
            )
        }
    }

    /// The frame after `cell` was put `n` times: at `(x, y)`, `(x + 1, y)` and
    /// so on.
    pub open spec fn fill(self, x: int, y: int, n: int, cell: Cell) -> Frame
        decreases n,
    {
        if n <= 0 {
            self
        } else {
            self.fill(x, y, n - 1, cell).put(x + n - 1, y, cell)
        }
    }

    /// The frame after all of `runes` was put in a row that starts at `(x, y)`.
    pub open spec fn put_text(self, x: int, y: int, runes: Seq<char>, color: Color) -> Frame {
        self.put_run(x, y, runes, color, runes.len() as int)
    }
}

/// `y * width + x` is an index of the cells for every position of the frame,
/// and no two positions share one.
pub proof fn lemma_position_index(width: int, height: int, x: int, y: int)
    requires
        0 <= x < width,
        0 <= y < height,
    ensures
        0 <= y * width + x < width * height,
        (y * width + x) % width == x,
        (y * width + x) / width == y,
{
    assert(0 <= y * width <= (height - 1) * width) by (nonlinear_arith)
        requires
            0 <= y < height,
            0 < width,
    ;
    assert((height - 1) * width + width == width * height) by (nonlinear_arith);
    vstd::arithmetic::div_mod::lemma_fundamental_div_mod_converse(y * width + x, width, y, x);
}

/// A rectangular buffer of cells.
pub struct Screen {
    width: u16,
    height: u16,
    cells: Vec<Cell>,
}

impl View for Screen {
    type V = Frame;

    closed spec fn view(&self) -> Frame {
        Frame { width: self.width as int, height: self.height as int, cells: self.cells@ }
    }
}

impl Screen {
    #[verifier::type_invariant]
    spec fn inv(self) -> bool {
        self.cells@.len() == self.width * self.height
    }

    /// A blank screen of `size.0` columns and `size.1` rows.
    pub fn new(size: (u16, u16)) -> (screen: Screen)
        ensures
            screen@ == Frame::blank(size.0 as int, size.1 as int),
    {
        let cells = blank_cells(size.0, size.1);
        Screen { width: size.0, height: size.1, cells }
    }

    /// The number of columns.
    pub fn width(&self) -> (w: u16)
        ensures
            w == self@.width,
            self@.wf(),
    {
        proof {
            use_type_invariant(self);
        }
        self.width
    }

    /// The number of rows.
    pub fn height(&self) -> (h: u16)
        ensures
            h == self@.height,
            self@.wf(),
    {
        proof {
            use_type_invariant(self);
        }
        self.height
    }

    /// Gives the screen new dimensions; every cell is blank afterwards.
    pub fn resize(&mut self, size: (u16, u16))
        ensures
            final(self)@ == Frame::blank(size.0 as int, size.1 as int),
    {
        let cells = blank_cells(size.0, size.1);
        *self = Screen { width: size.0, height: size.1, cells };
    }

    /// Blanks every cell and keeps the dimensions.
    pub fn clear(&mut self)
        ensures
            final(self)@ == Frame::blank(old(self)@.width, old(self)@.height),
    {
        let cells = blank_cells(self.width, self.height);
        *self = Screen { width: self.width, height: self.height, cells };
    }

    /// Writes a glyph at `(x, y)`. A position outside the screen is left
    /// alone: nothing changes.
    pub fn set_cell(&mut self, x: u16, y: u16, rune: char, color: Color)
        ensures
            final(self)@ == old(self)@.put(x as int, y as int, Cell { rune, color }),
    {
        proof {
            use_type_invariant(&*self);
        }
        if x < self.width && y < self.height {
            proof {
                lemma_position_index(self.width as int, self.height as int, x as int, y as int);
                assert(self.width * self.height <= u16::MAX * u16::MAX) by (nonlinear_arith)
                    requires
                        0 <= self.width <= u16::MAX,
                        0 <= self.height <= u16::MAX,
                ;
            }
            let row: usize = y as usize * self.width as usize;
            let index: usize = row + x as usize;
            let mut taken = Screen { width: 0, height: 0, cells: Vec::new() };
            std::mem::swap(self, &mut taken);
            let Screen { width, height, mut cells } = taken;
            cells.set(index, Cell { rune, color });
            *self = Screen { width, height, cells };
        }
    }

    /// Writes a glyph at a position given by signed coordinates. A position
    /// outside the screen, a negative one among them, is left alone.
    pub fn set_cell_safe(&mut self, x: i16, y: i16, rune: char, color: Color)
        ensures
            final(self)@ == old(self)@.put(x as int, y as int, Cell { rune, color }),
    {
        if x >= 0 && y >= 0 {
            self.set_cell(x as u16, y as u16, rune, color);
        }
    }

    /// The cell at `(x, y)`, or a blank cell where the position lies outside
    /// the screen.
    pub fn get_cell(&self, x: u16, y: u16) -> (cell: Cell)
        ensures
            cell == if self@.contains(x as int, y as int) {
                self@.at(x as int, y as int)
            } else {
                blank_cell()
            },
    {
        proof {
            use_type_invariant(self);
        }
        if x < self.width && y < self.height {
            proof {
                lemma_position_index(self.width as int, self.height as int, x as int, y as int);
                assert(self.width * self.height <= u16::MAX * u16::MAX) by (nonlinear_arith)
                    requires
                        0 <= self.width <= u16::MAX,
                        0 <= self.height <= u16::MAX,
                ;
            }
            let row: usize = y as usize * self.width as usize;
            let index: usize = row + x as usize;
            self.cells[index]
        } else {
            Cell { rune: ' ', color: Color::White }
        }
    }

    /// Writes `text` in a row that starts at `(x, y)`; what falls outside the
    /// screen is dropped.
    pub fn draw_text(&mut self, x: u16, y: u16, text: &str, color: Color)
        ensures
            final(self)@ == old(self)@.put_text(x as int, y as int, text@, color),
    {
        let n: usize = text.unicode_len();
        let mut rest = text.chars();
        let mut i: usize = 0;
        loop
            invariant
                n == text@.len(),
                rest.decrease().is_some(),
                text@.take(i as int) + rest.remaining() == text@,
                0 <= i <= text@.len(),
                self@ == old(self)@.put_run(x as int, y as int, text@, color, i as int),
            ensures
                self@ == old(self)@.put_text(x as int, y as int, text@, color),
            decreases rest.decrease()->0,
        {
            let ghost seen = text@.take(i as int);
            let ghost coming = rest.remaining();
            let next = rest.next();
            match next {
                Some(rune) => {
                    assert(i < text@.len() && rune == text@[i as int]) by {
                        assert((seen + coming).len() == seen.len() + coming.len());
                        assert((seen + coming)[i as int] == coming[0]);
                    }
                    if i <= u16::MAX as usize - x as usize {
                        let column: u16 = x + i as u16;
                        self.set_cell(column, y, rune, color);
                    }
                    i += 1;
                    assert(text@.take(i as int) + rest.remaining() =~= text@);
                },
                None => {
                    assert(i == text@.len()) by {
                        assert((seen + coming).len() == seen.len() + coming.len());
                    }
                    break ;
                },
            }
        }
    }

    /// A copy of all cells, row by row.
    pub fn clone_buffer(&self) -> (cells: Vec<Cell>)
        ensures
            cells@ == self@.cells,
            self@.wf(),
    {
        proof {
            use_type_invariant(self);
        }
        let n: usize = self.cells.len();
        let mut copy: Vec<Cell> = Vec::new();
        let mut i: usize = 0;
        while i < n
            invariant
                n == self.cells@.len(),
                0 <= i <= n,
                copy@ == self.cells@.take(i as int),
            decreases n - i,
        {
            copy.push(self.cells[i]);
            i += 1;
        }
        assert(self.cells@.take(n as int) =~= self.cells@);
        copy
    }

    /// The position whose cell is the `index`-th of the buffer.
    pub fn index_to_xy(&self, index: usize) -> (position: (u16, u16))
        requires
            index < self@.width * self@.height,
        ensures
            position.0 == (index as int) % self@.width,
            position.1 == (index as int) / self@.width,
            self@.contains(position.0 as int, position.1 as int),
            position.1 * self@.width + position.0 == index,
    {
        let w: usize = self.width as usize;
        assert(w > 0) by (nonlinear_arith)
            requires
                index < w * self.height,
                w >= 0,
        ;
        proof {
            vstd::arithmetic::div_mod::lemma_fundamental_div_mod(index as int, w as int);
            vstd::arithmetic::div_mod::lemma_mod_bound(index as int, w as int);
            assert(index / w < self.height) by (nonlinear_arith)
                requires
                    index < w * self.height,
                    w > 0,
                    index == w * (index / w) + index % w,
                    0 <= index % w,
            ;
            assert(w * (index / w) == (index / w) * w) by (nonlinear_arith);
        }
        ((index % w) as u16, (index / w) as u16)
    }
}

/// `width * height` blank cells.
fn blank_cells(width: u16, height: u16) -> (cells: Vec<Cell>)
    ensures
        cells@ == Frame::blank(width as int, height as int).cells,
{
    assert(width * height <= u16::MAX * u16::MAX) by (nonlinear_arith)
        requires
            0 <= width <= u16::MAX,
            0 <= height <= u16::MAX,
    ;
    let n: usize = width as usize * height as usize;
    let mut cells: Vec<Cell> = Vec::new();
    let mut i: usize = 0;
    while i < n
        invariant
            0 <= i <= n,
            cells@.len() == i,
            forall|k: int| 0 <= k < i ==> cells@[k] == blank_cell(),
        decreases n - i,
    {
        cells.push(Cell { rune: ' ', color: Color::White });
        i += 1;
    }
    assert(cells@ =~= Frame::blank(width as int, height as int).cells);
    cells
}

} // verus!
