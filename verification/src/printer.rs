//! The drawing surface handed to views: a rectangle of the screen, and the
//! cells that were written through it.

use vstd::prelude::*;
use crate::vec::Vec2;

verus! {

/// One character written at an absolute position of the screen.
#[derive(Clone, Copy, Debug, PartialEq, Eq, Structural)]
pub struct Cell {
    pub pos: Vec2,
    pub ch: char,
}

/// A rectangle of the screen that a view may draw in.
///
/// Positions given to a printer are relative to its offset, and whatever
/// falls outside its size is dropped, so a view cannot write outside the
/// rectangle it was handed.
#[derive(Clone, Copy, Debug)]
pub struct Printer {
    offset: Vec2,
    size: Vec2,
}

impl Printer {
    /// The far corner of the rectangle is a position of the screen.
    #[verifier::type_invariant]
    pub closed spec fn wf(self) -> bool {
        &&& self.offset.x + self.size.x <= usize::MAX
        &&& self.offset.y + self.size.y <= usize::MAX
    }

    /// The top left corner, in absolute coordinates.
    pub closed spec fn spec_offset(&self) -> Vec2 {
        self.offset
    }

    /// The width and height of the rectangle.
    pub closed spec fn spec_size(&self) -> Vec2 {
        self.size
    }

    /// Whether the absolute position `pos` lies inside the rectangle.
    pub open spec fn covers(self, pos: Vec2) -> bool {
        &&& self.offset().x <= pos.x < self.offset().x + self.size().x
        &&& self.offset().y <= pos.y < self.offset().y + self.size().y
    }

    /// Whether every cell of `cells` lies inside the rectangle.
    pub open spec fn covers_all(self, cells: Seq<Cell>) -> bool {
        forall|i: int| 0 <= i < cells.len() ==> self.covers(#[trigger] cells[i].pos)
    }

    /// Where the rectangle that `sub_printer` cuts out starts: `offset` cells
    /// into this one, and no further than its far corner.
    pub open spec fn sub_offset(self, offset: Vec2) -> Vec2 {
        let inner = offset.min(self.size());
        Vec2 {
            x: (self.offset().x + inner.x) as usize,
            y: (self.offset().y + inner.y) as usize,
        }
    }

    /// The size of that rectangle: `size`, cut down to what is left of this
    /// printer from `offset` on.
    pub open spec fn sub_size(self, offset: Vec2, size: Vec2) -> Vec2 {
        size.min(self.size().saturating_sub(offset))
    }

    /// The cell that the character at index `i` of a text printed at `pos`
    /// lands in.
    pub open spec fn cell_at(self, pos: Vec2, i: int, ch: char) -> Cell {
        Cell {
            pos: Vec2 {
                x: (self.offset().x + pos.x + i) as usize,
                y: (self.offset().y + pos.y) as usize,
            },
            ch,
        }
    }

    /// Whether the character at index `i` of a text printed at `pos` still
    /// falls inside the rectangle.
    pub open spec fn fits(self, pos: Vec2, i: int) -> bool {
        pos.y < self.size().y && pos.x + i < self.size().x
    }

    /// The cells that `print` writes: one for each character of `text` that
    /// falls inside the rectangle, from `pos` rightwards on one row.
    pub open spec fn printed(self, pos: Vec2, text: Seq<char>) -> Seq<Cell>
        decreases text.len(),
    {
        if text.len() == 0 {
            Seq::empty()
        } else {
            let before = self.printed(pos, text.drop_last());
            if self.fits(pos, text.len() - 1) {
                before.push(self.cell_at(pos, text.len() - 1, text.last()))
            } else {
                before
            }
        }
    }

    /// The printer for the whole of a screen of the given size.
    pub closed spec fn screen(size: Vec2) -> Printer {
        Printer { offset: Vec2 { x: 0, y: 0 }, size }
    }

    /// A printer for the whole screen of the given size.
    pub fn new(size: Vec2) -> (p: Printer)
        ensures
            p == Printer::screen(size),
            p.wf(),
            p.offset() == (Vec2 { x: 0, y: 0 }),
            p.size() == size,
    {
        Printer { offset: Vec2::zero(), size }
    }

    /// The top left corner, in absolute coordinates.
    #[verifier::when_used_as_spec(spec_offset)]
    pub fn offset(&self) -> (v: Vec2)
        ensures
            v == self.offset(),
    {
        self.offset
    }

    /// The width and height of the rectangle.
    #[verifier::when_used_as_spec(spec_size)]
    pub fn size(&self) -> (v: Vec2)
        ensures
            v == self.size(),
    {
        self.size
    }

    /// A printer for a part of this one: the rectangle that starts `offset`
    /// cells into this one and has at most `size`. It never reaches outside
    /// this one.
    pub fn sub_printer(&self, offset: Vec2, size: Vec2) -> (p: Printer)
        ensures
            p.wf(),
            p.offset() == self.sub_offset(offset),
            p.size() == self.sub_size(offset, size),
            forall|pos: Vec2| p.covers(pos) ==> self.covers(pos),
    {
        proof {
            use_type_invariant(self);
        }
        let inner = offset.min(self.size);
        let room = self.size.saturating_sub(offset);
        Printer {
            offset: Vec2::new(self.offset.x + inner.x, self.offset.y + inner.y),
            size: size.min(room),
        }
    }

    /// Writes `text` on one row, starting at `pos`, and drops what does not
    /// fit. The cells are added at the end of `frame`, and all of them lie
    /// inside the printer.
    pub fn print(&self, pos: Vec2, text: &[char], frame: &mut Vec<Cell>)
        ensures
            final(frame)@ == old(frame)@ + self.printed(pos, text@),
            self.covers_all(self.printed(pos, text@)),
    {
        proof {
            use_type_invariant(self);
            lemma_printed_is_covered(*self, pos, text@);
        }
        let inside: bool = pos.x < self.size.x && pos.y < self.size.y;
        let room: usize = if inside { self.size.x - pos.x } else { 0 };
        let mut i: usize = 0;
        while i < text.len() && i < room
            invariant
                0 <= i <= text@.len(),
                self.wf(),
                inside == (pos.x < self.size.x && pos.y < self.size.y),
                room == if inside { self.size.x - pos.x } else { 0 },
                frame@ == old(frame)@ + self.printed(pos, text@.take(i as int)),
            decreases text@.len() - i,
        {
            proof {
                assert(text@.take(i + 1).drop_last() =~= text@.take(i as int));
            }
            let cell = Cell {
                pos: Vec2::new(self.offset.x + pos.x + i, self.offset.y + pos.y),
                ch: text[i],
            };
            frame.push(cell);
            i = i + 1;
        }
        proof {
            lemma_printed_is_clipped(*self, pos, text@, i as int);
        }
    }
}

/// The printer for a whole screen starts at the origin and has the size of
/// the screen.
pub proof fn lemma_screen_printer(size: Vec2)
    ensures
        Printer::screen(size).wf(),
        Printer::screen(size).offset() == (Vec2 { x: 0, y: 0 }),
        Printer::screen(size).size() == size,
{
}

/// A printer without area covers no cell: nothing can be drawn through it.
pub proof fn lemma_empty_printer_covers_nothing(printer: Printer, cells: Seq<Cell>)
    requires
        printer.wf(),
        printer.size().is_empty(),
        printer.covers_all(cells),
    ensures
        cells == Seq::<Cell>::empty(),
{
    if cells.len() > 0 {
        assert(printer.covers(cells[0].pos));
    }
}

/// What does not fit is dropped: the characters from the first one that
/// falls outside on take no part in what is written.
pub proof fn lemma_printed_is_clipped(printer: Printer, pos: Vec2, text: Seq<char>, n: int)
    requires
        0 <= n <= text.len(),
        n < text.len() ==> !printer.fits(pos, n),
    ensures
        printer.printed(pos, text) == printer.printed(pos, text.take(n)),
    decreases text.len(),
{
    if n < text.len() {
        lemma_printed_is_clipped(printer, pos, text.drop_last(), n);
        assert(text.drop_last().take(n) =~= text.take(n));
    } else {
        assert(text.take(n) =~= text);
    }
}

/// What `print` writes, cell by cell: as many cells as characters fit between
/// `pos` and the right edge, the character at index `i` in the cell `i`
/// columns right of `pos`.
pub proof fn lemma_printed_cells(printer: Printer, pos: Vec2, text: Seq<char>)
    requires
        pos.x < printer.size().x,
        pos.y < printer.size().y,
    ensures
        printer.printed(pos, text).len() == if text.len() <= printer.size().x - pos.x {
            text.len() as int
        } else {
            printer.size().x - pos.x
        },
        forall|i: int|
            0 <= i < printer.printed(pos, text).len() ==> #[trigger] printer.printed(pos, text)[i]
                == printer.cell_at(pos, i, text[i]),
    decreases text.len(),
{
    if text.len() > 0 {
        lemma_printed_cells(printer, pos, text.drop_last());
    }
}

/// Nothing is written on a row below the printer, or from a column right of it.
pub proof fn lemma_printed_outside_is_empty(printer: Printer, pos: Vec2, text: Seq<char>)
    requires
        pos.y >= printer.size().y || pos.x >= printer.size().x,
    ensures
        printer.printed(pos, text) == Seq::<Cell>::empty(),
    decreases text.len(),
{
    if text.len() > 0 {
        lemma_printed_outside_is_empty(printer, pos, text.drop_last());
    }
}

/// Whatever `print` writes lies inside the printer.
pub proof fn lemma_printed_is_covered(printer: Printer, pos: Vec2, text: Seq<char>)
    requires
        printer.wf(),
    ensures
        printer.covers_all(printer.printed(pos, text)),
        printer.printed(pos, text).len() <= text.len(),
    decreases text.len(),
{
    if text.len() > 0 {
        lemma_printed_is_covered(printer, pos, text.drop_last());
    }
}

} // verus!
