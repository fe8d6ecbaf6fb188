//! A view that shows a text, broken into rows that fit its width.

use vstd::prelude::*;
use vstd::slice::slice_subrange;
use vstd::std_specs::iter::IteratorSpec;
use crate::event::EventResult;
use crate::printer::{lemma_printed_is_covered, lemma_printed_outside_is_empty, Cell, Printer};
use crate::vec::Vec2;
use crate::view::{Found, Query, Selector, Target, Widget};

verus! {

/// One row of a text that was laid out: the characters from `start` up to,
/// and without, `end`.
#[derive(Clone, Copy, Debug, PartialEq, Eq, Structural)]
pub struct Row {
    pub start: usize,
    pub end: usize,
}

/// Where the row that starts at `from` ends when `width` columns are left:
/// at the end of the text, at a line break, or where the columns run out.
pub open spec fn row_end(text: Seq<char>, from: int, width: int) -> int
    decreases width,
{
    if width <= 0 || from < 0 || from >= text.len() || text[from] == '\n' {
        from
    } else {
        row_end(text, from + 1, width - 1)
    }
}

/// Where the row after the one that ends at `end` starts: a line break that
/// ended the row is skipped.
pub open spec fn next_row(text: Seq<char>, end: int) -> int {
    if 0 <= end < text.len() && text[end] == '\n' {
        end + 1
    } else {
        end
    }
}

/// The rows of the part of `text` from `from` on, at `width` columns. With no
/// column there is no row.
pub open spec fn rows_from(text: Seq<char>, from: int, width: int) -> Seq<Row>
    decreases text.len() - from,
    via rows_from_decreases
{
    if width <= 0 || from < 0 || from >= text.len() {
        Seq::empty()
    } else {
        let end: int = row_end(text, from, width);
        seq![Row { start: from as usize, end: end as usize }] + rows_from(
            text,
            next_row(text, end),
            width,
        )
    }
}

#[via_fn]
proof fn rows_from_decreases(text: Seq<char>, from: int, width: int) {
    if !(width <= 0 || from < 0 || from >= text.len()) {
        lemma_row_end(text, from, width);
    }
}

/// A row ends no earlier than it starts, inside the text, and after at most
/// `width` characters; and the next row starts further on.
pub proof fn lemma_row_end(text: Seq<char>, from: int, width: int)
    requires
        0 <= from <= text.len(),
        0 <= width,
    ensures
        from <= row_end(text, from, width) <= text.len(),
        row_end(text, from, width) <= from + width,
        from < text.len() && width > 0 ==> from < next_row(text, row_end(text, from, width)),
        next_row(text, row_end(text, from, width)) <= text.len(),
    decreases width,
{
    if !(width <= 0 || from >= text.len() || text[from] == '\n') {
        lemma_row_end(text, from + 1, width - 1);
    }
}

/// The characters of one row.
pub open spec fn row_text(text: Seq<char>, row: Row) -> Seq<char> {
    text.subrange(row.start as int, row.end as int)
}

/// What drawing the first `n` rows writes: row `i` goes to line `i` of the
/// printer, from its left edge.
pub open spec fn rows_rendering(printer: Printer, text: Seq<char>, rows: Seq<Row>, n: int) -> Seq<
    Cell,
>
    decreases n,
{
    if n <= 0 {
        Seq::empty()
    } else {
        rows_rendering(printer, text, rows, n - 1) + printer.printed(
            Vec2 { x: 0, y: (n - 1) as usize },
            row_text(text, rows[n - 1]),
        )
    }
}

/// The rows below the printer add nothing to what is drawn.
pub proof fn lemma_rows_below_add_nothing(
    printer: Printer,
    text: Seq<char>,
    rows: Seq<Row>,
    shown: int,
    n: int,
)
    requires
        printer.size().y <= shown <= n,
        n <= usize::MAX,
    ensures
        rows_rendering(printer, text, rows, n) == rows_rendering(printer, text, rows, shown),
    decreases n - shown,
{
    if shown < n {
        lemma_rows_below_add_nothing(printer, text, rows, shown, n - 1);
        lemma_printed_outside_is_empty(
            printer,
            Vec2 { x: 0, y: (n - 1) as usize },
            row_text(text, rows[n - 1]),
        );
    }
}

/// Every cell of a rendering of rows lies inside the printer.
pub proof fn lemma_rows_rendering_is_covered(
    printer: Printer,
    text: Seq<char>,
    rows: Seq<Row>,
    n: int,
)
    requires
        printer.wf(),
    ensures
        printer.covers_all(rows_rendering(printer, text, rows, n)),
    decreases n,
{
    if n > 0 {
        lemma_rows_rendering_is_covered(printer, text, rows, n - 1);
        lemma_printed_is_covered(
            printer,
            Vec2 { x: 0, y: (n - 1) as usize },
            row_text(text, rows[n - 1]),
        );
    }
}

/// Every row of a text lies within the text, and holds at most `width`
/// characters.
pub proof fn lemma_rows_in_text(text: Seq<char>, from: int, width: int)
    requires
        0 <= from <= text.len() <= usize::MAX,
    ensures
        forall|i: int|
            0 <= i < rows_from(text, from, width).len() ==> {
                let row = #[trigger] rows_from(text, from, width)[i];
                from <= row.start <= row.end <= text.len() && row.end - row.start <= width
            },
    decreases text.len() - from,
{
    if !(width <= 0 || from >= text.len()) {
        lemma_row_end(text, from, width);
        let end: int = row_end(text, from, width);
        lemma_rows_in_text(text, next_row(text, end), width);
        let rest = rows_from(text, next_row(text, end), width);
        let all = rows_from(text, from, width);
        assert forall|i: int| 0 <= i < all.len() implies {
            let row = #[trigger] all[i];
            from <= row.start <= row.end <= text.len() && row.end - row.start <= width
        } by {
            if i > 0 {
                assert(all[i] == rest[i - 1]);
            }
        }
    }
}

/// The characters of `text`, in order.
fn chars_of(text: &str) -> (chars: Vec<char>)
    ensures
        chars@ == text@,
{
    broadcast use vstd::string::group_string_axioms;

    let mut rest = text.chars();
    let mut chars: Vec<char> = Vec::new();
    loop
        invariant
            rest.obeys_prophetic_iter_laws(),
            rest.decrease() is Some,
            chars@ + rest.remaining() == text@,
        ensures
            chars@ == text@,
        decreases rest.decrease()->0,
    {
        match rest.next() {
            Some(c) => {
                chars.push(c);
                assert(chars@ + rest.remaining() =~= text@);
            },
            None => {
                break ;
            },
        }
    }
    chars
}

/// Breaks `text` into rows of at most `width` characters.
fn compute_rows(text: &Vec<char>, width: usize) -> (rows: Vec<Row>)
    ensures
        rows@ == rows_from(text@, 0, width as int),
{
    let mut rows: Vec<Row> = Vec::new();
    if width == 0 {
        return rows;
    }
    let n: usize = text.len();
    let mut from: usize = 0;
    while from < n
        invariant
            from <= n,
            n == text@.len(),
            width > 0,
            rows@ + rows_from(text@, from as int, width as int) == rows_from(
                text@,
                0,
                width as int,
            ),
        decreases n - from,
    {
        let mut end: usize = from;
        while end < n && end - from < width && text[end] != '\n'
            invariant
                from <= end <= n,
                n == text@.len(),
                end - from <= width,
                row_end(text@, from as int, width as int) == row_end(
                    text@,
                    end as int,
                    width - (end - from),
                ),
            decreases n - end,
        {
            end = end + 1;
        }
        proof {
            lemma_row_end(text@, from as int, width as int);
            assert(rows@.push(Row { start: from, end }) + rows_from(
                text@,
                next_row(text@, end as int),
                width as int,
            ) =~= rows@ + rows_from(text@, from as int, width as int));
        }
        rows.push(Row { start: from, end });
        from = if end < n && text[end] == '\n' { end + 1 } else { end };
    }
    rows
}

/// The rows of a text view, and the width they were computed for.
struct RowCache {
    width: usize,
    rows: Vec<Row>,
}

/// A view that shows a text. It does not take the focus and uses no key.
pub struct TextView {
    content: Vec<char>,
    cache: RowCache,
}

impl TextView {
    /// The cached rows are those of the content at the cached width.
    #[verifier::type_invariant]
    closed spec fn inv(self) -> bool {
        self.cache.rows@ == rows_from(self.content@, 0, self.cache.width as int)
    }

    /// The text that the view shows.
    pub closed spec fn text(&self) -> Seq<char> {
        self.content@
    }

    /// The width that the view was last laid out for; zero before that.
    pub closed spec fn width(&self) -> int {
        self.cache.width as int
    }

    /// The rows that the view shows.
    pub open spec fn rows(&self) -> Seq<Row> {
        rows_from(self.text(), 0, self.width())
    }

    /// A view of `content` that has not been laid out yet.
    pub fn new(content: &str) -> (view: TextView)
        ensures
            view.text() == content@,
            view.width() == 0,
    {
        TextView { content: chars_of(content), cache: RowCache { width: 0, rows: Vec::new() } }
    }

    /// Replaces the text, and keeps the width.
    pub fn set_content(&mut self, content: &str)
        ensures
            final(self).text() == content@,
            final(self).width() == old(self).width(),
    {
        let chars = chars_of(content);
        let width: usize = self.cache.width;
        let rows = compute_rows(&chars, width);
        *self = TextView { content: chars, cache: RowCache { width, rows } };
    }
}

impl<C> Widget<C> for TextView {
    open spec fn laid_out(&self, size: Vec2) -> bool {
        self.width() == size.x
    }

    open spec fn rendering(&self, printer: Printer, focused: bool) -> Seq<Cell> {
        rows_rendering(printer, self.text(), self.rows(), self.rows().len() as int)
    }

    open spec fn response(&self, key: i32) -> EventResult<C> {
        EventResult::Ignored
    }

    open spec fn focusable(&self) -> bool {
        false
    }

    open spec fn lookup(&self, query: Query) -> Option<Target> {
        match query {
            Query::Path(path) if path.len() == 0 => Some(Target::Text(*self)),
            _ => None,
        }
    }

    fn layout(&mut self, size: Vec2)
        ensures
            final(self).text() == old(self).text(),
    {
        if self.cache.width != size.x {
            let rows = compute_rows(&self.content, size.x);
            self.cache = RowCache { width: size.x, rows };
        }
    }

    /// The rows go to the lines of the printer from its top, one each, and
    /// the rows that it has no line for are left out.
    fn draw(&self, printer: &Printer, focused: bool, frame: &mut Vec<Cell>) {
        let n: usize = self.cache.rows.len();
        let len: usize = self.content.len();
        let height: usize = printer.size().y;
        proof {
            use_type_invariant(self);
            use_type_invariant(printer);
            lemma_rows_in_text(self.content@, 0, self.cache.width as int);
            lemma_rows_rendering_is_covered(*printer, self.text(), self.rows(), n as int);
        }
        let mut i: usize = 0;
        while i < n && i < height
            invariant
                i <= n,
                n == self.cache.rows@.len(),
                len == self.content@.len(),
                height == printer.size().y,
                self.cache.rows@ == self.rows(),
                forall|j: int|
                    0 <= j < n ==> (#[trigger] self.cache.rows@[j]).start <= self.cache.rows@[j].end
                        <= len,
                frame@ == old(frame)@ + rows_rendering(
                    *printer,
                    self.text(),
                    self.rows(),
                    i as int,
                ),
            decreases n - i,
        {
            let row = self.cache.rows[i];
            let piece = slice_subrange(self.content.as_slice(), row.start, row.end);
            printer.print(Vec2::new(0, i), piece, frame);
            i = i + 1;
        }
        proof {
            if i < n {
                lemma_rows_below_add_nothing(
                    *printer,
                    self.text(),
                    self.rows(),
                    i as int,
                    n as int,
                );
            }
        }
    }

    fn on_key_event(&mut self, key: i32) -> (result: EventResult<C>) {
        EventResult::Ignored
    }

    fn take_focus(&self) -> (yes: bool) {
        false
    }

    fn find<'a>(&'a mut self, selector: &Selector<'_>) -> (found: Option<Found<'a>>) {
        match selector {
            Selector::Path(path) => {
                if path.len() == 0 {
                    Some(Found::Text(self))
                } else {
                    None
                }
            },
            Selector::Id(_) => None,
        }
    }
}

} // verus!
