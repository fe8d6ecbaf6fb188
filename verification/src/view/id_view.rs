//! A wrapper that gives a view a name, for selectors to find it by.

use vstd::prelude::*;
use vstd::slice::slice_subrange;
use crate::event::EventResult;
use crate::printer::{Cell, Printer};
use crate::vec::Vec2;
use crate::view::{Found, Query, Selector, Target, Widget};

verus! {

/// A view with a name. It looks and behaves as the view inside it does.
pub struct IdView<T> {
    id: String,
    view: T,
}

impl<T> IdView<T> {
    /// The name of the view.
    pub closed spec fn id(&self) -> Seq<char> {
        self.id@
    }

    /// The view that carries the name.
    pub closed spec fn inner(&self) -> T {
        self.view
    }

    /// Gives `view` the name `id`.
    pub fn new(id: &str, view: T) -> (named: IdView<T>)
        ensures
            named.id() == id@,
            named.inner() == view,
    {
        IdView { id: id.to_owned(), view }
    }
}

impl<C, T: Widget<C>> Widget<C> for IdView<T> {
    open spec fn laid_out(&self, size: Vec2) -> bool {
        self.inner().laid_out(size)
    }

    open spec fn rendering(&self, printer: Printer, focused: bool) -> Seq<Cell> {
        self.inner().rendering(printer, focused)
    }

    open spec fn response(&self, key: i32) -> EventResult<C> {
        self.inner().response(key)
    }

    open spec fn focusable(&self) -> bool {
        self.inner().focusable()
    }

    /// The name leads to the view inside, as does the path that picks the
    /// only child; any other name is looked for inside.
    open spec fn lookup(&self, query: Query) -> Option<Target> {
        match query {
            Query::Id(id) => {
                if id == self.id() {
                    self.inner().lookup(Query::Path(Seq::empty()))
                } else {
                    self.inner().lookup(query)
                }
            },
            Query::Path(path) => {
                if path.len() == 0 {
                    Some(Target::Other)
                } else if path[0] == 0 {
                    self.inner().lookup(Query::Path(path.drop_first()))
                } else {
                    None
                }
            },
        }
    }

    fn layout(&mut self, size: Vec2)
        ensures
            final(self).id() == old(self).id(),
    {
        self.view.layout(size);
    }

    fn draw(&self, printer: &Printer, focused: bool, frame: &mut Vec<Cell>) {
        self.view.draw(printer, focused, frame);
    }

    fn on_key_event(&mut self, key: i32) -> (result: EventResult<C>) {
        self.view.on_key_event(key)
    }

    fn take_focus(&self) -> (yes: bool) {
        self.view.take_focus()
    }

    fn find<'a>(&'a mut self, selector: &Selector<'_>) -> (found: Option<Found<'a>>)
        ensures
            final(self).id() == old(self).id(),
    {
        match selector {
            Selector::Id(id) => {
                let wanted: String = (*id).to_owned();
                if wanted == self.id {
                    let here: [usize; 0] = [];
                    let path = here.as_slice();
                    assert(path@ =~= Seq::<usize>::empty());
                    self.view.find(&Selector::Path(path))
                } else {
                    self.view.find(selector)
                }
            },
            Selector::Path(path) => {
                if path.len() == 0 {
                    Some(Found::Other)
                } else if path[0] == 0 {
                    let rest = slice_subrange(path, 1, path.len());
                    self.view.find(&Selector::Path(rest))
                } else {
                    None
                }
            },
        }
    }
}

} // verus!
