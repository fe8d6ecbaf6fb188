//! The contract that every view meets, and the selectors that find a view in
//! a tree of them.

use vstd::prelude::*;
use crate::event::EventResult;
use crate::printer::{Cell, Printer};
use crate::vec::Vec2;

pub mod id_view;
pub mod stack_view;
pub mod text_view;

pub use id_view::IdView;
pub use stack_view::{Layer, StackView};
pub use text_view::TextView;

verus! {

/// Says which view of a tree is meant.
pub enum Selector<'a> {
    /// The view that was given this name.
    Id(&'a str),
    /// The view at this position: an empty path is the view that is asked,
    /// and each index picks a child, counted from zero.
    Path(&'a [usize]),
}

/// What a selector asks for, as a value.
pub enum Query {
    /// The view with this name.
    Id(Seq<char>),
    /// The view at this position.
    Path(Seq<usize>),
}

impl<'a> View for Selector<'a> {
    type V = Query;

    open spec fn view(&self) -> Query {
        match *self {
            Selector::Id(id) => Query::Id(id@),
            Selector::Path(path) => Query::Path(path@),
        }
    }
}

/// A view that `find` has located, narrowed to the kind it is.
pub enum Found<'a> {
    /// The view is a text view.
    Text(&'a mut TextView),
    /// The view is of a kind that cannot be handed out.
    Other,
}

/// What a selector leads to, as a value.
pub enum Target {
    /// A text view, with the state it is in.
    Text(TextView),
    /// A view of a kind that cannot be handed out.
    Other,
}

/// The value that a located view had when it was found.
pub open spec fn target_of(found: Option<Found<'_>>) -> Option<Target> {
    match found {
        Some(Found::Text(t)) => Some(Target::Text(*t)),
        Some(Found::Other) => Some(Target::Other),
        None => None,
    }
}

/// A kind of view that a located view can be narrowed to.
pub trait Narrow: Sized {
    /// Whether a located view is of this kind.
    spec fn accepts(target: Target) -> bool;

    /// A view of this kind, as what a selector leads to.
    spec fn widen(self) -> Target;

    /// The located view, if it is of this kind.
    fn narrow<'a>(found: Found<'a>) -> (view: Option<&'a mut Self>)
        ensures
            view is Some <==> Self::accepts(target_of(Some(found))->0),
            view matches Some(v) ==> Some((*v).widen()) == target_of(Some(found)),
            view matches Some(v) ==> (found matches Found::Text(t) ==> (*final(v)).widen()
                == Target::Text(*final(t))),
            view matches Some(v) ==> (found is Other ==> (*final(v)).widen() == Target::Other),
            view is None ==> (found matches Found::Text(t) ==> *final(t) == *t),
    ;
}

impl Narrow for TextView {
    open spec fn accepts(target: Target) -> bool {
        target is Text
    }

    open spec fn widen(self) -> Target {
        Target::Text(self)
    }

    fn narrow<'a>(found: Found<'a>) -> (view: Option<&'a mut TextView>) {
        match found {
            Found::Text(text) => Some(text),
            Found::Other => None,
        }
    }
}

/// A widget: something that can be laid out, drawn, offered keys and searched.
///
/// What a widget does is stated over five functions of its state: whether it
/// is laid out for a size, what it draws, what it answers to a key, whether
/// it can hold the focus, and where a selector leads. A widget that says
/// nothing of one of them gets the plainest answer: it draws nothing, ignores
/// every key, refuses the focus and holds no view that a selector could find.
///
/// `C` is the type of the callbacks that its answers to keys may carry.
pub trait Widget<C> {
    /// Whether the geometry that the view has cached is the one for `size`.
    /// A view that caches none is laid out for every size.
    open spec fn laid_out(&self, size: Vec2) -> bool {
        true
    }

    /// The cells that the view draws through `printer`.
    open spec fn rendering(&self, printer: Printer, focused: bool) -> Seq<Cell> {
        Seq::empty()
    }

    /// What the view answers to `key`.
    open spec fn response(&self, key: i32) -> EventResult<C> {
        EventResult::Ignored
    }

    /// Whether the view can hold the input focus.
    open spec fn focusable(&self) -> bool {
        false
    }

    /// The view that `query` leads to, here or below, if there is one.
    open spec fn lookup(&self, query: Query) -> Option<Target> {
        None
    }

    /// Computes and caches the geometry of the view for the size it is granted.
    /// Laying out again for the same size changes nothing that can be seen.
    fn layout(&mut self, size: Vec2)
        ensures
            final(self).laid_out(size),
            old(self).laid_out(size) ==> {
                &&& forall|other: Vec2| final(self).laid_out(other) == old(self).laid_out(other)
                &&& forall|printer: Printer, focused: bool|
                    final(self).rendering(printer, focused) == old(self).rendering(
                        printer,
                        focused,
                    )
                &&& forall|key: i32| final(self).response(key) == old(self).response(key)
                &&& final(self).focusable() == old(self).focusable()
                &&& forall|query: Query| final(self).lookup(query) == old(self).lookup(query)
            },
    ;

    /// Draws the view from scratch, inside `printer` only.
    fn draw(&self, printer: &Printer, focused: bool, frame: &mut Vec<Cell>)
        ensures
            final(frame)@ == old(frame)@ + self.rendering(*printer, focused),
            printer.covers_all(self.rendering(*printer, focused)),
    ;

    /// Offers `key` to the view.
    fn on_key_event(&mut self, key: i32) -> (result: EventResult<C>)
        ensures
            result == old(self).response(key),
    ;

    /// Whether the view can take the focus. This changes nothing.
    fn take_focus(&self) -> (yes: bool)
        ensures
            yes == self.focusable(),
    ;

    /// Looks for the view that `selector` leads to, here and below. A miss
    /// leaves the view as it was.
    fn find<'a>(&'a mut self, selector: &Selector<'_>) -> (found: Option<Found<'a>>)
        ensures
            target_of(found) == old(self).lookup(selector@),
            found matches Some(Found::Text(t)) ==> final(self).lookup(selector@) == Some(
                Target::Text(*final(t)),
            ),
            !(found matches Some(Found::Text(_))) ==> {
                &&& forall|size: Vec2| final(self).laid_out(size) == old(self).laid_out(size)
                &&& forall|printer: Printer, focused: bool|
                    final(self).rendering(printer, focused) == old(self).rendering(
                        printer,
                        focused,
                    )
                &&& forall|key: i32| final(self).response(key) == old(self).response(key)
                &&& final(self).focusable() == old(self).focusable()
                &&& forall|query: Query| final(self).lookup(query) == old(self).lookup(query)
            },
    ;
}

} // verus!
