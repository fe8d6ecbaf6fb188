//! What a view answers when it is offered a key.

use vstd::prelude::*;
use std::rc::Rc;
use crate::model::CursiveModel;
use crate::Cursive;

verus! {

/// The outcome of offering a key to a view.
///
/// `C` is the type of the callbacks that a consuming view may hand back for
/// the controller to run.
pub enum EventResult<C> {
    /// The view has no use for the key.
    Ignored,
    /// The view took the key, and may ask for a callback to be run.
    Consumed(Option<Rc<C>>),
}

/// Something to be done to the controller, later and on request: the action
/// behind a global key, or the follow-up that a view asks for when it takes
/// a key.
pub trait Callback: Sized {
    /// Whether running the callback may take the controller from `pre` to
    /// `post`. A callback that says nothing of itself may do anything.
    open spec fn effect(&self, pre: CursiveModel<Self>, post: CursiveModel<Self>) -> bool {
        true
    }

    /// Runs the callback on the controller.
    fn call(&self, siv: &mut Cursive<Self>)
        requires
            old(siv).wf(),
        ensures
            final(siv).wf(),
            self.effect(old(siv)@, final(siv)@),
    ;
}

/// The callback that stops the event loop.
pub struct Quit;

impl Callback for Quit {
    open spec fn effect(&self, pre: CursiveModel<Self>, post: CursiveModel<Self>) -> bool {
        post == (CursiveModel { running: false, ..pre })
    }

    fn call(&self, siv: &mut Cursive<Self>) {
        siv.quit();
    }
}

} // verus!
