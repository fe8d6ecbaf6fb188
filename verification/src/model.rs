//! The state of the controller as a value, what each of its steps does to
//! that state, and what follows for the event loop.

use vstd::prelude::*;
use crate::event::{Callback, EventResult, Quit};
use crate::printer::{Cell, Printer};
use crate::vec::Vec2;
use crate::view::stack_view::{
    all_laid_out, layers_rendering, lemma_same_layers, offered, same_layers, stack_response,
};
use crate::view::Layer;

verus! {

/// The state of a controller, as a value.
#[verifier::reject_recursive_types(C)]
pub struct CursiveModel<C> {
    /// The layers of each screen, bottom first.
    pub screens: Seq<Seq<Layer<C>>>,
    /// The index of the screen that is shown and offered keys.
    pub active_screen: int,
    /// Whether the event loop goes on.
    pub running: bool,
    /// The callbacks for the keys that no view takes.
    pub global_callbacks: Map<i32, C>,
    /// The size of the terminal, as last reported.
    pub size: Vec2,
    /// How long a read of a key may wait, in milliseconds; negative for ever.
    pub timeout: int,
}

impl<C> CursiveModel<C> {
    /// There is a screen, and the active one is one of them.
    pub open spec fn wf(self) -> bool {
        0 <= self.active_screen < self.screens.len()
    }

    /// The layers of the active screen.
    pub open spec fn screen(self) -> Seq<Layer<C>> {
        self.screens[self.active_screen]
    }

    /// What drawing the active screen writes on a terminal of the size that
    /// was last reported.
    pub open spec fn frame(self) -> Seq<Cell> {
        layers_rendering(
            self.screen(),
            self.screen().len() as int,
            Printer::screen(self.size),
            true,
        )
    }

    /// The same state with one more screen, which is empty.
    pub open spec fn with_new_screen(self) -> CursiveModel<C> {
        CursiveModel { screens: self.screens.push(Seq::empty()), ..self }
    }

    /// The same state with `n` more screens, all empty.
    pub open spec fn with_new_screens(self, n: nat) -> CursiveModel<C>
        decreases n,
    {
        if n == 0 {
            self
        } else {
            self.with_new_screens((n - 1) as nat).with_new_screen()
        }
    }

    /// The same state with other layers on the active screen.
    pub open spec fn with_screen(self, layers: Seq<Layer<C>>) -> CursiveModel<C> {
        CursiveModel { screens: self.screens.update(self.active_screen, layers), ..self }
    }
}

/// The state that a new controller starts in: one empty screen, running, no
/// callback, and reads that wait for ever.
pub open spec fn initial_model<C>() -> CursiveModel<C> {
    CursiveModel {
        screens: seq![Seq::empty()],
        active_screen: 0,
        running: true,
        global_callbacks: Map::empty(),
        size: Vec2 { x: 0, y: 0 },
        timeout: -1,
    }
}

/// How long a read of a key waits at `fps` frames a second: a thousandth of a
/// second for each frame, and for ever when `fps` is zero.
pub open spec fn refresh_timeout(fps: u32) -> int {
    if fps == 0 {
        -1
    } else {
        1000int / (fps as int)
    }
}

/// The active screen was laid out for the size of the terminal. Where it was
/// laid out for that size before, nothing that can be seen has changed.
pub open spec fn laid<C>(pre: CursiveModel<C>, post: CursiveModel<C>) -> bool {
    &&& post == pre.with_screen(post.screen())
    &&& post.screen().len() == pre.screen().len()
    &&& all_laid_out(post.screen(), pre.size)
    &&& all_laid_out(pre.screen(), pre.size) ==> same_layers(pre.screen(), post.screen())
}

/// What becomes of a key that the active screen left alone: its global
/// callback runs, if it has one, and otherwise nothing happens.
pub open spec fn global_effect<C: Callback>(
    pre: CursiveModel<C>,
    key: i32,
    post: CursiveModel<C>,
) -> bool {
    if pre.global_callbacks.contains_key(key) {
        pre.global_callbacks[key].effect(pre, post)
    } else {
        post == pre
    }
}

/// What the controller does with the answer of the active screen to `key`.
/// An ignored key goes to the global callbacks; a key that was taken runs
/// the callback that came with it, if one came.
pub open spec fn reacted<C: Callback>(
    pre: CursiveModel<C>,
    key: i32,
    result: EventResult<C>,
    post: CursiveModel<C>,
) -> bool {
    match result {
        EventResult::Ignored => global_effect(pre, key, post),
        EventResult::Consumed(None) => post == pre,
        EventResult::Consumed(Some(callback)) => callback.effect(pre, post),
    }
}

/// Whether a callback stops the controller, whatever state it runs in.
pub open spec fn stops<C: Callback>(callback: C) -> bool {
    forall|pre: CursiveModel<C>, post: CursiveModel<C>|
        #[trigger] callback.effect(pre, post) ==> !post.running
}

/// The active screen was offered a key: nothing but its top layer's view may
/// have changed.
pub open spec fn delivered<C>(pre: CursiveModel<C>, post: CursiveModel<C>) -> bool {
    &&& post == pre.with_screen(post.screen())
    &&& offered(pre.screen(), post.screen())
}

/// The routing of one key: the active screen is offered the key, and the
/// controller reacts to its answer.
pub open spec fn routed<C: Callback>(
    pre: CursiveModel<C>,
    key: i32,
    post: CursiveModel<C>,
) -> bool {
    exists|mid: CursiveModel<C>|
        {
            &&& #[trigger] delivered(pre, mid)
            &&& reacted(mid, key, stack_response(pre.screen(), key), post)
        }
}

/// One turn of the event loop: the active screen is laid out and drawn,
/// which gives `frame`, and then `key` is routed.
pub open spec fn stepped<C: Callback>(
    pre: CursiveModel<C>,
    key: i32,
    post: CursiveModel<C>,
    frame: Seq<Cell>,
) -> bool {
    exists|drawn: CursiveModel<C>|
        {
            &&& #[trigger] laid(pre, drawn)
            &&& frame == drawn.frame()
            &&& routed(drawn, key, post)
        }
}

/// The event loop went through one turn for each of `keys`, in order, drew
/// `frames` on the way, and took the controller from `pre` to `post`. A turn
/// starts only while the controller is running.
pub open spec fn ran<C: Callback>(
    pre: CursiveModel<C>,
    keys: Seq<i32>,
    frames: Seq<Seq<Cell>>,
    post: CursiveModel<C>,
) -> bool
    decreases keys.len(),
{
    if keys.len() == 0 {
        frames.len() == 0 && post == pre
    } else {
        &&& frames.len() == keys.len()
        &&& exists|mid: CursiveModel<C>|
            {
                &&& ran(pre, keys.drop_last(), frames.drop_last(), mid)
                &&& mid.running
                &&& #[trigger] stepped(mid, keys.last(), post, frames.last())
            }
    }
}

/// The ids of new screens count up from the number of screens there were:
/// after `n` screens were added, the next one gets an id that is `n` higher,
/// and that id can be made the active screen at once. A new controller has
/// the screen 0 alone, so that its screens are numbered from 1 on as they
/// are added.
pub proof fn lemma_screen_ids_count_up<C>(pre: CursiveModel<C>, n: nat)
    ensures
        pre.with_new_screens(n).screens.len() == pre.screens.len() + n,
        pre.with_new_screens(n).active_screen == pre.active_screen,
        pre.wf() ==> pre.with_new_screens(n).wf(),
        pre.with_new_screens(n).screens.len() < pre.with_new_screens(
            n,
        ).with_new_screen().screens.len(),
        initial_model::<C>().with_new_screens(n).screens.len() == n + 1,
    decreases n,
{
    if n > 0 {
        lemma_screen_ids_count_up(pre, (n - 1) as nat);
    }
    lemma_screen_ids_count_up_from_start::<C>(n);
}

proof fn lemma_screen_ids_count_up_from_start<C>(n: nat)
    ensures
        initial_model::<C>().with_new_screens(n).screens.len() == n + 1,
    decreases n,
{
    if n > 0 {
        lemma_screen_ids_count_up_from_start::<C>((n - 1) as nat);
    }
}

/// A global callback that was registered for a key runs when that key comes
/// back from the active screen as ignored: the controller ends in a state
/// that the callback may leave it in.
pub proof fn lemma_registered_callback_runs<C: Callback>(
    pre: CursiveModel<C>,
    key: i32,
    callback: C,
    post: CursiveModel<C>,
)
    requires
        pre.global_callbacks.contains_key(key),
        pre.global_callbacks[key] == callback,
        reacted(pre, key, EventResult::Ignored, post),
    ensures
        callback.effect(pre, post),
{
}

/// A key without a global callback that comes back as ignored is dropped.
pub proof fn lemma_unclaimed_key_is_dropped<C: Callback>(
    pre: CursiveModel<C>,
    key: i32,
    post: CursiveModel<C>,
)
    requires
        !pre.global_callbacks.contains_key(key),
        reacted(pre, key, EventResult::Ignored, post),
    ensures
        post == pre,
{
}

/// `Quit` stops the controller.
pub proof fn lemma_quit_stops()
    ensures
        stops(Quit),
{
}

/// When the callback that a key leads to stops the controller, be it the
/// global callback of an ignored key or the one that a view handed back,
/// the controller is stopped once the key is dealt with.
pub proof fn lemma_stopping_callback_stops<C: Callback>(
    pre: CursiveModel<C>,
    key: i32,
    result: EventResult<C>,
    post: CursiveModel<C>,
)
    requires
        reacted(pre, key, result, post),
        match result {
            EventResult::Ignored => pre.global_callbacks.contains_key(key) && stops(
                pre.global_callbacks[key],
            ),
            EventResult::Consumed(None) => false,
            EventResult::Consumed(Some(callback)) => stops(*callback),
        },
    ensures
        !post.running,
{
}

/// A controller that was stopped goes through no turn of the loop: a run
/// from such a state takes no key, draws no frame and changes nothing. So
/// the turn in which a callback stops the controller is the last one.
pub proof fn lemma_stopped_controller_takes_no_turn<C: Callback>(
    pre: CursiveModel<C>,
    keys: Seq<i32>,
    frames: Seq<Seq<Cell>>,
    post: CursiveModel<C>,
)
    requires
        !pre.running,
        ran(pre, keys, frames, post),
    ensures
        keys.len() == 0,
        frames.len() == 0,
        post == pre,
    decreases keys.len(),
{
    if keys.len() > 0 {
        let mid = choose|mid: CursiveModel<C>|
            {
                &&& ran(pre, keys.drop_last(), frames.drop_last(), mid)
                &&& mid.running
                &&& #[trigger] stepped(mid, keys.last(), post, frames.last())
            };
        lemma_stopped_controller_takes_no_turn(pre, keys.drop_last(), frames.drop_last(), mid);
    }
}

/// Laying out twice for one size shows no difference: the second layout
/// leaves a screen that draws the same frame as after the first.
pub proof fn lemma_layout_twice_draws_the_same<C>(
    pre: CursiveModel<C>,
    once: CursiveModel<C>,
    twice: CursiveModel<C>,
)
    requires
        pre.wf(),
        laid(pre, once),
        laid(once, twice),
    ensures
        twice.frame() == once.frame(),
        same_layers(once.screen(), twice.screen()),
{
    lemma_same_layers(once.screen(), twice.screen());
}

/// A run followed by one more turn is a run.
pub proof fn lemma_ran_one_more<C: Callback>(
    pre: CursiveModel<C>,
    keys: Seq<i32>,
    frames: Seq<Seq<Cell>>,
    mid: CursiveModel<C>,
    key: i32,
    frame: Seq<Cell>,
    post: CursiveModel<C>,
)
    requires
        ran(pre, keys, frames, mid),
        frames.len() == keys.len(),
        mid.running,
        stepped(mid, key, post, frame),
    ensures
        ran(pre, keys.push(key), frames.push(frame), post),
{
    assert(keys.push(key).drop_last() =~= keys);
    assert(frames.push(frame).drop_last() =~= frames);
    assert(stepped(mid, keys.push(key).last(), post, frames.push(frame).last()));
}

} // verus!
