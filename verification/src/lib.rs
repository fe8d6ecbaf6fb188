//! A text-mode application shell: screens of layered views, a layout and draw
//! pass, and key events routed from the top view down to global callbacks.

use vstd::prelude::*;
use std::collections::HashMap;
use std::rc::Rc;

pub mod color;
pub mod event;
pub mod model;
pub mod printer;
pub mod vec;
pub mod view;

pub use crate::model::CursiveModel;

use crate::event::{Callback, EventResult};
use crate::model::{
    delivered, global_effect, initial_model, laid, lemma_ran_one_more, ran, reacted,
    refresh_timeout, routed, stepped,
};
use crate::printer::{lemma_screen_printer, Cell, Printer};
use crate::vec::Vec2;
use crate::view::stack_view::{
    lemma_same_layers, new_layer, same_layers, same_layers_but, stack_lookup,
};
use crate::view::{target_of, Found, Narrow, Selector, StackView, Target, Widget};

verus! {

/// Identifies a screen of the controller.
pub type ScreenId = usize;

/// The controller: it owns the screens and the global callbacks, and drives
/// the loop of layout, drawing and input.
#[verifier::reject_recursive_types(C)]
pub struct Cursive<C> {
    screens: Vec<StackView<C>>,
    active_screen: ScreenId,
    running: bool,
    global_callbacks: HashMap<i32, Rc<C>>,
    size: Vec2,
    timeout: i32,
}

impl<C> View for Cursive<C> {
    type V = CursiveModel<C>;

    closed spec fn view(&self) -> CursiveModel<C> {
        CursiveModel {
            screens: self.screens@.map_values(|screen: StackView<C>| screen@),
            active_screen: self.active_screen as int,
            running: self.running,
            global_callbacks: self.global_callbacks@.map_values(|callback: Rc<C>| *callback),
            size: self.size,
            timeout: self.timeout as int,
        }
    }
}

impl<C> Cursive<C> {
    /// The active screen exists.
    pub open spec fn wf(&self) -> bool {
        self@.wf()
    }

    /// A controller with one empty screen, which is active.
    pub fn new() -> (siv: Cursive<C>)
        ensures
            siv.wf(),
            siv@ == initial_model::<C>(),
    {
        let mut screens: Vec<StackView<C>> = Vec::new();
        screens.push(StackView::new());
        let siv = Cursive {
            screens,
            active_screen: 0,
            running: true,
            global_callbacks: HashMap::new(),
            size: Vec2::zero(),
            timeout: -1,
        };
        proof {
            assert(siv@.screens =~= initial_model::<C>().screens);
            assert(siv@.global_callbacks =~= initial_model::<C>().global_callbacks);
        }
        siv
    }

    /// Sets how often the screen is drawn again while no key comes in. Zero
    /// turns that off: a read of a key then waits for ever.
    pub fn set_fps(&mut self, fps: u32)
        ensures
            final(self)@ == (CursiveModel { timeout: refresh_timeout(fps), ..old(self)@ }),
    {
        if fps == 0 {
            self.timeout = -1;
        } else {
            let millis: u32 = 1000 / fps;
            self.timeout = millis as i32;
        }
    }

    /// How long a read of a key may wait, in milliseconds; negative for ever.
    pub fn timeout(&self) -> (millis: i32)
        ensures
            millis == self@.timeout,
    {
        self.timeout
    }

    /// Whether the event loop goes on.
    pub fn is_running(&self) -> (running: bool)
        ensures
            running == self@.running,
    {
        self.running
    }

    /// The number of screens. The ids below it are the ones that name a screen.
    pub fn screen_count(&self) -> (n: usize)
        ensures
            n == self@.screens.len(),
    {
        self.screens.len()
    }

    /// The active screen.
    pub fn active_screen(&self) -> (id: ScreenId)
        ensures
            id == self@.active_screen,
    {
        self.active_screen
    }

    /// Takes note of the size of the terminal, as its driver reports it: so
    /// many columns and rows. The numbers are taken over bit for bit.
    pub fn resize(&mut self, columns: i32, rows: i32)
        ensures
            final(self)@ == (CursiveModel {
                size: Vec2 { x: columns as usize, y: rows as usize },
                ..old(self)@
            }),
    {
        self.size = Vec2::new(
            #[verifier::truncate]
            (columns as usize),
            #[verifier::truncate]
            (rows as usize),
        );
    }

    /// The size of the screen, in characters.
    pub fn screen_size(&self) -> (size: Vec2)
        ensures
            size == self@.size,
    {
        self.size
    }

    /// Stops the event loop.
    pub fn quit(&mut self)
        ensures
            final(self)@ == (CursiveModel { running: false, ..old(self)@ }),
    {
        self.running = false;
    }

    /// Adds an empty screen and returns its id: the number of screens there
    /// were. The active screen stays.
    pub fn add_screen(&mut self) -> (id: ScreenId)
        ensures
            id == old(self)@.screens.len(),
            final(self)@ == old(self)@.with_new_screen(),
    {
        let id: ScreenId = self.screens.len();
        self.screens.push(StackView::new());
        proof {
            assert(self@.screens =~= old(self)@.screens.push(Seq::empty()));
        }
        id
    }

    /// Makes the screen `screen_id` the active one. The id has to name a
    /// screen: one that `add_screen` gave, or 0.
    pub fn set_screen(&mut self, screen_id: ScreenId)
        requires
            screen_id < old(self)@.screens.len(),
        ensures
            final(self)@ == (CursiveModel { active_screen: screen_id as int, ..old(self)@ }),
    {
        self.active_screen = screen_id;
    }

    /// Adds an empty screen, makes it the active one and returns its id.
    pub fn add_active_screen(&mut self) -> (id: ScreenId)
        ensures
            id == old(self)@.screens.len(),
            final(self)@ == (CursiveModel {
                active_screen: id as int,
                ..old(self)@.with_new_screen()
            }),
    {
        let id: ScreenId = self.add_screen();
        self.set_screen(id);
        id
    }

    /// The active screen, to be changed in place.
    pub fn screen_mut(&mut self) -> (screen: &mut StackView<C>)
        requires
            old(self).wf(),
        ensures
            screen@ == old(self)@.screen(),
            final(self)@ == old(self)@.with_screen(final(screen)@),
    {
        let id: ScreenId = self.active_screen;
        let ghost before = self@;
        let ghost after = final(self)@;
        let screen = &mut self.screens[id];
        proof {
            assert(after.screens =~= before.screens.update(id as int, final(screen)@));
        }
        screen
    }

    /// Puts `view` on top of the active screen.
    pub fn add_layer<T: Widget<C> + 'static>(&mut self, view: T)
        requires
            old(self).wf(),
        ensures
            final(self)@ == old(self)@.with_screen(
                old(self)@.screen().push(new_layer::<C, T>(view)),
            ),
            final(self)@.screen().len() == old(self)@.screen().len() + 1,
    {
        self.screen_mut().add_layer(view);
    }

    /// Looks in the active screen for the view that `selector` leads to. A
    /// miss is an answer, not a failure, and changes nothing. A hit touches
    /// one layer at most, and the other screens not at all.
    pub fn find_any<'a>(&'a mut self, selector: &Selector<'_>) -> (found: Option<Found<'a>>)
        requires
            old(self).wf(),
        ensures
            target_of(found) == stack_lookup(old(self)@.screen(), selector@),
            final(self)@ == old(self)@.with_screen(final(self)@.screen()),
            final(self)@.screen().len() == old(self)@.screen().len(),
            found matches Some(Found::Text(t)) ==> stack_lookup(
                final(self)@.screen(),
                selector@,
            ) == Some(Target::Text(*final(t))),
            !(found matches Some(Found::Text(_))) ==> same_layers(
                old(self)@.screen(),
                final(self)@.screen(),
            ),
            exists|i: int| same_layers_but(old(self)@.screen(), final(self)@.screen(), i),
    {
        self.screen_mut().find(selector)
    }

    /// Looks in the active screen for the view that `selector` leads to, and
    /// hands it out if it is of the kind `V`. A view of another kind counts
    /// as not found.
    pub fn find<'a, V: Narrow>(&'a mut self, selector: &Selector<'_>) -> (view: Option<&'a mut V>)
        requires
            old(self).wf(),
        ensures
            view is Some <==> (stack_lookup(old(self)@.screen(), selector@) matches Some(target)
                && V::accepts(target)),
            view matches Some(v) ==> stack_lookup(old(self)@.screen(), selector@) == Some(
                (*v).widen(),
            ),
            view matches Some(v) ==> stack_lookup(final(self)@.screen(), selector@) == Some(
                (*final(v)).widen(),
            ),
            final(self)@ == old(self)@.with_screen(final(self)@.screen()),
            final(self)@.screen().len() == old(self)@.screen().len(),
            view is None ==> stack_lookup(final(self)@.screen(), selector@) == stack_lookup(
                old(self)@.screen(),
                selector@,
            ),
            exists|i: int| same_layers_but(old(self)@.screen(), final(self)@.screen(), i),
    {
        let ghost before = self@.screen();
        let ghost after = final(self)@.screen();
        match self.find_any(selector) {
            None => {
                proof {
                    lemma_same_layers(before, after);
                }
                None
            },
            Some(found) => {
                proof {
                    if found is Other {
                        lemma_same_layers(before, after);
                    }
                }
                V::narrow(found)
            },
        }
    }

    /// Lays out the active screen for the size of the terminal.
    pub fn layout(&mut self)
        requires
            old(self).wf(),
        ensures
            laid(old(self)@, final(self)@),
    {
        let size = self.size;
        self.screen_mut().layout(size);
    }

    /// Draws the active screen, with the focus on its top layer, through a
    /// printer for the whole terminal. Every cell lies on the terminal.
    pub fn draw(&self) -> (frame: Vec<Cell>)
        requires
            self.wf(),
        ensures
            frame@ == self@.frame(),
            forall|i: int|
                0 <= i < frame@.len() ==> (#[trigger] frame@[i]).pos.x < self@.size.x
                    && frame@[i].pos.y < self@.size.y,
    {
        let printer = Printer::new(self.size);
        let mut frame: Vec<Cell> = Vec::new();
        self.screens[self.active_screen].draw(&printer, true, &mut frame);
        proof {
            lemma_screen_printer(self.size);
        }
        frame
    }

    /// Registers `callback` for `key`, in place of the one that was there.
    pub fn add_global_callback(&mut self, key: i32, callback: C)
        ensures
            final(self)@ == (CursiveModel {
                global_callbacks: old(self)@.global_callbacks.insert(key, callback),
                ..old(self)@
            }),
    {
        self.global_callbacks.insert(key, Rc::new(callback));
        proof {
            assert(self@.global_callbacks =~= old(self)@.global_callbacks.insert(key, callback));
        }
    }
}

impl<C: Callback> Cursive<C> {
    /// Handles a key that the active screen ignored: the global callback of
    /// the key runs once, or nothing happens when the key has none.
    pub fn on_key_event(&mut self, key: i32)
        requires
            old(self).wf(),
        ensures
            final(self).wf(),
            global_effect(old(self)@, key, final(self)@),
    {
        let callback = match self.global_callbacks.get(&key) {
            None => {
                return ;
            },
            Some(callback) => callback.clone(),
        };
        callback.call(self);
    }

    /// Reacts to what the active screen answered to `key`.
    pub fn react(&mut self, key: i32, result: EventResult<C>)
        requires
            old(self).wf(),
        ensures
            final(self).wf(),
            reacted(old(self)@, key, result, final(self)@),
    {
        match result {
            EventResult::Ignored => self.on_key_event(key),
            EventResult::Consumed(None) => (),
            EventResult::Consumed(Some(callback)) => callback.call(self),
        }
    }

    /// Routes one key: first to the top layer of the active screen, then,
    /// if that ignores it, to the global callbacks.
    pub fn dispatch(&mut self, key: i32)
        requires
            old(self).wf(),
        ensures
            final(self).wf(),
            routed(old(self)@, key, final(self)@),
    {
        let id: ScreenId = self.active_screen;
        let result = self.screens[id].on_key_event(key);
        proof {
            assert(self@.screens =~= old(self)@.screens.update(id as int, self@.screen()));
            assert(delivered(old(self)@, self@));
        }
        self.react(key, result);
    }

    /// One turn of the event loop: lays out and draws the active screen, and
    /// then routes `key`, the key that was read once the frame was shown.
    /// The frame is handed back.
    pub fn step(&mut self, key: i32) -> (frame: Vec<Cell>)
        requires
            old(self).wf(),
        ensures
            final(self).wf(),
            stepped(old(self)@, key, final(self)@, frame@),
    {
        self.layout();
        let frame = self.draw();
        self.dispatch(key);
        frame
    }

    /// Runs the event loop on the keys of `keys`, one turn for each, until
    /// the controller is stopped or the keys run out. The frames that were
    /// drawn are handed back, one for each turn.
    pub fn run(&mut self, keys: &Vec<i32>) -> (frames: Vec<Vec<Cell>>)
        requires
            old(self).wf(),
        ensures
            final(self).wf(),
            frames@.len() <= keys@.len(),
            ran(
                old(self)@,
                keys@.take(frames@.len() as int),
                frames@.map_values(|frame: Vec<Cell>| frame@),
                final(self)@,
            ),
            final(self)@.running ==> frames@.len() == keys@.len(),
    {
        let mut frames: Vec<Vec<Cell>> = Vec::new();
        let mut i: usize = 0;
        while self.running && i < keys.len()
            invariant
                self.wf(),
                i <= keys@.len(),
                i == frames@.len(),
                ran(
                    old(self)@,
                    keys@.take(i as int),
                    frames@.map_values(|frame: Vec<Cell>| frame@),
                    self@,
                ),
            decreases keys@.len() - i,
        {
            let ghost mid = self@;
            let ghost drawn = frames@.map_values(|frame: Vec<Cell>| frame@);
            let frame = self.step(keys[i]);
            let ghost cells = frame@;
            frames.push(frame);
            i = i + 1;
            proof {
                let all = frames@.map_values(|frame: Vec<Cell>| frame@);
                let taken = keys@.take(i as int);
                lemma_ran_one_more(
                    old(self)@,
                    keys@.take(i - 1),
                    drawn,
                    mid,
                    keys@[i - 1],
                    cells,
                    self@,
                );
                assert(taken =~= keys@.take(i - 1).push(keys@[i - 1]));
                assert(all =~= drawn.push(cells));
            }
        }
        frames
    }
}

} // verus!
