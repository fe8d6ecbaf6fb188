use std::cell::Cell as Counter;
use std::rc::Rc;

use cursive::event::{Callback, EventResult, Quit};
use cursive::printer::{Cell, Printer};
use cursive::vec::Vec2;
use cursive::view::{Found, IdView, Selector, StackView, TextView, Widget};
use cursive::Cursive;

/// What the callbacks of these tests do to the controller.
enum Action {
    Count(Rc<Counter<u32>>),
    Quit,
    Screen(usize),
    CountThenQuit(Rc<Counter<u32>>),
}

impl Callback for Action {
    fn call(&self, siv: &mut Cursive<Action>) {
        match self {
            Action::Count(count) => count.set(count.get() + 1),
            Action::Quit => siv.quit(),
            Action::Screen(id) => siv.set_screen(*id),
            Action::CountThenQuit(count) => {
                count.set(count.get() + 1);
                siv.quit();
            }
        }
    }
}

/// A view that takes one key and answers it with a callback, if it has one.
struct Button {
    key: i32,
    action: Option<Rc<Action>>,
    offered: Rc<Counter<u32>>,
}

impl Button {
    fn new(key: i32, action: Option<Action>) -> (Button, Rc<Counter<u32>>) {
        let offered = Rc::new(Counter::new(0));
        (Button { key, action: action.map(Rc::new), offered: offered.clone() }, offered)
    }
}

impl Widget<Action> for Button {
    fn layout(&mut self, _size: Vec2) {}

    fn draw(&self, printer: &Printer, focused: bool, frame: &mut Vec<Cell>) {
        printer.print(Vec2::zero(), &[if focused { '#' } else { '-' }], frame);
    }

    fn on_key_event(&mut self, key: i32) -> EventResult<Action> {
        self.offered.set(self.offered.get() + 1);
        if key == self.key {
            EventResult::Consumed(self.action.clone())
        } else {
            EventResult::Ignored
        }
    }

    fn take_focus(&self) -> bool {
        true
    }

    fn find<'a>(&'a mut self, selector: &Selector<'_>) -> Option<Found<'a>> {
        match selector {
            Selector::Path(path) if path.is_empty() => Some(Found::Other),
            _ => None,
        }
    }
}

fn cell(x: usize, y: usize, ch: char) -> Cell {
    Cell { pos: Vec2::new(x, y), ch }
}

fn counter() -> Rc<Counter<u32>> {
    Rc::new(Counter::new(0))
}

const Q: i32 = 'q' as i32;
const X: i32 = 'x' as i32;

#[test]
fn new_controller_has_one_empty_screen_and_runs() {
    let mut siv: Cursive<Quit> = Cursive::new();
    assert!(siv.is_running());
    assert_eq!(siv.active_screen(), 0);
    assert_eq!(siv.screen_size(), Vec2::zero());
    assert_eq!(siv.timeout(), -1);
    assert_eq!(siv.screen_mut().len(), 0);
    assert!(siv.draw().is_empty());
}

#[test]
fn screen_ids_count_up_from_one() {
    let mut siv: Cursive<Quit> = Cursive::new();
    assert_eq!(siv.screen_count(), 1);
    assert_eq!(siv.add_screen(), 1);
    assert_eq!(siv.add_screen(), 2);
    assert_eq!(siv.add_screen(), 3);
    assert_eq!(siv.screen_count(), 4);
    assert_eq!(siv.active_screen(), 0);
    for _ in 4..50 {
        siv.add_screen();
    }
    assert_eq!(siv.add_screen(), 50);
}

#[test]
fn set_screen_takes_every_id_that_add_screen_gave() {
    let mut siv: Cursive<Quit> = Cursive::new();
    let first = siv.add_screen();
    let second = siv.add_screen();
    siv.set_screen(second);
    assert_eq!(siv.active_screen(), second);
    siv.set_screen(first);
    assert_eq!(siv.active_screen(), first);
    siv.set_screen(0);
    assert_eq!(siv.active_screen(), 0);
}

#[test]
fn add_active_screen_switches_to_the_new_screen() {
    let mut siv: Cursive<Quit> = Cursive::new();
    siv.add_layer(TextView::new("first"));
    assert_eq!(siv.add_active_screen(), 1);
    assert_eq!(siv.active_screen(), 1);
    assert_eq!(siv.screen_mut().len(), 0);
    assert_eq!(siv.add_active_screen(), 2);
    assert_eq!(siv.active_screen(), 2);
}

#[test]
fn layers_go_to_the_active_screen_only() {
    let mut siv: Cursive<Quit> = Cursive::new();
    siv.resize(5, 1);
    siv.add_layer(TextView::new("a"));
    let other = siv.add_active_screen();
    siv.add_layer(TextView::new("b"));
    siv.add_layer(TextView::new("c"));
    assert_eq!(siv.screen_mut().len(), 2);
    siv.layout();
    assert_eq!(siv.draw(), vec![cell(0, 0, 'b'), cell(0, 0, 'c')]);
    siv.set_screen(0);
    assert_eq!(siv.screen_mut().len(), 1);
    siv.layout();
    assert_eq!(siv.draw(), vec![cell(0, 0, 'a')]);
    siv.set_screen(other);
    assert_eq!(siv.draw(), vec![cell(0, 0, 'b'), cell(0, 0, 'c')]);
}

#[test]
fn set_fps_gives_the_wait_in_milliseconds() {
    let mut siv: Cursive<Quit> = Cursive::new();
    siv.set_fps(30);
    assert_eq!(siv.timeout(), 33);
    siv.set_fps(1);
    assert_eq!(siv.timeout(), 1000);
    siv.set_fps(1000);
    assert_eq!(siv.timeout(), 1);
    siv.set_fps(1001);
    assert_eq!(siv.timeout(), 0);
    siv.set_fps(u32::MAX);
    assert_eq!(siv.timeout(), 0);
    siv.set_fps(0);
    assert_eq!(siv.timeout(), -1);
}

#[test]
fn resize_keeps_the_size_that_the_terminal_reported() {
    let mut siv: Cursive<Quit> = Cursive::new();
    siv.resize(80, 24);
    assert_eq!(siv.screen_size(), Vec2::new(80, 24));
    siv.resize(0, 0);
    assert_eq!(siv.screen_size(), Vec2::zero());
    siv.resize(-1, -1);
    assert_eq!(siv.screen_size(), Vec2::new(usize::MAX, usize::MAX));
}

#[test]
fn quit_stops_the_controller() {
    let mut siv: Cursive<Quit> = Cursive::new();
    siv.quit();
    assert!(!siv.is_running());
    siv.quit();
    assert!(!siv.is_running());
}

#[test]
fn global_callback_runs_once_for_a_key_that_every_layer_ignores() {
    let mut siv: Cursive<Action> = Cursive::new();
    let count = counter();
    siv.add_layer(TextView::new("below"));
    siv.add_layer(TextView::new("top"));
    siv.add_global_callback(X, Action::Count(count.clone()));
    siv.dispatch(X);
    assert_eq!(count.get(), 1);
    siv.dispatch(X);
    assert_eq!(count.get(), 2);
    assert!(siv.is_running());
}

#[test]
fn key_without_a_callback_is_dropped() {
    let mut siv: Cursive<Action> = Cursive::new();
    let count = counter();
    siv.add_layer(TextView::new("text"));
    siv.add_global_callback(X, Action::Count(count.clone()));
    siv.dispatch(Q);
    siv.on_key_event(Q);
    assert_eq!(count.get(), 0);
    assert!(siv.is_running());
    assert_eq!(siv.active_screen(), 0);
}

#[test]
fn registering_again_replaces_the_callback() {
    let mut siv: Cursive<Action> = Cursive::new();
    let first = counter();
    let second = counter();
    siv.add_global_callback(X, Action::Count(first.clone()));
    siv.add_global_callback(X, Action::Count(second.clone()));
    siv.on_key_event(X);
    assert_eq!(first.get(), 0);
    assert_eq!(second.get(), 1);
}

#[test]
fn each_key_has_its_own_callback() {
    let mut siv: Cursive<Action> = Cursive::new();
    let on_q = counter();
    let on_x = counter();
    siv.add_global_callback(Q, Action::Count(on_q.clone()));
    siv.add_global_callback(X, Action::Count(on_x.clone()));
    siv.dispatch(X);
    siv.dispatch(X);
    siv.dispatch(Q);
    assert_eq!(on_q.get(), 1);
    assert_eq!(on_x.get(), 2);
}

#[test]
fn key_taken_by_a_view_does_not_reach_the_global_callback() {
    let mut siv: Cursive<Action> = Cursive::new();
    let global = counter();
    let (button, offered) = Button::new(X, None);
    siv.add_layer(button);
    siv.add_global_callback(X, Action::Count(global.clone()));
    siv.dispatch(X);
    assert_eq!(offered.get(), 1);
    assert_eq!(global.get(), 0);
}

#[test]
fn callback_that_a_view_hands_back_runs_once() {
    let mut siv: Cursive<Action> = Cursive::new();
    let global = counter();
    let follow_up = counter();
    let (button, _) = Button::new(X, Some(Action::Count(follow_up.clone())));
    siv.add_layer(button);
    siv.add_global_callback(X, Action::Count(global.clone()));
    siv.dispatch(X);
    assert_eq!(follow_up.get(), 1);
    assert_eq!(global.get(), 0);
}

#[test]
fn react_does_what_the_answer_of_the_screen_asks_for() {
    let mut siv: Cursive<Action> = Cursive::new();
    let global = counter();
    let follow_up = counter();
    siv.add_global_callback(X, Action::Count(global.clone()));
    siv.react(X, EventResult::Consumed(None));
    assert_eq!((global.get(), follow_up.get()), (0, 0));
    siv.react(X, EventResult::Consumed(Some(Rc::new(Action::Count(follow_up.clone())))));
    assert_eq!((global.get(), follow_up.get()), (0, 1));
    siv.react(X, EventResult::Ignored);
    assert_eq!((global.get(), follow_up.get()), (1, 1));
    siv.react(Q, EventResult::Ignored);
    assert_eq!((global.get(), follow_up.get()), (1, 1));
}

#[test]
fn key_goes_to_the_top_layer_of_the_active_screen_only() {
    let mut siv: Cursive<Action> = Cursive::new();
    let (below, below_offered) = Button::new(X, None);
    let (top, top_offered) = Button::new(Q, None);
    let global = counter();
    siv.add_layer(below);
    siv.add_layer(top);
    siv.add_global_callback(X, Action::Count(global.clone()));
    siv.dispatch(X);
    assert_eq!(top_offered.get(), 1);
    assert_eq!(below_offered.get(), 0);
    assert_eq!(global.get(), 1);
}

#[test]
fn callback_can_switch_the_screen() {
    let mut siv: Cursive<Action> = Cursive::new();
    let other = siv.add_screen();
    siv.add_global_callback(X, Action::Screen(other));
    siv.dispatch(X);
    assert_eq!(siv.active_screen(), other);
}

#[test]
fn find_returns_nothing_for_a_selector_without_a_view() {
    let mut siv: Cursive<Quit> = Cursive::new();
    assert!(siv.find::<TextView>(&Selector::Id("missing")).is_none());
    assert!(siv.find::<TextView>(&Selector::Path(&[0])).is_none());
    siv.add_layer(IdView::new("title", TextView::new("abc")));
    assert!(siv.find::<TextView>(&Selector::Id("missing")).is_none());
    assert!(siv.find::<TextView>(&Selector::Path(&[1])).is_none());
    assert!(siv.find::<TextView>(&Selector::Path(&[0, 0, 0])).is_none());
    assert!(siv.find_any(&Selector::Id("missing")).is_none());
}

#[test]
fn find_returns_nothing_for_a_view_of_another_kind() {
    let mut siv: Cursive<Quit> = Cursive::new();
    siv.add_layer(IdView::new("title", TextView::new("abc")));
    assert!(matches!(siv.find_any(&Selector::Path(&[])), Some(Found::Other)));
    assert!(siv.find::<TextView>(&Selector::Path(&[])).is_none());
    assert!(matches!(siv.find_any(&Selector::Path(&[0])), Some(Found::Other)));
    assert!(siv.find::<TextView>(&Selector::Path(&[0])).is_none());
}

#[test]
fn find_hands_out_the_text_view_to_change() {
    let mut siv: Cursive<Quit> = Cursive::new();
    siv.resize(6, 1);
    siv.add_layer(TextView::new("below"));
    siv.add_layer(IdView::new("title", TextView::new("abc")));
    siv.layout();
    match siv.find::<TextView>(&Selector::Id("title")) {
        Some(text) => text.set_content("xy"),
        None => panic!("the named text was not found"),
    }
    let frame = siv.draw();
    assert_eq!(frame.len(), 7);
    assert_eq!(frame[5..].to_vec(), vec![cell(0, 0, 'x'), cell(1, 0, 'y')]);
    assert!(siv.find::<TextView>(&Selector::Path(&[1, 0])).is_some());
    assert!(siv.find::<TextView>(&Selector::Path(&[0])).is_some());
}

#[test]
fn find_looks_in_the_active_screen_only() {
    let mut siv: Cursive<Quit> = Cursive::new();
    siv.add_layer(IdView::new("title", TextView::new("abc")));
    siv.add_active_screen();
    assert!(siv.find::<TextView>(&Selector::Id("title")).is_none());
    siv.set_screen(0);
    assert!(siv.find::<TextView>(&Selector::Id("title")).is_some());
}

#[test]
fn draw_puts_the_focus_on_the_top_layer() {
    let mut siv: Cursive<Action> = Cursive::new();
    siv.resize(3, 1);
    let (below, _) = Button::new(X, None);
    let (top, _) = Button::new(X, None);
    siv.add_layer(below);
    siv.add_layer(top);
    siv.layout();
    assert_eq!(siv.draw(), vec![cell(0, 0, '-'), cell(0, 0, '#')]);
}

#[test]
fn drawn_cells_lie_on_the_terminal() {
    let mut siv: Cursive<Quit> = Cursive::new();
    siv.add_layer(TextView::new("a text that is longer\nthan the terminal is wide"));
    siv.add_layer(IdView::new("top", TextView::new("and\na\nsecond\none\nabove")));
    for columns in 0..9 {
        for rows in 0..5 {
            siv.resize(columns, rows);
            siv.layout();
            for cell in siv.draw() {
                assert!(cell.pos.x < columns as usize && cell.pos.y < rows as usize);
            }
        }
    }
}

#[test]
fn layout_twice_shows_the_same_frame() {
    let mut siv: Cursive<Quit> = Cursive::new();
    siv.resize(4, 3);
    siv.add_layer(TextView::new("abcdefgh"));
    siv.layout();
    let once = siv.draw();
    siv.layout();
    assert_eq!(siv.draw(), once);
    assert_eq!(once.len(), 8);
}

#[test]
fn step_draws_the_frame_before_it_routes_the_key() {
    let mut siv: Cursive<Action> = Cursive::new();
    siv.resize(4, 1);
    siv.add_layer(TextView::new("one"));
    let other = siv.add_screen();
    siv.add_global_callback(X, Action::Screen(other));
    let frame = siv.step(X);
    assert_eq!(frame, vec![cell(0, 0, 'o'), cell(1, 0, 'n'), cell(2, 0, 'e')]);
    assert_eq!(siv.active_screen(), other);
    assert!(siv.step(X).is_empty());
}

#[test]
fn quit_on_q_ends_the_loop_after_one_frame() {
    let mut siv: Cursive<Quit> = Cursive::new();
    siv.resize(10, 3);
    siv.add_layer(TextView::new("hi"));
    siv.add_global_callback(Q, Quit);
    let frames = siv.run(&vec![Q]);
    assert_eq!(frames, vec![vec![cell(0, 0, 'h'), cell(1, 0, 'i')]]);
    assert!(!siv.is_running());
}

#[test]
fn run_takes_no_key_after_the_one_that_quit() {
    let mut siv: Cursive<Action> = Cursive::new();
    let before = counter();
    let after = counter();
    siv.add_global_callback(X, Action::Count(before.clone()));
    siv.add_global_callback(Q, Action::CountThenQuit(after.clone()));
    let frames = siv.run(&vec![X, X, Q, X, Q, X]);
    assert_eq!(frames.len(), 3);
    assert_eq!(before.get(), 2);
    assert_eq!(after.get(), 1);
    assert!(!siv.is_running());
}

#[test]
fn quit_from_the_callback_of_a_view_ends_the_loop_too() {
    let mut siv: Cursive<Action> = Cursive::new();
    let (button, offered) = Button::new(X, Some(Action::Quit));
    siv.add_layer(button);
    let frames = siv.run(&vec![Q, X, X, X]);
    assert_eq!(frames.len(), 2);
    assert_eq!(offered.get(), 2);
    assert!(!siv.is_running());
}

#[test]
fn run_goes_on_until_the_keys_run_out() {
    let mut siv: Cursive<Quit> = Cursive::new();
    siv.add_global_callback(Q, Quit);
    let frames = siv.run(&vec![X, X, X]);
    assert_eq!(frames.len(), 3);
    assert!(siv.is_running());
    assert!(siv.run(&Vec::new()).is_empty());
    assert!(siv.is_running());
}

#[test]
fn stopped_controller_runs_no_turn() {
    let mut siv: Cursive<Action> = Cursive::new();
    let count = counter();
    siv.add_global_callback(X, Action::Count(count.clone()));
    siv.quit();
    assert!(siv.run(&vec![X, X]).is_empty());
    assert_eq!(count.get(), 0);
}

#[test]
fn run_lays_out_for_the_size_that_was_reported() {
    let mut siv: Cursive<Quit> = Cursive::new();
    siv.add_layer(TextView::new("abcd"));
    siv.resize(2, 2);
    let frames = siv.run(&vec![X]);
    assert_eq!(
        frames,
        vec![vec![cell(0, 0, 'a'), cell(1, 0, 'b'), cell(0, 1, 'c'), cell(1, 1, 'd')]]
    );
}

#[test]
fn screen_mut_changes_the_active_screen_in_place() {
    let mut siv: Cursive<Quit> = Cursive::new();
    siv.resize(3, 1);
    siv.screen_mut().add_layer(TextView::new("a"));
    let _: &mut StackView<Quit> = siv.screen_mut();
    assert_eq!(siv.screen_mut().len(), 1);
    siv.layout();
    assert_eq!(siv.draw(), vec![cell(0, 0, 'a')]);
}
