//! A stack of views that lie on top of one another.

use vstd::prelude::*;
use vstd::slice::slice_subrange;
use crate::event::EventResult;
use crate::printer::{Cell, Printer};
use crate::vec::Vec2;
use crate::view::{target_of, Found, Query, Selector, Target, Widget};

verus! {

/// One entry of a stack: a view, and the size it was last laid out for.
#[verifier::reject_recursive_types(C)]
pub struct Layer<C> {
    pub view: Box<dyn Widget<C>>,
    pub size: Vec2,
}

/// Views stacked bottom to top. The top one is drawn last and is the only
/// one that is offered keys.
#[verifier::reject_recursive_types(C)]
pub struct StackView<C> {
    layers: Vec<Layer<C>>,
}

impl<C> View for StackView<C> {
    type V = Seq<Layer<C>>;

    /// The layers, bottom first.
    closed spec fn view(&self) -> Seq<Layer<C>> {
        self.layers@
    }
}

/// The layer that a view starts as when it is put on a stack: it has not
/// been laid out yet.
pub open spec fn new_layer<C, T: Widget<C> + 'static>(view: T) -> Layer<C> {
    Layer { view: Box::new(view), size: Vec2 { x: 0, y: 0 } }
}

impl<C> Layer<C> {
    /// A layer for `view`, which has not been laid out yet.
    pub fn new<T: Widget<C> + 'static>(view: T) -> (layer: Layer<C>)
        ensures
            layer == new_layer::<C, T>(view),
    {
        Layer { view: Box::new(view), size: Vec2::zero() }
    }
}

impl<C> StackView<C> {
    /// A stack without layers.
    pub fn new() -> (stack: StackView<C>)
        ensures
            stack@ == Seq::<Layer<C>>::empty(),
    {
        StackView { layers: Vec::new() }
    }

    /// The number of layers.
    pub fn len(&self) -> (n: usize)
        ensures
            n == self@.len(),
    {
        self.layers.len()
    }

    /// Puts `view` on top of the stack. The layers below stay as they are.
    pub fn add_layer<T: Widget<C> + 'static>(&mut self, view: T)
        ensures
            final(self)@ == old(self)@.push(new_layer::<C, T>(view)),
            final(self)@.len() == old(self)@.len() + 1,
    {
        self.layers.push(Layer::new(view));
    }
}

/// Every layer was laid out for `size`.
pub open spec fn all_laid_out<C>(layers: Seq<Layer<C>>, size: Vec2) -> bool {
    forall|i: int|
        0 <= i < layers.len() ==> (#[trigger] layers[i]).size == size && layers[i].view.laid_out(
            size,
        )
}

/// What drawing the lowest `n` layers writes, bottom first. Only the top
/// layer of the stack is told that it has the focus.
pub open spec fn layers_rendering<C>(
    layers: Seq<Layer<C>>,
    n: int,
    printer: Printer,
    top_focused: bool,
) -> Seq<Cell>
    decreases n,
{
    if n <= 0 {
        Seq::empty()
    } else {
        layers_rendering(layers, n - 1, printer, top_focused) + layers[n - 1].view.rendering(
            printer,
            top_focused && n == layers.len(),
        )
    }
}

/// What a stack answers to `key`: what its top layer answers, and nothing
/// when it has no layer.
pub open spec fn stack_response<C>(layers: Seq<Layer<C>>, key: i32) -> EventResult<C> {
    if layers.len() == 0 {
        EventResult::Ignored
    } else {
        layers.last().view.response(key)
    }
}

/// A stack can hold the focus when its top layer can.
pub open spec fn stack_focusable<C>(layers: Seq<Layer<C>>) -> bool {
    layers.len() > 0 && layers.last().view.focusable()
}

/// The first hit among the layers, bottom first.
pub open spec fn first_lookup<C>(layers: Seq<Layer<C>>, query: Query) -> Option<Target>
    decreases layers.len(),
{
    if layers.len() == 0 {
        None
    } else {
        match layers[0].view.lookup(query) {
            Some(target) => Some(target),
            None => first_lookup(layers.drop_first(), query),
        }
    }
}

/// The view that `query` leads to in a stack. An empty path is the stack
/// itself; a longer one goes on in the layer that its first index names; a
/// name is looked for in each layer, bottom first.
pub open spec fn stack_lookup<C>(layers: Seq<Layer<C>>, query: Query) -> Option<Target> {
    match query {
        Query::Path(path) => {
            if path.len() == 0 {
                Some(Target::Other)
            } else if path[0] < layers.len() {
                layers[path[0] as int].view.lookup(Query::Path(path.drop_first()))
            } else {
                None
            }
        },
        Query::Id(_) => first_lookup(layers, query),
    }
}

/// A stack was offered a key: nothing but the view of its top layer may have
/// changed.
pub open spec fn offered<C>(before: Seq<Layer<C>>, after: Seq<Layer<C>>) -> bool {
    &&& after.len() == before.len()
    &&& forall|i: int| 0 <= i < before.len() - 1 ==> after[i] == before[i]
    &&& before.len() > 0 ==> after.last().size == before.last().size
}

/// Nothing tells the view of `a` from that of `b`: they draw the same cells,
/// answer every key alike, and every selector leads to the same view. Both
/// were laid out for the same size.
pub open spec fn same_layer<C>(a: Layer<C>, b: Layer<C>) -> bool {
    &&& a.size == b.size
    &&& forall|size: Vec2| a.view.laid_out(size) == b.view.laid_out(size)
    &&& forall|printer: Printer, focused: bool|
        a.view.rendering(printer, focused) == b.view.rendering(printer, focused)
    &&& forall|key: i32| a.view.response(key) == b.view.response(key)
    &&& a.view.focusable() == b.view.focusable()
    &&& forall|query: Query| a.view.lookup(query) == b.view.lookup(query)
}

/// Layer by layer, nothing tells `a` from `b`.
pub open spec fn same_layers<C>(a: Seq<Layer<C>>, b: Seq<Layer<C>>) -> bool {
    &&& a.len() == b.len()
    &&& forall|i: int| 0 <= i < a.len() ==> same_layer(#[trigger] a[i], b[i])
}

/// Layer by layer, nothing tells `a` from `b`, but for the layer `i`.
pub open spec fn same_layers_but<C>(a: Seq<Layer<C>>, b: Seq<Layer<C>>, i: int) -> bool {
    &&& a.len() == b.len()
    &&& forall|j: int| 0 <= j < a.len() && j != i ==> same_layer(#[trigger] a[j], b[j])
    &&& 0 <= i < a.len() ==> a[i].size == b[i].size
}

/// A stack answers as its top layer does, whatever lies below.
pub proof fn lemma_stack_answers_as_top<C>(layers: Seq<Layer<C>>, key: i32)
    requires
        layers.len() > 0,
    ensures
        stack_response(layers, key) == layers.last().view.response(key),
{
}

/// Layers that cannot be told apart draw the same cells.
pub proof fn lemma_same_layers_rendering<C>(
    a: Seq<Layer<C>>,
    b: Seq<Layer<C>>,
    n: int,
    printer: Printer,
    top_focused: bool,
)
    requires
        same_layers(a, b),
        n <= a.len(),
    ensures
        layers_rendering(a, n, printer, top_focused) == layers_rendering(
            b,
            n,
            printer,
            top_focused,
        ),
    decreases n,
{
    if n > 0 {
        lemma_same_layers_rendering(a, b, n - 1, printer, top_focused);
    }
}

/// Layers that cannot be told apart give the same first hit.
pub proof fn lemma_same_layers_lookup<C>(a: Seq<Layer<C>>, b: Seq<Layer<C>>, query: Query)
    requires
        same_layers(a, b),
    ensures
        first_lookup(a, query) == first_lookup(b, query),
    decreases a.len(),
{
    if a.len() > 0 {
        assert(same_layers(a.drop_first(), b.drop_first()));
        lemma_same_layers_lookup(a.drop_first(), b.drop_first(), query);
    }
}

/// Stacks whose layers cannot be told apart cannot be told apart either.
pub proof fn lemma_same_layers<C>(a: Seq<Layer<C>>, b: Seq<Layer<C>>)
    requires
        same_layers(a, b),
    ensures
        forall|size: Vec2| all_laid_out(a, size) == all_laid_out(b, size),
        forall|printer: Printer, focused: bool|
            layers_rendering(a, a.len() as int, printer, focused) == layers_rendering(
                b,
                b.len() as int,
                printer,
                focused,
            ),
        forall|key: i32| stack_response(a, key) == stack_response(b, key),
        stack_focusable(a) == stack_focusable(b),
        forall|query: Query| stack_lookup(a, query) == stack_lookup(b, query),
{
    assert forall|size: Vec2| all_laid_out(a, size) == all_laid_out(b, size) by {
        if all_laid_out(a, size) {
            assert forall|i: int| 0 <= i < b.len() implies (#[trigger] b[i]).size == size
                && b[i].view.laid_out(size) by {
                assert(same_layer(a[i], b[i]));
            }
        }
    }
    assert forall|printer: Printer, focused: bool|
        layers_rendering(a, a.len() as int, printer, focused) == layers_rendering(
            b,
            b.len() as int,
            printer,
            focused,
        ) by {
        lemma_same_layers_rendering(a, b, a.len() as int, printer, focused);
    }
    assert forall|query: Query| stack_lookup(a, query) == stack_lookup(b, query) by {
        lemma_same_layers_lookup(a, b, query);
    }
}

/// Looks for a named view in each layer, bottom first.
fn find_in<'a, C>(layers: &'a mut [Layer<C>], selector: &Selector<'_>) -> (found: Option<
    Found<'a>,
>)
    ensures
        final(layers)@.len() == old(layers)@.len(),
        target_of(found) == first_lookup(old(layers)@, selector@),
        found matches Some(Found::Text(t)) ==> first_lookup(final(layers)@, selector@) == Some(
            Target::Text(*final(t)),
        ),
        !(found matches Some(Found::Text(_))) ==> same_layers(old(layers)@, final(layers)@),
        exists|i: int| same_layers_but(old(layers)@, final(layers)@, i),
    decreases old(layers)@.len(),
{
    if layers.len() == 0 {
        assert(same_layers_but(layers@, layers@, 0));
        return None;
    }
    let ghost before = layers@;
    let ghost after = final(layers)@;
    let (head, tail) = layers.split_at_mut(1);
    let ghost lower = tail@;
    let ghost after_tail = final(tail)@;
    match head[0].view.find(selector) {
        Some(found) => {
            proof {
                assert(same_layers_but(before, after, 0));
            }
            Some(found)
        },
        None => {
            let found = find_in(tail, selector);
            proof {
                assert(after.drop_first() =~= after_tail);
                let k: int = choose|k: int| same_layers_but(lower, after_tail, k);
                assert forall|j: int| 0 <= j < before.len() && j != k + 1 implies same_layer(
                    #[trigger] before[j],
                    after[j],
                ) by {
                    if j > 0 {
                        assert(same_layer(lower[j - 1], after_tail[j - 1]));
                    }
                }
                assert(same_layers_but(before, after, k + 1));
                if !(found matches Some(Found::Text(_))) {
                    assert forall|i: int| 0 <= i < before.len() implies same_layer(
                        #[trigger] before[i],
                        after[i],
                    ) by {
                        if i > 0 {
                            assert(same_layer(lower[i - 1], after_tail[i - 1]));
                        }
                    }
                }
            }
            found
        },
    }
}

impl<C> Widget<C> for StackView<C> {
    open spec fn laid_out(&self, size: Vec2) -> bool {
        all_laid_out(self@, size)
    }

    open spec fn rendering(&self, printer: Printer, focused: bool) -> Seq<Cell> {
        layers_rendering(self@, self@.len() as int, printer, focused)
    }

    open spec fn response(&self, key: i32) -> EventResult<C> {
        stack_response(self@, key)
    }

    open spec fn focusable(&self) -> bool {
        stack_focusable(self@)
    }

    open spec fn lookup(&self, query: Query) -> Option<Target> {
        stack_lookup(self@, query)
    }

    /// Every layer is laid out for the whole of `size`.
    fn layout(&mut self, size: Vec2)
        ensures
            final(self)@.len() == old(self)@.len(),
            all_laid_out(old(self)@, size) ==> same_layers(old(self)@, final(self)@),
    {
        let n: usize = self.layers.len();
        let mut i: usize = 0;
        while i < n
            invariant
                i <= n,
                n == self.layers@.len(),
                n == old(self).layers@.len(),
                forall|j: int|
                    0 <= j < i ==> (#[trigger] self.layers@[j]).size == size
                        && self.layers@[j].view.laid_out(size),
                forall|j: int| i <= j < n ==> self.layers@[j] == old(self).layers@[j],
                all_laid_out(old(self).layers@, size) ==> forall|j: int|
                    0 <= j < i ==> same_layer(#[trigger] old(self).layers@[j], self.layers@[j]),
            decreases n - i,
        {
            self.layers[i].size = size;
            self.layers[i].view.layout(size);
            i = i + 1;
        }
        proof {
            if all_laid_out(old(self).layers@, size) {
                lemma_same_layers(old(self).layers@, self.layers@);
            }
        }
    }

    /// The layers are drawn bottom to top through the same printer, so that
    /// a higher one covers what a lower one wrote.
    fn draw(&self, printer: &Printer, focused: bool, frame: &mut Vec<Cell>) {
        let n: usize = self.layers.len();
        let mut i: usize = 0;
        while i < n
            invariant
                i <= n,
                n == self@.len(),
                frame@ == old(frame)@ + layers_rendering(self@, i as int, *printer, focused),
                printer.covers_all(layers_rendering(self@, i as int, *printer, focused)),
            decreases n - i,
        {
            let ghost before = layers_rendering(self@, i as int, *printer, focused);
            let top: bool = focused && i + 1 == n;
            self.layers[i].view.draw(printer, top, frame);
            i = i + 1;
            proof {
                let piece = self@[i - 1].view.rendering(*printer, top);
                assert(layers_rendering(self@, i as int, *printer, focused) == before + piece);
            }
        }
    }

    /// The key goes to the top layer and to no other: what that layer answers
    /// is the answer of the stack, and the layers below are left as they were.
    fn on_key_event(&mut self, key: i32) -> (result: EventResult<C>)
        ensures
            offered(old(self)@, final(self)@),
    {
        let n: usize = self.layers.len();
        if n == 0 {
            EventResult::Ignored
        } else {
            self.layers[n - 1].view.on_key_event(key)
        }
    }

    fn take_focus(&self) -> (yes: bool) {
        let n: usize = self.layers.len();
        if n == 0 {
            false
        } else {
            self.layers[n - 1].view.take_focus()
        }
    }

    /// An empty path is the stack itself, which cannot be handed out. A
    /// longer path goes on in the layer that its first index names, and a
    /// name is looked for in each layer, bottom first.
    fn find<'a>(&'a mut self, selector: &Selector<'_>) -> (found: Option<Found<'a>>)
        ensures
            final(self)@.len() == old(self)@.len(),
            !(found matches Some(Found::Text(_))) ==> same_layers(old(self)@, final(self)@),
            exists|i: int| same_layers_but(old(self)@, final(self)@, i),
    {
        let ghost before = self.layers@;
        let ghost after = final(self).layers@;
        match selector {
            Selector::Path(path) => {
                if path.len() == 0 {
                    proof {
                        lemma_same_layers(before, after);
                        assert(same_layers_but(before, after, 0));
                    }
                    Some(Found::Other)
                } else {
                    let index: usize = path[0];
                    if index < self.layers.len() {
                        let rest = slice_subrange(path, 1, path.len());
                        let found = self.layers[index].view.find(&Selector::Path(rest));
                        proof {
                            assert(same_layers_but(before, after, index as int));
                            if !(found matches Some(Found::Text(_))) {
                                assert(same_layers(before, after));
                                lemma_same_layers(before, after);
                            }
                        }
                        found
                    } else {
                        proof {
                            lemma_same_layers(before, after);
                            assert(same_layers_but(before, after, 0));
                        }
                        None
                    }
                }
            },
            Selector::Id(_) => {
                let found = find_in(self.layers.as_mut_slice(), selector);
                proof {
                    if !(found matches Some(Found::Text(_))) {
                        lemma_same_layers(before, after);
                    }
                }
                found
            },
        }
    }
}

} // verus!
