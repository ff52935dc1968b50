//! Operations: pieces of logic that walk the tree of widgets to ask for or
//! to change the state of some of them.
//!
//! An operation is told of each widget that the walk comes to. For a
//! container it answers how often the walk goes over the children, not at
//! all, once or several times, and in which region each time: a value of
//! the operation's own choice that the walk hands back with every widget
//! below that container. When the walk is over, the operation gives its
//! outcome: nothing, a value, or the wish to be followed by another walk.
use vstd::prelude::*;
use core::marker::PhantomData;
use crate::geometry::Rectangle;
use crate::widget::{Focus, Id, Scroll, State, TextCursor, Widget, WidgetView, model, models};

verus! {

/// What an operation has come to when a walk is over.
#[derive(Debug, PartialEq, Eq)]
pub enum Outcome<T> {
    /// No result.
    Empty,
    /// A result.
    Value(T),
    /// Another walk has to follow, with the operation that
    /// [`Operation::follow`] makes of this one.
    Chain,
}

/// A piece of logic that walks the tree of widgets.
pub trait Operation<T>: Sized {
    /// What the operation tells itself about the part of the tree that the
    /// walk is in.
    type Region;

    /// What holds of the operation at any time. Unless an operation says
    /// otherwise: nothing.
    open spec fn inv(&self) -> bool {
        true
    }

    /// The region at the root of the tree.
    open spec fn start(&self) -> Self::Region {
        arbitrary()
    }

    /// The operation after it was told of a container, and the regions in
    /// which the walk goes over the children of that container: once for
    /// each region, in their order, and not at all where there is none.
    ///
    /// Unless an operation says otherwise, it walks through every container
    /// once and stays as it is.
    open spec fn on_container(
        self,
        id: Option<Id>,
        bounds: Rectangle,
        region: Self::Region,
    ) -> (Self, Seq<Self::Region>) {
        (self, seq![region])
    }

    /// The operation after it was told of a widget with a state, and what it
    /// has made of that state.
    ///
    /// Unless an operation says otherwise, it passes the widget by.
    open spec fn on_leaf(self, state: State, id: Option<Id>, region: Self::Region) -> (Self, State) {
        (self, state)
    }

    /// The number of walks that the operation may still ask to be followed
    /// by.
    /// None unless an operation says otherwise.
    open spec fn stages(&self) -> nat {
        0
    }

    /// The outcome of the operation, were the walk over now.
    /// Nothing unless an operation says otherwise.
    open spec fn outcome(&self) -> Outcome<T> {
        Outcome::Empty
    }

    /// The operation that follows this one.
    /// The operation itself unless it says otherwise.
    open spec fn followed(self) -> Self {
        self
    }

    /// The region at the root of the tree.
    fn root(&self) -> (region: Self::Region)
        requires
            self.inv(),
        ensures
            region == self.start(),
    ;

    /// Tells the operation of a container. Returns the regions in which the
    /// children are walked over, one walk for each.
    fn container(&mut self, id: Option<Id>, bounds: Rectangle, region: &Self::Region) -> (walks:
        Vec<Self::Region>)
        requires
            old(self).inv(),
        ensures
            final(self).inv(),
            final(self).stages() == old(self).stages(),
            (*final(self), walks@) == old(self).on_container(id, bounds, *region),
    ;

    /// Tells the operation of a widget that can be focused.
    fn focusable(&mut self, state: &mut Focus, id: Option<Id>, region: &Self::Region)
        requires
            old(self).inv(),
        ensures
            final(self).inv(),
            final(self).stages() == old(self).stages(),
            (*final(self), State::Focusable(*final(state))) == old(self).on_leaf(
                State::Focusable(*old(state)),
                id,
                *region,
            ),
    ;

    /// Tells the operation of a widget that can be scrolled.
    fn scrollable(&mut self, state: &mut Scroll, id: Option<Id>, region: &Self::Region)
        requires
            old(self).inv(),
        ensures
            final(self).inv(),
            final(self).stages() == old(self).stages(),
            (*final(self), State::Scrollable(*final(state))) == old(self).on_leaf(
                State::Scrollable(*old(state)),
                id,
                *region,
            ),
    ;

    /// Tells the operation of a widget that text is typed into.
    fn text_input(&mut self, state: &mut TextCursor, id: Option<Id>, region: &Self::Region)
        requires
            old(self).inv(),
        ensures
            final(self).inv(),
            final(self).stages() == old(self).stages(),
            (*final(self), State::TextInput(*final(state))) == old(self).on_leaf(
                State::TextInput(*old(state)),
                id,
                *region,
            ),
    ;

    /// Tells the operation of a widget with a state of its own.
    fn custom(&mut self, state: &mut u64, id: Option<Id>, region: &Self::Region)
        requires
            old(self).inv(),
        ensures
            final(self).inv(),
            final(self).stages() == old(self).stages(),
            (*final(self), State::Custom(*final(state))) == old(self).on_leaf(
                State::Custom(*old(state)),
                id,
                *region,
            ),
    ;

    /// The outcome of the operation. It asks for another walk only where a
    /// stage is left.
    fn finish(&self) -> (outcome: Outcome<T>)
        requires
            self.inv(),
        ensures
            outcome == self.outcome(),
            outcome is Chain ==> self.stages() > 0,
    ;

    /// Turns the operation into the one that follows it. Where a stage was
    /// left, that one has fewer stages left.
    fn follow(&mut self)
        requires
            old(self).inv(),
        ensures
            final(self).inv(),
            *final(self) == old(self).followed(),
            old(self).stages() > 0 ==> final(self).stages() < old(self).stages(),
    ;
}

/// Whether two widgets have one shape: both hold no widgets, or both hold
/// as many, each of one shape with the widget in its place.
pub open spec fn alike(a: WidgetView, b: WidgetView) -> bool
    decreases a,
{
    match a {
        WidgetView::Container { children: xs, .. } => match b {
            WidgetView::Container { children: ys, .. } => xs.len() == ys.len() && forall|i: int|
                0 <= i < xs.len() ==> alike(#[trigger] xs[i], ys[i]),
            WidgetView::Leaf { .. } => false,
        },
        WidgetView::Leaf { .. } => b is Leaf,
    }
}

/// Whether the widgets of two lists have one shape, place by place.
pub open spec fn all_alike(xs: Seq<WidgetView>, ys: Seq<WidgetView>) -> bool {
    xs.len() == ys.len() && forall|i: int| 0 <= i < xs.len() ==> alike(#[trigger] xs[i], ys[i])
}

/// The number of widgets that a widget is made of, itself among them.
pub open spec fn size(widget: WidgetView) -> nat
    decreases widget,
{
    match widget {
        WidgetView::Container { children, .. } => 1 + sizes(children, children.len()),
        WidgetView::Leaf { .. } => 1,
    }
}

/// The number of widgets that the first `n` of `widgets` are made of.
pub open spec fn sizes(widgets: Seq<WidgetView>, n: nat) -> nat
    decreases widgets, n,
{
    if n == 0 || n > widgets.len() {
        0
    } else {
        sizes(widgets, (n - 1) as nat) + size(widgets[n - 1])
    }
}

/// The operation and the widget after a walk over `widget` in `region`.
///
/// A container is shown to the operation first; its children follow in
/// order, once in each region that the operation has answered. A widget
/// with a state is shown with its state, and keeps what the operation makes
/// of it.
pub open spec fn traversed<T, O: Operation<T>>(
    widget: WidgetView,
    operation: O,
    region: O::Region,
) -> (O, WidgetView) {
    walk(widget, widget, operation, region)
}

/// The operation and the widgets after a walk over the first `n` of
/// `widgets`, one after another, all in `region`.
pub open spec fn traversed_all<T, O: Operation<T>>(
    widgets: Seq<WidgetView>,
    n: nat,
    operation: O,
    region: O::Region,
) -> (O, Seq<WidgetView>) {
    walk_all(widgets, widgets, n, operation, region)
}

/// A walk over `widget`, which has the shape of `shape`.
///
/// A walk changes states and never the shape of the tree, so that a second
/// walk over the children of a container goes over widgets of the shape that
/// the first has met. The shape is what the walk is defined along; see
/// [`lemma_walk_any_shape`].
pub open spec fn walk<T, O: Operation<T>>(
    shape: WidgetView,
    widget: WidgetView,
    operation: O,
    region: O::Region,
) -> (O, WidgetView)
    decreases shape, 0nat, 0nat,
{
    match widget {
        WidgetView::Container { id, bounds, children } => {
            let (entered, regions) = operation.on_container(id, bounds, region);
            match shape {
                WidgetView::Container { children: shapes, .. } => {
                    let (after, children) = walk_each(
                        shapes,
                        children,
                        entered,
                        regions,
                        regions.len(),
                    );
                    (after, WidgetView::Container { id, bounds, children })
                },
                WidgetView::Leaf { .. } => (entered, widget),
            }
        },
        WidgetView::Leaf { id, state } => {
            let (after, state) = operation.on_leaf(state, id, region);
            (after, WidgetView::Leaf { id, state })
        },
    }
}

/// The first `k` of the walks over the children of a container: one walk
/// over all of `children` for each of the first `k` of `regions`, each walk
/// over what the walk before has left.
pub open spec fn walk_each<T, O: Operation<T>>(
    shapes: Seq<WidgetView>,
    children: Seq<WidgetView>,
    operation: O,
    regions: Seq<O::Region>,
    k: nat,
) -> (O, Seq<WidgetView>)
    decreases shapes, 1nat, k,
{
    if k == 0 || k > regions.len() {
        (operation, children)
    } else {
        let (before, done) = walk_each(shapes, children, operation, regions, (k - 1) as nat);
        walk_all(shapes, done, shapes.len(), before, regions[k - 1])
    }
}

/// A walk over the first `n` of `widgets`, one after another, all in
/// `region`.
pub open spec fn walk_all<T, O: Operation<T>>(
    shapes: Seq<WidgetView>,
    widgets: Seq<WidgetView>,
    n: nat,
    operation: O,
    region: O::Region,
) -> (O, Seq<WidgetView>)
    decreases shapes, 0nat, n,
{
    if n == 0 || n > shapes.len() || n > widgets.len() {
        (operation, widgets)
    } else {
        let (before, done) = walk_all(shapes, widgets, (n - 1) as nat, operation, region);
        let (after, widget) = walk(shapes[n - 1], widgets[n - 1], before, region);
        (after, done.update(n - 1, widget))
    }
}

/// Every widget has its own shape.
pub proof fn lemma_alike_self(widget: WidgetView)
    ensures
        alike(widget, widget),
    decreases widget,
{
    match widget {
        WidgetView::Container { children, .. } => {
            assert forall|i: int| 0 <= i < children.len() implies alike(
                #[trigger] children[i],
                children[i],
            ) by {
                lemma_alike_self(children[i]);
            }
        },
        WidgetView::Leaf { .. } => {},
    }
}

/// Widgets of one shape are made of equally many widgets.
pub proof fn lemma_alike_size(a: WidgetView, b: WidgetView)
    requires
        alike(a, b),
    ensures
        size(a) == size(b),
    decreases a,
{
    match a {
        WidgetView::Container { children: xs, .. } => {
            match b {
                WidgetView::Container { children: ys, .. } => {
                    lemma_alike_sizes(xs, ys, xs.len());
                },
                WidgetView::Leaf { .. } => {},
            }
        },
        WidgetView::Leaf { .. } => {},
    }
}

/// [`lemma_alike_size`] for the first `n` of two lists.
pub proof fn lemma_alike_sizes(xs: Seq<WidgetView>, ys: Seq<WidgetView>, n: nat)
    requires
        all_alike(xs, ys),
        n <= xs.len(),
    ensures
        sizes(xs, n) == sizes(ys, n),
    decreases xs, n,
{
    if n > 0 {
        lemma_alike_sizes(xs, ys, (n - 1) as nat);
        lemma_alike_size(xs[n - 1], ys[n - 1]);
    }
}

/// A widget of a list is made of no more widgets than the list.
pub proof fn lemma_size_of_member(widgets: Seq<WidgetView>, n: nat, i: int)
    requires
        0 <= i < n <= widgets.len(),
    ensures
        size(widgets[i]) <= sizes(widgets, n),
    decreases n,
{
    if i < n - 1 {
        lemma_size_of_member(widgets, (n - 1) as nat, i);
    }
}

/// A walk keeps the shape of the tree: whatever has the shape of the widget
/// before the walk has the shape of the widget after it.
pub proof fn lemma_walk_keeps_shape<T, O: Operation<T>>(
    shape: WidgetView,
    widget: WidgetView,
    like: WidgetView,
    operation: O,
    region: O::Region,
)
    requires
        alike(like, widget),
    ensures
        alike(like, walk(shape, widget, operation, region).1),
    decreases shape, 0nat, 0nat,
{
    match widget {
        WidgetView::Container { id, bounds, children } => {
            let (entered, regions) = operation.on_container(id, bounds, region);
            match shape {
                WidgetView::Container { children: shapes, .. } => {
                    match like {
                        WidgetView::Container { children: likes, .. } => {
                            lemma_each_keeps_shape(
                                shapes,
                                children,
                                likes,
                                entered,
                                regions,
                                regions.len(),
                            );
                        },
                        WidgetView::Leaf { .. } => {},
                    }
                },
                WidgetView::Leaf { .. } => {},
            }
        },
        WidgetView::Leaf { .. } => {},
    }
}

/// [`lemma_walk_keeps_shape`] for the walks over the children of a
/// container.
pub proof fn lemma_each_keeps_shape<T, O: Operation<T>>(
    shapes: Seq<WidgetView>,
    children: Seq<WidgetView>,
    likes: Seq<WidgetView>,
    operation: O,
    regions: Seq<O::Region>,
    k: nat,
)
    requires
        all_alike(likes, children),
    ensures
        all_alike(likes, walk_each(shapes, children, operation, regions, k).1),
    decreases shapes, 1nat, k,
{
    if k == 0 || k > regions.len() {
    } else {
        let (before, done) = walk_each(shapes, children, operation, regions, (k - 1) as nat);
        lemma_each_keeps_shape(shapes, children, likes, operation, regions, (k - 1) as nat);
        lemma_all_keeps_shape(shapes, done, shapes.len(), likes, before, regions[k - 1]);
    }
}

/// [`lemma_walk_keeps_shape`] for a walk over a list of widgets.
pub proof fn lemma_all_keeps_shape<T, O: Operation<T>>(
    shapes: Seq<WidgetView>,
    widgets: Seq<WidgetView>,
    n: nat,
    likes: Seq<WidgetView>,
    operation: O,
    region: O::Region,
)
    requires
        all_alike(likes, widgets),
    ensures
        all_alike(likes, walk_all(shapes, widgets, n, operation, region).1),
        forall|j: int|
            n <= j < widgets.len() ==> walk_all(shapes, widgets, n, operation, region).1[j]
                == widgets[j],
    decreases shapes, 0nat, n,
{
    if n == 0 || n > shapes.len() || n > widgets.len() {
    } else {
        let (before, done) = walk_all(shapes, widgets, (n - 1) as nat, operation, region);
        lemma_all_keeps_shape(shapes, widgets, (n - 1) as nat, likes, operation, region);
        lemma_walk_keeps_shape(shapes[n - 1], widgets[n - 1], likes[n - 1], before, region);
        let (after, widget) = walk(shapes[n - 1], widgets[n - 1], before, region);
        let last = done.update(n - 1, widget);
        assert forall|i: int| 0 <= i < likes.len() implies alike(#[trigger] likes[i], last[i]) by {
            if i != n - 1 {
                assert(alike(likes[i], done[i]));
            }
        }
    }
}

/// A walk does not depend on which widget of its shape it is defined along.
pub proof fn lemma_walk_any_shape<T, O: Operation<T>>(
    first: WidgetView,
    second: WidgetView,
    widget: WidgetView,
    operation: O,
    region: O::Region,
)
    requires
        alike(first, widget),
        alike(second, widget),
    ensures
        walk(first, widget, operation, region) == walk(second, widget, operation, region),
    decreases first, 0nat, 0nat,
{
    match widget {
        WidgetView::Container { id, bounds, children } => {
            let (entered, regions) = operation.on_container(id, bounds, region);
            match first {
                WidgetView::Container { children: xs, .. } => {
                    match second {
                        WidgetView::Container { children: ys, .. } => {
                            lemma_each_any_shape(xs, ys, children, entered, regions, regions.len());
                        },
                        WidgetView::Leaf { .. } => {},
                    }
                },
                WidgetView::Leaf { .. } => {},
            }
        },
        WidgetView::Leaf { .. } => {},
    }
}

/// [`lemma_walk_any_shape`] for the walks over the children of a container.
pub proof fn lemma_each_any_shape<T, O: Operation<T>>(
    first: Seq<WidgetView>,
    second: Seq<WidgetView>,
    children: Seq<WidgetView>,
    operation: O,
    regions: Seq<O::Region>,
    k: nat,
)
    requires
        all_alike(first, children),
        all_alike(second, children),
    ensures
        walk_each(first, children, operation, regions, k) == walk_each(
            second,
            children,
            operation,
            regions,
            k,
        ),
    decreases first, 1nat, k,
{
    if k == 0 || k > regions.len() {
    } else {
        let (before, done) = walk_each(first, children, operation, regions, (k - 1) as nat);
        lemma_each_any_shape(first, second, children, operation, regions, (k - 1) as nat);
        lemma_each_keeps_shape(first, children, first, operation, regions, (k - 1) as nat);
        lemma_each_keeps_shape(first, children, second, operation, regions, (k - 1) as nat);
        lemma_all_any_shape(first, second, done, first.len(), before, regions[k - 1]);
    }
}

/// [`lemma_walk_any_shape`] for a walk over a list of widgets.
pub proof fn lemma_all_any_shape<T, O: Operation<T>>(
    first: Seq<WidgetView>,
    second: Seq<WidgetView>,
    widgets: Seq<WidgetView>,
    n: nat,
    operation: O,
    region: O::Region,
)
    requires
        all_alike(first, widgets),
        all_alike(second, widgets),
    ensures
        walk_all(first, widgets, n, operation, region) == walk_all(
            second,
            widgets,
            n,
            operation,
            region,
        ),
    decreases first, 0nat, n,
{
    if n == 0 || n > first.len() || n > widgets.len() {
    } else {
        let before = walk_all(first, widgets, (n - 1) as nat, operation, region).0;
        lemma_all_any_shape(first, second, widgets, (n - 1) as nat, operation, region);
        lemma_walk_any_shape(first[n - 1], second[n - 1], widgets[n - 1], before, region);
    }
}

/// Walks over `widget` in `region`, telling `operation` of each widget that
/// the walk comes to.
pub fn operate<T, O: Operation<T>>(widget: &mut Widget, operation: &mut O, region: &O::Region)
    requires
        old(operation).inv(),
    ensures
        final(operation).inv(),
        final(operation).stages() == old(operation).stages(),
        (*final(operation), final(widget)@) == traversed(old(widget)@, *old(operation), *region),
        alike(old(widget)@, final(widget)@),
    decreases size(old(widget)@),
{
    proof {
        lemma_alike_self(widget@);
        lemma_walk_keeps_shape(widget@, widget@, widget@, *operation, *region);
    }
    match widget {
        Widget::Container { id, bounds, children } => {
            let ghost kids = children@;
            let ghost shapes = models(kids);
            proof {
                crate::widget::lemma_model_of_container(*id, *bounds, *children);
                assert forall|i: int| 0 <= i < shapes.len() implies alike(
                    #[trigger] shapes[i],
                    shapes[i],
                ) by {
                    lemma_alike_self(shapes[i]);
                }
            }
            let walks = operation.container(*id, *bounds, region);
            let ghost entered = *operation;
            let mut k: usize = 0;
            while k < walks.len()
                invariant
                    k <= walks@.len(),
                    children@.len() == kids.len(),
                    shapes == models(kids),
                    all_alike(shapes, models(children@)),
                    size(old(widget)@) == 1 + sizes(shapes, shapes.len()),
                    operation.inv(),
                    operation.stages() == old(operation).stages(),
                    (*operation, models(children@)) == walk_each(
                        shapes,
                        shapes,
                        entered,
                        walks@,
                        k as nat,
                    ),
                decreases walks.len() - k,
            {
                let ghost first = *operation;
                let ghost start = models(children@);
                let mut i: usize = 0;
                while i < children.len()
                    invariant
                        i <= children@.len(),
                        k < walks@.len(),
                        children@.len() == kids.len(),
                        shapes.len() == kids.len(),
                        start.len() == kids.len(),
                        all_alike(shapes, start),
                        all_alike(shapes, models(children@)),
                        forall|j: int| i <= j < start.len() ==> models(children@)[j] == start[j],
                        size(old(widget)@) == 1 + sizes(shapes, shapes.len()),
                        operation.inv(),
                        operation.stages() == old(operation).stages(),
                        (*operation, models(children@)) == walk_all(
                            shapes,
                            start,
                            i as nat,
                            first,
                            walks@[k as int],
                        ),
                    decreases children@.len() - i,
                {
                    let ghost before = models(children@);
                    let ghost child = model(children@[i as int]);
                    let ghost then = *operation;
                    proof {
                        assert(child == before[i as int]);
                        assert(alike(shapes[i as int], before[i as int]));
                        lemma_alike_size(shapes[i as int], child);
                        lemma_size_of_member(shapes, shapes.len(), i as int);
                        lemma_alike_self(child);
                        lemma_walk_any_shape(
                            child,
                            shapes[i as int],
                            child,
                            then,
                            walks@[k as int],
                        );
                        lemma_walk_keeps_shape(
                            shapes[i as int],
                            child,
                            shapes[i as int],
                            then,
                            walks@[k as int],
                        );
                    }
                    operate(&mut children[i], operation, &walks[k]);
                    proof {
                        let after = models(children@);
                        assert(after =~= before.update(i as int, model(children@[i as int])));
                        assert forall|j: int| 0 <= j < shapes.len() implies alike(
                            #[trigger] shapes[j],
                            after[j],
                        ) by {
                            if j != i {
                                assert(alike(shapes[j], before[j]));
                            }
                        }
                    }
                    i = i + 1;
                }
                k = k + 1;
            }
            proof {
                crate::widget::lemma_model_of_container(*id, *bounds, *children);
            }
        },
        Widget::Leaf { id, state } => {
            match state {
                State::Focusable(focus) => {
                    operation.focusable(focus, *id, region);
                },
                State::Scrollable(scroll) => {
                    operation.scrollable(scroll, *id, region);
                },
                State::TextInput(cursor) => {
                    operation.text_input(cursor, *id, region);
                },
                State::Custom(custom) => {
                    operation.custom(custom, *id, region);
                },
            }
        },
    }
}

/// What a run of walks has come to.
#[derive(Debug, PartialEq, Eq)]
pub struct Completed<T> {
    /// The result of the last operation, if it had one.
    pub output: Option<T>,
    /// The number of walks, as far as a `usize` counts.
    pub passes: usize,
}

/// What a run of walks comes to: the result, the number of walks, and the
/// widget after the last of them.
///
/// After each walk the outcome of the operation is asked for. A value or
/// nothing ends the run. A chain is followed by a walk of the same tree with
/// the operation that follows.
pub open spec fn completed<T, O: Operation<T>>(widget: WidgetView, operation: O) -> (
    Option<T>,
    nat,
    WidgetView,
)
    decreases operation.stages(),
{
    let (after, tree) = traversed(widget, operation, operation.start());
    match after.outcome() {
        Outcome::Empty => (None, 1, tree),
        Outcome::Value(output) => (Some(output), 1, tree),
        Outcome::Chain => if after.followed().stages() < operation.stages() {
            let (output, passes, last) = completed(tree, after.followed());
            (output, passes + 1, last)
        } else {
            (None, 1, tree)
        },
    }
}

/// The number `n`, as far as a `usize` counts.
pub open spec fn capped(n: nat) -> usize {
    if n > usize::MAX {
        usize::MAX
    } else {
        n as usize
    }
}

/// Walks the tree with `operation`, and again with each operation that
/// follows, until one of them asks for no further walk. The run ends: each
/// operation that follows has fewer stages left.
pub fn execute<T, O: Operation<T>>(widget: &mut Widget, operation: O) -> (done: Completed<T>)
    requires
        operation.inv(),
    ensures
        done.output == completed(old(widget)@, operation).0,
        done.passes == capped(completed(old(widget)@, operation).1),
        final(widget)@ == completed(old(widget)@, operation).2,
{
    let mut current = operation;
    let mut passes: usize = 0;
    let ghost mut walked: nat = 0;
    loop
        invariant
            current.inv(),
            passes == capped(walked),
            completed(old(widget)@, operation) == (
                completed(widget@, current).0,
                completed(widget@, current).1 + walked,
                completed(widget@, current).2,
            ),
        decreases current.stages(),
    {
        let region = current.root();
        operate(widget, &mut current, &region);
        if passes < usize::MAX {
            passes = passes + 1;
        }
        proof {
            walked = walked + 1;
        }
        match current.finish() {
            Outcome::Empty => {
                return Completed { output: None, passes };
            },
            Outcome::Value(output) => {
                return Completed { output: Some(output), passes };
            },
            Outcome::Chain => {
                current.follow();
            },
        }
    }
}

/// An operation that ends with a chain, followed by one that ends with a
/// value, gives that value after exactly two walks.
pub proof fn lemma_chain_of_two<T, O: Operation<T>>(widget: WidgetView, operation: O, output: T)
    requires
        ({
            let (first, tree) = traversed(widget, operation, operation.start());
            let next = first.followed();
            &&& first.outcome() is Chain
            &&& next.stages() < operation.stages()
            &&& traversed(tree, next, next.start()).0.outcome() == Outcome::Value(output)
        }),
    ensures
        completed(widget, operation).0 == Some(output),
        completed(widget, operation).1 == 2,
{
    let (first, tree) = traversed(widget, operation, operation.start());
    let next = first.followed();
    assert(completed(tree, next).0 == Some(output));
    assert(completed(tree, next).1 == 1);
}

/// An operation that ends without a chain is done after one walk.
pub proof fn lemma_one_pass<T, O: Operation<T>>(widget: WidgetView, operation: O)
    requires
        !(traversed(widget, operation, operation.start()).0.outcome() is Chain),
    ensures
        completed(widget, operation).1 == 1,
        completed(widget, operation).2 == traversed(widget, operation, operation.start()).1,
{
}

/// Looks for the bounds of the container `target`.
#[derive(Clone, Copy, Debug, PartialEq, Eq, Structural)]
pub struct Bounds {
    pub target: Id,
    /// The bounds of the container that was found last, or the empty
    /// rectangle at the origin.
    pub bounds: Rectangle,
}

impl Operation<Rectangle> for Bounds {
    type Region = ();

    open spec fn inv(&self) -> bool {
        true
    }

    open spec fn start(&self) -> () {
        ()
    }

    /// The target gives its bounds, and the walk leaves its children out;
    /// any other container is walked through.
    open spec fn on_container(self, id: Option<Id>, bounds: Rectangle, region: ()) -> (
        Bounds,
        Seq<()>,
    ) {
        if id == Some(self.target) {
            (Bounds { bounds, ..self }, Seq::empty())
        } else {
            (self, seq![()])
        }
    }

    open spec fn on_leaf(self, state: State, id: Option<Id>, region: ()) -> (Bounds, State) {
        (self, state)
    }

    open spec fn stages(&self) -> nat {
        0
    }

    open spec fn outcome(&self) -> Outcome<Rectangle> {
        Outcome::Value(self.bounds)
    }

    open spec fn followed(self) -> Bounds {
        self
    }

    fn root(&self) -> (region: ()) {
        ()
    }

    fn container(&mut self, id: Option<Id>, bounds: Rectangle, region: &()) -> (walks: Vec<()>) {
        let found = match id {
            Some(id) => id == self.target,
            None => false,
        };
        let mut walks: Vec<()> = Vec::new();
        if found {
            self.bounds = bounds;
        } else {
            walks.push(());
        }
        assert(walks@ =~= old(self).on_container(id, bounds, *region).1);
        walks
    }

    fn focusable(&mut self, state: &mut Focus, id: Option<Id>, region: &()) {
    }

    fn scrollable(&mut self, state: &mut Scroll, id: Option<Id>, region: &()) {
    }

    fn text_input(&mut self, state: &mut TextCursor, id: Option<Id>, region: &()) {
    }

    fn custom(&mut self, state: &mut u64, id: Option<Id>, region: &()) {
    }

    fn finish(&self) -> (outcome: Outcome<Rectangle>) {
        Outcome::Value(self.bounds)
    }

    fn follow(&mut self) {
    }
}

/// An operation that gives the bounds of the container `target`: those of
/// the last such container that the walk comes to, or the empty rectangle at
/// the origin where it comes to none.
pub fn bounds(target: Id) -> (operation: Bounds)
    ensures
        operation == (Bounds { target, bounds: Rectangle { x: 0, y: 0, width: 0, height: 0 } }),
{
    Bounds { target, bounds: Rectangle { x: 0, y: 0, width: 0, height: 0 } }
}

/// The regions of a scoped operation that lie inside of its target, for the
/// regions of the inner operation.
pub open spec fn inside_all<R>(regions: Seq<R>) -> Seq<Option<R>> {
    Seq::new(regions.len(), |i: int| Some(regions[i]))
}

fn inside_each<R>(regions: Vec<R>) -> (walks: Vec<Option<R>>)
    ensures
        walks@ == inside_all(regions@),
{
    let mut rest = regions;
    let mut walks: Vec<Option<R>> = Vec::new();
    while rest.len() > 0
        invariant
            walks@.len() + rest@.len() == regions@.len(),
            forall|i: int| 0 <= i < walks@.len() ==> walks@[i] == Some(regions@[i]),
            forall|i: int| 0 <= i < rest@.len() ==> rest@[i] == regions@[walks@.len() + i],
        decreases rest@.len(),
    {
        let region = rest.remove(0);
        walks.push(Some(region));
    }
    assert(walks@ =~= inside_all(regions@));
    walks
}

/// Applies an operation to what the containers with the id `target` hold,
/// and to nothing else.
pub struct Scoped<O> {
    pub target: Id,
    pub operation: O,
}

impl<T, O: Operation<T>> Operation<T> for Scoped<O> {
    /// Outside of the target: `None`. Inside: the region of the operation
    /// that is applied there.
    type Region = Option<O::Region>;

    open spec fn inv(&self) -> bool {
        self.operation.inv()
    }

    open spec fn start(&self) -> Option<O::Region> {
        None
    }

    /// Outside of the target, a container is walked through once, and the
    /// target itself opens one walk of the inner operation over its children.
    /// Inside, the inner operation is told and decides.
    open spec fn on_container(
        self,
        id: Option<Id>,
        bounds: Rectangle,
        region: Option<O::Region>,
    ) -> (Scoped<O>, Seq<Option<O::Region>>) {
        match region {
            Some(inside) => {
                let (operation, regions) = self.operation.on_container(id, bounds, inside);
                (Scoped { operation, ..self }, inside_all(regions))
            },
            None => if id == Some(self.target) {
                (self, seq![Some(self.operation.start())])
            } else {
                (self, seq![None])
            },
        }
    }

    /// Outside of the target, a widget is passed by: neither its state nor
    /// the inner operation changes. Inside, the inner operation is told.
    open spec fn on_leaf(self, state: State, id: Option<Id>, region: Option<O::Region>) -> (
        Scoped<O>,
        State,
    ) {
        match region {
            Some(inside) => {
                let (operation, state) = self.operation.on_leaf(state, id, inside);
                (Scoped { operation, ..self }, state)
            },
            None => (self, state),
        }
    }

    open spec fn stages(&self) -> nat {
        self.operation.stages()
    }

    open spec fn outcome(&self) -> Outcome<T> {
        self.operation.outcome()
    }

    /// What follows is scoped to the same target.
    open spec fn followed(self) -> Scoped<O> {
        Scoped { operation: self.operation.followed(), ..self }
    }

    fn root(&self) -> (region: Option<O::Region>) {
        None
    }

    fn container(&mut self, id: Option<Id>, bounds: Rectangle, region: &Option<O::Region>) -> (walks:
        Vec<Option<O::Region>>) {
        match region {
            Some(inside) => {
                let regions = self.operation.container(id, bounds, inside);
                inside_each(regions)
            },
            None => {
                let found = match id {
                    Some(id) => id == self.target,
                    None => false,
                };
                let mut walks: Vec<Option<O::Region>> = Vec::new();
                if found {
                    walks.push(Some(self.operation.root()));
                } else {
                    walks.push(None);
                }
                assert(walks@ =~= old(self).on_container(id, bounds, *region).1);
                walks
            },
        }
    }

    fn focusable(&mut self, state: &mut Focus, id: Option<Id>, region: &Option<O::Region>) {
        match region {
            Some(inside) => {
                self.operation.focusable(state, id, inside);
            },
            None => {},
        }
    }

    fn scrollable(&mut self, state: &mut Scroll, id: Option<Id>, region: &Option<O::Region>) {
        match region {
            Some(inside) => {
                self.operation.scrollable(state, id, inside);
            },
            None => {},
        }
    }

    fn text_input(&mut self, state: &mut TextCursor, id: Option<Id>, region: &Option<O::Region>) {
        match region {
            Some(inside) => {
                self.operation.text_input(state, id, inside);
            },
            None => {},
        }
    }

    fn custom(&mut self, state: &mut u64, id: Option<Id>, region: &Option<O::Region>) {
        match region {
            Some(inside) => {
                self.operation.custom(state, id, inside);
            },
            None => {},
        }
    }

    fn finish(&self) -> (outcome: Outcome<T>) {
        self.operation.finish()
    }

    fn follow(&mut self) {
        self.operation.follow();
    }
}

/// An operation that applies `operation` to the children of each container
/// with the id `target`, and that passes by whatever lies outside of them.
pub fn scope<T, O: Operation<T>>(target: Id, operation: O) -> (scoped: Scoped<O>)
    requires
        operation.inv(),
    ensures
        scoped.inv(),
        scoped == (Scoped { target, operation }),
{
    Scoped { target, operation }
}

/// Whether `f` takes every argument and gives one result for each.
pub open spec fn is_function<A, B, F: Fn(A) -> B>(f: F) -> bool {
    &&& forall|a: A| call_requires(f, (a,))
    &&& forall|a: A, first: B, second: B|
        call_ensures(f, (a,), first) && call_ensures(f, (a,), second) ==> first == second
}

/// What `f` gives for `a`.
pub open spec fn result_of<A, B, F: Fn(A) -> B>(f: F, a: A) -> B {
    choose|b: B| call_ensures(f, (a,), b)
}

/// Applies a function to the result of an operation, and to the result of
/// whatever follows that operation.
pub struct Mapped<A, O, F> {
    pub operation: O,
    pub f: F,
    pub argument: PhantomData<A>,
}

impl<A, B, O: Operation<A>, F: Fn(A) -> B> Operation<B> for Mapped<A, O, F> {
    type Region = O::Region;

    open spec fn inv(&self) -> bool {
        self.operation.inv() && is_function::<A, B, F>(self.f)
    }

    open spec fn start(&self) -> O::Region {
        self.operation.start()
    }

    open spec fn on_container(self, id: Option<Id>, bounds: Rectangle, region: O::Region) -> (
        Mapped<A, O, F>,
        Seq<O::Region>,
    ) {
        let (operation, regions) = self.operation.on_container(id, bounds, region);
        (Mapped { operation, ..self }, regions)
    }

    open spec fn on_leaf(self, state: State, id: Option<Id>, region: O::Region) -> (
        Mapped<A, O, F>,
        State,
    ) {
        let (operation, state) = self.operation.on_leaf(state, id, region);
        (Mapped { operation, ..self }, state)
    }

    open spec fn stages(&self) -> nat {
        self.operation.stages()
    }

    /// The value of the operation, with the function applied to it; a chain
    /// and an empty outcome stay what they are.
    open spec fn outcome(&self) -> Outcome<B> {
        match self.operation.outcome() {
            Outcome::Empty => Outcome::Empty,
            Outcome::Value(output) => Outcome::Value(result_of(self.f, output)),
            Outcome::Chain => Outcome::Chain,
        }
    }

    /// What follows is mapped by the same function.
    open spec fn followed(self) -> Mapped<A, O, F> {
        Mapped { operation: self.operation.followed(), ..self }
    }

    fn root(&self) -> (region: O::Region) {
        self.operation.root()
    }

    fn container(&mut self, id: Option<Id>, bounds: Rectangle, region: &O::Region) -> (walks: Vec<
        O::Region,
    >) {
        self.operation.container(id, bounds, region)
    }

    fn focusable(&mut self, state: &mut Focus, id: Option<Id>, region: &O::Region) {
        self.operation.focusable(state, id, region);
    }

    fn scrollable(&mut self, state: &mut Scroll, id: Option<Id>, region: &O::Region) {
        self.operation.scrollable(state, id, region);
    }

    fn text_input(&mut self, state: &mut TextCursor, id: Option<Id>, region: &O::Region) {
        self.operation.text_input(state, id, region);
    }

    fn custom(&mut self, state: &mut u64, id: Option<Id>, region: &O::Region) {
        self.operation.custom(state, id, region);
    }

    fn finish(&self) -> (outcome: Outcome<B>) {
        match self.operation.finish() {
            Outcome::Empty => Outcome::Empty,
            Outcome::Value(output) => {
                let mapped = (self.f)(output);
                Outcome::Value(mapped)
            },
            Outcome::Chain => Outcome::Chain,
        }
    }

    fn follow(&mut self) {
        self.operation.follow();
    }
}

/// An operation that does what `operation` does and applies `f` to its
/// result, and to the result of each operation that follows it.
pub fn map<A, B, O: Operation<A>, F: Fn(A) -> B>(operation: O, f: F) -> (mapped: Mapped<A, O, F>)
    requires
        operation.inv(),
        is_function::<A, B, F>(f),
    ensures
        mapped.inv(),
        mapped.operation == operation,
        mapped.f == f,
{
    Mapped { operation, f, argument: PhantomData }
}

/// The walk that a scoped operation stands for: the inner operation walks
/// over the children of each container with the id `target`, and nothing
/// else is shown to it.
pub open spec fn scoped_walk<T, O: Operation<T>>(widget: WidgetView, target: Id, operation: O) -> (
    O,
    WidgetView,
)
    decreases widget,
{
    match widget {
        WidgetView::Container { id, bounds, children } => {
            let (after, children) = if id == Some(target) {
                traversed_all(children, children.len(), operation, operation.start())
            } else {
                scoped_walk_all(children, children.len(), target, operation)
            };
            (after, WidgetView::Container { id, bounds, children })
        },
        WidgetView::Leaf { .. } => (operation, widget),
    }
}

/// [`scoped_walk`] over the first `n` of `widgets`, one after another.
pub open spec fn scoped_walk_all<T, O: Operation<T>>(
    widgets: Seq<WidgetView>,
    n: nat,
    target: Id,
    operation: O,
) -> (O, Seq<WidgetView>)
    decreases widgets, n,
{
    if n == 0 || n > widgets.len() {
        (operation, widgets)
    } else {
        let (before, done) = scoped_walk_all(widgets, (n - 1) as nat, target, operation);
        let (after, widget) = scoped_walk(widgets[n - 1], target, before);
        (after, done.update(n - 1, widget))
    }
}

/// Inside of its target a scoped operation is its inner operation: it
/// changes as that one does, and so do the widgets.
pub proof fn lemma_scoped_inside<T, O: Operation<T>>(
    shape: WidgetView,
    widget: WidgetView,
    target: Id,
    operation: O,
    region: O::Region,
)
    ensures
        walk(shape, widget, Scoped { target, operation }, Some(region)) == (
            Scoped { target, operation: walk(shape, widget, operation, region).0 },
            walk(shape, widget, operation, region).1,
        ),
    decreases shape, 0nat, 0nat,
{
    match widget {
        WidgetView::Container { id, bounds, children } => {
            let (entered, regions) = operation.on_container(id, bounds, region);
            match shape {
                WidgetView::Container { children: shapes, .. } => {
                    lemma_scoped_inside_each(
                        shapes,
                        children,
                        target,
                        entered,
                        regions,
                        regions.len(),
                    );
                },
                WidgetView::Leaf { .. } => {},
            }
        },
        WidgetView::Leaf { .. } => {},
    }
}

/// [`lemma_scoped_inside`] for the walks over the children of a container.
pub proof fn lemma_scoped_inside_each<T, O: Operation<T>>(
    shapes: Seq<WidgetView>,
    children: Seq<WidgetView>,
    target: Id,
    operation: O,
    regions: Seq<O::Region>,
    k: nat,
)
    ensures
        walk_each(shapes, children, Scoped { target, operation }, inside_all(regions), k) == (
            Scoped { target, operation: walk_each(shapes, children, operation, regions, k).0 },
            walk_each(shapes, children, operation, regions, k).1,
        ),
    decreases shapes, 1nat, k,
{
    if k == 0 || k > regions.len() {
    } else {
        let (before, done) = walk_each(shapes, children, operation, regions, (k - 1) as nat);
        lemma_scoped_inside_each(shapes, children, target, operation, regions, (k - 1) as nat);
        lemma_scoped_inside_all(shapes, done, shapes.len(), target, before, regions[k - 1]);
    }
}

/// [`lemma_scoped_inside`] for a walk over a list of widgets.
pub proof fn lemma_scoped_inside_all<T, O: Operation<T>>(
    shapes: Seq<WidgetView>,
    widgets: Seq<WidgetView>,
    n: nat,
    target: Id,
    operation: O,
    region: O::Region,
)
    ensures
        walk_all(shapes, widgets, n, Scoped { target, operation }, Some(region)) == (
            Scoped { target, operation: walk_all(shapes, widgets, n, operation, region).0 },
            walk_all(shapes, widgets, n, operation, region).1,
        ),
    decreases shapes, 0nat, n,
{
    if n == 0 || n > shapes.len() || n > widgets.len() {
    } else {
        lemma_scoped_inside_all(shapes, widgets, (n - 1) as nat, target, operation, region);
        let before = walk_all(shapes, widgets, (n - 1) as nat, operation, region).0;
        lemma_scoped_inside(shapes[n - 1], widgets[n - 1], target, before, region);
    }
}

/// A scoped operation reaches what its target holds, and nothing else: a
/// walk from the root with `scope(target, operation)` changes the inner
/// operation and the widgets exactly as [`scoped_walk`] says. A widget that
/// no container with the id `target` holds is not shown to the inner
/// operation and keeps its state.
pub proof fn lemma_scope_restricts<T, O: Operation<T>>(widget: WidgetView, target: Id, operation: O)
    ensures
        traversed(widget, Scoped { target, operation }, None) == (
            Scoped { target, operation: scoped_walk(widget, target, operation).0 },
            scoped_walk(widget, target, operation).1,
        ),
    decreases widget,
{
    let scoped = Scoped { target, operation };
    match widget {
        WidgetView::Container { id, bounds, children } => {
            if id == Some(target) {
                let regions = seq![Some(operation.start())];
                assert(walk_each(children, children, scoped, regions, 0) == (scoped, children));
                assert(walk_each(children, children, scoped, regions, 1) == walk_all(
                    children,
                    children,
                    children.len(),
                    scoped,
                    Some(operation.start()),
                ));
                lemma_scoped_inside_all(
                    children,
                    children,
                    children.len(),
                    target,
                    operation,
                    operation.start(),
                );
            } else {
                let regions = seq![None::<O::Region>];
                assert(walk_each(children, children, scoped, regions, 0) == (scoped, children));
                assert(walk_each(children, children, scoped, regions, 1) == walk_all(
                    children,
                    children,
                    children.len(),
                    scoped,
                    None,
                ));
                lemma_scope_restricts_all(children, children.len(), target, operation);
            }
        },
        WidgetView::Leaf { .. } => {},
    }
}

/// [`lemma_scope_restricts`] for the first `n` of `widgets`.
pub proof fn lemma_scope_restricts_all<T, O: Operation<T>>(
    widgets: Seq<WidgetView>,
    n: nat,
    target: Id,
    operation: O,
)
    ensures
        traversed_all(widgets, n, Scoped { target, operation }, None) == (
            Scoped { target, operation: scoped_walk_all(widgets, n, target, operation).0 },
            scoped_walk_all(widgets, n, target, operation).1,
        ),
    decreases widgets, n,
{
    if n == 0 || n > widgets.len() {
    } else {
        lemma_scope_restricts_all(widgets, (n - 1) as nat, target, operation);
        let before = scoped_walk_all(widgets, (n - 1) as nat, target, operation).0;
        lemma_scope_restricts(widgets[n - 1], target, before);
    }
}

/// A tree without a container of the id `target` is passed by as a whole:
/// the inner operation and every widget stay as they are.
pub proof fn lemma_scope_misses<T, O: Operation<T>>(widget: WidgetView, target: Id, operation: O)
    requires
        !holds_target(widget, target),
    ensures
        scoped_walk(widget, target, operation) == (operation, widget),
    decreases widget,
{
    match widget {
        WidgetView::Container { id, bounds, children } => {
            lemma_scope_misses_all(children, children.len(), target, operation);
            assert(scoped_walk_all(children, children.len(), target, operation).1 =~= children);
        },
        WidgetView::Leaf { .. } => {},
    }
}

/// [`lemma_scope_misses`] for the first `n` of `widgets`.
pub proof fn lemma_scope_misses_all<T, O: Operation<T>>(
    widgets: Seq<WidgetView>,
    n: nat,
    target: Id,
    operation: O,
)
    requires
        forall|i: int| 0 <= i < widgets.len() ==> !holds_target(#[trigger] widgets[i], target),
    ensures
        scoped_walk_all(widgets, n, target, operation) == (operation, widgets),
    decreases widgets, n,
{
    if n == 0 || n > widgets.len() {
    } else {
        lemma_scope_misses_all(widgets, (n - 1) as nat, target, operation);
        lemma_scope_misses(widgets[n - 1], target, operation);
        assert(widgets.update(n - 1, widgets[n - 1]) =~= widgets);
    }
}

/// Whether `widget` is, or holds somewhere, a container with the id
/// `target`.
pub open spec fn holds_target(widget: WidgetView, target: Id) -> bool
    decreases widget,
{
    match widget {
        WidgetView::Container { id, children, .. } => id == Some(target) || exists|i: int|
            0 <= i < children.len() && holds_target(#[trigger] children[i], target),
        WidgetView::Leaf { .. } => false,
    }
}

} // verus!
