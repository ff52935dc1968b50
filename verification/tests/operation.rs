use render_core::geometry::{Point, Rectangle, Size};
use render_core::operation::{
    bounds, execute, operate, scope, Bounds, Completed, Operation, Outcome,
};
use render_core::widget::{Focus, Id, Scroll, State, TextCursor, Widget};

fn rect(x: i32, y: i32, width: i32, height: i32) -> Rectangle {
    Rectangle::new(Point::new(x, y), Size::new(width, height))
}

fn focusable(id: u64) -> Widget {
    Widget::leaf(Some(Id(id)), State::Focusable(Focus { focused: false }))
}

/// Counts what it is shown, and focuses every widget that can be focused.
struct Count {
    containers: Vec<u64>,
    leaves: Vec<u64>,
}

impl Count {
    fn new() -> Count {
        Count { containers: vec![], leaves: vec![] }
    }

    fn seen(&mut self, id: Option<Id>) {
        self.leaves.push(id.map(|id| id.0).unwrap_or(0));
    }
}

impl Operation<usize> for Count {
    type Region = ();

    fn root(&self) {}

    fn container(&mut self, id: Option<Id>, _bounds: Rectangle, _region: &()) -> Vec<()> {
        self.containers.push(id.map(|id| id.0).unwrap_or(0));
        vec![()]
    }

    fn focusable(&mut self, state: &mut Focus, id: Option<Id>, _region: &()) {
        state.focused = true;
        self.seen(id);
    }

    fn scrollable(&mut self, state: &mut Scroll, id: Option<Id>, _region: &()) {
        state.y = 100;
        self.seen(id);
    }

    fn text_input(&mut self, state: &mut TextCursor, id: Option<Id>, _region: &()) {
        state.position = 0;
        self.seen(id);
    }

    fn custom(&mut self, state: &mut u64, id: Option<Id>, _region: &()) {
        *state += 1;
        self.seen(id);
    }

    fn finish(&self) -> Outcome<usize> {
        Outcome::Value(self.leaves.len())
    }

    fn follow(&mut self) {}
}

/// Asks to be followed `remaining` times, then gives the number of walks.
struct Chained {
    remaining: u32,
    walks: u32,
    seen_this_walk: bool,
}

impl Operation<u32> for Chained {
    type Region = ();

    fn root(&self) {}

    fn container(&mut self, _id: Option<Id>, _bounds: Rectangle, _region: &()) -> Vec<()> {
        if !self.seen_this_walk {
            self.seen_this_walk = true;
            self.walks += 1;
        }
        vec![()]
    }

    fn focusable(&mut self, _state: &mut Focus, _id: Option<Id>, _region: &()) {}

    fn scrollable(&mut self, _state: &mut Scroll, _id: Option<Id>, _region: &()) {}

    fn text_input(&mut self, _state: &mut TextCursor, _id: Option<Id>, _region: &()) {}

    fn custom(&mut self, _state: &mut u64, _id: Option<Id>, _region: &()) {}

    fn finish(&self) -> Outcome<u32> {
        if self.remaining > 0 {
            Outcome::Chain
        } else {
            Outcome::Value(self.walks)
        }
    }

    fn follow(&mut self) {
        self.remaining -= 1;
        self.seen_this_walk = false;
    }
}

/// Gives nothing.
struct Silent;

impl Operation<u32> for Silent {
    type Region = ();

    fn root(&self) {}

    fn container(&mut self, _id: Option<Id>, _bounds: Rectangle, _region: &()) -> Vec<()> {
        vec![()]
    }

    fn focusable(&mut self, _state: &mut Focus, _id: Option<Id>, _region: &()) {}

    fn scrollable(&mut self, _state: &mut Scroll, _id: Option<Id>, _region: &()) {}

    fn text_input(&mut self, _state: &mut TextCursor, _id: Option<Id>, _region: &()) {}

    fn custom(&mut self, _state: &mut u64, _id: Option<Id>, _region: &()) {}

    fn finish(&self) -> Outcome<u32> {
        Outcome::Empty
    }

    fn follow(&mut self) {}
}

/// A tree with the container 10 at depth one, between two siblings:
///
/// root 1
///   leaf 2
///   container 10
///     leaf 11
///     container 12
///       leaf 13
///     leaf 14
///   container 20
///     leaf 21
///   leaf 3
fn tree() -> Widget {
    Widget::container(
        Some(Id(1)),
        rect(0, 0, 100, 100),
        vec![
            focusable(2),
            Widget::container(
                Some(Id(10)),
                rect(10, 10, 50, 50),
                vec![
                    focusable(11),
                    Widget::container(Some(Id(12)), rect(12, 12, 5, 5), vec![focusable(13)]),
                    Widget::leaf(Some(Id(14)), State::Scrollable(Scroll { x: 0, y: 0 })),
                ],
            ),
            Widget::container(Some(Id(20)), rect(60, 60, 5, 5), vec![focusable(21)]),
            Widget::leaf(Some(Id(3)), State::Custom(7)),
        ],
    )
}

fn focused(widget: &Widget, out: &mut Vec<(u64, bool)>) {
    match widget {
        Widget::Container { children, .. } => {
            for child in children {
                focused(child, out);
            }
        }
        Widget::Leaf { id, state: State::Focusable(focus) } => {
            out.push((id.unwrap().0, focus.focused));
        }
        Widget::Leaf { .. } => {}
    }
}

#[test]
fn a_walk_shows_every_widget_in_order() {
    let mut widget = tree();
    let mut count = Count::new();
    operate(&mut widget, &mut count, &());
    assert_eq!(count.containers, vec![1, 10, 12, 20]);
    assert_eq!(count.leaves, vec![2, 11, 13, 14, 21, 3]);
    let mut states = vec![];
    focused(&widget, &mut states);
    assert_eq!(
        states,
        vec![(2, true), (11, true), (13, true), (21, true)]
    );
}

#[test]
fn scope_shows_only_what_the_target_holds() {
    let mut widget = tree();
    let mut scoped = scope(Id(10), Count::new());
    let region = scoped.root();
    operate(&mut widget, &mut scoped, &region);
    // Three leaves and one container lie inside of the container 10.
    assert_eq!(scoped.operation.leaves, vec![11, 13, 14]);
    assert_eq!(scoped.operation.containers, vec![12]);
    // The siblings outside of it keep their state.
    let mut states = vec![];
    focused(&widget, &mut states);
    assert_eq!(
        states,
        vec![(2, false), (11, true), (13, true), (21, false)]
    );
    match &widget {
        Widget::Container { children, .. } => match &children[3] {
            Widget::Leaf { state, .. } => assert_eq!(*state, State::Custom(7)),
            _ => panic!("not a leaf"),
        },
        _ => panic!("not a container"),
    }
}

#[test]
fn scope_without_its_target_shows_nothing() {
    let mut widget = tree();
    let done = execute(&mut widget, scope(Id(99), Count::new()));
    assert_eq!(done, Completed { output: Some(0), passes: 1 });
    let mut states = vec![];
    focused(&widget, &mut states);
    assert!(states.iter().all(|(_, focused)| !focused));
}

#[test]
fn scope_of_a_nested_target_reaches_the_inner_widgets() {
    let mut widget = tree();
    let done = execute(&mut widget, scope(Id(12), Count::new()));
    assert_eq!(done, Completed { output: Some(1), passes: 1 });
    let mut states = vec![];
    focused(&widget, &mut states);
    assert_eq!(
        states,
        vec![(2, false), (11, false), (13, true), (21, false)]
    );
}

#[test]
fn a_chain_of_two_takes_two_walks() {
    let mut widget = tree();
    let done = execute(
        &mut widget,
        Chained { remaining: 1, walks: 0, seen_this_walk: false },
    );
    assert_eq!(done, Completed { output: Some(2), passes: 2 });
}

#[test]
fn a_run_ends_when_no_chain_is_asked_for() {
    let mut widget = tree();
    let once = execute(
        &mut widget,
        Chained { remaining: 0, walks: 0, seen_this_walk: false },
    );
    assert_eq!(once, Completed { output: Some(1), passes: 1 });
    let five = execute(
        &mut widget,
        Chained { remaining: 4, walks: 0, seen_this_walk: false },
    );
    assert_eq!(five, Completed { output: Some(5), passes: 5 });
    let silent = execute(&mut widget, Silent);
    assert_eq!(silent, Completed { output: None, passes: 1 });
}

#[test]
fn bounds_finds_the_container() {
    let mut widget = tree();
    let done = execute(&mut widget, bounds(Id(10)));
    assert_eq!(done, Completed { output: Some(rect(10, 10, 50, 50)), passes: 1 });
    let nested = execute(&mut widget, bounds(Id(12)));
    assert_eq!(nested.output, Some(rect(12, 12, 5, 5)));
    let missing = execute(&mut widget, bounds(Id(99)));
    assert_eq!(missing.output, Some(rect(0, 0, 0, 0)));
    assert_eq!(
        bounds(Id(4)),
        Bounds { target: Id(4), bounds: rect(0, 0, 0, 0) }
    );
}

#[test]
fn bounds_does_not_look_inside_its_target() {
    // The inner container has the id of the outer one.
    let mut widget = Widget::container(
        Some(Id(5)),
        rect(1, 1, 1, 1),
        vec![Widget::container(Some(Id(5)), rect(2, 2, 2, 2), vec![])],
    );
    let done = execute(&mut widget, bounds(Id(5)));
    assert_eq!(done.output, Some(rect(1, 1, 1, 1)));
}

#[test]
fn map_applies_the_function_to_the_result() {
    let mut widget = tree();
    let done = execute(&mut widget, render_core::operation::map(bounds(Id(10)), |found: Rectangle| found.width * 2));
    assert_eq!(done, Completed { output: Some(100), passes: 1 });
    let silent = execute(&mut widget, render_core::operation::map(Silent, |n: u32| n + 1));
    assert_eq!(silent, Completed { output: None, passes: 1 });
}

#[test]
fn map_reaches_through_a_chain() {
    let mut widget = tree();
    let chained = Chained { remaining: 2, walks: 0, seen_this_walk: false };
    let done = execute(&mut widget, render_core::operation::map(chained, |walks: u32| walks * 10));
    assert_eq!(done, Completed { output: Some(30), passes: 3 });
}

#[test]
fn map_and_scope_combine() {
    let mut widget = tree();
    let done = execute(
        &mut widget,
        render_core::operation::map(scope(Id(10), Count::new()), |leaves: usize| leaves + 100),
    );
    assert_eq!(done, Completed { output: Some(103), passes: 1 });
    let chained = Chained { remaining: 1, walks: 0, seen_this_walk: false };
    let scoped = execute(&mut widget, scope(Id(10), chained));
    assert_eq!(scoped, Completed { output: Some(2), passes: 2 });
}

/// Walks over the children of the container `twice` two times, in the
/// regions 1 and 2, over those of the container `never` not at all, and over
/// those of any other container once, in the region that it lies in. Adds
/// the region to the state of each custom widget, and notes each widget with
/// the region that it was met in.
struct Repeat {
    twice: u64,
    never: u64,
    met: Vec<(u64, u64)>,
}

impl Operation<usize> for Repeat {
    type Region = u64;

    fn root(&self) -> u64 {
        0
    }

    fn container(&mut self, id: Option<Id>, _bounds: Rectangle, region: &u64) -> Vec<u64> {
        let id = id.map(|id| id.0).unwrap_or(0);
        if id == self.twice {
            vec![1, 2]
        } else if id == self.never {
            vec![]
        } else {
            vec![*region]
        }
    }

    fn focusable(&mut self, state: &mut Focus, id: Option<Id>, region: &u64) {
        state.focused = !state.focused;
        self.met.push((id.unwrap().0, *region));
    }

    fn scrollable(&mut self, state: &mut Scroll, id: Option<Id>, region: &u64) {
        state.y += 1;
        self.met.push((id.unwrap().0, *region));
    }

    fn text_input(&mut self, _state: &mut TextCursor, id: Option<Id>, region: &u64) {
        self.met.push((id.unwrap().0, *region));
    }

    fn custom(&mut self, state: &mut u64, id: Option<Id>, region: &u64) {
        *state += *region;
        self.met.push((id.unwrap().0, *region));
    }

    fn finish(&self) -> Outcome<usize> {
        Outcome::Value(self.met.len())
    }

    fn follow(&mut self) {}
}

#[test]
fn the_children_of_a_container_can_be_walked_over_twice() {
    let mut widget = tree();
    let mut repeat = Repeat { twice: 10, never: 99, met: vec![] };
    operate(&mut widget, &mut repeat, &0);
    assert_eq!(
        repeat.met,
        vec![
            (2, 0),
            // The first walk over what the container 10 holds ...
            (11, 1),
            (13, 1),
            (14, 1),
            // ... and the second, over what the first has left.
            (11, 2),
            (13, 2),
            (14, 2),
            (21, 0),
            (3, 0),
        ]
    );
    let mut states = vec![];
    focused(&widget, &mut states);
    // What was met twice is as it was before.
    assert_eq!(
        states,
        vec![(2, true), (11, false), (13, false), (21, true)]
    );
    match &widget {
        Widget::Container { children, .. } => match &children[1] {
            Widget::Container { children, .. } => match &children[2] {
                Widget::Leaf { state, .. } => {
                    assert_eq!(*state, State::Scrollable(Scroll { x: 0, y: 2 }))
                }
                _ => panic!("not a leaf"),
            },
            _ => panic!("not a container"),
        },
        _ => panic!("not a container"),
    }
}

#[test]
fn nested_repeats_multiply() {
    let mut widget = Widget::container(
        Some(Id(7)),
        rect(0, 0, 1, 1),
        vec![
            Widget::leaf(Some(Id(1)), State::Custom(0)),
            Widget::container(
                Some(Id(7)),
                rect(0, 0, 1, 1),
                vec![Widget::leaf(Some(Id(2)), State::Custom(0))],
            ),
        ],
    );
    let done = execute(&mut widget, Repeat { twice: 7, never: 99, met: vec![] });
    // The outer leaf twice, the inner leaf four times.
    assert_eq!(done, Completed { output: Some(6), passes: 1 });
    match &widget {
        Widget::Container { children, .. } => {
            match &children[0] {
                Widget::Leaf { state, .. } => assert_eq!(*state, State::Custom(3)),
                _ => panic!("not a leaf"),
            }
            match &children[1] {
                Widget::Container { children, .. } => match &children[0] {
                    Widget::Leaf { state, .. } => assert_eq!(*state, State::Custom(6)),
                    _ => panic!("not a leaf"),
                },
                _ => panic!("not a container"),
            }
        }
        _ => panic!("not a container"),
    }
}

#[test]
fn the_children_of_a_container_can_be_left_out() {
    let mut widget = tree();
    let mut repeat = Repeat { twice: 999, never: 10, met: vec![] };
    operate(&mut widget, &mut repeat, &5);
    assert_eq!(repeat.met, vec![(2, 5), (21, 5), (3, 5)]);
    let mut states = vec![];
    focused(&widget, &mut states);
    assert_eq!(
        states,
        vec![(2, true), (11, false), (13, false), (21, true)]
    );
}

#[test]
fn a_scoped_operation_repeats_as_its_inner_operation_does() {
    let mut widget = tree();
    let repeat = Repeat { twice: 12, never: 999, met: vec![] };
    let mut scoped = scope(Id(10), repeat);
    let region = scoped.root();
    operate(&mut widget, &mut scoped, &region);
    assert_eq!(
        scoped.operation.met,
        vec![(11, 0), (13, 1), (13, 2), (14, 0)]
    );
}
