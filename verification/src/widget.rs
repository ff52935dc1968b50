//! The tree of widgets that operations work on.
//!
//! The tree holds, of each widget, what an operation can ask for or change:
//! the bounds of a container, and the state of a widget that can be focused,
//! scrolled, typed into, or that has a state of its own.
use vstd::prelude::*;
use crate::geometry::Rectangle;

verus! {

/// What names a widget.
#[derive(Clone, Copy, Debug, PartialEq, Eq, Structural)]
pub struct Id(pub u64);

/// The state of a widget that can be focused.
#[derive(Clone, Copy, Debug, PartialEq, Eq, Structural)]
pub struct Focus {
    pub focused: bool,
}

/// The state of a widget that can be scrolled: how far it is scrolled in
/// each axis.
#[derive(Clone, Copy, Debug, PartialEq, Eq, Structural)]
pub struct Scroll {
    pub x: i32,
    pub y: i32,
}

/// The state of a widget that text is typed into: where its cursor stands.
#[derive(Clone, Copy, Debug, PartialEq, Eq, Structural)]
pub struct TextCursor {
    pub position: usize,
}

/// The state of a widget that holds no other widgets.
#[derive(Clone, Copy, Debug, PartialEq, Eq, Structural)]
pub enum State {
    Focusable(Focus),
    Scrollable(Scroll),
    TextInput(TextCursor),
    Custom(u64),
}

/// A widget.
#[derive(Debug)]
pub enum Widget {
    /// A widget that holds other widgets.
    Container { id: Option<Id>, bounds: Rectangle, children: Vec<Widget> },
    /// A widget with a state.
    Leaf { id: Option<Id>, state: State },
}

/// The mathematical value of a [`Widget`].
pub enum WidgetView {
    Container { id: Option<Id>, bounds: Rectangle, children: Seq<WidgetView> },
    Leaf { id: Option<Id>, state: State },
}

/// The value of a widget.
pub open spec fn model(widget: Widget) -> WidgetView
    decreases widget,
{
    match widget {
        Widget::Container { id, bounds, children } => WidgetView::Container {
            id,
            bounds,
            children: Seq::new(
                children@.len(),
                |i: int|
                    if 0 <= i < children@.len() {
                        model(children@[i])
                    } else {
                        arbitrary()
                    },
            ),
        },
        Widget::Leaf { id, state } => WidgetView::Leaf { id, state },
    }
}

/// The values of widgets.
pub open spec fn models(widgets: Seq<Widget>) -> Seq<WidgetView> {
    Seq::new(widgets.len(), |i: int| model(widgets[i]))
}

impl View for Widget {
    type V = WidgetView;

    open spec fn view(&self) -> WidgetView {
        model(*self)
    }
}

impl Widget {
    /// A container.
    pub fn container(id: Option<Id>, bounds: Rectangle, children: Vec<Widget>) -> (widget: Widget)
        ensures
            widget == (Widget::Container { id, bounds, children }),
    {
        Widget::Container { id, bounds, children }
    }

    /// A widget with a state.
    pub fn leaf(id: Option<Id>, state: State) -> (widget: Widget)
        ensures
            widget == (Widget::Leaf { id, state }),
    {
        Widget::Leaf { id, state }
    }
}

/// The value of a container holds the values of its children, in order.
pub proof fn lemma_model_of_container(id: Option<Id>, bounds: Rectangle, children: Vec<Widget>)
    ensures
        model(Widget::Container { id, bounds, children }) == (WidgetView::Container {
            id,
            bounds,
            children: models(children@),
        }),
{
    let direct = model(Widget::Container { id, bounds, children });
    assert(direct->Container_children =~= models(children@));
}

} // verus!
