//! The widget that draws with a pipeline of the application, and the events
//! that reach it.
use vstd::prelude::*;
use crate::geometry::{Point, Rectangle};
use crate::primitive::{CustomPipeline, Primitive};
use crate::units::UNIT;

verus! {

/// What happens to the mouse.
#[derive(Clone, Copy, Debug, PartialEq, Eq, Structural)]
pub enum MouseEvent {
    CursorEntered,
    CursorLeft,
    CursorMoved { position: Point },
    ButtonPressed(u8),
    ButtonReleased(u8),
    WheelScrolled { x: i32, y: i32 },
}

/// What happens to a finger on a touch screen.
#[derive(Clone, Copy, Debug, PartialEq, Eq, Structural)]
pub enum TouchEvent {
    FingerPressed { id: u64, position: Point },
    FingerMoved { id: u64, position: Point },
    FingerLifted { id: u64, position: Point },
    FingerLost { id: u64, position: Point },
}

/// What happens to the keyboard.
#[derive(Clone, Copy, Debug, PartialEq, Eq, Structural)]
pub enum KeyboardEvent {
    KeyPressed { key_code: u32, modifiers: u32 },
    KeyReleased { key_code: u32, modifiers: u32 },
    CharacterReceived(char),
    ModifiersChanged(u32),
}

/// What happens to a window.
#[derive(Clone, Copy, Debug, PartialEq, Eq, Structural)]
pub enum WindowEvent {
    Moved { x: i32, y: i32 },
    Resized { width: u32, height: u32 },
    CloseRequested,
    Focused,
    Unfocused,
}

/// An event of the application.
#[derive(Clone, Copy, Debug, PartialEq, Eq, Structural)]
pub enum CoreEvent {
    Keyboard(KeyboardEvent),
    Mouse(MouseEvent),
    Window(WindowEvent),
    Touch(TouchEvent),
}

/// An event that reaches a custom widget.
#[derive(Clone, Copy, Debug, PartialEq, Eq, Structural)]
pub enum Event {
    /// A mouse event.
    Mouse(MouseEvent),
    /// A touch event.
    Touch(TouchEvent),
    /// A keyboard event.
    Keyboard(KeyboardEvent),
}

/// What a widget has done with an event.
#[derive(Clone, Copy, Debug, PartialEq, Eq, Structural)]
pub enum Status {
    /// The event was of no use to the widget.
    Ignored,
    /// The widget has taken the event.
    Captured,
}

/// An extent of a widget.
#[derive(Clone, Copy, Debug, PartialEq, Eq, Structural)]
pub enum Length {
    /// All the room there is.
    Fill,
    /// A share of the room there is.
    FillPortion(u16),
    /// As little as the widget needs.
    Shrink,
    /// This many units, as a scalar.
    Fixed(i32),
}

/// A widget that draws with a pipeline of the application.
#[derive(Clone, Copy, Debug, PartialEq, Eq, Structural)]
pub struct Shader {
    pub width: Length,
    pub height: Length,
    pub pipeline: CustomPipeline,
}

impl Event {
    /// The event of a custom widget that an event of the application is:
    /// none for what happens to a window.
    pub open spec fn of(event: CoreEvent) -> Option<Event> {
        match event {
            CoreEvent::Mouse(mouse) => Some(Event::Mouse(mouse)),
            CoreEvent::Keyboard(keyboard) => Some(Event::Keyboard(keyboard)),
            CoreEvent::Touch(touch) => Some(Event::Touch(touch)),
            CoreEvent::Window(_) => None,
        }
    }

    /// The event of a custom widget that an event of the application is.
    pub fn from_core(event: CoreEvent) -> (custom: Option<Event>)
        ensures
            custom == Event::of(event),
    {
        match event {
            CoreEvent::Mouse(mouse) => Some(Event::Mouse(mouse)),
            CoreEvent::Keyboard(keyboard) => Some(Event::Keyboard(keyboard)),
            CoreEvent::Touch(touch) => Some(Event::Touch(touch)),
            CoreEvent::Window(_) => None,
        }
    }
}

impl Shader {
    /// A widget of a hundred units by a hundred that draws with `pipeline`.
    pub fn new(pipeline: CustomPipeline) -> (shader: Shader)
        ensures
            shader == (Shader {
                width: Length::Fixed(102_400),
                height: Length::Fixed(102_400),
                pipeline,
            }),
    {
        Shader { width: Length::Fixed(102_400), height: Length::Fixed(102_400), pipeline }
    }

    /// The widget with the width `width`.
    pub fn width(self, width: Length) -> (shader: Shader)
        ensures
            shader == (Shader { width, ..self }),
    {
        Shader { width, ..self }
    }

    /// The widget with the height `height`.
    pub fn height(self, height: Length) -> (shader: Shader)
        ensures
            shader == (Shader { height, ..self }),
    {
        Shader { height, ..self }
    }

    /// What the widget does with an event of the application. An event that
    /// is none of a custom widget is ignored; for any other, `update` tells
    /// what the program of the widget has done with it.
    pub fn on_event(&self, event: CoreEvent, update: Status) -> (status: Status)
        ensures
            status == match Event::of(event) {
                Some(_) => update,
                None => Status::Ignored,
            },
    {
        match Event::from_core(event) {
            Some(_) => update,
            None => Status::Ignored,
        }
    }

    /// The primitive that draws the widget inside `bounds`.
    pub fn draw(&self, bounds: Rectangle) -> (primitive: Primitive)
        ensures
            primitive == (Primitive::Custom { bounds, pipeline: self.pipeline }),
    {
        Primitive::custom(bounds, self.pipeline)
    }
}

/// A hundred units.
pub proof fn lemma_default_extent()
    ensures
        102_400 == 100 * UNIT,
{
}

} // verus!
