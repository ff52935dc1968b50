use render_core::blur::{Direction, Pass, Pipeline, Source, Stage};
use render_core::custom::{
    CoreEvent, Event, KeyboardEvent, Length, MouseEvent, Shader, Status, TouchEvent, WindowEvent,
};
use render_core::geometry::{PixelRect, Point, Rectangle, Size};
use render_core::primitive::{CustomPipeline, Primitive};
use render_core::text::{buffer_size, measure, metrics, text_bounds, Metrics, TextBounds};
use render_core::units::{units, UNIT};
use render_core::window::Id;
use std::collections::hash_map::DefaultHasher;
use std::hash::Hasher;

#[test]
fn the_stages_of_a_blur_form_a_round() {
    let mut stage = Stage::Idle;
    assert!(stage.is_idle());
    let mut seen = vec![];
    for _ in 0..5 {
        stage = stage.next();
        seen.push(stage);
    }
    assert_eq!(
        seen,
        vec![
            Stage::RequiresOffscreen,
            Stage::HorizontalPass,
            Stage::VerticalPass,
            Stage::Composite,
            Stage::Idle
        ]
    );
    assert!(!Stage::Composite.is_idle());
}

#[test]
fn the_texture_of_a_blur_is_made_anew_when_its_size_changes() {
    let mut pipeline = Pipeline::new(100, 50);
    assert!(!pipeline.resize_texture(100, 50));
    assert!(pipeline.resize_texture(100, 51));
    assert_eq!(pipeline, Pipeline { width: 100, height: 51 });
    assert!(pipeline.resize_texture(99, 51));
    assert!(!pipeline.resize_texture(99, 51));
}

#[test]
fn a_blur_takes_two_passes() {
    let bounds = PixelRect { x: 5, y: 6, width: 70, height: 80 };
    let passes = Pipeline::new(1, 1).render(3, bounds);
    assert_eq!(
        passes,
        [
            Pass {
                direction: Direction::Horizontal,
                source: Source::Content,
                position: (0, 0),
                size: (70, 80),
                strength: 3,
                scissor: None
            },
            Pass {
                direction: Direction::Vertical,
                source: Source::FirstPass,
                position: (5, 6),
                size: (70, 80),
                strength: 3,
                scissor: Some(bounds)
            },
        ]
    );
}

#[test]
fn events_of_windows_do_not_reach_a_custom_widget() {
    let mouse = MouseEvent::CursorMoved { position: Point::new(1, 2) };
    let touch = TouchEvent::FingerPressed { id: 1, position: Point::new(1, 2) };
    let keyboard = KeyboardEvent::CharacterReceived('a');
    assert_eq!(Event::from_core(CoreEvent::Mouse(mouse)), Some(Event::Mouse(mouse)));
    assert_eq!(Event::from_core(CoreEvent::Touch(touch)), Some(Event::Touch(touch)));
    assert_eq!(
        Event::from_core(CoreEvent::Keyboard(keyboard)),
        Some(Event::Keyboard(keyboard))
    );
    assert_eq!(Event::from_core(CoreEvent::Window(WindowEvent::Focused)), None);
}

#[test]
fn a_shader_widget_is_a_hundred_units_wide_and_high() {
    let pipeline = CustomPipeline { id: 1, state: 2 };
    let shader = Shader::new(pipeline);
    assert_eq!(shader.width, Length::Fixed(units(100)));
    assert_eq!(shader.height, Length::Fixed(units(100)));
    let sized = shader.width(Length::Fill).height(Length::FillPortion(2));
    assert_eq!(sized, Shader { width: Length::Fill, height: Length::FillPortion(2), pipeline });
    assert_eq!(
        sized.on_event(CoreEvent::Mouse(MouseEvent::CursorLeft), Status::Captured),
        Status::Captured
    );
    assert_eq!(
        sized.on_event(CoreEvent::Mouse(MouseEvent::CursorLeft), Status::Ignored),
        Status::Ignored
    );
    assert_eq!(
        sized.on_event(CoreEvent::Window(WindowEvent::CloseRequested), Status::Captured),
        Status::Ignored
    );
    let bounds = Rectangle::new(Point::new(1, 2), Size::new(3, 4));
    match sized.draw(bounds) {
        Primitive::Custom { bounds: drawn, pipeline: with } => {
            assert_eq!(drawn, bounds);
            assert_eq!(with, pipeline);
        }
        _ => panic!("not a custom primitive"),
    }
}

#[test]
fn a_window_id_is_the_hash_of_its_key() {
    let mut hasher = DefaultHasher::new();
    hasher.write(b"main window");
    let expected = hasher.finish();
    assert_eq!(Id::new(b"main window"), Id::new(b"main window"));
    assert_ne!(Id::new(b"main window"), Id::new(b"other window"));
    assert_ne!(Id::new(b""), Id::main());
    assert_eq!(Id::new(b"main window"), Id(expected));
    assert_eq!(Id::new(b"main window").0, expected);
    assert_eq!(Id::main(), Id(0));
}

#[test]
fn the_metrics_of_text_are_whole_pixels() {
    assert_eq!(
        metrics(units(20), UNIT as u32),
        Metrics { font_size: 20, line_height: 24 }
    );
    assert_eq!(
        metrics(units(16), 3 * UNIT as u32 / 2),
        Metrics { font_size: 24, line_height: 28 }
    );
    assert_eq!(metrics(0, UNIT as u32), Metrics { font_size: 0, line_height: 0 });
    assert_eq!(
        metrics(i32::MAX, u32::MAX),
        Metrics { font_size: i32::MAX, line_height: i32::MAX }
    );
}

#[test]
fn the_room_of_text_is_rounded_up() {
    let bounds = Rectangle::new(Point::new(0, 0), Size::new(units(10) + 1, units(5)));
    assert_eq!(buffer_size(bounds, UNIT as u32), (11, 5));
    let endless = Rectangle::new(Point::new(0, 0), Size::infinity());
    assert_eq!(buffer_size(endless, UNIT as u32), (2_097_152, 2_097_152));
    let negative = Rectangle::new(Point::new(0, 0), Size::new(-units(3) - 1, 0));
    assert_eq!(buffer_size(negative, UNIT as u32), (-3, 0));
}

#[test]
fn the_bounds_of_text_are_rounded_towards_zero() {
    let bounds = Rectangle::new(
        Point::new(units(10) + 512, -units(3) - 512),
        Size::new(units(20), units(30)),
    );
    assert_eq!(
        text_bounds(bounds, UNIT as u32),
        TextBounds { left: 10, top: -3, right: 30, bottom: 26 }
    );
    assert_eq!(
        text_bounds(bounds, 2 * UNIT as u32),
        TextBounds { left: 21, top: -7, right: 61, bottom: 53 }
    );
}

#[test]
fn text_is_as_wide_as_its_widest_line() {
    assert_eq!(measure(&vec![], units(20)), (0, 0));
    assert_eq!(measure(&vec![5, 30, 10], units(20)), (30, 3 * units(24)));
    assert_eq!(measure(&vec![-5], units(10)), (0, units(12)));
    assert_eq!(measure(&vec![1; 4], i32::MAX), (1, i32::MAX));
}
