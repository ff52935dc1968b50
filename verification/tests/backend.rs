use render_core::backend::{
    Backend, Command, Load, Phase, Preparation, Target, TextStep,
};
use render_core::blur::Direction;
use render_core::color::{Background, Color};
use render_core::geometry::{PixelRect, Point, Rectangle, Size};
use render_core::layer::{Image, Layer, Mesh, Quad, Text};
use render_core::alignment::{Horizontal, Vertical};
use render_core::primitive::{
    ColoredVertex2D, CustomPipeline, Font, Handle, Mesh2D, Primitive,
};
use render_core::settings::Settings;
use render_core::storage::Storage;
use render_core::units::{units, UNIT};
use render_core::viewport::Viewport;

const SCALE: u32 = UNIT as u32;

fn rect(x: i32, y: i32, width: i32, height: i32) -> Rectangle {
    Rectangle::new(
        Point::new(units(x), units(y)),
        Size::new(units(width), units(height)),
    )
}

fn pixels(x: u32, y: u32, width: u32, height: u32) -> PixelRect {
    PixelRect { x, y, width, height }
}

fn quad() -> Quad {
    Quad {
        position: Point::new(0, 0),
        size: Size::new(units(1), units(1)),
        color: Color::black(),
        border_radius: [0, 0, 0, 0],
        border_width: 0,
        border_color: Color::black(),
    }
}

fn image() -> Image {
    Image::Raster { handle: Handle { id: 1 }, bounds: rect(0, 0, 1, 1) }
}

fn text(content: &String) -> Text<'_> {
    Text {
        content,
        bounds: rect(0, 0, 1, 1),
        color: Color::black(),
        size: units(20),
        font: Font::Default,
        horizontal_alignment: Horizontal::Left,
        vertical_alignment: Vertical::Top,
    }
}

fn mesh(buffers: &Mesh2D<ColoredVertex2D>) -> Mesh<'_> {
    Mesh::Solid { origin: Point::new(0, 0), buffers, clip_bounds: rect(0, 0, 1, 1) }
}

fn step(open: bool, command: &Command) -> Option<bool> {
    match command {
        Command::BeginPass { .. } => if open { None } else { Some(true) },
        Command::EndPass => if open { Some(false) } else { None },
        Command::Quads { .. } | Command::Images { .. } | Command::Text { .. } => {
            if open { Some(true) } else { None }
        }
        _ => if open { None } else { Some(false) },
    }
}

fn passes_in_order(commands: &[Command]) -> bool {
    let mut open = false;
    for command in commands {
        match step(open, command) {
            Some(next) => open = next,
            None => return false,
        }
    }
    !open
}

fn ready(layers: &Vec<Layer<'_>>) -> Backend {
    let mut backend = Backend::new(Settings::default());
    let _ = backend.prepare(layers, SCALE);
    let mut outcome = None;
    loop {
        match backend.prepare_text(layers, SCALE, outcome) {
            TextStep::Prepare { .. } => outcome = Some(true),
            TextStep::Done => break,
        }
    }
    backend
}

#[test]
fn an_empty_frame_is_one_render_pass() {
    let layers: Vec<Layer> = vec![];
    let mut backend = ready(&layers);
    let clear = Color::new(1, 2, 3, 4);
    assert_eq!(
        backend.render(&layers, Some(clear), SCALE),
        vec![
            Command::BeginPass { target: Target::Surface, load: Load::Clear(clear) },
            Command::EndPass,
        ]
    );
    backend.end_frame();
    let mut again = ready(&layers);
    assert_eq!(
        again.render(&layers, None, SCALE),
        vec![
            Command::BeginPass { target: Target::Surface, load: Load::Keep },
            Command::EndPass,
        ]
    );
}

#[test]
fn the_kinds_of_a_layer_are_drawn_in_their_fixed_order() {
    let content = String::from("text");
    let buffers = Mesh2D { vertices: vec![], indices: vec![] };
    let mut layer = Layer::new(rect(10, 20, 30, 40));
    // The lists are filled in another order than they are drawn in.
    layer.custom.push(CustomPipeline { id: 1, state: 2 });
    layer.text.push(text(&content));
    layer.images.push(image());
    layer.meshes.push(mesh(&buffers));
    layer.quads.push(quad());
    let layers = vec![layer];
    let mut backend = ready(&layers);
    let bounds = pixels(10, 20, 30, 40);
    let commands = backend.render(&layers, None, SCALE);
    assert_eq!(
        commands,
        vec![
            Command::BeginPass { target: Target::Surface, load: Load::Keep },
            Command::Quads { layer: 0, bounds },
            Command::EndPass,
            Command::Meshes { layer: 0, source: 0, target: Target::Surface },
            Command::BeginPass { target: Target::Surface, load: Load::Keep },
            Command::Images { layer: 0, bounds },
            Command::Text { layer: 0, bounds },
            Command::EndPass,
            Command::Custom { pipeline: CustomPipeline { id: 1, state: 2 }, bounds },
            Command::BeginPass { target: Target::Surface, load: Load::Keep },
            Command::EndPass,
        ]
    );
    assert!(passes_in_order(&commands));
}

#[test]
fn each_kind_counts_its_own_layers() {
    let content = String::from("text");
    let mut first = Layer::new(rect(0, 0, 10, 10));
    first.quads.push(quad());
    let mut second = Layer::new(rect(0, 0, 20, 20));
    second.text.push(text(&content));
    let hidden = {
        let mut layer = Layer::new(rect(0, 0, 0, 10));
        layer.quads.push(quad());
        layer
    };
    let mut third = Layer::new(rect(0, 0, 30, 30));
    third.quads.push(quad());
    third.text.push(text(&content));
    let layers = vec![first, second, hidden, third];
    let mut backend = ready(&layers);
    let commands = backend.render(&layers, None, SCALE);
    assert_eq!(
        commands,
        vec![
            Command::BeginPass { target: Target::Surface, load: Load::Keep },
            Command::Quads { layer: 0, bounds: pixels(0, 0, 10, 10) },
            Command::Text { layer: 0, bounds: pixels(0, 0, 20, 20) },
            Command::Quads { layer: 1, bounds: pixels(0, 0, 30, 30) },
            Command::Text { layer: 1, bounds: pixels(0, 0, 30, 30) },
            Command::EndPass,
        ]
    );
    assert!(passes_in_order(&commands));
}

#[test]
fn a_blurred_layer_is_drawn_through_the_offscreen_texture() {
    let buffers = Mesh2D { vertices: vec![], indices: vec![] };
    let mut layer = Layer::new(rect(5, 6, 70, 80));
    layer.quads.push(quad());
    layer.meshes.push(mesh(&buffers));
    layer.custom.push(CustomPipeline { id: 9, state: 9 });
    layer.blur = Some(3 * UNIT);
    let mut after = Layer::new(rect(0, 0, 10, 10));
    after.quads.push(quad());
    let layers = vec![layer, after];
    let mut backend = ready(&layers);
    let bounds = pixels(5, 6, 70, 80);
    let commands = backend.render(&layers, Some(Color::black()), SCALE);
    assert_eq!(
        commands,
        vec![
            Command::BeginPass { target: Target::Surface, load: Load::Clear(Color::black()) },
            Command::EndPass,
            Command::ResizeOffscreen { width: 70, height: 80 },
            Command::BeginPass {
                target: Target::Offscreen,
                load: Load::Clear(Color::transparent())
            },
            Command::Quads { layer: 0, bounds },
            Command::EndPass,
            Command::Meshes { layer: 0, source: 0, target: Target::Offscreen },
            Command::BeginPass { target: Target::Offscreen, load: Load::Keep },
            Command::EndPass,
            Command::Blur { direction: Direction::Horizontal, strength: 3 * UNIT },
            Command::Blur { direction: Direction::Vertical, strength: 3 * UNIT },
            Command::Composite { bounds },
            Command::Custom { pipeline: CustomPipeline { id: 9, state: 9 }, bounds },
            Command::BeginPass { target: Target::Surface, load: Load::Keep },
            Command::Quads { layer: 1, bounds: pixels(0, 0, 10, 10) },
            Command::EndPass,
        ]
    );
    assert!(passes_in_order(&commands));
}

#[test]
fn the_bounds_of_a_layer_are_scaled_to_pixels() {
    let mut layer = Layer::new(rect(10, 20, 30, 40));
    layer.quads.push(quad());
    let layers = vec![layer];
    let mut backend = Backend::new(Settings::default());
    let _ = backend.prepare(&layers, 2 * SCALE);
    assert_eq!(backend.prepare_text(&layers, 2 * SCALE, None), TextStep::Done);
    let commands = backend.render(&layers, None, 2 * SCALE);
    assert_eq!(commands[1], Command::Quads { layer: 0, bounds: pixels(20, 40, 60, 80) });
}

#[test]
fn a_frame_goes_through_its_phases() {
    let layers: Vec<Layer> = vec![];
    let mut backend = Backend::new(Settings::default());
    assert_eq!(backend.phase(), Phase::Idle);
    let _ = backend.prepare(&layers, SCALE);
    assert_eq!(backend.phase(), Phase::Prepared);
    assert_eq!(backend.prepare_text(&layers, SCALE, None), TextStep::Done);
    assert_eq!(backend.phase(), Phase::TextReady);
    let _ = backend.render(&layers, None, SCALE);
    assert_eq!(backend.phase(), Phase::Rendered);
    backend.end_frame();
    assert_eq!(backend.phase(), Phase::Idle);
}

#[test]
fn prepare_lists_the_steps_of_each_visible_layer() {
    let content = String::from("text");
    let buffers = Mesh2D { vertices: vec![], indices: vec![] };
    let mut first = Layer::new(rect(0, 0, 10, 10));
    first.quads.push(quad());
    first.quads.push(quad());
    first.meshes.push(mesh(&buffers));
    first.images.push(image());
    first.text.push(text(&content));
    first.custom.push(CustomPipeline { id: 1, state: 1 });
    first.custom.push(CustomPipeline { id: 2, state: 1 });
    let mut hidden = Layer::new(rect(0, 0, 10, 0));
    hidden.quads.push(quad());
    let mut last = Layer::new(rect(0, 0, 10, 10));
    last.quads.push(quad());
    let layers = vec![first, hidden, last];
    let mut backend = Backend::new(Settings::default());
    let steps = backend.prepare(&layers, SCALE);
    assert_eq!(steps.len(), 6);
    match steps[0] {
        Preparation::Quads { source, prepared } => {
            assert_eq!(source, 0);
            assert_eq!(prepared.layer, 0);
            assert!(prepared.created);
            assert!(!prepared.resized);
            assert_eq!(prepared.region.offset, 0);
            assert_eq!(prepared.region.len, 2 * 68);
        }
        _ => panic!("not quads"),
    }
    assert_eq!(steps[1], Preparation::Meshes { source: 0 });
    match steps[2] {
        Preparation::Images { source, prepared } => {
            assert_eq!(source, 0);
            assert_eq!(prepared.layer, 0);
            assert_eq!(prepared.region.len, 36);
        }
        _ => panic!("not images"),
    }
    assert_eq!(
        steps[3],
        Preparation::Custom { source: 0, pipeline: CustomPipeline { id: 1, state: 1 } }
    );
    assert_eq!(
        steps[4],
        Preparation::Custom { source: 0, pipeline: CustomPipeline { id: 2, state: 1 } }
    );
    match steps[5] {
        Preparation::Quads { source, prepared } => {
            assert_eq!(source, 2);
            assert_eq!(prepared.layer, 1);
        }
        _ => panic!("not quads"),
    }
}

#[test]
fn text_is_prepared_again_from_the_start_when_the_atlas_has_grown() {
    let content = String::from("text");
    let mut first = Layer::new(rect(0, 0, 10, 10));
    first.text.push(text(&content));
    let without = Layer::new(rect(0, 0, 10, 10));
    let mut hidden = Layer::new(rect(0, 0, 0, 0));
    hidden.text.push(text(&content));
    let mut last = Layer::new(rect(0, 0, 10, 10));
    last.text.push(text(&content));
    last.text.push(text(&content));
    let layers = vec![first, without, hidden, last];
    let mut backend = Backend::new(Settings::default());
    let _ = backend.prepare(&layers, SCALE);

    let mut sources = vec![];
    let mut layers_of_pipeline = vec![];
    // The atlas takes nothing at the second step, and everything after.
    let answers = [true, false, true, true];
    let mut outcome = None;
    let mut calls = 0;
    loop {
        match backend.prepare_text(&layers, SCALE, outcome) {
            TextStep::Prepare { source, prepared } => {
                sources.push(source);
                layers_of_pipeline.push(prepared.layer);
                outcome = Some(answers[calls]);
                calls += 1;
            }
            TextStep::Done => break,
        }
        assert_eq!(backend.phase(), Phase::Prepared);
    }
    assert_eq!(sources, vec![0, 3, 0, 3]);
    assert_eq!(layers_of_pipeline, vec![0, 1, 0, 1]);
    assert_eq!(backend.phase(), Phase::TextReady);
}

#[test]
fn the_settings_give_the_defaults_of_text() {
    let settings = Settings { default_text_size: 33, default_font: Font::Monospace, ..Settings::default() };
    let backend = Backend::new(settings);
    assert_eq!(backend.default_size(), 33);
    assert_eq!(backend.default_font(), Font::Monospace);
}

#[test]
fn a_frame_from_primitives_keeps_its_passes_in_order() {
    let viewport = Viewport::with_physical_size(100, 100, SCALE);
    let primitives = vec![
        Primitive::Quad {
            bounds: rect(0, 0, 10, 10),
            background: Background::Color(Color::black()),
            border_radius: [0, 0, 0, 0],
            border_width: 0,
            border_color: Color::black(),
        },
        Primitive::group(vec![
            Primitive::custom(rect(0, 0, 5, 5), CustomPipeline { id: 1, state: 1 }),
            Primitive::SolidMesh {
                buffers: Mesh2D { vertices: vec![], indices: vec![] },
                size: Size::new(units(5), units(5)),
            }
            .translate(render_core::geometry::Vector::new(units(60), units(60))),
            // This one lies outside of the clip, and is left out.
            Primitive::SolidMesh {
                buffers: Mesh2D { vertices: vec![], indices: vec![] },
                size: Size::new(units(5), units(5)),
            },
        ])
        .clip(rect(50, 50, 100, 100)),
    ];
    let lines = vec![String::from("overlay")];
    let mut storage: Storage<u8> = Storage::new();
    let mut layers = Layer::generate(&primitives, &viewport, &mut storage, &|_: &CustomPipeline| 0u8);
    layers.push(Layer::overlay(&lines, &viewport));
    let mut backend = ready(&layers);
    let commands = backend.render(&layers, Some(Color::black()), SCALE);
    assert!(passes_in_order(&commands));
    assert_eq!(
        commands,
        vec![
            Command::BeginPass { target: Target::Surface, load: Load::Clear(Color::black()) },
            Command::Quads { layer: 0, bounds: pixels(0, 0, 100, 100) },
            Command::EndPass,
            Command::Meshes { layer: 0, source: 1, target: Target::Surface },
            Command::BeginPass { target: Target::Surface, load: Load::Keep },
            Command::EndPass,
            Command::Custom {
                pipeline: CustomPipeline { id: 1, state: 1 },
                bounds: pixels(50, 50, 50, 50)
            },
            Command::BeginPass { target: Target::Surface, load: Load::Keep },
            Command::Text { layer: 0, bounds: pixels(0, 0, 100, 100) },
            Command::EndPass,
        ]
    );
}
