use render_core::alignment::{Horizontal, Vertical};
use render_core::color::{Background, Color};
use render_core::gradient::Gradient;
use render_core::layer::{Image, Mesh, Quad, Text};
use render_core::primitive::{ColoredVertex2D, Font, Handle, Mesh2D, Vertex2D};
use std::sync::Arc;
use render_core::geometry::{Point, Rectangle, Size, Vector};
use render_core::layer::Layer;
use render_core::primitive::{CustomPipeline, Primitive};
use render_core::storage::Storage;
use render_core::units::{units, UNIT};
use render_core::viewport::Viewport;

fn rect(x: i32, y: i32, width: i32, height: i32) -> Rectangle {
    Rectangle::new(
        Point::new(units(x), units(y)),
        Size::new(units(width), units(height)),
    )
}

fn quad_at(x: i32, y: i32) -> Primitive {
    Primitive::Quad {
        bounds: rect(x, y, 10, 10),
        background: Background::Color(Color::black()),
        border_radius: [0, 0, 0, 0],
        border_width: 0,
        border_color: Color::black(),
    }
}

fn flatten(primitives: &Vec<Primitive>, width: u32, height: u32) -> Vec<Layer<'_>> {
    let viewport = Viewport::with_physical_size(width, height, UNIT as u32);
    let mut storage: Storage<u32> = Storage::new();
    Layer::generate(primitives, &viewport, &mut storage, &|_: &CustomPipeline| 0u32)
}

#[test]
fn clip_outside_the_root_layer_is_culled() {
    let primitives = vec![quad_at(0, 0).clip(rect(1000, 1000, 10, 10))];
    let layers = flatten(&primitives, 100, 100);
    assert_eq!(layers.len(), 1);
    assert_eq!(layers[0].bounds, rect(0, 0, 100, 100));
    assert!(layers[0].quads.is_empty());
    assert!(layers[0].meshes.is_empty());
    assert!(layers[0].text.is_empty());
    assert!(layers[0].images.is_empty());
    assert!(layers[0].custom.is_empty());
}

#[test]
fn clip_layer_has_the_intersection_as_its_bounds() {
    let primitives = vec![quad_at(60, 60).clip(rect(50, 50, 100, 100))];
    let layers = flatten(&primitives, 120, 120);
    assert_eq!(layers.len(), 2);
    assert_eq!(layers[0].bounds, rect(0, 0, 120, 120));
    assert_eq!(layers[1].bounds, rect(50, 50, 70, 70));
    assert_eq!(layers[1].quads.len(), 1);
    assert!(layers[0].quads.is_empty());
}

#[test]
fn nested_translations_add_up() {
    let primitives = vec![quad_at(0, 0)
        .translate(Vector::new(units(5), units(5)))
        .translate(Vector::new(units(10), units(10)))];
    let layers = flatten(&primitives, 100, 100);
    assert_eq!(layers.len(), 1);
    assert_eq!(layers[0].quads.len(), 1);
    assert_eq!(layers[0].quads[0].position, Point::new(units(15), units(15)));
    assert_eq!(layers[0].quads[0].size, Size::new(units(10), units(10)));
}

#[test]
fn a_new_layer_draws_nothing() {
    let layer = Layer::new(rect(1, 2, 3, 4));
    assert_eq!(layer.bounds, rect(1, 2, 3, 4));
    assert!(layer.quads.is_empty());
    assert!(layer.meshes.is_empty());
    assert!(layer.text.is_empty());
    assert!(layer.images.is_empty());
    assert!(layer.custom.is_empty());
    assert_eq!(layer.blur, None);
}

#[test]
fn a_quad_is_drawn_as_it_is_given() {
    let primitives = vec![Primitive::Quad {
        bounds: rect(1, 2, 3, 4),
        background: Background::Color(Color::new(1, 2, 3, 4)),
        border_radius: [5, 6, 7, 8],
        border_width: 9,
        border_color: Color::new(10, 11, 12, 13),
    }
    .translate(Vector::new(100, 200))];
    let layers = flatten(&primitives, 100, 100);
    assert_eq!(
        layers[0].quads,
        vec![Quad {
            position: Point::new(units(1) + 100, units(2) + 200),
            size: Size::new(units(3), units(4)),
            color: Color::new(1, 2, 3, 4),
            border_radius: [5, 6, 7, 8],
            border_width: 9,
            border_color: Color::new(10, 11, 12, 13),
        }]
    );
}

#[test]
fn members_of_a_group_keep_their_order() {
    let primitives = vec![Primitive::group(vec![
        quad_at(1, 1),
        Primitive::group(vec![quad_at(2, 2), quad_at(3, 3)]),
        quad_at(4, 4),
    ])];
    let layers = flatten(&primitives, 100, 100);
    let places: Vec<Point> = layers[0].quads.iter().map(|quad| quad.position).collect();
    assert_eq!(
        places,
        vec![
            Point::new(units(1), units(1)),
            Point::new(units(2), units(2)),
            Point::new(units(3), units(3)),
            Point::new(units(4), units(4)),
        ]
    );
}

#[test]
fn after_a_clip_the_parent_layer_goes_on() {
    let primitives = vec![
        quad_at(1, 1),
        Primitive::group(vec![quad_at(2, 2), quad_at(3, 3).clip(rect(0, 0, 10, 10))])
            .clip(rect(0, 0, 50, 50)),
        quad_at(4, 4),
    ];
    let layers = flatten(&primitives, 100, 100);
    assert_eq!(layers.len(), 3);
    assert_eq!(layers[0].quads.len(), 2);
    assert_eq!(layers[0].quads[1].position, Point::new(units(4), units(4)));
    assert_eq!(layers[1].bounds, rect(0, 0, 50, 50));
    assert_eq!(layers[1].quads.len(), 1);
    assert_eq!(layers[2].bounds, rect(0, 0, 10, 10));
    assert_eq!(layers[2].quads.len(), 1);
}

#[test]
fn a_clip_is_moved_by_the_translation_before_it_is_cut() {
    let primitives = vec![quad_at(0, 0)
        .clip(rect(0, 0, 50, 50))
        .translate(Vector::new(units(80), units(90)))];
    let layers = flatten(&primitives, 100, 100);
    assert_eq!(layers.len(), 2);
    assert_eq!(layers[1].bounds, rect(80, 90, 20, 10));
    assert_eq!(layers[1].quads[0].position, Point::new(units(80), units(90)));
}

#[test]
fn a_culled_clip_hides_all_that_it_holds() {
    let hidden = Primitive::group(vec![
        quad_at(0, 0),
        quad_at(5, 5).clip(rect(0, 0, 100, 100)),
        Primitive::custom(rect(0, 0, 1, 1), CustomPipeline { id: 1, state: 1 }),
    ])
    .clip(rect(200, 200, 10, 10));
    let primitives = vec![hidden, quad_at(1, 1)];
    let viewport = Viewport::with_physical_size(100, 100, UNIT as u32);
    let mut storage: Storage<u32> = Storage::new();
    let layers = Layer::generate(&primitives, &viewport, &mut storage, &|_: &CustomPipeline| 0u32);
    assert_eq!(layers.len(), 1);
    assert_eq!(layers[0].quads.len(), 1);
    assert!(layers[0].custom.is_empty());
    assert!(!storage.has(1));
}

#[test]
fn a_mesh_carries_the_part_that_the_layer_shows() {
    let solid = Mesh2D {
        vertices: vec![ColoredVertex2D { position: [0, 0], color: [0, 0, 0, 0] }],
        indices: vec![0, 0, 0],
    };
    let plain = Mesh2D { vertices: vec![Vertex2D { position: [0, 0] }], indices: vec![0, 0, 0] };
    let gradient = Gradient::linear(Point::origin(), Point::origin())
        .add_stop(0, Color::black())
        .build()
        .unwrap();
    let primitives = vec![
        Primitive::SolidMesh { buffers: solid, size: Size::new(units(50), units(50)) }
            .translate(Vector::new(units(80), units(10))),
        Primitive::GradientMesh {
            buffers: plain,
            size: Size::new(units(10), units(10)),
            gradient,
        }
        .translate(Vector::new(units(500), units(10))),
        Primitive::GradientMesh {
            buffers: Mesh2D { vertices: vec![], indices: vec![] },
            size: Size::new(units(10), units(10)),
            gradient,
        },
    ];
    let layers = flatten(&primitives, 100, 100);
    assert_eq!(layers.len(), 1);
    assert_eq!(layers[0].meshes.len(), 2);
    match layers[0].meshes[0] {
        Mesh::Solid { origin, buffers, clip_bounds } => {
            assert_eq!(origin, Point::new(units(80), units(10)));
            assert_eq!(clip_bounds, rect(80, 10, 20, 50));
            assert_eq!(buffers.indices, vec![0, 0, 0]);
        }
        _ => panic!("not a solid mesh"),
    }
    match layers[0].meshes[1] {
        Mesh::Gradient { origin, clip_bounds, gradient: drawn, .. } => {
            assert_eq!(origin, Point::new(0, 0));
            assert_eq!(clip_bounds, rect(0, 0, 10, 10));
            assert_eq!(*drawn, gradient);
        }
        _ => panic!("not a gradient mesh"),
    }
}

#[test]
fn text_and_images_are_moved_by_the_translation() {
    let primitives = vec![Primitive::group(vec![
        Primitive::Text {
            content: String::from("hello"),
            bounds: rect(1, 1, 10, 10),
            color: Color::black(),
            size: units(16),
            font: Font::Monospace,
            horizontal_alignment: Horizontal::Center,
            vertical_alignment: Vertical::Bottom,
        },
        Primitive::Image { handle: Handle { id: 3 }, bounds: rect(2, 2, 10, 10) },
        Primitive::Svg {
            handle: Handle { id: 4 },
            color: Some(Color::black()),
            bounds: rect(3, 3, 10, 10),
        },
    ])
    .translate(Vector::new(units(10), units(20)))];
    let layers = flatten(&primitives, 100, 100);
    assert_eq!(layers[0].text.len(), 1);
    let text: &Text = &layers[0].text[0];
    assert_eq!(text.content.as_str(), "hello");
    assert_eq!(text.bounds, rect(11, 21, 10, 10));
    assert_eq!(text.size, units(16));
    assert_eq!(text.font, Font::Monospace);
    assert_eq!(text.horizontal_alignment, Horizontal::Center);
    assert_eq!(text.vertical_alignment, Vertical::Bottom);
    assert_eq!(
        layers[0].images,
        vec![
            Image::Raster { handle: Handle { id: 3 }, bounds: rect(12, 22, 10, 10) },
            Image::Vector {
                handle: Handle { id: 4 },
                color: Some(Color::black()),
                bounds: rect(13, 23, 10, 10)
            },
        ]
    );
}

#[test]
fn a_cache_stands_for_what_it_holds() {
    let cached = Arc::new(quad_at(7, 7));
    let primitives = vec![
        Primitive::Cache { content: cached.clone() },
        Primitive::Cache { content: cached }.translate(Vector::new(units(1), 0)),
    ];
    let layers = flatten(&primitives, 100, 100);
    assert_eq!(layers[0].quads.len(), 2);
    assert_eq!(layers[0].quads[0].position, Point::new(units(7), units(7)));
    assert_eq!(layers[0].quads[1].position, Point::new(units(8), units(7)));
}

#[test]
fn a_layer_records_each_custom_id_once() {
    let primitives = vec![
        Primitive::custom(rect(0, 0, 1, 1), CustomPipeline { id: 5, state: 1 }),
        Primitive::custom(rect(0, 0, 1, 1), CustomPipeline { id: 6, state: 1 }),
        Primitive::custom(rect(0, 0, 1, 1), CustomPipeline { id: 5, state: 2 }),
        Primitive::custom(rect(0, 0, 1, 1), CustomPipeline { id: 5, state: 1 })
            .clip(rect(0, 0, 10, 10)),
    ];
    let layers = flatten(&primitives, 100, 100);
    assert_eq!(layers.len(), 2);
    assert_eq!(
        layers[0].custom,
        vec![CustomPipeline { id: 5, state: 1 }, CustomPipeline { id: 6, state: 1 }]
    );
    assert_eq!(layers[1].custom, vec![CustomPipeline { id: 5, state: 1 }]);
}

#[test]
fn translations_saturate_at_the_end_of_the_range() {
    let primitives = vec![quad_at(0, 0)
        .translate(Vector::new(i32::MAX, 0))
        .translate(Vector::new(i32::MAX, 0))];
    let layers = flatten(&primitives, 100, 100);
    assert_eq!(layers[0].quads[0].position, Point::new(i32::MAX, 0));
}

#[test]
fn no_primitives_give_the_first_layer_alone() {
    let primitives: Vec<Primitive> = vec![];
    let layers = flatten(&primitives, 640, 480);
    assert_eq!(layers.len(), 1);
    assert_eq!(layers[0].bounds, rect(0, 0, 640, 480));
}

#[test]
fn overlay_draws_each_line_twice() {
    let lines = vec![String::from("first"), String::from("second")];
    let viewport = Viewport::with_physical_size(300, 200, UNIT as u32);
    let layer = Layer::overlay(&lines, &viewport);
    assert_eq!(layer.bounds, rect(0, 0, 300, 200));
    assert!(layer.quads.is_empty());
    assert_eq!(layer.text.len(), 4);
    let grey = Color::new(922, 922, 922, UNIT);
    for (i, line) in lines.iter().enumerate() {
        let y = units(11) + units(25) * i as i32;
        let text = &layer.text[2 * i];
        assert_eq!(text.content, line);
        assert_eq!(
            text.bounds,
            Rectangle::new(Point::new(units(11), y), Size::infinity())
        );
        assert_eq!(text.color, grey);
        assert_eq!(text.size, units(20));
        assert_eq!(text.font, Font::Monospace);
        assert_eq!(text.horizontal_alignment, Horizontal::Left);
        assert_eq!(text.vertical_alignment, Vertical::Top);
        let shadow = &layer.text[2 * i + 1];
        assert_eq!(shadow.content, line);
        assert_eq!(
            shadow.bounds,
            Rectangle::new(Point::new(units(10), y - UNIT), Size::infinity())
        );
        assert_eq!(shadow.color, Color::black());
    }
    let none: Vec<String> = vec![];
    assert!(Layer::overlay(&none, &viewport).text.is_empty());
}

#[test]
fn one_primitive_is_sorted_into_the_layers_that_are_there() {
    let hidden = quad_at(0, 0).clip(rect(1000, 1000, 10, 10));
    let shown = quad_at(60, 60).clip(rect(50, 50, 100, 100));
    let moved = quad_at(0, 0)
        .translate(Vector::new(units(5), units(5)))
        .translate(Vector::new(units(10), units(10)));
    let mut storage: Storage<u32> = Storage::new();
    let init = |_: &CustomPipeline| 0u32;
    let mut layers = vec![Layer::new(rect(0, 0, 100, 100)), Layer::new(rect(0, 0, 120, 120))];

    // A clip that misses its layer adds nothing anywhere.
    Layer::process_primitive(&mut layers, &mut storage, &init, Vector::new(0, 0), &hidden, 0);
    assert_eq!(layers.len(), 2);
    assert!(layers.iter().all(|layer| layer.quads.is_empty() && layer.custom.is_empty()));

    // A clip that meets its layer adds a layer for what they share.
    Layer::process_primitive(&mut layers, &mut storage, &init, Vector::new(0, 0), &shown, 1);
    assert_eq!(layers.len(), 3);
    assert_eq!(layers[1].bounds, rect(0, 0, 120, 120));
    assert_eq!(layers[2].bounds, rect(50, 50, 70, 70));
    assert_eq!(layers[2].quads.len(), 1);
    assert!(layers[0].quads.is_empty());
    assert!(layers[1].quads.is_empty());

    // Translations add to the translation that is there.
    Layer::process_primitive(
        &mut layers,
        &mut storage,
        &init,
        Vector::new(units(1), units(2)),
        &moved,
        0,
    );
    assert_eq!(layers.len(), 3);
    assert_eq!(layers[0].quads.len(), 1);
    assert_eq!(layers[0].quads[0].position, Point::new(units(16), units(17)));
}
