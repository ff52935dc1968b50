use render_core::color::Color;
use render_core::geometry::{Point, Size};
use render_core::layer::Quad;
use render_core::quad::{
    chunks, draw, draw_instances, layout, quad_indices, Attribute, Chunk, CompatVertex,
    UniformChanges, Uniforms, INITIAL_INSTANCES, MAX_INDICES, MAX_QUADS, MAX_VERTICES,
};
use render_core::units::UNIT;

#[test]
fn the_limits_of_a_draw_follow_from_the_number_of_quads() {
    assert_eq!(MAX_QUADS, 100_000);
    assert_eq!(MAX_VERTICES, MAX_QUADS * 4);
    assert_eq!(MAX_INDICES, MAX_QUADS * 6);
    assert_eq!(INITIAL_INSTANCES, 10_000);
}

#[test]
fn chunks_cover_the_list() {
    assert_eq!(chunks(0, 10), vec![]);
    assert_eq!(chunks(1, 10), vec![Chunk { first: 0, len: 1 }]);
    assert_eq!(chunks(10, 10), vec![Chunk { first: 0, len: 10 }]);
    assert_eq!(
        chunks(11, 10),
        vec![Chunk { first: 0, len: 10 }, Chunk { first: 10, len: 1 }]
    );
    assert_eq!(
        chunks(25, 10),
        vec![
            Chunk { first: 0, len: 10 },
            Chunk { first: 10, len: 10 },
            Chunk { first: 20, len: 5 }
        ]
    );
    assert_eq!(
        chunks(usize::MAX, usize::MAX - 1),
        vec![
            Chunk { first: 0, len: usize::MAX - 1 },
            Chunk { first: usize::MAX - 1, len: 1 }
        ]
    );
}

#[test]
fn instances_are_drawn_ten_thousand_at_a_time() {
    assert_eq!(draw_instances(0), vec![]);
    assert_eq!(draw_instances(10_000), vec![Chunk { first: 0, len: 10_000 }]);
    assert_eq!(
        draw_instances(25_000),
        vec![
            Chunk { first: 0, len: 10_000 },
            Chunk { first: 10_000, len: 10_000 },
            Chunk { first: 20_000, len: 5_000 }
        ]
    );
}

#[test]
fn each_quad_has_two_triangles() {
    assert_eq!(quad_indices(0), vec![]);
    assert_eq!(quad_indices(1), vec![0, 1, 2, 2, 1, 3]);
    assert_eq!(
        quad_indices(3),
        vec![0, 1, 2, 2, 1, 3, 4, 5, 6, 6, 5, 7, 8, 9, 10, 10, 9, 11]
    );
    let many = quad_indices(MAX_QUADS);
    assert_eq!(many.len(), MAX_INDICES);
    assert_eq!(many[MAX_INDICES - 1], (MAX_VERTICES - 1) as u32);
}

#[test]
fn quads_without_instancing_are_drawn_in_passes() {
    assert!(draw(0).is_empty());
    let one = draw(2);
    assert_eq!(one.len(), 1);
    assert_eq!(one[0].quads, Chunk { first: 0, len: 2 });
    assert_eq!(one[0].indices, vec![0, 1, 2, 2, 1, 3, 4, 5, 6, 6, 5, 7]);
    let two = draw(MAX_QUADS + 1);
    assert_eq!(two.len(), 2);
    assert_eq!(two[0].quads, Chunk { first: 0, len: MAX_QUADS });
    assert_eq!(two[0].indices.len(), MAX_INDICES);
    assert_eq!(two[1].quads, Chunk { first: MAX_QUADS, len: 1 });
    // The indices of a pass count from its own first vertex.
    assert_eq!(two[1].indices, vec![0, 1, 2, 2, 1, 3]);
}

#[test]
fn a_quad_has_four_corners() {
    let quad = Quad {
        position: Point::new(1, 2),
        size: Size::new(3, 4),
        color: Color::black(),
        border_radius: [1, 2, 3, 4],
        border_width: 5,
        border_color: Color::transparent(),
    };
    let vertices = CompatVertex::from_quad(&quad);
    let corners: Vec<[u8; 2]> = vertices.iter().map(|vertex| vertex.quad_position).collect();
    assert_eq!(corners, vec![[0, 0], [0, 1], [1, 0], [1, 1]]);
    for vertex in vertices.iter() {
        assert_eq!(vertex.quad, quad);
    }
}

#[test]
fn only_changed_uniforms_are_told_again() {
    let mut uniforms = Uniforms::new();
    let identity = [
        UNIT, 0, 0, 0, 0, UNIT, 0, 0, 0, 0, UNIT, 0, 0, 0, 0, UNIT,
    ];
    assert_eq!(uniforms.transform, identity);
    assert_eq!(uniforms.scale, UNIT);
    assert_eq!(uniforms.screen_height, 0);
    assert_eq!(
        uniforms.update(identity, UNIT, 0),
        UniformChanges { transform: false, scale: false, screen_height: false }
    );
    let mut moved = identity;
    moved[12] = 5;
    assert_eq!(
        uniforms.update(moved, UNIT, 600),
        UniformChanges { transform: true, scale: false, screen_height: true }
    );
    assert_eq!(uniforms.transform, moved);
    assert_eq!(uniforms.screen_height, 600);
    assert_eq!(
        uniforms.update(moved, 2 * UNIT, 600),
        UniformChanges { transform: false, scale: true, screen_height: false }
    );
    assert_eq!(uniforms.scale, 2 * UNIT);
    let mut last = moved;
    last[15] = 0;
    assert_eq!(
        uniforms.update(last, 2 * UNIT, 600),
        UniformChanges { transform: true, scale: false, screen_height: false }
    );
}

#[test]
fn attributes_lie_one_behind_the_other() {
    // A colour, a position, a size, a border colour, four radii, a width.
    let (attributes, stride) = layout(&vec![4, 2, 2, 4, 4, 1], 1).unwrap();
    assert_eq!(stride, 68);
    assert_eq!(
        attributes,
        vec![
            Attribute { location: 1, components: 4, offset: 0 },
            Attribute { location: 2, components: 2, offset: 16 },
            Attribute { location: 3, components: 2, offset: 24 },
            Attribute { location: 4, components: 4, offset: 32 },
            Attribute { location: 5, components: 4, offset: 48 },
            Attribute { location: 6, components: 1, offset: 64 },
        ]
    );
    let (none, empty) = layout(&vec![], 0).unwrap();
    assert!(none.is_empty());
    assert_eq!(empty, 0);
    assert_eq!(layout(&vec![u32::MAX / 4, 1], 0), None);
    assert_eq!(layout(&vec![1, 1], u32::MAX), None);
    assert_eq!(
        layout(&vec![1], u32::MAX),
        Some((vec![Attribute { location: u32::MAX, components: 1, offset: 0 }], 4))
    );
}
