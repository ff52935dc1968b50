//! Layers: the primitives of a frame, sorted into the clip regions in which
//! they are drawn.
use vstd::prelude::*;
use crate::alignment::{Horizontal, Vertical};
use crate::color::{Background, Color};
use crate::geometry::{Point, Rectangle, Size, Vector};
use crate::gradient::Gradient;
use crate::primitive::{ColoredVertex2D, CustomPipeline, Font, Handle, Mesh2D, Primitive, Vertex2D};
use crate::storage::Storage;
use crate::units::{clamp, plus, saturate, UNIT};
use crate::viewport::Viewport;

verus! {

/// A quad as it is drawn: its place is final, its colours are linear.
#[derive(Clone, Copy, Debug, PartialEq, Eq)]
pub struct Quad {
    pub position: Point,
    pub size: Size,
    pub color: Color,
    pub border_radius: [i32; 4],
    pub border_width: i32,
    pub border_color: Color,
}

/// A mesh as it is drawn.
#[allow(inconsistent_fields)]
#[derive(Clone, Copy, Debug)]
pub enum Mesh<'a> {
    /// A mesh whose vertices carry their colour.
    Solid {
        /// Where the origin of the mesh lies.
        origin: Point,
        buffers: &'a Mesh2D<ColoredVertex2D>,
        /// The scissor rectangle of the draw: the part of the mesh that the
        /// layer shows.
        clip_bounds: Rectangle,
    },
    /// A mesh filled with a gradient.
    Gradient {
        /// Where the origin of the mesh lies.
        origin: Point,
        buffers: &'a Mesh2D<Vertex2D>,
        /// The scissor rectangle of the draw.
        clip_bounds: Rectangle,
        gradient: &'a Gradient,
    },
}

/// A run of text as it is drawn.
#[derive(Clone, Copy, Debug)]
pub struct Text<'a> {
    pub content: &'a String,
    pub bounds: Rectangle,
    pub color: Color,
    pub size: i32,
    pub font: Font,
    pub horizontal_alignment: Horizontal,
    pub vertical_alignment: Vertical,
}

/// An image as it is drawn.
#[derive(Clone, Copy, Debug, PartialEq, Eq)]
pub enum Image {
    Raster { handle: Handle, bounds: Rectangle },
    Vector { handle: Handle, color: Option<Color>, bounds: Rectangle },
}

/// What is drawn inside one clip region.
///
/// Within each list the order of drawing is the order of the list. Between
/// the lists it is fixed, whatever the order of the primitives was: quads,
/// meshes, images, text, custom pipelines.
#[derive(Debug)]
pub struct Layer<'a> {
    /// The clip region.
    pub bounds: Rectangle,
    pub quads: Vec<Quad>,
    pub meshes: Vec<Mesh<'a>>,
    pub text: Vec<Text<'a>>,
    pub images: Vec<Image>,
    /// The custom pipelines that draw in this layer, none of them twice.
    pub custom: Vec<CustomPipeline>,
    /// The strength of the blur that the layer is drawn through, if any.
    pub blur: Option<i32>,
}

/// The mathematical value of a [`Layer`].
pub struct LayerView<'a> {
    pub bounds: Rectangle,
    pub quads: Seq<Quad>,
    pub meshes: Seq<Mesh<'a>>,
    pub text: Seq<Text<'a>>,
    pub images: Seq<Image>,
    pub custom: Seq<CustomPipeline>,
    pub blur: Option<i32>,
}

impl<'a> View for Layer<'a> {
    type V = LayerView<'a>;

    open spec fn view(&self) -> LayerView<'a> {
        LayerView {
            bounds: self.bounds,
            quads: self.quads@,
            meshes: self.meshes@,
            text: self.text@,
            images: self.images@,
            custom: self.custom@,
            blur: self.blur,
        }
    }
}

/// The values of a list of layers.
pub open spec fn views<'a>(layers: Seq<Layer<'a>>) -> Seq<LayerView<'a>> {
    Seq::new(layers.len(), |i: int| layers[i]@)
}

impl<'a> LayerView<'a> {
    /// A layer that draws nothing inside `bounds`.
    pub open spec fn empty(bounds: Rectangle) -> LayerView<'a> {
        LayerView {
            bounds,
            quads: Seq::empty(),
            meshes: Seq::empty(),
            text: Seq::empty(),
            images: Seq::empty(),
            custom: Seq::empty(),
            blur: None,
        }
    }

    /// Whether the layer draws nothing.
    pub open spec fn is_empty(self) -> bool {
        self.quads.len() == 0 && self.meshes.len() == 0 && self.text.len() == 0
            && self.images.len() == 0 && self.custom.len() == 0
    }

    /// Whether one of the custom pipelines of the layer has the id `id`.
    pub open spec fn has_custom(self, id: u64) -> bool {
        exists|i: int| 0 <= i < self.custom.len() && #[trigger] self.custom[i].id == id
    }

    /// Whether `earlier` is this layer at an earlier time: the same region,
    /// and lists that the lists of this layer start with.
    pub open spec fn extends(self, earlier: LayerView<'a>) -> bool {
        &&& self.bounds == earlier.bounds
        &&& self.blur == earlier.blur
        &&& earlier.quads.is_prefix_of(self.quads)
        &&& earlier.meshes.is_prefix_of(self.meshes)
        &&& earlier.text.is_prefix_of(self.text)
        &&& earlier.images.is_prefix_of(self.images)
        &&& earlier.custom.is_prefix_of(self.custom)
    }
}

/// The state of flattening: the layers so far, and the keys under which the
/// storage holds a state.
pub struct Flat<'a> {
    pub layers: Seq<LayerView<'a>>,
    pub states: Set<u64>,
}

impl<'a> Flat<'a> {
    /// This state with `layer` in place of the layer at `index`.
    pub open spec fn put(self, index: int, layer: LayerView<'a>) -> Flat<'a> {
        Flat { layers: self.layers.update(index, layer), ..self }
    }
}

/// The corner of `bounds` moved by `translation`.
pub open spec fn moved(x: i32, y: i32, translation: Vector) -> Point {
    Point { x: clamp(x + translation.x), y: clamp(y + translation.y) }
}

/// The quad that a quad primitive is drawn as under `translation`.
pub open spec fn quad_of(
    bounds: Rectangle,
    background: Background,
    border_radius: [i32; 4],
    border_width: i32,
    border_color: Color,
    translation: Vector,
) -> Quad {
    Quad {
        position: moved(bounds.x, bounds.y, translation),
        size: Size { width: bounds.width, height: bounds.height },
        color: match background {
            Background::Color(color) => color,
        },
        border_radius,
        border_width,
        border_color,
    }
}

/// The rectangle that a mesh of `size` fills under `translation`.
pub open spec fn mesh_bounds(size: Size, translation: Vector) -> Rectangle {
    Rectangle { x: translation.x, y: translation.y, width: size.width, height: size.height }
}

/// The state after `primitive` has been flattened under `translation`, with
/// the layer at `current` as the one that receives what is drawn.
///
/// A text, a quad or an image is appended to its list in the current layer,
/// moved by the translation. A mesh is appended with the part of its
/// rectangle that the layer shows as its scissor rectangle, or left out where
/// the layer shows nothing of it. The members of a group follow one another
/// in the same layer. A clip whose moved bounds share an area with the
/// current layer adds a layer for that area at the end, and what it holds is
/// flattened into that layer; any other clip is left out with all that it
/// holds. A translation adds to the translation of what it holds, and a cache
/// stands for what it holds. A custom primitive is recorded in the current
/// layer unless its id is there already, and the key of its state is among
/// the keys of the storage afterwards.
pub open spec fn flatten<'a>(
    flat: Flat<'a>,
    translation: Vector,
    primitive: &'a Primitive,
    current: int,
) -> Flat<'a>
    decreases primitive,
{
    let layer = flat.layers[current];
    match primitive {
        Primitive::Text {
            content,
            bounds,
            color,
            size,
            font,
            horizontal_alignment,
            vertical_alignment,
        } => flat.put(
            current,
            LayerView {
                text: layer.text.push(
                    Text {
                        content,
                        bounds: bounds.shifted(translation),
                        color: *color,
                        size: *size,
                        font: *font,
                        horizontal_alignment: *horizontal_alignment,
                        vertical_alignment: *vertical_alignment,
                    },
                ),
                ..layer
            },
        ),
        Primitive::Quad { bounds, background, border_radius, border_width, border_color } => flat.put(
            current,
            LayerView {
                quads: layer.quads.push(
                    quad_of(
                        *bounds,
                        *background,
                        *border_radius,
                        *border_width,
                        *border_color,
                        translation,
                    ),
                ),
                ..layer
            },
        ),
        Primitive::Image { handle, bounds } => flat.put(
            current,
            LayerView {
                images: layer.images.push(
                    Image::Raster { handle: *handle, bounds: bounds.shifted(translation) },
                ),
                ..layer
            },
        ),
        Primitive::Svg { handle, color, bounds } => flat.put(
            current,
            LayerView {
                images: layer.images.push(
                    Image::Vector {
                        handle: *handle,
                        color: *color,
                        bounds: bounds.shifted(translation),
                    },
                ),
                ..layer
            },
        ),
        Primitive::SolidMesh { buffers, size } => match layer.bounds.overlap(
            mesh_bounds(*size, translation),
        ) {
            Some(clip_bounds) => flat.put(
                current,
                LayerView {
                    meshes: layer.meshes.push(
                        Mesh::Solid {
                            origin: Point { x: translation.x, y: translation.y },
                            buffers,
                            clip_bounds,
                        },
                    ),
                    ..layer
                },
            ),
            None => flat,
        },
        Primitive::GradientMesh { buffers, size, gradient } => match layer.bounds.overlap(
            mesh_bounds(*size, translation),
        ) {
            Some(clip_bounds) => flat.put(
                current,
                LayerView {
                    meshes: layer.meshes.push(
                        Mesh::Gradient {
                            origin: Point { x: translation.x, y: translation.y },
                            buffers,
                            clip_bounds,
                            gradient,
                        },
                    ),
                    ..layer
                },
            ),
            None => flat,
        },
        Primitive::Group { primitives } => flatten_members(
            flat,
            translation,
            primitives@,
            primitives@.len(),
            current,
        ),
        Primitive::Clip { bounds, content } => match layer.bounds.overlap(
            bounds.shifted(translation),
        ) {
            Some(clip_bounds) => flatten(
                Flat { layers: flat.layers.push(LayerView::empty(clip_bounds)), ..flat },
                translation,
                &**content,
                flat.layers.len() as int,
            ),
            None => flat,
        },
        Primitive::Translate { translation: by, content } => flatten(
            flat,
            translation.sum(*by),
            &**content,
            current,
        ),
        Primitive::Cache { content } => flatten(flat, translation, &**content, current),
        Primitive::Custom { pipeline, .. } => Flat {
            layers: if layer.has_custom(pipeline.id) {
                flat.layers
            } else {
                flat.layers.update(
                    current,
                    LayerView { custom: layer.custom.push(*pipeline), ..layer },
                )
            },
            states: flat.states.insert(pipeline.state),
        },
    }
}

/// The state after the first `n` of `primitives` have been flattened in
/// order, all of them under `translation` and into the layer at `current`.
pub open spec fn flatten_members<'a>(
    flat: Flat<'a>,
    translation: Vector,
    primitives: Seq<Primitive>,
    n: nat,
    current: int,
) -> Flat<'a>
    decreases primitives, n,
{
    if n == 0 || n > primitives.len() {
        flat
    } else {
        flatten(
            flatten_members(flat, translation, primitives, (n - 1) as nat, current),
            translation,
            &primitives[n - 1],
            current,
        )
    }
}

/// The state after each of the first `n` of `primitives` has been flattened,
/// each from the origin and into the first layer.
pub open spec fn flatten_roots<'a>(flat: Flat<'a>, primitives: Seq<Primitive>, n: nat) -> Flat<'a> {
    flatten_members(flat, Vector { x: 0, y: 0 }, primitives, n, 0)
}

/// The state in which flattening starts: one layer, as large as the
/// viewport, and the keys that the storage holds.
pub open spec fn first_flat<'a>(viewport: Viewport, states: Set<u64>) -> Flat<'a> {
    Flat {
        layers: seq![
            LayerView::empty(
                Rectangle {
                    x: 0,
                    y: 0,
                    width: viewport.logical_extent().width,
                    height: viewport.logical_extent().height,
                },
            ),
        ],
        states,
    }
}

/// The state of flattening that the layers `layers` and the stored states
/// `stored` stand for.
pub open spec fn flat_of<'a, S>(layers: Seq<Layer<'a>>, stored: Map<u64, S>) -> Flat<'a> {
    Flat { layers: views(layers), states: stored.dom() }
}

/// Whether `after` is what `before` can have become while `flat.states` grew
/// to the keys of `after`: what was stored has stayed, and each new state was
/// made by `init` for a pipeline that files under its key.
pub open spec fn stored_by<S, F: Fn(&CustomPipeline) -> S>(
    before: Map<u64, S>,
    after: Map<u64, S>,
    init: &F,
) -> bool {
    &&& forall|key: u64| #[trigger]
        before.contains_key(key) ==> after.contains_key(key) && after[key] == before[key]
    &&& forall|key: u64| #[trigger]
        after.contains_key(key) && !before.contains_key(key) ==> exists|id: u64|
            call_ensures(*init, (&CustomPipeline { id, state: key },), #[trigger] witness(id, after[key]))
}

/// The state `state`, named together with the id of the pipeline that it
/// was made for.
pub open spec fn witness<S>(id: u64, state: S) -> S {
    state
}

impl<'a> Layer<'a> {
    /// A layer that draws nothing inside `bounds`.
    pub fn new(bounds: Rectangle) -> (layer: Layer<'a>)
        ensures
            layer@ == LayerView::empty(bounds),
    {
        Layer {
            bounds,
            quads: Vec::new(),
            meshes: Vec::new(),
            text: Vec::new(),
            images: Vec::new(),
            custom: Vec::new(),
            blur: None,
        }
    }

    /// Sorts `primitives` into layers.
    ///
    /// The first layer is as large as the viewport. The state of a custom
    /// pipeline whose key the storage does not hold is made by `init` and
    /// stored as soon as the primitive is reached.
    pub fn generate<S, F: Fn(&CustomPipeline) -> S>(
        primitives: &'a Vec<Primitive>,
        viewport: &Viewport,
        storage: &mut Storage<S>,
        init: &F,
    ) -> (layers: Vec<Layer<'a>>)
        requires
            forall|pipeline: &CustomPipeline| call_requires(*init, (pipeline,)),
        ensures
            flat_of(layers@, final(storage)@) == flatten_roots(
                first_flat(*viewport, old(storage)@.dom()),
                primitives@,
                primitives@.len(),
            ),
            stored_by(old(storage)@, final(storage)@, init),
    {
        let first_layer = Layer::new(Rectangle::with_size(viewport.logical_size()));
        let mut layers: Vec<Layer<'a>> = Vec::new();
        layers.push(first_layer);
        assert(views(layers@) =~= first_flat(*viewport, storage@.dom()).layers);
        let mut i: usize = 0;
        while i < primitives.len()
            invariant
                i <= primitives.len(),
                layers@.len() > 0,
                forall|pipeline: &CustomPipeline| call_requires(*init, (pipeline,)),
                flat_of(layers@, storage@) == flatten_roots(
                    first_flat(*viewport, old(storage)@.dom()),
                    primitives@,
                    i as nat,
                ),
                stored_by(old(storage)@, storage@, init),
            decreases primitives.len() - i,
        {
            let ghost before = storage@;
            Self::process_primitive(
                &mut layers,
                storage,
                init,
                Vector::new(0, 0),
                &primitives[i],
                0,
            );
            proof {
                lemma_stored_by_chains(old(storage)@, before, storage@, init);
            }
            i = i + 1;
        }
        layers
    }

    /// Sorts one primitive, and all that it holds, into `layers`, with the
    /// layer at `current_layer` as the one that receives what is drawn, and
    /// with everything moved by `translation`. A layer that a clip asks for
    /// is added at the end of `layers`.
    pub fn process_primitive<S, F: Fn(&CustomPipeline) -> S>(
        layers: &mut Vec<Layer<'a>>,
        storage: &mut Storage<S>,
        init: &F,
        translation: Vector,
        primitive: &'a Primitive,
        current_layer: usize,
    )
        requires
            current_layer < old(layers)@.len(),
            forall|pipeline: &CustomPipeline| call_requires(*init, (pipeline,)),
        ensures
            flat_of(final(layers)@, final(storage)@) == flatten(
                flat_of(old(layers)@, old(storage)@),
                translation,
                primitive,
                current_layer as int,
            ),
            final(layers)@.len() >= old(layers)@.len(),
            stored_by(old(storage)@, final(storage)@, init),
        decreases primitive,
    {
        let ghost flat = flat_of(layers@, storage@);
        match primitive {
            Primitive::Text {
                content,
                bounds,
                color,
                size,
                font,
                horizontal_alignment,
                vertical_alignment,
            } => {
                layers[current_layer].text.push(
                    Text {
                        content,
                        bounds: bounds.translate(translation),
                        color: *color,
                        size: *size,
                        font: *font,
                        horizontal_alignment: *horizontal_alignment,
                        vertical_alignment: *vertical_alignment,
                    },
                );
                assert(views(layers@) =~= flatten(flat, translation, primitive, current_layer as int).layers);
            },
            Primitive::Quad { bounds, background, border_radius, border_width, border_color } => {
                layers[current_layer].quads.push(
                    Quad {
                        position: Point {
                            x: plus(bounds.x, translation.x),
                            y: plus(bounds.y, translation.y),
                        },
                        size: Size { width: bounds.width, height: bounds.height },
                        color: match background {
                            Background::Color(color) => *color,
                        },
                        border_radius: *border_radius,
                        border_width: *border_width,
                        border_color: *border_color,
                    },
                );
                assert(views(layers@) =~= flatten(flat, translation, primitive, current_layer as int).layers);
            },
            Primitive::Image { handle, bounds } => {
                layers[current_layer].images.push(
                    Image::Raster { handle: *handle, bounds: bounds.translate(translation) },
                );
                assert(views(layers@) =~= flatten(flat, translation, primitive, current_layer as int).layers);
            },
            Primitive::Svg { handle, color, bounds } => {
                layers[current_layer].images.push(
                    Image::Vector {
                        handle: *handle,
                        color: *color,
                        bounds: bounds.translate(translation),
                    },
                );
                assert(views(layers@) =~= flatten(flat, translation, primitive, current_layer as int).layers);
            },
            Primitive::SolidMesh { buffers, size } => {
                let bounds = Rectangle::new(Point::new(translation.x, translation.y), *size);
                // Only what the layer shows is drawn.
                if let Some(clip_bounds) = layers[current_layer].bounds.intersection(&bounds) {
                    layers[current_layer].meshes.push(
                        Mesh::Solid {
                            origin: Point::new(translation.x, translation.y),
                            buffers,
                            clip_bounds,
                        },
                    );
                }
                assert(views(layers@) =~= flatten(flat, translation, primitive, current_layer as int).layers);
            },
            Primitive::GradientMesh { buffers, size, gradient } => {
                let bounds = Rectangle::new(Point::new(translation.x, translation.y), *size);
                // Only what the layer shows is drawn.
                if let Some(clip_bounds) = layers[current_layer].bounds.intersection(&bounds) {
                    layers[current_layer].meshes.push(
                        Mesh::Gradient {
                            origin: Point::new(translation.x, translation.y),
                            buffers,
                            clip_bounds,
                            gradient,
                        },
                    );
                }
                assert(views(layers@) =~= flatten(flat, translation, primitive, current_layer as int).layers);
            },
            Primitive::Group { primitives } => {
                let mut i: usize = 0;
                while i < primitives.len()
                    invariant
                        i <= primitives.len(),
                        primitive matches Primitive::Group { primitives: ps } && ps == primitives,
                        current_layer < old(layers)@.len() <= layers@.len(),
                        forall|pipeline: &CustomPipeline| call_requires(*init, (pipeline,)),
                        flat_of(layers@, storage@) == flatten_members(
                            flat,
                            translation,
                            primitives@,
                            i as nat,
                            current_layer as int,
                        ),
                        stored_by(old(storage)@, storage@, init),
                    decreases primitives.len() - i,
                {
                    let ghost before = storage@;
                    Self::process_primitive(
                        layers,
                        storage,
                        init,
                        translation,
                        &primitives[i],
                        current_layer,
                    );
                    proof {
                        lemma_stored_by_chains(old(storage)@, before, storage@, init);
                    }
                    i = i + 1;
                }
            },
            Primitive::Clip { bounds, content } => {
                let translated_bounds = bounds.translate(translation);
                // Only what the layer shows is drawn.
                if let Some(clip_bounds) = layers[current_layer].bounds.intersection(
                    &translated_bounds,
                ) {
                    let clip_layer = Layer::new(clip_bounds);
                    layers.push(clip_layer);
                    assert(views(layers@) =~= flat.layers.push(LayerView::empty(clip_bounds)));
                    let last: usize = layers.len() - 1;
                    Self::process_primitive(layers, storage, init, translation, content, last);
                }
            },
            Primitive::Translate { translation: new_translation, content } => {
                Self::process_primitive(
                    layers,
                    storage,
                    init,
                    translation.plus(*new_translation),
                    content,
                    current_layer,
                );
            },
            Primitive::Cache { content } => {
                Self::process_primitive(layers, storage, init, translation, content, current_layer);
            },
            Primitive::Custom { pipeline, .. } => {
                // The layer records each id once.
                let mut known: bool = false;
                let mut i: usize = 0;
                while i < layers[current_layer].custom.len()
                    invariant
                        current_layer < layers@.len(),
                        i <= layers@[current_layer as int].custom@.len(),
                        known <==> exists|k: int|
                            0 <= k < i && #[trigger] layers@[current_layer as int].custom@[k].id
                                == pipeline.id,
                    decreases layers@[current_layer as int].custom@.len() - i,
                {
                    if layers[current_layer].custom[i].id == pipeline.id {
                        known = true;
                    }
                    i = i + 1;
                }
                if !known {
                    layers[current_layer].custom.push(*pipeline);
                }
                // The state of a pipeline is made when the pipeline is first met.
                if !storage.has(pipeline.state) {
                    let state = init(pipeline);
                    storage.store(pipeline.state, state);
                    assert(witness(pipeline.id, storage@[pipeline.state]) == state);
                }
                assert(views(layers@) =~= flatten(flat, translation, primitive, current_layer as int).layers);
                assert(storage@.dom() =~= flat.states.insert(pipeline.state));
            },
        }
    }
}

/// What was stored in two steps was stored in one.
pub proof fn lemma_stored_by_chains<S, F: Fn(&CustomPipeline) -> S>(
    first: Map<u64, S>,
    second: Map<u64, S>,
    third: Map<u64, S>,
    init: &F,
)
    requires
        stored_by(first, second, init),
        stored_by(second, third, init),
    ensures
        stored_by(first, third, init),
{
    assert forall|key: u64| #[trigger]
        third.contains_key(key) && !first.contains_key(key) implies exists|id: u64|
        call_ensures(*init, (&CustomPipeline { id, state: key },), #[trigger] witness(id, third[key])) by {
        if second.contains_key(key) {
            let id = choose|id: u64|
                call_ensures(
                    *init,
                    (&CustomPipeline { id, state: key },),
                    #[trigger] witness(id, second[key]),
                );
            assert(witness(id, third[key]) == witness(id, second[key]));
        }
    }
}

/// The colour of the text of an overlay: a light grey.
pub open spec fn overlay_color() -> Color {
    Color { r: 922, g: 922, b: 922, a: UNIT }
}

/// Where the line `index` of an overlay is drawn: eleven units from the left
/// and from the top, each line twenty-five units below the one before.
pub open spec fn overlay_bounds(index: int) -> Rectangle {
    Rectangle {
        x: 11_264,
        y: clamp(11 * UNIT + 25 * UNIT * index),
        width: i32::MAX,
        height: i32::MAX,
    }
}

/// The texts of an overlay that shows the first `n` of `lines`: each line in
/// light grey, followed by the same line in black, one unit up and to the
/// left.
pub open spec fn overlay_text<'a>(lines: &'a Vec<String>, n: nat) -> Seq<Text<'a>>
    decreases n,
{
    if n == 0 || n > lines@.len() {
        Seq::empty()
    } else {
        let text = Text {
            content: &lines@[n - 1],
            bounds: overlay_bounds(n - 1),
            color: overlay_color(),
            size: 20_480,
            font: Font::Monospace,
            horizontal_alignment: Horizontal::Left,
            vertical_alignment: Vertical::Top,
        };
        overlay_text(lines, (n - 1) as nat).push(text).push(
            Text {
                bounds: text.bounds.shifted(Vector { x: -1024i32, y: -1024i32 }),
                color: Color { r: 0, g: 0, b: 0, a: UNIT },
                ..text
            },
        )
    }
}

impl<'a> Layer<'a> {
    /// A layer that shows `lines` of text over the whole viewport, one below
    /// the other.
    pub fn overlay(lines: &'a Vec<String>, viewport: &Viewport) -> (layer: Layer<'a>)
        ensures
            layer@ == (LayerView {
                text: overlay_text(lines, lines@.len()),
                ..LayerView::empty(
                    Rectangle {
                        x: 0,
                        y: 0,
                        width: viewport.logical_extent().width,
                        height: viewport.logical_extent().height,
                    },
                )
            }),
    {
        let mut overlay = Layer::new(Rectangle::with_size(viewport.logical_size()));
        let mut i: usize = 0;
        while i < lines.len()
            invariant
                i <= lines.len(),
                overlay@ == (LayerView {
                    text: overlay_text(lines, i as nat),
                    ..LayerView::empty(
                        Rectangle {
                            x: 0,
                            y: 0,
                            width: viewport.logical_extent().width,
                            height: viewport.logical_extent().height,
                        },
                    )
                }),
            decreases lines.len() - i,
        {
            assert(UNIT == 1024);
            let y: i32 = if i >= 1_000_000 {
                i32::MAX
            } else {
                saturate(11_264 + 25_600 * (i as i64))
            };
            let text = Text {
                content: &lines[i],
                bounds: Rectangle::new(Point::new(11_264, y), Size::infinity()),
                color: Color::new(922, 922, 922, UNIT),
                size: 20_480,
                font: Font::Monospace,
                horizontal_alignment: Horizontal::Left,
                vertical_alignment: Vertical::Top,
            };
            overlay.text.push(text);
            overlay.text.push(
                Text {
                    bounds: text.bounds.translate(Vector::new(-1024, -1024)),
                    color: Color::black(),
                    ..text
                },
            );
            i = i + 1;
        }
        overlay
    }
}

/// Whether the layers at and after `from` all have an area.
pub open spec fn all_have_area<'a>(layers: Seq<LayerView<'a>>, from: int) -> bool {
    forall|i: int| from <= i < layers.len() ==> (#[trigger] layers[i]).bounds.has_area()
}

/// Whether `after` is `before` at a later time: no layer is gone or has
/// changed its region, every list has only grown at its end, each layer that
/// came after those of `before` has an area, and no key has left the storage.
pub open spec fn grown_from<'a>(after: Flat<'a>, before: Flat<'a>) -> bool {
    &&& before.layers.len() <= after.layers.len()
    &&& forall|i: int|
        0 <= i < before.layers.len() ==> (#[trigger] after.layers[i]).extends(before.layers[i])
    &&& all_have_area(after.layers, before.layers.len() as int)
    &&& before.states.subset_of(after.states)
}

/// Flattening only adds: see [`grown_from`]. In particular the layers form a
/// list that grows at its end, and no layer is made for a clip without area.
pub proof fn lemma_flatten_grows<'a>(
    flat: Flat<'a>,
    translation: Vector,
    primitive: &'a Primitive,
    current: int,
)
    requires
        0 <= current < flat.layers.len(),
    ensures
        grown_from(flatten(flat, translation, primitive, current), flat),
    decreases primitive,
{
    let after = flatten(flat, translation, primitive, current);
    let layer = flat.layers[current];
    match primitive {
        Primitive::Group { primitives } => {
            lemma_members_grow(flat, translation, primitives@, primitives@.len(), current);
        },
        Primitive::Clip { bounds, content } => {
            match layer.bounds.overlap(bounds.shifted(translation)) {
                Some(clip_bounds) => {
                    let pushed = Flat {
                        layers: flat.layers.push(LayerView::empty(clip_bounds)),
                        ..flat
                    };
                    lemma_flatten_grows(pushed, translation, &**content, flat.layers.len() as int);
                    crate::geometry::lemma_overlap_covers(
                        layer.bounds,
                        bounds.shifted(translation),
                        0,
                        0,
                    );
                    assert(after.layers[flat.layers.len() as int].extends(
                        pushed.layers[flat.layers.len() as int],
                    ));
                    assert forall|i: int| 0 <= i < flat.layers.len() implies (
                    #[trigger] after.layers[i]).extends(flat.layers[i]) by {
                        assert(after.layers[i].extends(pushed.layers[i]));
                    }
                },
                None => {},
            }
        },
        Primitive::Translate { translation: by, content } => {
            lemma_flatten_grows(flat, translation.sum(*by), &**content, current);
        },
        Primitive::Cache { content } => {
            lemma_flatten_grows(flat, translation, &**content, current);
        },
        _ => {},
    }
}

/// Flattening the members of a group only adds: see [`grown_from`].
pub proof fn lemma_members_grow<'a>(
    flat: Flat<'a>,
    translation: Vector,
    primitives: Seq<Primitive>,
    n: nat,
    current: int,
)
    requires
        0 <= current < flat.layers.len(),
    ensures
        grown_from(flatten_members(flat, translation, primitives, n, current), flat),
    decreases primitives, n,
{
    if n == 0 || n > primitives.len() {
    } else {
        let before = flatten_members(flat, translation, primitives, (n - 1) as nat, current);
        lemma_members_grow(flat, translation, primitives, (n - 1) as nat, current);
        lemma_flatten_grows(before, translation, &primitives[n - 1], current);
        lemma_grown_chains(
            flat,
            before,
            flatten(before, translation, &primitives[n - 1], current),
        );
    }
}

/// What has grown from what has grown from a state has grown from that state.
pub proof fn lemma_grown_chains<'a>(first: Flat<'a>, second: Flat<'a>, third: Flat<'a>)
    requires
        grown_from(second, first),
        grown_from(third, second),
    ensures
        grown_from(third, first),
{
    assert forall|i: int| 0 <= i < first.layers.len() implies (#[trigger] third.layers[i]).extends(
        first.layers[i],
    ) by {
        assert(second.layers[i].extends(first.layers[i]));
        assert(third.layers[i].extends(second.layers[i]));
    }
    assert forall|i: int| first.layers.len() <= i < third.layers.len() implies (
    #[trigger] third.layers[i]).bounds.has_area() by {
        if i < second.layers.len() {
            assert(second.layers[i].bounds.has_area());
            assert(third.layers[i].extends(second.layers[i]));
        }
    }
}

/// A clip whose bounds, moved by the translation, share no area with the
/// current layer draws nothing: no layer is added and no list of any layer
/// changes, whatever the clip holds.
pub proof fn lemma_hidden_clip_draws_nothing<'a>(
    flat: Flat<'a>,
    translation: Vector,
    clip: &'a Primitive,
    current: int,
)
    requires
        0 <= current < flat.layers.len(),
        clip matches Primitive::Clip { bounds, .. } && flat.layers[current].bounds.overlap(
            bounds.shifted(translation),
        ) is None,
    ensures
        flatten(flat, translation, clip, current) == flat,
{
}

/// A clip whose moved bounds share an area with the current layer adds one
/// layer right after the layers that were there, and the region of that layer
/// is exactly the shared area.
pub proof fn lemma_clip_adds_its_overlap<'a>(
    flat: Flat<'a>,
    translation: Vector,
    clip: &'a Primitive,
    current: int,
)
    requires
        0 <= current < flat.layers.len(),
        clip is Clip,
    ensures
        clip matches Primitive::Clip { bounds, .. } && flat.layers[current].bounds.overlap(
            bounds.shifted(translation),
        ) matches Some(area) ==> {
            let after = flatten(flat, translation, clip, current);
            &&& after.layers.len() > flat.layers.len()
            &&& after.layers[flat.layers.len() as int].bounds == area
            &&& after.layers[current].extends(flat.layers[current])
        },
{
    match clip {
        Primitive::Clip { bounds, content } => {
            match flat.layers[current].bounds.overlap(bounds.shifted(translation)) {
                Some(area) => {
                    let pushed = Flat { layers: flat.layers.push(LayerView::empty(area)), ..flat };
                    lemma_flatten_grows(pushed, translation, &**content, flat.layers.len() as int);
                    let after = flatten(flat, translation, clip, current);
                    assert(after.layers[flat.layers.len() as int].extends(
                        pushed.layers[flat.layers.len() as int],
                    ));
                    assert(after.layers[current].extends(pushed.layers[current]));
                },
                None => {},
            }
        },
        _ => {},
    }
}

/// Translations add up: what lies under a translation by `a` and, inside of
/// it, a translation by `b` is flattened as under the sum of the two. Where
/// no sum on the way leaves the range of the scalars, that is the same as one
/// translation by `a + b`.
pub proof fn lemma_translations_add<'a>(
    flat: Flat<'a>,
    translation: Vector,
    outer: &'a Primitive,
    current: int,
)
    requires
        outer matches Primitive::Translate { content, .. } && **content is Translate,
    ensures
        outer matches Primitive::Translate { translation: a, content } && (
        **content) matches Primitive::Translate { translation: b, content: inner } ==> {
            &&& flatten(flat, translation, outer, current) == flatten(
                flat,
                translation.sum(*a).sum(b),
                &*inner,
                current,
            )
            &&& translation.sum_is_exact(*a) && translation.sum(*a).sum_is_exact(b)
                && a.sum_is_exact(b) ==> translation.sum(*a).sum(b) == translation.sum(a.sum(b))
        },
{
    match outer {
        Primitive::Translate { translation: a, content } => {
            match &**content {
                Primitive::Translate { translation: b, content: inner } => {
                    assert(flatten(flat, translation, outer, current) == flatten(
                        flat,
                        translation.sum(*a),
                        &**content,
                        current,
                    ));
                },
                _ => {},
            }
        },
        _ => {},
    }
}

/// A quad is drawn in the current layer alone, as the last of its quads, at
/// its own place moved by the translation.
pub proof fn lemma_quad_lands_translated<'a>(
    flat: Flat<'a>,
    translation: Vector,
    quad: &'a Primitive,
    current: int,
)
    requires
        0 <= current < flat.layers.len(),
        quad is Quad,
    ensures
        quad matches Primitive::Quad { bounds, .. } ==> {
            let after = flatten(flat, translation, quad, current);
            &&& after.layers.len() == flat.layers.len()
            &&& after.states == flat.states
            &&& forall|i: int|
                0 <= i < flat.layers.len() && i != current ==> after.layers[i] == flat.layers[i]
            &&& after.layers[current].quads.len() == flat.layers[current].quads.len() + 1
            &&& after.layers[current].quads.last().position == moved(bounds.x, bounds.y, translation)
            &&& translation.x + bounds.x == clamp(translation.x + bounds.x)
                ==> after.layers[current].quads.last().position.x == translation.x + bounds.x
        },
{
}

/// Whether `inner` has an area and lies inside of `outer`.
pub open spec fn within(inner: Rectangle, outer: Rectangle) -> bool {
    &&& inner.has_area()
    &&& outer.x <= inner.x && inner.right() <= outer.right()
    &&& outer.y <= inner.y && inner.bottom() <= outer.bottom()
}

/// Whether a layer is in order: no two of its custom pipelines have one id,
/// and the scissor rectangle of each of its meshes has an area and lies
/// inside of the layer.
pub open spec fn tidy<'a>(layer: LayerView<'a>) -> bool {
    &&& forall|i: int, j: int|
        0 <= i < j < layer.custom.len() ==> layer.custom[i].id != layer.custom[j].id
    &&& forall|i: int|
        0 <= i < layer.meshes.len() ==> within((#[trigger] layer.meshes[i]).clip(), layer.bounds)
}

/// Whether every layer is in order.
pub open spec fn all_tidy<'a>(layers: Seq<LayerView<'a>>) -> bool {
    forall|i: int| 0 <= i < layers.len() ==> tidy(#[trigger] layers[i])
}

/// Flattening keeps the layers in order: a layer records no id of a custom
/// pipeline twice, and each mesh is clipped to a part of its layer that has
/// an area.
pub proof fn lemma_flatten_keeps_tidy<'a>(
    flat: Flat<'a>,
    translation: Vector,
    primitive: &'a Primitive,
    current: int,
)
    requires
        0 <= current < flat.layers.len(),
        all_tidy(flat.layers),
    ensures
        all_tidy(flatten(flat, translation, primitive, current).layers),
    decreases primitive,
{
    let layer = flat.layers[current];
    let after = flatten(flat, translation, primitive, current);
    match primitive {
        Primitive::SolidMesh { buffers, size } => {
            crate::geometry::lemma_overlap_within(layer.bounds, mesh_bounds(*size, translation));
            crate::geometry::lemma_overlap_covers(
                layer.bounds,
                mesh_bounds(*size, translation),
                0,
                0,
            );
            assert forall|i: int| 0 <= i < after.layers.len() implies tidy(
                #[trigger] after.layers[i],
            ) by {
                assert(tidy(flat.layers[i]));
            }
        },
        Primitive::GradientMesh { buffers, size, gradient } => {
            crate::geometry::lemma_overlap_within(layer.bounds, mesh_bounds(*size, translation));
            crate::geometry::lemma_overlap_covers(
                layer.bounds,
                mesh_bounds(*size, translation),
                0,
                0,
            );
            assert forall|i: int| 0 <= i < after.layers.len() implies tidy(
                #[trigger] after.layers[i],
            ) by {
                assert(tidy(flat.layers[i]));
            }
        },
        Primitive::Group { primitives } => {
            lemma_members_keep_tidy(flat, translation, primitives@, primitives@.len(), current);
        },
        Primitive::Clip { bounds, content } => {
            match layer.bounds.overlap(bounds.shifted(translation)) {
                Some(clip_bounds) => {
                    let pushed = Flat {
                        layers: flat.layers.push(LayerView::empty(clip_bounds)),
                        ..flat
                    };
                    assert forall|i: int| 0 <= i < pushed.layers.len() implies tidy(
                        #[trigger] pushed.layers[i],
                    ) by {
                        if i < flat.layers.len() {
                            assert(tidy(flat.layers[i]));
                        }
                    }
                    lemma_flatten_keeps_tidy(
                        pushed,
                        translation,
                        &**content,
                        flat.layers.len() as int,
                    );
                },
                None => {},
            }
        },
        Primitive::Translate { translation: by, content } => {
            lemma_flatten_keeps_tidy(flat, translation.sum(*by), &**content, current);
        },
        Primitive::Cache { content } => {
            lemma_flatten_keeps_tidy(flat, translation, &**content, current);
        },
        _ => {
            assert forall|i: int| 0 <= i < after.layers.len() implies tidy(
                #[trigger] after.layers[i],
            ) by {
                assert(tidy(flat.layers[i]));
            }
        },
    }
}

/// [`lemma_flatten_keeps_tidy`] for the members of a group.
pub proof fn lemma_members_keep_tidy<'a>(
    flat: Flat<'a>,
    translation: Vector,
    primitives: Seq<Primitive>,
    n: nat,
    current: int,
)
    requires
        0 <= current < flat.layers.len(),
        all_tidy(flat.layers),
    ensures
        all_tidy(flatten_members(flat, translation, primitives, n, current).layers),
    decreases primitives, n,
{
    if n == 0 || n > primitives.len() {
    } else {
        let before = flatten_members(flat, translation, primitives, (n - 1) as nat, current);
        lemma_members_keep_tidy(flat, translation, primitives, (n - 1) as nat, current);
        lemma_members_grow(flat, translation, primitives, (n - 1) as nat, current);
        lemma_flatten_keeps_tidy(before, translation, &primitives[n - 1], current);
    }
}

/// The layer of a clip lies inside of the layer that the clip was met in.
pub proof fn lemma_clip_lies_inside<'a>(
    flat: Flat<'a>,
    translation: Vector,
    clip: &'a Primitive,
    current: int,
)
    requires
        0 <= current < flat.layers.len(),
        clip is Clip,
    ensures
        flatten(flat, translation, clip, current).layers.len() > flat.layers.len() ==> within(
            flatten(flat, translation, clip, current).layers[flat.layers.len() as int].bounds,
            flat.layers[current].bounds,
        ),
{
    lemma_clip_adds_its_overlap(flat, translation, clip, current);
    match clip {
        Primitive::Clip { bounds, content } => {
            crate::geometry::lemma_overlap_within(
                flat.layers[current].bounds,
                bounds.shifted(translation),
            );
            crate::geometry::lemma_overlap_covers(
                flat.layers[current].bounds,
                bounds.shifted(translation),
                0,
                0,
            );
        },
        _ => {},
    }
}

} // verus!
