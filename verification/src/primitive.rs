//! Drawing primitives: the tree that widgets hand to the renderer.
use vstd::prelude::*;
use std::collections::hash_map::DefaultHasher;
use std::hash::Hasher;
use std::sync::Arc;
use vstd::std_specs::hash::DefaultHasherAdditionalSpecFns;
use crate::alignment::{Horizontal, Vertical};
use crate::color::{Background, Color};
use crate::geometry::{Rectangle, Size, Vector};
use crate::gradient::Gradient;
use crate::units::{half, halved, minus, clamp, UNIT};

verus! {

/// How far the bounds of a quad, an image, a clip or a custom primitive reach
/// beyond its own rectangle: one unit.
pub const MARGIN: i32 = 1024;

/// How far the bounds of a text reach beyond its rectangle: one unit and a
/// half, since shaping may overshoot.
pub const TEXT_MARGIN: i32 = 1536;

/// A typeface.
#[derive(Clone, Copy, Debug, PartialEq, Eq, Structural)]
pub enum Font {
    /// The typeface of the platform.
    Default,
    /// A typeface whose glyphs all have one width.
    Monospace,
    /// A typeface that the application has loaded, by its number.
    External(u64),
}

/// What names the data of an image.
#[derive(Clone, Copy, Debug, PartialEq, Eq, Structural)]
pub struct Handle {
    pub id: u64,
}

/// A set of vertices, and the indices that arrange them in triangles.
#[derive(Clone, Debug, PartialEq, Eq)]
pub struct Mesh2D<T> {
    pub vertices: Vec<T>,
    /// Three indices for each triangle.
    pub indices: Vec<u32>,
}

/// A vertex: a position.
#[derive(Clone, Copy, Debug, PartialEq, Eq)]
pub struct Vertex2D {
    pub position: [i32; 2],
}

/// A vertex with a colour in linear RGBA.
#[derive(Clone, Copy, Debug, PartialEq, Eq)]
pub struct ColoredVertex2D {
    pub position: [i32; 2],
    pub color: [i32; 4],
}

/// A vertex with a packed gradient.
#[derive(Clone, Copy, Debug, PartialEq, Eq)]
pub struct GradientVertex2D {
    pub position: [i32; 2],
    pub gradient: [i32; 44],
}

/// What a custom primitive is drawn with.
///
/// Two identities are kept apart. `id` tells the draws of one layer apart:
/// a layer records each `id` once. `state` names the type of the state that
/// the pipeline keeps from frame to frame: the storage holds one state for
/// each, whatever the `id`.
#[derive(Clone, Copy, Debug, PartialEq, Eq, Structural)]
pub struct CustomPipeline {
    pub id: u64,
    pub state: u64,
}

/// A drawing primitive.
#[allow(inconsistent_fields)]
#[derive(Debug)]
pub enum Primitive {
    /// A run of text.
    Text {
        content: String,
        bounds: Rectangle,
        color: Color,
        size: i32,
        font: Font,
        horizontal_alignment: Horizontal,
        vertical_alignment: Vertical,
    },
    /// A rectangle with a background and a border.
    Quad {
        bounds: Rectangle,
        background: Background,
        border_radius: [i32; 4],
        border_width: i32,
        border_color: Color,
    },
    /// A raster image.
    Image { handle: Handle, bounds: Rectangle },
    /// A vector image, with a colour to tint it.
    Svg { handle: Handle, color: Option<Color>, bounds: Rectangle },
    /// A mesh of triangles, each vertex with its colour. What falls outside
    /// `size` is not drawn.
    SolidMesh { buffers: Mesh2D<ColoredVertex2D>, size: Size },
    /// A mesh of triangles filled with a gradient. What falls outside `size`
    /// is not drawn.
    GradientMesh { buffers: Mesh2D<Vertex2D>, size: Size, gradient: Gradient },
    /// Primitives drawn one after another, the first at the back.
    Group { primitives: Vec<Primitive> },
    /// A primitive of which only what lies inside `bounds` is drawn.
    Clip { bounds: Rectangle, content: Box<Primitive> },
    /// A primitive moved by `translation`.
    Translate { translation: Vector, content: Box<Primitive> },
    /// A primitive that is kept from frame to frame.
    Cache { content: Arc<Primitive> },
    /// A primitive drawn by a pipeline of the application.
    Custom { bounds: Rectangle, pipeline: CustomPipeline },
}

/// The rectangle of a text, moved so that its anchor is its top-left corner.
pub open spec fn aligned(bounds: Rectangle, horizontal: Horizontal, vertical: Vertical) -> Rectangle {
    Rectangle {
        x: match horizontal {
            Horizontal::Left => bounds.x,
            Horizontal::Center => clamp(bounds.x - halved(bounds.width as int)),
            Horizontal::Right => clamp(bounds.x - bounds.width),
        },
        y: match vertical {
            Vertical::Top => bounds.y,
            Vertical::Center => clamp(bounds.y - halved(bounds.height as int)),
            Vertical::Bottom => clamp(bounds.y - bounds.height),
        },
        width: bounds.width,
        height: bounds.height,
    }
}

/// The region outside of which a primitive draws nothing.
///
/// A text, a quad, an image and a custom primitive reach a margin beyond
/// their rectangle, and so does a clip; a mesh fills its size from the
/// origin; a group spans its members; a translation moves the bounds of what
/// it holds, and a cache has the bounds of what it holds.
pub open spec fn bounds_of(p: Primitive) -> Rectangle
    decreases p,
{
    match p {
        Primitive::Text { bounds, horizontal_alignment, vertical_alignment, .. } => aligned(
            bounds,
            horizontal_alignment,
            vertical_alignment,
        ).expanded(TEXT_MARGIN),
        Primitive::Quad { bounds, .. } => bounds.expanded(MARGIN),
        Primitive::Image { bounds, .. } => bounds.expanded(MARGIN),
        Primitive::Svg { bounds, .. } => bounds.expanded(MARGIN),
        Primitive::Custom { bounds, .. } => bounds.expanded(MARGIN),
        Primitive::Clip { bounds, .. } => bounds.expanded(MARGIN),
        Primitive::SolidMesh { size, .. } => Rectangle {
            x: 0,
            y: 0,
            width: size.width,
            height: size.height,
        },
        Primitive::GradientMesh { size, .. } => Rectangle {
            x: 0,
            y: 0,
            width: size.width,
            height: size.height,
        },
        Primitive::Group { primitives } => span_of(primitives@, primitives@.len()),
        Primitive::Translate { translation, content } => bounds_of(*content).shifted(translation),
        Primitive::Cache { content } => bounds_of(*content),
    }
}

/// The smallest rectangle that holds the bounds of the first `n` of
/// `primitives`; the empty rectangle at the origin where there are none.
pub open spec fn span_of(primitives: Seq<Primitive>, n: nat) -> Rectangle
    decreases primitives, n,
{
    if n == 0 || n > primitives.len() {
        Rectangle { x: 0, y: 0, width: 0, height: 0 }
    } else if n == 1 {
        bounds_of(primitives[0])
    } else {
        span_of(primitives, (n - 1) as nat).hull(bounds_of(primitives[n - 1]))
    }
}

impl CustomPipeline {
    /// The pipeline whose id is the hash of `key` and whose state is filed
    /// under `state`. One key gives one id, so that pipelines made of one key
    /// count as one in a layer.
    pub fn with_key(key: &[u8], state: u64) -> (pipeline: CustomPipeline)
        ensures
            pipeline == (CustomPipeline {
                id: DefaultHasher::spec_finish(seq![key@]),
                state,
            }),
    {
        let mut hasher = DefaultHasher::new();
        hasher.write(key);
        assert(hasher@ =~= seq![key@]);
        CustomPipeline { id: hasher.finish(), state }
    }
}

impl Primitive {
    /// A primitive that draws nothing: a group without members.
    pub fn empty() -> (p: Primitive)
        ensures
            p matches Primitive::Group { primitives } && primitives@.len() == 0,
    {
        Primitive::Group { primitives: Vec::new() }
    }

    /// A group of primitives.
    pub fn group(primitives: Vec<Primitive>) -> (p: Primitive)
        ensures
            p == (Primitive::Group { primitives }),
    {
        Primitive::Group { primitives }
    }

    /// This primitive, clipped to `bounds`.
    pub fn clip(self, bounds: Rectangle) -> (p: Primitive)
        ensures
            p == (Primitive::Clip { bounds, content: Box::new(self) }),
    {
        Primitive::Clip { bounds, content: Box::new(self) }
    }

    /// This primitive, moved by `translation`.
    pub fn translate(self, translation: Vector) -> (p: Primitive)
        ensures
            p == (Primitive::Translate { translation, content: Box::new(self) }),
    {
        Primitive::Translate { translation, content: Box::new(self) }
    }

    /// A primitive drawn by `pipeline` inside `bounds`.
    pub fn custom(bounds: Rectangle, pipeline: CustomPipeline) -> (p: Primitive)
        ensures
            p == (Primitive::Custom { bounds, pipeline }),
    {
        Primitive::Custom { bounds, pipeline }
    }

    /// The region outside of which the primitive draws nothing.
    pub fn bounds(&self) -> (r: Rectangle)
        ensures
            r == bounds_of(*self),
        decreases self,
    {
        match self {
            Primitive::Text { bounds, horizontal_alignment, vertical_alignment, .. } => {
                let x: i32 = match horizontal_alignment {
                    Horizontal::Left => bounds.x,
                    Horizontal::Center => minus(bounds.x, half(bounds.width)),
                    Horizontal::Right => minus(bounds.x, bounds.width),
                };
                let y: i32 = match vertical_alignment {
                    Vertical::Top => bounds.y,
                    Vertical::Center => minus(bounds.y, half(bounds.height)),
                    Vertical::Bottom => minus(bounds.y, bounds.height),
                };
                let anchored = Rectangle { x, y, width: bounds.width, height: bounds.height };
                anchored.expand(TEXT_MARGIN)
            },
            Primitive::Quad { bounds, .. } => bounds.expand(MARGIN),
            Primitive::Image { bounds, .. } => bounds.expand(MARGIN),
            Primitive::Svg { bounds, .. } => bounds.expand(MARGIN),
            Primitive::Custom { bounds, .. } => bounds.expand(MARGIN),
            Primitive::Clip { bounds, .. } => bounds.expand(MARGIN),
            Primitive::SolidMesh { size, .. } => Rectangle::with_size(*size),
            Primitive::GradientMesh { size, .. } => Rectangle::with_size(*size),
            Primitive::Group { primitives } => {
                let mut span = Rectangle::with_size(Size::zero());
                let mut i: usize = 0;
                while i < primitives.len()
                    invariant
                        i <= primitives.len(),
                        self matches Primitive::Group { primitives: ps } && ps == primitives,
                        span == span_of(primitives@, i as nat),
                    decreases primitives.len() - i,
                {
                    let member = primitives[i].bounds();
                    span = if i == 0 {
                        member
                    } else {
                        span.union(&member)
                    };
                    i = i + 1;
                }
                span
            },
            Primitive::Translate { translation, content } => {
                content.bounds().translate(*translation)
            },
            Primitive::Cache { content } => content.bounds(),
        }
    }
}

/// The margins are one unit, and one unit and a half.
pub proof fn lemma_margins()
    ensures
        MARGIN == UNIT,
        2 * TEXT_MARGIN == 3 * UNIT,
{
}

/// The bounds of a group hold the bounds of each of its members, as far as
/// the extent of the group is exact.
pub proof fn lemma_span_holds_members(primitives: Seq<Primitive>, n: nat, k: int)
    requires
        0 <= k < n <= primitives.len(),
    ensures
        ({
            let span = span_of(primitives, n);
            let member = bounds_of(primitives[k]);
            &&& span.x <= member.x
            &&& span.y <= member.y
            &&& span.width < i32::MAX ==> member.right() <= span.right()
            &&& span.height < i32::MAX ==> member.bottom() <= span.bottom()
        }),
    decreases n,
{
    if k < n - 1 {
        lemma_span_holds_members(primitives, (n - 1) as nat, k);
    }
}

/// The bounds of a group reach no further than its members: each of its
/// four sides is a side of one of them, as far as the extent of the group is
/// exact. So a group of one member has the bounds of that member.
pub proof fn lemma_span_is_tight(primitives: Seq<Primitive>, n: nat)
    requires
        0 < n <= primitives.len(),
    ensures
        ({
            let span = span_of(primitives, n);
            &&& exists|k: int| 0 <= k < n && span.x == bounds_of(#[trigger] primitives[k]).x
            &&& exists|k: int| 0 <= k < n && span.y == bounds_of(#[trigger] primitives[k]).y
            &&& span.width < i32::MAX ==> exists|k: int|
                0 <= k < n && span.right() == bounds_of(#[trigger] primitives[k]).right()
            &&& span.height < i32::MAX ==> exists|k: int|
                0 <= k < n && span.bottom() == bounds_of(#[trigger] primitives[k]).bottom()
        }),
        n == 1 ==> span_of(primitives, n) == bounds_of(primitives[0]),
    decreases n,
{
    let span = span_of(primitives, n);
    if n == 1 {
        assert(span == bounds_of(primitives[0]));
    } else {
        let before = span_of(primitives, (n - 1) as nat);
        let last = bounds_of(primitives[n - 1]);
        lemma_span_is_tight(primitives, (n - 1) as nat);
        let x = choose|k: int| 0 <= k < n - 1 && before.x == bounds_of(#[trigger] primitives[k]).x;
        let y = choose|k: int| 0 <= k < n - 1 && before.y == bounds_of(#[trigger] primitives[k]).y;
        if before.x <= last.x {
            assert(span.x == bounds_of(primitives[x]).x);
        } else {
            assert(span.x == bounds_of(primitives[n - 1]).x);
        }
        if before.y <= last.y {
            assert(span.y == bounds_of(primitives[y]).y);
        } else {
            assert(span.y == bounds_of(primitives[n - 1]).y);
        }
        if span.width < i32::MAX {
            if before.right() >= last.right() {
                assert(before.width < i32::MAX);
                let r = choose|k: int|
                    0 <= k < n - 1 && before.right() == bounds_of(#[trigger] primitives[k]).right();
                assert(span.right() == bounds_of(primitives[r]).right());
            } else {
                assert(span.right() == bounds_of(primitives[n - 1]).right());
            }
        }
        if span.height < i32::MAX {
            if before.bottom() >= last.bottom() {
                assert(before.height < i32::MAX);
                let b = choose|k: int|
                    0 <= k < n - 1 && before.bottom() == bounds_of(
                        #[trigger] primitives[k],
                    ).bottom();
                assert(span.bottom() == bounds_of(primitives[b]).bottom());
            } else {
                assert(span.bottom() == bounds_of(primitives[n - 1]).bottom());
            }
        }
    }
}

} // verus!
