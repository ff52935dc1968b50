//! The pipeline that draws meshes of triangles.
//!
//! The meshes of a layer share three buffers: one of indices, one of
//! vertices with a colour and one of vertices of gradient meshes. Each mesh
//! is written behind the one before, and drawn from where it was written.
use vstd::prelude::*;
use crate::buffer::{byte_size, Static, StaticView};
use crate::geometry::PixelRect;
use crate::layer::Mesh;
use crate::settings::Antialiasing;

verus! {

/// The number of items that each buffer has room for when it is made.
pub const INITIAL_BUFFER_COUNT: usize = 10_000;

/// The number of bytes of an index.
pub const INDEX_BYTES: u64 = 4;

/// The number of bytes of a vertex with a colour.
pub const SOLID_VERTEX_BYTES: u64 = 24;

/// The number of bytes of a vertex of a gradient mesh.
pub const GRADIENT_VERTEX_BYTES: u64 = 8;

/// The two kinds of meshes.
#[derive(Clone, Copy, Debug, PartialEq, Eq, Structural)]
pub enum Kind {
    Solid,
    Gradient,
}

/// The numbers of indices and of vertices of a list of meshes.
#[derive(Clone, Copy, Debug, PartialEq, Eq, Structural)]
pub struct AttributeCount {
    pub indices: usize,
    pub solid_vertices: usize,
    pub gradient_vertices: usize,
}

/// The indices of one mesh as they are written to the buffer of indices.
#[derive(Clone, Copy, Debug)]
pub struct IndexUpload<'a> {
    /// The mesh among the meshes of the layer whose indices these are.
    pub mesh: usize,
    /// The byte of the buffer at which the indices begin.
    pub offset: u64,
    /// The indices, four bytes each, in the byte order of the machine.
    pub bytes: &'a [u8],
}

/// The vertices of one mesh as they are written to a buffer of vertices.
#[derive(Clone, Copy, Debug, PartialEq, Eq, Structural)]
pub struct VertexUpload {
    /// The buffer: that of the kind of the mesh.
    pub kind: Kind,
    /// The mesh among the meshes of the layer.
    pub mesh: usize,
    /// The byte of the buffer at which the vertices begin.
    pub offset: u64,
    /// The number of bytes.
    pub len: u64,
}

/// The draw of one mesh.
#[derive(Clone, Copy, Debug, PartialEq, Eq, Structural)]
pub struct MeshDraw {
    /// The scissor rectangle: what the layer shows of the mesh, in pixels.
    pub scissor: PixelRect,
    pub kind: Kind,
    /// Whether the pipeline of `kind` has to be set before the draw: for
    /// the first mesh, and wherever the kind changes.
    pub switch: bool,
    /// The mesh among the meshes of its kind: where its uniforms are found.
    pub uniform: usize,
    /// The number of vertices of its kind that were written before it.
    pub base_vertex: usize,
    /// The number of indices that were written before it.
    pub first_index: usize,
    /// The number of its indices.
    pub indices: u32,
}

/// Which of the three buffers had to be made anew.
#[derive(Clone, Copy, Debug, PartialEq, Eq, Structural)]
pub struct Resized {
    pub indices: bool,
    pub solid_vertices: bool,
    pub gradient_vertices: bool,
}

/// What is to be done to draw the meshes of a layer: the buffers that have
/// to be made anew, what is written to them, and the draws.
#[derive(Debug)]
pub struct MeshPlan<'a> {
    pub count: AttributeCount,
    pub resized: Resized,
    pub index_uploads: Vec<IndexUpload<'a>>,
    pub vertex_uploads: Vec<VertexUpload>,
    pub draws: Vec<MeshDraw>,
}

/// The bookkeeping of the three buffers.
#[derive(Debug)]
pub struct Pipeline {
    index_buffer: Static,
    solid_vertices: Static,
    gradient_vertices: Static,
}

/// How the samples of a pixel are taken.
#[derive(Clone, Copy, Debug, PartialEq, Eq, Structural)]
pub struct MultisampleState {
    pub count: u32,
    pub mask: u64,
    pub alpha_to_coverage_enabled: bool,
}

/// How vertices are put together.
#[derive(Clone, Copy, Debug, PartialEq, Eq, Structural)]
pub struct PrimitiveState {
    /// Each three vertices are a triangle.
    pub triangle_list: bool,
    /// The front of a triangle is where its vertices run clockwise.
    pub front_face_clockwise: bool,
}

/// How a fragment is written to its target.
#[derive(Clone, Copy, Debug, PartialEq, Eq, Structural)]
pub struct ColorTargetState {
    pub format: u32,
    /// Whether the fragment is blended by its alpha.
    pub alpha_blending: bool,
    /// Whether all four channels are written.
    pub write_all: bool,
}

/// `bytemuck::cast_slice` from `u32` to `u8`: the same memory seen as bytes,
/// four for each index. The cast cannot fail: a byte has no alignment to
/// meet, and four bytes make up each index.
#[verifier::external_body]
fn index_bytes<'a>(indices: &'a [u32]) -> (bytes: &'a [u8])
    ensures
        bytes@.len() == 4 * indices@.len(),
{
    bytemuck::cast_slice(indices)
}

/// The number `n`, as far as a `usize` counts.
pub open spec fn cap(n: int) -> usize {
    if n > usize::MAX {
        usize::MAX
    } else if n < 0 {
        0
    } else {
        n as usize
    }
}

/// The number `n`, as far as a `u32` counts.
pub open spec fn cap32(n: int) -> u32 {
    if n > u32::MAX {
        u32::MAX
    } else if n < 0 {
        0
    } else {
        n as u32
    }
}

impl<'a> Mesh<'a> {
    /// The kind of the mesh.
    pub open spec fn kind_of(self) -> Kind {
        match self {
            Mesh::Solid { .. } => Kind::Solid,
            Mesh::Gradient { .. } => Kind::Gradient,
        }
    }

    /// The indices of the mesh.
    pub open spec fn index_seq(self) -> Seq<u32> {
        match self {
            Mesh::Solid { buffers, .. } => buffers.indices@,
            Mesh::Gradient { buffers, .. } => buffers.indices@,
        }
    }

    /// The number of vertices of the mesh.
    pub open spec fn vertex_count(self) -> nat {
        match self {
            Mesh::Solid { buffers, .. } => buffers.vertices@.len(),
            Mesh::Gradient { buffers, .. } => buffers.vertices@.len(),
        }
    }

    /// The scissor rectangle of the mesh.
    pub open spec fn clip(self) -> crate::geometry::Rectangle {
        match self {
            Mesh::Solid { clip_bounds, .. } => clip_bounds,
            Mesh::Gradient { clip_bounds, .. } => clip_bounds,
        }
    }

    /// The kind of the mesh.
    pub fn kind(&self) -> (kind: Kind)
        ensures
            kind == self.kind_of(),
    {
        match self {
            Mesh::Solid { .. } => Kind::Solid,
            Mesh::Gradient { .. } => Kind::Gradient,
        }
    }

    /// The indices of the mesh.
    pub fn indices(&self) -> (indices: &'a Vec<u32>)
        ensures
            indices@ == self.index_seq(),
    {
        match self {
            Mesh::Solid { buffers, .. } => &buffers.indices,
            Mesh::Gradient { buffers, .. } => &buffers.indices,
        }
    }

    /// The number of vertices of the mesh.
    pub fn vertices(&self) -> (count: usize)
        ensures
            count == self.vertex_count(),
    {
        match self {
            Mesh::Solid { buffers, .. } => buffers.vertices.len(),
            Mesh::Gradient { buffers, .. } => buffers.vertices.len(),
        }
    }

    /// The scissor rectangle of the mesh.
    pub fn clip_bounds(&self) -> (bounds: crate::geometry::Rectangle)
        ensures
            bounds == self.clip(),
    {
        match self {
            Mesh::Solid { clip_bounds, .. } => *clip_bounds,
            Mesh::Gradient { clip_bounds, .. } => *clip_bounds,
        }
    }
}

/// The number of indices of the first `n` of `meshes`.
pub open spec fn indices_before(meshes: Seq<Mesh>, n: int) -> int
    decreases n,
{
    if n <= 0 || n > meshes.len() {
        0
    } else {
        indices_before(meshes, n - 1) + meshes[n - 1].index_seq().len()
    }
}

/// The number of vertices of the meshes of `kind` among the first `n` of
/// `meshes`.
pub open spec fn vertices_before(meshes: Seq<Mesh>, n: int, kind: Kind) -> int
    decreases n,
{
    if n <= 0 || n > meshes.len() {
        0
    } else {
        vertices_before(meshes, n - 1, kind) + if meshes[n - 1].kind_of() == kind {
            meshes[n - 1].vertex_count() as int
        } else {
            0
        }
    }
}

/// The number of meshes of `kind` among the first `n` of `meshes`.
pub open spec fn kinds_before(meshes: Seq<Mesh>, n: int, kind: Kind) -> int
    decreases n,
{
    if n <= 0 || n > meshes.len() {
        0
    } else {
        kinds_before(meshes, n - 1, kind) + if meshes[n - 1].kind_of() == kind {
            1int
        } else {
            0
        }
    }
}

/// The numbers of indices and vertices of `meshes`.
pub open spec fn count_of(meshes: Seq<Mesh>) -> AttributeCount {
    AttributeCount {
        indices: cap(indices_before(meshes, meshes.len() as int)),
        solid_vertices: cap(vertices_before(meshes, meshes.len() as int, Kind::Solid)),
        gradient_vertices: cap(vertices_before(meshes, meshes.len() as int, Kind::Gradient)),
    }
}

/// The number of bytes of a vertex of `kind`.
pub open spec fn vertex_bytes(kind: Kind) -> u64 {
    match kind {
        Kind::Solid => SOLID_VERTEX_BYTES,
        Kind::Gradient => GRADIENT_VERTEX_BYTES,
    }
}

/// The draw of the mesh `i` of `meshes` at the scale factor `scale`.
pub open spec fn draw_of(meshes: Seq<Mesh>, i: int, scale: u32) -> MeshDraw {
    let mesh = meshes[i];
    MeshDraw {
        scissor: mesh.clip().snapped(scale),
        kind: mesh.kind_of(),
        switch: i == 0 || meshes[i - 1].kind_of() != mesh.kind_of(),
        uniform: cap(kinds_before(meshes, i, mesh.kind_of())),
        base_vertex: cap(vertices_before(meshes, i, mesh.kind_of())),
        first_index: cap(indices_before(meshes, i)),
        indices: cap32(mesh.index_seq().len() as int),
    }
}

/// The write of the vertices of the mesh `i` of `meshes`.
pub open spec fn vertex_upload_of(meshes: Seq<Mesh>, i: int) -> VertexUpload {
    let kind = meshes[i].kind_of();
    VertexUpload {
        kind,
        mesh: i as usize,
        offset: byte_size(vertex_bytes(kind), cap(vertices_before(meshes, i, kind))),
        len: byte_size(vertex_bytes(kind), cap(meshes[i].vertex_count() as int)),
    }
}

/// The sum of two counts, as far as a `usize` counts.
fn sum(a: usize, b: usize) -> (total: usize)
    ensures
        total == cap(a + b),
{
    if a > usize::MAX - b {
        usize::MAX
    } else {
        a + b
    }
}

/// The numbers of indices and vertices of `meshes`.
pub fn attribute_count_of(meshes: &Vec<Mesh<'_>>) -> (count: AttributeCount)
    ensures
        count == count_of(meshes@),
{
    let mut count = AttributeCount { indices: 0, solid_vertices: 0, gradient_vertices: 0 };
    let mut i: usize = 0;
    while i < meshes.len()
        invariant
            i <= meshes.len(),
            count.indices == cap(indices_before(meshes@, i as int)),
            count.solid_vertices == cap(vertices_before(meshes@, i as int, Kind::Solid)),
            count.gradient_vertices == cap(vertices_before(meshes@, i as int, Kind::Gradient)),
            indices_before(meshes@, i as int) >= 0,
            vertices_before(meshes@, i as int, Kind::Solid) >= 0,
            vertices_before(meshes@, i as int, Kind::Gradient) >= 0,
        decreases meshes.len() - i,
    {
        count.indices = sum(count.indices, meshes[i].indices().len());
        match meshes[i].kind() {
            Kind::Solid => {
                count.solid_vertices = sum(count.solid_vertices, meshes[i].vertices());
            },
            Kind::Gradient => {
                count.gradient_vertices = sum(count.gradient_vertices, meshes[i].vertices());
            },
        }
        i = i + 1;
    }
    count
}

impl Pipeline {
    /// The buffer of indices.
    pub closed spec fn index_view(&self) -> StaticView {
        self.index_buffer@
    }

    /// The buffer of vertices with a colour.
    pub closed spec fn solid_view(&self) -> StaticView {
        self.solid_vertices@
    }

    /// The buffer of vertices of gradient meshes.
    pub closed spec fn gradient_view(&self) -> StaticView {
        self.gradient_vertices@
    }

    /// A pipeline whose buffers have room for
    /// [`INITIAL_BUFFER_COUNT`] items each.
    pub fn new() -> (pipeline: Pipeline)
        ensures
            pipeline.index_view() == (StaticView {
                stride: INDEX_BYTES,
                size: byte_size(INDEX_BYTES, INITIAL_BUFFER_COUNT),
                offsets: Seq::empty(),
            }),
            pipeline.solid_view() == (StaticView {
                stride: SOLID_VERTEX_BYTES,
                size: byte_size(SOLID_VERTEX_BYTES, INITIAL_BUFFER_COUNT),
                offsets: Seq::empty(),
            }),
            pipeline.gradient_view() == (StaticView {
                stride: GRADIENT_VERTEX_BYTES,
                size: byte_size(GRADIENT_VERTEX_BYTES, INITIAL_BUFFER_COUNT),
                offsets: Seq::empty(),
            }),
    {
        Pipeline {
            index_buffer: Static::new(INDEX_BYTES, INITIAL_BUFFER_COUNT),
            solid_vertices: Static::new(SOLID_VERTEX_BYTES, INITIAL_BUFFER_COUNT),
            gradient_vertices: Static::new(GRADIENT_VERTEX_BYTES, INITIAL_BUFFER_COUNT),
        }
    }

    /// Plans the drawing of the meshes of a layer at the scale factor
    /// `scale`.
    ///
    /// The buffers are given room for all the meshes together. Each mesh is
    /// written behind the meshes before it, its indices to the buffer of
    /// indices and its vertices to the buffer of its kind, and drawn from
    /// there, clipped to what the layer shows of it.
    pub fn draw<'a>(&mut self, meshes: &Vec<Mesh<'a>>, scale: u32) -> (plan: MeshPlan<'a>)
        ensures
            plan.count == count_of(meshes@),
            final(self).index_view() == old(self).index_view().resized(plan.count.indices),
            final(self).solid_view() == old(self).solid_view().resized(plan.count.solid_vertices),
            final(self).gradient_view() == old(self).gradient_view().resized(
                plan.count.gradient_vertices,
            ),
            plan.resized.indices == (old(self).index_view().size < byte_size(
                old(self).index_view().stride,
                plan.count.indices,
            )),
            plan.resized.solid_vertices == (old(self).solid_view().size < byte_size(
                old(self).solid_view().stride,
                plan.count.solid_vertices,
            )),
            plan.resized.gradient_vertices == (old(self).gradient_view().size < byte_size(
                old(self).gradient_view().stride,
                plan.count.gradient_vertices,
            )),
            plan.draws@.len() == meshes@.len(),
            plan.vertex_uploads@.len() == meshes@.len(),
            plan.index_uploads@.len() == meshes@.len(),
            forall|i: int|
                0 <= i < meshes@.len() ==> #[trigger] plan.draws@[i] == draw_of(meshes@, i, scale),
            forall|i: int|
                0 <= i < meshes@.len() ==> #[trigger] plan.vertex_uploads@[i] == vertex_upload_of(
                    meshes@,
                    i,
                ),
            forall|i: int|
                0 <= i < meshes@.len() ==> (#[trigger] plan.index_uploads@[i]).mesh == i
                    && plan.index_uploads@[i].offset == byte_size(
                    INDEX_BYTES,
                    cap(indices_before(meshes@, i)),
                ) && plan.index_uploads@[i].bytes@.len() == 4 * meshes@[i].index_seq().len(),
    {
        // The numbers of vertices and of indices that there are to handle.
        let count = attribute_count_of(meshes);
        // The buffers are made large enough for them.
        let resized = Resized {
            indices: self.index_buffer.resize(count.indices),
            solid_vertices: self.solid_vertices.resize(count.solid_vertices),
            gradient_vertices: self.gradient_vertices.resize(count.gradient_vertices),
        };
        let mut index_uploads: Vec<IndexUpload<'a>> = Vec::new();
        let mut vertex_uploads: Vec<VertexUpload> = Vec::new();
        let mut draws: Vec<MeshDraw> = Vec::new();
        let mut index_offset: usize = 0;
        let mut solid_offset: usize = 0;
        let mut gradient_offset: usize = 0;
        let mut num_solids: usize = 0;
        let mut num_gradients: usize = 0;
        let mut last_kind: Option<Kind> = None;
        let mut i: usize = 0;
        while i < meshes.len()
            invariant
                i <= meshes.len(),
                index_offset == cap(indices_before(meshes@, i as int)),
                solid_offset == cap(vertices_before(meshes@, i as int, Kind::Solid)),
                gradient_offset == cap(vertices_before(meshes@, i as int, Kind::Gradient)),
                num_solids == cap(kinds_before(meshes@, i as int, Kind::Solid)),
                num_gradients == cap(kinds_before(meshes@, i as int, Kind::Gradient)),
                indices_before(meshes@, i as int) >= 0,
                vertices_before(meshes@, i as int, Kind::Solid) >= 0,
                vertices_before(meshes@, i as int, Kind::Gradient) >= 0,
                kinds_before(meshes@, i as int, Kind::Solid) >= 0,
                kinds_before(meshes@, i as int, Kind::Gradient) >= 0,
                last_kind == if i == 0 {
                    None
                } else {
                    Some(meshes@[i - 1].kind_of())
                },
                draws@.len() == i,
                vertex_uploads@.len() == i,
                index_uploads@.len() == i,
                forall|k: int| 0 <= k < i ==> #[trigger] draws@[k] == draw_of(meshes@, k, scale),
                forall|k: int|
                    0 <= k < i ==> #[trigger] vertex_uploads@[k] == vertex_upload_of(meshes@, k),
                forall|k: int|
                    0 <= k < i ==> (#[trigger] index_uploads@[k]).mesh == k
                        && index_uploads@[k].offset == byte_size(
                        INDEX_BYTES,
                        cap(indices_before(meshes@, k)),
                    ) && index_uploads@[k].bytes@.len() == 4 * meshes@[k].index_seq().len(),
            decreases meshes.len() - i,
        {
            let mesh = &meshes[i];
            let indices = mesh.indices();
            let kind = mesh.kind();
            let vertices: usize = mesh.vertices();
            let bytes = index_bytes(indices.as_slice());
            index_uploads.push(
                IndexUpload { mesh: i, offset: scaled(INDEX_BYTES, index_offset), bytes },
            );
            let switch: bool = match last_kind {
                Some(last) => last != kind,
                None => true,
            };
            let (uniform, base_vertex, stride): (usize, usize, u64) = match kind {
                Kind::Solid => (num_solids, solid_offset, SOLID_VERTEX_BYTES),
                Kind::Gradient => (num_gradients, gradient_offset, GRADIENT_VERTEX_BYTES),
            };
            vertex_uploads.push(
                VertexUpload {
                    kind,
                    mesh: i,
                    offset: scaled(stride, base_vertex),
                    len: scaled(stride, vertices),
                },
            );
            draws.push(
                MeshDraw {
                    scissor: mesh.clip_bounds().snap(scale),
                    kind,
                    switch,
                    uniform,
                    base_vertex,
                    first_index: index_offset,
                    indices: if indices.len() > u32::MAX as usize {
                        u32::MAX
                    } else {
                        indices.len() as u32
                    },
                },
            );
            index_offset = sum(index_offset, indices.len());
            match kind {
                Kind::Solid => {
                    solid_offset = sum(solid_offset, vertices);
                    num_solids = sum(num_solids, 1);
                },
                Kind::Gradient => {
                    gradient_offset = sum(gradient_offset, vertices);
                    num_gradients = sum(num_gradients, 1);
                },
            }
            last_kind = Some(kind);
            i = i + 1;
        }
        MeshPlan { count, resized, index_uploads, vertex_uploads, draws }
    }
}

/// The number of bytes of `count` items of `stride` bytes.
fn scaled(stride: u64, count: usize) -> (bytes: u64)
    ensures
        bytes == byte_size(stride, count),
{
    assert(stride as int * count as int <= 0xffff_ffff_ffff_ffff * 0xffff_ffff_ffff_ffff)
        by (nonlinear_arith)
        requires
            0 <= stride as int <= 0xffff_ffff_ffff_ffff,
            0 <= count as int <= 0xffff_ffff_ffff_ffff,
    ;
    let wide: u128 = stride as u128 * count as u128;
    if wide > u64::MAX as u128 {
        u64::MAX
    } else {
        wide as u64
    }
}

/// How a fragment of a mesh is written to a target of the given format.
pub fn fragment_target(texture_format: u32) -> (state: Option<ColorTargetState>)
    ensures
        state == Some(
            ColorTargetState { format: texture_format, alpha_blending: true, write_all: true },
        ),
{
    Some(ColorTargetState { format: texture_format, alpha_blending: true, write_all: true })
}

/// How the vertices of a mesh are put together.
pub fn primitive_state() -> (state: PrimitiveState)
    ensures
        state == (PrimitiveState { triangle_list: true, front_face_clockwise: true }),
{
    PrimitiveState { triangle_list: true, front_face_clockwise: true }
}

/// How the samples of a pixel are taken: as many as the antialiasing asks
/// for, or one.
pub fn multisample_state(antialiasing: Option<Antialiasing>) -> (state: MultisampleState)
    ensures
        state == (MultisampleState {
            count: match antialiasing {
                Some(a) => a.samples(),
                None => 1,
            },
            mask: u64::MAX,
            alpha_to_coverage_enabled: false,
        }),
{
    MultisampleState {
        count: match antialiasing {
            Some(a) => a.sample_count(),
            None => 1,
        },
        mask: u64::MAX,
        alpha_to_coverage_enabled: false,
    }
}

/// The meshes are written one behind the other: each begins where the one
/// before it ends, in the buffer of indices and in the buffer of its kind.
pub proof fn lemma_meshes_are_contiguous(meshes: Seq<Mesh>, i: int, kind: Kind)
    requires
        0 <= i < meshes.len(),
    ensures
        indices_before(meshes, i + 1) == indices_before(meshes, i) + meshes[i].index_seq().len(),
        vertices_before(meshes, i + 1, kind) == vertices_before(meshes, i, kind) + if meshes[i].kind_of()
            == kind {
            meshes[i].vertex_count() as int
        } else {
            0
        },
        indices_before(meshes, i) >= 0,
        vertices_before(meshes, i, kind) >= 0,
    decreases i,
{
    if i > 0 {
        lemma_meshes_are_contiguous(meshes, i - 1, kind);
    }
}

} // verus!
