//! How quads are handed to OpenGL: in chunks of instances where instancing
//! is at hand, and as four vertices and six indices each where it is not.
use vstd::prelude::*;
use crate::layer::Quad;
use crate::units::UNIT;

verus! {

/// The number of instances that one instanced draw takes.
pub const INITIAL_INSTANCES: usize = 10_000;

/// The number of quads that one draw without instancing takes. Only this
/// number may be changed: the two below follow from it, so that no quad is
/// split between two draws.
pub const MAX_QUADS: usize = 100_000;

/// The number of vertices of [`MAX_QUADS`] quads.
pub const MAX_VERTICES: usize = 400_000;

/// The number of indices of [`MAX_QUADS`] quads.
pub const MAX_INDICES: usize = 600_000;

/// Some items of a list that follow one another: `len` of them, from the
/// item `first` on.
#[derive(Clone, Copy, Debug, PartialEq, Eq, Structural)]
pub struct Chunk {
    pub first: usize,
    pub len: usize,
}

/// A quad at one of its four corners.
#[derive(Clone, Copy, Debug, PartialEq, Eq)]
pub struct CompatVertex {
    pub quad: Quad,
    /// The corner: zero or one in each axis.
    pub quad_position: [u8; 2],
}

/// One draw without instancing.
#[derive(Debug, PartialEq, Eq)]
pub struct Pass {
    /// The quads that are drawn.
    pub quads: Chunk,
    /// The indices of the two triangles of each quad, counted among the
    /// vertices of this draw.
    pub indices: Vec<u32>,
}

/// The chunks of at most `size` items into which the items of a list of
/// `count` items fall from the item `first` on.
pub open spec fn chunks_from(count: usize, size: usize, first: int) -> Seq<Chunk>
    decreases count - first,
{
    if first < 0 || first >= count || size == 0 {
        Seq::empty()
    } else if count - first <= size {
        seq![Chunk { first: first as usize, len: (count - first) as usize }]
    } else {
        seq![Chunk { first: first as usize, len: size }] + chunks_from(count, size, first + size)
    }
}

/// The corner of a quad that the vertex `corner` of its four stands at.
pub open spec fn corner_of(corner: int) -> Seq<u8> {
    if corner == 0 {
        seq![0u8, 0u8]
    } else if corner == 1 {
        seq![0u8, 1u8]
    } else if corner == 2 {
        seq![1u8, 0u8]
    } else {
        seq![1u8, 1u8]
    }
}

/// Which of the four vertices of a quad the index `k` of its six is: two
/// triangles that share the second and the third vertex.
pub open spec fn triangle_vertex(k: int) -> int {
    if k == 0 {
        0
    } else if k == 1 {
        1
    } else if k == 2 {
        2
    } else if k == 3 {
        2
    } else if k == 4 {
        1
    } else {
        3
    }
}

/// The indices of `n` quads: six for each, which name its four vertices.
pub open spec fn indices_of(n: int) -> Seq<u32> {
    Seq::new((6 * n) as nat, |k: int| (4 * (k / 6) + triangle_vertex(k % 6)) as u32)
}

/// The chunks of at most `size` items that a list of `count` items falls
/// into.
pub fn chunks(count: usize, size: usize) -> (result: Vec<Chunk>)
    requires
        size > 0,
    ensures
        result@ == chunks_from(count, size, 0),
{
    let mut result: Vec<Chunk> = Vec::new();
    let mut first: usize = 0;
    while first < count
        invariant
            first <= count,
            size > 0,
            result@ + chunks_from(count, size, first as int) == chunks_from(count, size, 0),
        decreases count - first,
    {
        let len: usize = if count - first < size {
            count - first
        } else {
            size
        };
        let ghost before = result@;
        result.push(Chunk { first, len });
        if count - first <= size {
            assert(result@ =~= before + chunks_from(count, size, first as int));
            first = count;
            assert(result@ + chunks_from(count, size, first as int) =~= result@);
        } else {
            assert(result@ + chunks_from(count, size, first as int + size) =~= before + chunks_from(
                count,
                size,
                first as int,
            ));
            first = first + size;
        }
    }
    assert(result@ + chunks_from(count, size, first as int) =~= result@);
    result
}

/// The instanced draws of `count` instances: chunks of at most
/// [`INITIAL_INSTANCES`].
pub fn draw_instances(count: usize) -> (draws: Vec<Chunk>)
    ensures
        draws@ == chunks_from(count, INITIAL_INSTANCES, 0),
{
    chunks(count, INITIAL_INSTANCES)
}

/// The indices of `n` quads.
pub fn quad_indices(n: usize) -> (indices: Vec<u32>)
    requires
        n <= MAX_QUADS,
    ensures
        indices@ == indices_of(n as int),
{
    let mut indices: Vec<u32> = Vec::new();
    let mut i: usize = 0;
    while i < n
        invariant
            i <= n <= MAX_QUADS,
            indices@.len() == 6 * i,
            forall|k: int|
                0 <= k < 6 * i ==> #[trigger] indices@[k] == (4 * (k / 6) + triangle_vertex(k % 6)) as u32,
        decreases n - i,
    {
        let base: u32 = (i * 4) as u32;
        indices.push(base);
        indices.push(base + 1);
        indices.push(base + 2);
        indices.push(base + 2);
        indices.push(base + 1);
        indices.push(base + 3);
        assert forall|k: int| 0 <= k < 6 * (i + 1) implies #[trigger] indices@[k] == (4 * (k / 6)
            + triangle_vertex(k % 6)) as u32 by {
            if k >= 6 * i {
                assert(k / 6 == i as int);
                assert(k % 6 == k - 6 * i);
            }
        }
        i = i + 1;
    }
    assert(indices@ =~= indices_of(n as int));
    indices
}

impl CompatVertex {
    /// The four vertices of a quad: the quad at each of its corners.
    pub fn from_quad(quad: &Quad) -> (vertices: [CompatVertex; 4])
        ensures
            forall|corner: int|
                0 <= corner < 4 ==> (#[trigger] vertices@[corner]).quad == *quad
                    && vertices@[corner].quad_position@ == corner_of(corner),
    {
        let vertices = [
            CompatVertex { quad: *quad, quad_position: [0, 0] },
            CompatVertex { quad: *quad, quad_position: [0, 1] },
            CompatVertex { quad: *quad, quad_position: [1, 0] },
            CompatVertex { quad: *quad, quad_position: [1, 1] },
        ];
        assert(vertices@[0].quad_position@ =~= corner_of(0));
        assert(vertices@[1].quad_position@ =~= corner_of(1));
        assert(vertices@[2].quad_position@ =~= corner_of(2));
        assert(vertices@[3].quad_position@ =~= corner_of(3));
        vertices
    }
}

/// The draws without instancing of `count` quads: the quads in chunks of at
/// most [`MAX_QUADS`], each chunk with the indices of its quads.
pub fn draw(count: usize) -> (passes: Vec<Pass>)
    ensures
        passes@.len() == chunks_from(count, MAX_QUADS, 0).len(),
        forall|k: int|
            0 <= k < passes@.len() ==> (#[trigger] passes@[k]).quads == chunks_from(
                count,
                MAX_QUADS,
                0,
            )[k] && passes@[k].indices@ == indices_of(passes@[k].quads.len as int),
{
    let parts = chunks(count, MAX_QUADS);
    let mut passes: Vec<Pass> = Vec::new();
    let mut k: usize = 0;
    proof {
        lemma_chunks_cover(count, MAX_QUADS, 0);
    }
    while k < parts.len()
        invariant
            k <= parts.len(),
            parts@ == chunks_from(count, MAX_QUADS, 0),
            forall|j: int| 0 <= j < parts@.len() ==> 0 < (#[trigger] parts@[j]).len <= MAX_QUADS,
            passes@.len() == k,
            forall|j: int|
                0 <= j < k ==> (#[trigger] passes@[j]).quads == parts@[j] && passes@[j].indices@
                    == indices_of(passes@[j].quads.len as int),
        decreases parts.len() - k,
    {
        let quads = parts[k];
        passes.push(Pass { quads, indices: quad_indices(quads.len) });
        k = k + 1;
    }
    passes
}

/// The chunks of a list leave nothing out and hold nothing twice: the first
/// begins where the chunks begin, each of the others begins where the one
/// before it ends, and the last ends where the list ends. No chunk is empty,
/// and none holds more than `size` items.
pub proof fn lemma_chunks_cover(count: usize, size: usize, first: int)
    requires
        size > 0,
        0 <= first,
    ensures
        ({
            let parts = chunks_from(count, size, first);
            &&& first < count ==> parts.len() > 0 && parts[0].first == first
            &&& first >= count ==> parts.len() == 0
            &&& forall|k: int| 0 <= k < parts.len() ==> 0 < (#[trigger] parts[k]).len <= size
            &&& forall|k: int|
                0 <= k < parts.len() ==> (#[trigger] parts[k]).first + parts[k].len == if k + 1
                    < parts.len() {
                    parts[k + 1].first as int
                } else {
                    count as int
                }
        }),
    decreases count - first,
{
    if first < count && count - first > size {
        lemma_chunks_cover(count, size, first + size);
        let parts = chunks_from(count, size, first);
        let rest = chunks_from(count, size, first + size);
        assert forall|k: int| 0 <= k < parts.len() implies 0 < (#[trigger] parts[k]).len <= size
            && parts[k].first + parts[k].len == if k + 1 < parts.len() {
            parts[k + 1].first as int
        } else {
            count as int
        } by {
            if k > 0 {
                assert(parts[k] == rest[k - 1]);
                if k + 1 < parts.len() {
                    assert(parts[k + 1] == rest[k]);
                }
            } else {
                if 1 < parts.len() {
                    assert(parts[1] == rest[0]);
                }
            }
        }
    }
}

/// What the shaders of quads were told last: the transformation, a matrix
/// of four by four scalars; the scale factor; and the height of the screen.
#[derive(Clone, Copy, Debug)]
pub struct Uniforms {
    pub transform: [i32; 16],
    pub scale: i32,
    pub screen_height: i32,
}

/// Which uniforms have changed and have to be told to the shaders again.
#[derive(Clone, Copy, Debug, PartialEq, Eq, Structural)]
pub struct UniformChanges {
    pub transform: bool,
    pub scale: bool,
    pub screen_height: bool,
}

/// The matrix that changes nothing.
pub open spec fn identity() -> Seq<i32> {
    Seq::new(16, |k: int| if k % 5 == 0 { UNIT } else { 0i32 })
}

fn same(a: &[i32; 16], b: &[i32; 16]) -> (equal: bool)
    ensures
        equal == (a@ == b@),
{
    let mut k: usize = 0;
    while k < 16
        invariant
            k <= 16,
            forall|j: int| 0 <= j < k ==> a@[j] == b@[j],
        decreases 16 - k,
    {
        if a[k] != b[k] {
            return false;
        }
        k = k + 1;
    }
    assert(a@ =~= b@);
    true
}

impl Uniforms {
    /// The uniforms of a new program: no transformation, a scale factor of
    /// one, and a screen without height.
    pub fn new() -> (uniforms: Uniforms)
        ensures
            uniforms.transform@ == identity(),
            uniforms.scale == UNIT,
            uniforms.screen_height == 0,
    {
        let transform: [i32; 16] = [
            UNIT, 0, 0, 0,
            0, UNIT, 0, 0,
            0, 0, UNIT, 0,
            0, 0, 0, UNIT,
        ];
        assert(transform@ =~= identity());
        Uniforms { transform, scale: UNIT, screen_height: 0 }
    }

    /// Takes in the uniforms of the next draw, and returns which of them
    /// differ from those of the draw before: only those are told to the
    /// shaders.
    pub fn update(&mut self, new_transform: [i32; 16], new_scale: i32, new_screen_height: i32) -> (changes:
        UniformChanges)
        ensures
            final(self).transform@ == new_transform@,
            final(self).scale == new_scale,
            final(self).screen_height == new_screen_height,
            changes == (UniformChanges {
                transform: old(self).transform@ != new_transform@,
                scale: old(self).scale != new_scale,
                screen_height: old(self).screen_height != new_screen_height,
            }),
    {
        let transform = !same(&new_transform, &self.transform);
        if transform {
            self.transform = new_transform;
        }
        let scale = new_scale != self.scale;
        if scale {
            self.scale = new_scale;
        }
        let screen_height = new_screen_height != self.screen_height;
        if screen_height {
            self.screen_height = new_screen_height;
        }
        UniformChanges { transform, scale, screen_height }
    }
}

/// One attribute of a vertex or of an instance, as a buffer lays it out.
#[derive(Clone, Copy, Debug, PartialEq, Eq, Structural)]
pub struct Attribute {
    /// The location of the attribute in the shader.
    pub location: u32,
    /// The number of scalars of the attribute.
    pub components: u32,
    /// The byte of the item at which the attribute begins.
    pub offset: u32,
}

/// The number of bytes of the first `n` of attributes with the given
/// numbers of scalars, four bytes for each scalar.
pub open spec fn bytes_before(components: Seq<u32>, n: int) -> int
    decreases n,
{
    if n <= 0 || n > components.len() {
        0
    } else {
        bytes_before(components, n - 1) + 4 * components[n - 1]
    }
}

/// The layout of attributes with the given numbers of scalars, the first at
/// the location `first_location`: one behind the other, without gaps.
pub open spec fn layout_of(components: Seq<u32>, first_location: u32) -> Seq<Attribute> {
    Seq::new(
        components.len(),
        |k: int|
            Attribute {
                location: (first_location + k) as u32,
                components: components[k],
                offset: bytes_before(components, k) as u32,
            },
    )
}

/// Whether the layout of the attributes can be written down: every offset,
/// the number of bytes of an item and every location is a `u32`.
pub open spec fn layout_fits(components: Seq<u32>, first_location: u32) -> bool {
    bytes_before(components, components.len() as int) <= u32::MAX && first_location
        + components.len() <= u32::MAX + 1
}

/// The bytes of attributes only grow from one attribute to the next.
pub proof fn lemma_bytes_grow(components: Seq<u32>, k: int, n: int)
    requires
        0 <= k <= n <= components.len(),
    ensures
        0 <= bytes_before(components, k) <= bytes_before(components, n),
    decreases n,
{
    if k < n {
        lemma_bytes_grow(components, k, n - 1);
    } else if n > 0 {
        lemma_bytes_grow(components, k - 1, n - 1);
    }
}

/// Lays out attributes with the given numbers of scalars, one behind the
/// other, and returns the layout with the number of bytes of an item; or
/// `None` where an offset or a location is more than a `u32` holds.
pub fn layout(components: &Vec<u32>, first_location: u32) -> (result: Option<(Vec<Attribute>, u32)>)
    ensures
        match result {
            Some((attributes, stride)) => layout_fits(components@, first_location) && attributes@
                == layout_of(components@, first_location) && stride == bytes_before(
                components@,
                components@.len() as int,
            ),
            None => !layout_fits(components@, first_location),
        },
{
    let mut attributes: Vec<Attribute> = Vec::new();
    let mut offset: u32 = 0;
    let mut k: usize = 0;
    while k < components.len()
        invariant
            k <= components@.len(),
            offset == bytes_before(components@, k as int),
            first_location + k <= u32::MAX + 1,
            attributes@.len() == k,
            forall|j: int|
                0 <= j < k ==> #[trigger] attributes@[j] == layout_of(components@, first_location)[j],
        decreases components.len() - k,
    {
        proof {
            lemma_bytes_grow(components@, k as int + 1, components@.len() as int);
        }
        if k as u64 + first_location as u64 > u32::MAX as u64 {
            return None;
        }
        let bytes: u64 = offset as u64 + 4 * (components[k] as u64);
        if bytes > u32::MAX as u64 {
            return None;
        }
        attributes.push(
            Attribute {
                location: (first_location as u64 + k as u64) as u32,
                components: components[k],
                offset,
            },
        );
        offset = bytes as u32;
        k = k + 1;
    }
    assert(attributes@ =~= layout_of(components@, first_location));
    Some((attributes, offset))
}

} // verus!
