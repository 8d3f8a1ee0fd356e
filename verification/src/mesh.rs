use std::sync::Arc;

use vstd::prelude::*;

use crate::format::{format_size, Format};
use crate::memory::buffer::BufferBinding;
use crate::vertex::{
    attr_index, index_size, IndexType, PrimitiveTopology, VertexAttr, VertexLayout, VertexPacking,
    VERTEX_ATTR_COUNT,
};

verus! {

/// How long a resource lives.
#[derive(Clone, Copy, Debug, PartialEq, Eq, Structural, Hash)]
pub enum Lifetime {
    Static,
    Frame,
}

/// The definition of a device buffer whose contents are uploaded
/// asynchronously.
#[derive(Clone, Copy, Debug, PartialEq, Eq, Structural)]
pub struct BufferDef {
    pub binding: BufferBinding,
    pub lifetime: Lifetime,
    pub size: u64,
}

/// A buffer of one vertex attribute.
#[derive(Debug)]
pub struct AttrBuffer<B> {
    pub buffer: Arc<B>,
    pub format: Format,
}

/// A buffer of vertex indices.
#[derive(Debug)]
pub struct IndexBuffer<B> {
    pub buffer: Arc<B>,
    pub ty: IndexType,
}

pub open spec fn attr_count(b: AttrBuffer<BufferDef>) -> int {
    (b.buffer.size as u32) as int / format_size(b.format) as int
}

pub open spec fn index_count(b: IndexBuffer<BufferDef>) -> int {
    (b.buffer.size as u32) as int / index_size(b.ty) as int
}

impl AttrBuffer<BufferDef> {
    /// Number of elements in the buffer.
    pub fn count(&self) -> (r: u32)
        ensures
            r == attr_count(*self),
    {
        self.buffer.size as u32 / self.format.size() as u32
    }
}

impl IndexBuffer<BufferDef> {
    /// Number of indices in the buffer.
    pub fn count(&self) -> (r: u32)
        ensures
            r == index_count(*self),
    {
        self.buffer.size as u32 / self.ty.size() as u32
    }
}

/// A `RenderMesh` is an unresolved triangle stream. It contains handles to
/// the asynchronously uploaded vertex attribute data which must be
/// resolved before baking into a renderable primitive.
#[derive(Debug)]
pub struct RenderMesh {
    vertex_count: u32,
    index: Option<IndexBuffer<BufferDef>>,
    bindings: Vec<Option<AttrBuffer<BufferDef>>>,
}

impl RenderMesh {
    pub closed spec fn wf(&self) -> bool {
        self.bindings@.len() == VERTEX_ATTR_COUNT
    }

    pub closed spec fn vertex_count_spec(&self) -> u32 {
        self.vertex_count
    }

    pub closed spec fn index_spec(&self) -> Option<IndexBuffer<BufferDef>> {
        self.index
    }

    /// Attribute buffers, by attribute number.
    pub closed spec fn bindings_spec(&self) -> Seq<Option<AttrBuffer<BufferDef>>> {
        self.bindings@
    }

    /// A mesh with no buffers and no vertices.
    pub fn new() -> (r: Self)
        ensures
            r.wf(),
            r.vertex_count_spec() == 0,
            r.index_spec() is None,
            forall|i: int| 0 <= i < VERTEX_ATTR_COUNT ==> #[trigger] r.bindings_spec()[i] is None,
    {
        let mut bindings: Vec<Option<AttrBuffer<BufferDef>>> = Vec::new();
        let mut k: usize = 0;
        while k < VERTEX_ATTR_COUNT
            invariant
                0 <= k <= VERTEX_ATTR_COUNT,
                bindings@.len() == k,
                forall|i: int| 0 <= i < k ==> #[trigger] bindings@[i] is None,
            decreases VERTEX_ATTR_COUNT - k,
        {
            bindings.push(None);
            k = k + 1;
        }
        RenderMesh { vertex_count: 0, index: None, bindings }
    }

    /// The number of vertices in the mesh.
    pub fn vertex_count(&self) -> (r: u32)
        ensures
            r == self.vertex_count_spec(),
    {
        self.vertex_count
    }

    pub fn index(&self) -> (r: Option<&IndexBuffer<BufferDef>>)
        ensures
            r is Some <==> self.index_spec() is Some,
            r matches Some(b) ==> *b == self.index_spec()->0,
    {
        match &self.index {
            Some(b) => Some(b),
            None => None,
        }
    }

    pub fn bindings(&self) -> (r: &[Option<AttrBuffer<BufferDef>>])
        ensures
            r@ == self.bindings_spec(),
    {
        self.bindings.as_slice()
    }

    /// Triangle-list layout with the format of each bound attribute.
    pub fn vertex_layout(&self) -> (r: VertexLayout)
        requires
            self.wf(),
        ensures
            r.topology == PrimitiveTopology::TriangleList,
            r.packing == VertexPacking::Unpacked,
            forall|i: int|
                0 <= i < VERTEX_ATTR_COUNT ==> #[trigger] r.attrs@[i] == match self.bindings_spec()[i] {
                    Some(b) => Some(b.format),
                    None => None::<Format>,
                },
    {
        let mut attrs: [Option<Format>; 10] = [None; 10];
        let mut k: usize = 0;
        while k < VERTEX_ATTR_COUNT
            invariant
                0 <= k <= VERTEX_ATTR_COUNT,
                self.bindings@.len() == VERTEX_ATTR_COUNT,
                forall|i: int|
                    0 <= i < k ==> #[trigger] attrs@[i] == match self.bindings@[i] {
                        Some(b) => Some(b.format),
                        None => None::<Format>,
                    },
                forall|i: int| k <= i < VERTEX_ATTR_COUNT ==> #[trigger] attrs@[i] == None::<Format>,
            decreases VERTEX_ATTR_COUNT - k,
        {
            let f = match &self.bindings[k] {
                Some(b) => Some(b.format),
                None => None,
            };
            let ghost before = attrs@;
            attrs[k] = f;
            proof {
                assert(attrs@ =~= before.update(k as int, f));
            }
            k = k + 1;
        }
        VertexLayout { topology: PrimitiveTopology::TriangleList, packing: VertexPacking::Unpacked, attrs }
    }
}

/// The vertex count of a mesh without index buffer: the element count of
/// its attribute buffers, which must all agree; there must be one.
pub open spec fn attrs_agree(bindings: Seq<Option<AttrBuffer<BufferDef>>>, count: int) -> bool {
    &&& exists|i: int| 0 <= i < bindings.len() && #[trigger] bindings[i] is Some
    &&& forall|i: int| 0 <= i < bindings.len() && #[trigger] bindings[i] is Some ==> attr_count(bindings[i]->0) == count
}

/// Assembles a `RenderMesh` from uploaded buffers.
#[derive(Debug)]
pub struct RenderMeshBuilder {
    lifetime: Lifetime,
    mesh: RenderMesh,
}

impl RenderMeshBuilder {
    pub closed spec fn lifetime_spec(&self) -> Lifetime {
        self.lifetime
    }

    pub closed spec fn mesh_spec(&self) -> RenderMesh {
        self.mesh
    }

    pub fn new() -> (r: Self)
        ensures
            r.lifetime_spec() == Lifetime::Static,
            r.mesh_spec().wf(),
            r.mesh_spec().index_spec() is None,
            forall|i: int| 0 <= i < VERTEX_ATTR_COUNT ==> #[trigger] r.mesh_spec().bindings_spec()[i] is None,
    {
        RenderMeshBuilder { lifetime: Lifetime::Static, mesh: RenderMesh::new() }
    }

    /// Lifetime of the buffers that will be defined for the mesh.
    pub fn lifetime(&mut self, lifetime: Lifetime)
        ensures
            final(self).lifetime_spec() == lifetime,
            final(self).mesh_spec() == old(self).mesh_spec(),
    {
        self.lifetime = lifetime;
    }

    /// Uses `buffer`, which holds whole indices of type `ty`, as the
    /// index buffer.
    pub fn index(&mut self, ty: IndexType, buffer: Arc<BufferDef>)
        requires
            buffer.size % (index_size(ty) as u64) == 0,
        ensures
            final(self).lifetime_spec() == old(self).lifetime_spec(),
            final(self).mesh_spec().index_spec() == Some(IndexBuffer { buffer, ty }),
            final(self).mesh_spec().bindings_spec() == old(self).mesh_spec().bindings_spec(),
            final(self).mesh_spec().vertex_count_spec() == old(self).mesh_spec().vertex_count_spec(),
    {
        self.mesh.index = Some(IndexBuffer { buffer, ty });
    }

    /// Uses `buffer`, which holds whole elements of `format`, for
    /// attribute `attr`.
    pub fn attr(&mut self, attr: VertexAttr, format: Format, buffer: Arc<BufferDef>)
        requires
            old(self).mesh_spec().wf(),
            buffer.size % (format_size(format) as u64) == 0,
        ensures
            final(self).mesh_spec().wf(),
            final(self).lifetime_spec() == old(self).lifetime_spec(),
            final(self).mesh_spec().index_spec() == old(self).mesh_spec().index_spec(),
            final(self).mesh_spec().bindings_spec() == old(self).mesh_spec().bindings_spec().update(
                attr_index(attr),
                Some(AttrBuffer { buffer, format }),
            ),
            final(self).mesh_spec().vertex_count_spec() == old(self).mesh_spec().vertex_count_spec(),
    {
        let i = attr.index();
        self.mesh.bindings.set(i, Some(AttrBuffer { buffer, format }));
    }

    fn set_vertex_count(&mut self)
        requires
            old(self).mesh_spec().wf(),
            old(self).mesh_spec().index_spec() is None ==> exists|c: int| attrs_agree(old(self).mesh_spec().bindings_spec(), c),
        ensures
            final(self).mesh_spec().wf(),
            final(self).lifetime_spec() == old(self).lifetime_spec(),
            final(self).mesh_spec().index_spec() == old(self).mesh_spec().index_spec(),
            final(self).mesh_spec().bindings_spec() == old(self).mesh_spec().bindings_spec(),
            match old(self).mesh_spec().index_spec() {
                Some(ib) => final(self).mesh_spec().vertex_count_spec() == index_count(ib),
                None => attrs_agree(old(self).mesh_spec().bindings_spec(), final(self).mesh_spec().vertex_count_spec() as int),
            },
    {
        let count = match &self.mesh.index {
            Some(index) => index.count(),
            None => {
                let ghost c = choose|c: int| attrs_agree(self.mesh.bindings@, c);
                let mut first: Option<u32> = None;
                let mut k: usize = 0;
                while k < VERTEX_ATTR_COUNT
                    invariant
                        0 <= k <= VERTEX_ATTR_COUNT,
                        self.mesh.bindings@.len() == VERTEX_ATTR_COUNT,
                        attrs_agree(self.mesh.bindings@, c),
                        first is None <==> forall|i: int| 0 <= i < k ==> !(#[trigger] self.mesh.bindings@[i] is Some),
                        first matches Some(f) ==> f == c,
                    decreases VERTEX_ATTR_COUNT - k,
                {
                    match &self.mesh.bindings[k] {
                        Some(attr) => {
                            let n = attr.count();
                            match first {
                                Some(f) => {
                                    assert(n == f);
                                },
                                None => {
                                    first = Some(n);
                                },
                            }
                        },
                        None => {},
                    }
                    k = k + 1;
                }
                match first {
                    Some(f) => f,
                    None => {
                        proof {
                            let i = choose|i: int| 0 <= i < self.mesh.bindings@.len() && #[trigger] self.mesh.bindings@[i] is Some;
                            assert(self.mesh.bindings@[i] is Some);
                        }
                        0
                    },
                }
            },
        };
        self.mesh.vertex_count = count;
    }

    /// Finishes the mesh: its vertex count is the index count when it has
    /// an index buffer, else the common element count of its attribute
    /// buffers.
    pub fn build(self) -> (r: RenderMesh)
        requires
            self.mesh_spec().wf(),
            self.mesh_spec().index_spec() is None ==> exists|c: int| attrs_agree(self.mesh_spec().bindings_spec(), c),
        ensures
            r.wf(),
            r.index_spec() == self.mesh_spec().index_spec(),
            r.bindings_spec() == self.mesh_spec().bindings_spec(),
            match self.mesh_spec().index_spec() {
                Some(ib) => r.vertex_count_spec() == index_count(ib),
                None => attrs_agree(self.mesh_spec().bindings_spec(), r.vertex_count_spec() as int),
            },
    {
        let mut b = self;
        b.set_vertex_count();
        b.mesh
    }
}

} // verus!
