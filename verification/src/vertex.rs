use vstd::prelude::*;

use crate::format::{format_size, Format};

verus! {

/// Number of vertex attribute slots.
pub const VERTEX_ATTR_COUNT: usize = 10;

/// Vertex attributes, numbered by their shader input location.
#[derive(Clone, Copy, Debug, PartialEq, Eq, Structural, Hash)]
pub enum VertexAttr {
    Position,
    Normal,
    Tangent,
    QTangent,
    Texcoord0,
    Texcoord1,
    Color,
    Joints,
    Weights,
    Velocity,
}

pub open spec fn attr_index(a: VertexAttr) -> int {
    match a {
        VertexAttr::Position => 0,
        VertexAttr::Normal => 1,
        VertexAttr::Tangent => 2,
        VertexAttr::QTangent => 3,
        VertexAttr::Texcoord0 => 4,
        VertexAttr::Texcoord1 => 5,
        VertexAttr::Color => 6,
        VertexAttr::Joints => 7,
        VertexAttr::Weights => 8,
        VertexAttr::Velocity => 9,
    }
}

pub open spec fn attr_at(i: int) -> VertexAttr {
    if i == 0 {
        VertexAttr::Position
    } else if i == 1 {
        VertexAttr::Normal
    } else if i == 2 {
        VertexAttr::Tangent
    } else if i == 3 {
        VertexAttr::QTangent
    } else if i == 4 {
        VertexAttr::Texcoord0
    } else if i == 5 {
        VertexAttr::Texcoord1
    } else if i == 6 {
        VertexAttr::Color
    } else if i == 7 {
        VertexAttr::Joints
    } else if i == 8 {
        VertexAttr::Weights
    } else {
        VertexAttr::Velocity
    }
}

impl VertexAttr {
    /// The attribute's number (its shader location).
    pub fn index(self) -> (r: usize)
        ensures
            r == attr_index(self),
            r < VERTEX_ATTR_COUNT,
            attr_at(r as int) == self,
    {
        match self {
            VertexAttr::Position => 0,
            VertexAttr::Normal => 1,
            VertexAttr::Tangent => 2,
            VertexAttr::QTangent => 3,
            VertexAttr::Texcoord0 => 4,
            VertexAttr::Texcoord1 => 5,
            VertexAttr::Color => 6,
            VertexAttr::Joints => 7,
            VertexAttr::Weights => 8,
            VertexAttr::Velocity => 9,
        }
    }

    /// The attribute numbered `n`, if there is one.
    pub fn from_number(n: u32) -> (r: Option<VertexAttr>)
        ensures
            n < VERTEX_ATTR_COUNT ==> r == Some(attr_at(n as int)),
            n >= VERTEX_ATTR_COUNT ==> r is None,
    {
        if n == 0 {
            Some(VertexAttr::Position)
        } else if n == 1 {
            Some(VertexAttr::Normal)
        } else if n == 2 {
            Some(VertexAttr::Tangent)
        } else if n == 3 {
            Some(VertexAttr::QTangent)
        } else if n == 4 {
            Some(VertexAttr::Texcoord0)
        } else if n == 5 {
            Some(VertexAttr::Texcoord1)
        } else if n == 6 {
            Some(VertexAttr::Color)
        } else if n == 7 {
            Some(VertexAttr::Joints)
        } else if n == 8 {
            Some(VertexAttr::Weights)
        } else if n == 9 {
            Some(VertexAttr::Velocity)
        } else {
            None
        }
    }
}

/// Type of the indices in an index buffer.
#[derive(Clone, Copy, Debug, Default, PartialEq, Eq, Structural, Hash)]
pub enum IndexType {
    #[default]
    U16,
    U32,
}

pub open spec fn index_size(ty: IndexType) -> nat {
    match ty {
        IndexType::U16 => 2,
        IndexType::U32 => 4,
    }
}

impl IndexType {
    /// Bytes per index.
    pub fn size(self) -> (r: usize)
        ensures
            r == index_size(self),
    {
        match self {
            IndexType::U16 => 2,
            IndexType::U32 => 4,
        }
    }

    /// The Vulkan index type.
    pub fn vk_index_type(self) -> (r: u32)
        ensures
            r == match self {
                IndexType::U16 => 0u32,
                IndexType::U32 => 1u32,
            },
    {
        match self {
            IndexType::U16 => 0,
            IndexType::U32 => 1,
        }
    }
}

#[derive(Clone, Copy, Debug, Default, PartialEq, Eq, Structural, Hash)]
pub enum PrimitiveTopology {
    PointList,
    LineList,
    LineStrip,
    #[default]
    TriangleList,
    TriangleStrip,
    TriangleFan,
    LineListWithAdjacency,
    LineStripWithAdjacency,
    TriangleListWithAdjacency,
    TriangleStripWithAdjacency,
    PatchList,
}

/// A limited choice of schemes for storing vertex attributes in memory.
#[derive(Clone, Copy, Debug, Default, PartialEq, Eq, Structural, Hash)]
pub enum VertexPacking {
    /// Each vertex attribute is stored in a separate buffer.
    #[default]
    Unpacked,
}

/// Formats of the attributes a mesh provides, by attribute number.
#[derive(Clone, Copy, Debug)]
pub struct VertexLayout {
    pub topology: PrimitiveTopology,
    pub packing: VertexPacking,
    pub attrs: [Option<Format>; 10],
}

/// An attribute that a vertex shader reads at `location`.
#[derive(Clone, Copy, Debug, PartialEq, Eq, Structural, Hash)]
pub struct VertexInputAttr {
    pub location: u32,
    pub format: Format,
}

/// Layout of the vertex input of a pipeline.
#[derive(Clone, Copy, Debug)]
pub struct VertexInputLayout {
    pub topology: PrimitiveTopology,
    pub packing: VertexPacking,
    pub attrs: [Option<VertexInputAttr>; 10],
}

/// The shader inputs can be matched to the layout: each is a vertex
/// attribute number, the layout provides it, and no two coincide.
pub open spec fn inputs_match(layout: VertexLayout, inputs: Seq<u32>) -> bool {
    &&& forall|i: int| 0 <= i < inputs.len() ==> (#[trigger] inputs[i]) < VERTEX_ATTR_COUNT
    &&& forall|i: int| 0 <= i < inputs.len() ==> (#[trigger] layout.attrs@[inputs[i] as int]) is Some
    &&& forall|i: int, j: int| 0 <= i < j < inputs.len() ==> #[trigger] inputs[i] != #[trigger] inputs[j]
}

/// Entries of `attrs` that are present, in attribute order.
pub open spec fn present<T>(attrs: Seq<Option<T>>, n: int) -> Seq<T>
    decreases n,
{
    if n <= 0 {
        Seq::empty()
    } else {
        let prev = present(attrs, n - 1);
        match attrs[n - 1] {
            Some(x) => prev.push(x),
            None => prev,
        }
    }
}

impl VertexInputLayout {
    /// The input layout that a vertex shader reading `inputs` (its input
    /// locations) gets from a mesh with layout `layout`.
    pub fn new(layout: &VertexLayout, inputs: &[u32]) -> (r: Self)
        requires
            inputs_match(*layout, inputs@),
        ensures
            r.topology == layout.topology,
            r.packing == layout.packing,
            forall|k: int|
                0 <= k < VERTEX_ATTR_COUNT ==> (#[trigger] r.attrs@[k] is Some <==> exists|i: int|
                    0 <= i < inputs@.len() && inputs@[i] == k),
            forall|i: int|
                0 <= i < inputs@.len() ==> #[trigger] r.attrs@[inputs@[i] as int] == Some(
                    VertexInputAttr { location: inputs@[i], format: layout.attrs@[inputs@[i] as int]->0 },
                ),
    {
        let mut attrs: [Option<VertexInputAttr>; 10] = [None; 10];
        let mut k: usize = 0;
        while k < inputs.len()
            invariant
                0 <= k <= inputs@.len(),
                inputs_match(*layout, inputs@),
                forall|a: int|
                    0 <= a < VERTEX_ATTR_COUNT ==> (#[trigger] attrs@[a] is Some <==> exists|i: int|
                        0 <= i < k && inputs@[i] == a),
                forall|i: int|
                    0 <= i < k ==> #[trigger] attrs@[inputs@[i] as int] == Some(
                        VertexInputAttr { location: inputs@[i], format: layout.attrs@[inputs@[i] as int]->0 },
                    ),
            decreases inputs@.len() - k,
        {
            let location = inputs[k];
            let name = location as usize;
            proof {
                assert(inputs@[k as int] < VERTEX_ATTR_COUNT);
                assert(layout.attrs@[inputs@[k as int] as int] is Some);
                assert forall|i: int| 0 <= i < k implies inputs@[i] != location by {
                    assert(inputs@[i] != inputs@[k as int]);
                }
            }
            let format = match layout.attrs[name] {
                Some(f) => f,
                None => {
                    proof {
                        assert(false);
                    }
                    Format::R8
                },
            };
            let ghost before = attrs@;
            attrs[name] = Some(VertexInputAttr { location, format });
            proof {
                assert(attrs@ =~= before.update(name as int, Some(VertexInputAttr { location, format })));
                assert forall|a: int|
                    0 <= a < VERTEX_ATTR_COUNT implies (#[trigger] attrs@[a] is Some <==> exists|i: int|
                        0 <= i < k + 1 && inputs@[i] == a) by {
                    if a == name {
                        assert(inputs@[k as int] == a);
                    } else {
                        if attrs@[a] is Some {
                            let i = choose|i: int| 0 <= i < k && inputs@[i] == a;
                            assert(0 <= i < k + 1 && inputs@[i] == a);
                        }
                    }
                }
            }
            k = k + 1;
        }
        VertexInputLayout { topology: layout.topology, packing: layout.packing, attrs }
    }

    /// Vertex buffer bindings: one buffer per present attribute, in
    /// attribute order, with the attribute's size as stride.
    pub fn vk_bindings(&self) -> (r: Vec<VertexBindingDescription>)
        ensures
            r@.len() == present(self.attrs@, VERTEX_ATTR_COUNT as int).len(),
            forall|i: int|
                0 <= i < r@.len() ==> #[trigger] r@[i] == (VertexBindingDescription {
                    binding: i as u32,
                    stride: format_size(present(self.attrs@, VERTEX_ATTR_COUNT as int)[i].format) as u32,
                }),
    {
        let mut r: Vec<VertexBindingDescription> = Vec::new();
        let mut k: usize = 0;
        while k < VERTEX_ATTR_COUNT
            invariant
                0 <= k <= VERTEX_ATTR_COUNT,
                r@.len() == present(self.attrs@, k as int).len(),
                r@.len() <= k,
                forall|i: int|
                    0 <= i < r@.len() ==> #[trigger] r@[i] == (VertexBindingDescription {
                        binding: i as u32,
                        stride: format_size(present(self.attrs@, k as int)[i].format) as u32,
                    }),
            decreases VERTEX_ATTR_COUNT - k,
        {
            match self.attrs[k] {
                Some(attr) => {
                    let i = r.len();
                    r.push(VertexBindingDescription { binding: i as u32, stride: attr.format.size() as u32 });
                },
                None => {},
            }
            k = k + 1;
        }
        r
    }

    /// Vertex attribute descriptions: each present attribute reads its
    /// own binding at offset zero.
    pub fn vk_attrs(&self) -> (r: Vec<VertexAttributeDescription>)
        ensures
            r@.len() == present(self.attrs@, VERTEX_ATTR_COUNT as int).len(),
            forall|i: int|
                0 <= i < r@.len() ==> #[trigger] r@[i] == (VertexAttributeDescription {
                    location: present(self.attrs@, VERTEX_ATTR_COUNT as int)[i].location,
                    binding: i as u32,
                    format: present(self.attrs@, VERTEX_ATTR_COUNT as int)[i].format,
                    offset: 0,
                }),
    {
        let mut r: Vec<VertexAttributeDescription> = Vec::new();
        let mut k: usize = 0;
        while k < VERTEX_ATTR_COUNT
            invariant
                0 <= k <= VERTEX_ATTR_COUNT,
                r@.len() == present(self.attrs@, k as int).len(),
                r@.len() <= k,
                forall|i: int|
                    0 <= i < r@.len() ==> #[trigger] r@[i] == (VertexAttributeDescription {
                        location: present(self.attrs@, k as int)[i].location,
                        binding: i as u32,
                        format: present(self.attrs@, k as int)[i].format,
                        offset: 0,
                    }),
            decreases VERTEX_ATTR_COUNT - k,
        {
            match self.attrs[k] {
                Some(attr) => {
                    let i = r.len();
                    r.push(
                        VertexAttributeDescription {
                            location: attr.location,
                            binding: i as u32,
                            format: attr.format,
                            offset: 0,
                        },
                    );
                },
                None => {},
            }
            k = k + 1;
        }
        r
    }
}

#[derive(Clone, Copy, Debug, PartialEq, Eq, Structural)]
pub struct VertexBindingDescription {
    pub binding: u32,
    pub stride: u32,
}

#[derive(Clone, Copy, Debug, PartialEq, Eq, Structural)]
pub struct VertexAttributeDescription {
    pub location: u32,
    pub binding: u32,
    pub format: Format,
    pub offset: u32,
}

} // verus!
