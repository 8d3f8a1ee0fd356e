use std::sync::Arc;

use vstd::prelude::*;

use crate::descriptor::{DescriptorSet, DescriptorSetLayout};
use crate::pipeline::{CullMode, ShaderStageMap};
use crate::shader::{stage_index, ShaderSpec, ShaderStage};
use crate::vertex::VertexInputLayout;

verus! {

/// How a debug material displays a surface.
#[derive(Clone, Copy, Debug, PartialEq, Eq, Structural, Hash)]
pub enum DebugDisplay {
    Checker,
    Depth,
    Normal,
}

/// An identifier of a particular material rendering technique.
#[derive(Clone, Copy, Debug, PartialEq, Eq, Structural, Hash)]
pub enum MaterialProgram {
    Debug(DebugDisplay),
}

/// The image slots of a material.
#[derive(Clone, Copy, Debug, PartialEq, Eq, Structural, Hash)]
pub enum MaterialImage {
    Albedo,
    Normal,
    MetallicRoughness,
}

/// Number of material image slots.
pub const MATERIAL_IMAGE_COUNT: usize = 3;

pub open spec fn material_image_index(image: MaterialImage) -> int {
    match image {
        MaterialImage::Albedo => 0,
        MaterialImage::Normal => 1,
        MaterialImage::MetallicRoughness => 2,
    }
}

pub open spec fn material_image_at(i: int) -> MaterialImage {
    if i == 0 {
        MaterialImage::Albedo
    } else if i == 1 {
        MaterialImage::Normal
    } else {
        MaterialImage::MetallicRoughness
    }
}

impl MaterialImage {
    /// The slot's number.
    pub fn index(self) -> (r: usize)
        ensures
            r == material_image_index(self),
            r < MATERIAL_IMAGE_COUNT,
            material_image_at(r as int) == self,
    {
        match self {
            MaterialImage::Albedo => 0,
            MaterialImage::Normal => 1,
            MaterialImage::MetallicRoughness => 2,
        }
    }

    /// The slot with number `i`.
    pub fn from_index(i: usize) -> (r: MaterialImage)
        requires
            i < MATERIAL_IMAGE_COUNT,
        ensures
            r == material_image_at(i as int),
            material_image_index(r) == i,
    {
        if i == 0 {
            MaterialImage::Albedo
        } else if i == 1 {
            MaterialImage::Normal
        } else {
            MaterialImage::MetallicRoughness
        }
    }

    /// Every slot, in order.
    pub fn values() -> (r: Vec<MaterialImage>)
        ensures
            r@.len() == MATERIAL_IMAGE_COUNT,
            forall|i: int| 0 <= i < MATERIAL_IMAGE_COUNT ==> #[trigger] r@[i] == material_image_at(i),
    {
        let mut r: Vec<MaterialImage> = Vec::new();
        let mut i: usize = 0;
        while i < MATERIAL_IMAGE_COUNT
            invariant
                i <= MATERIAL_IMAGE_COUNT,
                r@.len() == i,
                forall|j: int| 0 <= j < i ==> #[trigger] r@[j] == material_image_at(j),
            decreases MATERIAL_IMAGE_COUNT - i,
        {
            r.push(MaterialImage::from_index(i));
            i = i + 1;
        }
        r
    }
}

/// An image bound to a material slot, with the sampler state to read it
/// through. `I` is the image definition and `S` the sampler description.
#[derive(Clone, Debug)]
pub struct ImageBindingDesc<I, S> {
    pub image: Arc<I>,
    pub sampler_state: S,
}

/// The image each slot is drawn from: the image of its binding, or
/// `default` for a slot without one.
pub fn slot_images<I, S>(bindings: &[Option<ImageBindingDesc<I, S>>], default: &Arc<I>) -> (r: Vec<Arc<I>>)
    ensures
        r@.len() == bindings@.len(),
        forall|i: int|
            0 <= i < bindings@.len() ==> *(#[trigger] r@[i]) == match bindings@[i] {
                Some(b) => *b.image,
                None => **default,
            },
{
    let mut r: Vec<Arc<I>> = Vec::new();
    let mut i: usize = 0;
    while i < bindings.len()
        invariant
            i <= bindings@.len(),
            r@.len() == i,
            forall|j: int|
                0 <= j < i ==> *(#[trigger] r@[j]) == match bindings@[j] {
                    Some(b) => *b.image,
                    None => **default,
                },
        decreases bindings@.len() - i,
    {
        let image = match &bindings[i] {
            Some(b) => Arc::clone(&b.image),
            None => Arc::clone(default),
        };
        r.push(image);
        i = i + 1;
    }
    r
}

/// The sampler state each slot is read through: that of its binding, or
/// `default` for a slot without one, so that every slot has an image and
/// sampler pair.
pub fn slot_samplers<I, S: Copy>(bindings: &[Option<ImageBindingDesc<I, S>>], default: S) -> (r: Vec<S>)
    ensures
        r@.len() == bindings@.len(),
        forall|i: int|
            0 <= i < bindings@.len() ==> #[trigger] r@[i] == match bindings@[i] {
                Some(b) => b.sampler_state,
                None => default,
            },
{
    let mut r: Vec<S> = Vec::new();
    let mut i: usize = 0;
    while i < bindings.len()
        invariant
            i <= bindings@.len(),
            r@.len() == i,
            forall|j: int|
                0 <= j < i ==> #[trigger] r@[j] == match bindings@[j] {
                    Some(b) => b.sampler_state,
                    None => default,
                },
        decreases bindings@.len() - i,
    {
        let sampler = match &bindings[i] {
            Some(b) => b.sampler_state,
            None => default,
        };
        r.push(sampler);
        i = i + 1;
    }
    r
}

/// A material as it is rendered: its technique, the image view bound to
/// each image slot (`V` is the view type), and its descriptor set once
/// one has been made.
#[derive(Debug)]
pub struct Material<V> {
    pub program: MaterialProgram,
    pub images: Vec<Option<Arc<V>>>,
    pub desc: Option<DescriptorSet>,
}

/// How to render a material: vertex input, shaders, the image bound to
/// each image slot (slots without a binding get a default image and
/// sampler), and face culling.
#[derive(Clone, Debug)]
pub struct MaterialDesc<I, S> {
    pub vertex_layout: VertexInputLayout,
    pub stages: ShaderStageMap,
    /// Bindings by image slot number.
    pub image_bindings: Vec<Option<ImageBindingDesc<I, S>>>,
    pub cull_mode: CullMode,
}

impl<I, S> MaterialDesc<I, S> {
    /// The vertex shader, if there is one.
    pub fn vertex_stage(&self) -> (r: Option<&Arc<ShaderSpec>>)
        requires
            self.stages.wf(),
        ensures
            r matches Some(s) ==> self.stages.view()[stage_index(ShaderStage::Vertex)] == Some(*s),
            r is None <==> self.stages.view()[stage_index(ShaderStage::Vertex)] is None,
    {
        self.stages.get(ShaderStage::Vertex)
    }
}

/// A material description with the descriptor set layout made for it.
#[derive(Debug)]
pub struct MaterialDef<I, S> {
    desc: Arc<MaterialDesc<I, S>>,
    set_layout: Arc<DescriptorSetLayout>,
}

impl<I, S> MaterialDef<I, S> {
    pub closed spec fn desc_spec(&self) -> MaterialDesc<I, S> {
        *self.desc
    }

    pub closed spec fn set_layout_spec(&self) -> DescriptorSetLayout {
        *self.set_layout
    }

    pub fn new(desc: Arc<MaterialDesc<I, S>>, set_layout: Arc<DescriptorSetLayout>) -> (r: Self)
        ensures
            r.desc_spec() == *desc,
            r.set_layout_spec() == *set_layout,
    {
        MaterialDef { desc, set_layout }
    }

    pub fn desc(&self) -> (r: &MaterialDesc<I, S>)
        ensures
            *r == self.desc_spec(),
    {
        &self.desc
    }

    pub fn vertex_layout(&self) -> (r: &VertexInputLayout)
        ensures
            *r == self.desc_spec().vertex_layout,
    {
        &self.desc.vertex_layout
    }

    pub fn image_bindings(&self) -> (r: &[Option<ImageBindingDesc<I, S>>])
        ensures
            r@ == self.desc_spec().image_bindings@,
    {
        self.desc.image_bindings.as_slice()
    }

    pub fn stages(&self) -> (r: &ShaderStageMap)
        ensures
            *r == self.desc_spec().stages,
    {
        &self.desc.stages
    }

    pub fn cull_mode(&self) -> (r: CullMode)
        ensures
            r == self.desc_spec().cull_mode,
    {
        self.desc.cull_mode
    }

    pub fn set_layout(&self) -> (r: &Arc<DescriptorSetLayout>)
        ensures
            **r == self.set_layout_spec(),
    {
        &self.set_layout
    }
}

} // verus!
