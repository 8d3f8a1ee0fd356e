use std::sync::Arc;

use vstd::prelude::*;

use crate::format::sample_count_bits;
use crate::render_pass::SubpassState;
use crate::shader::{stage_at, stage_index, ShaderSpec, ShaderStage, SHADER_STAGE_COUNT};
use crate::vertex::{VertexInputLayout, VERTEX_ATTR_COUNT};

verus! {

/// Which faces the rasterizer discards.
#[derive(Clone, Copy, Debug, PartialEq, Eq, Structural, Hash)]
pub enum CullMode {
    Disabled,
    Front,
    Back,
    FrontAndBack,
}

/// The `VkCullModeFlags` value of a cull mode.
pub open spec fn cull_mode_flags(mode: CullMode) -> u32 {
    match mode {
        CullMode::Disabled => 0,
        CullMode::Front => 1,
        CullMode::Back => 2,
        CullMode::FrontAndBack => 3,
    }
}

impl CullMode {
    /// The mode as `VkCullModeFlags`.
    pub fn vk_flags(self) -> (r: u32)
        ensures
            r == cull_mode_flags(self),
    {
        match self {
            CullMode::Disabled => 0,
            CullMode::Front => 1,
            CullMode::Back => 2,
            CullMode::FrontAndBack => 3,
        }
    }
}

impl Default for CullMode {
    /// Back faces are culled unless asked otherwise.
    fn default() -> (r: Self)
        ensures
            r == CullMode::Back,
    {
        CullMode::Back
    }
}

/// The shaders of a pipeline, at most one per stage.
#[derive(Clone, Debug)]
pub struct ShaderStageMap {
    specs: Vec<Option<Arc<ShaderSpec>>>,
}

impl ShaderStageMap {
    pub closed spec fn wf(&self) -> bool {
        self.specs@.len() == SHADER_STAGE_COUNT
    }

    /// The shaders by stage position.
    pub closed spec fn view(&self) -> Seq<Option<Arc<ShaderSpec>>> {
        self.specs@
    }

    /// No shader for any stage.
    pub fn new() -> (r: Self)
        ensures
            r.wf(),
            forall|i: int| 0 <= i < SHADER_STAGE_COUNT ==> #[trigger] r.view()[i] is None,
    {
        let mut specs: Vec<Option<Arc<ShaderSpec>>> = Vec::new();
        let mut k: usize = 0;
        while k < SHADER_STAGE_COUNT
            invariant
                k <= SHADER_STAGE_COUNT,
                specs@.len() == k,
                forall|i: int| 0 <= i < k ==> #[trigger] specs@[i] is None,
            decreases SHADER_STAGE_COUNT - k,
        {
            specs.push(None);
            k = k + 1;
        }
        ShaderStageMap { specs }
    }

    pub fn get(&self, stage: ShaderStage) -> (r: Option<&Arc<ShaderSpec>>)
        requires
            self.wf(),
        ensures
            r matches Some(s) ==> self.view()[stage_index(stage)] == Some(*s),
            r is None <==> self.view()[stage_index(stage)] is None,
    {
        match &self.specs[stage.index()] {
            Some(s) => Some(s),
            None => None,
        }
    }

    pub fn contains_key(&self, stage: ShaderStage) -> (r: bool)
        requires
            self.wf(),
        ensures
            r == self.view()[stage_index(stage)] is Some,
    {
        self.specs[stage.index()].is_some()
    }

    /// Sets the shader of `stage`, giving back the one it replaces.
    pub fn insert(&mut self, stage: ShaderStage, spec: Arc<ShaderSpec>) -> (r: Option<Arc<ShaderSpec>>)
        requires
            old(self).wf(),
        ensures
            final(self).wf(),
            final(self).view() == old(self).view().update(stage_index(stage), Some(spec)),
            r == old(self).view()[stage_index(stage)],
    {
        let i = stage.index();
        let prev = match &self.specs[i] {
            Some(s) => Some(Arc::clone(s)),
            None => None,
        };
        self.specs.set(i, Some(spec));
        prev
    }
}

pub open spec fn outputs_of(m: Seq<Option<Arc<ShaderSpec>>>, i: int) -> Seq<u32> {
    m[i]->0.shader_spec().outputs_spec()
}

pub open spec fn inputs_of(m: Seq<Option<Arc<ShaderSpec>>>, i: int) -> Seq<u32> {
    m[i]->0.shader_spec().inputs_spec()
}

/// Stage `j` is the next present stage after stage `i`.
pub open spec fn next_present(m: Seq<Option<Arc<ShaderSpec>>>, i: int, j: int) -> bool {
    &&& 0 <= i < j < m.len()
    &&& m[i] is Some
    &&& m[j] is Some
    &&& forall|k: int| i < k < j ==> m[k] is None
}

/// Each present stage reads exactly what the previous present stage writes.
pub open spec fn stages_chained(m: Seq<Option<Arc<ShaderSpec>>>) -> bool {
    forall|i: int, j: int| #[trigger] next_present(m, i, j) ==> outputs_of(m, i) == inputs_of(m, j)
}

/// Attribute slot `k` of the layout is present and reads `location`.
pub open spec fn reads_location(layout: VertexInputLayout, k: int, location: u32) -> bool {
    match layout.attrs@[k] {
        Some(a) => a.location == location,
        None => false,
    }
}

/// Some attribute of the layout reads `location`.
pub open spec fn layout_reads(layout: VertexInputLayout, location: u32) -> bool {
    exists|k: int| 0 <= k < VERTEX_ATTR_COUNT && #[trigger] reads_location(layout, k, location)
}

/// The vertex layout provides every input of the vertex shader.
pub open spec fn vertex_inputs_provided(m: Seq<Option<Arc<ShaderSpec>>>, layout: VertexInputLayout) -> bool {
    forall|n: int| 0 <= n < inputs_of(m, 0).len() ==> #[trigger] layout_reads(layout, inputs_of(m, 0)[n])
}

/// The conditions that graphics pipeline creation places on its shaders:
/// a vertex shader, no tessellation (and control and evaluation shaders
/// only ever together), each shader made for its stage, the stages'
/// interfaces chained, and the vertex layout providing the vertex inputs.
pub open spec fn graphics_stages_valid(m: Seq<Option<Arc<ShaderSpec>>>, layout: VertexInputLayout) -> bool {
    &&& m[0] is Some
    &&& (m[1] is Some <==> m[2] is Some)
    &&& m[1] is None
    &&& stages_chained(m)
    &&& forall|i: int| 0 <= i < SHADER_STAGE_COUNT && #[trigger] m[i] is Some ==> m[i]->0.shader_spec().stage_spec() == stage_at(i)
    &&& vertex_inputs_provided(m, layout)
}

fn same_locations(a: &[u32], b: &[u32]) -> (r: bool)
    ensures
        r == (a@ == b@),
{
    if a.len() != b.len() {
        return false;
    }
    let mut i: usize = 0;
    while i < a.len()
        invariant
            i <= a@.len(),
            a@.len() == b@.len(),
            forall|k: int| 0 <= k < i ==> a@[k] == b@[k],
        decreases a@.len() - i,
    {
        if a[i] != b[i] {
            return false;
        }
        i = i + 1;
    }
    proof {
        assert(a@ =~= b@);
    }
    true
}

fn layout_has_location(layout: &VertexInputLayout, location: u32) -> (r: bool)
    ensures
        r == layout_reads(*layout, location),
{
    let mut k: usize = 0;
    while k < VERTEX_ATTR_COUNT
        invariant
            k <= VERTEX_ATTR_COUNT,
            forall|j: int| 0 <= j < k ==> !#[trigger] reads_location(*layout, j, location),
        decreases VERTEX_ATTR_COUNT - k,
    {
        match layout.attrs[k] {
            Some(a) => {
                if a.location == location {
                    proof {
                        assert(reads_location(*layout, k as int, location));
                    }
                    return true;
                }
            },
            None => {},
        }
        k = k + 1;
    }
    false
}

fn layout_provides(layout: &VertexInputLayout, inputs: &[u32]) -> (r: bool)
    ensures
        r == forall|j: int| 0 <= j < inputs@.len() ==> #[trigger] layout_reads(*layout, inputs@[j]),
{
    let mut n: usize = 0;
    while n < inputs.len()
        invariant
            n <= inputs@.len(),
            forall|j: int| 0 <= j < n ==> #[trigger] layout_reads(*layout, inputs@[j]),
        decreases inputs@.len() - n,
    {
        let loc = inputs[n];
        if !layout_has_location(layout, loc) {
            proof {
                assert(layout_reads(*layout, inputs@[n as int]) == false);
            }
            return false;
        }
        n = n + 1;
    }
    true
}

/// Checks the shaders of a graphics pipeline against each other and
/// against the vertex input layout.
pub fn validate_graphics_stages(stages: &ShaderStageMap, layout: &VertexInputLayout) -> (r: bool)
    requires
        stages.wf(),
    ensures
        r == graphics_stages_valid(stages.view(), *layout),
{
    let ghost m = stages.view();
    let vert = match stages.get(ShaderStage::Vertex) {
        Some(v) => v,
        None => return false,
    };
    if stages.contains_key(ShaderStage::TessControl) != stages.contains_key(ShaderStage::TessEval) {
        return false;
    }
    if stages.contains_key(ShaderStage::TessControl) {
        return false;
    }
    let mut prev: usize = 0;
    let mut i: usize = 0;
    while i < SHADER_STAGE_COUNT
        invariant
            m == stages.view(),
            m.len() == SHADER_STAGE_COUNT,
            i <= SHADER_STAGE_COUNT,
            m[0] is Some,
            prev < SHADER_STAGE_COUNT,
            i > 0 ==> prev < i,
            m[1] is None,
            m[2] is None,
            i > 0 ==> m[prev as int] is Some,
            i > 0 ==> forall|k: int| prev < k < i ==> m[k] is None,
            forall|a: int, b: int| b < i && #[trigger] next_present(m, a, b) ==> outputs_of(m, a) == inputs_of(m, b),
            forall|a: int| 0 <= a < i && #[trigger] m[a] is Some ==> m[a]->0.shader_spec().stage_spec() == stage_at(a),
        decreases SHADER_STAGE_COUNT - i,
    {
        match &stages.specs[i] {
            Some(spec) => {
                let shader = spec.shader();
                if shader.stage() != ShaderStage::from_index(i) {
                    return false;
                }
                if i > 0 {
                    let before = match &stages.specs[prev] {
                        Some(p) => p,
                        None => {
                            proof {
                                assert(false);
                            }
                            return false;
                        },
                    };
                    if !same_locations(before.shader().outputs(), shader.inputs()) {
                        proof {
                            assert(next_present(m, prev as int, i as int));
                        }
                        return false;
                    }
                }
                proof {
                    assert forall|a: int, b: int| b < i + 1 && #[trigger] next_present(m, a, b) implies outputs_of(m, a)
                        == inputs_of(m, b) by {
                        if b == i {
                            if a < prev {
                                assert(m[prev as int] is Some);
                            }
                            if a > prev {
                                assert(m[a] is None);
                            }
                        }
                    }
                }
                prev = i;
            },
            None => {
                proof {
                    assert forall|a: int, b: int| b < i + 1 && #[trigger] next_present(m, a, b) implies outputs_of(m, a)
                        == inputs_of(m, b) by {
                        if b == i {
                            assert(m[b] is Some);
                        }
                    }
                }
            },
        }
        i = i + 1;
    }
    proof {
        assert forall|a: int, b: int| #[trigger] next_present(m, a, b) implies outputs_of(m, a) == inputs_of(m, b) by {
            assert(b < SHADER_STAGE_COUNT);
        }
    }
    let ins = vert.shader().inputs();
    let ok = layout_provides(layout, ins);
    proof {
        assert(ins@ == inputs_of(m, 0));
        if !ok {
            let j = choose|j: int| 0 <= j < ins@.len() && !#[trigger] layout_reads(*layout, ins@[j]);
            assert(!layout_reads(*layout, inputs_of(m, 0)[j]));
        }
    }
    ok
}

/// The set layouts of a pipeline layout agree with those of a pipeline
/// description, each set layout named by its identity, position by
/// position as far as both lists go.
pub open spec fn set_layouts_agree(layout: Seq<u64>, desc: Seq<u64>) -> bool {
    forall|i: int| 0 <= i < layout.len() && i < desc.len() ==> #[trigger] layout[i] == desc[i]
}

/// Checks that a pipeline layout's set layouts are the description's.
pub fn set_layouts_match(layout_sets: &[u64], desc_sets: &[u64]) -> (r: bool)
    ensures
        r == set_layouts_agree(layout_sets@, desc_sets@),
{
    let mut i: usize = 0;
    while i < layout_sets.len() && i < desc_sets.len()
        invariant
            i <= layout_sets@.len(),
            forall|j: int| 0 <= j < i && j < desc_sets@.len() ==> #[trigger] layout_sets@[j] == desc_sets@[j],
        decreases layout_sets@.len() - i,
    {
        if layout_sets[i] != desc_sets[i] {
            return false;
        }
        i = i + 1;
    }
    true
}

/// Checks a graphics pipeline before it is created: the pipeline
/// layout's set layouts are those of the description, and the shader
/// stages fit each other and the vertex input layout.
pub fn validate_graphics_pipeline(
    layout_sets: &[u64],
    desc_sets: &[u64],
    stages: &ShaderStageMap,
    vertex_layout: &VertexInputLayout,
) -> (r: bool)
    requires
        stages.wf(),
    ensures
        r == (set_layouts_agree(layout_sets@, desc_sets@) && graphics_stages_valid(stages.view(), *vertex_layout)),
{
    if !set_layouts_match(layout_sets, desc_sets) {
        return false;
    }
    validate_graphics_stages(stages, vertex_layout)
}

/// `VK_POLYGON_MODE_FILL` and `VK_POLYGON_MODE_LINE`.
pub const POLYGON_MODE_FILL: u32 = 0;
pub const POLYGON_MODE_LINE: u32 = 1;

/// `VK_FRONT_FACE_COUNTER_CLOCKWISE`.
pub const FRONT_FACE_COUNTER_CLOCKWISE: u32 = 0;

/// `VK_DYNAMIC_STATE_VIEWPORT`, `_SCISSOR` and `_DEPTH_BIAS`.
pub const DYNAMIC_STATE_VIEWPORT: u32 = 0;
pub const DYNAMIC_STATE_SCISSOR: u32 = 1;
pub const DYNAMIC_STATE_DEPTH_BIAS: u32 = 3;

/// All four color components: the write mask of the default blend state.
pub const COLOR_WRITE_ALL: u32 = 0xf;

/// The fixed-function choices of a graphics pipeline description.
#[derive(Clone, Copy, Debug, PartialEq, Eq, Structural)]
pub struct RasterDesc {
    pub cull_mode: CullMode,
    pub wireframe: bool,
    pub depth_test: bool,
    pub depth_write: bool,
    pub depth_cmp_op: u32,
    pub depth_bias: bool,
    pub blend: BlendAttachment,
}

/// How the pipeline blends into each color attachment: the Vulkan blend
/// factors and operations by their values, and the components written.
#[derive(Clone, Copy, Debug, PartialEq, Eq, Structural)]
pub struct BlendAttachment {
    pub blend_enable: bool,
    pub src_color_factor: u32,
    pub dst_color_factor: u32,
    pub color_op: u32,
    pub src_alpha_factor: u32,
    pub dst_alpha_factor: u32,
    pub alpha_op: u32,
    pub color_write_mask: u32,
}

/// No blending, and every color component written: the factors and
/// operations are Vulkan's zero values.
pub open spec fn default_blend() -> BlendAttachment {
    BlendAttachment {
        blend_enable: false,
        src_color_factor: 0,
        dst_color_factor: 0,
        color_op: 0,
        src_alpha_factor: 0,
        dst_alpha_factor: 0,
        alpha_op: 0,
        color_write_mask: COLOR_WRITE_ALL,
    }
}

impl RasterDesc {
    /// Back faces culled, filled polygons, no depth test, write or bias,
    /// no blending, and every color component written.
    pub fn new() -> (r: Self)
        ensures
            r == (RasterDesc {
                cull_mode: CullMode::Back,
                wireframe: false,
                depth_test: false,
                depth_write: false,
                depth_cmp_op: 0,
                depth_bias: false,
                blend: default_blend(),
            }),
    {
        RasterDesc {
            cull_mode: CullMode::default(),
            wireframe: false,
            depth_test: false,
            depth_write: false,
            depth_cmp_op: 0,
            depth_bias: false,
            blend: BlendAttachment {
                blend_enable: false,
                src_color_factor: 0,
                dst_color_factor: 0,
                color_op: 0,
                src_alpha_factor: 0,
                dst_alpha_factor: 0,
                alpha_op: 0,
                color_write_mask: COLOR_WRITE_ALL,
            },
        }
    }
}

/// The fixed-function state a graphics pipeline is created with.
#[derive(Clone, Debug)]
pub struct PipelineStateInfo {
    pub viewport_count: u32,
    pub scissor_count: u32,
    pub polygon_mode: u32,
    pub cull_mode: u32,
    pub front_face: u32,
    pub depth_bias_enable: bool,
    pub rasterization_samples: u32,
    pub depth_test_enable: bool,
    pub depth_write_enable: bool,
    pub depth_compare_op: u32,
    /// One blend attachment per color attachment of the subpass, each
    /// this one.
    pub blend_attachment_count: usize,
    pub blend: BlendAttachment,
    pub dynamic_states: Vec<u32>,
}

/// The fixed-function state of a pipeline drawn in `subpass`: one
/// viewport and scissor, both set dynamically with the depth bias;
/// lines where wireframe is asked, else filled polygons; counter-clockwise
/// front faces; the subpass's sample count; and one blend attachment per
/// color attachment of the subpass.
pub fn pipeline_state(desc: &RasterDesc, subpass: &SubpassState) -> (r: PipelineStateInfo)
    ensures
        r.viewport_count == 1,
        r.scissor_count == 1,
        r.polygon_mode == if desc.wireframe {
            POLYGON_MODE_LINE
        } else {
            POLYGON_MODE_FILL
        },
        r.cull_mode == cull_mode_flags(desc.cull_mode),
        r.front_face == FRONT_FACE_COUNTER_CLOCKWISE,
        r.depth_bias_enable == desc.depth_bias,
        r.rasterization_samples == sample_count_bits(subpass.samples),
        r.depth_test_enable == desc.depth_test,
        r.depth_write_enable == desc.depth_write,
        r.depth_compare_op == desc.depth_cmp_op,
        r.blend_attachment_count == subpass.color_attchs@.len(),
        r.blend == desc.blend,
        r.dynamic_states@ == seq![DYNAMIC_STATE_VIEWPORT, DYNAMIC_STATE_SCISSOR, DYNAMIC_STATE_DEPTH_BIAS],
{
    let mut dynamic_states: Vec<u32> = Vec::new();
    dynamic_states.push(DYNAMIC_STATE_VIEWPORT);
    dynamic_states.push(DYNAMIC_STATE_SCISSOR);
    dynamic_states.push(DYNAMIC_STATE_DEPTH_BIAS);
    PipelineStateInfo {
        viewport_count: 1,
        scissor_count: 1,
        polygon_mode: if desc.wireframe {
            POLYGON_MODE_LINE
        } else {
            POLYGON_MODE_FILL
        },
        cull_mode: desc.cull_mode.vk_flags(),
        front_face: FRONT_FACE_COUNTER_CLOCKWISE,
        depth_bias_enable: desc.depth_bias,
        rasterization_samples: subpass.samples.vk_flags(),
        depth_test_enable: desc.depth_test,
        depth_write_enable: desc.depth_write,
        depth_compare_op: desc.depth_cmp_op,
        blend_attachment_count: subpass.color_attchs.len(),
        blend: desc.blend,
        dynamic_states,
    }
}

} // verus!
