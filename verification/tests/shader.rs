use std::sync::Arc;

use gfx::format::Format;
use gfx::descriptor::DescriptorSetLayout;
use gfx::material::{
    slot_images, slot_samplers, DebugDisplay, ImageBindingDesc, MaterialDef, MaterialDesc, MaterialImage, MaterialProgram,
};
use gfx::pipeline::{set_layouts_match, validate_graphics_pipeline, validate_graphics_stages, CullMode, ShaderStageMap};
use gfx::shader::{
    build_interface, interface_locations, Shader, ShaderSpec, ShaderStage, SpecializationMapEntry, NO_LOCATION,
};
use gfx::spirv::{interface_locations_of, is_reflectable_spirv, STORAGE_INPUT, STORAGE_OUTPUT};
use gfx::vertex::{PrimitiveTopology, VertexInputAttr, VertexInputLayout, VertexPacking};

const MAGIC: u32 = 0x0723_0203;

fn op(word_count: u32, opcode: u32) -> u32 {
    (word_count << 16) | opcode
}

/// A minimal SPIR-V module with one entry point "main" of execution model
/// `model` and no interface variables, optionally recording `source` as
/// its source file.
fn module(model: u32, source: bool) -> Vec<u32> {
    let (main, void, fnty, label, file) = (1, 2, 3, 4, 5);
    let mut w = vec![MAGIC, 0x0001_0000, 0, 6, 0];
    w.extend([op(2, 17), 1]); // OpCapability Shader
    w.extend([op(3, 14), 0, 1]); // OpMemoryModel Logical GLSL450
    w.extend([op(5, 15), model, main, 0x6E69_616D, 0]); // OpEntryPoint model %main "main"
    if model == 4 {
        w.extend([op(3, 16), main, 7]); // OpExecutionMode OriginUpperLeft
    }
    if source {
        // OpString "test.vert"; OpSource GLSL 450 file
        w.extend([op(5, 7), file, 0x7473_6574, 0x7265_762E, 0x0000_0074]);
        w.extend([op(4, 3), 2, 450, file]);
    }
    w.extend([op(2, 19), void]);
    w.extend([op(3, 33), fnty, void]);
    w.extend([op(5, 54), void, main, 0, fnty]);
    w.extend([op(2, 248), label]);
    w.extend([op(1, 253)]);
    w.extend([op(1, 56)]);
    w
}

/// The same module with one input variable at location 0 listed by its
/// entry point.
fn module_with_input(model: u32) -> Vec<u32> {
    let (main, void, fnty, float, v4, ptr_in, label, var) = (1, 2, 3, 4, 5, 6, 7, 8);
    let mut w = vec![MAGIC, 0x0001_0000, 0, 9, 0];
    w.extend([op(2, 17), 1]);
    w.extend([op(3, 14), 0, 1]);
    w.extend([op(6, 15), model, main, 0x6E69_616D, 0, var]);
    w.extend([op(4, 71), var, 30, 0]); // OpDecorate Location 0
    w.extend([op(2, 19), void]);
    w.extend([op(3, 33), fnty, void]);
    w.extend([op(3, 22), float, 32]);
    w.extend([op(4, 23), v4, float, 4]);
    w.extend([op(4, 32), ptr_in, 1, v4]);
    w.extend([op(4, 59), ptr_in, var, 1]);
    w.extend([op(5, 54), void, main, 0, fnty]);
    w.extend([op(2, 248), label]);
    w.extend([op(1, 253)]);
    w.extend([op(1, 56)]);
    w
}

#[test]
fn stages_from_execution_models() {
    assert_eq!(ShaderStage::from_execution_model(0), Some(ShaderStage::Vertex));
    assert_eq!(ShaderStage::from_execution_model(1), Some(ShaderStage::TessControl));
    assert_eq!(ShaderStage::from_execution_model(2), Some(ShaderStage::TessEval));
    assert_eq!(ShaderStage::from_execution_model(3), Some(ShaderStage::Geometry));
    assert_eq!(ShaderStage::from_execution_model(4), Some(ShaderStage::Fragment));
    assert_eq!(ShaderStage::from_execution_model(5), Some(ShaderStage::Compute));
    assert_eq!(ShaderStage::from_execution_model(6), None);
    assert_eq!(ShaderStage::from_execution_model(5313), None);
    assert_eq!(ShaderStage::Vertex.vk_flags(), 0x1);
    assert_eq!(ShaderStage::Fragment.vk_flags(), 0x10);
    assert_eq!(ShaderStage::Compute.vk_flags(), 0x20);
    for i in 0..6 {
        assert_eq!(ShaderStage::from_index(i).index(), i);
    }
}

#[test]
fn interface_locations_sorted_without_builtins() {
    assert_eq!(interface_locations(&vec![3, NO_LOCATION, 1, 2, 1]), vec![1, 1, 2, 3]);
    assert_eq!(interface_locations(&vec![NO_LOCATION]), Vec::<u32>::new());
    assert_eq!(interface_locations(&vec![]), Vec::<u32>::new());
    assert_eq!(interface_locations(&vec![0, 5, 4]), vec![0, 4, 5]);
}

#[test]
fn build_interface_from_reflection_results() {
    let i = build_interface(4, Some(vec![2, 0]), Some(vec![NO_LOCATION, 0])).unwrap();
    assert_eq!(i.stage, ShaderStage::Fragment);
    assert_eq!(i.inputs, vec![0, 2]);
    assert_eq!(i.outputs, vec![0]);
    // Kernels have no pipeline stage.
    assert!(build_interface(6, Some(vec![]), Some(vec![])).is_none());
    // A refused variable list.
    assert!(build_interface(0, None, Some(vec![])).is_none());
    assert!(build_interface(0, Some(vec![]), None).is_none());
}

/// Packs a string literal into words, with its terminating zero.
fn literal(text: &str) -> Vec<u32> {
    let mut bytes = text.as_bytes().to_vec();
    bytes.push(0);
    while bytes.len() % 4 != 0 {
        bytes.push(0);
    }
    bytes.chunks(4).map(|c| u32::from_le_bytes([c[0], c[1], c[2], c[3]])).collect()
}

/// An instruction of opcode `opcode`: its operands, then an optional
/// string literal, then more operands.
fn inst(opcode: u32, before: &[u32], text: Option<&str>, after: &[u32]) -> Vec<u32> {
    let mut body: Vec<u32> = before.to_vec();
    if let Some(t) = text {
        body.extend(literal(t));
    }
    body.extend_from_slice(after);
    let mut w = vec![op(body.len() as u32 + 1, opcode)];
    w.extend(body);
    w
}

/// A vertex shader laid out as a GLSL compiler emits it: inputs at
/// locations 0 and 2, an output at location 1, and the built-in
/// `gl_PerVertex` block; with `uniform`, also a uniform block at set 0,
/// binding 0.
fn vertex_shader(uniform: bool) -> Vec<u32> {
    let (ext, main, void, fnty, float, v4, v2, per_vertex, ptr_out_pv, gl_out) = (1, 2, 3, 4, 5, 6, 7, 8, 9, 10);
    let (int, int0, ptr_in_v4, pos, ptr_in_v2, uv, ptr_out_v2, out_uv, ptr_out_v4) = (11, 12, 13, 14, 15, 16, 17, 18, 19);
    let (label, t1, ac, t2, ptr_uniform, ubo, ubo_struct) = (20, 21, 22, 23, 24, 25, 26);
    let mut w = vec![MAGIC, 0x0001_0000, 0x0008_000A, 27, 0];
    w.extend(inst(17, &[1], None, &[])); // OpCapability Shader
    w.extend(inst(11, &[ext], Some("GLSL.std.450"), &[])); // OpExtInstImport
    w.extend(inst(14, &[0, 1], None, &[])); // OpMemoryModel Logical GLSL450
    w.extend(inst(15, &[0, main], Some("main"), &[pos, uv, out_uv, gl_out])); // OpEntryPoint
    w.extend(inst(3, &[2, 450], None, &[])); // OpSource GLSL 450
    w.extend(inst(5, &[main], Some("main"), &[])); // OpName
    w.extend(inst(5, &[per_vertex], Some("gl_PerVertex"), &[]));
    w.extend(inst(6, &[per_vertex, 0], Some("gl_Position"), &[])); // OpMemberName
    w.extend(inst(5, &[pos], Some("in_pos"), &[]));
    w.extend(inst(71, &[pos, 30, 0], None, &[])); // OpDecorate Location 0
    w.extend(inst(71, &[uv, 30, 2], None, &[]));
    w.extend(inst(71, &[out_uv, 30, 1], None, &[]));
    w.extend(inst(72, &[per_vertex, 0, 11, 0], None, &[])); // OpMemberDecorate BuiltIn Position
    w.extend(inst(71, &[per_vertex, 2], None, &[])); // OpDecorate Block
    if uniform {
        w.extend(inst(5, &[ubo], Some("matrices"), &[]));
        w.extend(inst(72, &[ubo_struct, 0, 35, 0], None, &[])); // OpMemberDecorate Offset 0
        w.extend(inst(71, &[ubo_struct, 2], None, &[])); // OpDecorate Block
        w.extend(inst(71, &[ubo, 34, 0], None, &[])); // OpDecorate DescriptorSet 0
        w.extend(inst(71, &[ubo, 33, 0], None, &[])); // OpDecorate Binding 0
    }
    w.extend(inst(19, &[void], None, &[])); // OpTypeVoid
    w.extend(inst(33, &[fnty, void], None, &[])); // OpTypeFunction
    w.extend(inst(22, &[float, 32], None, &[])); // OpTypeFloat
    w.extend(inst(23, &[v4, float, 4], None, &[])); // OpTypeVector
    w.extend(inst(23, &[v2, float, 2], None, &[]));
    w.extend(inst(30, &[per_vertex, v4], None, &[])); // OpTypeStruct
    w.extend(inst(32, &[ptr_out_pv, 3, per_vertex], None, &[])); // OpTypePointer Output
    w.extend(inst(59, &[ptr_out_pv, gl_out, 3], None, &[])); // OpVariable Output
    w.extend(inst(21, &[int, 32, 1], None, &[])); // OpTypeInt
    w.extend(inst(43, &[int, int0, 0], None, &[])); // OpConstant
    w.extend(inst(32, &[ptr_in_v4, 1, v4], None, &[]));
    w.extend(inst(59, &[ptr_in_v4, pos, 1], None, &[]));
    w.extend(inst(32, &[ptr_in_v2, 1, v2], None, &[]));
    w.extend(inst(59, &[ptr_in_v2, uv, 1], None, &[]));
    w.extend(inst(32, &[ptr_out_v2, 3, v2], None, &[]));
    w.extend(inst(59, &[ptr_out_v2, out_uv, 3], None, &[]));
    w.extend(inst(32, &[ptr_out_v4, 3, v4], None, &[]));
    if uniform {
        w.extend(inst(30, &[ubo_struct, v4], None, &[]));
        w.extend(inst(32, &[ptr_uniform, 2, ubo_struct], None, &[]));
        w.extend(inst(59, &[ptr_uniform, ubo, 2], None, &[])); // OpVariable Uniform
    }
    w.extend(inst(54, &[void, main, 0, fnty], None, &[])); // OpFunction
    w.extend(inst(248, &[label], None, &[])); // OpLabel
    w.extend(inst(61, &[v4, t1, pos], None, &[])); // OpLoad
    w.extend(inst(65, &[ptr_out_v4, ac, gl_out, int0], None, &[])); // OpAccessChain
    w.extend(inst(62, &[ac, t1], None, &[])); // OpStore
    w.extend(inst(61, &[v2, t2, uv], None, &[]));
    w.extend(inst(62, &[out_uv, t2], None, &[]));
    w.extend(inst(253, &[], None, &[])); // OpReturn
    w.extend(inst(56, &[], None, &[])); // OpFunctionEnd
    w
}

#[test]
fn shader_reflects_interface_variables() {
    let code = vertex_shader(false);
    assert!(is_reflectable_spirv(&code));
    // Raw locations in the entry point's order; the block has none.
    assert_eq!(interface_locations_of(&code, STORAGE_INPUT), vec![0, 2]);
    assert_eq!(interface_locations_of(&code, STORAGE_OUTPUT), vec![1, NO_LOCATION]);
    let shader = Shader::new(code.clone()).unwrap();
    assert_eq!(shader.stage(), ShaderStage::Vertex);
    assert_eq!(shader.inputs(), &[0, 2][..]);
    assert_eq!(shader.outputs(), &[1][..]);
    assert_eq!(shader.code(), code.as_slice());
    assert_eq!(shader.name(), Some(""));

    let one = Shader::new(module_with_input(0)).unwrap();
    assert_eq!(one.inputs(), &[0][..]);
    assert!(one.outputs().is_empty());

    // Descriptor resources do not change the interface.
    let with_block = Shader::new(vertex_shader(true)).unwrap();
    assert_eq!(with_block.stage(), ShaderStage::Vertex);
    assert_eq!(with_block.inputs(), &[0, 2][..]);
    assert_eq!(with_block.outputs(), &[1][..]);
    let textured = Shader::new(textured_fragment_shader()).unwrap();
    assert_eq!(textured.stage(), ShaderStage::Fragment);
    assert_eq!(textured.inputs(), &[1][..]);
    assert_eq!(textured.outputs(), &[0][..]);
}

/// A fragment shader that samples a texture at set 0, binding 1, with
/// the coordinates read at location 1, and writes location 0.
fn textured_fragment_shader() -> Vec<u32> {
    let (main, void, fnty, float, v2, v4, ptr_in, uv, ptr_out, color) = (1, 2, 3, 4, 5, 6, 7, 8, 9, 10);
    let (image, sampled, ptr_tex, tex, label, t, c, coords) = (11, 12, 13, 14, 15, 16, 17, 18);
    let mut w = vec![MAGIC, 0x0001_0000, 0x0008_000A, 19, 0];
    w.extend(inst(17, &[1], None, &[]));
    w.extend(inst(14, &[0, 1], None, &[]));
    w.extend(inst(15, &[4, main], Some("main"), &[uv, color]));
    w.extend(inst(16, &[main, 7], None, &[]));
    w.extend(inst(3, &[2, 450], None, &[]));
    w.extend(inst(5, &[tex], Some("albedo"), &[]));
    w.extend(inst(71, &[uv, 30, 1], None, &[]));
    w.extend(inst(71, &[color, 30, 0], None, &[]));
    w.extend(inst(71, &[tex, 34, 0], None, &[])); // OpDecorate DescriptorSet 0
    w.extend(inst(71, &[tex, 33, 1], None, &[])); // OpDecorate Binding 1
    w.extend(inst(19, &[void], None, &[]));
    w.extend(inst(33, &[fnty, void], None, &[]));
    w.extend(inst(22, &[float, 32], None, &[]));
    w.extend(inst(23, &[v2, float, 2], None, &[]));
    w.extend(inst(23, &[v4, float, 4], None, &[]));
    w.extend(inst(32, &[ptr_in, 1, v2], None, &[]));
    w.extend(inst(59, &[ptr_in, uv, 1], None, &[]));
    w.extend(inst(32, &[ptr_out, 3, v4], None, &[]));
    w.extend(inst(59, &[ptr_out, color, 3], None, &[]));
    w.extend(inst(25, &[image, float, 1, 0, 0, 0, 1, 0], None, &[])); // OpTypeImage 2D sampled
    w.extend(inst(27, &[sampled, image], None, &[])); // OpTypeSampledImage
    w.extend(inst(32, &[ptr_tex, 0, sampled], None, &[])); // OpTypePointer UniformConstant
    w.extend(inst(59, &[ptr_tex, tex, 0], None, &[]));
    w.extend(inst(54, &[void, main, 0, fnty], None, &[]));
    w.extend(inst(248, &[label], None, &[]));
    w.extend(inst(61, &[sampled, t, tex], None, &[])); // OpLoad
    w.extend(inst(61, &[v2, coords, uv], None, &[]));
    w.extend(inst(87, &[v4, c, t, coords], None, &[])); // OpImageSampleImplicitLod
    w.extend(inst(62, &[color, c], None, &[]));
    w.extend(inst(253, &[], None, &[]));
    w.extend(inst(56, &[], None, &[]));
    w
}

#[test]
fn spirv_reflectable_recognition() {
    assert!(is_reflectable_spirv(&module(0, true)));
    assert!(is_reflectable_spirv(&module(4, false)));
    assert!(is_reflectable_spirv(&module_with_input(0)));
    // Descriptor resources: a uniform block and a combined image sampler.
    assert!(is_reflectable_spirv(&vertex_shader(true)));
    assert!(is_reflectable_spirv(&textured_fragment_shader()));
    // A push constant block is not handed to reflection.
    let mut push = vertex_shader(true);
    let p = push.windows(2).position(|x| x[0] == op(4, 32) && x[1] == 24).unwrap();
    push[p + 2] = 9;
    let v = push.windows(2).position(|x| x[0] == op(4, 59) && x[1] == 24).unwrap();
    push[v + 3] = 9;
    assert!(!is_reflectable_spirv(&push));
    // Nor a storage buffer declared with the old block decoration.
    let mut buffer_block = vertex_shader(true);
    let b = buffer_block.windows(3).position(|x| x[0] == op(3, 71) && x[1] == 26 && x[2] == 2).unwrap();
    buffer_block[b + 2] = 3;
    assert!(!is_reflectable_spirv(&buffer_block));
    // Nor a uniform variable of a plain value type.
    let mut plain = vertex_shader(true);
    let u = plain.windows(4).position(|x| x[0] == op(4, 32) && x[1] == 24 && x[2] == 2).unwrap();
    plain[u + 3] = 5;
    assert!(!is_reflectable_spirv(&plain));
    // Not SPIR-V, or cut short.
    assert!(!is_reflectable_spirv(&[]));
    assert!(!is_reflectable_spirv(&[0, 0x0001_0000, 0, 6, 0]));
    let mut cut = module(0, false);
    let keep = cut.len() - 3;
    cut.truncate(keep);
    assert!(!is_reflectable_spirv(&cut));
    // A zero word count.
    let mut zero = module(0, false);
    zero.push(0);
    assert!(!is_reflectable_spirv(&zero));
    // An entry point name without its terminator.
    let mut unterminated = module(0, false);
    unterminated[14] = 0x6E69_616D;
    assert!(!is_reflectable_spirv(&unterminated));
    // A function id the parser cannot order.
    let mut big_id = module(0, false);
    let f = big_id.iter().position(|&w| w == op(5, 54)).unwrap();
    big_id[f + 2] = 0x8000_0001;
    assert!(!is_reflectable_spirv(&big_id));
    // An interface id that names no variable.
    let mut stray = vertex_shader(false);
    let e = stray.iter().position(|&w| w == op(9, 15)).unwrap();
    stray[e + 8] = 99;
    assert!(!is_reflectable_spirv(&stray));
    // A type that refers to a later one.
    let mut forward = vertex_shader(false);
    let v = forward.iter().position(|&w| w == op(4, 23)).unwrap();
    forward[v + 2] = 11;
    assert!(!is_reflectable_spirv(&forward));
    // A member decoration of a member that does not exist.
    let mut member = vertex_shader(false);
    let m = member.iter().position(|&w| w == op(5, 72)).unwrap();
    member[m + 2] = 1;
    assert!(!is_reflectable_spirv(&member));
    // The header alone.
    assert!(is_reflectable_spirv(&[MAGIC, 0x0001_0000, 0, 1, 0]));
}

#[test]
fn shader_reflects_vertex_module() {
    let code = module(0, true);
    let shader = Shader::new(code.clone()).unwrap();
    assert_eq!(shader.stage(), ShaderStage::Vertex);
    assert!(shader.inputs().is_empty());
    assert!(shader.outputs().is_empty());
    assert_eq!(shader.code(), code.as_slice());
    assert_eq!(shader.name(), Some("test.vert"));
}

#[test]
fn shader_reflects_fragment_module() {
    let shader = Shader::new(module(4, false)).unwrap();
    assert_eq!(shader.stage(), ShaderStage::Fragment);
    assert!(shader.inputs().is_empty());
    assert_eq!(shader.name(), Some(""));
}

#[test]
fn shader_refuses_garbage_and_unsupported_models() {
    assert!(Shader::new(vec![0xdead_beef, 1, 2, 3, 4]).is_none());
    assert!(Shader::new(vec![]).is_none());
    // A kernel entry point has no graphics or compute stage here.
    assert!(Shader::new(module(6, false)).is_none());
}

#[test]
fn shader_spec_packs_constants() {
    let shader = Arc::new(Shader::new(module(5, false)).unwrap());
    assert_eq!(shader.stage(), ShaderStage::Compute);
    let mut spec = ShaderSpec::new(Arc::clone(&shader));
    assert!(spec.map_entries().is_empty());
    assert!(spec.data().is_empty());
    spec.set(0, &7u32.to_ne_bytes());
    spec.set(3, &[1u8]);
    spec.set(1, &2.5f32.to_ne_bytes());
    assert_eq!(
        spec.map_entries(),
        &[
            SpecializationMapEntry { constant_id: 0, offset: 0, size: 4 },
            SpecializationMapEntry { constant_id: 3, offset: 4, size: 1 },
            SpecializationMapEntry { constant_id: 1, offset: 5, size: 4 },
        ]
    );
    let mut expected = 7u32.to_ne_bytes().to_vec();
    expected.push(1);
    expected.extend_from_slice(&2.5f32.to_ne_bytes());
    assert_eq!(spec.data(), expected.as_slice());
    assert!(Arc::ptr_eq(spec.shader(), &shader));
}

fn spec_of(code: Vec<u32>) -> Arc<ShaderSpec> {
    Arc::new(ShaderSpec::new(Arc::new(Shader::new(code).unwrap())))
}

fn layout_with(locations: &[u32]) -> VertexInputLayout {
    let mut attrs = [None; 10];
    for &l in locations {
        attrs[l as usize] = Some(VertexInputAttr { location: l, format: Format::RGBA32F });
    }
    VertexInputLayout { topology: PrimitiveTopology::TriangleList, packing: VertexPacking::Unpacked, attrs }
}

/// A fragment shader reading a `vec2` at location `input` and writing
/// its color to location 0.
fn fragment_shader(input: u32) -> Vec<u32> {
    let (main, void, fnty, float, v2, v4, ptr_in, uv, ptr_out, color, label) = (1, 2, 3, 4, 5, 6, 7, 8, 9, 10, 11);
    let mut w = vec![MAGIC, 0x0001_0000, 0, 12, 0];
    w.extend(inst(17, &[1], None, &[]));
    w.extend(inst(14, &[0, 1], None, &[]));
    w.extend(inst(15, &[4, main], Some("main"), &[uv, color]));
    w.extend(inst(16, &[main, 7], None, &[])); // OpExecutionMode OriginUpperLeft
    w.extend(inst(71, &[uv, 30, input], None, &[]));
    w.extend(inst(71, &[color, 30, 0], None, &[]));
    w.extend(inst(19, &[void], None, &[]));
    w.extend(inst(33, &[fnty, void], None, &[]));
    w.extend(inst(22, &[float, 32], None, &[]));
    w.extend(inst(23, &[v2, float, 2], None, &[]));
    w.extend(inst(23, &[v4, float, 4], None, &[]));
    w.extend(inst(32, &[ptr_in, 1, v2], None, &[]));
    w.extend(inst(59, &[ptr_in, uv, 1], None, &[]));
    w.extend(inst(32, &[ptr_out, 3, v4], None, &[]));
    w.extend(inst(59, &[ptr_out, color, 3], None, &[]));
    w.extend(inst(54, &[void, main, 0, fnty], None, &[]));
    w.extend(inst(248, &[label], None, &[]));
    w.extend(inst(253, &[], None, &[]));
    w.extend(inst(56, &[], None, &[]));
    w
}

#[test]
fn graphics_stages_match_interfaces() {
    let vert = spec_of(vertex_shader(false));
    assert_eq!(vert.shader().outputs(), &[1][..]);
    let frag = spec_of(fragment_shader(1));
    assert_eq!(frag.shader().inputs(), &[1][..]);
    assert_eq!(frag.shader().outputs(), &[0][..]);
    let mut stages = ShaderStageMap::new();
    stages.insert(ShaderStage::Vertex, Arc::clone(&vert));
    stages.insert(ShaderStage::Fragment, frag);
    // The vertex layout provides locations 0 and 2, which the vertex
    // shader reads; the fragment shader reads what the vertex shader
    // writes.
    assert!(validate_graphics_stages(&stages, &layout_with(&[0, 2])));
    assert!(!validate_graphics_stages(&stages, &layout_with(&[0])));
    // An input at another location than the vertex shader writes.
    let mut mismatched = ShaderStageMap::new();
    mismatched.insert(ShaderStage::Vertex, vert);
    mismatched.insert(ShaderStage::Fragment, spec_of(fragment_shader(3)));
    assert!(!validate_graphics_stages(&mismatched, &layout_with(&[0, 2])));
}

#[test]
fn graphics_stages_validation() {
    let vert = spec_of(module(0, false));
    let frag = spec_of(module(4, false));
    let layout = layout_with(&[0, 2]);

    let mut stages = ShaderStageMap::new();
    // No vertex shader.
    assert!(!validate_graphics_stages(&stages, &layout));
    assert!(stages.insert(ShaderStage::Vertex, Arc::clone(&vert)).is_none());
    assert!(stages.contains_key(ShaderStage::Vertex));
    assert!(stages.get(ShaderStage::Fragment).is_none());
    assert!(Arc::ptr_eq(stages.get(ShaderStage::Vertex).unwrap(), &vert));
    // A vertex shader alone.
    assert!(validate_graphics_stages(&stages, &layout));
    stages.insert(ShaderStage::Fragment, Arc::clone(&frag));
    assert!(validate_graphics_stages(&stages, &layout));

    // A shader in the wrong slot.
    let mut swapped = ShaderStageMap::new();
    swapped.insert(ShaderStage::Vertex, Arc::clone(&frag));
    assert!(!validate_graphics_stages(&swapped, &layout));
    let mut swapped = stages.clone();
    swapped.insert(ShaderStage::Geometry, Arc::clone(&frag));
    assert!(!validate_graphics_stages(&swapped, &layout));

    // No tessellation.
    let tesc = spec_of(module(1, false));
    let tese = spec_of(module(2, false));
    let mut tess = stages.clone();
    assert!(tess.insert(ShaderStage::TessControl, tesc).is_none());
    assert!(!validate_graphics_stages(&tess, &layout));
    tess.insert(ShaderStage::TessEval, tese);
    assert!(!validate_graphics_stages(&tess, &layout));

    // A geometry stage between them.
    let geom = spec_of(module(3, false));
    let mut with_geom = stages.clone();
    let replaced = with_geom.insert(ShaderStage::Geometry, geom);
    assert!(replaced.is_none());
    assert!(validate_graphics_stages(&with_geom, &layout));

    // The pipeline layout must carry the description's set layouts.
    assert!(validate_graphics_pipeline(&[3, 8], &[3, 8], &with_geom, &layout));
    assert!(!validate_graphics_pipeline(&[3, 9], &[3, 8], &with_geom, &layout));
    assert!(!validate_graphics_pipeline(&[3, 8], &[3, 8], &tess, &layout));
}

#[test]
fn set_layouts_are_compared_position_by_position() {
    assert!(set_layouts_match(&[], &[]));
    assert!(set_layouts_match(&[1, 2], &[1, 2]));
    assert!(!set_layouts_match(&[2, 1], &[1, 2]));
    // As far as both lists go.
    assert!(set_layouts_match(&[1], &[1, 2]));
}

#[test]
fn cull_mode_flags_and_default() {
    assert_eq!(CullMode::default(), CullMode::Back);
    assert_eq!(CullMode::Disabled.vk_flags(), 0);
    assert_eq!(CullMode::Front.vk_flags(), 1);
    assert_eq!(CullMode::Back.vk_flags(), 2);
    assert_eq!(CullMode::FrontAndBack.vk_flags(), 3);
}

#[test]
fn material_images_and_programs() {
    assert_eq!(
        MaterialImage::values(),
        vec![MaterialImage::Albedo, MaterialImage::Normal, MaterialImage::MetallicRoughness]
    );
    for (i, img) in MaterialImage::values().into_iter().enumerate() {
        assert_eq!(img.index(), i);
        assert_eq!(MaterialImage::from_index(i), img);
    }
    let p = MaterialProgram::Debug(DebugDisplay::Depth);
    assert_eq!(p, MaterialProgram::Debug(DebugDisplay::Depth));
    assert_ne!(p, MaterialProgram::Debug(DebugDisplay::Normal));
    let binding = ImageBindingDesc { image: Arc::new(7u32), sampler_state: "linear" };
    assert_eq!(*binding.image, 7);
    assert_eq!(binding.sampler_state, "linear");
}

#[test]
fn material_descriptions() {
    let vert = spec_of(module(0, false));
    let mut stages = ShaderStageMap::new();
    let desc0: MaterialDesc<u32, &str> = MaterialDesc {
        vertex_layout: layout_with(&[0]),
        stages: stages.clone(),
        image_bindings: vec![None, None, None],
        cull_mode: CullMode::default(),
    };
    assert!(desc0.vertex_stage().is_none());
    stages.insert(ShaderStage::Vertex, Arc::clone(&vert));
    let albedo = ImageBindingDesc { image: Arc::new(1u32), sampler_state: "linear" };
    let desc = MaterialDesc {
        vertex_layout: layout_with(&[0]),
        stages,
        image_bindings: vec![Some(albedo), None, None],
        cull_mode: CullMode::Front,
    };
    assert!(Arc::ptr_eq(desc.vertex_stage().unwrap(), &vert));

    let default = Arc::new(0u32);
    let images = slot_images(&desc.image_bindings, &default);
    assert_eq!(images.iter().map(|i| **i).collect::<Vec<_>>(), vec![1, 0, 0]);
    assert!(Arc::ptr_eq(&images[1], &default));
    // Each slot's image comes with a sampler: the binding's, or the default.
    assert_eq!(slot_samplers(&desc.image_bindings, "empty"), vec!["linear", "empty", "empty"]);

    let layout = Arc::new(DescriptorSetLayout::new(0, vec![]));
    let def = MaterialDef::new(Arc::new(desc), Arc::clone(&layout));
    assert_eq!(def.cull_mode(), CullMode::Front);
    assert_eq!(def.image_bindings().len(), 3);
    assert!(def.stages().contains_key(ShaderStage::Vertex));
    assert!(def.vertex_layout().attrs[0].is_some());
    assert!(Arc::ptr_eq(def.set_layout(), &layout));
    assert_eq!(def.desc().cull_mode, CullMode::Front);
}

#[test]
fn unnamed_execution_model_reads_as_vertex() {
    // A model number that SPIR-V does not name is reported as the vertex
    // model; a named one without a pipeline stage is refused.
    assert_eq!(Shader::new(module(7, false)).unwrap().stage(), ShaderStage::Vertex);
    assert!(Shader::new(module(5267, false)).is_none());
}
