use std::sync::Arc;

use gfx::format::{Format, SampleCount};
use gfx::image::{
    num_mip_levels, validate_image_creation, validate_image_view_creation, Extent3D, ImageFlags, ImageInfo,
    ImageLimits, ImageType, ImageViewType, SubresourceRange, VkImageType, COLOR_ATTACHMENT,
    DEPTH_STENCIL_ATTACHMENT, IMAGE_CREATE_CUBE_COMPATIBLE, IMAGE_USAGE_COLOR_ATTACHMENT,
    IMAGE_USAGE_DEPTH_STENCIL_ATTACHMENT, IMAGE_USAGE_SAMPLED, IMAGE_USAGE_STORAGE,
    IMAGE_USAGE_TRANSFER_DST, INPUT_ATTACHMENT, NO_SAMPLE, STORAGE,
};
use gfx::memory::buffer::BufferBinding;
use gfx::mesh::{BufferDef, Lifetime, RenderMeshBuilder};
use gfx::pipeline::{pipeline_state, BlendAttachment, CullMode, RasterDesc, COLOR_WRITE_ALL, POLYGON_MODE_FILL, POLYGON_MODE_LINE};
use gfx::render_pass::{
    clear_values_cover, input_attachment_layout, render_target_flags, subpass_samples, subpass_state, validate_dependencies,
    validate_framebuffer_creation, validate_subpass, Attachment, AttachmentDescription,
    FramebufferAttachment, ImageLayout, LoadOp, RenderPass, SubpassDependency, SubpassDesc,
    ATTACHMENT_UNUSED, SUBPASS_EXTERNAL,
};
use gfx::vertex::{
    IndexType, PrimitiveTopology, VertexAttr, VertexInputLayout, VertexLayout, VertexPacking,
};

fn att(name: Attachment, format: Format, final_layout: ImageLayout) -> AttachmentDescription {
    AttachmentDescription { name, format, final_layout, ..Default::default() }
}

fn test_pass_attachments() -> Vec<AttachmentDescription> {
    vec![
        att(Attachment::Backbuffer, Format::BGRA8_SRGB, ImageLayout::PresentSrc),
        att(Attachment::Hdr, Format::RGBA16F, ImageLayout::ColorAttachmentOptimal),
        AttachmentDescription {
            name: Attachment::DepthStencil,
            format: Format::D32F_S8,
            load_op: LoadOp::Clear,
            final_layout: ImageLayout::ShaderReadOnlyOptimal,
            ..Default::default()
        },
        att(Attachment::Normal, Format::RGBA8, ImageLayout::ColorAttachmentOptimal),
        att(Attachment::Albedo, Format::RGBA8, ImageLayout::ColorAttachmentOptimal),
    ]
}

fn test_pass_subpasses() -> Vec<SubpassDesc> {
    vec![
        // G-buffer pass
        SubpassDesc { color_attchs: vec![3, 4], depth_stencil_attch: Some(2), ..Default::default() },
        // Lighting pass
        SubpassDesc { color_attchs: vec![1], input_attchs: vec![2, 3, 4], ..Default::default() },
        // Tonemapping
        SubpassDesc { color_attchs: vec![0], input_attchs: vec![1], ..Default::default() },
    ]
}

fn dep(src: u32, dst: u32) -> SubpassDependency {
    SubpassDependency {
        src_subpass: src,
        dst_subpass: dst,
        src_stage_mask: 0x400,
        dst_stage_mask: 0x80,
        src_access_mask: 0x100,
        dst_access_mask: 0x10,
        dependency_flags: 0x1,
    }
}

fn test_pass_dependencies() -> Vec<SubpassDependency> {
    vec![dep(SUBPASS_EXTERNAL, 2), dep(0, 1), dep(1, 2)]
}

#[test]
fn deferred_test() {
    let atts = test_pass_attachments();
    let subpasses = test_pass_subpasses();
    let deps = test_pass_dependencies();
    for sp in subpasses.iter() {
        assert!(validate_subpass(&atts, sp));
    }
    assert!(validate_dependencies(subpasses.len(), &deps));
    let pass = RenderPass::new(atts.clone(), subpasses, deps);
    assert_eq!(pass.subpass_count(), 3);
    assert_eq!(pass.attachments().len(), 5);
    assert_eq!(pass.dependencies().len(), 3);
    assert!(!pass.is_input_attachment(0));
    assert!(pass.is_input_attachment(1));
    assert!(pass.is_input_attachment(2));
    assert!(pass.is_input_attachment(4));
    // Each subpass is recorded with its references and layouts.
    let gbuffer = pass.subpass(0);
    assert_eq!(gbuffer.color_attchs.len(), 2);
    assert_eq!(gbuffer.color_attchs[1].attachment, 4);
    assert_eq!(gbuffer.color_attchs[1].layout, ImageLayout::ColorAttachmentOptimal);
    assert_eq!(gbuffer.depth_stencil_attch.unwrap().attachment, 2);
    assert_eq!(gbuffer.depth_stencil_attch.unwrap().layout, ImageLayout::DepthStencilAttachmentOptimal);
    let tonemap = pass.subpass(2);
    assert_eq!(tonemap.color_attchs[0].attachment, 0);
    assert_eq!(tonemap.input_attchs[0].attachment, 1);
    assert_eq!(tonemap.input_attchs[0].layout, ImageLayout::ShaderReadOnlyOptimal);
    assert_eq!(tonemap.depth_stencil_attch, None);
    // Render targets: color or depth by format, input where read as one.
    assert_eq!(render_target_flags(&pass, 1, false).bits, COLOR_ATTACHMENT | INPUT_ATTACHMENT);
    assert_eq!(render_target_flags(&pass, 2, false).bits, DEPTH_STENCIL_ATTACHMENT | INPUT_ATTACHMENT);
    assert_eq!(render_target_flags(&pass, 0, true).bits, NO_SAMPLE | COLOR_ATTACHMENT);
    // Only the depth buffer is cleared on load.
    assert!(clear_values_cover(&atts, 3));
    assert!(!clear_values_cover(&atts, 2));
}

#[test]
fn subpass_state_records_layouts() {
    let atts = test_pass_attachments();
    let lighting = test_pass_subpasses().remove(1);
    assert_eq!(subpass_samples(&atts, &lighting), SampleCount::One);
    let state = subpass_state(&atts, lighting);
    assert_eq!(state.color_attchs.len(), 1);
    assert_eq!(state.color_attchs[0].attachment, 1);
    assert_eq!(state.color_attchs[0].layout, ImageLayout::ColorAttachmentOptimal);
    assert_eq!(state.input_attchs.len(), 3);
    assert_eq!(state.input_attchs[0].layout, ImageLayout::DepthStencilReadOnlyOptimal);
    assert_eq!(state.input_attchs[1].layout, ImageLayout::ShaderReadOnlyOptimal);
    assert_eq!(state.depth_stencil_attch, None);

    let gbuffer = test_pass_subpasses().remove(0);
    let state = subpass_state(&atts, gbuffer);
    assert_eq!(state.depth_stencil_attch.unwrap().attachment, 2);
    assert_eq!(state.depth_stencil_attch.unwrap().layout, ImageLayout::DepthStencilAttachmentOptimal);
}

#[test]
fn subpass_validation_rejects_bad_subpasses() {
    let atts = test_pass_attachments();
    // Attachment used twice.
    let twice = SubpassDesc { color_attchs: vec![3], input_attchs: vec![3], ..Default::default() };
    assert!(!validate_subpass(&atts, &twice));
    // Depth format as color attachment.
    let depth_color = SubpassDesc { color_attchs: vec![2], ..Default::default() };
    assert!(!validate_subpass(&atts, &depth_color));
    // Color format as depth attachment.
    let color_depth = SubpassDesc { depth_stencil_attch: Some(3), ..Default::default() };
    assert!(!validate_subpass(&atts, &color_depth));
    // Out-of-range reference.
    let missing = SubpassDesc { color_attchs: vec![9], ..Default::default() };
    assert!(!validate_subpass(&atts, &missing));
    // Unused references are only allowed among resolve attachments.
    let unused = SubpassDesc { color_attchs: vec![ATTACHMENT_UNUSED], ..Default::default() };
    assert!(!validate_subpass(&atts, &unused));
    // Sample counts must agree.
    let mut msaa = test_pass_attachments();
    msaa[4].samples = SampleCount::Four;
    let mixed = SubpassDesc { color_attchs: vec![3, 4], ..Default::default() };
    assert!(!validate_subpass(&msaa, &mixed));
    assert!(validate_subpass(&atts, &SubpassDesc::default()));
}

#[test]
fn unused_resolve_reference_is_allowed() {
    let atts = vec![AttachmentDescription {
        format: Format::RGBA8,
        samples: SampleCount::Four,
        ..Default::default()
    }];
    let desc = SubpassDesc {
        color_attchs: vec![0],
        resolve_attchs: vec![ATTACHMENT_UNUSED],
        ..Default::default()
    };
    assert!(validate_subpass(&atts, &desc));
    // A used resolve reference must still be single-sampled.
    let mut two = atts.clone();
    two.push(AttachmentDescription { format: Format::RGBA8, samples: SampleCount::Four, ..Default::default() });
    let bad = SubpassDesc { color_attchs: vec![0], resolve_attchs: vec![1], ..Default::default() };
    assert!(!validate_subpass(&two, &bad));
    two[1].samples = SampleCount::One;
    assert!(validate_subpass(&two, &bad));
}

#[test]
fn dependency_validation() {
    assert!(validate_dependencies(2, &[dep(0, 1), dep(SUBPASS_EXTERNAL, 0), dep(1, SUBPASS_EXTERNAL)]));
    assert!(!validate_dependencies(2, &[dep(0, 2)]));
    assert!(!validate_dependencies(1, &[dep(1, 0)]));
    assert!(validate_dependencies(0, &[]));
}

#[test]
fn input_attachment_layouts() {
    assert_eq!(input_attachment_layout(Format::D32F), ImageLayout::DepthStencilReadOnlyOptimal);
    assert_eq!(input_attachment_layout(Format::S8), ImageLayout::DepthStencilReadOnlyOptimal);
    assert_eq!(input_attachment_layout(Format::RGBA8), ImageLayout::ShaderReadOnlyOptimal);
}

fn fb(format: Format, width: u32, height: u32) -> FramebufferAttachment {
    FramebufferAttachment {
        format,
        samples: SampleCount::One,
        width,
        height,
        is_swapchain: false,
        layers: 1,
        mip_levels: 1,
    }
}

#[test]
fn framebuffer_validation() {
    let atts = test_pass_attachments();
    let mut views = vec![
        FramebufferAttachment { is_swapchain: true, layers: 0, mip_levels: 0, ..fb(Format::BGRA8_SRGB, 640, 480) },
        fb(Format::RGBA16F, 640, 480),
        fb(Format::D32F_S8, 640, 480),
        fb(Format::RGBA8, 640, 480),
        fb(Format::RGBA8, 640, 480),
    ];
    assert!(validate_framebuffer_creation(&atts, &views));
    views[3].width = 320;
    assert!(!validate_framebuffer_creation(&atts, &views));
    views[3].width = 640;
    views[1].layers = 2;
    assert!(!validate_framebuffer_creation(&atts, &views));
    views[1].layers = 1;
    views[2].format = Format::D32F;
    assert!(!validate_framebuffer_creation(&atts, &views));
    assert!(!validate_framebuffer_creation(&atts, &views[..4]));
    assert!(!validate_framebuffer_creation(&[], &[]));
}

#[test]
fn format_properties() {
    assert_eq!(Format::RGBA8.size(), 4);
    assert_eq!(Format::RGB32F.size(), 12);
    assert_eq!(Format::D32F_S8.size(), 5);
    assert_eq!(Format::BGRA8_SRGB.vk_format(), 50);
    assert_eq!(Format::RGBA16F.vk_format(), 97);
    assert_eq!(Format::D32F_S8.vk_format(), 130);
    assert!(Format::D16.is_depth_stencil());
    assert!(Format::S8.is_depth_stencil());
    assert!(!Format::RGBA32F.is_depth_stencil());
    assert_eq!(Format::RGBA8.aspects(), 0x1);
    assert_eq!(Format::D16_S8.aspects(), 0x6);
    assert_eq!(SampleCount::Sixteen.vk_flags(), 0x10);
    assert_eq!(SampleCount::default(), SampleCount::One);
}

#[test]
fn image_flags_usage() {
    let plain = ImageFlags { bits: 0 };
    assert_eq!(plain.usage(), IMAGE_USAGE_SAMPLED | IMAGE_USAGE_TRANSFER_DST);
    let storage = ImageFlags { bits: STORAGE | NO_SAMPLE };
    assert_eq!(storage.usage(), IMAGE_USAGE_STORAGE | IMAGE_USAGE_TRANSFER_DST);
    let color = ImageFlags { bits: COLOR_ATTACHMENT };
    assert!(color.is_render_target());
    assert!(color.is_attachment());
    assert_eq!(color.usage(), IMAGE_USAGE_COLOR_ATTACHMENT | IMAGE_USAGE_SAMPLED);
    let depth = ImageFlags { bits: DEPTH_STENCIL_ATTACHMENT | NO_SAMPLE };
    assert_eq!(depth.usage(), IMAGE_USAGE_DEPTH_STENCIL_ATTACHMENT);
    assert!(plain.contains(0));
    assert!(!plain.contains(STORAGE));
}

#[test]
fn image_types() {
    assert_eq!(ImageType::Cube.flags(), IMAGE_CREATE_CUBE_COMPATIBLE);
    assert_eq!(ImageType::TwoDim.flags(), 0);
    assert_eq!(ImageType::Cube.vk_type(), VkImageType::TwoDim);
    assert_eq!(ImageType::OneDim.vk_type(), VkImageType::OneDim);
    assert!(ImageType::Cube.compat_view(ImageViewType::CubeArray));
    assert!(ImageType::Cube.compat_view(ImageViewType::TwoDimArray));
    assert!(!ImageType::TwoDim.compat_view(ImageViewType::Cube));
    assert!(!ImageType::ThreeDim.compat_view(ImageViewType::TwoDim));
    assert_eq!(ImageType::TwoDim.default_view_type(0), ImageViewType::TwoDim);
    assert_eq!(ImageType::TwoDim.default_view_type(6), ImageViewType::TwoDimArray);
    assert_eq!(ImageType::Cube.default_view_type(0), ImageViewType::Cube);
}

#[test]
fn mip_level_counts() {
    assert_eq!(num_mip_levels(Extent3D { width: 1, height: 1, depth: 1 }), 1);
    assert_eq!(num_mip_levels(Extent3D { width: 128, height: 128, depth: 1 }), 8);
    assert_eq!(num_mip_levels(Extent3D { width: 640, height: 480, depth: 1 }), 10);
    assert_eq!(num_mip_levels(Extent3D { width: 1, height: 4096, depth: 2 }), 13);
}

fn limits() -> ImageLimits {
    ImageLimits {
        max_image_dimension_1d: 4096,
        max_image_dimension_2d: 4096,
        max_image_dimension_3d: 256,
        max_image_dimension_cube: 4096,
        max_image_array_layers: 256,
        max_framebuffer_width: 4096,
        max_framebuffer_height: 4096,
        max_framebuffer_layers: 256,
    }
}

#[test]
fn image_creation_validation() {
    let l = limits();
    let e = Extent3D { width: 128, height: 128, depth: 1 };
    let plain = ImageFlags { bits: 0 };
    assert!(validate_image_creation(&l, plain, ImageType::TwoDim, Format::RGBA8, e, 8, 6));
    // Too many mip levels.
    assert!(!validate_image_creation(&l, plain, ImageType::TwoDim, Format::RGBA8, e, 9, 1));
    // Cubes need six layers and square faces.
    assert!(!validate_image_creation(&l, plain, ImageType::Cube, Format::RGBA8, e, 1, 1));
    assert!(validate_image_creation(&l, plain, ImageType::Cube, Format::RGBA8, e, 1, 6));
    let wide = Extent3D { width: 256, height: 128, depth: 1 };
    assert!(!validate_image_creation(&l, plain, ImageType::Cube, Format::RGBA8, wide, 1, 6));
    // Depth attachments need a depth format.
    let depth = ImageFlags { bits: DEPTH_STENCIL_ATTACHMENT };
    assert!(!validate_image_creation(&l, depth, ImageType::TwoDim, Format::RGBA8, e, 1, 1));
    assert!(validate_image_creation(&l, depth, ImageType::TwoDim, Format::D32F, e, 1, 1));
    // 2D images are flat; dimensions are bounded.
    let thick = Extent3D { width: 8, height: 8, depth: 2 };
    assert!(!validate_image_creation(&l, plain, ImageType::TwoDim, Format::RGBA8, thick, 1, 1));
    let huge = Extent3D { width: 8192, height: 8, depth: 1 };
    assert!(!validate_image_creation(&l, plain, ImageType::TwoDim, Format::RGBA8, huge, 1, 1));
    let empty = Extent3D { width: 0, height: 8, depth: 1 };
    assert!(!validate_image_creation(&l, plain, ImageType::TwoDim, Format::RGBA8, empty, 1, 1));
}

#[test]
fn image_view_validation() {
    let image = ImageInfo { ty: ImageType::Cube, format: Format::RGBA8, mip_levels: 4, layers: 12 };
    let range = |layers: u32| SubresourceRange {
        aspect_mask: 0x1,
        base_mip_level: 0,
        level_count: 4,
        base_array_layer: 0,
        layer_count: layers,
    };
    assert!(validate_image_view_creation(&image, ImageViewType::Cube, Format::RGBA8, range(6)));
    assert!(!validate_image_view_creation(&image, ImageViewType::Cube, Format::RGBA8, range(12)));
    assert!(validate_image_view_creation(&image, ImageViewType::CubeArray, Format::RGBA8, range(12)));
    assert!(!validate_image_view_creation(&image, ImageViewType::Cube, Format::RGBA16F, range(6)));
    assert!(!validate_image_view_creation(&image, ImageViewType::ThreeDim, Format::RGBA8, range(6)));
    let mut deep = range(6);
    deep.aspect_mask = 0x2;
    assert!(!validate_image_view_creation(&image, ImageViewType::Cube, Format::RGBA8, deep));
    let mut past = range(6);
    past.base_array_layer = 8;
    assert!(!validate_image_view_creation(&image, ImageViewType::Cube, Format::RGBA8, past));
}

#[test]
fn vertex_attr_numbers() {
    assert_eq!(VertexAttr::Position.index(), 0);
    assert_eq!(VertexAttr::Velocity.index(), 9);
    assert_eq!(VertexAttr::from_number(4), Some(VertexAttr::Texcoord0));
    assert_eq!(VertexAttr::from_number(10), None);
    assert_eq!(IndexType::U16.size(), 2);
    assert_eq!(IndexType::U32.size(), 4);
    assert_eq!(IndexType::U32.vk_index_type(), 1);
}

#[test]
fn vertex_input_layout_from_mesh_layout() {
    let mut attrs = [None; 10];
    attrs[0] = Some(Format::RGB32F);
    attrs[1] = Some(Format::RGB32F);
    attrs[4] = Some(Format::RG32F);
    let layout = VertexLayout {
        topology: PrimitiveTopology::TriangleList,
        packing: VertexPacking::Unpacked,
        attrs,
    };
    // The shader reads positions and texture coordinates only.
    let input = VertexInputLayout::new(&layout, &[4, 0]);
    let bindings = input.vk_bindings();
    assert_eq!(bindings.len(), 2);
    assert_eq!(bindings[0].binding, 0);
    assert_eq!(bindings[0].stride, 12);
    assert_eq!(bindings[1].binding, 1);
    assert_eq!(bindings[1].stride, 8);
    let vk_attrs = input.vk_attrs();
    assert_eq!(vk_attrs.len(), 2);
    assert_eq!(vk_attrs[0].location, 0);
    assert_eq!(vk_attrs[0].format, Format::RGB32F);
    assert_eq!(vk_attrs[1].location, 4);
    assert_eq!(vk_attrs[1].binding, 1);
    assert_eq!(vk_attrs[1].offset, 0);
}

fn buffer(binding: BufferBinding, size: u64) -> Arc<BufferDef> {
    Arc::new(BufferDef { binding, lifetime: Lifetime::Static, size })
}

#[test]
fn mesh_vertex_count_from_attributes() {
    let mut builder = RenderMeshBuilder::new();
    builder.lifetime(Lifetime::Frame);
    builder.attr(VertexAttr::Position, Format::RGB32F, buffer(BufferBinding::Vertex, 36 * 12));
    builder.attr(VertexAttr::Normal, Format::RGB32F, buffer(BufferBinding::Vertex, 36 * 12));
    builder.attr(VertexAttr::Texcoord0, Format::RG32F, buffer(BufferBinding::Vertex, 36 * 8));
    let mesh = builder.build();
    assert_eq!(mesh.vertex_count(), 36);
    assert!(mesh.index().is_none());
    assert_eq!(mesh.bindings().len(), 10);
    assert_eq!(mesh.bindings()[4].as_ref().unwrap().count(), 36);
    let layout = mesh.vertex_layout();
    assert_eq!(layout.attrs[0], Some(Format::RGB32F));
    assert_eq!(layout.attrs[4], Some(Format::RG32F));
    assert_eq!(layout.attrs[2], None);
}

#[test]
fn mesh_vertex_count_from_index_buffer() {
    let mut builder = RenderMeshBuilder::new();
    builder.attr(VertexAttr::Position, Format::RGB32F, buffer(BufferBinding::Vertex, 24 * 12));
    builder.index(IndexType::U16, buffer(BufferBinding::Index, 36 * 2));
    let mesh = builder.build();
    assert_eq!(mesh.vertex_count(), 36);
    assert_eq!(mesh.index().unwrap().count(), 36);
    assert_eq!(mesh.index().unwrap().ty, IndexType::U16);
}

#[test]
fn pipeline_state_follows_description_and_subpass() {
    let atts = test_pass_attachments();
    let gbuffer = subpass_state(&atts, test_pass_subpasses().remove(0));
    let desc = RasterDesc::new();
    assert_eq!(desc.cull_mode, CullMode::Back);
    assert_eq!(desc.blend.color_write_mask, COLOR_WRITE_ALL);
    assert!(!desc.blend.blend_enable);
    let state = pipeline_state(&desc, &gbuffer);
    assert_eq!(state.viewport_count, 1);
    assert_eq!(state.scissor_count, 1);
    assert_eq!(state.polygon_mode, POLYGON_MODE_FILL);
    assert_eq!(state.cull_mode, 2);
    assert_eq!(state.rasterization_samples, 1);
    assert!(!state.depth_test_enable && !state.depth_write_enable && !state.depth_bias_enable);
    assert_eq!(state.blend_attachment_count, 2);
    assert_eq!(state.blend, desc.blend);
    assert_eq!(state.dynamic_states, vec![0, 1, 3]);

    let mut msaa = atts.clone();
    msaa[1].samples = SampleCount::Four;
    let lighting = subpass_state(&msaa, SubpassDesc { color_attchs: vec![1], ..Default::default() });
    // Alpha blending: source alpha over one minus source alpha, added.
    let alpha = BlendAttachment {
        blend_enable: true,
        src_color_factor: 6,
        dst_color_factor: 7,
        color_op: 0,
        src_alpha_factor: 1,
        dst_alpha_factor: 0,
        alpha_op: 0,
        color_write_mask: COLOR_WRITE_ALL,
    };
    let wire =
        RasterDesc { wireframe: true, depth_test: true, depth_cmp_op: 3, cull_mode: CullMode::Disabled, blend: alpha, ..desc };
    let state = pipeline_state(&wire, &lighting);
    assert_eq!(state.polygon_mode, POLYGON_MODE_LINE);
    assert_eq!(state.cull_mode, 0);
    assert_eq!(state.rasterization_samples, 4);
    assert!(state.depth_test_enable);
    assert_eq!(state.depth_compare_op, 3);
    assert_eq!(state.blend_attachment_count, 1);
    assert_eq!(state.blend, alpha);
}
