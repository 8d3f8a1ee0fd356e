use gfx::descriptor::{
    count_descriptors, create_global_descriptor_pool, global_descriptor_counts, image_write_layout, is_buffer,
    is_storage_buffer, is_uniform_buffer, is_valid_type, pool_sizes, validate_buffer_write, validate_image_write,
    buffer_write, BufferRange, BuiltinSetLayouts, DescriptorBufferInfo, DescriptorCounts, DescriptorPool, DescriptorPoolSize, DescriptorSetLayout,
    DescriptorSetLayoutBinding, DescriptorType, GLOBAL_MAX_SETS, LAYOUT_UPDATE_AFTER_BIND_POOL,
    POOL_FREE_DESCRIPTOR_SET, POOL_UPDATE_AFTER_BIND, SHADER_STAGE_ALL,
};
use gfx::format::Format;
use gfx::image::{ImageFlags, INPUT_ATTACHMENT, NO_SAMPLE, STORAGE};
use gfx::memory::buffer::BufferBinding;
use gfx::render_pass::ImageLayout;

fn binding(binding: u32, ty: DescriptorType, count: u32) -> DescriptorSetLayoutBinding {
    DescriptorSetLayoutBinding { binding, descriptor_type: ty, descriptor_count: count, stage_flags: 0x11 }
}

fn constant_buffer_layout() -> DescriptorSetLayout {
    DescriptorSetLayout::new(0, vec![binding(0, DescriptorType::StorageBuffer, 1)])
}

fn material_layout() -> DescriptorSetLayout {
    DescriptorSetLayout::new(0, vec![binding(0, DescriptorType::CombinedImageSampler, 3)])
}

#[test]
fn descriptor_type_round_trips_through_index() {
    for i in 0..11 {
        assert_eq!(DescriptorType::from_index(i).index(), i);
    }
    assert_eq!(DescriptorType::StorageBuffer.index(), 7);
    assert_eq!(DescriptorType::InputAttachment.index(), 10);
}

#[test]
fn descriptor_type_classes() {
    assert!(is_valid_type(DescriptorType::Sampler));
    assert!(is_valid_type(DescriptorType::InputAttachment));
    assert!(!is_valid_type(DescriptorType::UniformTexelBuffer));
    assert!(!is_valid_type(DescriptorType::StorageBufferDynamic));
    assert!(is_buffer(DescriptorType::UniformBuffer));
    assert!(is_buffer(DescriptorType::StorageBuffer));
    assert!(!is_buffer(DescriptorType::SampledImage));
    assert!(is_uniform_buffer(DescriptorType::UniformBuffer));
    assert!(!is_uniform_buffer(DescriptorType::StorageBuffer));
    assert!(is_storage_buffer(DescriptorType::StorageBuffer));
}

#[test]
fn descriptor_counts_arithmetic() {
    let mut a = DescriptorCounts::new();
    a.set(DescriptorType::UniformBuffer, 3);
    a.set(DescriptorType::Sampler, 5);
    let mut b = DescriptorCounts::new();
    b.set(DescriptorType::UniformBuffer, 1);
    let sum = a.add_counts(&b);
    assert_eq!(sum.get(DescriptorType::UniformBuffer), 4);
    assert_eq!(sum.get(DescriptorType::Sampler), 5);
    let diff = sum.sub_counts(&b);
    assert_eq!(diff, a);
    let tripled = a.mul_scalar(3);
    assert_eq!(tripled.get(DescriptorType::UniformBuffer), 9);
    assert_eq!(tripled.get(DescriptorType::Sampler), 15);
    let halved = tripled.div_scalar(2);
    assert_eq!(halved.get(DescriptorType::UniformBuffer), 4);
    assert_eq!(halved.get(DescriptorType::Sampler), 7);
    let pairs = a.iter();
    assert_eq!(pairs.len(), 11);
    assert_eq!(pairs[0], (DescriptorType::Sampler, 5));
    assert_eq!(pairs[6], (DescriptorType::UniformBuffer, 3));
}

#[test]
fn descriptor_counts_sum_and_from_pairs() {
    let pairs = [
        (DescriptorType::UniformBuffer, 2),
        (DescriptorType::SampledImage, 1),
        (DescriptorType::UniformBuffer, 3),
    ];
    let sum = DescriptorCounts::sum(&pairs);
    assert_eq!(sum.get(DescriptorType::UniformBuffer), 5);
    assert_eq!(sum.get(DescriptorType::SampledImage), 1);
    // A later pair for a type replaces an earlier one.
    let last = DescriptorCounts::from_pairs(&pairs);
    assert_eq!(last.get(DescriptorType::UniformBuffer), 3);
    assert_eq!(last.get(DescriptorType::SampledImage), 1);
    assert_eq!(last.get(DescriptorType::Sampler), 0);
}

#[test]
fn layout_counts_descriptors_per_type() {
    let bindings = [
        binding(0, DescriptorType::UniformBuffer, 2),
        binding(1, DescriptorType::SampledImage, 1),
        binding(2, DescriptorType::CombinedImageSampler, 2),
        binding(3, DescriptorType::UniformBuffer, 1),
    ];
    let counts = count_descriptors(&bindings);
    assert_eq!(counts.get(DescriptorType::UniformBuffer), 3);
    assert_eq!(counts.get(DescriptorType::SampledImage), 1);
    assert_eq!(counts.get(DescriptorType::CombinedImageSampler), 2);
    assert_eq!(counts.get(DescriptorType::StorageBuffer), 0);

    let layout = DescriptorSetLayout::new(LAYOUT_UPDATE_AFTER_BIND_POOL, bindings.to_vec());
    assert_eq!(layout.flags(), LAYOUT_UPDATE_AFTER_BIND_POOL);
    assert_eq!(layout.bindings().len(), 4);
    assert_eq!(*layout.counts(), counts);
    assert_eq!(layout.required_pool_flags(), POOL_UPDATE_AFTER_BIND);
    assert_eq!(constant_buffer_layout().required_pool_flags(), 0);
}

#[test]
fn pool_sizes_skip_zero_counts() {
    let mut counts = DescriptorCounts::new();
    counts.set(DescriptorType::StorageImage, 4);
    counts.set(DescriptorType::Sampler, 2);
    let sizes = pool_sizes(&counts);
    assert_eq!(
        sizes,
        vec![
            DescriptorPoolSize { ty: DescriptorType::Sampler, descriptor_count: 2 },
            DescriptorPoolSize { ty: DescriptorType::StorageImage, descriptor_count: 4 },
        ]
    );
    // Reading the sizes back gives the counts.
    let pairs: Vec<(DescriptorType, u32)> = sizes.iter().map(|p| (p.ty, p.descriptor_count)).collect();
    assert_eq!(DescriptorCounts::from_pairs(&pairs), counts);
    // Without repeated types, summing and keeping the last agree.
    assert_eq!(DescriptorCounts::sum(&pairs), counts);
}

#[test]
fn global_counts_values() {
    let (max_sets, counts) = global_descriptor_counts();
    assert_eq!(max_sets, GLOBAL_MAX_SETS);
    assert_eq!(counts.get(DescriptorType::Sampler), 0x1_0000);
    assert_eq!(counts.get(DescriptorType::CombinedImageSampler), 0x8_0000);
    assert_eq!(counts.get(DescriptorType::SampledImage), 0x8_0000);
    assert_eq!(counts.get(DescriptorType::StorageBuffer), 0x1_0000);
    assert_eq!(counts.get(DescriptorType::UniformBufferDynamic), 0);
    assert_eq!(counts.get(DescriptorType::InputAttachment), 256);
}

#[test]
fn alloc_test() {
    let mut pool = create_global_descriptor_pool(7);
    assert_eq!(pool.max_sets(), GLOBAL_MAX_SETS);
    assert!(pool.can_free());
    let constant_buffer_layout = constant_buffer_layout();
    let material_layout = material_layout();

    let set0 = pool.allocate(&constant_buffer_layout);
    let sets = pool.alloc_many(&material_layout, 3);

    let used = *pool.used_descriptors();
    assert_eq!(pool.used_sets(), 4);
    assert_eq!(used.get(DescriptorType::StorageBuffer), 1);
    assert_eq!(used.get(DescriptorType::CombinedImageSampler), 9);
    assert_eq!(sets.len(), 3);
    assert!(sets.iter().all(|s| s.pool == 7));

    pool.free(&set0);
    let used = *pool.used_descriptors();
    assert_eq!(pool.used_sets(), 3);
    assert_eq!(used.get(DescriptorType::StorageBuffer), 0);
}

#[test]
fn law_free_undoes_alloc_on_a_pool() {
    let sizes = [DescriptorPoolSize { ty: DescriptorType::CombinedImageSampler, descriptor_count: 64 }];
    let mut pool = DescriptorPool::new(1, POOL_FREE_DESCRIPTOR_SET, 16, &sizes);
    assert_eq!(pool.max_descriptors().get(DescriptorType::CombinedImageSampler), 64);
    let before_sets = pool.used_sets();
    let before = *pool.used_descriptors();
    let set = pool.allocate(&material_layout());
    assert_ne!(*pool.used_descriptors(), before);
    pool.free(&set);
    assert_eq!(pool.used_sets(), before_sets);
    assert_eq!(*pool.used_descriptors(), before);
}

#[test]
fn buffer_writes_are_checked_against_the_binding() {
    let uniforms = binding(0, DescriptorType::UniformBuffer, 2);
    let storage = binding(1, DescriptorType::StorageBuffer, 1);
    assert!(validate_buffer_write(&uniforms, 0, &[BufferBinding::Uniform, BufferBinding::Uniform]));
    assert!(validate_buffer_write(&uniforms, 1, &[BufferBinding::Uniform]));
    // Overrunning the binding.
    assert!(!validate_buffer_write(&uniforms, 1, &[BufferBinding::Uniform, BufferBinding::Uniform]));
    // Nothing to write.
    assert!(!validate_buffer_write(&uniforms, 0, &[]));
    // Wrong kind of buffer.
    assert!(!validate_buffer_write(&uniforms, 0, &[BufferBinding::Storage]));
    assert!(validate_buffer_write(&storage, 0, &[BufferBinding::Storage]));
    assert!(!validate_buffer_write(&storage, 0, &[BufferBinding::Vertex]));
}

#[test]
fn image_writes_are_checked_against_the_binding() {
    let sampled = binding(0, DescriptorType::SampledImage, 1);
    let combined = binding(1, DescriptorType::CombinedImageSampler, 2);
    let storage = binding(2, DescriptorType::StorageImage, 1);
    let input = binding(3, DescriptorType::InputAttachment, 1);
    let plain = ImageFlags { bits: 0 };
    assert!(validate_image_write(&sampled, 0, plain, false));
    assert!(!validate_image_write(&sampled, 1, plain, false));
    assert!(!validate_image_write(&sampled, 0, ImageFlags { bits: NO_SAMPLE }, false));
    assert!(!validate_image_write(&sampled, 0, plain, true));
    assert!(validate_image_write(&combined, 1, plain, true));
    assert!(!validate_image_write(&combined, 1, plain, false));
    assert!(validate_image_write(&storage, 0, ImageFlags { bits: STORAGE | NO_SAMPLE }, false));
    assert!(!validate_image_write(&storage, 0, plain, false));
    assert!(validate_image_write(&input, 0, ImageFlags { bits: INPUT_ATTACHMENT }, false));
    assert!(!validate_image_write(&input, 0, plain, false));
    let ubo = binding(4, DescriptorType::UniformBuffer, 1);
    assert!(!validate_image_write(&ubo, 0, plain, false));
}

#[test]
fn image_write_layouts() {
    assert_eq!(image_write_layout(DescriptorType::SampledImage, Format::RGBA8), ImageLayout::ShaderReadOnlyOptimal);
    assert_eq!(
        image_write_layout(DescriptorType::CombinedImageSampler, Format::D32F),
        ImageLayout::DepthStencilReadOnlyOptimal
    );
    assert_eq!(image_write_layout(DescriptorType::StorageImage, Format::RGBA8), ImageLayout::General);
    assert_eq!(
        image_write_layout(DescriptorType::InputAttachment, Format::D32F_S8),
        ImageLayout::DepthStencilReadOnlyOptimal
    );
    assert_eq!(
        image_write_layout(DescriptorType::InputAttachment, Format::RGBA16F),
        ImageLayout::ShaderReadOnlyOptimal
    );
}

#[test]
fn builtin_set_layouts() {
    let layouts = BuiltinSetLayouts::new();
    assert!(std::sync::Arc::ptr_eq(&layouts.example_globals, &layouts.example_instances));
    let bindings = layouts.example_globals.bindings();
    assert_eq!(bindings.len(), 1);
    assert_eq!(bindings[0].descriptor_type, DescriptorType::StorageBuffer);
    assert_eq!(bindings[0].stage_flags, SHADER_STAGE_ALL);
    assert_eq!(layouts.example_globals.counts().get(DescriptorType::StorageBuffer), 1);
}

#[test]
fn buffer_write_lists_the_buffers_in_order() {
    let layout = DescriptorSetLayout::new(0, vec![binding(0, DescriptorType::StorageBuffer, 4)]);
    let buffers = [
        BufferRange { buffer: 5, binding: BufferBinding::Storage, offset: 0, size: 256 },
        BufferRange { buffer: 6, binding: BufferBinding::Storage, offset: 64, size: 128 },
    ];
    assert!(validate_buffer_write(&layout.bindings()[0], 1, &[BufferBinding::Storage, BufferBinding::Storage]));
    let write = buffer_write(&layout, 0, 1, &buffers);
    assert_eq!(write.binding, 0);
    assert_eq!(write.first_element, 1);
    assert_eq!(write.descriptor_count, 2);
    assert_eq!(write.descriptor_type, DescriptorType::StorageBuffer);
    assert_eq!(
        write.buffer_infos,
        vec![
            DescriptorBufferInfo { buffer: 5, offset: 0, range: 256 },
            DescriptorBufferInfo { buffer: 6, offset: 64, range: 128 },
        ]
    );
}
