use gfx::format::{Format, SampleCount};
use gfx::image::{num_mip_levels, Extent3D, SubresourceRange};
use gfx::render_pass::ImageLayout;
use gfx::xfer::{
    mip_level_extent, plan_image_upload, subresource_bytes, LinearAllocator, UploadImage, ACCESS_TRANSFER_WRITE,
};

fn staging_inner(staging: &mut LinearAllocator) {
    assert_eq!(staging.used(), 0);
    assert_eq!(staging.capacity(), 1024);

    assert_eq!(staging.allocate(16), Some(0));
    assert_eq!(staging.used(), 16);
    assert_eq!(staging.allocate(16), Some(16));
    assert_eq!(staging.used(), 32);

    // Cannot allocate past the end of the buffer.
    assert_eq!(staging.allocate(1000), None);
    assert_eq!(staging.used(), 32);
    assert_eq!(staging.capacity(), 1024);

    // Can allocate up to the end of the buffer.
    assert_eq!(staging.allocate(992), Some(32));
    assert_eq!(staging.used(), 1024);
    assert_eq!(staging.allocate(8), None);
}

#[test]
fn staging_allocations_are_consecutive() {
    let mut staging = LinearAllocator::new(1024);
    staging_inner(&mut staging);
    staging.clear();
    staging_inner(&mut staging);
}

fn cube_image() -> UploadImage {
    let extent = Extent3D { width: 128, height: 128, depth: 1 };
    UploadImage {
        format: Format::RGBA8,
        samples: SampleCount::One,
        extent,
        mip_levels: num_mip_levels(extent),
        layers: 6,
    }
}

fn whole(image: &UploadImage) -> SubresourceRange {
    SubresourceRange {
        aspect_mask: image.format.aspects(),
        base_mip_level: 0,
        level_count: image.mip_levels,
        base_array_layer: 0,
        layer_count: image.layers,
    }
}

#[test]
fn mip_extents_halve_down_to_one() {
    let e = Extent3D { width: 128, height: 32, depth: 1 };
    assert_eq!(mip_level_extent(e, 0), e);
    assert_eq!(mip_level_extent(e, 2), Extent3D { width: 32, height: 8, depth: 1 });
    assert_eq!(mip_level_extent(e, 6), Extent3D { width: 2, height: 1, depth: 1 });
    assert_eq!(mip_level_extent(e, 7), Extent3D { width: 1, height: 1, depth: 1 });
}

#[test]
fn stage_image_plans_one_copy_per_level() {
    let image = cube_image();
    let sub = whole(&image);
    assert_eq!(image.mip_levels, 8);
    // 128x128 RGBA8, six layers, full mip chain.
    assert_eq!(subresource_bytes(&image, &sub), 524_280);

    let mut staging = LinearAllocator::new(0x10_0000);
    for round in 0..2u64 {
        let plan = plan_image_upload(
            &image,
            sub,
            true,
            ImageLayout::ShaderReadOnlyOptimal,
            0x20,
            &mut staging,
        )
        .unwrap();
        assert_eq!(plan.offset, round * 524_280);
        assert_eq!(plan.size, 524_280);
        assert_eq!(staging.used(), (round + 1) * 524_280);
        assert_eq!(plan.copies.len(), 8);
        // Levels lie one after the other from the base level on.
        assert_eq!(plan.copies[0].buffer_offset, plan.offset);
        assert_eq!(plan.copies[1].buffer_offset, plan.offset + 393_216);
        assert_eq!(plan.copies[2].buffer_offset, plan.offset + 491_520);
        assert_eq!(plan.copies[7].buffer_offset, plan.offset + 524_256);
        assert_eq!(plan.copies[3].mip_level, 3);
        assert_eq!(plan.copies[3].extent, Extent3D { width: 16, height: 16, depth: 1 });
        assert_eq!(plan.copies[3].layer_count, 6);
        let pre = plan.pre_barrier.unwrap();
        assert_eq!(pre.old_layout, ImageLayout::Undefined);
        assert_eq!(pre.new_layout, ImageLayout::TransferDstOptimal);
        assert_eq!(pre.dst_access, ACCESS_TRANSFER_WRITE);
        assert_eq!(plan.post_barrier.old_layout, ImageLayout::TransferDstOptimal);
        assert_eq!(plan.post_barrier.new_layout, ImageLayout::ShaderReadOnlyOptimal);
        assert_eq!(plan.post_barrier.dst_access, 0x20);
        assert_eq!(plan.post_barrier.range, sub);
    }
    // The staging buffer is now too full for a third upload.
    assert!(plan_image_upload(&image, sub, false, ImageLayout::General, 0, &mut staging).is_none());
    assert_eq!(staging.used(), 2 * 524_280);
}

#[test]
fn stage_image_without_pre_barrier_and_partial_range() {
    let image = cube_image();
    let sub = SubresourceRange {
        aspect_mask: image.format.aspects(),
        base_mip_level: 2,
        level_count: 2,
        base_array_layer: 1,
        layer_count: 1,
    };
    // 32x32 and 16x16 texels of four bytes, one layer.
    assert_eq!(subresource_bytes(&image, &sub), 4096 + 1024);
    let mut staging = LinearAllocator::new(8192);
    assert_eq!(staging.allocate(100), Some(0));
    let plan = plan_image_upload(&image, sub, false, ImageLayout::General, 0x8, &mut staging).unwrap();
    assert!(plan.pre_barrier.is_none());
    assert_eq!(plan.offset, 100);
    assert_eq!(plan.copies.len(), 2);
    assert_eq!(plan.copies[0].mip_level, 2);
    assert_eq!(plan.copies[0].extent, Extent3D { width: 32, height: 32, depth: 1 });
    assert_eq!(plan.copies[0].base_array_layer, 1);
    assert_eq!(plan.copies[1].buffer_offset, 100 + 4096);
    assert_eq!(plan.copies[1].extent, Extent3D { width: 16, height: 16, depth: 1 });
}
