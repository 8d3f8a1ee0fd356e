use gfx::commands::{
    is_inline, valid_pool_flags, CmdBufferLevel, CmdPool, CmdBufferState, CmdBufferTracker, RenderPassTracker,
    SubpassTracker,
    SubpassContents, POOL_RESET_COMMAND_BUFFER, POOL_TRANSIENT, USAGE_ONE_TIME_SUBMIT,
    USAGE_RENDER_PASS_CONTINUE,
};
use gfx::debug::{
    message_header, object_type_name, severity_name, type_names, type_text, MessageCounter, SEVERITY_ERROR, SEVERITY_INFO, SEVERITY_VERBOSE,
    SEVERITY_WARNING, TYPE_GENERAL, TYPE_PERFORMANCE, TYPE_VALIDATION,
};
use gfx::frame::{frame_slot, start_render_loop, FrameCounter, FrameLocalState, FramePacer};
use gfx::instance::{
    api_version, device_extensions, device_queues, device_request, engine_info, instance_created, instance_extensions, instance_layers,
    instance_request, make_version, test_messenger_filter, InstanceError, QueueRequest,
};
use gfx::queue::{is_presentable_family, QueueType, QUEUE_COMPUTE, QUEUE_GRAPHICS, QUEUE_TRANSFER};
use gfx::sync::{fence_signaled, wait_result, WaitResult, VK_NOT_READY, VK_SUCCESS, VK_TIMEOUT};
use gfx::swapchain::{
    choose_swapchain_config, Extent2D, SurfaceCapabilities, SurfaceFormat, SwapchainConfig, SwapchainError,
    COMPOSITE_ALPHA_OPAQUE, SWAPCHAIN_COLOR_SPACE, SWAPCHAIN_FORMAT,
};

#[test]
fn queue_types_from_flags() {
    assert_eq!(QueueType::from_flags(QUEUE_GRAPHICS | QUEUE_COMPUTE | QUEUE_TRANSFER), QueueType::Graphics);
    assert_eq!(QueueType::from_flags(QUEUE_COMPUTE | QUEUE_TRANSFER), QueueType::Compute);
    assert_eq!(QueueType::from_flags(QUEUE_TRANSFER), QueueType::Xfer);
    assert_eq!(QueueType::from_flags(QUEUE_COMPUTE), QueueType::Compute);
}

#[test]
fn queue_type_hierarchy() {
    let all = [QueueType::Graphics, QueueType::Compute, QueueType::Xfer];
    for a in all {
        assert!(a.supports(a));
        assert!(a.supports_xfer());
        for b in all {
            assert!(a.supports(b) || b.supports(a));
            for c in all {
                if a.supports(b) && b.supports(c) {
                    assert!(a.supports(c));
                }
            }
        }
    }
    assert!(QueueType::Graphics.supports(QueueType::Compute));
    assert!(!QueueType::Compute.supports(QueueType::Graphics));
    assert!(!QueueType::Xfer.supports(QueueType::Compute));
    assert!(QueueType::Graphics.supports_graphics());
    assert!(!QueueType::Compute.supports_graphics());
}

#[test]
fn presentable_families() {
    assert!(is_presentable_family(QUEUE_GRAPHICS | QUEUE_COMPUTE | QUEUE_TRANSFER));
    assert!(is_presentable_family(0xf));
    assert!(!is_presentable_family(QUEUE_GRAPHICS | QUEUE_COMPUTE));
    assert!(!is_presentable_family(QUEUE_TRANSFER));
}

#[test]
fn command_buffer_levels() {
    assert!(!CmdBufferLevel::Primary.is_secondary());
    assert!(CmdBufferLevel::Secondary.is_secondary());
    assert!(CmdBufferLevel::SubpassContinue.is_secondary());
    assert_eq!(CmdBufferLevel::SubpassContinue.required_usage_flags(), USAGE_RENDER_PASS_CONTINUE);
    assert_eq!(CmdBufferLevel::Secondary.required_usage_flags(), 0);
    assert_eq!(CmdBufferLevel::Primary.begin_usage_flags(), USAGE_ONE_TIME_SUBMIT);
    assert_eq!(
        CmdBufferLevel::SubpassContinue.begin_usage_flags(),
        USAGE_ONE_TIME_SUBMIT | USAGE_RENDER_PASS_CONTINUE
    );
    assert_eq!(CmdBufferLevel::Primary.vk_level(), 0);
    assert_eq!(CmdBufferLevel::Secondary.vk_level(), 1);
    assert_eq!(CmdBufferLevel::default(), CmdBufferLevel::Primary);
    assert_eq!(SubpassContents::default(), SubpassContents::Inline);
    assert_eq!(SubpassContents::Secondary.vk_contents(), 1);
    assert!(is_inline(CmdBufferLevel::Primary));
    assert!(!is_inline(CmdBufferLevel::SubpassContinue));
}

#[test]
fn command_pool_flags() {
    assert!(valid_pool_flags(0));
    assert!(valid_pool_flags(POOL_TRANSIENT));
    assert!(valid_pool_flags(POOL_TRANSIENT | POOL_RESET_COMMAND_BUFFER));
    assert!(!valid_pool_flags(0x4));
}

#[test]
fn command_pool_properties_follow_flags() {
    let transient = CmdPool::new(2, POOL_TRANSIENT);
    assert!(transient.is_transient());
    assert!(!transient.reset_enabled());
    assert_eq!(transient.queue_family(), 2);
    let resettable = CmdPool::new(0, POOL_RESET_COMMAND_BUFFER);
    assert!(!resettable.is_transient());
    assert!(resettable.reset_enabled());
    let both = CmdPool::new(1, POOL_TRANSIENT | POOL_RESET_COMMAND_BUFFER);
    assert!(both.is_transient() && both.reset_enabled());
    assert_eq!(both.flags(), 0x3);
}

#[test]
fn command_buffer_lifecycle() {
    let mut cmds = CmdBufferTracker::new(CmdBufferLevel::Primary);
    assert_eq!(cmds.state(), CmdBufferState::Initial);
    assert_eq!(CmdBufferState::default(), CmdBufferState::Initial);
    assert!(!cmds.is_recording());
    cmds.begin();
    assert!(cmds.is_recording());
    cmds.end();
    assert_eq!(cmds.state(), CmdBufferState::Executable);
    assert_eq!(cmds.level(), CmdBufferLevel::Primary);
}

#[test]
fn render_pass_test() {
    let mut pass = RenderPassTracker::begin(CmdBufferLevel::Primary, 3, SubpassContents::Inline);
    assert_eq!(pass.cur_subpass(), 0);
    assert!(pass.can_enter_subpass());
    assert!(!pass.can_execute_cmds());
    assert!(pass.can_advance(SubpassContents::Secondary));
    pass.next_subpass(SubpassContents::Secondary);
    assert_eq!(pass.cur_subpass(), 1);
    assert_eq!(pass.contents(), SubpassContents::Secondary);
    assert!(!pass.can_enter_subpass());
    assert!(pass.can_execute_cmds());
    pass.next_subpass(SubpassContents::Inline);
    assert_eq!(pass.cur_subpass(), 2);
    assert_eq!(pass.level(), CmdBufferLevel::Primary);
}

#[test]
fn subpass_out_of_bounds() {
    // A one-subpass pass cannot advance.
    let pass = RenderPassTracker::begin(CmdBufferLevel::Primary, 1, SubpassContents::Inline);
    assert!(!pass.can_advance(SubpassContents::Inline));
}

#[test]
fn inline_in_secondary_subpass() {
    let pass = RenderPassTracker::begin(CmdBufferLevel::Primary, 1, SubpassContents::Secondary);
    assert!(!pass.can_enter_subpass());
}

#[test]
fn exec_in_inline_subpass() {
    let pass = RenderPassTracker::begin(CmdBufferLevel::Primary, 1, SubpassContents::Inline);
    assert!(!pass.can_execute_cmds());
}

#[test]
fn secondary_buffers_record_inline_only() {
    let pass = RenderPassTracker::begin(CmdBufferLevel::Secondary, 2, SubpassContents::Inline);
    assert!(!pass.can_advance(SubpassContents::Secondary));
    assert!(pass.can_advance(SubpassContents::Inline));
    assert!(!pass.can_execute_cmds());
}

fn caps() -> SurfaceCapabilities {
    SurfaceCapabilities {
        min_image_count: 2,
        max_image_count: 8,
        current_extent: Extent2D { width: 1280, height: 720 },
        supported_composite_alpha: COMPOSITE_ALPHA_OPAQUE | 0x8,
        supported_usage_flags: 0x1f,
    }
}

fn srgb() -> SurfaceFormat {
    SurfaceFormat { format: SWAPCHAIN_FORMAT, color_space: SWAPCHAIN_COLOR_SPACE }
}

#[test]
fn swapchain_config_from_surface() {
    let other = SurfaceFormat { format: 44, color_space: 0 };
    assert_eq!(
        choose_swapchain_config(&caps(), &[other, srgb()]),
        Ok(SwapchainConfig {
            min_image_count: 3,
            extent: Extent2D { width: 1280, height: 720 },
            image_usage: 0x12,
            composite_alpha: COMPOSITE_ALPHA_OPAQUE,
        })
    );
    // The image count is capped by the maximum; zero means no maximum.
    let mut capped = caps();
    capped.max_image_count = 2;
    assert_eq!(choose_swapchain_config(&capped, &[srgb()]).unwrap().min_image_count, 2);
    capped.max_image_count = 0;
    assert_eq!(choose_swapchain_config(&capped, &[srgb()]).unwrap().min_image_count, 3);
}

#[test]
fn swapchain_config_errors() {
    assert_eq!(choose_swapchain_config(&caps(), &[]), Err(SwapchainError::FormatNotSupported));
    let wrong_space = SurfaceFormat { format: SWAPCHAIN_FORMAT, color_space: 1 };
    assert_eq!(choose_swapchain_config(&caps(), &[wrong_space]), Err(SwapchainError::FormatNotSupported));
    let mut no_alpha = caps();
    no_alpha.supported_composite_alpha = 0x2;
    assert_eq!(choose_swapchain_config(&no_alpha, &[srgb()]), Err(SwapchainError::CompositeAlphaUnavailable));
    let mut no_usage = caps();
    no_usage.supported_usage_flags = 0x10;
    assert_eq!(choose_swapchain_config(&no_usage, &[srgb()]), Err(SwapchainError::UsageNotSupported));
    // The format is checked first, even for a minimized window.
    let mut minimized = caps();
    minimized.current_extent = Extent2D { width: 0, height: 0 };
    assert_eq!(choose_swapchain_config(&minimized, &[]), Err(SwapchainError::FormatNotSupported));
    assert_eq!(SwapchainError::UsageNotSupported.message(), "swapchain image usage not supported");
}

#[test]
fn frame_counter_advances_after_completion() {
    let mut frames = FrameCounter::new();
    assert_eq!(frames.frame_num(), 1);
    assert_eq!(frames.image_index(), 0);
    assert!(frames.pending(0));
    assert!(!frames.pending(1));
    frames.acquire(1, 2);
    assert_eq!(frames.frame_num(), 2);
    assert_eq!(frames.image_index(), 2);
    assert!(frames.pending(1));
}

#[test]
fn frame_pacer_keeps_one_frame_in_flight() {
    let mut pacer = FramePacer::new();
    assert_eq!(pacer.frame_num(), 1);
    assert!(!pacer.is_frame_in_flight());
    // Nothing to wait for before the first frame.
    assert!(!pacer.finish_frame());
    assert_eq!(pacer.frame_num(), 1);
    assert_eq!(pacer.begin_frame(), 1);
    assert!(pacer.is_frame_in_flight());
    // The next render waits for frame 1, then starts frame 2.
    assert!(pacer.finish_frame());
    assert_eq!(pacer.frame_num(), 2);
    assert!(!pacer.is_frame_in_flight());
    assert_eq!(pacer.begin_frame(), 2);
    assert!(pacer.finish_frame());
    assert!(!pacer.finish_frame());
    assert_eq!(pacer.frame_num(), 3);
}

#[test]
fn frame_local_slots_and_resets() {
    assert_eq!(frame_slot(1, 2), 1);
    assert_eq!(frame_slot(2, 2), 0);
    assert_eq!(frame_slot(7, 3), 1);
    let mut local = FrameLocalState::new();
    assert!(local.update_frame(1));
    assert!(!local.update_frame(1));
    assert!(local.update_frame(3));
}

#[test]
fn debug_message_labels() {
    assert_eq!(severity_name(SEVERITY_WARNING), "WARNING");
    assert_eq!(severity_name(SEVERITY_ERROR), "ERROR");
    assert_eq!(severity_name(SEVERITY_VERBOSE), "VERBOSE");
    assert_eq!(severity_name(SEVERITY_INFO), "INFO");
    assert_eq!(severity_name(SEVERITY_WARNING | SEVERITY_ERROR), "unknown severity");
    assert_eq!(type_names(TYPE_VALIDATION).join(" | "), "VALIDATION");
    assert_eq!(type_names(TYPE_GENERAL | TYPE_PERFORMANCE).join(" | "), "GENERAL | PERFORMANCE");
    assert_eq!(type_text(TYPE_GENERAL | TYPE_PERFORMANCE), "GENERAL | PERFORMANCE");
    assert_eq!(type_text(TYPE_GENERAL | TYPE_VALIDATION | TYPE_PERFORMANCE), "GENERAL | VALIDATION | PERFORMANCE");
    assert_eq!(type_text(TYPE_VALIDATION), "VALIDATION");
    assert_eq!(type_text(0), "unknown type");
    assert_eq!(type_names(0x8).join(" | "), "unknown type");
    assert_eq!(object_type_name(15), "ShaderModule");
    assert_eq!(object_type_name(1000001000), "SwapchainKHR");
    assert_eq!(object_type_name(99), "unknown type");
    let mut counter = MessageCounter::new();
    counter.record();
    counter.record();
    assert_eq!(counter.message_count(), 2);
}

#[test]
fn instance_creation_choices() {
    assert_eq!(make_version(1, 1, 0), 0x40_1000);
    assert_eq!(make_version(0, 1, 0), 0x1000);
    assert_eq!(make_version(1, 2, 3), (1 << 22) | (2 << 12) | 3);
    assert_eq!(api_version(), make_version(1, 1, 0));
    assert_eq!(engine_info(), ("cooper", 0x1000));
    assert_eq!(instance_layers(true), vec!["VK_LAYER_KHRONOS_validation"]);
    assert!(instance_layers(false).is_empty());
    let required = vec!["VK_KHR_surface", "VK_KHR_xcb_surface"];
    assert_eq!(instance_extensions(required.clone(), false), required);
    assert_eq!(
        instance_extensions(required.clone(), true),
        vec!["VK_KHR_surface", "VK_KHR_xcb_surface", "VK_EXT_debug_utils"]
    );
    assert_eq!(device_extensions(), vec!["VK_KHR_swapchain"]);
    assert_eq!(test_messenger_filter(true), Some((0x1100, 0x6)));
    assert_eq!(test_messenger_filter(false), None);
}

#[test]
fn wait_and_fence_results() {
    assert_eq!(wait_result(VK_SUCCESS), Ok(WaitResult::Success));
    assert_eq!(wait_result(VK_TIMEOUT), Ok(WaitResult::Timeout));
    assert_eq!(wait_result(-4), Err(-4));
    assert_eq!(wait_result(VK_NOT_READY), Err(VK_NOT_READY));
    assert!(fence_signaled(VK_SUCCESS));
    assert!(!fence_signaled(VK_NOT_READY));
}

#[test]
fn instance_needs_vulkan() {
    assert_eq!(instance_request(false, vec!["VK_KHR_surface"], true, true).unwrap_err(), InstanceError::Unavailable);
    let request = instance_request(true, vec!["VK_KHR_surface"], true, false).unwrap();
    assert_eq!(request.layers, vec!["VK_LAYER_KHRONOS_validation"]);
    assert_eq!(request.extensions, vec!["VK_KHR_surface", "VK_EXT_debug_utils"]);
    assert_eq!(request.messenger, None);
    let plain = instance_request(true, vec!["VK_KHR_surface"], false, true).unwrap();
    assert!(plain.layers.is_empty());
    assert_eq!(plain.extensions, vec!["VK_KHR_surface"]);
    assert_eq!(plain.messenger, Some((SEVERITY_WARNING | SEVERITY_ERROR, TYPE_VALIDATION | TYPE_PERFORMANCE)));
}

#[test]
fn instance_creation_outcome() {
    assert_eq!(instance_created(0), Ok(()));
    assert_eq!(instance_created(-9), Err(InstanceError::Creation(-9)));
}

#[test]
fn render_loop_starts_only_with_a_swapchain() {
    let failed: Result<FramePacer, &str> = start_render_loop(Err("no surface"));
    assert_eq!(failed.unwrap_err(), "no surface");
    let pacer = start_render_loop::<&str>(Ok(())).unwrap();
    assert_eq!(pacer.frame_num(), 1);
    assert!(!pacer.is_frame_in_flight());
}

#[test]
fn subpass_binds_each_pipeline_once() {
    let mut pass = RenderPassTracker::begin(CmdBufferLevel::Primary, 2, SubpassContents::Inline);
    pass.next_subpass(SubpassContents::Inline);
    let mut sub = pass.enter_subpass();
    assert_eq!(sub.subpass, 1);
    assert!(sub.is_inline());
    assert!(!sub.can_draw());
    // The first bind is recorded, the same pipeline again is not.
    assert!(sub.bind_gfx_pipe(7, 1));
    assert!(!sub.bind_gfx_pipe(7, 1));
    assert!(sub.can_draw());
    assert!(sub.bind_gfx_pipe(9, 1));
    assert_eq!(sub.pipeline, Some(9));
    // Leaving the subpass gives back the pass where it stood.
    let back = sub.exit_subpass();
    assert_eq!(back.cur_subpass(), 1);
    assert_eq!(back.contents(), SubpassContents::Inline);
    assert_eq!(back.level(), CmdBufferLevel::Primary);
    assert!(!back.can_advance(SubpassContents::Inline));
}

#[test]
fn secondary_subpass_is_not_inline() {
    let sub = SubpassTracker::secondary(3, 2);
    assert_eq!(sub.level, CmdBufferLevel::SubpassContinue);
    assert!(!sub.is_inline());
    assert_eq!(sub.pipeline, None);
}

#[test]
fn debug_message_header_line() {
    assert_eq!(
        message_header(SEVERITY_ERROR, TYPE_VALIDATION, "VUID-vkCmdDraw-None-02700", "bad draw"),
        "[ERROR][VALIDATION] VUID-vkCmdDraw-None-02700: bad draw"
    );
    assert_eq!(message_header(0x3, 0, "", "x"), "[unknown severity][unknown type] : x");
}

#[test]
fn device_request_and_queues() {
    let request = device_request();
    assert_eq!(request.extensions, vec!["VK_KHR_swapchain"]);
    assert_eq!(request.queues, vec![QueueRequest { family: 0, count: 1 }]);
    assert!(request.sampler_anisotropy);
    assert_eq!(device_queues(&request), vec![vec![(0, 0)]]);
    let mut wider = device_request();
    wider.queues = vec![QueueRequest { family: 0, count: 2 }, QueueRequest { family: 3, count: 1 }];
    assert_eq!(device_queues(&wider), vec![vec![(0, 0), (0, 1)], vec![(3, 0)]]);
}
