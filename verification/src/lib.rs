//! Verified core of a Vulkan rendering engine: device memory
//! suballocation, descriptor accounting, render pass and image
//! validation, command recording state, and mesh/shader bookkeeping.

pub mod memory;
pub mod descriptor;
pub mod format;
pub mod image;
pub mod render_pass;
pub mod vertex;
pub mod mesh;
pub mod shader;
pub mod pipeline;
pub mod material;
pub mod queue;
pub mod commands;
pub mod swapchain;
pub mod frame;
pub mod debug;
pub mod instance;
pub mod sync;
pub mod xfer;
pub mod spirv;
