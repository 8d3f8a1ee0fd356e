use vstd::prelude::*;

use crate::debug::{SEVERITY_ERROR, SEVERITY_WARNING, TYPE_PERFORMANCE, TYPE_VALIDATION};

verus! {

/// `VK_MAKE_VERSION`: the packed form of a version number.
pub open spec fn version_code(major: u32, minor: u32, patch: u32) -> int {
    major * 0x40_0000 + minor * 0x1000 + patch
}

/// Packs a version number as Vulkan does: ten bits of major version, ten
/// of minor version and twelve of patch level.
pub fn make_version(major: u32, minor: u32, patch: u32) -> (r: u32)
    requires
        major < 0x400,
        minor < 0x400,
        patch < 0x1000,
    ensures
        r == version_code(major, minor, patch),
{
    major * 0x40_0000 + minor * 0x1000 + patch
}

/// The Vulkan version the renderer is written against.
pub fn api_version() -> (r: u32)
    ensures
        r == version_code(1, 1, 0),
{
    make_version(1, 1, 0)
}

/// The engine's name and version, as reported to the driver.
pub fn engine_info() -> (r: (&'static str, u32))
    ensures
        r.0@ == "cooper"@,
        r.1 == version_code(0, 1, 0),
{
    ("cooper", make_version(0, 1, 0))
}

/// The layers an instance is created with: the validation layer when
/// debugging.
pub fn instance_layers(debug: bool) -> (r: Vec<&'static str>)
    ensures
        debug ==> r@.len() == 1 && r@[0]@ == "VK_LAYER_KHRONOS_validation"@,
        !debug ==> r@.len() == 0,
{
    let mut layers: Vec<&'static str> = Vec::new();
    if debug {
        layers.push("VK_LAYER_KHRONOS_validation");
    }
    layers
}

/// The extensions an instance is created with: those the window system
/// requires, then debug utilities when debugging.
pub fn instance_extensions(required: Vec<&'static str>, debug: bool) -> (r: Vec<&'static str>)
    ensures
        debug ==> r@.len() == required@.len() + 1 && r@.drop_last() == required@ && r@.last()@
            == "VK_EXT_debug_utils"@,
        !debug ==> r@ == required@,
{
    let mut extensions = required;
    if debug {
        extensions.push("VK_EXT_debug_utils");
    }
    extensions
}

/// The extensions a device is created with.
pub fn device_extensions() -> (r: Vec<&'static str>)
    ensures
        r@.len() == 1,
        r@[0]@ == "VK_KHR_swapchain"@,
{
    let mut extensions: Vec<&'static str> = Vec::new();
    extensions.push("VK_KHR_swapchain");
    extensions
}

/// A queue family a device is created with, and how many of its queues.
#[derive(Clone, Copy, Debug, PartialEq, Eq, Structural)]
pub struct QueueRequest {
    pub family: u32,
    pub count: u32,
}

/// What a device is created with: its extensions, its queues (each at
/// full priority), and whether anisotropic sampling is enabled, the one
/// feature requested.
#[derive(Clone, Debug)]
pub struct DeviceRequest {
    pub extensions: Vec<&'static str>,
    pub queues: Vec<QueueRequest>,
    pub sampler_anisotropy: bool,
}

/// The device request: the swapchain extension, one queue of family 0,
/// and anisotropic sampling.
pub fn device_request() -> (r: DeviceRequest)
    ensures
        r.extensions@.len() == 1,
        r.extensions@[0]@ == "VK_KHR_swapchain"@,
        r.queues@ == seq![QueueRequest { family: 0, count: 1 }],
        r.sampler_anisotropy,
{
    let mut queues: Vec<QueueRequest> = Vec::new();
    queues.push(QueueRequest { family: 0, count: 1 });
    DeviceRequest { extensions: device_extensions(), queues, sampler_anisotropy: true }
}

/// The queues a device created from `request` hands out: for each
/// requested family, its queues by index, as (family, index) pairs.
pub fn device_queues(request: &DeviceRequest) -> (r: Vec<Vec<(u32, u32)>>)
    ensures
        r@.len() == request.queues@.len(),
        forall|i: int| 0 <= i < r@.len() ==> (#[trigger] r@[i])@ == Seq::new(
            request.queues@[i].count as nat,
            |k: int| (request.queues@[i].family, k as u32),
        ),
{
    let mut all: Vec<Vec<(u32, u32)>> = Vec::new();
    let mut i: usize = 0;
    while i < request.queues.len()
        invariant
            i <= request.queues@.len(),
            all@.len() == i,
            forall|j: int| 0 <= j < i ==> (#[trigger] all@[j])@ == Seq::new(
                request.queues@[j].count as nat,
                |k: int| (request.queues@[j].family, k as u32),
            ),
        decreases request.queues@.len() - i,
    {
        let q = request.queues[i];
        let mut family: Vec<(u32, u32)> = Vec::new();
        let mut k: u32 = 0;
        while k < q.count
            invariant
                k <= q.count,
                family@ =~= Seq::new(k as nat, |m: int| (q.family, m as u32)),
            decreases q.count - k,
        {
            family.push((q.family, k));
            k = k + 1;
        }
        all.push(family);
        i = i + 1;
    }
    all
}

/// The message severities and types that a test instance reports
/// through its debug messenger; other instances register none.
pub fn test_messenger_filter(test: bool) -> (r: Option<(u32, u32)>)
    ensures
        test ==> r == Some((SEVERITY_WARNING | SEVERITY_ERROR, TYPE_VALIDATION | TYPE_PERFORMANCE)),
        !test ==> r is None,
{
    if test {
        Some((SEVERITY_WARNING | SEVERITY_ERROR, TYPE_VALIDATION | TYPE_PERFORMANCE))
    } else {
        None
    }
}

/// Why an instance could not be created.
#[derive(Clone, Copy, Debug, PartialEq, Eq, Structural)]
pub enum InstanceError {
    /// The platform offers no Vulkan.
    Unavailable,
    /// Instance creation failed with this result code.
    Creation(i32),
}

/// What an instance is created with: its layers and extensions, and the
/// debug messenger filter it registers, if any.
#[derive(Clone, Debug)]
pub struct InstanceRequest {
    pub layers: Vec<&'static str>,
    pub extensions: Vec<&'static str>,
    pub messenger: Option<(u32, u32)>,
}

/// The instance to create: none where the platform offers no Vulkan;
/// otherwise the layers and extensions that `debug` calls for, after the
/// extensions the window system requires, and the messenger of a test
/// instance.
pub fn instance_request(vulkan_supported: bool, required_extensions: Vec<&'static str>, debug: bool, test: bool) -> (r:
    Result<InstanceRequest, InstanceError>)
    ensures
        r is Err <==> !vulkan_supported,
        r matches Err(e) ==> e == InstanceError::Unavailable,
        r matches Ok(q) ==> {
            &&& debug ==> q.layers@.len() == 1 && q.layers@[0]@ == "VK_LAYER_KHRONOS_validation"@
            &&& !debug ==> q.layers@.len() == 0
            &&& debug ==> q.extensions@.len() == required_extensions@.len() + 1 && q.extensions@.drop_last()
                == required_extensions@ && q.extensions@.last()@ == "VK_EXT_debug_utils"@
            &&& !debug ==> q.extensions@ == required_extensions@
            &&& test ==> q.messenger == Some(
                (SEVERITY_WARNING | SEVERITY_ERROR, TYPE_VALIDATION | TYPE_PERFORMANCE),
            )
            &&& !test ==> q.messenger is None
        },
{
    if !vulkan_supported {
        return Err(InstanceError::Unavailable);
    }
    let layers = instance_layers(debug);
    let extensions = instance_extensions(required_extensions, debug);
    let messenger = test_messenger_filter(test);
    Ok(InstanceRequest { layers, extensions, messenger })
}

/// The outcome of instance creation from its result code: success only
/// for `VK_SUCCESS`.
pub fn instance_created(code: i32) -> (r: Result<(), InstanceError>)
    ensures
        code == 0 ==> r is Ok,
        code != 0 ==> r == Err::<(), InstanceError>(InstanceError::Creation(code)),
{
    if code == 0 {
        Ok(())
    } else {
        Err(InstanceError::Creation(code))
    }
}

} // verus!
