use vstd::prelude::*;
use vstd::string::StringExecFns;

verus! {

// `VkDebugUtilsMessageSeverityFlagBitsEXT`.
pub const SEVERITY_VERBOSE: u32 = 0x1;
pub const SEVERITY_INFO: u32 = 0x10;
pub const SEVERITY_WARNING: u32 = 0x100;
pub const SEVERITY_ERROR: u32 = 0x1000;

// `VkDebugUtilsMessageTypeFlagBitsEXT`.
pub const TYPE_GENERAL: u32 = 0x1;
pub const TYPE_VALIDATION: u32 = 0x2;
pub const TYPE_PERFORMANCE: u32 = 0x4;

/// The label of a message severity; a value that is not exactly one
/// severity has none.
pub open spec fn severity_label(flags: u32) -> Seq<char> {
    if flags == SEVERITY_VERBOSE {
        "VERBOSE"@
    } else if flags == SEVERITY_INFO {
        "INFO"@
    } else if flags == SEVERITY_WARNING {
        "WARNING"@
    } else if flags == SEVERITY_ERROR {
        "ERROR"@
    } else {
        "unknown severity"@
    }
}

/// The label a message of severity `flags` is printed with.
pub fn severity_name(flags: u32) -> (r: &'static str)
    ensures
        r@ == severity_label(flags),
{
    if flags == SEVERITY_VERBOSE {
        "VERBOSE"
    } else if flags == SEVERITY_INFO {
        "INFO"
    } else if flags == SEVERITY_WARNING {
        "WARNING"
    } else if flags == SEVERITY_ERROR {
        "ERROR"
    } else {
        "unknown severity"
    }
}

pub open spec fn has_type(flags: u32, bit: u32) -> bool {
    flags & bit == bit
}

/// The labels of the message types in `flags`, in the order general,
/// validation, performance; a single "unknown type" when there is none of
/// them. They are printed joined by " | ".
pub open spec fn type_labels(flags: u32) -> Seq<Seq<char>> {
    let general = if has_type(flags, TYPE_GENERAL) { seq!["GENERAL"@] } else { Seq::empty() };
    let validation = if has_type(flags, TYPE_VALIDATION) { seq!["VALIDATION"@] } else { Seq::empty() };
    let performance = if has_type(flags, TYPE_PERFORMANCE) { seq!["PERFORMANCE"@] } else { Seq::empty() };
    let all = general + validation + performance;
    if all.len() == 0 {
        seq!["unknown type"@]
    } else {
        all
    }
}

pub open spec fn views(names: Seq<&'static str>) -> Seq<Seq<char>> {
    Seq::new(names.len(), |i: int| names[i]@)
}

/// The labels of the message types in `flags`.
pub fn type_names(flags: u32) -> (r: Vec<&'static str>)
    ensures
        views(r@) == type_labels(flags),
{
    let mut names: Vec<&'static str> = Vec::new();
    if flags & TYPE_GENERAL == TYPE_GENERAL {
        names.push("GENERAL");
    }
    let ghost after_general = names@;
    if flags & TYPE_VALIDATION == TYPE_VALIDATION {
        names.push("VALIDATION");
    }
    let ghost after_validation = names@;
    if flags & TYPE_PERFORMANCE == TYPE_PERFORMANCE {
        names.push("PERFORMANCE");
    }
    if names.len() == 0 {
        names.push("unknown type");
    }
    proof {
        let general = if has_type(flags, TYPE_GENERAL) { seq!["GENERAL"@] } else { Seq::<Seq<char>>::empty() };
        let validation = if has_type(flags, TYPE_VALIDATION) { seq!["VALIDATION"@] } else { Seq::<Seq<char>>::empty() };
        let performance = if has_type(flags, TYPE_PERFORMANCE) { seq!["PERFORMANCE"@] } else { Seq::<Seq<char>>::empty() };
        assert(views(after_general) =~= general);
        assert(views(after_validation) =~= general + validation);
        let all = general + validation + performance;
        if all.len() == 0 {
            assert(views(names@) =~= seq!["unknown type"@]);
        } else {
            assert(views(names@) =~= all);
        }
    }
    names
}

/// `labels` joined by " | ".
pub open spec fn joined(labels: Seq<Seq<char>>) -> Seq<char>
    decreases labels.len(),
{
    if labels.len() == 0 {
        Seq::empty()
    } else if labels.len() == 1 {
        labels[0]
    } else {
        joined(labels.drop_last()) + " | "@ + labels.last()
    }
}

/// The text of the message types in `flags`: their labels joined by
/// " | ", or "unknown type".
pub fn type_text(flags: u32) -> (r: String)
    ensures
        r@ == joined(type_labels(flags)),
{
    let names = type_names(flags);
    let mut text = String::new();
    let mut k: usize = 0;
    while k < names.len()
        invariant
            k <= names@.len(),
            text@ == joined(views(names@).subrange(0, k as int)),
        decreases names@.len() - k,
    {
        let ghost before = text@;
        if k > 0 {
            text.append(" | ");
        }
        text.append(names[k]);
        proof {
            let v = views(names@);
            assert(v.subrange(0, k + 1).drop_last() =~= v.subrange(0, k as int));
            assert(v.subrange(0, k + 1).last() == names@[k as int]@);
            if k == 0 {
                assert(before =~= Seq::<char>::empty());
                assert(text@ =~= names@[0]@);
            }
        }
        k = k + 1;
    }
    proof {
        assert(views(names@).subrange(0, names@.len() as int) =~= views(names@));
    }
    text
}

/// The name that debug messages give objects of `VkObjectType` `ty`.
pub open spec fn object_type_label(ty: u32) -> Seq<char> {
    if ty == 1 {
        "Instance"@
    } else if ty == 2 {
        "PhysicalDevice"@
    } else if ty == 3 {
        "Device"@
    } else if ty == 4 {
        "Queue"@
    } else if ty == 5 {
        "Semaphore"@
    } else if ty == 6 {
        "CommandBuffer"@
    } else if ty == 7 {
        "Fence"@
    } else if ty == 8 {
        "DeviceMemory"@
    } else if ty == 9 {
        "Buffer"@
    } else if ty == 10 {
        "Image"@
    } else if ty == 11 {
        "Event"@
    } else if ty == 12 {
        "QueryPool"@
    } else if ty == 13 {
        "BufferView"@
    } else if ty == 14 {
        "ImageView"@
    } else if ty == 15 {
        "ShaderModule"@
    } else if ty == 16 {
        "PipelineCache"@
    } else if ty == 17 {
        "PipelineLayout"@
    } else if ty == 18 {
        "RenderPass"@
    } else if ty == 19 {
        "Pipeline"@
    } else if ty == 20 {
        "DescriptorSetLayout"@
    } else if ty == 21 {
        "Sampler"@
    } else if ty == 22 {
        "DescriptorPool"@
    } else if ty == 23 {
        "DescriptorSet"@
    } else if ty == 24 {
        "Framebuffer"@
    } else if ty == 25 {
        "CommandPool"@
    } else if ty == 1000156000 {
        "SamplerYcbcrConversion"@
    } else if ty == 1000085000 {
        "DescriptorUpdateTemplate"@
    } else if ty == 1000000000 {
        "SurfaceKHR"@
    } else if ty == 1000001000 {
        "SwapchainKHR"@
    } else if ty == 1000002000 {
        "DisplayKHR"@
    } else if ty == 1000002001 {
        "DisplayModeKHR"@
    } else if ty == 1000011000 {
        "DebugReportCallbackEXT"@
    } else if ty == 1000086000 {
        "ObjectTableNVX"@
    } else if ty == 1000086001 {
        "IndirectCommandsLayoutNVX"@
    } else if ty == 1000128000 {
        "DebugUtilsMessengerEXT"@
    } else if ty == 1000160000 {
        "ValidationCacheEXT"@
    } else if ty == 1000165000 {
        "AccelerationStructureNV"@
    } else {
        "unknown type"@
    }
}

/// The name of an object type in debug messages.
pub fn object_type_name(ty: u32) -> (r: &'static str)
    ensures
        r@ == object_type_label(ty),
{
    if ty == 1 {
        "Instance"
    } else if ty == 2 {
        "PhysicalDevice"
    } else if ty == 3 {
        "Device"
    } else if ty == 4 {
        "Queue"
    } else if ty == 5 {
        "Semaphore"
    } else if ty == 6 {
        "CommandBuffer"
    } else if ty == 7 {
        "Fence"
    } else if ty == 8 {
        "DeviceMemory"
    } else if ty == 9 {
        "Buffer"
    } else if ty == 10 {
        "Image"
    } else if ty == 11 {
        "Event"
    } else if ty == 12 {
        "QueryPool"
    } else if ty == 13 {
        "BufferView"
    } else if ty == 14 {
        "ImageView"
    } else if ty == 15 {
        "ShaderModule"
    } else if ty == 16 {
        "PipelineCache"
    } else if ty == 17 {
        "PipelineLayout"
    } else if ty == 18 {
        "RenderPass"
    } else if ty == 19 {
        "Pipeline"
    } else if ty == 20 {
        "DescriptorSetLayout"
    } else if ty == 21 {
        "Sampler"
    } else if ty == 22 {
        "DescriptorPool"
    } else if ty == 23 {
        "DescriptorSet"
    } else if ty == 24 {
        "Framebuffer"
    } else if ty == 25 {
        "CommandPool"
    } else if ty == 1000156000 {
        "SamplerYcbcrConversion"
    } else if ty == 1000085000 {
        "DescriptorUpdateTemplate"
    } else if ty == 1000000000 {
        "SurfaceKHR"
    } else if ty == 1000001000 {
        "SwapchainKHR"
    } else if ty == 1000002000 {
        "DisplayKHR"
    } else if ty == 1000002001 {
        "DisplayModeKHR"
    } else if ty == 1000011000 {
        "DebugReportCallbackEXT"
    } else if ty == 1000086000 {
        "ObjectTableNVX"
    } else if ty == 1000086001 {
        "IndirectCommandsLayoutNVX"
    } else if ty == 1000128000 {
        "DebugUtilsMessengerEXT"
    } else if ty == 1000160000 {
        "ValidationCacheEXT"
    } else if ty == 1000165000 {
        "AccelerationStructureNV"
    } else {
        "unknown type"
    }
}

/// The first line a debug message is printed with:
/// `[severity][types] id name: message`.
pub open spec fn message_header_text(severity: u32, types: u32, id_name: Seq<char>, message: Seq<char>) -> Seq<char> {
    "["@ + severity_label(severity) + "]["@ + joined(type_labels(types)) + "] "@ + id_name + ": "@ + message
}

/// The first line of a debug message of severity `severity` and types
/// `types`, with its id name and text.
pub fn message_header(severity: u32, types: u32, id_name: &str, message: &str) -> (r: String)
    ensures
        r@ == message_header_text(severity, types, id_name@, message@),
{
    let mut text = String::from_str("[");
    text.append(severity_name(severity));
    text.append("][");
    let names = type_text(types);
    text.append(names.as_str());
    text.append("] ");
    text.append(id_name);
    text.append(": ");
    text.append(message);
    text
}

/// Counts the messages a debug messenger has handled.
#[derive(Debug, Default)]
pub struct MessageCounter {
    count: u32,
}

impl MessageCounter {
    pub closed spec fn count_spec(&self) -> u32 {
        self.count
    }

    pub fn new() -> (r: Self)
        ensures
            r.count_spec() == 0,
    {
        MessageCounter { count: 0 }
    }

    pub fn message_count(&self) -> (r: u32)
        ensures
            r == self.count_spec(),
    {
        self.count
    }

    /// Records one more message; the count wraps around as an atomic
    /// counter does.
    pub fn record(&mut self)
        ensures
            final(self).count_spec() == old(self).count_spec().wrapping_add(1),
    {
        self.count = self.count.wrapping_add(1);
    }
}

} // verus!
