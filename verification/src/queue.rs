use vstd::prelude::*;

verus! {

/// `VK_QUEUE_GRAPHICS_BIT`.
pub const QUEUE_GRAPHICS: u32 = 0x1;

/// `VK_QUEUE_COMPUTE_BIT`.
pub const QUEUE_COMPUTE: u32 = 0x2;

/// `VK_QUEUE_TRANSFER_BIT`.
pub const QUEUE_TRANSFER: u32 = 0x4;

/// Hierarchical queue capability classes.
#[derive(Clone, Copy, Debug, PartialEq, Eq, Structural, Hash)]
pub enum QueueType {
    /// Supports graphics, compute, transfer, and present operations.
    Graphics,
    /// Supports compute and transfer operations.
    Compute,
    /// Supports transfer operations only.
    Xfer,
}

/// Position in the hierarchy: a class does what every class after it does.
pub open spec fn queue_rank(ty: QueueType) -> int {
    match ty {
        QueueType::Graphics => 0,
        QueueType::Compute => 1,
        QueueType::Xfer => 2,
    }
}

/// Whether a queue of class `a` can do the work of class `b`.
pub open spec fn queue_supports(a: QueueType, b: QueueType) -> bool {
    queue_rank(a) <= queue_rank(b)
}

/// A queue family's flags name a class, and a graphics family also
/// claims compute.
pub open spec fn queue_flags_ok(flags: u32) -> bool {
    &&& flags & (QUEUE_GRAPHICS | QUEUE_COMPUTE | QUEUE_TRANSFER) != 0
    &&& flags & QUEUE_GRAPHICS != 0 ==> flags & QUEUE_COMPUTE != 0
}

/// The class of a queue family, from its most capable flag.
pub open spec fn queue_type_of(flags: u32) -> QueueType {
    if flags & QUEUE_GRAPHICS != 0 {
        QueueType::Graphics
    } else if flags & QUEUE_COMPUTE != 0 {
        QueueType::Compute
    } else {
        QueueType::Xfer
    }
}

impl QueueType {
    /// The class of a queue family with `VkQueueFlags` `flags`.
    pub fn from_flags(flags: u32) -> (r: QueueType)
        requires
            queue_flags_ok(flags),
        ensures
            r == queue_type_of(flags),
    {
        if flags & QUEUE_GRAPHICS != 0 {
            QueueType::Graphics
        } else if flags & QUEUE_COMPUTE != 0 {
            QueueType::Compute
        } else {
            QueueType::Xfer
        }
    }

    fn rank(self) -> (r: u8)
        ensures
            r == queue_rank(self),
    {
        match self {
            QueueType::Graphics => 0,
            QueueType::Compute => 1,
            QueueType::Xfer => 2,
        }
    }

    /// Whether this class can do the work of class `other`.
    pub fn supports(self, other: Self) -> (r: bool)
        ensures
            r == queue_supports(self, other),
    {
        self.rank() <= other.rank()
    }

    pub fn supports_graphics(self) -> (r: bool)
        ensures
            r == queue_supports(self, QueueType::Graphics),
            r <==> self == QueueType::Graphics,
    {
        self.supports(QueueType::Graphics)
    }

    pub fn supports_xfer(self) -> (r: bool)
        ensures
            r == queue_supports(self, QueueType::Xfer),
            r,
    {
        self.supports(QueueType::Xfer)
    }

    /// Every class supports itself, and support is transitive: the
    /// classes form a hierarchy.
    pub proof fn law_supports_hierarchy(a: QueueType, b: QueueType, c: QueueType)
        ensures
            queue_supports(a, a),
            queue_supports(a, b) && queue_supports(b, c) ==> queue_supports(a, c),
            queue_supports(a, b) || queue_supports(b, a),
            queue_supports(a, b) && queue_supports(b, a) ==> a == b,
    {
    }
}

/// A device can present and do all work through its first queue family
/// when that family has graphics, compute and transfer.
pub open spec fn family_presentable(flags: u32) -> bool {
    flags & (QUEUE_GRAPHICS | QUEUE_COMPUTE | QUEUE_TRANSFER) == (QUEUE_GRAPHICS | QUEUE_COMPUTE
        | QUEUE_TRANSFER)
}

/// Whether a queue family with these flags has all the capabilities that
/// the renderer asks of the family it presents from.
pub fn is_presentable_family(flags: u32) -> (r: bool)
    ensures
        r == family_presentable(flags),
{
    let required = QUEUE_GRAPHICS | QUEUE_COMPUTE | QUEUE_TRANSFER;
    flags & required == required
}

} // verus!
