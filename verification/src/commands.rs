use vstd::prelude::*;

verus! {

/// `VK_COMMAND_BUFFER_USAGE_ONE_TIME_SUBMIT_BIT`.
pub const USAGE_ONE_TIME_SUBMIT: u32 = 0x1;

/// `VK_COMMAND_BUFFER_USAGE_RENDER_PASS_CONTINUE_BIT`.
pub const USAGE_RENDER_PASS_CONTINUE: u32 = 0x2;

/// `VK_COMMAND_POOL_CREATE_TRANSIENT_BIT`.
pub const POOL_TRANSIENT: u32 = 0x1;

/// `VK_COMMAND_POOL_CREATE_RESET_COMMAND_BUFFER_BIT`.
pub const POOL_RESET_COMMAND_BUFFER: u32 = 0x2;

/// The lifecycle state of a command buffer.
#[derive(Clone, Copy, Debug, PartialEq, Eq, Structural, Hash)]
pub enum CmdBufferState {
    Initial,
    Recording,
    Executable,
    Pending,
}

impl Default for CmdBufferState {
    fn default() -> (r: Self)
        ensures
            r == CmdBufferState::Initial,
    {
        CmdBufferState::Initial
    }
}

/// What a command buffer is recorded for.
#[derive(Clone, Copy, Debug, PartialEq, Eq, Structural, Hash)]
pub enum CmdBufferLevel {
    Primary,
    Secondary,
    /// A secondary buffer that continues a render pass subpass.
    SubpassContinue,
}

impl Default for CmdBufferLevel {
    fn default() -> (r: Self)
        ensures
            r == CmdBufferLevel::Primary,
    {
        CmdBufferLevel::Primary
    }
}

/// Where the commands of a subpass come from.
#[derive(Clone, Copy, Debug, PartialEq, Eq, Structural, Hash)]
pub enum SubpassContents {
    Inline,
    Secondary,
}

impl Default for SubpassContents {
    fn default() -> (r: Self)
        ensures
            r == SubpassContents::Inline,
    {
        SubpassContents::Inline
    }
}

pub open spec fn level_is_secondary(level: CmdBufferLevel) -> bool {
    level != CmdBufferLevel::Primary
}

pub open spec fn level_usage_flags(level: CmdBufferLevel) -> u32 {
    if level == CmdBufferLevel::SubpassContinue {
        USAGE_RENDER_PASS_CONTINUE
    } else {
        0
    }
}

impl CmdBufferLevel {
    pub fn is_secondary(self) -> (r: bool)
        ensures
            r == level_is_secondary(self),
    {
        match self {
            CmdBufferLevel::Primary => false,
            CmdBufferLevel::Secondary | CmdBufferLevel::SubpassContinue => true,
        }
    }

    /// Usage flags that recording at this level must be begun with.
    pub fn required_usage_flags(self) -> (r: u32)
        ensures
            r == level_usage_flags(self),
    {
        if self == CmdBufferLevel::SubpassContinue {
            USAGE_RENDER_PASS_CONTINUE
        } else {
            0
        }
    }

    /// The level as `VkCommandBufferLevel`: 0 for primary, 1 for secondary.
    pub fn vk_level(self) -> (r: u32)
        ensures
            r == (if level_is_secondary(self) { 1u32 } else { 0u32 }),
    {
        if self.is_secondary() {
            1
        } else {
            0
        }
    }

    /// The usage flags that a buffer of this level is begun with: it is
    /// submitted once.
    pub fn begin_usage_flags(self) -> (r: u32)
        ensures
            r == level_usage_flags(self) | USAGE_ONE_TIME_SUBMIT,
    {
        self.required_usage_flags() | USAGE_ONE_TIME_SUBMIT
    }
}

impl SubpassContents {
    /// The contents as `VkSubpassContents`.
    pub fn vk_contents(self) -> (r: u32)
        ensures
            r == (if self == SubpassContents::Inline { 0u32 } else { 1u32 }),
    {
        match self {
            SubpassContents::Inline => 0,
            SubpassContents::Secondary => 1,
        }
    }
}

pub open spec fn pool_flags_allowed(flags: u32) -> bool {
    (POOL_TRANSIENT | POOL_RESET_COMMAND_BUFFER) & flags == flags
}

/// Whether a command pool may be created with `flags`: only the transient
/// and reset flags are supported.
pub fn valid_pool_flags(flags: u32) -> (r: bool)
    ensures
        r == pool_flags_allowed(flags),
{
    (POOL_TRANSIENT | POOL_RESET_COMMAND_BUFFER) & flags == flags
}

/// A command pool: the queue family it allocates for and its creation
/// flags.
#[derive(Clone, Copy, Debug)]
pub struct CmdPool {
    flags: u32,
    queue_family: u32,
}

impl CmdPool {
    pub closed spec fn flags_spec(&self) -> u32 {
        self.flags
    }

    pub closed spec fn queue_family_spec(&self) -> u32 {
        self.queue_family
    }

    /// A pool for queue family `queue_family`; only the transient and
    /// reset flags are supported.
    pub fn new(queue_family: u32, flags: u32) -> (r: Self)
        requires
            pool_flags_allowed(flags),
        ensures
            r.flags_spec() == flags,
            r.queue_family_spec() == queue_family,
    {
        CmdPool { flags, queue_family }
    }

    pub fn flags(&self) -> (r: u32)
        ensures
            r == self.flags_spec(),
    {
        self.flags
    }

    pub fn queue_family(&self) -> (r: u32)
        ensures
            r == self.queue_family_spec(),
    {
        self.queue_family
    }

    /// Buffers of the pool are short-lived.
    pub fn is_transient(&self) -> (r: bool)
        ensures
            r == (self.flags_spec() & POOL_TRANSIENT == POOL_TRANSIENT),
    {
        self.flags & POOL_TRANSIENT == POOL_TRANSIENT
    }

    /// Buffers of the pool may be reset one by one.
    pub fn reset_enabled(&self) -> (r: bool)
        ensures
            r == (self.flags_spec() & POOL_RESET_COMMAND_BUFFER == POOL_RESET_COMMAND_BUFFER),
    {
        self.flags & POOL_RESET_COMMAND_BUFFER == POOL_RESET_COMMAND_BUFFER
    }
}

/// The recording state of one command buffer.
#[derive(Clone, Copy, Debug)]
pub struct CmdBufferTracker {
    level: CmdBufferLevel,
    state: CmdBufferState,
}

impl CmdBufferTracker {
    pub closed spec fn level_spec(&self) -> CmdBufferLevel {
        self.level
    }

    pub closed spec fn state_spec(&self) -> CmdBufferState {
        self.state
    }

    /// A freshly allocated buffer.
    pub fn new(level: CmdBufferLevel) -> (r: Self)
        ensures
            r.level_spec() == level,
            r.state_spec() == CmdBufferState::Initial,
    {
        CmdBufferTracker { level, state: CmdBufferState::Initial }
    }

    pub fn level(&self) -> (r: CmdBufferLevel)
        ensures
            r == self.level_spec(),
    {
        self.level
    }

    pub fn state(&self) -> (r: CmdBufferState)
        ensures
            r == self.state_spec(),
    {
        self.state
    }

    pub fn is_recording(&self) -> (r: bool)
        ensures
            r == (self.state_spec() == CmdBufferState::Recording),
    {
        self.state == CmdBufferState::Recording
    }

    /// Recording begins; only a buffer in its initial state can begin.
    pub fn begin(&mut self)
        requires
            old(self).state_spec() == CmdBufferState::Initial,
        ensures
            final(self).state_spec() == CmdBufferState::Recording,
            final(self).level_spec() == old(self).level_spec(),
    {
        self.state = CmdBufferState::Recording;
    }

    /// Recording ends; only a recording buffer can end.
    pub fn end(&mut self)
        requires
            old(self).state_spec() == CmdBufferState::Recording,
        ensures
            final(self).state_spec() == CmdBufferState::Executable,
            final(self).level_spec() == old(self).level_spec(),
    {
        self.state = CmdBufferState::Executable;
    }
}

/// The state a render pass may be in while it is recorded at `level`: on
/// one of its subpasses, and inline when the buffer is secondary.
pub open spec fn pass_state_ok(level: CmdBufferLevel, subpass_count: int, cur: int, contents: SubpassContents) -> bool {
    &&& 0 <= cur < subpass_count
    &&& level == CmdBufferLevel::Secondary ==> contents == SubpassContents::Inline
}

/// Where the recording of a render pass stands.
#[derive(Clone, Copy, Debug)]
pub struct RenderPassTracker {
    level: CmdBufferLevel,
    subpass_count: usize,
    cur_subpass: usize,
    contents: SubpassContents,
}

impl RenderPassTracker {
    pub closed spec fn level_spec(&self) -> CmdBufferLevel {
        self.level
    }

    pub closed spec fn subpass_count_spec(&self) -> int {
        self.subpass_count as int
    }

    pub closed spec fn cur_subpass_spec(&self) -> int {
        self.cur_subpass as int
    }

    pub closed spec fn contents_spec(&self) -> SubpassContents {
        self.contents
    }

    /// The tracker's invariant, which every operation keeps.
    pub closed spec fn wf(&self) -> bool {
        &&& self.level != CmdBufferLevel::SubpassContinue
        &&& pass_state_ok(self.level, self.subpass_count as int, self.cur_subpass as int, self.contents)
    }

    /// The render pass begins on its first subpass. A subpass
    /// continuation cannot begin a render pass.
    pub fn begin(level: CmdBufferLevel, subpass_count: usize, contents: SubpassContents) -> (r: Self)
        requires
            level != CmdBufferLevel::SubpassContinue,
            pass_state_ok(level, subpass_count as int, 0, contents),
        ensures
            r.wf(),
            r.level_spec() == level,
            r.subpass_count_spec() == subpass_count,
            r.cur_subpass_spec() == 0,
            r.contents_spec() == contents,
    {
        RenderPassTracker { level, subpass_count, cur_subpass: 0, contents }
    }

    pub fn cur_subpass(&self) -> (r: usize)
        ensures
            r == self.cur_subpass_spec(),
    {
        self.cur_subpass
    }

    pub fn contents(&self) -> (r: SubpassContents)
        ensures
            r == self.contents_spec(),
    {
        self.contents
    }

    pub fn level(&self) -> (r: CmdBufferLevel)
        ensures
            r == self.level_spec(),
    {
        self.level
    }

    /// Whether commands can be recorded inline in the current subpass.
    pub fn can_enter_subpass(&self) -> (r: bool)
        ensures
            r == (self.contents_spec() == SubpassContents::Inline),
    {
        self.contents == SubpassContents::Inline
    }

    /// Whether secondary buffers can be executed in the current subpass.
    pub fn can_execute_cmds(&self) -> (r: bool)
        ensures
            r == (self.level_spec() == CmdBufferLevel::Primary && self.contents_spec()
                == SubpassContents::Secondary),
    {
        self.level == CmdBufferLevel::Primary && self.contents == SubpassContents::Secondary
    }

    /// Whether the pass can advance to its next subpass with `contents`.
    pub fn can_advance(&self, contents: SubpassContents) -> (r: bool)
        requires
            self.wf(),
        ensures
            r == pass_state_ok(self.level_spec(), self.subpass_count_spec(), self.cur_subpass_spec() + 1, contents),
    {
        self.cur_subpass + 1 < self.subpass_count && (self.level != CmdBufferLevel::Secondary || contents
            == SubpassContents::Inline)
    }

    /// Advances to the next subpass.
    pub fn next_subpass(&mut self, contents: SubpassContents)
        requires
            old(self).wf(),
            pass_state_ok(old(self).level_spec(), old(self).subpass_count_spec(), old(self).cur_subpass_spec() + 1, contents),
        ensures
            final(self).wf(),
            final(self).cur_subpass_spec() == old(self).cur_subpass_spec() + 1,
            final(self).contents_spec() == contents,
            final(self).level_spec() == old(self).level_spec(),
            final(self).subpass_count_spec() == old(self).subpass_count_spec(),
    {
        self.cur_subpass = self.cur_subpass + 1;
        self.contents = contents;
    }
}

impl RenderPassTracker {
    /// The subpass recording that entering the current subpass begins.
    pub open spec fn entered(self) -> SubpassTracker {
        SubpassTracker {
            level: self.level_spec(),
            subpass_count: self.subpass_count_spec() as usize,
            subpass: self.cur_subpass_spec() as usize,
            pipeline: None,
        }
    }

    /// Begins recording the current subpass inline; no pipeline is bound
    /// yet.
    pub fn enter_subpass(self) -> (r: SubpassTracker)
        requires
            self.wf(),
            self.contents_spec() == SubpassContents::Inline,
        ensures
            r.wf(),
            r == self.entered(),
    {
        SubpassTracker { level: self.level, subpass_count: self.subpass_count, subpass: self.cur_subpass, pipeline: None }
    }
}

/// Where the recording of one subpass stands: the level of the buffer,
/// which subpass of how many, and the graphics pipeline bound, by its id.
#[derive(Clone, Copy, Debug)]
pub struct SubpassTracker {
    pub level: CmdBufferLevel,
    pub subpass_count: usize,
    pub subpass: usize,
    pub pipeline: Option<u64>,
}

/// What binding `pipeline` does when `bound` is bound: the pipeline bound
/// afterwards, and whether a bind command is recorded. Binding the pipeline
/// that is already bound records nothing.
pub open spec fn bind_outcome(bound: Option<u64>, pipeline: u64) -> (Option<u64>, bool) {
    (Some(pipeline), bound != Some(pipeline))
}

impl SubpassTracker {
    /// The tracker's invariant: it records one of the pass's subpasses.
    pub open spec fn wf(&self) -> bool {
        self.subpass < self.subpass_count
    }

    /// The render pass recording that leaving this subpass returns to: on
    /// this subpass, recorded inline.
    pub closed spec fn exited(self) -> RenderPassTracker {
        RenderPassTracker {
            level: self.level,
            subpass_count: self.subpass_count,
            cur_subpass: self.subpass,
            contents: SubpassContents::Inline,
        }
    }

    /// Begins a secondary buffer that continues `subpass` of a pass with
    /// `subpass_count` subpasses.
    pub fn secondary(subpass_count: usize, subpass: usize) -> (r: Self)
        requires
            subpass < subpass_count,
        ensures
            r.wf(),
            r == (SubpassTracker {
                level: CmdBufferLevel::SubpassContinue,
                subpass_count,
                subpass,
                pipeline: None,
            }),
    {
        SubpassTracker { level: CmdBufferLevel::SubpassContinue, subpass_count, subpass, pipeline: None }
    }

    /// Whether the subpass is recorded inline in the render pass's buffer.
    pub fn is_inline(&self) -> (r: bool)
        ensures
            r == (self.level != CmdBufferLevel::SubpassContinue),
    {
        self.level != CmdBufferLevel::SubpassContinue
    }

    /// Whether a draw can be recorded: a graphics pipeline is bound.
    pub fn can_draw(&self) -> (r: bool)
        ensures
            r == self.pipeline.is_some(),
    {
        self.pipeline.is_some()
    }

    /// Binds the graphics pipeline `pipeline`, made for subpass
    /// `pipeline_subpass`, and says whether a bind command is recorded:
    /// not when that pipeline is bound already. Another pipeline must
    /// belong to this subpass.
    pub fn bind_gfx_pipe(&mut self, pipeline: u64, pipeline_subpass: usize) -> (issued: bool)
        requires
            old(self).pipeline != Some(pipeline) ==> pipeline_subpass == old(self).subpass,
        ensures
            (final(self).pipeline, issued) == bind_outcome(old(self).pipeline, pipeline),
            final(self).level == old(self).level,
            final(self).subpass_count == old(self).subpass_count,
            final(self).subpass == old(self).subpass,
    {
        let issued = match self.pipeline {
            Some(bound) => bound != pipeline,
            None => true,
        };
        self.pipeline = Some(pipeline);
        issued
    }

    /// Stops recording commands within the subpass, without advancing to
    /// the next one. Only an inline subpass returns to its render pass.
    pub fn exit_subpass(self) -> (r: RenderPassTracker)
        requires
            self.wf(),
            self.level != CmdBufferLevel::SubpassContinue,
        ensures
            r.wf(),
            r == self.exited(),
            r.level_spec() == self.level,
            r.subpass_count_spec() == self.subpass_count,
            r.cur_subpass_spec() == self.subpass,
            r.contents_spec() == SubpassContents::Inline,
    {
        RenderPassTracker {
            level: self.level,
            subpass_count: self.subpass_count,
            cur_subpass: self.subpass,
            contents: SubpassContents::Inline,
        }
    }
}

/// Leaving a subpass that was entered gives back the render pass
/// recording as it stood.
pub proof fn law_exit_undoes_enter(pass: RenderPassTracker)
    requires
        pass.wf(),
        pass.contents_spec() == SubpassContents::Inline,
    ensures
        pass.entered().exited() == pass,
{
}

/// Binding a pipeline a second time records no second bind command, and
/// leaves it bound.
pub proof fn law_rebind_is_skipped(bound: Option<u64>, pipeline: u64)
    ensures
        bind_outcome(bind_outcome(bound, pipeline).0, pipeline) == (Some(pipeline), false),
{
}

/// Whether the commands of a subpass recorded at `level` are recorded
/// inline in the render pass's own buffer.
pub fn is_inline(level: CmdBufferLevel) -> (r: bool)
    ensures
        r == (level != CmdBufferLevel::SubpassContinue),
{
    level != CmdBufferLevel::SubpassContinue
}

} // verus!
