use vstd::prelude::*;

verus! {

/// Frame numbering and the swapchain image of the frame being rendered.
/// The number starts at one; the timeline semaphore that tracks
/// completed frames is created with that value.
#[derive(Clone, Copy, Debug)]
pub struct FrameCounter {
    frame_num: u64,
    image_idx: u32,
}

impl FrameCounter {
    pub closed spec fn frame_num_spec(&self) -> u64 {
        self.frame_num
    }

    pub closed spec fn image_index_spec(&self) -> u32 {
        self.image_idx
    }

    pub fn new() -> (r: Self)
        ensures
            r.frame_num_spec() == 1,
            r.image_index_spec() == 0,
    {
        FrameCounter { frame_num: 1, image_idx: 0 }
    }

    pub fn frame_num(&self) -> (r: u64)
        ensures
            r == self.frame_num_spec(),
    {
        self.frame_num
    }

    pub fn image_index(&self) -> (r: u32)
        ensures
            r == self.image_index_spec(),
    {
        self.image_idx
    }

    /// Whether the current frame is still in flight, given the value the
    /// completion semaphore has reached.
    pub fn pending(&self, completed: u64) -> (r: bool)
        ensures
            r == (completed != self.frame_num_spec()),
    {
        completed != self.frame_num
    }

    /// Starts the next frame on swapchain image `image`. Only a finished
    /// frame can be followed by another.
    pub fn acquire(&mut self, completed: u64, image: u32)
        requires
            completed == old(self).frame_num_spec(),
            old(self).frame_num_spec() < u64::MAX,
        ensures
            final(self).frame_num_spec() == old(self).frame_num_spec() + 1,
            final(self).image_index_spec() == image,
    {
        self.image_idx = image;
        self.frame_num = self.frame_num + 1;
    }
}

/// Frame pacing of the render loop: the number of the current frame and
/// of the last frame submitted. At most one frame is in flight.
#[derive(Clone, Copy, Debug)]
pub struct FramePacer {
    frame_num: u64,
    frame_in_flight: u64,
}

impl FramePacer {
    pub closed spec fn frame_num_spec(&self) -> u64 {
        self.frame_num
    }

    pub closed spec fn in_flight_spec(&self) -> bool {
        self.frame_in_flight == self.frame_num
    }

    /// The pacer's invariant, which every operation keeps: the last frame
    /// submitted is the current frame or the one before it.
    pub closed spec fn wf(&self) -> bool {
        self.frame_in_flight == self.frame_num || self.frame_in_flight + 1 == self.frame_num
    }

    /// Frame one, nothing submitted yet.
    pub fn new() -> (r: Self)
        ensures
            r.wf(),
            r.frame_num_spec() == 1,
            !r.in_flight_spec(),
    {
        FramePacer { frame_num: 1, frame_in_flight: 0 }
    }

    pub fn frame_num(&self) -> (r: u64)
        ensures
            r == self.frame_num_spec(),
    {
        self.frame_num
    }

    pub fn is_frame_in_flight(&self) -> (r: bool)
        ensures
            r == self.in_flight_spec(),
    {
        self.frame_in_flight == self.frame_num
    }

    /// Retires the frame in flight, if there is one: the caller then waits
    /// for its fence and resets it, and the next frame becomes current.
    /// Returns whether there was a frame to wait for.
    pub fn finish_frame(&mut self) -> (r: bool)
        requires
            old(self).wf(),
            old(self).frame_num_spec() < u64::MAX,
        ensures
            final(self).wf(),
            r == old(self).in_flight_spec(),
            !final(self).in_flight_spec(),
            final(self).frame_num_spec() == if r {
                old(self).frame_num_spec() + 1
            } else {
                old(self).frame_num_spec() as int
            },
    {
        if self.frame_in_flight != self.frame_num {
            return false;
        }
        self.frame_num = self.frame_num + 1;
        true
    }

    /// Submits the current frame; returns its number.
    pub fn begin_frame(&mut self) -> (r: u64)
        requires
            old(self).wf(),
            !old(self).in_flight_spec(),
        ensures
            final(self).wf(),
            final(self).in_flight_spec(),
            r == old(self).frame_num_spec(),
            final(self).frame_num_spec() == old(self).frame_num_spec(),
    {
        self.frame_in_flight = self.frame_in_flight + 1;
        self.frame_num
    }
}

/// Starts the render loop once its swapchain has been set up: where the
/// setup failed, its error is the loop's; otherwise frame pacing starts
/// at frame one with nothing in flight.
pub fn start_render_loop<E>(setup: Result<(), E>) -> (r: Result<FramePacer, E>)
    ensures
        r is Err <==> setup is Err,
        setup matches Err(e) ==> r == Err::<FramePacer, E>(e),
        r matches Ok(p) ==> p.wf() && p.frame_num_spec() == 1 && !p.in_flight_spec(),
{
    match setup {
        Err(e) => Err(e),
        Ok(()) => Ok(FramePacer::new()),
    }
}

/// Which of `slots` per-frame resource sets frame `frame_num` uses.
pub fn frame_slot(frame_num: u64, slots: u64) -> (r: u64)
    requires
        slots > 0,
    ensures
        r == frame_num % slots,
        r < slots,
{
    frame_num % slots
}

/// The frame that a thread's per-frame resources were last used for.
#[derive(Clone, Copy, Debug)]
pub struct FrameLocalState {
    frame_num: u64,
}

impl FrameLocalState {
    pub closed spec fn frame_num_spec(&self) -> u64 {
        self.frame_num
    }

    pub fn new() -> (r: Self)
        ensures
            r.frame_num_spec() == 0,
    {
        FrameLocalState { frame_num: 0 }
    }

    /// Moves the resources to frame `frame_num`. Returns whether they
    /// were last used for another frame, in which case their command pool
    /// must be reset.
    pub fn update_frame(&mut self, frame_num: u64) -> (r: bool)
        ensures
            r == (old(self).frame_num_spec() != frame_num),
            final(self).frame_num_spec() == frame_num,
    {
        if self.frame_num == frame_num {
            return false;
        }
        self.frame_num = frame_num;
        true
    }
}

} // verus!
