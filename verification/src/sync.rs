use vstd::prelude::*;

verus! {

/// `VK_SUCCESS`.
pub const VK_SUCCESS: i32 = 0;

/// `VK_NOT_READY`.
pub const VK_NOT_READY: i32 = 1;

/// `VK_TIMEOUT`.
pub const VK_TIMEOUT: i32 = 2;

/// How a wait on a fence or semaphore ended.
#[derive(Clone, Copy, Debug, PartialEq, Eq, Structural)]
pub enum WaitResult {
    Success,
    Timeout,
}

pub open spec fn wait_outcome(code: i32) -> Result<WaitResult, i32> {
    if code == VK_SUCCESS {
        Ok(WaitResult::Success)
    } else if code == VK_TIMEOUT {
        Ok(WaitResult::Timeout)
    } else {
        Err(code)
    }
}

/// The outcome of a wait from the `VkResult` it returned; any other
/// result is an error, handed back.
pub fn wait_result(code: i32) -> (r: Result<WaitResult, i32>)
    ensures
        r == wait_outcome(code),
{
    if code == VK_SUCCESS {
        Ok(WaitResult::Success)
    } else if code == VK_TIMEOUT {
        Ok(WaitResult::Timeout)
    } else {
        Err(code)
    }
}

/// Whether a fence is signaled, from the status query's `VkResult`,
/// which is success or not-ready.
pub fn fence_signaled(code: i32) -> (r: bool)
    requires
        code == VK_SUCCESS || code == VK_NOT_READY,
    ensures
        r == (code == VK_SUCCESS),
{
    code == VK_SUCCESS
}

} // verus!
