//! Pulling a GPU buffer handle out of another process into this one.
//!
//! A handle is only meaningful inside the process that owns it, so the number in a message
//! is useless until the kernel is asked to make it ours. What the kernel answers is judged
//! here.
use crate::error::PipelineError;
use crate::text::{decimal, decimal_text, joined, signed, signed_text};
use vstd::prelude::*;
use vstd::string::*;

verus! {

/// A handle as the *producer* numbers it: a descriptor on Linux, an NT handle on Windows.
///
/// It is a number that means something somewhere else, and is not to be mistaken for one
/// that is valid here.
#[derive(Debug, Clone, Copy, PartialEq, Eq, Structural)]
pub struct RemoteHandle(pub i64);

/// A descriptor that the kernel returned, where it fits one.
pub open spec fn is_descriptor(returned: i64) -> bool {
    0 <= returned <= i32::MAX
}

/// Judge what opening a reference to process `pid` returned. `said` is what the system
/// calls the error, where there was one.
pub fn opened(pid: u32, returned: i64, said: &str) -> (fd: Result<i32, PipelineError>)
    ensures
        match fd {
            Ok(fd) => is_descriptor(returned) && fd == returned,
            Err(PipelineError::GpuImport(why)) => if returned < 0 {
                why@ == "pidfd_open("@ + decimal_text(pid as nat) + "): "@ + said@
            } else {
                &&& !is_descriptor(returned)
                &&& why@ == "pidfd_open returned "@ + signed_text(returned as int)
            },
            Err(_) => false,
        },
{
    if returned < 0 {
        let mut why: String = joined("pidfd_open(", decimal(pid as u64).as_str());
        why.append("): ");
        why.append(said);
        return Err(PipelineError::GpuImport(why));
    }
    if returned > i32::MAX as i64 {
        return Err(
            PipelineError::GpuImport(joined("pidfd_open returned ", signed(returned).as_str())),
        );
    }
    Ok(returned as i32)
}

/// Judge what fetching another process's descriptor returned. `said` is what the system
/// calls the error, where there was one.
///
/// The message names the policy that a hardened system or a re-parented producer fails by.
pub fn pulled(remote: RemoteHandle, returned: i64, said: &str) -> (fd: Result<i32, PipelineError>)
    ensures
        match fd {
            Ok(fd) => is_descriptor(returned) && fd == returned,
            Err(PipelineError::GpuImport(why)) => if returned < 0 {
                why@ == "pidfd_getfd("@ + signed_text(remote.0 as int) + "): "@ + said@
                    + " — needs PTRACE_MODE_ATTACH; under kernel.yama.ptrace_scope=1 the browser must be a direct child"@
            } else {
                &&& !is_descriptor(returned)
                &&& why@ == "pidfd_getfd returned "@ + signed_text(returned as int)
            },
            Err(_) => false,
        },
{
    if returned < 0 {
        let mut why: String = joined("pidfd_getfd(", signed(remote.0).as_str());
        why.append("): ");
        why.append(said);
        why.append(
            " — needs PTRACE_MODE_ATTACH; under kernel.yama.ptrace_scope=1 the browser must be a direct child",
        );
        return Err(PipelineError::GpuImport(why));
    }
    if returned > i32::MAX as i64 {
        return Err(
            PipelineError::GpuImport(joined("pidfd_getfd returned ", signed(returned).as_str())),
        );
    }
    Ok(returned as i32)
}

/// **A descriptor is one that fits.** What the kernel returned is taken as it is where it is a
/// descriptor, and refused where it is below zero or too great to be one.
pub proof fn a_descriptor_is_one_that_fits(
    pid: u32,
    remote: RemoteHandle,
    returned: i64,
    said: &str,
    process: Result<i32, PipelineError>,
    fd: Result<i32, PipelineError>,
)
    requires
        call_ensures(opened, (pid, returned, said), process),
        call_ensures(pulled, (remote, returned, said), fd),
    ensures
        process is Ok <==> 0 <= returned <= i32::MAX,
        fd is Ok <==> 0 <= returned <= i32::MAX,
        process matches Ok(number) ==> number == returned,
        fd matches Ok(number) ==> number == returned,
{
}

} // verus!
