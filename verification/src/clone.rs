//! Clone-flag arithmetic for process creation. The raw process-creation
//! call needs a caller-owned stack and raw pointers, so it lives with the
//! embedding program; what is decided here, and verified, is which flag
//! words that call may be given.
use vstd::prelude::*;
use crate::sys;

verus! {

/// Share the address space with the parent.
pub const CLONE_VM: u64 = 0x00000100;

/// Share signal handlers with the parent.
pub const CLONE_SIGHAND: u64 = 0x00000800;

/// Place the child in the parent's thread group.
pub const CLONE_THREAD: u64 = 0x00010000;

/// The `SIGCHLD` termination-signal byte of a clone-flags word.
pub const SIGCHLD_FLAG: u64 = 17;

/// The flag word for spawning a true process: whatever the caller asked
/// for, with address-space and thread-group sharing forced off, so the
/// child never shares memory with its parent.
pub fn proc_clone_flags(flags: u64) -> (r: u64)
    ensures
        r == flags & !(CLONE_VM | CLONE_THREAD),
        r & CLONE_VM == 0,
        r & CLONE_THREAD == 0,
{
    let r = flags & !(CLONE_VM | CLONE_THREAD);
    proof {
        assert((flags & !(0x00000100u64 | 0x00010000u64)) & 0x00000100u64 == 0 && (flags & !(
        0x00000100u64 | 0x00010000u64)) & 0x00010000u64 == 0) by (bit_vector);
    }
    r
}

/// The flag word for spawning a thread: address-space, thread-group and
/// signal-handler sharing forced on, and the user and pid namespace bits
/// silently dropped, since they are incompatible with a shared address
/// space.
pub fn thread_clone_flags(flags: u64) -> (r: u64)
    ensures
        r == (flags | CLONE_VM | CLONE_THREAD | CLONE_SIGHAND) & !(sys::CLONE_NEWUSER
            | sys::CLONE_NEWPID),
        r & sys::CLONE_NEWUSER == 0,
        r & sys::CLONE_NEWPID == 0,
        r & CLONE_VM != 0,
        r & CLONE_THREAD != 0,
        r & CLONE_SIGHAND != 0,
{
    let r = (flags | CLONE_VM | CLONE_THREAD | CLONE_SIGHAND) & !(sys::CLONE_NEWUSER
        | sys::CLONE_NEWPID);
    proof {
        assert({
            let w = (flags | 0x00000100u64 | 0x00010000u64 | 0x00000800u64) & !(0x10000000u64
                | 0x20000000u64);
            w & 0x10000000u64 == 0 && w & 0x20000000u64 == 0 && w & 0x00000100u64 != 0 && w
                & 0x00010000u64 != 0 && w & 0x00000800u64 != 0
        }) by (bit_vector);
    }
    r
}

/// The flag word the engine gives the init process: a fresh namespace of
/// every kind, and `SIGCHLD` so the caller is told when init exits.
pub fn isolation_clone_flags() -> (r: u64)
    ensures
        r == (sys::ALL_NAMESPACE_BITS | SIGCHLD_FLAG),
        r & sys::CLONE_NEWUSER != 0,
        r & sys::CLONE_NEWPID != 0,
        r & sys::CLONE_NEWNS != 0,
        r & sys::CLONE_NEWUTS != 0,
        r & sys::CLONE_NEWIPC != 0,
        r & sys::CLONE_NEWNET != 0,
        r & sys::CLONE_NEWCGROUP != 0,
{
    proof {
        assert((0x7e020000u64 | 17u64) & 0x10000000u64 != 0 && (0x7e020000u64 | 17u64)
            & 0x20000000u64 != 0 && (0x7e020000u64 | 17u64) & 0x00020000u64 != 0 && (0x7e020000u64
            | 17u64) & 0x04000000u64 != 0 && (0x7e020000u64 | 17u64) & 0x08000000u64 != 0 && (
        0x7e020000u64 | 17u64) & 0x40000000u64 != 0 && (0x7e020000u64 | 17u64) & 0x02000000u64
            != 0) by (bit_vector);
    }
    sys::ALL_NAMESPACE_BITS | SIGCHLD_FLAG
}

} // verus!
