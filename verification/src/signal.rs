//! Thread signal-mask manipulation, and the mask semantics the suspend /
//! resume protocol depends on.
use vstd::prelude::*;
use crate::error::Error;
use crate::sys;

verus! {

/// The signal numbers this engine coordinates with.
pub const SIGUSR1: i32 = 10;

pub const SIGCHLD: i32 = 17;

pub const SIGCONT: i32 = 18;

/// Block the given signals for the calling thread: the new mask is the
/// union of the current mask and the set.
pub fn block(set: &[i32]) -> (r: Result<(), Error>)
    requires
        forall|i: int| 0 <= i < set@.len() ==> sys::valid_signal(#[trigger] set@[i]),
    ensures
        r matches Err(e) ==> e is Signal,
{
    match sys::sigprocmask_block(set) {
        Ok(()) => Ok(()),
        Err(e) => Err(Error::Signal(e)),
    }
}

/// Unblock the given signals for the calling thread: they are removed from
/// the current mask; removing a signal that is not blocked is a no-op, not
/// an error.
pub fn unblock(set: &[i32]) -> (r: Result<(), Error>)
    requires
        forall|i: int| 0 <= i < set@.len() ==> sys::valid_signal(#[trigger] set@[i]),
    ensures
        r matches Err(e) ==> e is Signal,
{
    match sys::sigprocmask_unblock(set) {
        Ok(()) => Ok(()),
        Err(e) => Err(Error::Signal(e)),
    }
}

/// Replace the calling thread's mask with the given set.
pub fn setmask(set: &[i32]) -> (r: Result<(), Error>)
    requires
        forall|i: int| 0 <= i < set@.len() ==> sys::valid_signal(#[trigger] set@[i]),
    ensures
        r matches Err(e) ==> e is Signal,
{
    match sys::sigprocmask_setmask(set) {
        Ok(()) => Ok(()),
        Err(e) => Err(Error::Signal(e)),
    }
}

/// What `block` does to a thread's mask, as a set of signal numbers.
pub open spec fn mask_after_block(mask: Set<i32>, set: Set<i32>) -> Set<i32> {
    mask.union(set)
}

/// What `unblock` does to a thread's mask.
pub open spec fn mask_after_unblock(mask: Set<i32>, set: Set<i32>) -> Set<i32> {
    mask.difference(set)
}

/// What `setmask` does to a thread's mask.
pub open spec fn mask_after_setmask(mask: Set<i32>, set: Set<i32>) -> Set<i32> {
    set
}

/// Unblocking signals that are not blocked leaves the mask unchanged.
pub proof fn lemma_unblock_not_blocked_noop(mask: Set<i32>, set: Set<i32>)
    requires
        mask.disjoint(set),
    ensures
        mask_after_unblock(mask, set) =~= mask,
{
}

/// Blocking is idempotent: blocking an already-blocked set changes nothing.
pub proof fn lemma_block_idempotent(mask: Set<i32>, set: Set<i32>)
    ensures
        mask_after_block(mask_after_block(mask, set), set) =~= mask_after_block(mask, set),
{
}

/// Send `sig` to the process `pid`: how the caller pokes init and init
/// pokes the worker.
pub fn send_signal(pid: i32, sig: i32) -> (r: Result<(), Error>)
    requires
        pid > 0,
        sys::valid_signal(sig),
    ensures
        r matches Err(e) ==> e is Signal,
{
    match sys::kill_pid(pid, sig) {
        Ok(()) => Ok(()),
        Err(e) => Err(Error::Signal(e)),
    }
}

} // verus!
