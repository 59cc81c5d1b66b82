//! Error taxonomy of the isolation engine.
//!
//! Every fallible kernel interaction reports the raw `errno` value it failed
//! with; the variant says which stage of an isolation attempt failed.
use vstd::prelude::*;

verus! {

/// One error per fallible stage of an isolation attempt. The payload is the
/// raw `errno` reported by the kernel (or `0` where no errno applies).
#[derive(Clone, Copy, Debug, PartialEq, Eq, Structural)]
pub enum Error {
    /// The process-creation call failed.
    Spawn(i32),
    /// Opening, detaching into, or re-attaching a namespace failed.
    Namespace(i32),
    /// A signal-mask or handler installation call failed.
    Signal(i32),
    /// The uid-map write was rejected (already written, target gone, or
    /// permission denied).
    IdMap(i32),
    /// A netlink operation failed.
    Network(i32),
    /// A bind mount could not be established.
    Mount(i32),
    /// Entering the private root filesystem failed.
    Chroot(i32),
}

impl Error {
    /// The raw errno carried by any variant.
    pub fn errno(&self) -> (r: i32)
        ensures
            r == self.spec_errno(),
    {
        match self {
            Error::Spawn(e) => *e,
            Error::Namespace(e) => *e,
            Error::Signal(e) => *e,
            Error::IdMap(e) => *e,
            Error::Network(e) => *e,
            Error::Mount(e) => *e,
            Error::Chroot(e) => *e,
        }
    }

    /// The errno payload, uniform over the variants.
    pub open spec fn spec_errno(&self) -> i32 {
        match self {
            Error::Spawn(e) => *e,
            Error::Namespace(e) => *e,
            Error::Signal(e) => *e,
            Error::IdMap(e) => *e,
            Error::Network(e) => *e,
            Error::Mount(e) => *e,
            Error::Chroot(e) => *e,
        }
    }
}

} // verus!
