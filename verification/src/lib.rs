//! A minimal process-isolation engine: it spawns a worker into a fresh set
//! of kernel namespaces, synchronizes its startup with a signal-based
//! suspend/resume protocol, remaps its user id, gives it a private network
//! attachment (veth pair on a bridge), confines its filesystem view with
//! bind mounts and chroot, and reaps it on exit — together with the small
//! HTTP layer that drives one isolated worker per request.
//!
//! The kernel itself is reached only through the trusted bindings in
//! [`sys`] and the netlink calls in [`net`]; everything that decides —
//! clone-flag arithmetic ([`clone`]), namespace bookkeeping
//! ([`namespace`]), mask semantics ([`signal`]), uid-map serialization
//! ([`idmap`]), mount planning ([`isolation`]), directory numbering
//! ([`prep`]), the three-process protocol ([`protocol`]), and the HTTP
//! parsing, routing and handlers — is verified.

pub mod bytes;
pub mod clone;
pub mod error;
pub mod handlers;
pub mod idmap;
pub mod isolation;
pub mod namespace;
pub mod net;
pub mod numtext;
pub mod pairmap;
pub mod prep;
pub mod protocol;
pub mod request;
pub mod response;
pub mod server;
pub mod signal;
pub mod sorting;
pub mod sys;
