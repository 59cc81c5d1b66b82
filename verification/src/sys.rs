//! Trusted kernel bindings. Every function here wraps exactly one call into
//! the `nix` crate, moves plain values across the boundary, and reports
//! failure as the raw errno. Nothing in this module is verified; each
//! contract states only what the wrapped call's documentation promises.
use vstd::prelude::*;

verus! {

/// Kernel clone-flag bits for the seven namespace kinds, as `<sched.h>`
/// defines them.
pub const CLONE_NEWCGROUP: u64 = 0x02000000;

pub const CLONE_NEWIPC: u64 = 0x08000000;

pub const CLONE_NEWNET: u64 = 0x40000000;

pub const CLONE_NEWNS: u64 = 0x00020000;

pub const CLONE_NEWPID: u64 = 0x20000000;

pub const CLONE_NEWUSER: u64 = 0x10000000;

pub const CLONE_NEWUTS: u64 = 0x04000000;

/// The union of all seven namespace bits.
pub const ALL_NAMESPACE_BITS: u64 = 0x7e020000;

/// Flag words the namespace syscalls accept from this library: nothing but
/// namespace bits.
pub open spec fn only_namespace_bits(flags: u64) -> bool {
    flags & !ALL_NAMESPACE_BITS == 0
}

/// Signal numbers this library hands to the kernel: the standard Linux
/// signals, which `nix` can represent.
pub open spec fn valid_signal(sig: i32) -> bool {
    1 <= sig <= 31
}

/// Relies on `nix::fcntl::open` with `O_RDONLY`: on success the returned
/// descriptor is non-negative.
#[verifier::external_body]
pub fn open_read(path: &str) -> (r: Result<i32, i32>)
    ensures
        r matches Ok(fd) ==> fd >= 0,
{
    match nix::fcntl::open(path, nix::fcntl::OFlag::O_RDONLY, nix::sys::stat::Mode::empty()) {
        Ok(fd) => Ok(fd),
        Err(e) => Err(e as i32),
    }
}

/// Relies on `nix::fcntl::open` with `O_WRONLY`: on success the returned
/// descriptor is non-negative.
#[verifier::external_body]
pub fn open_write(path: &str) -> (r: Result<i32, i32>)
    ensures
        r matches Ok(fd) ==> fd >= 0,
{
    match nix::fcntl::open(path, nix::fcntl::OFlag::O_WRONLY, nix::sys::stat::Mode::empty()) {
        Ok(fd) => Ok(fd),
        Err(e) => Err(e as i32),
    }
}

/// Relies on `nix::unistd::close`.
#[verifier::external_body]
pub fn close_fd(fd: i32) -> (r: Result<(), i32>) {
    match nix::unistd::close(fd) {
        Ok(()) => Ok(()),
        Err(e) => Err(e as i32),
    }
}

/// Relies on `nix::unistd::write`: on success the count of bytes written is
/// at most the buffer length.
#[verifier::external_body]
pub fn write_fd(fd: i32, buf: &[u8]) -> (r: Result<usize, i32>)
    ensures
        r matches Ok(n) ==> n <= buf@.len(),
{
    match nix::unistd::write(fd, buf) {
        Ok(n) => Ok(n),
        Err(e) => Err(e as i32),
    }
}

/// Relies on `nix::sched::unshare`: detaches the calling thread into fresh
/// namespaces for the given kinds.
#[verifier::external_body]
pub fn unshare_namespaces(flags: u64) -> (r: Result<(), i32>)
    requires
        only_namespace_bits(flags),
{
    match nix::sched::unshare(nix::sched::CloneFlags::from_bits_truncate(flags as i32)) {
        Ok(()) => Ok(()),
        Err(e) => Err(e as i32),
    }
}

/// Relies on `nix::sched::setns`: re-attaches the calling thread to the
/// namespace the descriptor refers to.
#[verifier::external_body]
pub fn setns_fd(fd: i32, nstype: u64) -> (r: Result<(), i32>)
    requires
        only_namespace_bits(nstype),
{
    match nix::sched::setns(fd, nix::sched::CloneFlags::from_bits_truncate(nstype as i32)) {
        Ok(()) => Ok(()),
        Err(e) => Err(e as i32),
    }
}

/// Relies on `nix::sys::signal::sigprocmask` with `SIG_BLOCK`: adds the
/// given signals to the calling thread's mask.
#[verifier::external_body]
pub fn sigprocmask_block(sigs: &[i32]) -> (r: Result<(), i32>)
    requires
        forall|i: int| 0 <= i < sigs@.len() ==> valid_signal(#[trigger] sigs@[i]),
{
    let mut set = nix::sys::signal::SigSet::empty();
    for s in sigs {
        set.add(nix::sys::signal::Signal::try_from(*s).unwrap());
    }
    match nix::sys::signal::sigprocmask(nix::sys::signal::SigmaskHow::SIG_BLOCK, Some(&set), None) {
        Ok(()) => Ok(()),
        Err(e) => Err(e as i32),
    }
}

/// Relies on `nix::sys::signal::sigprocmask` with `SIG_UNBLOCK`: removes the
/// given signals from the calling thread's mask; removing an unblocked
/// signal is permitted.
#[verifier::external_body]
pub fn sigprocmask_unblock(sigs: &[i32]) -> (r: Result<(), i32>)
    requires
        forall|i: int| 0 <= i < sigs@.len() ==> valid_signal(#[trigger] sigs@[i]),
{
    let mut set = nix::sys::signal::SigSet::empty();
    for s in sigs {
        set.add(nix::sys::signal::Signal::try_from(*s).unwrap());
    }
    match nix::sys::signal::sigprocmask(
        nix::sys::signal::SigmaskHow::SIG_UNBLOCK,
        Some(&set),
        None,
    ) {
        Ok(()) => Ok(()),
        Err(e) => Err(e as i32),
    }
}

/// Relies on `nix::sys::signal::sigprocmask` with `SIG_SETMASK`: replaces
/// the calling thread's mask with the given set.
#[verifier::external_body]
pub fn sigprocmask_setmask(sigs: &[i32]) -> (r: Result<(), i32>)
    requires
        forall|i: int| 0 <= i < sigs@.len() ==> valid_signal(#[trigger] sigs@[i]),
{
    let mut set = nix::sys::signal::SigSet::empty();
    for s in sigs {
        set.add(nix::sys::signal::Signal::try_from(*s).unwrap());
    }
    match nix::sys::signal::sigprocmask(
        nix::sys::signal::SigmaskHow::SIG_SETMASK,
        Some(&set),
        None,
    ) {
        Ok(()) => Ok(()),
        Err(e) => Err(e as i32),
    }
}

/// Relies on `nix::sys::signal::kill`: sends the signal to the process with
/// the given (positive) pid.
#[verifier::external_body]
pub fn kill_pid(pid: i32, sig: i32) -> (r: Result<(), i32>)
    requires
        pid > 0,
        valid_signal(sig),
{
    match nix::sys::signal::kill(
        nix::unistd::Pid::from_raw(pid),
        nix::sys::signal::Signal::try_from(sig).unwrap(),
    ) {
        Ok(()) => Ok(()),
        Err(e) => Err(e as i32),
    }
}

/// Relies on `nix::sys::stat::stat`: whether the path names a directory;
/// any `stat` failure answers no.
#[verifier::external_body]
pub fn path_is_dir(path: &str) -> (r: bool) {
    match nix::sys::stat::stat(path) {
        Ok(st) => (st.st_mode & nix::sys::stat::SFlag::S_IFMT.bits()) == nix::sys::stat::SFlag::S_IFDIR.bits(),
        Err(_) => false,
    }
}

/// Relies on `nix::unistd::mkdir` with mode `0755`.
#[verifier::external_body]
pub fn mkdir_once(path: &str) -> (r: Result<(), i32>) {
    match nix::unistd::mkdir(path, nix::sys::stat::Mode::from_bits_truncate(0o755)) {
        Ok(()) => Ok(()),
        Err(e) => Err(e as i32),
    }
}

/// Relies on `nix::mount::mount` with `MS_BIND`: makes `src` visible at
/// `target` without copying.
#[verifier::external_body]
pub fn mount_bind(src: &str, target: &str) -> (r: Result<(), i32>) {
    match nix::mount::mount(
        Some(src),
        target,
        None::<&str>,
        nix::mount::MsFlags::MS_BIND,
        None::<&str>,
    ) {
        Ok(()) => Ok(()),
        Err(e) => Err(e as i32),
    }
}

/// Relies on `nix::unistd::chroot`.
#[verifier::external_body]
pub fn chroot_path(path: &str) -> (r: Result<(), i32>) {
    match nix::unistd::chroot(path) {
        Ok(()) => Ok(()),
        Err(e) => Err(e as i32),
    }
}

/// Relies on `nix::unistd::chdir`.
#[verifier::external_body]
pub fn chdir_path(path: &str) -> (r: Result<(), i32>) {
    match nix::unistd::chdir(path) {
        Ok(()) => Ok(()),
        Err(e) => Err(e as i32),
    }
}

/// Relies on `nix::unistd::sethostname`: sets the hostname of the calling
/// process's UTS namespace.
#[verifier::external_body]
pub fn sethostname_str(name: &str) -> (r: Result<(), i32>) {
    match nix::unistd::sethostname(name) {
        Ok(()) => Ok(()),
        Err(e) => Err(e as i32),
    }
}

/// Relies on `nix::unistd::gethostname`: reads the hostname of the calling
/// process's UTS namespace; a hostname that is not UTF-8 reports errno `0`.
#[verifier::external_body]
pub fn gethostname_string() -> (r: Result<String, i32>) {
    match nix::unistd::gethostname() {
        Ok(name) => match name.into_string() {
            Ok(s) => Ok(s),
            Err(_) => Err(0),
        },
        Err(e) => Err(e as i32),
    }
}

} // verus!
