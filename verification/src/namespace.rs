//! Namespace management: the namespace kinds, their clone-flag bits and
//! `/proc` names, handles on namespace instances, and the pre-creation
//! dance that detaches into fresh namespaces and restores the calling
//! thread afterwards.
use vstd::prelude::*;
use crate::error::Error;
use crate::sys;

verus! {

/// The seven kernel namespace kinds.
#[derive(Clone, Copy, Debug, PartialEq, Eq, Hash, Structural)]
pub enum Namespace {
    Cgroup,
    Ipc,
    Network,
    Mount,
    Pid,
    User,
    Uts,
}

impl Namespace {
    /// The name of this kind's symlink under `/proc/<pid>/ns/`.
    pub open spec fn spec_symlink_name(self) -> Seq<char> {
        match self {
            Namespace::Cgroup => "cgroup"@,
            Namespace::Ipc => "ipc"@,
            Namespace::Network => "net"@,
            Namespace::Mount => "mnt"@,
            Namespace::Pid => "pid"@,
            Namespace::User => "user"@,
            Namespace::Uts => "uts"@,
        }
    }

    /// The `/proc` symlink name of this kind.
    pub fn to_symlink_name(&self) -> (r: &'static str)
        ensures
            r@ == self.spec_symlink_name(),
    {
        match self {
            Namespace::Cgroup => "cgroup",
            Namespace::Ipc => "ipc",
            Namespace::Network => "net",
            Namespace::Mount => "mnt",
            Namespace::Pid => "pid",
            Namespace::User => "user",
            Namespace::Uts => "uts",
        }
    }

    /// This kind's clone-flag bit.
    pub open spec fn spec_clone_flag(self) -> u64 {
        match self {
            Namespace::Cgroup => sys::CLONE_NEWCGROUP,
            Namespace::Ipc => sys::CLONE_NEWIPC,
            Namespace::Network => sys::CLONE_NEWNET,
            Namespace::Mount => sys::CLONE_NEWNS,
            Namespace::Pid => sys::CLONE_NEWPID,
            Namespace::User => sys::CLONE_NEWUSER,
            Namespace::Uts => sys::CLONE_NEWUTS,
        }
    }

    /// The clone-flag bit selecting a fresh namespace of this kind.
    pub fn to_clone_flag(&self) -> (r: u64)
        ensures
            r == self.spec_clone_flag(),
            sys::only_namespace_bits(r),
    {
        proof {
            lemma_single_flag_only_namespace_bits(*self);
        }
        match self {
            Namespace::Cgroup => sys::CLONE_NEWCGROUP,
            Namespace::Ipc => sys::CLONE_NEWIPC,
            Namespace::Network => sys::CLONE_NEWNET,
            Namespace::Mount => sys::CLONE_NEWNS,
            Namespace::Pid => sys::CLONE_NEWPID,
            Namespace::User => sys::CLONE_NEWUSER,
            Namespace::Uts => sys::CLONE_NEWUTS,
        }
    }
}

/// Each single namespace flag holds only namespace bits.
proof fn lemma_single_flag_only_namespace_bits(ns: Namespace)
    ensures
        sys::only_namespace_bits(ns.spec_clone_flag()),
{
    assert(0x02000000u64 & !0x7e020000u64 == 0) by (bit_vector);
    assert(0x08000000u64 & !0x7e020000u64 == 0) by (bit_vector);
    assert(0x40000000u64 & !0x7e020000u64 == 0) by (bit_vector);
    assert(0x00020000u64 & !0x7e020000u64 == 0) by (bit_vector);
    assert(0x20000000u64 & !0x7e020000u64 == 0) by (bit_vector);
    assert(0x10000000u64 & !0x7e020000u64 == 0) by (bit_vector);
    assert(0x04000000u64 & !0x7e020000u64 == 0) by (bit_vector);
}

/// The combined clone flags of a list of kinds, first to last.
pub open spec fn spec_flags_for(kinds: Seq<Namespace>) -> u64
    decreases kinds.len(),
{
    if kinds.len() == 0 {
        0u64
    } else {
        spec_flags_for(kinds.drop_last()) | kinds.last().spec_clone_flag()
    }
}

/// A union of namespace bits holds only namespace bits.
proof fn lemma_union_only_namespace_bits(a: u64, b: u64)
    requires
        sys::only_namespace_bits(a),
        sys::only_namespace_bits(b),
    ensures
        sys::only_namespace_bits(a | b),
{
    assert(a & !0x7e020000u64 == 0 && b & !0x7e020000u64 == 0 ==> (a | b) & !0x7e020000u64 == 0)
        by (bit_vector);
}

/// Combine the clone flags of the requested kinds.
pub fn flags_for_kinds(kinds: &Vec<Namespace>) -> (r: u64)
    ensures
        r == spec_flags_for(kinds@),
        sys::only_namespace_bits(r),
{
    let mut flags: u64 = 0;
    let mut i: usize = 0;
    proof {
        assert(0u64 & !0x7e020000u64 == 0) by (bit_vector);
        assert(kinds@.take(0) =~= Seq::<Namespace>::empty());
    }
    while i < kinds.len()
        invariant
            0 <= i <= kinds@.len(),
            flags == spec_flags_for(kinds@.take(i as int)),
            sys::only_namespace_bits(flags),
        decreases kinds@.len() - i,
    {
        let f = kinds[i].to_clone_flag();
        proof {
            lemma_union_only_namespace_bits(flags, f);
            assert(kinds@.take(i + 1).drop_last() =~= kinds@.take(i as int));
        }
        flags = flags | f;
        i = i + 1;
    }
    proof {
        assert(kinds@.take(kinds@.len() as int) =~= kinds@);
    }
    flags
}

/// The `/proc/self/ns/<kind>` path for the calling process.
pub fn proc_ns_path(ns: Namespace) -> (r: String)
    ensures
        r@ == "/proc/self/ns/"@ + ns.spec_symlink_name(),
{
    let mut p = "/proc/self/ns/".to_owned();
    p.append(ns.to_symlink_name());
    p
}

/// The `/proc/thread-self/ns/<kind>` path for the calling thread.
pub fn thread_ns_path(ns: Namespace) -> (r: String)
    ensures
        r@ == "/proc/thread-self/ns/"@ + ns.spec_symlink_name(),
{
    let mut p = "/proc/thread-self/ns/".to_owned();
    p.append(ns.to_symlink_name());
    p
}

/// Open a handle on the calling process's namespace of the given kind; the
/// caller owns the returned descriptor and must close it.
pub fn open_proc_ns(ns: Namespace) -> (r: Result<i32, Error>)
    ensures
        r matches Ok(fd) ==> fd >= 0,
        r matches Err(e) ==> e is Namespace,
{
    let path = proc_ns_path(ns);
    match sys::open_read(path.as_str()) {
        Ok(fd) => Ok(fd),
        Err(e) => Err(Error::Namespace(e)),
    }
}

/// Open a handle on the calling thread's namespace of the given kind; the
/// caller owns the returned descriptor and must close it.
pub fn open_thread_ns(ns: Namespace) -> (r: Result<i32, Error>)
    ensures
        r matches Ok(fd) ==> fd >= 0,
        r matches Err(e) ==> e is Namespace,
{
    let path = thread_ns_path(ns);
    match sys::open_read(path.as_str()) {
        Ok(fd) => Ok(fd),
        Err(e) => Err(Error::Namespace(e)),
    }
}

/// Close every handle in the list, ignoring close failures: this is the
/// error-path cleanup, where the first error already decides the outcome.
fn close_all(handles: &Vec<(Namespace, i32)>) {
    let mut i: usize = 0;
    while i < handles.len()
        decreases handles@.len() - i,
    {
        let fd = handles[i].1;
        let _ = sys::close_fd(fd);
        i = i + 1;
    }
}

/// Create fresh namespaces of the requested kinds and hand back one open
/// handle per kind, in request order, without leaving the calling thread
/// inside them: the thread's original namespaces are re-attached before the
/// function returns, and on any failure every handle taken so far is closed
/// before the error propagates.
pub fn create_namespaces(kinds: &Vec<Namespace>) -> (r: Result<Vec<(Namespace, i32)>, Error>)
    ensures
        r matches Ok(v) ==> v@.len() == kinds@.len() && (forall|i: int|
            0 <= i < v@.len() ==> (#[trigger] v@[i]).0 == kinds@[i] && v@[i].1 >= 0),
        r matches Err(e) ==> e is Namespace,
{
    // Handles on the thread's current (original) namespaces.
    let mut originals: Vec<(Namespace, i32)> = Vec::new();
    let mut i: usize = 0;
    while i < kinds.len()
        invariant
            0 <= i <= kinds@.len(),
            originals@.len() == i,
            forall|j: int| 0 <= j < i ==> (#[trigger] originals@[j]).0 == kinds@[j],
        decreases kinds@.len() - i,
    {
        match open_thread_ns(kinds[i]) {
            Ok(fd) => {
                originals.push((kinds[i], fd));
            },
            Err(e) => {
                close_all(&originals);
                return Err(e);
            },
        }
        i = i + 1;
    }

    // Detach the calling thread into fresh namespaces of every kind at once.
    let flags = flags_for_kinds(kinds);
    match sys::unshare_namespaces(flags) {
        Ok(()) => {},
        Err(e) => {
            close_all(&originals);
            return Err(Error::Namespace(e));
        },
    }

    // Handles on the fresh namespaces the thread now lives in.
    let mut fresh: Vec<(Namespace, i32)> = Vec::new();
    let mut k: usize = 0;
    while k < kinds.len()
        invariant
            0 <= k <= kinds@.len(),
            fresh@.len() == k,
            forall|j: int|
                0 <= j < k ==> (#[trigger] fresh@[j]).0 == kinds@[j] && fresh@[j].1 >= 0,
        decreases kinds@.len() - k,
    {
        match open_thread_ns(kinds[k]) {
            Ok(fd) => {
                fresh.push((kinds[k], fd));
            },
            Err(e) => {
                close_all(&fresh);
                close_all(&originals);
                return Err(e);
            },
        }
        k = k + 1;
    }

    // Re-attach the thread to each original namespace, then release the
    // original handles: the caller gets handles to the fresh namespaces
    // without ever observing the thread inside them.
    let mut m: usize = 0;
    while m < originals.len()
        invariant
            0 <= m <= originals@.len(),
            originals@.len() == kinds@.len(),
            forall|j: int| 0 <= j < originals@.len() ==> (#[trigger] originals@[j]).0 == kinds@[j],
            fresh@.len() == kinds@.len(),
            forall|j: int|
                0 <= j < fresh@.len() ==> (#[trigger] fresh@[j]).0 == kinds@[j] && fresh@[j].1
                    >= 0,
        decreases originals@.len() - m,
    {
        let (ns, fd) = originals[m];
        let nstype = ns.to_clone_flag();
        match sys::setns_fd(fd, nstype) {
            Ok(()) => {},
            Err(e) => {
                close_all(&fresh);
                close_all(&originals);
                return Err(Error::Namespace(e));
            },
        }
        m = m + 1;
    }
    close_all(&originals);

    Ok(fresh)
}

/// Detach the calling thread into a fresh UTS namespace: hostname changes
/// made afterwards stay invisible outside it.
pub fn unshare_uts() -> (r: Result<(), Error>)
    ensures
        r matches Err(e) ==> e is Namespace,
{
    proof {
        lemma_single_flag_only_namespace_bits(Namespace::Uts);
    }
    match sys::unshare_namespaces(sys::CLONE_NEWUTS) {
        Ok(()) => Ok(()),
        Err(e) => Err(Error::Namespace(e)),
    }
}

/// Set the hostname of the calling process's UTS namespace.
pub fn set_hostname(name: &str) -> (r: Result<(), Error>)
    ensures
        r matches Err(e) ==> e is Namespace,
{
    match sys::sethostname_str(name) {
        Ok(()) => Ok(()),
        Err(e) => Err(Error::Namespace(e)),
    }
}

/// Read the hostname of the calling process's UTS namespace.
pub fn get_hostname() -> (r: Result<String, Error>)
    ensures
        r matches Err(e) ==> e is Namespace,
{
    match sys::gethostname_string() {
        Ok(name) => Ok(name),
        Err(e) => Err(Error::Namespace(e)),
    }
}

/// Ghost model of one thread's namespace attachment: which namespace
/// instance (by id) the thread is in, for each kind.
pub struct NsAttachment {
    pub instance: Map<Namespace, int>,
}

/// The attachment after detaching into fresh instances for `kinds`: the
/// fresh instance for requested kinds, the old one for the rest.
pub open spec fn model_unshare(
    v: Map<Namespace, int>,
    kinds: Set<Namespace>,
    fresh: Map<Namespace, int>,
) -> Map<Namespace, int> {
    Map::new(
        |k: Namespace| v.dom().contains(k),
        |k: Namespace| if kinds.contains(k) { fresh[k] } else { v[k] },
    )
}

/// The attachment after re-attaching to original handles for `kinds`.
pub open spec fn model_restore(
    m: Map<Namespace, int>,
    originals: Map<Namespace, int>,
    kinds: Set<Namespace>,
) -> Map<Namespace, int> {
    Map::new(
        |k: Namespace| m.dom().contains(k),
        |k: Namespace| if kinds.contains(k) { originals[k] } else { m[k] },
    )
}

/// After `create_namespaces` the calling thread's attachment is what it was
/// before the call, while each returned handle refers to an instance
/// distinct from the thread's pre-call instance of that kind: detaching
/// into fresh instances and re-attaching the recorded originals is the
/// identity on the thread, and freshness separates every new instance from
/// every old one.
pub proof fn lemma_create_namespaces_restores(
    v: Map<Namespace, int>,
    kinds: Set<Namespace>,
    fresh: Map<Namespace, int>,
)
    requires
        forall|k: Namespace| kinds.contains(k) ==> v.dom().contains(k),
        forall|k: Namespace|
            kinds.contains(k) ==> !v.values().contains(#[trigger] fresh[k]),
    ensures
        model_restore(model_unshare(v, kinds, fresh), v, kinds) =~= v,
        forall|k: Namespace|
            kinds.contains(k) ==> #[trigger] model_unshare(v, kinds, fresh)[k] != v[k],
{
    assert forall|k: Namespace| kinds.contains(k) implies #[trigger] model_unshare(
        v,
        kinds,
        fresh,
    )[k] != v[k] by {
        assert(v.values().contains(v[k]));
    }
}

/// Ghost model of hostname visibility: each UTS namespace instance carries
/// one hostname, and a process observes the hostname of the instance it is
/// attached to.
pub open spec fn observed_hostname(
    hostnames: Map<int, Seq<char>>,
    uts_of: Map<int, int>,
    pid: int,
) -> Seq<char> {
    hostnames[uts_of[pid]]
}

/// The hostname table after process `pid` sets its hostname: only the entry
/// of `pid`'s own UTS instance changes.
pub open spec fn model_sethostname(
    hostnames: Map<int, Seq<char>>,
    uts_of: Map<int, int>,
    pid: int,
    name: Seq<char>,
) -> Map<int, Seq<char>> {
    hostnames.insert(uts_of[pid], name)
}

/// A worker that sets its hostname inside its own UTS namespace changes
/// what it observes itself, and changes nothing for the parent or for any
/// sibling attached to a different UTS instance.
pub proof fn lemma_hostname_isolated(
    hostnames: Map<int, Seq<char>>,
    uts_of: Map<int, int>,
    worker: int,
    other: int,
    name: Seq<char>,
)
    requires
        uts_of.dom().contains(worker),
        uts_of.dom().contains(other),
        uts_of[worker] != uts_of[other],
        hostnames.dom().contains(uts_of[worker]),
        hostnames.dom().contains(uts_of[other]),
    ensures
        observed_hostname(model_sethostname(hostnames, uts_of, worker, name), uts_of, worker)
            == name,
        observed_hostname(model_sethostname(hostnames, uts_of, worker, name), uts_of, other)
            == observed_hostname(hostnames, uts_of, other),
{
}

} // verus!
