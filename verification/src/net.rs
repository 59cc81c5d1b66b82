//! Network provisioning over netlink: bridge and veth creation, addressing,
//! link state, bridge attachment, and moving a veth end into a worker's
//! network namespace. Each kernel operation opens its own short-lived
//! netlink connection; every operation is individually fallible and the
//! orchestrations record each outcome instead of aborting.
use vstd::prelude::*;
use vstd::string::StringSliceAdditionalSpecFns;
use futures::stream::TryStreamExt;
use crate::bytes::{find_first, first_index_of, spec_split, split_on_byte};
use crate::numtext::{all_digits, digits_val, parse_digits_u64};

verus! {

/// errno `EEXIST`: the link or address is already there.
pub const EEXIST: i32 = 17;

/// The outcome of one netlink operation.
#[derive(Clone, Copy, Debug, PartialEq, Eq, Structural)]
pub enum NetOutcome {
    /// The kernel acknowledged the operation.
    Done,
    /// The link name did not resolve; the operation was skipped.
    NoSuchLink,
    /// The kernel refused: the raw code from the netlink error message
    /// (`-errno` as the kernel reports it).
    Denied(i32),
    /// The address text was not usable.
    BadAddress,
    /// The netlink channel itself could not be set up or broke down.
    ChannelLost,
}

/// A link lookup by name.
#[derive(Clone, Copy, Debug, PartialEq, Eq, Structural)]
pub enum LinkLookup {
    /// The kernel's interface index for the name.
    Found(u32),
    /// No interface has that name.
    NotFound,
    /// The kernel refused the lookup (raw netlink code).
    Denied(i32),
    /// The netlink channel itself could not be set up or broke down.
    ChannelLost,
}

/// Relies on `rtnetlink`'s link-get request with a name filter
/// (`handle.link().get().match_name(..)`): resolves an interface name to its
/// index over a fresh netlink connection.
#[verifier::external_body]
fn nl_find_link(name: &str) -> (r: LinkLookup) {
    let rt = match tokio::runtime::Runtime::new() { Ok(rt) => rt, Err(_) => return LinkLookup::ChannelLost };
    let (conn, handle, _) = match rtnetlink::new_connection() { Ok(c) => c, Err(_) => return LinkLookup::ChannelLost };
    rt.spawn(conn);
    let mut links = handle.link().get().match_name(name.to_string()).execute();
    match rt.block_on(links.try_next()) {
        Ok(Some(link)) => LinkLookup::Found(link.header.index),
        Ok(None) => LinkLookup::NotFound,
        Err(rtnetlink::Error::NetlinkError(m)) => LinkLookup::Denied(m.code),
        Err(_) => LinkLookup::ChannelLost,
    }
}

/// Relies on `rtnetlink`'s veth add request
/// (`handle.link().add().veth(..)`): creates a connected veth pair over a
/// fresh netlink connection. No name lookup is involved, so neither the
/// bad-address nor the no-such-link outcome can arise.
#[verifier::external_body]
fn nl_create_veth(name_a: &str, name_b: &str) -> (r: NetOutcome)
    ensures
        r != NetOutcome::BadAddress,
        r != NetOutcome::NoSuchLink,
{
    let rt = match tokio::runtime::Runtime::new() { Ok(rt) => rt, Err(_) => return NetOutcome::ChannelLost };
    let (conn, handle, _) = match rtnetlink::new_connection() { Ok(c) => c, Err(_) => return NetOutcome::ChannelLost };
    rt.spawn(conn);
    match rt.block_on(handle.link().add().veth(name_a.to_string(), name_b.to_string()).execute()) {
        Ok(()) => NetOutcome::Done,
        Err(rtnetlink::Error::NetlinkError(m)) => NetOutcome::Denied(m.code),
        Err(_) => NetOutcome::ChannelLost,
    }
}

/// Relies on `rtnetlink`'s bridge add request
/// (`handle.link().add().bridge(..)`): creates a bridge interface over a
/// fresh netlink connection. No name lookup is involved, so neither the
/// bad-address nor the no-such-link outcome can arise.
#[verifier::external_body]
fn nl_create_bridge(name: &str) -> (r: NetOutcome)
    ensures
        r != NetOutcome::BadAddress,
        r != NetOutcome::NoSuchLink,
{
    let rt = match tokio::runtime::Runtime::new() { Ok(rt) => rt, Err(_) => return NetOutcome::ChannelLost };
    let (conn, handle, _) = match rtnetlink::new_connection() { Ok(c) => c, Err(_) => return NetOutcome::ChannelLost };
    rt.spawn(conn);
    match rt.block_on(handle.link().add().bridge(name.to_string()).execute()) {
        Ok(()) => NetOutcome::Done,
        Err(rtnetlink::Error::NetlinkError(m)) => NetOutcome::Denied(m.code),
        Err(_) => NetOutcome::ChannelLost,
    }
}

/// Relies on `rtnetlink`'s link-set request (`handle.link().set(..).up()`):
/// brings the interface with the given index administratively up.
#[verifier::external_body]
fn nl_link_up(index: u32) -> (r: NetOutcome)
    ensures
        r != NetOutcome::BadAddress,
{
    let rt = match tokio::runtime::Runtime::new() { Ok(rt) => rt, Err(_) => return NetOutcome::ChannelLost };
    let (conn, handle, _) = match rtnetlink::new_connection() { Ok(c) => c, Err(_) => return NetOutcome::ChannelLost };
    rt.spawn(conn);
    match rt.block_on(handle.link().set(index).up().execute()) {
        Ok(()) => NetOutcome::Done,
        Err(rtnetlink::Error::NetlinkError(m)) => NetOutcome::Denied(m.code),
        Err(_) => NetOutcome::ChannelLost,
    }
}

/// Relies on `rtnetlink`'s address add request
/// (`handle.address().add(index, ip, prefix)`), with the address text read
/// by `ipnetwork`: attaches an IP address and prefix to the interface with
/// the given index. A well-formed IPv4 dotted quad with an in-range prefix
/// is always parsed, so only a text `ipnetwork` cannot read at all reports
/// `BadAddress`.
#[verifier::external_body]
fn nl_add_address(index: u32, cidr: &str) -> (r: NetOutcome)
    ensures
        spec_valid_ipv4_cidr(cidr.spec_bytes()) ==> r != NetOutcome::BadAddress,
{
    let net: ipnetwork::IpNetwork = match cidr.parse() { Ok(n) => n, Err(_) => return NetOutcome::BadAddress };
    let rt = match tokio::runtime::Runtime::new() { Ok(rt) => rt, Err(_) => return NetOutcome::ChannelLost };
    let (conn, handle, _) = match rtnetlink::new_connection() { Ok(c) => c, Err(_) => return NetOutcome::ChannelLost };
    rt.spawn(conn);
    match rt.block_on(handle.address().add(index, net.ip(), net.prefix()).execute()) {
        Ok(()) => NetOutcome::Done,
        Err(rtnetlink::Error::NetlinkError(m)) => NetOutcome::Denied(m.code),
        Err(_) => NetOutcome::ChannelLost,
    }
}

/// Relies on `rtnetlink`'s link-set request
/// (`handle.link().set(..).master(..)`): makes the bridge with index
/// `master` the master of the interface with index `index`.
#[verifier::external_body]
fn nl_set_master(index: u32, master: u32) -> (r: NetOutcome)
    ensures
        r != NetOutcome::BadAddress,
{
    let rt = match tokio::runtime::Runtime::new() { Ok(rt) => rt, Err(_) => return NetOutcome::ChannelLost };
    let (conn, handle, _) = match rtnetlink::new_connection() { Ok(c) => c, Err(_) => return NetOutcome::ChannelLost };
    rt.spawn(conn);
    match rt.block_on(handle.link().set(index).master(master).execute()) {
        Ok(()) => NetOutcome::Done,
        Err(rtnetlink::Error::NetlinkError(m)) => NetOutcome::Denied(m.code),
        Err(_) => NetOutcome::ChannelLost,
    }
}

/// Relies on `rtnetlink`'s link-set request
/// (`handle.link().set(..).setns_by_pid(..)`): moves the interface with the
/// given index into the network namespace of process `pid`.
#[verifier::external_body]
fn nl_move_to_pid(index: u32, pid: u32) -> (r: NetOutcome)
    ensures
        r != NetOutcome::BadAddress,
{
    let rt = match tokio::runtime::Runtime::new() { Ok(rt) => rt, Err(_) => return NetOutcome::ChannelLost };
    let (conn, handle, _) = match rtnetlink::new_connection() { Ok(c) => c, Err(_) => return NetOutcome::ChannelLost };
    rt.spawn(conn);
    match rt.block_on(handle.link().set(index).setns_by_pid(pid).execute()) {
        Ok(()) => NetOutcome::Done,
        Err(rtnetlink::Error::NetlinkError(m)) => NetOutcome::Denied(m.code),
        Err(_) => NetOutcome::ChannelLost,
    }
}

/// Resolve an interface by name and bring it up; a name that does not
/// resolve is a skip, not an abort.
pub fn set_link_up(name: &str) -> (r: NetOutcome)
    ensures
        r != NetOutcome::BadAddress,
{
    match nl_find_link(name) {
        LinkLookup::Found(index) => nl_link_up(index),
        LinkLookup::NotFound => NetOutcome::NoSuchLink,
        LinkLookup::Denied(c) => NetOutcome::Denied(c),
        LinkLookup::ChannelLost => NetOutcome::ChannelLost,
    }
}

/// Resolve an interface by name and attach an address to it; a text that
/// cannot be read as an address comes back as `BadAddress`, a well-formed
/// IPv4 text never does.
pub fn add_link_address(name: &str, cidr: &str) -> (r: NetOutcome)
    ensures
        spec_valid_ipv4_cidr(cidr.spec_bytes()) ==> r != NetOutcome::BadAddress,
{
    match nl_find_link(name) {
        LinkLookup::Found(index) => nl_add_address(index, cidr),
        LinkLookup::NotFound => NetOutcome::NoSuchLink,
        LinkLookup::Denied(c) => NetOutcome::Denied(c),
        LinkLookup::ChannelLost => NetOutcome::ChannelLost,
    }
}

/// Resolve a veth end and a bridge by name and make the bridge the veth's
/// master; either name failing to resolve is a skip.
pub fn attach_to_bridge(veth: &str, bridge: &str) -> (r: NetOutcome)
    ensures
        r != NetOutcome::BadAddress,
{
    match nl_find_link(veth) {
        LinkLookup::Found(vi) => match nl_find_link(bridge) {
            LinkLookup::Found(bi) => nl_set_master(vi, bi),
            LinkLookup::NotFound => NetOutcome::NoSuchLink,
            LinkLookup::Denied(c) => NetOutcome::Denied(c),
            LinkLookup::ChannelLost => NetOutcome::ChannelLost,
        },
        LinkLookup::NotFound => NetOutcome::NoSuchLink,
        LinkLookup::Denied(c) => NetOutcome::Denied(c),
        LinkLookup::ChannelLost => NetOutcome::ChannelLost,
    }
}

/// Resolve an interface by name and move it into the network namespace of
/// process `pid`.
pub fn move_to_namespace(name: &str, pid: u32) -> (r: NetOutcome)
    ensures
        r != NetOutcome::BadAddress,
{
    match nl_find_link(name) {
        LinkLookup::Found(index) => nl_move_to_pid(index, pid),
        LinkLookup::NotFound => NetOutcome::NoSuchLink,
        LinkLookup::Denied(c) => NetOutcome::Denied(c),
        LinkLookup::ChannelLost => NetOutcome::ChannelLost,
    }
}

/// Whether a create step counts as success: the kernel created the link, or
/// it already existed (`EEXIST`, which the kernel reports as a negative
/// code).
pub open spec fn spec_create_accepted(o: NetOutcome) -> bool {
    o == NetOutcome::Done || o == NetOutcome::Denied(-EEXIST as i32) || o == NetOutcome::Denied(
        EEXIST,
    )
}

/// Classify a create outcome: `already exists` is success.
pub fn create_accepted(o: NetOutcome) -> (r: bool)
    ensures
        r == spec_create_accepted(o),
{
    match o {
        NetOutcome::Done => true,
        NetOutcome::Denied(c) => c == -17 || c == 17,
        _ => false,
    }
}

/// Creating a bridge that already exists succeeds: the first call's fresh
/// creation and the second call's `EEXIST` refusal classify alike, and
/// `prep_bridge` performs the same addressing and link-up steps after
/// either, so the bridge ends in the same state.
pub proof fn lemma_bridge_create_idempotent()
    ensures
        spec_create_accepted(NetOutcome::Done),
        spec_create_accepted(NetOutcome::Denied(-17i32)),
{
}

/// A valid dotted-quad octet as `Ipv4Addr` reads one: one to three digits,
/// no leading zero, value at most 255.
pub open spec fn spec_valid_octet(s: Seq<u8>) -> bool {
    &&& all_digits(s)
    &&& s.len() <= 3
    &&& (s.len() > 1 ==> s[0] != 0x30)
    &&& digits_val(s) <= 255
}

/// A valid IPv4 address: four valid octets separated by dots.
pub open spec fn spec_valid_ipv4(s: Seq<u8>) -> bool {
    &&& spec_split(s, 0x2eu8).len() == 4
    &&& (forall|i: int|
        0 <= i < 4 ==> spec_valid_octet(#[trigger] spec_split(s, 0x2eu8)[i]))
}

/// A valid prefix length: digits reading at most 32.
pub open spec fn spec_valid_prefix(s: Seq<u8>) -> bool {
    all_digits(s) && digits_val(s) <= 32
}

/// The address texts this engine accepts: an IPv4 dotted quad, optionally
/// followed by `/` and a prefix length.
pub open spec fn spec_valid_ipv4_cidr(s: Seq<u8>) -> bool {
    match first_index_of(s, 0x2fu8) {
        Option::None => spec_valid_ipv4(s),
        Option::Some(i) => spec_valid_ipv4(s.take(i)) && spec_valid_prefix(s.skip(i + 1)),
    }
}

/// Check one octet.
fn is_valid_octet(s: &[u8]) -> (r: bool)
    ensures
        r == spec_valid_octet(s@),
{
    if s.len() == 0 || s.len() > 3 {
        return false;
    }
    if s.len() > 1 && s[0] == 0x30 {
        return false;
    }
    match parse_digits_u64(s) {
        Some(v) => v <= 255,
        None => false,
    }
}

/// Check a whole address text against `spec_valid_ipv4_cidr`.
pub fn is_valid_ipv4_cidr(cidr: &str) -> (r: bool)
    ensures
        r == spec_valid_ipv4_cidr(cidr.spec_bytes()),
{
    let bytes = cidr.as_bytes();
    let blen = bytes.len();
    let (addr, prefix_ok): (&[u8], bool) = match find_first(bytes, 0x2f) {
        Some(i) => {
            let p = vstd::slice::slice_subrange(bytes, i + 1, blen);
            proof {
                assert(p@ =~= bytes@.skip(i + 1));
            }
            let ok = match parse_digits_u64(p) {
                Some(v) => v <= 32,
                None => false,
            };
            proof {
                assert(ok == spec_valid_prefix(bytes@.skip(i + 1)));
            }
            let a = vstd::slice::slice_subrange(bytes, 0, i);
            proof {
                assert(a@ =~= bytes@.take(i as int));
            }
            (a, ok)
        },
        None => (bytes, true),
    };
    let ghost valid_rest: bool = match first_index_of(bytes@, 0x2fu8) {
        Option::None => true,
        Option::Some(i) => spec_valid_prefix(bytes@.skip(i + 1)),
    };
    proof {
        assert(prefix_ok == valid_rest);
        assert(spec_valid_ipv4_cidr(bytes@) == (spec_valid_ipv4(addr@) && valid_rest));
    }
    if !prefix_ok {
        return false;
    }
    let parts = split_on_byte(addr, 0x2e);
    proof {
        assert(parts.deep_view().len() == parts@.len());
    }
    if parts.len() != 4 {
        return false;
    }
    let mut i: usize = 0;
    while i < 4
        invariant
            0 <= i <= 4,
            parts@.len() == 4,
            parts.deep_view() == spec_split(addr@, 0x2eu8),
            forall|j: int| 0 <= j < i ==> spec_valid_octet(#[trigger] parts.deep_view()[j]),
            spec_valid_ipv4_cidr(cidr.spec_bytes()) == spec_valid_ipv4(addr@),
        decreases 4 - i,
    {
        proof {
            assert(parts.deep_view()[i as int] == parts@[i as int]@);
        }
        if !is_valid_octet(parts[i].as_slice()) {
            return false;
        }
        i = i + 1;
    }
    true
}


/// The outer link name for the request served by worker `pid`.
pub fn request_veth_name(pid: u32) -> (r: String)
    ensures
        r@ == "po"@ + crate::numtext::dec_chars(pid as nat),
{
    let mut n = "po".to_owned();
    let digits = crate::numtext::u64_to_dec(pid as u64);
    n.append(digits.as_str());
    n
}

/// Request-scoped link names never collide: distinct worker pids give
/// distinct names, so concurrent requests cannot trample each other's
/// links.
pub proof fn lemma_request_names_unique(p1: u32, p2: u32)
    requires
        p1 != p2,
    ensures
        "po"@ + crate::numtext::dec_chars(p1 as nat) != "po"@ + crate::numtext::dec_chars(
            p2 as nat,
        ),
{
    let d1 = crate::numtext::dec_chars(p1 as nat);
    let d2 = crate::numtext::dec_chars(p2 as nat);
    if "po"@ + d1 == "po"@ + d2 {
        assert(d1 =~= d2) by {
            reveal_strlit("po");
            assert(("po"@ + d1).skip(2) =~= d1);
            assert(("po"@ + d2).skip(2) =~= d2);
        }
        crate::numtext::lemma_dec_chars_injective(p1 as nat, p2 as nat);
    }
}

/// The name of the inner end of a request's veth pair: the outer name with
/// `-in` appended.
pub fn veth_inside_name(veth_name: &str) -> (r: String)
    ensures
        r@ == veth_name@ + "-in"@,
{
    let mut n = veth_name.to_owned();
    n.append("-in");
    n
}

/// What the standalone bridge bring-up did: one outcome per step, the
/// create and address steps' classifications, and whether the address text
/// is a well-formed IPv4 CIDR.
pub struct BridgeReport {
    pub create: NetOutcome,
    pub create_accepted: bool,
    pub address: NetOutcome,
    pub address_accepted: bool,
    pub address_text_ok: bool,
    pub up: NetOutcome,
}

/// Bring up a standalone bridge: create it (an existing bridge of the same
/// name is success), give it the address, bring it up. All three steps run
/// regardless of individual outcomes; an unusable address text shows up as
/// the address step's `BadAddress` outcome, never as an abort.
pub fn prep_bridge(bridge: &str, ip: &str) -> (r: BridgeReport)
    ensures
        r.create != NetOutcome::BadAddress,
        r.create != NetOutcome::NoSuchLink,
        r.up != NetOutcome::BadAddress,
        r.create_accepted == spec_create_accepted(r.create),
        r.address_accepted == spec_create_accepted(r.address),
        r.address_text_ok == spec_valid_ipv4_cidr(ip.spec_bytes()),
        r.address_text_ok ==> r.address != NetOutcome::BadAddress,
{
    let address_text_ok = is_valid_ipv4_cidr(ip);
    let create = nl_create_bridge(bridge);
    let create_ok = create_accepted(create);
    let address = add_link_address(bridge, ip);
    let address_ok = create_accepted(address);
    let up = set_link_up(bridge);
    BridgeReport {
        create,
        create_accepted: create_ok,
        address,
        address_accepted: address_ok,
        address_text_ok,
        up,
    }
}

/// What the per-request network attachment did.
pub struct NetStackReport {
    pub inner_name: String,
    pub create: NetOutcome,
    pub outer_up: NetOutcome,
    pub attach: NetOutcome,
    pub move_inner: NetOutcome,
}

/// Provision one request's network attachment: create the veth pair
/// `<name>` / `<name>-in`, bring the outer end up, attach it to the bridge,
/// and move the inner end into the worker's network namespace by pid. Every
/// step runs; each outcome is recorded.
pub fn prep_network_stack(veth_name: &str, pid: u32, bridge: &str) -> (r: NetStackReport)
    ensures
        r.inner_name@ == veth_name@ + "-in"@,
        r.create != NetOutcome::BadAddress,
        r.create != NetOutcome::NoSuchLink,
        r.outer_up != NetOutcome::BadAddress,
        r.attach != NetOutcome::BadAddress,
        r.move_inner != NetOutcome::BadAddress,
{
    let inner = veth_inside_name(veth_name);
    let create = nl_create_veth(veth_name, inner.as_str());
    let outer_up = set_link_up(veth_name);
    let attach = attach_to_bridge(veth_name, bridge);
    let move_inner = move_to_namespace(inner.as_str(), pid);
    NetStackReport { inner_name: inner, create, outer_up, attach, move_inner }
}

/// What the in-worker half of the attachment did.
pub struct InsideReport {
    pub up: NetOutcome,
    pub address: NetOutcome,
    pub address_text_ok: bool,
}

/// Configure the inner veth end from inside the worker's network namespace:
/// bring `<name>-in` up and give it the request's address. An unusable
/// address text shows up as the address step's `BadAddress` outcome.
pub fn set_inside_network(veth_name: &str, ip: &str) -> (r: InsideReport)
    ensures
        r.up != NetOutcome::BadAddress,
        r.address_text_ok == spec_valid_ipv4_cidr(ip.spec_bytes()),
        r.address_text_ok ==> r.address != NetOutcome::BadAddress,
{
    let address_text_ok = is_valid_ipv4_cidr(ip);
    let inner = veth_inside_name(veth_name);
    let up = set_link_up(inner.as_str());
    let address = add_link_address(inner.as_str(), ip);
    InsideReport { up, address, address_text_ok }
}

/// What the standalone veth bring-up did.
pub struct VethReport {
    pub create: NetOutcome,
    pub address_a: NetOutcome,
    pub address_text_ok_a: bool,
    pub up_a: NetOutcome,
    pub address_b: NetOutcome,
    pub address_text_ok_b: bool,
    pub up_b: NetOutcome,
}

/// Bring up a standalone addressed veth pair: create the two ends, then
/// give each its address and bring it up. Every step runs; an unusable
/// address text shows up as that end's `BadAddress` outcome.
pub fn prep_veth(name_a: &str, name_b: &str, ip_a: &str, ip_b: &str) -> (r: VethReport)
    ensures
        r.create != NetOutcome::BadAddress,
        r.create != NetOutcome::NoSuchLink,
        r.up_a != NetOutcome::BadAddress,
        r.up_b != NetOutcome::BadAddress,
        r.address_text_ok_a == spec_valid_ipv4_cidr(ip_a.spec_bytes()),
        r.address_text_ok_b == spec_valid_ipv4_cidr(ip_b.spec_bytes()),
        r.address_text_ok_a ==> r.address_a != NetOutcome::BadAddress,
        r.address_text_ok_b ==> r.address_b != NetOutcome::BadAddress,
{
    let address_text_ok_a = is_valid_ipv4_cidr(ip_a);
    let address_text_ok_b = is_valid_ipv4_cidr(ip_b);
    let create = nl_create_veth(name_a, name_b);
    let address_a = add_link_address(name_a, ip_a);
    let up_a = set_link_up(name_a);
    let address_b = add_link_address(name_b, ip_b);
    let up_b = set_link_up(name_b);
    VethReport {
        create,
        address_a,
        address_text_ok_a,
        up_a,
        address_b,
        address_text_ok_b,
        up_b,
    }
}

/// What the caller-side network setup did.
pub struct OutsideReport {
    pub up_outer: NetOutcome,
    pub up_bridge: NetOutcome,
    pub attach: NetOutcome,
    pub address: NetOutcome,
    pub address_text_ok: bool,
    pub move_inner: NetOutcome,
}

/// Configure the caller-side half of a request's network: bring the outer
/// veth end and the bridge up, attach the outer end to the bridge, address
/// the bridge, and move the inner end into the worker's network namespace.
/// Every step runs; an unusable address text shows up as the address step's
/// `BadAddress` outcome.
pub fn set_outside_network(
    veth_outer: &str,
    veth_inner: &str,
    bridge: &str,
    ip: &str,
    pid: u32,
) -> (r: OutsideReport)
    ensures
        r.up_outer != NetOutcome::BadAddress,
        r.up_bridge != NetOutcome::BadAddress,
        r.attach != NetOutcome::BadAddress,
        r.move_inner != NetOutcome::BadAddress,
        r.address_text_ok == spec_valid_ipv4_cidr(ip.spec_bytes()),
        r.address_text_ok ==> r.address != NetOutcome::BadAddress,
{
    let address_text_ok = is_valid_ipv4_cidr(ip);
    let up_outer = set_link_up(veth_outer);
    let up_bridge = set_link_up(bridge);
    let attach = attach_to_bridge(veth_outer, bridge);
    let address = add_link_address(bridge, ip);
    let move_inner = move_to_namespace(veth_inner, pid);
    OutsideReport { up_outer, up_bridge, attach, address, address_text_ok, move_inner }
}

} // verus!
