//! Uid mapping for a freshly created user namespace: a builder for
//! `(inside, outside, count)` ranges, their serialization, and the one-shot
//! write into a target process's `/proc/<pid>/uid_map`.
use vstd::prelude::*;
use crate::error::Error;
use crate::numtext::{dec_chars, u64_to_dec};
use crate::sys;

verus! {

/// One uid range: `count` ids starting at `uid` inside the namespace map to
/// ids starting at `lower_uid` outside it.
#[derive(Clone, Copy, Debug, PartialEq, Eq, Structural)]
pub struct UidMap {
    pub uid: u32,
    pub lower_uid: u32,
    pub count: u32,
}

/// Accumulates uid ranges and writes them to a target process in one
/// operation.
pub struct UidMapper {
    pub mappings: Vec<UidMap>,
}

/// One serialized map line: `uid lower_uid count` and a newline.
pub open spec fn spec_uid_line(m: UidMap) -> Seq<char> {
    dec_chars(m.uid as nat) + " "@ + dec_chars(m.lower_uid as nat) + " "@ + dec_chars(
        m.count as nat,
    ) + "\n"@
}

/// The serialized form of a whole mapping: its lines in order.
pub open spec fn spec_uid_map_text(ms: Seq<UidMap>) -> Seq<char>
    decreases ms.len(),
{
    if ms.len() == 0 {
        Seq::empty()
    } else {
        spec_uid_map_text(ms.drop_last()) + spec_uid_line(ms.last())
    }
}

impl UidMapper {
    /// A mapper with no ranges.
    pub fn new() -> (r: UidMapper)
        ensures
            r.mappings@.len() == 0,
    {
        UidMapper { mappings: Vec::new() }
    }

    /// Append one uid range.
    ///
    /// * `uid` - start of the range inside the user namespace.
    /// * `lower_uid` - start of the range outside the user namespace.
    /// * `count` - length of both ranges.
    pub fn add(self, uid: u32, lower_uid: u32, count: u32) -> (r: UidMapper)
        ensures
            r.mappings@ == self.mappings@.push(UidMap { uid, lower_uid, count }),
    {
        let mut mappings = self.mappings;
        mappings.push(UidMap { uid, lower_uid, count });
        UidMapper { mappings }
    }

    /// Serialize the mapping as `/proc/<pid>/uid_map` expects it: one
    /// newline-terminated `uid lower_uid count` line per range.
    pub fn to_uid_map_string(&self) -> (r: String)
        ensures
            r@ == spec_uid_map_text(self.mappings@),
    {
        let mut text = String::new();
        let n = self.mappings.len();
        let mut i: usize = 0;
        proof {
            assert(self.mappings@.take(0) =~= Seq::<UidMap>::empty());
        }
        while i < n
            invariant
                0 <= i <= n,
                n == self.mappings@.len(),
                text@ == spec_uid_map_text(self.mappings@.take(i as int)),
            decreases n - i,
        {
            let m = self.mappings[i];
            let uid_s = u64_to_dec(m.uid as u64);
            let lower_s = u64_to_dec(m.lower_uid as u64);
            let count_s = u64_to_dec(m.count as u64);
            text.append(uid_s.as_str());
            text.append(" ");
            text.append(lower_s.as_str());
            text.append(" ");
            text.append(count_s.as_str());
            text.append("\n");
            proof {
                assert(self.mappings@.take(i + 1).drop_last() =~= self.mappings@.take(i as int));
                assert(self.mappings@.take(i + 1).last() == self.mappings@[i as int]);
            }
            i = i + 1;
        }
        proof {
            assert(self.mappings@.take(n as int) =~= self.mappings@);
        }
        text
    }

    /// Write the mapping to `/proc/<pid>/uid_map` in one operation. The
    /// kernel accepts exactly one such write per user namespace: a second
    /// attempt fails and must not be retried. See `newuidmap(1)` and
    /// `user_namespaces(7)`.
    pub fn write_newuidmap(self, pid: i32) -> (r: Result<(), Error>)
        requires
            pid > 0,
        ensures
            r matches Err(e) ==> e is IdMap,
    {
        let content = self.to_uid_map_string();
        let mut path = "/proc/".to_owned();
        let pid_s = u64_to_dec(pid as u64);
        path.append(pid_s.as_str());
        path.append("/uid_map");
        let fd = match sys::open_write(path.as_str()) {
            Ok(fd) => fd,
            Err(e) => {
                return Err(Error::IdMap(e));
            },
        };
        let bytes = content.as_str().as_bytes();
        let outcome = sys::write_fd(fd, bytes);
        let _ = sys::close_fd(fd);
        match outcome {
            Ok(n) => {
                if n == bytes.len() {
                    Ok(())
                } else {
                    // The kernel takes a uid map in a single full write; a
                    // short count means it did not.
                    Err(Error::IdMap(0))
                }
            },
            Err(e) => Err(Error::IdMap(e)),
        }
    }
}

/// Ghost model of a process's id-map file: its content once written, and
/// the kernel's write-once rule.
pub open spec fn model_idmap_write(state: Option<Seq<UidMap>>, content: Seq<UidMap>) -> (Option<
    Seq<UidMap>,
>, bool) {
    match state {
        Option::None => (Some(content), true),
        Option::Some(existing) => (Some(existing), false),
    }
}

/// Exactly one id-map write succeeds per user namespace: the first write to
/// a fresh namespace succeeds, a second attempt fails, and the first
/// write's content remains in force afterwards.
pub proof fn lemma_idmap_write_once(first: Seq<UidMap>, second: Seq<UidMap>)
    ensures
        model_idmap_write(None, first) == (Some(first), true),
        model_idmap_write(model_idmap_write(None, first).0, second) == (Some(first), false),
{
}

} // verus!
