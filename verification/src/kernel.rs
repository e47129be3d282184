//! An explicit model of the kernel-side state this layer drives.
//!
//! The real subsystem is reached only through syscalls, which verification
//! cannot cross. [`Kernel`] stands in for it: one value holding the loaded
//! maps with their contents, the loaded programs, and the live attachments.
//! Every handle operation of [`crate::object`] takes the kernel state it acts
//! against, and its contract says exactly how that state answers and changes.

use vstd::prelude::*;
use crate::errors::{is_internal, Error};
use crate::flags::{MapFlags, MAP_OP_EXIST, MAP_OP_NO_EXIST};
use crate::types::{MapType, ProgramAttachType, ProgramType};
use crate::util::{bytes_eq, copy_bytes};

verus! {

/// The model of one loaded map: its declared shape and its current contents.
pub ghost struct MapModel {
    /// The map's name.
    pub name: Seq<char>,
    /// The map's type.
    pub map_type: MapType,
    /// Exact byte length of every key.
    pub key_size: u32,
    /// Exact byte length of every value.
    pub value_size: u32,
    /// The declared capacity, carried through uninterpreted.
    pub max_entries: u32,
    /// The key-value store the kernel holds for this map.
    pub contents: Map<Seq<u8>, Seq<u8>>,
}

/// The map state after a successful update of `key` to `value`.
pub open spec fn update_model(m: MapModel, key: Seq<u8>, value: Seq<u8>) -> MapModel {
    MapModel { contents: m.contents.insert(key, value), ..m }
}

/// The map state after a successful deletion of `key`.
pub open spec fn delete_model(m: MapModel, key: Seq<u8>) -> MapModel {
    MapModel { contents: m.contents.remove(key), ..m }
}

/// What a lookup of `key` returns on map state `m`: the stored bytes, or
/// nothing when the key is absent.
pub open spec fn lookup_result(m: MapModel, key: Seq<u8>) -> Option<Seq<u8>> {
    if m.contents.contains_key(key) {
        Some(m.contents[key])
    } else {
        None
    }
}

/// One loaded program as the kernel records it.
pub struct KernelProg {
    /// The descriptor under which the program was handed out.
    pub fd: i32,
    /// The program's name.
    pub name: String,
    /// The section the program was defined in.
    pub section: String,
    /// The program's type.
    pub prog_type: ProgramType,
    /// The hook category the program expects to attach to.
    pub attach_type: ProgramAttachType,
}

/// A kernel hook a program can attach to.
#[derive(Clone, Copy, PartialEq, Eq, Structural, Debug)]
pub enum Hook {
    /// A cgroup hook, named by the cgroup's descriptor and the attach type.
    Cgroup { cgroup_fd: i32, attach_type: ProgramAttachType },
    /// A performance-monitoring event, named by its descriptor.
    PerfEvent { pfd: i32 },
}

/// One live attachment as the kernel records it.
#[derive(Clone, Copy, PartialEq, Eq, Structural, Debug)]
pub struct KernelLink {
    /// The descriptor under which the attachment was handed out.
    pub fd: i32,
    /// The attached program's descriptor.
    pub prog_fd: i32,
    /// The hook the program is attached at.
    pub hook: Hook,
}

/// Whether some attachment in `s` occupies hook `h`.
pub open spec fn links_attached(s: Seq<KernelLink>, h: Hook) -> bool {
    exists|i: int| 0 <= i < s.len() && s[i].hook == h
}

/// One entry of a loaded map.
struct MapEntry {
    key: Vec<u8>,
    value: Vec<u8>,
}

/// One loaded map: declared shape, stored entries, and the ghost map the
/// entries represent.
struct KernelMap {
    fd: i32,
    name: String,
    map_type: MapType,
    key_size: u32,
    value_size: u32,
    max_entries: u32,
    entries: Vec<MapEntry>,
    contents: Ghost<Map<Seq<u8>, Seq<u8>>>,
}

impl KernelMap {
    /// The model this stored map presents.
    spec fn model(self) -> MapModel {
        MapModel {
            name: self.name@,
            map_type: self.map_type,
            key_size: self.key_size,
            value_size: self.value_size,
            max_entries: self.max_entries,
            contents: self.contents@,
        }
    }

    /// The stored entries agree with the ghost contents, keys are unique, and
    /// every buffer has its declared length.
    spec fn wf(self) -> bool {
        &&& self.key_size > 0
        &&& self.value_size > 0
        &&& forall|i: int|
            0 <= i < self.entries@.len() ==> (#[trigger] self.entries@[i]).key@.len()
                == self.key_size && self.entries@[i].value@.len() == self.value_size
        &&& forall|i: int, j: int|
            0 <= i < j < self.entries@.len() ==> self.entries@[i].key@ != self.entries@[j].key@
        &&& forall|i: int|
            0 <= i < self.entries@.len() ==> self.contents@.contains_key(
                (#[trigger] self.entries@[i]).key@,
            ) && self.contents@[self.entries@[i].key@] == self.entries@[i].value@
        &&& forall|k: Seq<u8>| #[trigger]
            self.contents@.contains_key(k) ==> exists|i: int|
                0 <= i < self.entries@.len() && self.entries@[i].key@ == k
    }

    /// The index of the entry holding `key`, if any.
    fn find_entry(&self, key: &[u8]) -> (r: Option<usize>)
        ensures
            match r {
                Some(i) => i < self.entries@.len() && self.entries@[i as int].key@ == key@,
                None => forall|i: int|
                    0 <= i < self.entries@.len() ==> (#[trigger] self.entries@[i]).key@ != key@,
            },
    {
        let n = self.entries.len();
        let mut i: usize = 0;
        while i < n
            invariant
                n == self.entries@.len(),
                0 <= i <= n,
                forall|j: int| 0 <= j < i ==> (#[trigger] self.entries@[j]).key@ != key@,
            decreases n - i,
        {
            if bytes_eq(self.entries[i].key.as_slice(), key) {
                return Some(i);
            }
            i = i + 1;
        }
        None
    }

    /// Look `key` up in the stored entries.
    fn lookup(&self, key: &[u8]) -> (r: Option<Vec<u8>>)
        requires
            self.wf(),
        ensures
            match r {
                Some(v) => lookup_result(self.model(), key@) == Some(v@),
                None => lookup_result(self.model(), key@) is None,
            },
    {
        match self.find_entry(key) {
            Some(i) => Some(copy_bytes(self.entries[i].value.as_slice())),
            None => {
                proof {
                    if self.contents@.contains_key(key@) {
                        let i = choose|i: int|
                            0 <= i < self.entries@.len() && self.entries@[i].key@ == key@;
                        assert(self.entries@[i].key@ == key@);
                    }
                }
                None
            },
        }
    }

    /// Insert or replace `key` under the existence policy the flags select.
    fn update(&mut self, key: &[u8], value: &[u8], flags: MapFlags) -> (r: Result<(), Error>)
        requires
            old(self).wf(),
            key@.len() == old(self).key_size,
            value@.len() == old(self).value_size,
        ensures
            final(self).wf(),
            final(self).fd == old(self).fd,
            flags.spec_requires_absent() && old(self).model().contents.contains_key(key@) ==> (
            is_internal(r) && final(self).model() == old(self).model()),
            flags.spec_requires_present() && !old(self).model().contents.contains_key(key@) ==> (
            is_internal(r) && final(self).model() == old(self).model()),
            !(flags.spec_requires_absent() && old(self).model().contents.contains_key(key@)) && !(
            flags.spec_requires_present() && !old(self).model().contents.contains_key(key@)) ==> (r
                is Ok && final(self).model() == update_model(old(self).model(), key@, value@)),
    {
        let ghost pre = *self;
        match self.find_entry(key) {
            Some(i) => {
                if flags.bits & MAP_OP_NO_EXIST != 0 {
                    return Err(Error::Internal("element already exists".to_owned()));
                }
                let e = MapEntry { key: copy_bytes(key), value: copy_bytes(value) };
                self.entries[i] = e;
                self.contents = Ghost(self.contents@.insert(key@, value@));
                proof {
                    assert forall|a: int, b: int|
                        0 <= a < b < self.entries@.len() implies self.entries@[a].key@
                        != self.entries@[b].key@ by {
                        assert(self.entries@[a].key@ == pre.entries@[a].key@);
                        assert(self.entries@[b].key@ == pre.entries@[b].key@);
                    }
                    assert forall|j: int| 0 <= j < self.entries@.len() implies self.contents@
                        .contains_key((#[trigger] self.entries@[j]).key@) && self.contents@[self
                        .entries@[j].key@] == self.entries@[j].value@ by {
                        if j != i {
                            assert(self.entries@[j] == pre.entries@[j]);
                            assert(pre.entries@[j].key@ != key@);
                        }
                    }
                    assert forall|k: Seq<u8>| #[trigger]
                        self.contents@.contains_key(k) implies exists|j: int|
                        0 <= j < self.entries@.len() && self.entries@[j].key@ == k by {
                        if k == key@ {
                            assert(self.entries@[i as int].key@ == k);
                        } else {
                            let j = choose|j: int|
                                0 <= j < pre.entries@.len() && pre.entries@[j].key@ == k;
                            assert(self.entries@[j].key@ == k);
                        }
                    }
                }
                Ok(())
            },
            None => {
                if flags.bits & MAP_OP_EXIST != 0 {
                    proof {
                        if pre.contents@.contains_key(key@) {
                            let j = choose|j: int|
                                0 <= j < pre.entries@.len() && pre.entries@[j].key@ == key@;
                            assert(pre.entries@[j].key@ == key@);
                        }
                    }
                    return Err(Error::Internal("element does not exist".to_owned()));
                }
                proof {
                    if pre.contents@.contains_key(key@) {
                        let j = choose|j: int|
                            0 <= j < pre.entries@.len() && pre.entries@[j].key@ == key@;
                        assert(pre.entries@[j].key@ == key@);
                    }
                }
                let e = MapEntry { key: copy_bytes(key), value: copy_bytes(value) };
                self.entries.push(e);
                self.contents = Ghost(self.contents@.insert(key@, value@));
                proof {
                    let n = self.entries@.len() - 1;
                    assert forall|j: int| 0 <= j < self.entries@.len() implies self.contents@
                        .contains_key((#[trigger] self.entries@[j]).key@) && self.contents@[self
                        .entries@[j].key@] == self.entries@[j].value@ by {
                        if j != n {
                            assert(self.entries@[j] == pre.entries@[j]);
                            assert(pre.entries@[j].key@ != key@);
                        }
                    }
                    assert forall|k: Seq<u8>| #[trigger]
                        self.contents@.contains_key(k) implies exists|j: int|
                        0 <= j < self.entries@.len() && self.entries@[j].key@ == k by {
                        if k == key@ {
                            assert(self.entries@[n].key@ == k);
                        } else {
                            let j = choose|j: int|
                                0 <= j < pre.entries@.len() && pre.entries@[j].key@ == k;
                            assert(self.entries@[j].key@ == k);
                        }
                    }
                }
                Ok(())
            },
        }
    }

    /// Remove `key`, handing back the bytes it held, if it was present.
    fn remove_entry(&mut self, key: &[u8]) -> (r: Option<Vec<u8>>)
        requires
            old(self).wf(),
        ensures
            final(self).wf(),
            final(self).fd == old(self).fd,
            match r {
                Some(v) => old(self).model().contents.contains_key(key@) && v@ == old(self).model().contents[key@] && final(self).model() == delete_model(
                    old(self).model(),
                    key@,
                ),
                None => !old(self).model().contents.contains_key(key@) && final(self).model()
                    == old(self).model(),
            },
    {
        let ghost pre = *self;
        match self.find_entry(key) {
            Some(i) => {
                let e = self.entries.remove(i);
                self.contents = Ghost(self.contents@.remove(key@));
                let v = copy_bytes(e.value.as_slice());
                proof {
                    let s1 = pre.entries@;
                    let s2 = self.entries@;
                    assert forall|j: int| 0 <= j < s2.len() implies #[trigger] s2[j] == (if j
                        < i as int {
                        s1[j]
                    } else {
                        s1[j + 1]
                    }) by {
                        assert(s2 == s1.remove(i as int));
                    }
                    assert forall|a: int, b: int| 0 <= a < b < s2.len() implies s2[a].key@
                        != s2[b].key@ by {}
                    assert forall|j: int| 0 <= j < s2.len() implies self.contents@.contains_key(
                        (#[trigger] s2[j]).key@,
                    ) && self.contents@[s2[j].key@] == s2[j].value@ by {
                        let jj = if j < i as int {
                            j
                        } else {
                            j + 1
                        };
                        assert(s2[j] == s1[jj]);
                        assert(s1[jj].key@ != key@);
                    }
                    assert forall|k: Seq<u8>| #[trigger]
                        self.contents@.contains_key(k) implies exists|j: int|
                        0 <= j < s2.len() && s2[j].key@ == k by {
                        let j = choose|j: int| 0 <= j < s1.len() && s1[j].key@ == k;
                        if j < i as int {
                            assert(s2[j].key@ == k);
                        } else {
                            assert(j != i as int);
                            assert(s2[j - 1].key@ == k);
                        }
                    }
                }
                Some(v)
            },
            None => {
                proof {
                    if pre.contents@.contains_key(key@) {
                        let j = choose|j: int|
                            0 <= j < pre.entries@.len() && pre.entries@[j].key@ == key@;
                        assert(pre.entries@[j].key@ == key@);
                    }
                }
                None
            },
        }
    }
}

/// Whether the stored maps carry pairwise distinct descriptors.
spec fn fds_distinct(s: Seq<KernelMap>) -> bool {
    forall|i: int, j: int| 0 <= i < j < s.len() ==> s[i].fd != s[j].fd
}

/// The model of the map stored under descriptor `fd`, if any.
spec fn map_at_seq(s: Seq<KernelMap>, fd: int) -> Option<MapModel> {
    if exists|i: int| 0 <= i < s.len() && s[i].fd == fd {
        Some(s[choose|i: int| 0 <= i < s.len() && s[i].fd == fd].model())
    } else {
        None
    }
}

/// With distinct descriptors, two stored maps sharing one are the same map.
proof fn lemma_fd_unique(s: Seq<KernelMap>, a: int, b: int)
    requires
        fds_distinct(s),
        0 <= a < s.len(),
        0 <= b < s.len(),
        s[a].fd == s[b].fd,
    ensures
        a == b,
{
    if a < b {
        assert(s[a].fd != s[b].fd);
    } else if b < a {
        assert(s[b].fd != s[a].fd);
    }
}

/// The map found at a known index is the one `map_at_seq` answers with.
proof fn lemma_map_at_found(s: Seq<KernelMap>, i: int)
    requires
        fds_distinct(s),
        0 <= i < s.len(),
    ensures
        map_at_seq(s, s[i].fd as int) == Some(s[i].model()),
{
    let fd = s[i].fd as int;
    assert(0 <= i < s.len() && s[i].fd == fd);
    let j = choose|j: int| 0 <= j < s.len() && s[j].fd == fd;
    lemma_fd_unique(s, i, j);
}

/// Replacing the map at index `i` by one with the same descriptor changes
/// `map_at_seq` at that descriptor alone.
proof fn lemma_map_at_update(s: Seq<KernelMap>, i: int, m: KernelMap)
    requires
        fds_distinct(s),
        0 <= i < s.len(),
        m.fd == s[i].fd,
    ensures
        fds_distinct(s.update(i, m)),
        map_at_seq(s.update(i, m), m.fd as int) == Some(m.model()),
        forall|f: int| f != m.fd ==> map_at_seq(s.update(i, m), f) == map_at_seq(s, f),
{
    let s2 = s.update(i, m);
    assert forall|a: int, b: int| 0 <= a < b < s2.len() implies s2[a].fd != s2[b].fd by {
        assert(s2[a].fd == s[a].fd);
        assert(s2[b].fd == s[b].fd);
    }
    assert(0 <= i < s2.len() && s2[i].fd == m.fd as int);
    let j = choose|j: int| 0 <= j < s2.len() && s2[j].fd == m.fd as int;
    lemma_fd_unique(s2, i, j);
    assert forall|f: int| f != m.fd implies map_at_seq(s2, f) == map_at_seq(s, f) by {
        if exists|a: int| 0 <= a < s.len() && s[a].fd == f {
            let a = choose|a: int| 0 <= a < s.len() && s[a].fd == f;
            assert(a != i);
            assert(s2[a].fd == f);
            let b = choose|b: int| 0 <= b < s2.len() && s2[b].fd == f;
            assert(b != i);
            assert(s[b].fd == f);
            lemma_fd_unique(s, a, b);
            assert(s2[b] == s[a]);
        } else {
            assert forall|a: int| 0 <= a < s2.len() implies s2[a].fd != f by {
                if a == i {
                    assert(s2[a].fd == s[i].fd);
                } else {
                    assert(s2[a].fd == s[a].fd);
                }
            }
        }
    }
}

/// Appending a map with a fresh descriptor adds it under that descriptor and
/// leaves every other descriptor's answer alone.
proof fn lemma_map_at_push(s: Seq<KernelMap>, m: KernelMap)
    requires
        fds_distinct(s),
        forall|i: int| 0 <= i < s.len() ==> s[i].fd != m.fd,
    ensures
        fds_distinct(s.push(m)),
        map_at_seq(s, m.fd as int) is None,
        map_at_seq(s.push(m), m.fd as int) == Some(m.model()),
        forall|f: int| f != m.fd ==> map_at_seq(s.push(m), f) == map_at_seq(s, f),
{
    let s2 = s.push(m);
    let n = s.len() as int;
    assert forall|a: int, b: int| 0 <= a < b < s2.len() implies s2[a].fd != s2[b].fd by {
        if b < n {
            assert(s2[a] == s[a] && s2[b] == s[b]);
        } else {
            assert(s2[a] == s[a] && s2[b] == m);
        }
    }
    assert(0 <= n < s2.len() && s2[n].fd == m.fd as int);
    let j = choose|j: int| 0 <= j < s2.len() && s2[j].fd == m.fd as int;
    lemma_fd_unique(s2, n, j);
    assert forall|f: int| f != m.fd implies map_at_seq(s2, f) == map_at_seq(s, f) by {
        if exists|a: int| 0 <= a < s.len() && s[a].fd == f {
            let a = choose|a: int| 0 <= a < s.len() && s[a].fd == f;
            assert(s2[a].fd == f);
            let b = choose|b: int| 0 <= b < s2.len() && s2[b].fd == f;
            assert(b != n);
            assert(s[b].fd == f);
            lemma_fd_unique(s, a, b);
        } else {
            assert forall|a: int| 0 <= a < s2.len() implies s2[a].fd != f by {
                if a < n {
                    assert(s2[a] == s[a]);
                } else {
                    assert(s2[a] == m);
                }
            }
        }
    }
}

/// The modeled kernel: every loaded map with its contents, every loaded
/// program, every live attachment, and the next free descriptor.
pub struct Kernel {
    maps: Vec<KernelMap>,
    progs: Vec<KernelProg>,
    links: Vec<KernelLink>,
    next_fd: i32,
}

impl Kernel {
    /// The model of the map loaded under descriptor `fd`, if any.
    pub closed spec fn map_at(self, fd: int) -> Option<MapModel> {
        map_at_seq(self.maps@, fd)
    }

    /// The loaded programs, in loading order.
    pub closed spec fn progs(self) -> Seq<KernelProg> {
        self.progs@
    }

    /// The live attachments, in attaching order.
    pub closed spec fn links(self) -> Seq<KernelLink> {
        self.links@
    }

    /// Whether the descriptor space is exhausted.
    pub closed spec fn at_fd_limit(self) -> bool {
        self.next_fd == i32::MAX
    }

    /// Whether a program is loaded under descriptor `fd`.
    pub open spec fn has_prog(self, fd: int) -> bool {
        exists|i: int| 0 <= i < self.progs().len() && self.progs()[i].fd == fd
    }

    /// Whether some live attachment occupies hook `h`.
    pub open spec fn hook_attached(self, h: Hook) -> bool {
        links_attached(self.links(), h)
    }

    /// Descriptors are distinct within each table, below the next free one,
    /// and every stored map is internally consistent.
    pub closed spec fn wf(self) -> bool {
        &&& self.next_fd >= 3
        &&& fds_distinct(self.maps@)
        &&& forall|i: int|
            0 <= i < self.maps@.len() ==> (#[trigger] self.maps@[i]).wf() && 3 <= self.maps@[i].fd
                < self.next_fd
        &&& forall|i: int, j: int|
            0 <= i < j < self.progs@.len() ==> self.progs@[i].fd != self.progs@[j].fd
        &&& forall|i: int|
            0 <= i < self.progs@.len() ==> 3 <= (#[trigger] self.progs@[i]).fd < self.next_fd
        &&& forall|i: int, j: int|
            0 <= i < j < self.links@.len() ==> self.links@[i].fd != self.links@[j].fd
        &&& forall|i: int|
            0 <= i < self.links@.len() ==> 3 <= (#[trigger] self.links@[i]).fd < self.next_fd
    }

    /// A fresh kernel state: nothing loaded, nothing attached.
    pub fn new() -> (k: Kernel)
        ensures
            k.wf(),
            forall|f: int| k.map_at(f) is None,
            k.progs() == Seq::<KernelProg>::empty(),
            k.links() == Seq::<KernelLink>::empty(),
            !k.at_fd_limit(),
    {
        let k = Kernel { maps: Vec::new(), progs: Vec::new(), links: Vec::new(), next_fd: 3 };
        proof {
            assert forall|f: int| k.map_at(f) is None by {
                assert(k.maps@.len() == 0);
            }
        }
        k
    }

    /// The index of the stored map with descriptor `fd`, if any.
    fn find_map(&self, fd: i32) -> (r: Option<usize>)
        ensures
            match r {
                Some(i) => i < self.maps@.len() && self.maps@[i as int].fd == fd,
                None => forall|i: int|
                    0 <= i < self.maps@.len() ==> (#[trigger] self.maps@[i]).fd != fd,
            },
    {
        let n = self.maps.len();
        let mut i: usize = 0;
        while i < n
            invariant
                n == self.maps@.len(),
                0 <= i <= n,
                forall|j: int| 0 <= j < i ==> (#[trigger] self.maps@[j]).fd != fd,
            decreases n - i,
        {
            if self.maps[i].fd == fd {
                return Some(i);
            }
            i = i + 1;
        }
        None
    }

    /// Create a map with the given shape; the kernel rejects a shape with a
    /// missing type or a zero size and fails when the descriptor space is
    /// exhausted.
    pub fn create_map(
        &mut self,
        name: &str,
        map_type: MapType,
        key_size: u32,
        value_size: u32,
        max_entries: u32,
    ) -> (r: Result<i32, Error>)
        requires
            old(self).wf(),
        ensures
            final(self).wf(),
            (map_type == MapType::Unspec || key_size == 0 || value_size == 0 || max_entries == 0)
                ==> (is_internal(r) && *final(self) == *old(self)),
            !(map_type == MapType::Unspec || key_size == 0 || value_size == 0 || max_entries == 0)
                && old(self).at_fd_limit() ==> (is_internal(r) && *final(self) == *old(self)),
            !(map_type == MapType::Unspec || key_size == 0 || value_size == 0 || max_entries == 0)
                && !old(self).at_fd_limit() ==> (r matches Ok(fd) && old(self).map_at(fd as int)
                is None && final(self).map_at(fd as int) == Some(
                MapModel {
                    name: name@,
                    map_type,
                    key_size,
                    value_size,
                    max_entries,
                    contents: Map::<Seq<u8>, Seq<u8>>::empty(),
                },
            ) && maps_unchanged_except(*old(self), *final(self), fd as int) && final(self).progs()
                == old(self).progs() && final(self).links() == old(self).links()),
    {
        if map_type == MapType::Unspec || key_size == 0 || value_size == 0 || max_entries == 0 {
            return Err(Error::Internal("invalid map specification".to_owned()));
        }
        if self.next_fd == i32::MAX {
            return Err(Error::Internal("descriptor space exhausted".to_owned()));
        }
        let fd = self.next_fd;
        self.next_fd = self.next_fd + 1;
        let km = KernelMap {
            fd,
            name: name.to_owned(),
            map_type,
            key_size,
            value_size,
            max_entries,
            entries: Vec::new(),
            contents: Ghost(Map::empty()),
        };
        proof {
            lemma_map_at_push(self.maps@, km);
        }
        self.maps.push(km);
        Ok(fd)
    }

    /// Look `key` up in the map under `fd`. The kernel rejects an unknown
    /// descriptor or a key whose length is not the map's key size; an absent
    /// key is answered with nothing, not an error.
    pub fn map_lookup(&self, fd: i32, key: &[u8]) -> (r: Result<Option<Vec<u8>>, Error>)
        requires
            self.wf(),
        ensures
            match self.map_at(fd as int) {
                None => is_internal(r),
                Some(m) => {
                    if key@.len() != m.key_size as nat {
                        is_internal(r)
                    } else {
                        match lookup_result(m, key@) {
                            Some(v) => r matches Ok(Some(out)) && out@ == v,
                            None => r matches Ok(o) && o is None,
                        }
                    }
                },
            },
    {
        match self.find_map(fd) {
            None => Err(Error::Internal("no map under this descriptor".to_owned())),
            Some(i) => {
                proof {
                    lemma_map_at_found(self.maps@, i as int);
                }
                if key.len() != self.maps[i].key_size as usize {
                    return Err(Error::Internal("key size mismatch".to_owned()));
                }
                Ok(self.maps[i].lookup(key))
            },
        }
    }

    /// Write `key` to `value` in the map under `fd`, under the existence
    /// policy the flags select.
    pub fn map_update(&mut self, fd: i32, key: &[u8], value: &[u8], flags: MapFlags) -> (r: Result<
        (),
        Error,
    >)
        requires
            old(self).wf(),
        ensures
            final(self).wf(),
            match old(self).map_at(fd as int) {
                None => is_internal(r) && same_state(*old(self), *final(self)),
                Some(m) => {
                    if key@.len() != m.key_size as nat || value@.len() != m.value_size as nat {
                        is_internal(r) && same_state(*old(self), *final(self))
                    } else if flags.spec_requires_absent() && m.contents.contains_key(key@) {
                        is_internal(r) && same_state(*old(self), *final(self))
                    } else if flags.spec_requires_present() && !m.contents.contains_key(key@) {
                        is_internal(r) && same_state(*old(self), *final(self))
                    } else {
                        r is Ok && final(self).map_at(fd as int) == Some(
                            update_model(m, key@, value@),
                        ) && maps_unchanged_except(*old(self), *final(self), fd as int) && final(self).progs() == old(self).progs() && final(self).links() == old(self).links()
                            && final(self).at_fd_limit() == old(self).at_fd_limit()
                    }
                },
            },
    {
        let ghost s1 = self.maps@;
        match self.find_map(fd) {
            None => Err(Error::Internal("no map under this descriptor".to_owned())),
            Some(i) => {
                proof {
                    lemma_map_at_found(s1, i as int);
                }
                if key.len() != self.maps[i].key_size as usize {
                    return Err(Error::Internal("key size mismatch".to_owned()));
                }
                if value.len() != self.maps[i].value_size as usize {
                    return Err(Error::Internal("value size mismatch".to_owned()));
                }
                let km = &mut self.maps[i];
                let r = km.update(key, value, flags);
                proof {
                    lemma_map_at_update(s1, i as int, self.maps@[i as int]);
                }
                r
            },
        }
    }

    /// Delete `key` from the map under `fd`; deleting an absent key is a
    /// kernel-reported failure.
    pub fn map_delete(&mut self, fd: i32, key: &[u8]) -> (r: Result<(), Error>)
        requires
            old(self).wf(),
        ensures
            final(self).wf(),
            match old(self).map_at(fd as int) {
                None => is_internal(r) && same_state(*old(self), *final(self)),
                Some(m) => {
                    if key@.len() != m.key_size as nat {
                        is_internal(r) && same_state(*old(self), *final(self))
                    } else if !m.contents.contains_key(key@) {
                        is_internal(r) && same_state(*old(self), *final(self))
                    } else {
                        r is Ok && final(self).map_at(fd as int) == Some(delete_model(m, key@))
                            && maps_unchanged_except(*old(self), *final(self), fd as int) && final(self).progs() == old(self).progs() && final(self).links() == old(self).links()
                            && final(self).at_fd_limit() == old(self).at_fd_limit()
                    }
                },
            },
    {
        let ghost s1 = self.maps@;
        match self.find_map(fd) {
            None => Err(Error::Internal("no map under this descriptor".to_owned())),
            Some(i) => {
                proof {
                    lemma_map_at_found(s1, i as int);
                }
                if key.len() != self.maps[i].key_size as usize {
                    return Err(Error::Internal("key size mismatch".to_owned()));
                }
                let km = &mut self.maps[i];
                let r = km.remove_entry(key);
                proof {
                    lemma_map_at_update(s1, i as int, self.maps@[i as int]);
                }
                match r {
                    Some(_) => Ok(()),
                    None => Err(Error::Internal("element does not exist".to_owned())),
                }
            },
        }
    }

    /// Look `key` up and remove it in one step; an absent key is answered
    /// with nothing, as in a lookup.
    pub fn map_lookup_and_delete(&mut self, fd: i32, key: &[u8]) -> (r: Result<
        Option<Vec<u8>>,
        Error,
    >)
        requires
            old(self).wf(),
        ensures
            final(self).wf(),
            match old(self).map_at(fd as int) {
                None => is_internal(r) && same_state(*old(self), *final(self)),
                Some(m) => {
                    if key@.len() != m.key_size as nat {
                        is_internal(r) && same_state(*old(self), *final(self))
                    } else {
                        match lookup_result(m, key@) {
                            None => r matches Ok(o) && o is None && same_state(
                                *old(self),
                                *final(self),
                            ),
                            Some(v) => r matches Ok(Some(out)) && out@ == v && final(self).map_at(
                                fd as int,
                            ) == Some(delete_model(m, key@)) && maps_unchanged_except(
                                *old(self),
                                *final(self),
                                fd as int,
                            ) && final(self).progs() == old(self).progs() && final(self).links()
                                == old(self).links() && final(self).at_fd_limit() == old(self).at_fd_limit(),
                        }
                    }
                },
            },
    {
        let ghost s1 = self.maps@;
        match self.find_map(fd) {
            None => Err(Error::Internal("no map under this descriptor".to_owned())),
            Some(i) => {
                proof {
                    lemma_map_at_found(s1, i as int);
                }
                if key.len() != self.maps[i].key_size as usize {
                    return Err(Error::Internal("key size mismatch".to_owned()));
                }
                let km = &mut self.maps[i];
                let r = km.remove_entry(key);
                proof {
                    lemma_map_at_update(s1, i as int, self.maps@[i as int]);
                }
                Ok(r)
            },
        }
    }
}

impl Kernel {
    /// Whether a program is loaded under descriptor `fd`.
    fn has_prog_fd(&self, fd: i32) -> (r: bool)
        ensures
            r == self.has_prog(fd as int),
    {
        let n = self.progs.len();
        let mut i: usize = 0;
        while i < n
            invariant
                n == self.progs@.len(),
                0 <= i <= n,
                forall|j: int| 0 <= j < i ==> (#[trigger] self.progs@[j]).fd != fd,
            decreases n - i,
        {
            if self.progs[i].fd == fd {
                return true;
            }
            i = i + 1;
        }
        false
    }

    /// Whether some live attachment occupies hook `h`.
    fn hook_busy(&self, h: Hook) -> (r: bool)
        ensures
            r == self.hook_attached(h),
    {
        let n = self.links.len();
        let mut i: usize = 0;
        while i < n
            invariant
                n == self.links@.len(),
                0 <= i <= n,
                forall|j: int| 0 <= j < i ==> (#[trigger] self.links@[j]).hook != h,
            decreases n - i,
        {
            if self.links[i].hook == h {
                return true;
            }
            i = i + 1;
        }
        false
    }

    /// Load a program. The kernel rejects a program with a missing type or
    /// empty bytecode and fails when the descriptor space is exhausted.
    pub fn load_prog(
        &mut self,
        name: &str,
        section: &str,
        prog_type: ProgramType,
        attach_type: ProgramAttachType,
        insn_count: u32,
    ) -> (r: Result<i32, Error>)
        requires
            old(self).wf(),
        ensures
            final(self).wf(),
            (prog_type == ProgramType::Unspec || insn_count == 0) ==> (is_internal(r) && *final(self) == *old(self)),
            !(prog_type == ProgramType::Unspec || insn_count == 0) && old(self).at_fd_limit() ==> (
            is_internal(r) && *final(self) == *old(self)),
            !(prog_type == ProgramType::Unspec || insn_count == 0) && !old(self).at_fd_limit()
                ==> (r matches Ok(fd) && !old(self).has_prog(fd as int) && final(self).has_prog(
                fd as int,
            ) && (exists|p: KernelProg|
                final(self).progs() == old(self).progs().push(p) && p.fd == fd && p.name@ == name@
                    && p.section@ == section@ && p.prog_type == prog_type && p.attach_type
                    == attach_type) && (forall|f: int|
                final(self).map_at(f) == old(self).map_at(f)) && final(self).links() == old(self).links()),
    {
        if prog_type == ProgramType::Unspec || insn_count == 0 {
            return Err(Error::Internal("invalid program specification".to_owned()));
        }
        if self.next_fd == i32::MAX {
            return Err(Error::Internal("descriptor space exhausted".to_owned()));
        }
        let fd = self.next_fd;
        self.next_fd = self.next_fd + 1;
        let p = KernelProg {
            fd,
            name: name.to_owned(),
            section: section.to_owned(),
            prog_type,
            attach_type,
        };
        let ghost p0 = p;
        self.progs.push(p);
        proof {
            let s1 = old(self).progs@;
            let s2 = self.progs@;
            assert(s2 == s1.push(p0));
            assert forall|a: int, b: int| 0 <= a < b < s2.len() implies s2[a].fd != s2[b].fd by {
                if b < s1.len() {
                    assert(s2[a] == s1[a] && s2[b] == s1[b]);
                } else {
                    assert(s2[a] == s1[a] && s2[b] == p0);
                }
            }
            assert(s2[s1.len() as int].fd == fd);
            assert forall|a: int| 0 <= a < s1.len() implies (#[trigger] s1[a]).fd != fd by {}
            assert(s2 == s1.push(p0) && p0.fd == fd && p0.name@ == name@ && p0.section@ == section@
                && p0.prog_type == prog_type && p0.attach_type == attach_type);
            assert(!old(self).has_prog(fd as int));
            assert(self.has_prog(fd as int));
            assert(exists|p: KernelProg|
                self.progs() == old(self).progs().push(p) && p.fd == fd && p.name@ == name@
                    && p.section@ == section@ && p.prog_type == prog_type && p.attach_type
                    == attach_type);
            assert forall|f: int| self.map_at(f) == old(self).map_at(f) by {
                assert(self.maps@ == old(self).maps@);
            }
            assert(self.links() == old(self).links());
        }
        Ok(fd)
    }

    /// Attach the program under `prog_fd` at `hook`. The kernel rejects an
    /// unknown program, and an occupied hook unless the caller's flags permit
    /// an existing attachment.
    pub fn attach(&mut self, prog_fd: i32, hook: Hook, allow_existing: bool) -> (r: Result<
        i32,
        Error,
    >)
        requires
            old(self).wf(),
        ensures
            final(self).wf(),
            !old(self).has_prog(prog_fd as int) ==> (is_internal(r) && *final(self) == *old(self)),
            old(self).has_prog(prog_fd as int) && old(self).hook_attached(hook) && !allow_existing
                ==> (is_internal(r) && *final(self) == *old(self)),
            old(self).has_prog(prog_fd as int) && !(old(self).hook_attached(hook)
                && !allow_existing) && old(self).at_fd_limit() ==> (is_internal(r) && *final(self)
                == *old(self)),
            old(self).has_prog(prog_fd as int) && !(old(self).hook_attached(hook)
                && !allow_existing) && !old(self).at_fd_limit() ==> (r matches Ok(lfd) && final(self).links() == old(self).links().push(KernelLink { fd: lfd, prog_fd, hook }) && (
            forall|f: int| final(self).map_at(f) == old(self).map_at(f)) && final(self).progs()
                == old(self).progs()),
    {
        if !self.has_prog_fd(prog_fd) {
            return Err(Error::Internal("no program under this descriptor".to_owned()));
        }
        if self.hook_busy(hook) && !allow_existing {
            return Err(Error::Internal("hook already has an attachment".to_owned()));
        }
        if self.next_fd == i32::MAX {
            return Err(Error::Internal("descriptor space exhausted".to_owned()));
        }
        let lfd = self.next_fd;
        self.next_fd = self.next_fd + 1;
        let l = KernelLink { fd: lfd, prog_fd, hook };
        self.links.push(l);
        proof {
            let s1 = old(self).links@;
            let s2 = self.links@;
            assert forall|a: int, b: int| 0 <= a < b < s2.len() implies s2[a].fd != s2[b].fd by {
                if b < s1.len() {
                    assert(s2[a] == s1[a] && s2[b] == s1[b]);
                } else {
                    assert(s2[a] == s1[a] && s2[b] == l);
                }
            }
        }
        Ok(lfd)
    }

    /// The index of the attachment with descriptor `fd`, if any.
    fn find_link(&self, fd: i32) -> (r: Option<usize>)
        ensures
            match r {
                Some(i) => i < self.links@.len() && self.links@[i as int].fd == fd,
                None => forall|i: int|
                    0 <= i < self.links@.len() ==> (#[trigger] self.links@[i]).fd != fd,
            },
    {
        let n = self.links.len();
        let mut i: usize = 0;
        while i < n
            invariant
                n == self.links@.len(),
                0 <= i <= n,
                forall|j: int| 0 <= j < i ==> (#[trigger] self.links@[j]).fd != fd,
            decreases n - i,
        {
            if self.links[i].fd == fd {
                return Some(i);
            }
            i = i + 1;
        }
        None
    }

    /// Detach the attachment handed out under `link_fd`; its hook is free
    /// again afterwards unless another attachment shares it.
    pub fn detach(&mut self, link_fd: i32) -> (r: Result<(), Error>)
        requires
            old(self).wf(),
        ensures
            final(self).wf(),
            !(exists|i: int|
                0 <= i < old(self).links().len() && old(self).links()[i].fd == link_fd) ==> (
            is_internal(r) && *final(self) == *old(self)),
            (exists|i: int| 0 <= i < old(self).links().len() && old(self).links()[i].fd == link_fd)
                ==> (r is Ok && ({
                let i = choose|i: int|
                    0 <= i < old(self).links().len() && old(self).links()[i].fd == link_fd;
                final(self).links() == old(self).links().remove(i)
            }) && (forall|f: int| final(self).map_at(f) == old(self).map_at(f)) && final(self).progs() == old(self).progs() && final(self).at_fd_limit() == old(self).at_fd_limit()),
    {
        match self.find_link(link_fd) {
            None => Err(Error::Internal("no attachment under this descriptor".to_owned())),
            Some(i) => {
                let ghost s1 = self.links@;
                self.links.remove(i);
                proof {
                    let ii = choose|a: int| 0 <= a < s1.len() && s1[a].fd == link_fd;
                    if ii < i as int {
                        assert(s1[ii].fd != s1[i as int].fd);
                        assert(false);
                    } else if (i as int) < ii {
                        assert(s1[i as int].fd != s1[ii].fd);
                        assert(false);
                    }
                    let s2 = self.links@;
                    assert(s2 == s1.remove(i as int));
                    assert forall|j: int| 0 <= j < s2.len() implies #[trigger] s2[j] == (if j < i
                        as int {
                        s1[j]
                    } else {
                        s1[j + 1]
                    }) by {}
                    assert forall|a: int, b: int| 0 <= a < b < s2.len() implies s2[a].fd
                        != s2[b].fd by {
                        let aa = if a < i as int { a } else { a + 1 };
                        let bb = if b < i as int { b } else { b + 1 };
                        assert(s2[a] == s1[aa]);
                        assert(s2[b] == s1[bb]);
                        assert(s1[aa].fd != s1[bb].fd);
                    }
                    assert forall|a: int| 0 <= a < s2.len() implies 3 <= (#[trigger] s2[a]).fd
                        < self.next_fd by {
                        let aa = if a < i as int { a } else { a + 1 };
                        assert(s2[a] == s1[aa]);
                    }
                }
                Ok(())
            },
        }
    }
}

/// Whether `post` answers every map descriptor other than `fd` as `pre` does.
pub open spec fn maps_unchanged_except(pre: Kernel, post: Kernel, fd: int) -> bool {
    forall|f: int| f != fd ==> post.map_at(f) == pre.map_at(f)
}

/// Whether the two kernel states are observably the same.
pub open spec fn same_state(pre: Kernel, post: Kernel) -> bool {
    &&& forall|f: int| post.map_at(f) == pre.map_at(f)
    &&& post.progs() == pre.progs()
    &&& post.links() == pre.links()
    &&& post.at_fd_limit() == pre.at_fd_limit()
}

} // verus!
