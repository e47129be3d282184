//! Builders, loaded handles and attachments: the lifecycle layer itself.
//!
//! An [`ObjectBuilder`] opens an artifact into an [`Object`]; the object
//! hands out per-entity builders; each builder's `load` turns configuration
//! into a descriptor-backed handle against a [`Kernel`] state; a loaded
//! [`Program`] attaches to hooks, yielding [`Link`] values that detach again.
//!
//! Builders are mutable until their load succeeds; handles expose no mutators
//! for load-time configuration. Handles are clonable: a clone carries the
//! same descriptor and therefore observes the same kernel-side object.

use vstd::prelude::*;
use crate::artifact::{Artifact, ObjectStore};
use crate::errors::{is_internal, is_invalid_input, Error};
use crate::flags::{
    CgroupAttachFlags, MapBuilderFlags, MapFlags, CGROUP_ATTACH_ALLOW_MULTI,
    CGROUP_ATTACH_ALLOW_OVERRIDE, CGROUP_ATTACH_REPLACE,
};
use crate::kernel::{
    delete_model, lookup_result, maps_unchanged_except, same_state, update_model, Hook, Kernel,
    KernelLink, MapModel,
};
use crate::types::{MapType, ProgramAttachType, ProgramType};
use crate::util::{copy_bytes, has_nul, str_has_nul};

verus! {

/// Sets options for opening an [`Object`].
pub struct ObjectBuilder {
    /// Overrides the name the artifact would otherwise be known under.
    pub name: String,
    /// Parse map definitions non-strictly, allowing extra attributes.
    pub relaxed_maps: bool,
}

/// A pending map configuration, drawn from an object and mutable until its
/// `load` succeeds.
pub struct MapBuilder {
    /// The declared name.
    pub name: String,
    /// The declared type.
    pub map_type: MapType,
    /// Exact byte length of every key.
    pub key_size: u32,
    /// Exact byte length of every value.
    pub value_size: u32,
    /// The declared capacity.
    pub max_entries: u32,
    /// The network-device index the map is tied to; zero for none.
    pub ifindex: u32,
    /// The NUMA node to place the map on, when chosen.
    pub numa_node: Option<u32>,
    /// Initial contents for the map's backing storage, when given.
    pub initial_value: Option<Vec<u8>>,
    /// The descriptor of the inner map, for map-in-map types.
    pub inner_map_fd: Option<i32>,
    /// Creation flags, passed through to the kernel.
    pub flags: MapBuilderFlags,
}

/// A pending program configuration, drawn from an object and mutable until
/// its `load` succeeds.
pub struct ProgramBuilder {
    /// The declared name.
    pub name: String,
    /// The section the program was defined in.
    pub section: String,
    /// How many instructions its bytecode holds.
    pub insn_count: u32,
    /// The program type to load under.
    pub prog_type: ProgramType,
    /// The hook category to validate attachments against, when chosen.
    pub attach_type: Option<ProgramAttachType>,
    /// The network-device index the program is tied to; zero for none.
    pub ifindex: i32,
}

/// A loaded artifact: its resolved name and the builders for everything it
/// declares.
pub struct Object {
    /// The object's resolved name.
    pub name: String,
    /// One pending configuration per declared map.
    pub maps: Vec<MapBuilder>,
    /// One pending configuration per declared program.
    pub progs: Vec<ProgramBuilder>,
}

/// A loaded, descriptor-backed map handle.
pub struct BpfMap {
    /// The descriptor the kernel handed out.
    pub fd: i32,
    /// The map's name.
    pub name: String,
    /// The map's type.
    pub map_type: MapType,
    /// Exact byte length of every key.
    pub key_size: u32,
    /// Exact byte length of every value.
    pub value_size: u32,
}

/// A loaded, descriptor-backed program handle.
pub struct Program {
    /// The descriptor the kernel handed out.
    pub fd: i32,
    /// The program's name.
    pub name: String,
    /// The section the program was defined in.
    pub section: String,
    /// The program's type.
    pub prog_type: ProgramType,
    /// The hook category attachments are validated against.
    pub attach_type: ProgramAttachType,
}

/// A live attachment of a program to a hook. Detaching it frees the hook
/// again; the kernel model cannot observe a handle being dropped, so the
/// detachment is the explicit [`Link::detach`] step.
pub struct Link {
    /// The descriptor the kernel handed out for the attachment.
    pub fd: i32,
    /// The attached program's descriptor.
    pub prog_fd: i32,
    /// The hook the program is attached at.
    pub hook: Hook,
}

/// Whether two map builders carry the same configuration.
pub open spec fn map_builder_eq(a: MapBuilder, b: MapBuilder) -> bool {
    &&& a.name@ == b.name@
    &&& a.map_type == b.map_type
    &&& a.key_size == b.key_size
    &&& a.value_size == b.value_size
    &&& a.max_entries == b.max_entries
    &&& a.ifindex == b.ifindex
    &&& a.numa_node == b.numa_node
    &&& match (a.initial_value, b.initial_value) {
        (Some(x), Some(y)) => x@ == y@,
        (None, None) => true,
        _ => false,
    }
    &&& a.inner_map_fd == b.inner_map_fd
    &&& a.flags == b.flags
}

/// Whether two program builders carry the same configuration.
pub open spec fn prog_builder_eq(a: ProgramBuilder, b: ProgramBuilder) -> bool {
    &&& a.name@ == b.name@
    &&& a.section@ == b.section@
    &&& a.insn_count == b.insn_count
    &&& a.prog_type == b.prog_type
    &&& a.attach_type == b.attach_type
    &&& a.ifindex == b.ifindex
}

/// Whether a map builder is the untouched configuration of a declaration.
pub open spec fn map_builder_from_def(b: MapBuilder, d: crate::artifact::MapDef) -> bool {
    &&& b.name@ == d.name@
    &&& b.map_type == d.map_type
    &&& b.key_size == d.key_size
    &&& b.value_size == d.value_size
    &&& b.max_entries == d.max_entries
    &&& b.ifindex == 0
    &&& b.numa_node is None
    &&& b.initial_value is None
    &&& b.inner_map_fd is None
    &&& b.flags.bits == 0
}

/// Whether a program builder is the untouched configuration of a declaration.
pub open spec fn prog_builder_from_def(b: ProgramBuilder, d: crate::artifact::ProgDef) -> bool {
    &&& b.name@ == d.name@
    &&& b.section@ == d.section@
    &&& b.insn_count == d.insn_count
    &&& b.prog_type == ProgramType::Unspec
    &&& b.attach_type is None
    &&& b.ifindex == 0
}

/// Whether an object is exactly the opened form of an artifact.
pub open spec fn object_matches_artifact(o: Object, a: Artifact) -> bool {
    &&& o.maps@.len() == a.maps@.len()
    &&& forall|i: int|
        0 <= i < a.maps@.len() ==> map_builder_from_def(#[trigger] o.maps@[i], a.maps@[i])
    &&& o.progs@.len() == a.progs@.len()
    &&& forall|i: int|
        0 <= i < a.progs@.len() ==> prog_builder_from_def(#[trigger] o.progs@[i], a.progs@[i])
}

impl Default for ObjectBuilder {
    /// A builder with no name override and strict map parsing.
    fn default() -> (r: Self)
        ensures
            r.name@ == Seq::<char>::empty(),
            r.relaxed_maps == false,
    {
        ObjectBuilder { name: String::new(), relaxed_maps: false }
    }
}

impl ObjectBuilder {
    /// Override the name the artifact would otherwise be known under.
    pub fn set_name(&mut self, name: &str)
        ensures
            final(self).name@ == name@,
            final(self).relaxed_maps == old(self).relaxed_maps,
    {
        self.name = name.to_owned();
    }

    /// Choose non-strict parsing of map definitions.
    pub fn set_relaxed_maps(&mut self, relaxed_maps: bool)
        ensures
            final(self).name == old(self).name,
            final(self).relaxed_maps == relaxed_maps,
    {
        self.relaxed_maps = relaxed_maps;
    }

    /// Open and load the artifact stored under `path`.
    ///
    /// A path or name override that cannot be carried to the kernel (it holds
    /// a nul character) is rejected as [`Error::InvalidInput`] before
    /// anything is opened. An unknown path, like a failed parse, surfaces as
    /// [`Error::Internal`], and so does an artifact whose declarations the
    /// loading pass rejects. The object's name is the override when one was
    /// set, otherwise the path.
    pub fn from_path(&mut self, store: &ObjectStore, path: &str) -> (r: Result<Object, Error>)
        requires
            store.wf(),
        ensures
            *final(self) == *old(self),
            has_nul(path@) || has_nul(old(self).name@) ==> is_invalid_input(r),
            !(has_nul(path@) || has_nul(old(self).name@)) ==> match store.stored_at(path@) {
                None => is_internal(r),
                Some(a) => {
                    if !a.loadable() {
                        is_internal(r)
                    } else {
                        r matches Ok(o) && o.name@ == (if old(self).name@.len() > 0 {
                            old(self).name@
                        } else {
                            path@
                        }) && object_matches_artifact(o, a)
                    }
                },
            },
    {
        if str_has_nul(path) {
            return Err(Error::InvalidInput("path is not a valid C string".to_owned()));
        }
        if str_has_nul(self.name.as_str()) {
            return Err(Error::InvalidInput("name is not a valid C string".to_owned()));
        }
        match store.get(path) {
            None => Err(Error::Internal("Could not create bpf_object".to_owned())),
            Some(artifact) => {
                if !artifact.check_loadable() {
                    return Err(Error::Internal("Could not load bpf_object".to_owned()));
                }
                let name = if !self.name.as_str().is_empty() {
                    self.name.clone()
                } else {
                    path.to_owned()
                };
                Ok(open_artifact(name, artifact))
            },
        }
    }

    /// Open and load an artifact already held in memory, under a mandatory
    /// name.
    ///
    /// The same contract as [`ObjectBuilder::from_path`], with the artifact
    /// given directly instead of found by path; the name override of the
    /// builder plays no part here.
    pub fn from_memory(&mut self, name: &str, artifact: &Artifact) -> (r: Result<Object, Error>)
        ensures
            *final(self) == *old(self),
            has_nul(name@) ==> is_invalid_input(r),
            !has_nul(name@) && !artifact.loadable() ==> is_internal(r),
            !has_nul(name@) && artifact.loadable() ==> (r matches Ok(o) && o.name@ == name@
                && object_matches_artifact(o, *artifact)),
    {
        if str_has_nul(name) {
            return Err(Error::InvalidInput("name is not a valid C string".to_owned()));
        }
        if !artifact.check_loadable() {
            return Err(Error::Internal("Could not load bpf_object".to_owned()));
        }
        Ok(open_artifact(name.to_owned(), artifact))
    }
}

/// Build the opened form of a checked artifact.
fn open_artifact(name: String, artifact: &Artifact) -> (o: Object)
    ensures
        o.name == name,
        object_matches_artifact(o, *artifact),
{
    let mut maps: Vec<MapBuilder> = Vec::new();
    let n = artifact.maps.len();
    let mut i: usize = 0;
    while i < n
        invariant
            n == artifact.maps@.len(),
            0 <= i <= n,
            maps@.len() == i,
            forall|j: int|
                0 <= j < i ==> map_builder_from_def(#[trigger] maps@[j], artifact.maps@[j]),
        decreases n - i,
    {
        let d = &artifact.maps[i];
        maps.push(
            MapBuilder {
                name: d.name.clone(),
                map_type: d.map_type,
                key_size: d.key_size,
                value_size: d.value_size,
                max_entries: d.max_entries,
                ifindex: 0,
                numa_node: None,
                initial_value: None,
                inner_map_fd: None,
                flags: MapBuilderFlags::empty(),
            },
        );
        i = i + 1;
    }
    let mut progs: Vec<ProgramBuilder> = Vec::new();
    let np = artifact.progs.len();
    let mut j: usize = 0;
    while j < np
        invariant
            np == artifact.progs@.len(),
            0 <= j <= np,
            progs@.len() == j,
            forall|k: int|
                0 <= k < j ==> prog_builder_from_def(#[trigger] progs@[k], artifact.progs@[k]),
        decreases np - j,
    {
        let d = &artifact.progs[j];
        progs.push(
            ProgramBuilder {
                name: d.name.clone(),
                section: d.section.clone(),
                insn_count: d.insn_count,
                prog_type: ProgramType::Unspec,
                attach_type: None,
                ifindex: 0,
            },
        );
        j = j + 1;
    }
    Object { name, maps, progs }
}

impl Object {
    /// The object's resolved name.
    pub fn name(&self) -> (r: &str)
        ensures
            r@ == self.name@,
    {
        self.name.as_str()
    }

    /// The pending configuration of the contained map called `name`; an
    /// unknown name is an absence, not an error.
    pub fn map(&self, name: &str) -> (r: Option<MapBuilder>)
        ensures
            match r {
                Some(b) => exists|i: int|
                    0 <= i < self.maps@.len() && (#[trigger] self.maps@[i]).name@ == name@
                        && map_builder_eq(b, self.maps@[i]),
                None => forall|i: int|
                    0 <= i < self.maps@.len() ==> (#[trigger] self.maps@[i]).name@ != name@,
            },
    {
        let wanted = name.to_owned();
        let n = self.maps.len();
        let mut i: usize = 0;
        while i < n
            invariant
                n == self.maps@.len(),
                wanted@ == name@,
                0 <= i <= n,
                forall|j: int| 0 <= j < i ==> (#[trigger] self.maps@[j]).name@ != name@,
            decreases n - i,
        {
            if self.maps[i].name == wanted {
                return Some(self.maps[i].clone());
            }
            i = i + 1;
        }
        None
    }

    /// The pending configuration of the contained program called `name`; an
    /// unknown name is an absence, not an error.
    pub fn prog(&self, name: &str) -> (r: Option<ProgramBuilder>)
        ensures
            match r {
                Some(b) => exists|i: int|
                    0 <= i < self.progs@.len() && (#[trigger] self.progs@[i]).name@ == name@
                        && prog_builder_eq(b, self.progs@[i]),
                None => forall|i: int|
                    0 <= i < self.progs@.len() ==> (#[trigger] self.progs@[i]).name@ != name@,
            },
    {
        let wanted = name.to_owned();
        let n = self.progs.len();
        let mut i: usize = 0;
        while i < n
            invariant
                n == self.progs@.len(),
                wanted@ == name@,
                0 <= i <= n,
                forall|j: int| 0 <= j < i ==> (#[trigger] self.progs@[j]).name@ != name@,
            decreases n - i,
        {
            if self.progs[i].name == wanted {
                return Some(self.progs[i].clone());
            }
            i = i + 1;
        }
        None
    }
}

impl Clone for MapBuilder {
    /// A copy carrying the same configuration.
    fn clone(&self) -> (r: Self)
        ensures
            map_builder_eq(r, *self),
    {
        MapBuilder {
            name: self.name.clone(),
            map_type: self.map_type,
            key_size: self.key_size,
            value_size: self.value_size,
            max_entries: self.max_entries,
            ifindex: self.ifindex,
            numa_node: self.numa_node,
            initial_value: match &self.initial_value {
                Some(v) => Some(copy_bytes(v.as_slice())),
                None => None,
            },
            inner_map_fd: self.inner_map_fd,
            flags: self.flags,
        }
    }
}

impl Clone for ProgramBuilder {
    /// A copy carrying the same configuration.
    fn clone(&self) -> (r: Self)
        ensures
            prog_builder_eq(r, *self),
    {
        ProgramBuilder {
            name: self.name.clone(),
            section: self.section.clone(),
            insn_count: self.insn_count,
            prog_type: self.prog_type,
            attach_type: self.attach_type,
            ifindex: self.ifindex,
        }
    }
}

impl MapBuilder {
    /// Tie the map to a network device.
    pub fn set_map_ifindex(&mut self, idx: u32)
        ensures
            *final(self) == (MapBuilder { ifindex: idx, ..*old(self) }),
    {
        self.ifindex = idx;
    }

    /// Override the declared capacity.
    pub fn set_max_entries(&mut self, entries: u32)
        ensures
            *final(self) == (MapBuilder { max_entries: entries, ..*old(self) }),
    {
        self.max_entries = entries;
    }

    /// Give the map's backing storage initial contents.
    pub fn set_initial_value(&mut self, data: &[u8])
        ensures
            final(self).initial_value matches Some(v) && v@ == data@,
            final(self).name == old(self).name,
            final(self).map_type == old(self).map_type,
            final(self).key_size == old(self).key_size,
            final(self).value_size == old(self).value_size,
            final(self).max_entries == old(self).max_entries,
            final(self).ifindex == old(self).ifindex,
            final(self).numa_node == old(self).numa_node,
            final(self).inner_map_fd == old(self).inner_map_fd,
            final(self).flags == old(self).flags,
    {
        self.initial_value = Some(copy_bytes(data));
    }

    /// Place the map on a NUMA node.
    pub fn set_numa_node(&mut self, node: u32)
        ensures
            *final(self) == (MapBuilder { numa_node: Some(node), ..*old(self) }),
    {
        self.numa_node = Some(node);
    }

    /// Name the inner map, for map-in-map types, by a loaded handle.
    pub fn set_inner_map_fd(&mut self, inner: BpfMap)
        ensures
            *final(self) == (MapBuilder { inner_map_fd: Some(inner.fd), ..*old(self) }),
    {
        self.inner_map_fd = Some(inner.fd);
    }

    /// Choose creation flags.
    pub fn set_flags(&mut self, flags: MapBuilderFlags)
        ensures
            *final(self) == (MapBuilder { flags, ..*old(self) }),
    {
        self.flags = flags;
    }

    /// Submit the configuration to the kernel, yielding a loaded handle.
    ///
    /// The kernel rejects a shape with a missing type or a zero size or
    /// capacity, and fails when its descriptor space is exhausted; both
    /// surface as [`Error::Internal`], and the kernel state is unchanged.
    /// On success the new map is loaded, empty, under a fresh descriptor,
    /// and nothing else changed. The device index, NUMA node, initial value
    /// and creation flags are passed through to the kernel, which this model
    /// does not act on further.
    pub fn load(&mut self, kernel: &mut Kernel) -> (r: Result<BpfMap, Error>)
        requires
            old(kernel).wf(),
        ensures
            *final(self) == *old(self),
            final(kernel).wf(),
            (old(self).map_type == MapType::Unspec || old(self).key_size == 0 || old(self).value_size == 0 || old(self).max_entries == 0) ==> (is_internal(r) && *final(kernel)
                == *old(kernel)),
            !(old(self).map_type == MapType::Unspec || old(self).key_size == 0 || old(self).value_size == 0 || old(self).max_entries == 0) && old(kernel).at_fd_limit() ==> (
            is_internal(r) && *final(kernel) == *old(kernel)),
            !(old(self).map_type == MapType::Unspec || old(self).key_size == 0 || old(self).value_size == 0 || old(self).max_entries == 0) && !old(kernel).at_fd_limit() ==> (
            r matches Ok(m) && m.name@ == old(self).name@ && m.map_type == old(self).map_type
                && m.key_size == old(self).key_size && m.value_size == old(self).value_size && old(kernel).map_at(m.fd as int) is None && final(kernel).map_at(m.fd as int) == Some(
                MapModel {
                    name: old(self).name@,
                    map_type: old(self).map_type,
                    key_size: old(self).key_size,
                    value_size: old(self).value_size,
                    max_entries: old(self).max_entries,
                    contents: Map::<Seq<u8>, Seq<u8>>::empty(),
                },
            ) && maps_unchanged_except(*old(kernel), *final(kernel), m.fd as int) && final(kernel).progs() == old(kernel).progs() && final(kernel).links() == old(kernel).links()),
    {
        match kernel.create_map(
            self.name.as_str(),
            self.map_type,
            self.key_size,
            self.value_size,
            self.max_entries,
        ) {
            Ok(fd) => Ok(
                BpfMap {
                    fd,
                    name: self.name.clone(),
                    map_type: self.map_type,
                    key_size: self.key_size,
                    value_size: self.value_size,
                },
            ),
            Err(e) => Err(e),
        }
    }
}

impl Clone for BpfMap {
    /// A clone shares the descriptor, so it names the same kernel object.
    fn clone(&self) -> (r: Self)
        ensures
            r == *self,
    {
        BpfMap {
            fd: self.fd,
            name: self.name.clone(),
            map_type: self.map_type,
            key_size: self.key_size,
            value_size: self.value_size,
        }
    }
}

impl BpfMap {
    /// Whether this handle names a loaded map of the same shape in `k`.
    pub open spec fn valid(self, k: Kernel) -> bool {
        match k.map_at(self.fd as int) {
            Some(m) => m.key_size == self.key_size && m.value_size == self.value_size,
            None => false,
        }
    }

    /// The map's name.
    pub fn name(&self) -> (r: &str)
        ensures
            r@ == self.name@,
    {
        self.name.as_str()
    }

    /// The descriptor backing this handle.
    pub fn fd(&self) -> (r: i32)
        ensures
            r == self.fd,
    {
        self.fd
    }

    /// The map's type.
    pub fn map_type(&self) -> (r: MapType)
        ensures
            r == self.map_type,
    {
        self.map_type
    }

    /// Exact byte length of every key.
    pub fn key_size(&self) -> (r: u32)
        ensures
            r == self.key_size,
    {
        self.key_size
    }

    /// Exact byte length of every value.
    pub fn value_size(&self) -> (r: u32)
        ensures
            r == self.value_size,
    {
        self.value_size
    }

    /// The bytes stored under `key`, or nothing when the key is absent.
    ///
    /// A key whose length is not [`BpfMap::key_size`] is rejected as
    /// [`Error::InvalidInput`] before the kernel is consulted. The flags are
    /// passed through; the model kernel does not act on them.
    pub fn lookup(&self, kernel: &Kernel, key: &[u8], _flags: MapFlags) -> (r: Result<
        Option<Vec<u8>>,
        Error,
    >)
        requires
            kernel.wf(),
        ensures
            key@.len() != self.key_size as nat ==> is_invalid_input(r),
            key@.len() == self.key_size as nat ==> match kernel.map_at(self.fd as int) {
                None => is_internal(r),
                Some(m) => {
                    if m.key_size != self.key_size {
                        is_internal(r)
                    } else {
                        match lookup_result(m, key@) {
                            Some(v) => r matches Ok(Some(out)) && out@ == v,
                            None => r matches Ok(o) && o is None,
                        }
                    }
                },
            },
    {
        if key.len() != self.key_size as usize {
            return Err(Error::InvalidInput("key size does not match the map".to_owned()));
        }
        kernel.map_lookup(self.fd, key)
    }

    /// Write `key` to `value`, under the existence policy the flags select:
    /// create-or-update by default, create-only under the no-exist flag,
    /// update-only under the exist flag.
    ///
    /// Buffers whose lengths are not the declared sizes are rejected as
    /// [`Error::InvalidInput`] with the kernel left untouched; a policy
    /// violation is the kernel's rejection, [`Error::Internal`].
    pub fn update(&mut self, kernel: &mut Kernel, key: &[u8], value: &[u8], flags: MapFlags) -> (r:
        Result<(), Error>)
        requires
            old(kernel).wf(),
        ensures
            *final(self) == *old(self),
            final(kernel).wf(),
            key@.len() != old(self).key_size as nat || value@.len() != old(self).value_size as nat ==> (
            is_invalid_input(r) && *final(kernel) == *old(kernel)),
            key@.len() == old(self).key_size as nat && value@.len() == old(self).value_size as nat
                ==> match old(kernel).map_at(old(self).fd as int) {
                None => is_internal(r) && same_state(*old(kernel), *final(kernel)),
                Some(m) => {
                    if m.key_size != old(self).key_size || m.value_size != old(self).value_size {
                        is_internal(r) && same_state(*old(kernel), *final(kernel))
                    } else if flags.spec_requires_absent() && m.contents.contains_key(key@) {
                        is_internal(r) && same_state(*old(kernel), *final(kernel))
                    } else if flags.spec_requires_present() && !m.contents.contains_key(key@) {
                        is_internal(r) && same_state(*old(kernel), *final(kernel))
                    } else {
                        r is Ok && final(kernel).map_at(old(self).fd as int) == Some(
                            update_model(m, key@, value@),
                        ) && maps_unchanged_except(*old(kernel), *final(kernel), old(self).fd as int)
                            && final(kernel).progs() == old(kernel).progs() && final(kernel).links()
                            == old(kernel).links() && final(kernel).at_fd_limit() == old(kernel).at_fd_limit()
                    }
                },
            },
    {
        if key.len() != self.key_size as usize {
            return Err(Error::InvalidInput("key size does not match the map".to_owned()));
        }
        if value.len() != self.value_size as usize {
            return Err(Error::InvalidInput("value size does not match the map".to_owned()));
        }
        kernel.map_update(self.fd, key, value, flags)
    }

    /// Delete `key`; deleting an absent key is the kernel's rejection,
    /// [`Error::Internal`]. A key whose length is not the declared size is
    /// rejected as [`Error::InvalidInput`] with the kernel left untouched.
    pub fn delete(&mut self, kernel: &mut Kernel, key: &[u8]) -> (r: Result<(), Error>)
        requires
            old(kernel).wf(),
        ensures
            *final(self) == *old(self),
            final(kernel).wf(),
            key@.len() != old(self).key_size as nat ==> (is_invalid_input(r) && *final(kernel) == *old(kernel)),
            key@.len() == old(self).key_size as nat ==> match old(kernel).map_at(old(self).fd as int) {
                None => is_internal(r) && same_state(*old(kernel), *final(kernel)),
                Some(m) => {
                    if m.key_size != old(self).key_size {
                        is_internal(r) && same_state(*old(kernel), *final(kernel))
                    } else if !m.contents.contains_key(key@) {
                        is_internal(r) && same_state(*old(kernel), *final(kernel))
                    } else {
                        r is Ok && final(kernel).map_at(old(self).fd as int) == Some(
                            delete_model(m, key@),
                        ) && maps_unchanged_except(*old(kernel), *final(kernel), old(self).fd as int)
                            && final(kernel).progs() == old(kernel).progs() && final(kernel).links()
                            == old(kernel).links() && final(kernel).at_fd_limit() == old(kernel).at_fd_limit()
                    }
                },
            },
    {
        if key.len() != self.key_size as usize {
            return Err(Error::InvalidInput("key size does not match the map".to_owned()));
        }
        kernel.map_delete(self.fd, key)
    }

    /// Look `key` up and delete it in one step; as in a lookup, an absent
    /// key is an absence, not an error.
    pub fn lookup_and_delete(&mut self, kernel: &mut Kernel, key: &[u8], _flags: MapFlags) -> (r:
        Result<Option<Vec<u8>>, Error>)
        requires
            old(kernel).wf(),
        ensures
            *final(self) == *old(self),
            final(kernel).wf(),
            key@.len() != old(self).key_size as nat ==> (is_invalid_input(r) && *final(kernel) == *old(kernel)),
            key@.len() == old(self).key_size as nat ==> match old(kernel).map_at(old(self).fd as int) {
                None => is_internal(r) && same_state(*old(kernel), *final(kernel)),
                Some(m) => {
                    if m.key_size != old(self).key_size {
                        is_internal(r) && same_state(*old(kernel), *final(kernel))
                    } else {
                        match lookup_result(m, key@) {
                            None => r matches Ok(o) && o is None && same_state(
                                *old(kernel),
                                *final(kernel),
                            ),
                            Some(v) => r matches Ok(Some(out)) && out@ == v && final(kernel).map_at(
                                old(self).fd as int,
                            ) == Some(delete_model(m, key@)) && maps_unchanged_except(
                                *old(kernel),
                                *final(kernel),
                                old(self).fd as int,
                            ) && final(kernel).progs() == old(kernel).progs() && final(kernel).links() == old(kernel).links() && final(kernel).at_fd_limit() == old(kernel).at_fd_limit(),
                        }
                    }
                },
            },
    {
        if key.len() != self.key_size as usize {
            return Err(Error::InvalidInput("key size does not match the map".to_owned()));
        }
        kernel.map_lookup_and_delete(self.fd, key)
    }
}

impl ProgramBuilder {
    /// The hook category attachments will be validated against: the chosen
    /// one, or the kernel ABI's zero value when none was chosen.
    pub open spec fn effective_attach_type(self) -> ProgramAttachType {
        match self.attach_type {
            Some(t) => t,
            None => ProgramAttachType::CgroupInetIngress,
        }
    }

    /// Choose the program type to load under.
    pub fn set_prog_type(&mut self, prog_type: ProgramType)
        ensures
            *final(self) == (ProgramBuilder { prog_type, ..*old(self) }),
    {
        self.prog_type = prog_type;
    }

    /// Choose the hook category to validate attachments against.
    pub fn set_attach_type(&mut self, attach_type: ProgramAttachType)
        ensures
            *final(self) == (ProgramBuilder { attach_type: Some(attach_type), ..*old(self) }),
    {
        self.attach_type = Some(attach_type);
    }

    /// Tie the program to a network device.
    pub fn set_ifindex(&mut self, idx: i32)
        ensures
            *final(self) == (ProgramBuilder { ifindex: idx, ..*old(self) }),
    {
        self.ifindex = idx;
    }

    /// Submit the configuration to the kernel, yielding a loaded handle.
    ///
    /// The kernel rejects a program with no chosen type or with empty
    /// bytecode, and fails when its descriptor space is exhausted; both
    /// surface as [`Error::Internal`] with the kernel state unchanged. On
    /// success the program is loaded under a fresh descriptor and nothing
    /// else changed.
    pub fn load(&mut self, kernel: &mut Kernel) -> (r: Result<Program, Error>)
        requires
            old(kernel).wf(),
        ensures
            *final(self) == *old(self),
            final(kernel).wf(),
            (old(self).prog_type == ProgramType::Unspec || old(self).insn_count == 0) ==> (
            is_internal(r) && *final(kernel) == *old(kernel)),
            !(old(self).prog_type == ProgramType::Unspec || old(self).insn_count == 0) && old(kernel).at_fd_limit() ==> (is_internal(r) && *final(kernel) == *old(kernel)),
            !(old(self).prog_type == ProgramType::Unspec || old(self).insn_count == 0) && !old(kernel).at_fd_limit() ==> (r matches Ok(p) && p.name@ == old(self).name@ && p.section@ == old(self).section@ && p.prog_type == old(self).prog_type && p.attach_type == old(self).effective_attach_type() && !old(kernel).has_prog(p.fd as int) && final(kernel).has_prog(p.fd as int) && (forall|f: int|
                final(kernel).map_at(f) == old(kernel).map_at(f)) && final(kernel).links() == old(kernel).links()),
    {
        let attach_type = match self.attach_type {
            Some(t) => t,
            None => ProgramAttachType::CgroupInetIngress,
        };
        match kernel.load_prog(
            self.name.as_str(),
            self.section.as_str(),
            self.prog_type,
            attach_type,
            self.insn_count,
        ) {
            Ok(fd) => Ok(
                Program {
                    fd,
                    name: self.name.clone(),
                    section: self.section.clone(),
                    prog_type: self.prog_type,
                    attach_type,
                },
            ),
            Err(e) => Err(e),
        }
    }
}

impl Clone for Program {
    /// A clone shares the descriptor, so it names the same kernel object.
    fn clone(&self) -> (r: Self)
        ensures
            r == *self,
    {
        Program {
            fd: self.fd,
            name: self.name.clone(),
            section: self.section.clone(),
            prog_type: self.prog_type,
            attach_type: self.attach_type,
        }
    }
}

impl Program {
    /// The program's name.
    pub fn name(&self) -> (r: &str)
        ensures
            r@ == self.name@,
    {
        self.name.as_str()
    }

    /// The section the program was defined in.
    pub fn section(&self) -> (r: &str)
        ensures
            r@ == self.section@,
    {
        self.section.as_str()
    }

    /// The program's type.
    pub fn prog_type(&self) -> (r: ProgramType)
        ensures
            r == self.prog_type,
    {
        self.prog_type
    }

    /// The descriptor backing this handle.
    pub fn fd(&self) -> (r: i32)
        ensures
            r == self.fd,
    {
        self.fd
    }

    /// The hook category attachments are validated against.
    pub fn attach_type(&self) -> (r: ProgramAttachType)
        ensures
            r == self.attach_type,
    {
        self.attach_type
    }

    /// Attach the program at a cgroup hook, named by the cgroup's descriptor
    /// and the program's attach type.
    ///
    /// The kernel rejects a program whose attach type is not a cgroup
    /// category, an invalid cgroup descriptor, an unloaded program, and an
    /// occupied hook unless the flags permit overriding, coexistence or
    /// replacement; each rejection is [`Error::Internal`] with the kernel
    /// unchanged. On success a fresh attachment is live at the hook.
    pub fn attach_cgroup(&mut self, kernel: &mut Kernel, cgroup_fd: i32, flags: CgroupAttachFlags)
        -> (r: Result<Link, Error>)
        requires
            old(kernel).wf(),
        ensures
            *final(self) == *old(self),
            final(kernel).wf(),
            ({
                let hook = Hook::Cgroup { cgroup_fd, attach_type: old(self).attach_type };
                &&& !old(self).attach_type.spec_is_cgroup() ==> (is_internal(r) && *final(kernel)
                    == *old(kernel))
                &&& old(self).attach_type.spec_is_cgroup() && cgroup_fd < 0 ==> (is_internal(r)
                    && *final(kernel) == *old(kernel))
                &&& old(self).attach_type.spec_is_cgroup() && cgroup_fd >= 0 && !old(kernel).has_prog(
                    old(self).fd as int,
                ) ==> (is_internal(r) && *final(kernel) == *old(kernel))
                &&& old(self).attach_type.spec_is_cgroup() && cgroup_fd >= 0 && old(kernel).has_prog(
                    old(self).fd as int,
                ) && old(kernel).hook_attached(hook) && !flags.spec_allows_existing() ==> (
                is_internal(r) && *final(kernel) == *old(kernel))
                &&& old(self).attach_type.spec_is_cgroup() && cgroup_fd >= 0 && old(kernel).has_prog(
                    old(self).fd as int,
                ) && !(old(kernel).hook_attached(hook) && !flags.spec_allows_existing()) && old(kernel).at_fd_limit() ==> (is_internal(r) && *final(kernel) == *old(kernel))
                &&& old(self).attach_type.spec_is_cgroup() && cgroup_fd >= 0 && old(kernel).has_prog(
                    old(self).fd as int,
                ) && !(old(kernel).hook_attached(hook) && !flags.spec_allows_existing()) && !old(kernel).at_fd_limit() ==> (r matches Ok(l) && l.prog_fd == old(self).fd && l.hook == hook
                    && final(kernel).links() == old(kernel).links().push(
                    KernelLink { fd: l.fd, prog_fd: old(self).fd, hook },
                ) && final(kernel).hook_attached(hook) && (forall|f: int|
                    final(kernel).map_at(f) == old(kernel).map_at(f)) && final(kernel).progs()
                    == old(kernel).progs())
            }),
    {
        if !self.attach_type.is_cgroup() {
            return Err(
                Error::Internal("program's attach type is not a cgroup category".to_owned()),
            );
        }
        if cgroup_fd < 0 {
            return Err(Error::Internal("invalid cgroup descriptor".to_owned()));
        }
        let hook = Hook::Cgroup { cgroup_fd, attach_type: self.attach_type };
        let allow = (flags.bits & (CGROUP_ATTACH_ALLOW_OVERRIDE | CGROUP_ATTACH_ALLOW_MULTI
            | CGROUP_ATTACH_REPLACE)) != 0;
        match kernel.attach(self.fd, hook, allow) {
            Ok(lfd) => {
                proof {
                    let s2 = final(kernel).links();
                    assert(s2[s2.len() - 1].hook == hook);
                }
                Ok(Link { fd: lfd, prog_fd: self.fd, hook })
            },
            Err(e) => Err(e),
        }
    }

    /// Attach the program at a performance-monitoring event.
    ///
    /// The kernel rejects a program configured with a cgroup attach type, an
    /// invalid event descriptor, an unloaded program, and an event that
    /// already carries a program; each rejection is [`Error::Internal`] with
    /// the kernel unchanged. On success a fresh attachment is live at the
    /// event.
    pub fn attach_perf_event(&mut self, kernel: &mut Kernel, pfd: i32) -> (r: Result<Link, Error>)
        requires
            old(kernel).wf(),
        ensures
            *final(self) == *old(self),
            final(kernel).wf(),
            ({
                let hook = Hook::PerfEvent { pfd };
                &&& old(self).attach_type.spec_is_cgroup() ==> (is_internal(r) && *final(kernel) == *old(kernel))
                &&& !old(self).attach_type.spec_is_cgroup() && pfd < 0 ==> (is_internal(r) && *final(kernel) == *old(kernel))
                &&& !old(self).attach_type.spec_is_cgroup() && pfd >= 0 && !old(kernel).has_prog(
                    old(self).fd as int,
                ) ==> (is_internal(r) && *final(kernel) == *old(kernel))
                &&& !old(self).attach_type.spec_is_cgroup() && pfd >= 0 && old(kernel).has_prog(
                    old(self).fd as int,
                ) && old(kernel).hook_attached(hook) ==> (is_internal(r) && *final(kernel) == *old(kernel))
                &&& !old(self).attach_type.spec_is_cgroup() && pfd >= 0 && old(kernel).has_prog(
                    old(self).fd as int,
                ) && !old(kernel).hook_attached(hook) && old(kernel).at_fd_limit() ==> (is_internal(
                    r,
                ) && *final(kernel) == *old(kernel))
                &&& !old(self).attach_type.spec_is_cgroup() && pfd >= 0 && old(kernel).has_prog(
                    old(self).fd as int,
                ) && !old(kernel).hook_attached(hook) && !old(kernel).at_fd_limit() ==> (r matches
                    Ok(l) && l.prog_fd == old(self).fd && l.hook == hook && final(kernel).links() == old(kernel).links().push(KernelLink { fd: l.fd, prog_fd: old(self).fd, hook }) && final(kernel).hook_attached(hook) && (forall|f: int|
                    final(kernel).map_at(f) == old(kernel).map_at(f)) && final(kernel).progs()
                    == old(kernel).progs())
            }),
    {
        if self.attach_type.is_cgroup() {
            return Err(
                Error::Internal("program's attach type names a cgroup category".to_owned()),
            );
        }
        if pfd < 0 {
            return Err(Error::Internal("invalid event descriptor".to_owned()));
        }
        let hook = Hook::PerfEvent { pfd };
        match kernel.attach(self.fd, hook, false) {
            Ok(lfd) => {
                proof {
                    let s2 = final(kernel).links();
                    assert(s2[s2.len() - 1].hook == hook);
                }
                Ok(Link { fd: lfd, prog_fd: self.fd, hook })
            },
            Err(e) => Err(e),
        }
    }
}

impl Link {
    /// Release the attachment: the hook is free again afterwards unless
    /// another attachment shares it. Detaching a link the kernel no longer
    /// records is its rejection, [`Error::Internal`].
    pub fn detach(self, kernel: &mut Kernel) -> (r: Result<(), Error>)
        requires
            old(kernel).wf(),
        ensures
            final(kernel).wf(),
            !(exists|i: int|
                0 <= i < old(kernel).links().len() && old(kernel).links()[i].fd == self.fd) ==> (
            is_internal(r) && *final(kernel) == *old(kernel)),
            (exists|i: int|
                0 <= i < old(kernel).links().len() && old(kernel).links()[i].fd == self.fd) ==> (r
                is Ok && ({
                let i = choose|i: int|
                    0 <= i < old(kernel).links().len() && old(kernel).links()[i].fd == self.fd;
                final(kernel).links() == old(kernel).links().remove(i)
            }) && (forall|f: int| final(kernel).map_at(f) == old(kernel).map_at(f)) && final(kernel).progs() == old(kernel).progs()),
    {
        kernel.detach(self.fd)
    }
}

} // verus!
