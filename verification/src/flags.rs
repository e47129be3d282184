//! Bitmask option sets passed through to the kernel.
//!
//! Each set is a closed collection of named bit values that combine with
//! bitwise or. The layer never interprets the masks beyond the few bits its
//! own contracts mention; the bit layout follows the kernel ABI exactly.

use vstd::prelude::*;

verus! {

/// Map-creation flag: do not preallocate backing storage.
pub const MAP_CREATE_NO_PREALLOC: u64 = 1u64;
/// Map-creation flag: no common LRU list across CPUs.
pub const MAP_CREATE_NO_COMMON_LRU: u64 = 2u64;
/// Map-creation flag: place the map on the configured NUMA node.
pub const MAP_CREATE_NUMA_NODE: u64 = 4u64;
/// Map-creation flag: map is read-only from user space.
pub const MAP_CREATE_RDONLY: u64 = 8u64;
/// Map-creation flag: map is write-only from user space.
pub const MAP_CREATE_WRONLY: u64 = 16u64;
/// Map-creation flag: store build ids in stack-trace entries.
pub const MAP_CREATE_STACK_BUILD_ID: u64 = 32u64;
/// Map-creation flag: seed the map's hash function with zero.
pub const MAP_CREATE_ZERO_SEED: u64 = 64u64;
/// Map-creation flag: map is read-only from program side.
pub const MAP_CREATE_RDONLY_PROG: u64 = 128u64;
/// Map-creation flag: map is write-only from program side.
pub const MAP_CREATE_WRONLY_PROG: u64 = 256u64;
/// Map-creation flag: clone the map on update.
pub const MAP_CREATE_CLONE: u64 = 512u64;
/// Map-creation flag: map may be memory-mapped by user space.
pub const MAP_CREATE_MMAPABLE: u64 = 1024u64;

/// Map-operation flag: create the element or update it if present.
pub const MAP_OP_ANY: u64 = 0u64;
/// Map-operation flag: create the element only if it does not exist yet.
pub const MAP_OP_NO_EXIST: u64 = 1u64;
/// Map-operation flag: update the element only if it already exists.
pub const MAP_OP_EXIST: u64 = 2u64;
/// Map-operation flag: operate under the map's spin lock.
pub const MAP_OP_LOCK: u64 = 4u64;

/// Cgroup-attach flag: an attachment may be overridden in a sub-cgroup.
pub const CGROUP_ATTACH_ALLOW_OVERRIDE: u64 = 1u64;
/// Cgroup-attach flag: several programs may attach at the same hook.
pub const CGROUP_ATTACH_ALLOW_MULTI: u64 = 2u64;
/// Cgroup-attach flag: replace the program already attached at the hook.
pub const CGROUP_ATTACH_REPLACE: u64 = 4u64;

/// Flags accepted when a map is created.
#[derive(Clone, Copy, PartialEq, Eq, Structural, Debug)]
pub struct MapBuilderFlags {
    pub bits: u64,
}

impl MapBuilderFlags {
    /// The empty flag set.
    pub fn empty() -> (r: Self)
        ensures
            r.bits == 0,
    {
        MapBuilderFlags { bits: 0 }
    }

    /// The flag set holding exactly the given mask.
    pub fn from_bits(bits: u64) -> (r: Self)
        ensures
            r.bits == bits,
    {
        MapBuilderFlags { bits }
    }

    /// The raw mask.
    pub fn bits(&self) -> (r: u64)
        ensures
            r == self.bits,
    {
        self.bits
    }

    /// The union of two flag sets.
    pub fn or(self, other: Self) -> (r: Self)
        ensures
            r.bits == (self.bits | other.bits),
    {
        MapBuilderFlags { bits: self.bits | other.bits }
    }

    /// Whether every bit of `other` is set in `self`.
    pub fn contains(self, other: Self) -> (r: bool)
        ensures
            r == ((self.bits & other.bits) == other.bits),
    {
        (self.bits & other.bits) == other.bits
    }
}

/// Flags accepted by map element operations.
#[derive(Clone, Copy, PartialEq, Eq, Structural, Debug)]
pub struct MapFlags {
    pub bits: u64,
}

impl MapFlags {
    /// Whether the update-only-if-absent bit is set.
    pub open spec fn spec_requires_absent(self) -> bool {
        self.bits & MAP_OP_NO_EXIST != 0
    }

    /// Whether the update-only-if-present bit is set.
    pub open spec fn spec_requires_present(self) -> bool {
        self.bits & MAP_OP_EXIST != 0
    }

    /// The empty flag set, selecting create-or-update semantics.
    pub fn any() -> (r: Self)
        ensures
            r.bits == MAP_OP_ANY,
            !r.spec_requires_absent(),
            !r.spec_requires_present(),
    {
        proof {
            assert((0u64 & 1u64) == 0 && (0u64 & 2u64) == 0) by (bit_vector);
        }
        MapFlags { bits: MAP_OP_ANY }
    }

    /// The flag selecting create-only semantics.
    pub fn no_exist() -> (r: Self)
        ensures
            r.bits == MAP_OP_NO_EXIST,
            r.spec_requires_absent(),
            !r.spec_requires_present(),
    {
        proof {
            assert((1u64 & 1u64) != 0 && (1u64 & 2u64) == 0) by (bit_vector);
        }
        MapFlags { bits: MAP_OP_NO_EXIST }
    }

    /// The flag selecting update-only semantics.
    pub fn exist() -> (r: Self)
        ensures
            r.bits == MAP_OP_EXIST,
            !r.spec_requires_absent(),
            r.spec_requires_present(),
    {
        proof {
            assert((2u64 & 1u64) == 0 && (2u64 & 2u64) != 0) by (bit_vector);
        }
        MapFlags { bits: MAP_OP_EXIST }
    }

    /// The flag requesting the map's spin lock.
    pub fn lock() -> (r: Self)
        ensures
            r.bits == MAP_OP_LOCK,
            !r.spec_requires_absent(),
            !r.spec_requires_present(),
    {
        proof {
            assert((4u64 & 1u64) == 0 && (4u64 & 2u64) == 0) by (bit_vector);
        }
        MapFlags { bits: MAP_OP_LOCK }
    }

    /// The flag set holding exactly the given mask.
    pub fn from_bits(bits: u64) -> (r: Self)
        ensures
            r.bits == bits,
    {
        MapFlags { bits }
    }

    /// The raw mask.
    pub fn bits(&self) -> (r: u64)
        ensures
            r == self.bits,
    {
        self.bits
    }

    /// The union of two flag sets.
    pub fn or(self, other: Self) -> (r: Self)
        ensures
            r.bits == (self.bits | other.bits),
    {
        MapFlags { bits: self.bits | other.bits }
    }
}

/// Flags accepted when a program attaches to a cgroup hook.
#[derive(Clone, Copy, PartialEq, Eq, Structural, Debug)]
pub struct CgroupAttachFlags {
    pub bits: u64,
}

impl CgroupAttachFlags {
    /// Whether any bit permitting coexistence with or replacement of an
    /// existing attachment is set.
    pub open spec fn spec_allows_existing(self) -> bool {
        self.bits & (CGROUP_ATTACH_ALLOW_OVERRIDE | CGROUP_ATTACH_ALLOW_MULTI
            | CGROUP_ATTACH_REPLACE) != 0
    }

    /// The empty flag set: the hook must be free.
    pub fn empty() -> (r: Self)
        ensures
            r.bits == 0,
            !r.spec_allows_existing(),
    {
        proof {
            assert((0u64 & (1u64 | 2u64 | 4u64)) == 0) by (bit_vector);
        }
        CgroupAttachFlags { bits: 0 }
    }

    /// The flag set holding exactly the given mask.
    pub fn from_bits(bits: u64) -> (r: Self)
        ensures
            r.bits == bits,
    {
        CgroupAttachFlags { bits }
    }

    /// The raw mask.
    pub fn bits(&self) -> (r: u64)
        ensures
            r == self.bits,
    {
        self.bits
    }

    /// The union of two flag sets.
    pub fn or(self, other: Self) -> (r: Self)
        ensures
            r.bits == (self.bits | other.bits),
    {
        CgroupAttachFlags { bits: self.bits | other.bits }
    }
}

} // verus!
