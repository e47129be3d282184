//! The kind enumerations shared by maps, programs and attachments.

use vstd::prelude::*;

verus! {

/// Type of a loaded map, mirroring the kernel's map-type enumeration.
#[derive(Clone, Copy, PartialEq, Eq, Structural, Debug)]
#[non_exhaustive]
pub enum MapType {
    /// No type given; the kernel rejects creation.
    Unspec,
    /// A hash table keyed by opaque bytes.
    Hash,
    /// An array indexed by a fixed-width key.
    Array,
    /// A hash table with least-recently-used eviction.
    LruHash,
    /// An array of perf-event descriptors.
    PerfEventArray,
}

/// Type of a loaded program, mirroring the kernel's program-type enumeration.
#[derive(Clone, Copy, PartialEq, Eq, Structural, Debug)]
#[non_exhaustive]
pub enum ProgramType {
    /// No type given; the kernel rejects loading.
    Unspec,
    /// Attached to a socket as a filter.
    SocketFilter,
    /// Attached to a kernel probe point.
    Kprobe,
    /// Attached as a traffic-control classifier.
    SchedCls,
    /// Attached to a static tracepoint.
    TracePoint,
    /// Attached to a network device's receive path.
    Xdp,
    /// Attached to a performance-monitoring event.
    PerfEvent,
    /// Attached to a cgroup's socket-buffer hooks.
    CgroupSkb,
    /// Attached to a cgroup's socket hooks.
    CgroupSock,
}

/// Attach type of a program: the hook category it is validated against when
/// attaching, mirroring the kernel's attach-type enumeration.
#[derive(Clone, Copy, PartialEq, Eq, Structural, Debug)]
#[non_exhaustive]
pub enum ProgramAttachType {
    /// Ingress path of a cgroup's sockets.
    CgroupInetIngress,
    /// Egress path of a cgroup's sockets.
    CgroupInetEgress,
    /// Socket creation within a cgroup.
    CgroupInetSockCreate,
    /// Socket operations within a cgroup.
    CgroupSockOps,
    /// Device access from within a cgroup.
    CgroupDevice,
    /// Stream parser of a socket map.
    SkSkbStreamParser,
    /// Verdict hook of a socket message map.
    SkMsgVerdict,
    /// A raw tracepoint.
    TraceRawTp,
    /// A network device's receive path.
    Xdp,
}

impl ProgramAttachType {
    /// Whether this attach type names one of the cgroup hook categories.
    pub open spec fn spec_is_cgroup(self) -> bool {
        match self {
            ProgramAttachType::CgroupInetIngress => true,
            ProgramAttachType::CgroupInetEgress => true,
            ProgramAttachType::CgroupInetSockCreate => true,
            ProgramAttachType::CgroupSockOps => true,
            ProgramAttachType::CgroupDevice => true,
            _ => false,
        }
    }

    /// Whether this attach type names one of the cgroup hook categories.
    pub fn is_cgroup(&self) -> (r: bool)
        ensures
            r == self.spec_is_cgroup(),
    {
        match self {
            ProgramAttachType::CgroupInetIngress => true,
            ProgramAttachType::CgroupInetEgress => true,
            ProgramAttachType::CgroupInetSockCreate => true,
            ProgramAttachType::CgroupSockOps => true,
            ProgramAttachType::CgroupDevice => true,
            _ => false,
        }
    }
}

} // verus!
