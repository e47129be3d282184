//! Exact bit layout of the flag sets, and the error taxonomy's surface.

use vbpf::errors::Error;
use vbpf::flags::{
    CgroupAttachFlags, MapBuilderFlags, MapFlags, CGROUP_ATTACH_ALLOW_MULTI,
    CGROUP_ATTACH_ALLOW_OVERRIDE, CGROUP_ATTACH_REPLACE, MAP_CREATE_CLONE, MAP_CREATE_MMAPABLE,
    MAP_CREATE_NO_COMMON_LRU, MAP_CREATE_NO_PREALLOC, MAP_CREATE_NUMA_NODE, MAP_CREATE_RDONLY,
    MAP_CREATE_RDONLY_PROG, MAP_CREATE_STACK_BUILD_ID, MAP_CREATE_WRONLY, MAP_CREATE_WRONLY_PROG,
    MAP_CREATE_ZERO_SEED, MAP_OP_ANY, MAP_OP_EXIST, MAP_OP_LOCK, MAP_OP_NO_EXIST,
};

#[test]
fn map_create_flags_match_the_kernel_abi() {
    assert_eq!(MAP_CREATE_NO_PREALLOC, 1);
    assert_eq!(MAP_CREATE_NO_COMMON_LRU, 1 << 1);
    assert_eq!(MAP_CREATE_NUMA_NODE, 1 << 2);
    assert_eq!(MAP_CREATE_RDONLY, 1 << 3);
    assert_eq!(MAP_CREATE_WRONLY, 1 << 4);
    assert_eq!(MAP_CREATE_STACK_BUILD_ID, 1 << 5);
    assert_eq!(MAP_CREATE_ZERO_SEED, 1 << 6);
    assert_eq!(MAP_CREATE_RDONLY_PROG, 1 << 7);
    assert_eq!(MAP_CREATE_WRONLY_PROG, 1 << 8);
    assert_eq!(MAP_CREATE_CLONE, 1 << 9);
    assert_eq!(MAP_CREATE_MMAPABLE, 1 << 10);
}

#[test]
fn map_op_flags_match_the_kernel_abi() {
    assert_eq!(MAP_OP_ANY, 0);
    assert_eq!(MAP_OP_NO_EXIST, 1);
    assert_eq!(MAP_OP_EXIST, 1 << 1);
    assert_eq!(MAP_OP_LOCK, 1 << 2);
    assert_eq!(MapFlags::any().bits(), 0);
    assert_eq!(MapFlags::no_exist().bits(), 1);
    assert_eq!(MapFlags::exist().bits(), 2);
    assert_eq!(MapFlags::lock().bits(), 4);
}

#[test]
fn cgroup_attach_flags_match_the_kernel_abi() {
    assert_eq!(CGROUP_ATTACH_ALLOW_OVERRIDE, 1);
    assert_eq!(CGROUP_ATTACH_ALLOW_MULTI, 1 << 1);
    assert_eq!(CGROUP_ATTACH_REPLACE, 1 << 2);
}

#[test]
fn flag_sets_combine_with_bitwise_or() {
    let combined = MapBuilderFlags::from_bits(MAP_CREATE_RDONLY)
        .or(MapBuilderFlags::from_bits(MAP_CREATE_NO_PREALLOC));
    assert_eq!(combined.bits(), 9);
    assert!(combined.contains(MapBuilderFlags::from_bits(MAP_CREATE_RDONLY)));
    assert!(!combined.contains(MapBuilderFlags::from_bits(MAP_CREATE_WRONLY)));

    let op = MapFlags::no_exist().or(MapFlags::lock());
    assert_eq!(op.bits(), 5);

    let attach = CgroupAttachFlags::empty()
        .or(CgroupAttachFlags::from_bits(CGROUP_ATTACH_REPLACE));
    assert_eq!(attach.bits(), 4);
}

#[test]
fn error_kinds_are_distinguishable() {
    let invalid = Error::InvalidInput("bad buffer".to_string());
    let internal = Error::Internal("kernel said no".to_string());
    assert!(invalid.invalid_input());
    assert!(!invalid.internal());
    assert!(internal.internal());
    assert!(!internal.invalid_input());
    assert_eq!(invalid.message(), "bad buffer");
    assert_eq!(internal.message(), "kernel said no");
}
