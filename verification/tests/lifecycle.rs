//! The open-configure-load lifecycle, end to end against the kernel model.

use vbpf::artifact::{Artifact, MapDef, ObjectStore, ProgDef};
use vbpf::errors::Error;
use vbpf::kernel::Kernel;
use vbpf::object::ObjectBuilder;
use vbpf::types::{MapType, ProgramAttachType, ProgramType};

fn counts_artifact() -> Artifact {
    let mut artifact = Artifact::new();
    artifact.add_map(MapDef {
        name: "counts".to_string(),
        map_type: MapType::Hash,
        key_size: 4,
        value_size: 8,
        max_entries: 1024,
    });
    artifact.add_prog(ProgDef {
        name: "handler".to_string(),
        section: "tracepoint/syscalls/sys_enter_open".to_string(),
        insn_count: 16,
    });
    artifact
}

#[test]
fn from_path_well_formed_artifact() {
    let mut store = ObjectStore::new();
    store.add("valid.o", counts_artifact());
    let mut kernel = Kernel::new();
    let mut builder = ObjectBuilder::default();
    let object = builder.from_path(&store, "valid.o").unwrap();
    assert_eq!(object.name(), "valid.o");

    let mut map_builder = object.map("counts").unwrap();
    let map = map_builder.load(&mut kernel).unwrap();
    assert_eq!(map.key_size(), 4);
    assert_eq!(map.value_size(), 8);
    assert_eq!(map.name(), "counts");
    assert!(matches!(map.map_type(), MapType::Hash));

    let mut prog_builder = object.prog("handler").unwrap();
    prog_builder.set_prog_type(ProgramType::TracePoint);
    prog_builder.set_attach_type(ProgramAttachType::TraceRawTp);
    let prog = prog_builder.load(&mut kernel).unwrap();
    assert_eq!(prog.name(), "handler");
    assert_eq!(prog.section(), "tracepoint/syscalls/sys_enter_open");
    assert!(matches!(prog.prog_type(), ProgramType::TracePoint));
    assert_ne!(map.fd(), prog.fd());
}

#[test]
fn from_path_missing_artifact_is_internal() {
    let store = ObjectStore::new();
    let mut builder = ObjectBuilder::default();
    let r = builder.from_path(&store, "/does/not/exist");
    assert!(matches!(r, Err(Error::Internal(_))));
}

#[test]
fn from_path_nul_in_path_is_invalid_input() {
    let mut store = ObjectStore::new();
    store.add("valid.o", counts_artifact());
    let mut builder = ObjectBuilder::default();
    let r = builder.from_path(&store, "valid\0.o");
    assert!(matches!(r, Err(Error::InvalidInput(_))));
}

#[test]
fn from_path_rejects_malformed_declarations() {
    let mut artifact = Artifact::new();
    artifact.add_map(MapDef {
        name: "broken".to_string(),
        map_type: MapType::Hash,
        key_size: 0,
        value_size: 8,
        max_entries: 16,
    });
    let mut store = ObjectStore::new();
    store.add("broken.o", artifact);
    let mut builder = ObjectBuilder::default();
    let r = builder.from_path(&store, "broken.o");
    assert!(matches!(r, Err(Error::Internal(_))));
}

#[test]
fn set_name_overrides_object_name() {
    let mut store = ObjectStore::new();
    store.add("valid.o", counts_artifact());
    let mut builder = ObjectBuilder::default();
    builder.set_name("renamed");
    builder.set_relaxed_maps(true);
    let object = builder.from_path(&store, "valid.o").unwrap();
    assert_eq!(object.name(), "renamed");
}

#[test]
fn from_memory_uses_given_name() {
    let artifact = counts_artifact();
    let mut builder = ObjectBuilder::default();
    let object = builder.from_memory("in_memory", &artifact).unwrap();
    assert_eq!(object.name(), "in_memory");
    assert!(object.map("counts").is_some());
    assert!(object.prog("handler").is_some());
}

#[test]
fn unknown_names_are_absent_not_errors() {
    let artifact = counts_artifact();
    let mut builder = ObjectBuilder::default();
    let object = builder.from_memory("obj", &artifact).unwrap();
    assert!(object.map("no_such_map").is_none());
    assert!(object.prog("no_such_prog").is_none());
}

#[test]
fn program_load_without_type_is_internal() {
    let artifact = counts_artifact();
    let mut kernel = Kernel::new();
    let mut builder = ObjectBuilder::default();
    let object = builder.from_memory("obj", &artifact).unwrap();
    let mut prog_builder = object.prog("handler").unwrap();
    let r = prog_builder.load(&mut kernel);
    assert!(matches!(r, Err(Error::Internal(_))));
}

#[test]
fn map_load_rejects_unspecified_type() {
    let mut kernel = Kernel::new();
    let mut map_builder = vbpf::object::MapBuilder {
        name: "m".to_string(),
        map_type: MapType::Unspec,
        key_size: 4,
        value_size: 4,
        max_entries: 4,
        ifindex: 0,
        numa_node: None,
        initial_value: None,
        inner_map_fd: None,
        flags: vbpf::flags::MapBuilderFlags::empty(),
    };
    let r = map_builder.load(&mut kernel);
    assert!(matches!(r, Err(Error::Internal(_))));
}

#[test]
fn builder_setters_configure_pending_map() {
    let artifact = counts_artifact();
    let mut builder = ObjectBuilder::default();
    let object = builder.from_memory("obj", &artifact).unwrap();
    let mut kernel = Kernel::new();

    let mut inner_builder = object.map("counts").unwrap();
    let inner = inner_builder.load(&mut kernel).unwrap();

    let mut map_builder = object.map("counts").unwrap();
    map_builder.set_map_ifindex(7);
    map_builder.set_max_entries(99);
    map_builder.set_initial_value(&[1, 2, 3]);
    map_builder.set_numa_node(1);
    map_builder.set_flags(vbpf::flags::MapBuilderFlags::from_bits(
        vbpf::flags::MAP_CREATE_NO_PREALLOC,
    ));
    let inner_fd = inner.fd();
    map_builder.set_inner_map_fd(inner);
    assert_eq!(map_builder.ifindex, 7);
    assert_eq!(map_builder.max_entries, 99);
    assert_eq!(map_builder.initial_value.as_deref(), Some(&[1u8, 2, 3][..]));
    assert_eq!(map_builder.numa_node, Some(1));
    assert_eq!(map_builder.inner_map_fd, Some(inner_fd));
    assert_eq!(map_builder.flags.bits(), 1);

    let map = map_builder.load(&mut kernel).unwrap();
    assert_eq!(map.key_size(), 4);
}
