//! Map element operations against the kernel model.

use vbpf::errors::Error;
use vbpf::flags::{MapBuilderFlags, MapFlags};
use vbpf::kernel::Kernel;
use vbpf::object::{BpfMap, MapBuilder};
use vbpf::types::MapType;

fn load_map(kernel: &mut Kernel, key_size: u32, value_size: u32) -> BpfMap {
    let mut builder = MapBuilder {
        name: "m".to_string(),
        map_type: MapType::Hash,
        key_size,
        value_size,
        max_entries: 64,
        ifindex: 0,
        numa_node: None,
        initial_value: None,
        inner_map_fd: None,
        flags: MapBuilderFlags::empty(),
    };
    builder.load(kernel).unwrap()
}

#[test]
fn update_then_lookup_returns_value() {
    let mut kernel = Kernel::new();
    let mut map = load_map(&mut kernel, 4, 8);
    let key = [1u8, 2, 3, 4];
    let value = [9u8, 8, 7, 6, 5, 4, 3, 2];
    map.update(&mut kernel, &key, &value, MapFlags::any()).unwrap();
    let got = map.lookup(&kernel, &key, MapFlags::any()).unwrap();
    assert_eq!(got, Some(value.to_vec()));
}

#[test]
fn lookup_of_absent_key_is_none() {
    let mut kernel = Kernel::new();
    let map = load_map(&mut kernel, 4, 8);
    let got = map.lookup(&kernel, &[0, 0, 0, 0], MapFlags::any()).unwrap();
    assert_eq!(got, None);
}

#[test]
fn wrong_key_size_is_invalid_input_without_kernel_effect() {
    let mut kernel = Kernel::new();
    let mut map = load_map(&mut kernel, 4, 8);
    let value = [0u8; 8];
    map.update(&mut kernel, &[1, 2, 3, 4], &value, MapFlags::any()).unwrap();

    let r = map.lookup(&kernel, &[1, 2, 3], MapFlags::any());
    assert!(matches!(r, Err(Error::InvalidInput(_))));
    let r = map.update(&mut kernel, &[1, 2, 3, 4, 5], &value, MapFlags::any());
    assert!(matches!(r, Err(Error::InvalidInput(_))));
    let r = map.delete(&mut kernel, &[]);
    assert!(matches!(r, Err(Error::InvalidInput(_))));
    let r = map.lookup_and_delete(&mut kernel, &[1], MapFlags::any());
    assert!(matches!(r, Err(Error::InvalidInput(_))));

    // The stored element is untouched by any of the rejected operations.
    let got = map.lookup(&kernel, &[1, 2, 3, 4], MapFlags::any()).unwrap();
    assert_eq!(got, Some(value.to_vec()));
}

#[test]
fn wrong_value_size_is_invalid_input() {
    let mut kernel = Kernel::new();
    let mut map = load_map(&mut kernel, 4, 8);
    let r = map.update(&mut kernel, &[1, 2, 3, 4], &[1, 2, 3], MapFlags::any());
    assert!(matches!(r, Err(Error::InvalidInput(_))));
}

#[test]
fn no_exist_fails_on_present_key_and_exist_on_absent() {
    let mut kernel = Kernel::new();
    let mut map = load_map(&mut kernel, 1, 1);

    // EXIST on an absent key fails; NO_EXIST succeeds there.
    let r = map.update(&mut kernel, &[1], &[10], MapFlags::exist());
    assert!(matches!(r, Err(Error::Internal(_))));
    map.update(&mut kernel, &[1], &[10], MapFlags::no_exist()).unwrap();

    // NO_EXIST on a present key fails; EXIST succeeds there.
    let r = map.update(&mut kernel, &[1], &[11], MapFlags::no_exist());
    assert!(matches!(r, Err(Error::Internal(_))));
    map.update(&mut kernel, &[1], &[12], MapFlags::exist()).unwrap();

    let got = map.lookup(&kernel, &[1], MapFlags::any()).unwrap();
    assert_eq!(got, Some(vec![12]));
}

#[test]
fn delete_removes_and_absent_delete_is_internal() {
    let mut kernel = Kernel::new();
    let mut map = load_map(&mut kernel, 1, 1);
    map.update(&mut kernel, &[5], &[6], MapFlags::any()).unwrap();
    map.delete(&mut kernel, &[5]).unwrap();
    assert_eq!(map.lookup(&kernel, &[5], MapFlags::any()).unwrap(), None);
    let r = map.delete(&mut kernel, &[5]);
    assert!(matches!(r, Err(Error::Internal(_))));
}

#[test]
fn lookup_and_delete_hands_back_value_and_removes() {
    let mut kernel = Kernel::new();
    let mut map = load_map(&mut kernel, 1, 2);
    map.update(&mut kernel, &[3], &[7, 8], MapFlags::any()).unwrap();
    let got = map.lookup_and_delete(&mut kernel, &[3], MapFlags::any()).unwrap();
    assert_eq!(got, Some(vec![7, 8]));
    assert_eq!(map.lookup(&kernel, &[3], MapFlags::any()).unwrap(), None);
    let got = map.lookup_and_delete(&mut kernel, &[3], MapFlags::any()).unwrap();
    assert_eq!(got, None);
}

#[test]
fn update_overwrites_and_keeps_other_keys() {
    let mut kernel = Kernel::new();
    let mut map = load_map(&mut kernel, 1, 1);
    map.update(&mut kernel, &[1], &[10], MapFlags::any()).unwrap();
    map.update(&mut kernel, &[2], &[20], MapFlags::any()).unwrap();
    map.update(&mut kernel, &[1], &[11], MapFlags::any()).unwrap();
    assert_eq!(map.lookup(&kernel, &[1], MapFlags::any()).unwrap(), Some(vec![11]));
    assert_eq!(map.lookup(&kernel, &[2], MapFlags::any()).unwrap(), Some(vec![20]));
}

#[test]
fn clone_observes_same_kernel_state() {
    let mut kernel = Kernel::new();
    let mut map = load_map(&mut kernel, 1, 1);
    let mut twin = map.clone();
    assert_eq!(twin.fd(), map.fd());
    assert_eq!(twin.key_size(), map.key_size());

    twin.update(&mut kernel, &[9], &[1], MapFlags::any()).unwrap();
    assert_eq!(map.lookup(&kernel, &[9], MapFlags::any()).unwrap(), Some(vec![1]));

    map.update(&mut kernel, &[9], &[2], MapFlags::any()).unwrap();
    assert_eq!(twin.lookup(&kernel, &[9], MapFlags::any()).unwrap(), Some(vec![2]));
}

#[test]
fn two_loaded_maps_are_independent() {
    let mut kernel = Kernel::new();
    let mut first = load_map(&mut kernel, 1, 1);
    let second = load_map(&mut kernel, 1, 1);
    first.update(&mut kernel, &[1], &[1], MapFlags::any()).unwrap();
    assert_eq!(second.lookup(&kernel, &[1], MapFlags::any()).unwrap(), None);
}
