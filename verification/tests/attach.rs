//! Program attachment and detachment against the kernel model.

use vbpf::errors::Error;
use vbpf::flags::{CgroupAttachFlags, CGROUP_ATTACH_ALLOW_MULTI};
use vbpf::kernel::Kernel;
use vbpf::object::{Program, ProgramBuilder};
use vbpf::types::{ProgramAttachType, ProgramType};

fn load_prog(kernel: &mut Kernel, attach_type: ProgramAttachType) -> Program {
    let mut builder = ProgramBuilder {
        name: "handler".to_string(),
        section: "cgroup/skb".to_string(),
        insn_count: 8,
        prog_type: ProgramType::CgroupSkb,
        attach_type: Some(attach_type),
        ifindex: 0,
    };
    builder.load(kernel).unwrap()
}

#[test]
fn attach_cgroup_succeeds_for_cgroup_attach_type() {
    let mut kernel = Kernel::new();
    let mut prog = load_prog(&mut kernel, ProgramAttachType::CgroupInetIngress);
    let link = prog.attach_cgroup(&mut kernel, 10, CgroupAttachFlags::empty()).unwrap();
    link.detach(&mut kernel).unwrap();
}

#[test]
fn attach_perf_event_on_cgroup_attach_type_is_internal() {
    let mut kernel = Kernel::new();
    let mut prog = load_prog(&mut kernel, ProgramAttachType::CgroupInetEgress);
    let r = prog.attach_perf_event(&mut kernel, 11);
    assert!(matches!(r, Err(Error::Internal(_))));
}

#[test]
fn attach_cgroup_on_non_cgroup_attach_type_is_internal() {
    let mut kernel = Kernel::new();
    let mut prog = load_prog(&mut kernel, ProgramAttachType::TraceRawTp);
    let r = prog.attach_cgroup(&mut kernel, 10, CgroupAttachFlags::empty());
    assert!(matches!(r, Err(Error::Internal(_))));
}

#[test]
fn attach_perf_event_succeeds_and_occupies_the_event() {
    let mut kernel = Kernel::new();
    let mut prog = load_prog(&mut kernel, ProgramAttachType::TraceRawTp);
    let link = prog.attach_perf_event(&mut kernel, 12).unwrap();
    let r = prog.attach_perf_event(&mut kernel, 12);
    assert!(matches!(r, Err(Error::Internal(_))));
    link.detach(&mut kernel).unwrap();
}

#[test]
fn invalid_target_descriptors_are_internal() {
    let mut kernel = Kernel::new();
    let mut cgroup_prog = load_prog(&mut kernel, ProgramAttachType::CgroupInetIngress);
    let r = cgroup_prog.attach_cgroup(&mut kernel, -1, CgroupAttachFlags::empty());
    assert!(matches!(r, Err(Error::Internal(_))));
    let mut trace_prog = load_prog(&mut kernel, ProgramAttachType::TraceRawTp);
    let r = trace_prog.attach_perf_event(&mut kernel, -3);
    assert!(matches!(r, Err(Error::Internal(_))));
}

#[test]
fn dropped_link_frees_the_hook_for_reattachment() {
    let mut kernel = Kernel::new();
    let mut prog = load_prog(&mut kernel, ProgramAttachType::CgroupInetIngress);

    let link = prog.attach_cgroup(&mut kernel, 20, CgroupAttachFlags::empty()).unwrap();
    // While the link lives, an equivalent attach is rejected as busy.
    let busy = prog.attach_cgroup(&mut kernel, 20, CgroupAttachFlags::empty());
    assert!(matches!(busy, Err(Error::Internal(_))));

    // Releasing the link detaches; the same hook accepts the program again.
    link.detach(&mut kernel).unwrap();
    let again = prog.attach_cgroup(&mut kernel, 20, CgroupAttachFlags::empty());
    assert!(again.is_ok());
}

#[test]
fn allow_multi_permits_coexisting_attachments() {
    let mut kernel = Kernel::new();
    let mut prog = load_prog(&mut kernel, ProgramAttachType::CgroupInetIngress);
    let flags = CgroupAttachFlags::from_bits(CGROUP_ATTACH_ALLOW_MULTI);
    let first = prog.attach_cgroup(&mut kernel, 30, flags).unwrap();
    let second = prog.attach_cgroup(&mut kernel, 30, flags).unwrap();
    assert_ne!(first.fd, second.fd);
    first.detach(&mut kernel).unwrap();
    second.detach(&mut kernel).unwrap();
}

#[test]
fn distinct_hooks_do_not_conflict() {
    let mut kernel = Kernel::new();
    let mut prog = load_prog(&mut kernel, ProgramAttachType::CgroupInetIngress);
    let a = prog.attach_cgroup(&mut kernel, 40, CgroupAttachFlags::empty()).unwrap();
    let b = prog.attach_cgroup(&mut kernel, 41, CgroupAttachFlags::empty()).unwrap();
    a.detach(&mut kernel).unwrap();
    b.detach(&mut kernel).unwrap();
}

#[test]
fn program_clone_shares_the_loaded_program() {
    let mut kernel = Kernel::new();
    let prog = load_prog(&mut kernel, ProgramAttachType::CgroupInetIngress);
    let mut twin = prog.clone();
    assert_eq!(twin.fd(), prog.fd());
    assert_eq!(twin.name(), prog.name());
    assert_eq!(twin.section(), prog.section());
    let link = twin.attach_cgroup(&mut kernel, 50, CgroupAttachFlags::empty()).unwrap();
    assert_eq!(link.prog_fd, prog.fd());
    link.detach(&mut kernel).unwrap();
}

#[test]
fn double_detach_is_internal() {
    let mut kernel = Kernel::new();
    let mut prog = load_prog(&mut kernel, ProgramAttachType::CgroupInetIngress);
    let link = prog.attach_cgroup(&mut kernel, 60, CgroupAttachFlags::empty()).unwrap();
    let copy = vbpf::object::Link { fd: link.fd, prog_fd: link.prog_fd, hook: link.hook };
    link.detach(&mut kernel).unwrap();
    let r = copy.detach(&mut kernel);
    assert!(matches!(r, Err(Error::Internal(_))));
}
