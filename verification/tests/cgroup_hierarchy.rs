use quantaos::cgroups::devices::{Access, DeviceRule, DeviceType};
use quantaos::cgroups::{write_file,
    attach_process, create_cgroup, enable_controller, get_cgroup, init, proc_cgroup, read_file, remove_cgroup,
    CgroupError, ControllerType,
};

#[test]
fn create_then_remove_restores_hierarchy() {
    let mut h = init();
    let before = read_file(&h, b"/", b"cgroup.controllers");
    assert_eq!(create_cgroup(&mut h, b"/a"), Ok(()));
    assert_eq!(create_cgroup(&mut h, b"/a"), Err(CgroupError::AlreadyExists));
    assert_eq!(remove_cgroup(&mut h, b"/a"), Ok(()));
    assert_eq!(remove_cgroup(&mut h, b"/a"), Err(CgroupError::NotFound));
    assert_eq!(read_file(&h, b"/", b"cgroup.controllers"), before);
    assert_eq!(read_file(&h, b"/a", b"cgroup.type"), Err(CgroupError::NotFound));
}

#[test]
fn root_cannot_be_removed() {
    let mut h = init();
    assert_eq!(remove_cgroup(&mut h, b"/"), Err(CgroupError::PermissionDenied));
}

#[test]
fn create_needs_existing_parent_and_slash() {
    let mut h = init();
    assert_eq!(create_cgroup(&mut h, b"/x/y"), Err(CgroupError::NotFound));
    assert_eq!(create_cgroup(&mut h, b"x"), Err(CgroupError::InvalidPath));
    assert_eq!(create_cgroup(&mut h, b""), Err(CgroupError::InvalidPath));
}

#[test]
fn group_with_child_or_process_is_not_empty() {
    let mut h = init();
    assert_eq!(create_cgroup(&mut h, b"/a"), Ok(()));
    assert_eq!(create_cgroup(&mut h, b"/a/b"), Ok(()));
    assert_eq!(remove_cgroup(&mut h, b"/a"), Err(CgroupError::NotEmpty));
    assert_eq!(attach_process(&mut h, b"/a/b", 7), Ok(()));
    assert_eq!(remove_cgroup(&mut h, b"/a/b"), Err(CgroupError::NotEmpty));
}

#[test]
fn attach_then_get_cgroup() {
    let mut h = init();
    assert_eq!(create_cgroup(&mut h, b"/a"), Ok(()));
    assert_eq!(attach_process(&mut h, b"/a", 42), Ok(()));
    assert_eq!(get_cgroup(&h, 42), Some(b"/a".to_vec()));
    assert_eq!(read_file(&h, b"/a", b"cgroup.procs"), Ok(b"42".to_vec()));
    assert_eq!(read_file(&h, b"/", b"cgroup.procs"), Ok(Vec::new()));
}

#[test]
fn unattached_process_is_in_root() {
    let h = init();
    assert_eq!(get_cgroup(&h, 99), Some(b"/".to_vec()));
    assert_eq!(proc_cgroup(&h, 99), b"0::/\n".to_vec());
}

#[test]
fn enable_controller_is_idempotent() {
    let mut h = init();
    assert_eq!(create_cgroup(&mut h, b"/a"), Ok(()));
    assert_eq!(enable_controller(&mut h, b"/a", ControllerType::Memory), Ok(()));
    assert_eq!(read_file(&h, b"/a", b"cgroup.controllers"), Ok(b"memory".to_vec()));
    assert_eq!(enable_controller(&mut h, b"/a", ControllerType::Memory), Ok(()));
    assert_eq!(read_file(&h, b"/a", b"cgroup.controllers"), Ok(b"memory".to_vec()));
    assert_eq!(enable_controller(&mut h, b"/nope", ControllerType::Memory), Err(CgroupError::NotFound));
}

#[test]
fn enable_controller_needs_parent_controller() {
    let mut h = init();
    assert_eq!(create_cgroup(&mut h, b"/a"), Ok(()));
    assert_eq!(create_cgroup(&mut h, b"/a/b"), Ok(()));
    assert_eq!(
        enable_controller(&mut h, b"/a/b", ControllerType::Cpu),
        Err(CgroupError::ControllerNotAvailable)
    );
    assert_eq!(read_file(&h, b"/a/b", b"cgroup.controllers"), Ok(Vec::new()));
}

#[test]
fn device_rule_format_parse_round_trip() {
    let r = DeviceRule {
        allow: true,
        device_type: DeviceType::Char,
        major: Some(1),
        minor: None,
        access: Access { read: true, write: true, mknod: false },
    };
    let text = r.format();
    assert_eq!(text, b"allow c 1:* rw".to_vec());
    let back = DeviceRule::parse(&text).unwrap();
    assert!(back.allow);
    assert_eq!(back.device_type, DeviceType::Char);
    assert_eq!(back.major, Some(1));
    assert_eq!(back.minor, None);
    assert_eq!(back.access, r.access);
}

#[test]
fn device_rule_round_trip_deny_block() {
    let r = DeviceRule {
        allow: false,
        device_type: DeviceType::Block,
        major: Some(8),
        minor: Some(16),
        access: Access { read: false, write: false, mknod: true },
    };
    let back = DeviceRule::parse(&r.format()).unwrap();
    assert!(!back.allow);
    assert_eq!(back.device_type, DeviceType::Block);
    assert_eq!(back.major, Some(8));
    assert_eq!(back.minor, Some(16));
    assert_eq!(back.access, r.access);
}

#[test]
fn device_rule_parse_errors() {
    assert!(matches!(DeviceRule::parse(b"allow c 1:*"), Err(CgroupError::InvalidPath)));
    assert!(matches!(DeviceRule::parse(b"permit c 1:* r"), Err(CgroupError::InvalidPath)));
    assert!(matches!(DeviceRule::parse(b"allow x 1:* r"), Err(CgroupError::InvalidPath)));
    assert!(matches!(DeviceRule::parse(b"allow c 1 r"), Err(CgroupError::InvalidPath)));
}

#[test]
fn interface_values_split_on_unicode_whitespace() {

    let mut h = init();
    assert_eq!(create_cgroup(&mut h, b"/a"), Ok(()));
    assert_eq!(enable_controller(&mut h, b"/a", ControllerType::Cpu), Ok(()));
    // "max" U+00A0 "50000"
    assert_eq!(write_file(&mut h, b"/a", b"cpu.max", "max\u{a0}50000".as_bytes()), Ok(()));
    assert_eq!(read_file(&h, b"/a", b"cpu.max"), Ok(b"max 50000".to_vec()));
    // "20000" U+3000 "50000" U+2003, trimmed and split alike
    assert_eq!(write_file(&mut h, b"/a", b"cpu.max", "\u{2003}20000\u{3000}50000\u{2003}".as_bytes()), Ok(()));
    assert_eq!(read_file(&h, b"/a", b"cpu.max"), Ok(b"20000 50000".to_vec()));
}
