use quantaos::bootloader::{boot_next, config_from_read, initrd_size_ok, kernel_read_ok, BootDecision, BootError, BootStep};

#[test]
fn short_kernel_read_is_a_device_error() {
    assert_eq!(kernel_read_ok(4096, 4096), Ok(()));
    assert_eq!(kernel_read_ok(4096, 100), Err(BootError::DeviceError));
}

#[test]
fn empty_initrd_is_refused() {
    assert!(!initrd_size_ok(0));
    assert!(initrd_size_ok(1));
}

#[test]
fn short_config_read_is_dropped() {
    assert_eq!(config_from_read(vec![1, 2], 2, 2), Some(vec![1, 2]));
    assert_eq!(config_from_read(vec![1, 2], 2, 1), None);
}

#[test]
fn boot_steps_follow_in_order_and_fail_as_designed() {

    assert_eq!(boot_next(BootStep::Config, false), BootDecision::Continue(BootStep::Framebuffer));
    assert_eq!(boot_next(BootStep::Framebuffer, false), BootDecision::Abort(BootError::DeviceError));
    assert_eq!(boot_next(BootStep::Kernel, false), BootDecision::Halt);
    assert_eq!(boot_next(BootStep::Kernel, true), BootDecision::Continue(BootStep::Initrd));
    assert_eq!(boot_next(BootStep::Initrd, false), BootDecision::Continue(BootStep::Stack));
    assert_eq!(boot_next(BootStep::Stack, false), BootDecision::Fatal);
    assert_eq!(boot_next(BootStep::Cmdline, true), BootDecision::Continue(BootStep::ExitBootServices));
}
