use inout::{transfer_result, ErrorKind, File, OpenOptions};

#[test]
fn new_options_have_no_bit_set() {
    assert_eq!(OpenOptions::new().access_mode(), 0);
}

#[test]
fn write_sets_and_clears_its_bit() {
    let mut options = OpenOptions::new();
    options.write(true);
    assert_eq!(options.access_mode(), libc::O_WRONLY);
    assert_eq!(options.access_mode(), 1);
    options.write(true);
    assert_eq!(options.access_mode(), 1);
    options.write(false);
    assert_eq!(options.access_mode(), 0);
    options.write(false);
    assert_eq!(options.access_mode(), 0);
}

#[test]
fn read_leaves_the_mode_as_it_is() {
    let mut options = OpenOptions::new();
    options.read(true);
    assert_eq!(options.access_mode(), libc::O_RDONLY);
    options.read(false);
    assert_eq!(options.access_mode(), 0);
    options.write(true).read(false);
    assert_eq!(options.access_mode(), 1);
    options.read(true);
    assert_eq!(options.access_mode(), 1);
}

#[test]
fn the_calls_can_be_chained() {
    let mut options = OpenOptions::new();
    let mode = options.read(true).write(true).access_mode();
    assert_eq!(mode, libc::O_RDONLY | libc::O_WRONLY);
    assert_eq!(options.write(false).read(true).access_mode(), 0);
}

#[test]
fn a_descriptor_that_is_not_negative_is_a_file() {
    let file = File::from_raw(3).unwrap();
    assert_eq!(file.fd(), 3);
    assert_eq!(File::from_raw(0).unwrap().fd(), 0);
    assert_eq!(File::from_raw(i32::MAX).unwrap().fd(), i32::MAX);
}

#[test]
fn a_negative_descriptor_is_a_failure_to_open() {
    match File::from_raw(-1) {
        Ok(_) => panic!("a negative descriptor was taken for a file"),
        Err(message) => assert_eq!(message, "Failed to open"),
    }
    assert!(File::from_raw(i32::MIN).is_err());
}

#[test]
fn a_count_that_is_not_negative_is_the_result() {
    assert_eq!(transfer_result(0, 5).unwrap(), 0);
    assert_eq!(transfer_result(17, 0).unwrap(), 17);
    assert_eq!(transfer_result(isize::MAX, 0).unwrap(), isize::MAX as usize);
}

#[test]
fn a_negative_count_is_the_error_that_errno_names() {
    let e = transfer_result(-1, libc::ENOENT).unwrap_err();
    assert_eq!(e.raw_os_error(), Some(libc::ENOENT));
    assert_eq!(e.kind(), ErrorKind::NotFound);
    let e = transfer_result(isize::MIN, libc::EPIPE).unwrap_err();
    assert_eq!(e.kind(), ErrorKind::BrokenPipe);
    assert_eq!(e.to_string(), "os error 32");
}
