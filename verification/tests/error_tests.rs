use inout::{decode_error_kind, Cause, Error, ErrorKind, OsCodes};

#[test]
fn kind_of_no_such_file_is_not_found() {
    assert_eq!(Error::from_raw_os_error(libc::ENOENT).kind(), ErrorKind::NotFound);
}

#[test]
fn kind_of_permission_denied_codes() {
    assert_eq!(Error::from_raw_os_error(libc::EACCES).kind(), ErrorKind::PermissionDenied);
    assert_eq!(Error::from_raw_os_error(libc::EPERM).kind(), ErrorKind::PermissionDenied);
}

#[test]
fn kind_of_an_unrecognized_code_is_other() {
    assert_eq!(Error::from_raw_os_error(9999).kind(), ErrorKind::Other);
    assert_eq!(Error::from_raw_os_error(0).kind(), ErrorKind::Other);
    assert_eq!(Error::from_raw_os_error(-1).kind(), ErrorKind::Other);
    assert_eq!(Error::from_raw_os_error(libc::EINVAL).kind(), ErrorKind::Other);
}

#[test]
fn every_entry_of_the_table_is_classified() {
    assert_eq!(decode_error_kind(libc::ECONNREFUSED), ErrorKind::ConnectionRefused);
    assert_eq!(decode_error_kind(libc::ECONNRESET), ErrorKind::ConnectionReset);
    assert_eq!(decode_error_kind(libc::EPERM), ErrorKind::PermissionDenied);
    assert_eq!(decode_error_kind(libc::EACCES), ErrorKind::PermissionDenied);
    assert_eq!(decode_error_kind(libc::EPIPE), ErrorKind::BrokenPipe);
    assert_eq!(decode_error_kind(libc::ENOTCONN), ErrorKind::NotConnected);
    assert_eq!(decode_error_kind(libc::EWOULDBLOCK), ErrorKind::WouldBlock);
    assert_eq!(decode_error_kind(libc::ENOENT), ErrorKind::NotFound);
}

#[test]
fn the_native_table_holds_the_platform_codes() {
    let t = OsCodes::native();
    assert_eq!(t.connection_refused, libc::ECONNREFUSED);
    assert_eq!(t.connection_reset, libc::ECONNRESET);
    assert_eq!(t.not_permitted, libc::EPERM);
    assert_eq!(t.access_denied, libc::EACCES);
    assert_eq!(t.broken_pipe, libc::EPIPE);
    assert_eq!(t.not_connected, libc::ENOTCONN);
    assert_eq!(t.would_block, libc::EWOULDBLOCK);
    assert_eq!(t.not_found, libc::ENOENT);
    assert_eq!(t.not_found, 2);
    assert_eq!(t.not_permitted, 1);
    assert_eq!(t.would_block, 11);
    assert_eq!(t.access_denied, 13);
    assert_eq!(t.broken_pipe, 32);
}

#[test]
fn classify_reads_the_table_it_is_given() {
    let t = OsCodes {
        connection_refused: 10,
        connection_reset: 20,
        not_permitted: 30,
        access_denied: 40,
        broken_pipe: 50,
        not_connected: 60,
        would_block: 70,
        not_found: 80,
    };
    assert_eq!(t.classify(10), ErrorKind::ConnectionRefused);
    assert_eq!(t.classify(20), ErrorKind::ConnectionReset);
    assert_eq!(t.classify(30), ErrorKind::PermissionDenied);
    assert_eq!(t.classify(40), ErrorKind::PermissionDenied);
    assert_eq!(t.classify(50), ErrorKind::BrokenPipe);
    assert_eq!(t.classify(60), ErrorKind::NotConnected);
    assert_eq!(t.classify(70), ErrorKind::WouldBlock);
    assert_eq!(t.classify(80), ErrorKind::NotFound);
    assert_eq!(t.classify(2), ErrorKind::Other);
    assert_eq!(t.classify(0), ErrorKind::Other);
}

#[test]
fn classify_takes_the_first_entry_that_holds_the_code() {
    let t = OsCodes {
        connection_refused: 5,
        connection_reset: 5,
        not_permitted: 5,
        access_denied: 6,
        broken_pipe: 6,
        not_connected: 7,
        would_block: 7,
        not_found: 7,
    };
    assert_eq!(t.classify(5), ErrorKind::ConnectionRefused);
    assert_eq!(t.classify(6), ErrorKind::PermissionDenied);
    assert_eq!(t.classify(7), ErrorKind::NotConnected);
}

#[test]
fn kind_is_the_same_at_every_call() {
    let e = Error::from_raw_os_error(libc::EPIPE);
    assert_eq!(e.kind(), ErrorKind::BrokenPipe);
    assert_eq!(e.kind(), ErrorKind::BrokenPipe);
    assert_eq!(e.raw_os_error(), Some(libc::EPIPE));
}

#[test]
fn a_bare_kind_keeps_its_kind() {
    let e = Error::from(ErrorKind::TimedOut);
    assert_eq!(e.kind(), ErrorKind::TimedOut);
    assert_eq!(e.raw_os_error(), None);
    assert!(e.source().is_none());
    assert_eq!(e.to_string(), "TimedOut");
}

#[test]
fn a_custom_error_keeps_kind_and_cause() {
    let e = Error::new(ErrorKind::InvalidData, "bad frame");
    assert_eq!(e.kind(), ErrorKind::InvalidData);
    assert_eq!(e.raw_os_error(), None);
    assert_eq!(e.to_string(), "bad frame");
    let cause = e.source().unwrap();
    assert_eq!(cause.message(), "bad frame");
    assert!(cause.source().is_none());
}

#[test]
fn a_custom_error_whose_kind_names_a_platform_condition_is_not_classified_anew() {
    let e = Error::new(ErrorKind::NotFound, Cause::new("no such table"));
    assert_eq!(e.kind(), ErrorKind::NotFound);
    assert_eq!(e.to_string(), "no such table");
}

#[test]
fn causes_can_be_chained() {
    let root = Cause::new("disk full");
    let cause = Cause::new("could not save").caused_by(root);
    assert_eq!(cause.message(), "could not save");
    let behind = cause.source().unwrap();
    assert_eq!(behind.message(), "disk full");
    assert!(behind.source().is_none());
    let e = Error::new(ErrorKind::Other, cause);
    assert_eq!(e.to_string(), "could not save");
    assert_eq!(e.source().unwrap().source().unwrap().message(), "disk full");
}

#[test]
fn caused_by_puts_the_new_source_in_place_of_the_old() {
    let cause = Cause::new("top").caused_by(Cause::new("first")).caused_by(Cause::new("second"));
    assert_eq!(cause.source().unwrap().message(), "second");
}

#[test]
fn an_os_error_is_shown_with_its_code() {
    assert_eq!(Error::from_raw_os_error(2).to_string(), "os error 2");
    assert_eq!(Error::from_raw_os_error(0).to_string(), "os error 0");
    assert_eq!(Error::from_raw_os_error(9).to_string(), "os error 9");
    assert_eq!(Error::from_raw_os_error(10).to_string(), "os error 10");
    assert_eq!(Error::from_raw_os_error(111).to_string(), "os error 111");
    assert_eq!(Error::from_raw_os_error(1000).to_string(), "os error 1000");
    assert_eq!(Error::from_raw_os_error(-17).to_string(), "os error -17");
    assert_eq!(Error::from_raw_os_error(i32::MAX).to_string(), "os error 2147483647");
    assert_eq!(Error::from_raw_os_error(i32::MIN).to_string(), "os error -2147483648");
}

#[test]
fn an_os_error_is_shown_as_std_formats_the_code() {
    let codes = [0, 1, 7, 42, 100, 101, 909, 65535, -1, -10, -99, 123456789, -123456789];
    for code in codes {
        assert_eq!(Error::from_raw_os_error(code).to_string(), format!("os error {}", code));
    }
}

#[test]
fn every_kind_is_shown_by_its_name() {
    let kinds = [
        (ErrorKind::NotFound, "NotFound"),
        (ErrorKind::PermissionDenied, "PermissionDenied"),
        (ErrorKind::ConnectionRefused, "ConnectionRefused"),
        (ErrorKind::ConnectionReset, "ConnectionReset"),
        (ErrorKind::ConnectionAborted, "ConnectionAborted"),
        (ErrorKind::NotConnected, "NotConnected"),
        (ErrorKind::AddrInUse, "AddrInUse"),
        (ErrorKind::AddrNotAvailable, "AddrNotAvailable"),
        (ErrorKind::BrokenPipe, "BrokenPipe"),
        (ErrorKind::AlreadyExists, "AlreadyExists"),
        (ErrorKind::WouldBlock, "WouldBlock"),
        (ErrorKind::InvalidInput, "InvalidInput"),
        (ErrorKind::InvalidData, "InvalidData"),
        (ErrorKind::TimedOut, "TimedOut"),
        (ErrorKind::WriteZero, "WriteZero"),
        (ErrorKind::Interrupted, "Interrupted"),
        (ErrorKind::UnexpectedEof, "UnexpectedEof"),
        (ErrorKind::Other, "Other"),
    ];
    for (kind, name) in kinds {
        assert_eq!(kind.name(), name);
        assert_eq!(Error::from(kind).to_string(), name);
        assert_eq!(format!("{:?}", kind), name);
        assert_eq!(Error::from(kind).kind(), kind);
    }
}

#[test]
fn kinds_are_ordered_as_declared() {
    assert!(ErrorKind::NotFound < ErrorKind::PermissionDenied);
    assert!(ErrorKind::WriteZero < ErrorKind::Interrupted);
    assert!(ErrorKind::Interrupted < ErrorKind::UnexpectedEof);
    assert!(ErrorKind::UnexpectedEof < ErrorKind::Other);
    assert_eq!(ErrorKind::Other.max(ErrorKind::NotFound), ErrorKind::Other);
    let mut kinds = vec![ErrorKind::Other, ErrorKind::BrokenPipe, ErrorKind::NotFound];
    kinds.sort();
    assert_eq!(kinds, vec![ErrorKind::NotFound, ErrorKind::BrokenPipe, ErrorKind::Other]);
}

#[test]
fn kinds_can_key_a_map() {
    let mut seen = std::collections::BTreeMap::new();
    seen.insert(ErrorKind::WouldBlock, 1);
    seen.insert(ErrorKind::NotFound, 2);
    seen.insert(ErrorKind::WouldBlock, 3);
    assert_eq!(seen.len(), 2);
    assert_eq!(seen.get(&ErrorKind::WouldBlock), Some(&3));
    let copy = ErrorKind::NotFound;
    let again = copy;
    assert_eq!(copy, again);
}
