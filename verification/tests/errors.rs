use contentin::adapters::zip_cause;
use contentin::errors::{
    classify_cause, classify_failure, classify_format_error_result, classify_io_failure,
    io_failure, is_format_error, is_io_format_error, Cause, ErrorKind, FormatErrorType, IoFailure,
    IoKind, Verdict,
};

use contentin::meta::{FileEntry, Meta};
use contentin::record::{read_entry, EntryRecord};
use contentin::tee::{FailingTee, Stream, Tee};
use contentin::toplevel::item_type_of_mode;

use std::io;

fn simulate_failure(input: bool) -> zip::result::ZipResult<bool> {
    if !input {
        Ok(input)
    } else {
        Err(zip::result::ZipError::FileNotFound)
    }
}

fn simulate_second_failure(input: bool) -> zip::result::ZipResult<bool> {
    if !input {
        Ok(input)
    } else {
        Err(zip::result::ZipError::Io(io::ErrorKind::BrokenPipe.into()))
    }
}

#[test]
fn real_format_error() {
    let failure = simulate_failure(true).map_err(zip_cause);
    assert_eq!(
        classify_format_error_result(&failure).unwrap(),
        FormatErrorType::Other
    );
}

#[test]
fn io_error_is_not_format() {
    let err: io::Error = io::ErrorKind::BrokenPipe.into();
    let res: Result<(), Cause> = Err(Cause::Io(io_failure(&err)));
    assert!(classify_format_error_result(&res).is_none())
}

#[test]
fn nested_zip_failure_is_not_format() {
    let failure = simulate_second_failure(true).map_err(zip_cause);
    assert!(classify_format_error_result(&failure).is_none())
}

#[test]
fn success_is_no_format_error() {
    let fine: Result<u8, Cause> = Ok(7);
    assert!(classify_format_error_result(&fine).is_none());
    assert!(classify_format_error_result(&simulate_failure(false).map_err(zip_cause)).is_none());
}

#[test]
fn zip_error_keeps_its_io_cause() {
    let inner: io::Error = io::ErrorKind::InvalidData.into();
    match zip_cause(zip::result::ZipError::Io(inner)) {
        Cause::Io(f) => {
            assert_eq!(IoKind::InvalidData, f.kind);
            assert_eq!(None, f.os_code);
        }
        other => panic!("not an I/O cause: {:?}", other),
    }
    assert!(matches!(zip_cause(zip::result::ZipError::InvalidArchive("no")), Cause::Zip));
    assert!(matches!(zip_cause(zip::result::ZipError::UnsupportedArchive("no")), Cause::Zip));
}

#[test]
fn io_failure_reads_kind_and_code() {
    let made: io::Error = io::Error::new(io::ErrorKind::UnexpectedEof, "short");
    assert_eq!(IoFailure { os_code: None, kind: IoKind::UnexpectedEof }, io_failure(&made));
    let from_os = io::Error::from_raw_os_error(2);
    let read = io_failure(&from_os);
    assert_eq!(Some(2), read.os_code);
    assert_eq!(IoKind::NotFound, read.kind);
    let odd: io::Error = io::ErrorKind::AddrInUse.into();
    assert_eq!(IoKind::Unlisted, io_failure(&odd).kind);
}

#[test]
fn own_failures() {
    assert_eq!(Some(FormatErrorType::Rewind), is_format_error(&ErrorKind::Rewind));
    assert_eq!(
        Some(FormatErrorType::Other),
        is_format_error(&ErrorKind::UnsupportedFeature("no".to_string()))
    );
}

#[test]
fn io_kinds() {
    for kind in [
        io::ErrorKind::InvalidData,
        io::ErrorKind::InvalidInput,
        io::ErrorKind::Other,
        io::ErrorKind::UnexpectedEof,
    ] {
        let e: io::Error = io::Error::new(kind, "made by a library");
        assert_eq!(Some(Some(FormatErrorType::Other)), is_io_format_error(&e));
    }
    for kind in [
        io::ErrorKind::BrokenPipe,
        io::ErrorKind::NotFound,
        io::ErrorKind::PermissionDenied,
    ] {
        let e: io::Error = kind.into();
        assert_eq!(Some(None), is_io_format_error(&e));
    }
    let unknown: io::Error = io::ErrorKind::TimedOut.into();
    assert_eq!(None, is_io_format_error(&unknown));
    let interrupted: io::Error = io::ErrorKind::Interrupted.into();
    assert_eq!(None, is_io_format_error(&interrupted));
}

#[test]
fn os_errors_are_never_format_errors() {
    // EINVAL would be InvalidInput by kind, but it comes from a system call
    let e = io::Error::from_raw_os_error(22);
    assert_eq!(Some(None), is_io_format_error(&e));
    let f = IoFailure { os_code: Some(5), kind: IoKind::InvalidData };
    assert_eq!(Some(None), classify_io_failure(&f));
    // a code of zero is no code
    let zero = IoFailure { os_code: Some(0), kind: IoKind::InvalidData };
    assert_eq!(Some(Some(FormatErrorType::Other)), classify_io_failure(&zero));
}

#[test]
fn verdicts() {
    assert_eq!(Verdict::Rewind, classify_failure(&Cause::Kind(ErrorKind::Rewind)));
    assert_eq!(
        Verdict::OtherFormatError,
        classify_failure(&Cause::Kind(ErrorKind::UnsupportedFeature("x".to_string())))
    );
    assert_eq!(Verdict::OtherFormatError, classify_failure(&Cause::Zip));
    assert_eq!(Verdict::OtherFormatError, classify_failure(&Cause::Ext4));
    assert_eq!(
        Verdict::OtherFormatError,
        classify_failure(&Cause::Io(IoFailure { os_code: None, kind: IoKind::UnexpectedEof }))
    );
    assert_eq!(
        Verdict::Fatal,
        classify_failure(&Cause::Io(IoFailure { os_code: None, kind: IoKind::BrokenPipe }))
    );
    assert_eq!(
        Verdict::Fatal,
        classify_failure(&Cause::Io(IoFailure { os_code: None, kind: IoKind::Unlisted }))
    );
    assert_eq!(Verdict::Fatal, classify_failure(&Cause::Message("just words".to_string())));
    assert_eq!(Verdict::Fatal, classify_failure(&Cause::Unwalked(vec![1, 2, 3])));
    assert_eq!(None, classify_cause(&Cause::Message("just words".to_string())));
}

#[test]
fn failures_say_what_was_wrong() {
    let mut tee = FailingTee::new(Stream { data: vec![1], tail: None });
    match tee.reset() {
        Err(Cause::Kind(ErrorKind::UnsupportedFeature(what))) => {
            assert_eq!("resetting a failing tee", what)
        }
        _ => panic!("should have refused"),
    }
    match tee.len_and_reset() {
        Err(Cause::Kind(ErrorKind::UnsupportedFeature(what))) => {
            assert_eq!("len-resetting a failing tee", what)
        }
        _ => panic!("should have refused"),
    }
    match item_type_of_mode(0o170000, 0, 0) {
        Err(Cause::Kind(ErrorKind::UnsupportedFeature(what))) => {
            assert_eq!("unrecognised unix mode type", what)
        }
        _ => panic!("should have refused"),
    }
    let record = EntryRecord {
        magic: 1,
        entry: FileEntry { len: 0, paths: vec![], content_follows: false, meta: Meta::blank() },
    };
    match read_entry(Some(&record)) {
        Err(Cause::Message(text)) => {
            assert_eq!("invalid magic after decoding; invalid stream?", text)
        }
        _ => panic!("should have refused"),
    }
}
