use rcon::Error;
use std::io;

#[test]
fn descriptions() {
    assert_eq!(Error::Auth.description(), "authentication failed");
    assert_eq!(Error::CommandTooLong.description(), "command exceeds the maximum length");
    let err = Error::Io(io::Error::new(io::ErrorKind::BrokenPipe, "pipe"));
    assert_eq!(err.description(), "unable to send");
}

#[test]
fn cause_is_the_io_error() {
    assert!(Error::Auth.cause().is_none());
    assert!(Error::CommandTooLong.cause().is_none());
    let err = Error::Io(io::Error::new(io::ErrorKind::BrokenPipe, "pipe"));
    let cause = err.cause().unwrap();
    assert_eq!(cause.kind(), io::ErrorKind::BrokenPipe);
    assert_eq!(cause.to_string(), "pipe");
}

#[test]
fn messages() {
    assert_eq!(Error::Auth.message(), "authentication failed");
    assert_eq!(Error::CommandTooLong.message(), "command exceeds the maximum length");
    let err = Error::Io(io::Error::new(io::ErrorKind::BrokenPipe, "pipe"));
    assert_eq!(err.message(), "IO error: pipe");
}

#[test]
fn from_io_error() {
    let err = Error::from(io::Error::new(io::ErrorKind::UnexpectedEof, "eof"));
    match err {
        Error::Io(inner) => {
            assert_eq!(inner.kind(), io::ErrorKind::UnexpectedEof);
            assert_eq!(inner.to_string(), "eof");
        }
        other => panic!("not an I/O error: {:?}", other),
    }
}

#[test]
fn question_mark_converts_io_errors() {
    fn fails() -> Result<(), Error> {
        Err(io::Error::new(io::ErrorKind::TimedOut, "late"))?;
        Ok(())
    }
    assert!(matches!(fails(), Err(Error::Io(_))));
}

#[test]
fn message_of_an_io_error_ends_with_its_own_text() {
    let err = Error::Io(io::Error::new(io::ErrorKind::Other, "boom"));
    assert_eq!(err.message(), "IO error: boom");
    let inner = io::Error::from(io::ErrorKind::UnexpectedEof);
    let shown = inner.to_string();
    assert_eq!(Error::Io(inner).message(), format!("IO error: {}", shown));
}
