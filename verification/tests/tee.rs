use contentin::errors::IoFailure;
use contentin::tee::{read_all, Source};

use std::cmp::min;

struct Readie {
    limit: usize,
    len: usize,
}

impl Source for Readie {
    fn read(&mut self, buf: &mut [u8]) -> Result<usize, IoFailure> {
        let to_take = min(buf.len(), min(self.limit, self.len));

        for i in 0..to_take {
            buf[i] = (i + 1) as u8;
        }

        self.len -= to_take;
        Ok(to_take)
    }
}

#[test]
fn repeated_read_short() {
    let mut r = Readie { limit: 1, len: 5 };
    let mut a = [0u8; 8];
    assert_eq!(5, read_all(&mut r, &mut a).expect("read"));
    assert_eq!([1, 1, 1, 1, 1, 0, 0, 0], a);
}

#[test]
fn repeated_read_over() {
    let mut r = Readie { limit: 2, len: 12 };
    let mut a = [0u8; 8];
    assert_eq!(8, read_all(&mut r, &mut a).expect("read"));
    assert_eq!([1, 2, 1, 2, 1, 2, 1, 2], a);
}

#[test]
fn repeated_read_whole() {
    let mut r = Readie { limit: 12, len: 8 };
    let mut a = [0u8; 8];
    assert_eq!(8, read_all(&mut r, &mut a).expect("read"));
    assert_eq!([1, 2, 3, 4, 5, 6, 7, 8], a);
}

use contentin::errors::{Cause, ErrorKind, IoKind};
use contentin::tee::{
    drain, read_to_end, BoxReader, BufReaderTee, Cursor, FailingTee, Seeker, Spill, Stream, Tee,
    TempFileTee, MEM_LIMIT,
};

fn failure(kind: IoKind) -> IoFailure {
    IoFailure { os_code: None, kind }
}

struct Stalling {
    stalls: usize,
    inner: Cursor,
}

impl Source for Stalling {
    fn read(&mut self, buf: &mut [u8]) -> Result<usize, IoFailure> {
        if self.stalls > 0 {
            self.stalls -= 1;
            return Err(failure(IoKind::Interrupted));
        }
        self.stalls = 2;
        let room = buf.len().min(3);
        self.inner.read(&mut buf[..room])
    }
}

#[test]
fn read_all_reads_again_after_an_interruption() {
    let mut r = Stalling { stalls: 1, inner: Cursor::new((1..=20).collect()) };
    let mut a = [0u8; 8];
    assert_eq!(Ok(8), read_all(&mut r, &mut a));
    assert_eq!([1, 2, 3, 4, 5, 6, 7, 8], a);
    let mut rest = [0u8; 100];
    assert_eq!(Ok(12), read_all(&mut r, &mut rest));
    assert_eq!((9..=20).collect::<Vec<u8>>(), rest[..12]);
    assert_eq!(0, rest[12]);
}

#[test]
fn read_all_hands_a_failure_on() {
    let mut tee = FailingTee::new(Stream {
        data: vec![1, 2, 3],
        tail: Some(failure(IoKind::InvalidData)),
    });
    let mut a = [0u8; 8];
    assert_eq!(Err(failure(IoKind::InvalidData)), read_all(&mut tee, &mut a));
    assert_eq!([1, 2, 3, 0, 0, 0, 0, 0], a);

    let mut exact = FailingTee::new(Stream {
        data: vec![1, 2, 3],
        tail: Some(failure(IoKind::InvalidData)),
    });
    let mut three = [0u8; 3];
    assert_eq!(Ok(3), read_all(&mut exact, &mut three));
    assert_eq!(Err(failure(IoKind::InvalidData)), read_all(&mut exact, &mut three));
}

#[test]
fn read_all_into_no_room() {
    let mut r = Cursor::new(vec![1, 2, 3]);
    assert_eq!(Ok(0), read_all(&mut r, &mut []));
    let mut a = [0u8; 2];
    assert_eq!(Ok(2), read_all(&mut r, &mut a));
}

#[test]
fn cursors() {
    let mut cursor = Cursor::new(vec![10, 20, 30, 40]);
    assert_eq!(&[10, 20, 30, 40], cursor.get_ref());
    assert_eq!(&[10, 20, 30, 40], cursor.rest());
    let mut two = [0u8; 2];
    assert_eq!(Ok(2), cursor.read(&mut two));
    assert_eq!([10, 20], two);
    assert_eq!(&[30, 40], cursor.rest());
    assert_eq!(1, cursor.seek(1));
    assert_eq!(&[20, 30, 40], cursor.rest());
    // past the end is the end
    assert_eq!(4, cursor.seek(1000));
    assert_eq!(Ok(0), cursor.read(&mut two));
    cursor.rewind();
    cursor.advance(3);
    assert_eq!(&[40], cursor.rest());
    assert_eq!(vec![10, 20, 30, 40], cursor.into_inner());
}

#[test]
fn a_tee_over_a_seekable_source_can_be_read_again() {
    let mut tee = BufReaderTee::new(Cursor::new(b"hello world".to_vec()));
    assert_eq!(b"hello world", tee.fill_buf().unwrap());
    tee.consume(6);
    assert_eq!(b"world", tee.fill_buf().unwrap());
    let first = read_to_end(&mut tee).unwrap();
    assert_eq!(b"world", first.as_slice());
    assert_eq!(b"", tee.fill_buf().unwrap());

    assert!(tee.reset().is_ok());
    assert_eq!(Ok(11), tee.len_and_reset().map_err(|_| ()));
    let again = read_to_end(&mut tee).unwrap();
    assert_eq!(11, again.len());
    assert_eq!(b"hello world", again.as_slice());
}

#[test]
fn reset_of_a_fresh_tee_changes_nothing() {
    let mut tee = BufReaderTee::new(Cursor::new(vec![1, 2, 3]));
    assert!(tee.reset().is_ok());
    assert_eq!(&[1, 2, 3], tee.fill_buf().unwrap());
}

#[test]
fn a_failing_tee_refuses_to_go_back() {
    let mut tee = FailingTee::new(Stream { data: vec![1, 2, 3], tail: None });
    tee.consume(1);
    assert!(matches!(tee.reset(), Err(Cause::Kind(ErrorKind::UnsupportedFeature(_)))));
    assert!(matches!(tee.len_and_reset(), Err(Cause::Kind(ErrorKind::UnsupportedFeature(_)))));
    // and it is where it was
    assert_eq!(&[2, 3], tee.fill_buf().unwrap());
}

#[test]
fn a_failing_tee_gives_its_failure_at_the_end() {
    let mut tee = FailingTee::new(Stream {
        data: vec![1, 2],
        tail: Some(failure(IoKind::UnexpectedEof)),
    });
    assert_eq!(&[1, 2], tee.fill_buf().unwrap());
    tee.consume(2);
    assert_eq!(Err(failure(IoKind::UnexpectedEof)), tee.fill_buf().map(|b| b.to_vec()));
    assert_eq!(Err(failure(IoKind::UnexpectedEof)), drain(&mut tee));

    let mut empty = FailingTee::new(Stream { data: vec![], tail: Some(failure(IoKind::Other)) });
    assert!(empty.fill_buf().is_err());
    let mut clean = FailingTee::new(Stream { data: vec![9], tail: None });
    assert_eq!(Ok(()), drain(&mut clean));
    assert_eq!(b"", clean.fill_buf().unwrap());
}

#[test]
fn seekable_views() {
    let mut tee = BufReaderTee::new(Cursor::new(vec![1, 2, 3, 4]));
    tee.consume(2);
    let view = tee.as_seekable().unwrap();
    assert_eq!(&[1, 2, 3, 4], view.get_ref());
    // the tee stays where it was
    assert_eq!(&[3, 4], tee.fill_buf().unwrap());

    let mut failing = FailingTee::new(Stream { data: vec![1, 2, 3, 4], tail: None });
    failing.consume(1);
    let spilled = failing.as_seekable().unwrap();
    assert_eq!(&[2, 3, 4], spilled.get_ref());
    // all of the stream went into the view
    assert_eq!(b"", failing.fill_buf().unwrap());

    let mut broken = FailingTee::new(Stream {
        data: vec![1, 2, 3, 4],
        tail: Some(failure(IoKind::InvalidData)),
    });
    match broken.as_seekable() {
        Err(Cause::Io(f)) => assert_eq!(IoKind::InvalidData, f.kind),
        _ => panic!("a stream that fails cannot be spilled"),
    }
}

#[test]
fn short_streams_stay_in_memory() {
    let short = TempFileTee::if_necessary(Stream { data: vec![7; MEM_LIMIT - 1], tail: None });
    match short {
        Ok(spill) => {
            assert!(!spill.is_in_file());
            assert!(matches!(spill, Spill::Memory(_)));
        }
        Err(_) => panic!("nothing to fail on"),
    }
    let long = TempFileTee::if_necessary(Stream { data: vec![7; MEM_LIMIT], tail: None });
    match long {
        Ok(mut spill) => {
            assert!(spill.is_in_file());
            assert_eq!(32 * 1024, spill.fill_buf().unwrap().len());
            spill.consume(100);
            assert_eq!(Some(32 * 1024), spill.len_and_reset().ok());
            assert_eq!(32 * 1024, read_to_end(&mut spill).unwrap().len());
            assert!(spill.reset().is_ok());
            assert_eq!(32 * 1024, spill.as_seekable().unwrap().get_ref().len());
        }
        Err(_) => panic!("nothing to fail on"),
    }
}

#[test]
fn a_stream_that_fails_cannot_be_set_aside() {
    let broken = TempFileTee::if_necessary(Stream {
        data: vec![1, 2, 3],
        tail: Some(failure(IoKind::InvalidInput)),
    });
    match broken {
        Err(Cause::Io(f)) => assert_eq!(IoKind::InvalidInput, f.kind),
        _ => panic!("should have failed"),
    }
}

#[test]
fn reading_through_a_borrowed_reader() {
    let mut cursor = Cursor::new(vec![1, 2, 3, 4, 5]);
    {
        let mut reader = BoxReader { inner: &mut cursor };
        let mut a = [0u8; 2];
        assert_eq!(Ok(2), reader.read(&mut a));
        assert_eq!([1, 2], a);
    }
    assert_eq!(&[3, 4, 5], cursor.rest());
}

#[test]
fn a_stream_set_aside_in_a_file() {
    let mut tee = TempFileTee::new(Stream { data: vec![5, 6, 7], tail: None }).ok().unwrap();
    assert_eq!(&[5, 6, 7], tee.fill_buf().unwrap());
    tee.consume(3);
    assert_eq!(Some(3), tee.len_and_reset().ok());
    assert_eq!(&[5, 6, 7], tee.fill_buf().unwrap());
    let broken = TempFileTee::new(Stream { data: vec![5], tail: Some(failure(IoKind::Other)) });
    assert!(matches!(broken, Err(Cause::Io(_))));
}
