//! Streams that can be read, and some of them read again: the three kinds
//! of tee that the unpacker puts around its input.

use crate::errors::{Cause, CauseView, ErrorKind, IoFailure, IoKind};
use crate::meta::copy_bytes;
use vstd::prelude::*;
use vstd::slice::{slice_subrange, slice_to_vec};

verus! {

/// A stream in memory of at least this many bytes counts as spilled to a
/// file.
pub const MEM_LIMIT: usize = 32 * 1024;

/// All that a reader will ever give: its bytes, and how it ends. A reader
/// ends cleanly, or with a failure once the bytes are out.
#[derive(Debug)]
pub struct Stream {
    pub data: Vec<u8>,
    pub tail: Option<IoFailure>,
}

pub ghost struct StreamView {
    pub data: Seq<u8>,
    pub tail: Option<IoFailure>,
}

impl View for Stream {
    type V = StreamView;

    open spec fn view(&self) -> StreamView {
        StreamView { data: self.data@, tail: self.tail }
    }
}

impl Stream {
    /// A stream never ends in an interruption: whoever reads a stream to
    /// its end reads again when interrupted.
    pub open spec fn wf(&self) -> bool {
        self.tail matches Some(f) ==> f.kind != IoKind::Interrupted
    }
}

impl Clone for Stream {
    fn clone(&self) -> (copy: Self)
        ensures
            copy@ == self@,
    {
        Stream { data: copy_bytes(&self.data), tail: self.tail }
    }
}

/// Something to read bytes from.
pub trait Source {
    /// The bytes that are still to come.
    open spec fn remaining(&self) -> Seq<u8> {
        arbitrary()
    }

    /// The failure that comes once the bytes are out, if one does.
    open spec fn tail(&self) -> Option<IoFailure> {
        arbitrary()
    }

    /// How many more times a read may be interrupted.
    open spec fn stalls(&self) -> nat {
        arbitrary()
    }

    /// Reads some bytes into the front of `buf` and says how many. Zero
    /// means that `buf` is empty or the stream is over. A failure of the
    /// kind `Interrupted` leaves everything as it was and can be tried
    /// again; any other failure is the end of the stream.
    fn read(&mut self, buf: &mut [u8]) -> (got: Result<usize, IoFailure>)
        ensures
            final(buf)@.len() == old(buf)@.len(),
            final(self).tail() == old(self).tail(),
            match got {
                Ok(n) => {
                    &&& n <= old(buf)@.len()
                    &&& n <= old(self).remaining().len()
                    &&& final(buf)@ == old(self).remaining().subrange(0, n as int) + old(
                        buf,
                    )@.subrange(n as int, old(buf)@.len() as int)
                    &&& final(self).remaining() == old(self).remaining().subrange(
                        n as int,
                        old(self).remaining().len() as int,
                    )
                    &&& final(self).stalls() == old(self).stalls()
                    &&& n == 0 ==> old(buf)@.len() == 0 || (old(self).remaining().len() == 0
                        && old(self).tail().is_none())
                },
                Err(f) => {
                    &&& final(buf)@ == old(buf)@
                    &&& final(self).remaining() == old(self).remaining()
                    &&& if f.kind == IoKind::Interrupted {
                        final(self).stalls() < old(self).stalls()
                    } else {
                        old(self).remaining().len() == 0 && old(self).tail() == Some(f)
                            && final(self).stalls() == old(self).stalls()
                    }
                },
            },
    ;
}

/// Fills `buf` from `reader` as far as the stream goes, reading again after
/// every short read and every interruption. Gives the number of bytes put
/// at the front of `buf`: all of `buf`, or less where the stream ended
/// first. A failure of the reader is handed on.
pub fn read_all<R: Source>(reader: &mut R, buf: &mut [u8]) -> (got: Result<usize, IoFailure>)
    ensures
        final(buf)@.len() == old(buf)@.len(),
        final(reader).tail() == old(reader).tail(),
        match got {
            Ok(n) => {
                &&& n == read_all_count(old(reader).remaining(), old(buf)@.len())
                &&& final(buf)@ == old(reader).remaining().subrange(0, n as int) + old(
                    buf,
                )@.subrange(n as int, old(buf)@.len() as int)
                &&& final(reader).remaining() == old(reader).remaining().subrange(
                    n as int,
                    old(reader).remaining().len() as int,
                )
                &&& n < old(buf)@.len() ==> old(reader).tail().is_none()
            },
            Err(f) => {
                &&& old(reader).tail() == Some(f)
                &&& f.kind != IoKind::Interrupted
                &&& old(reader).remaining().len() < old(buf)@.len()
                &&& final(reader).remaining().len() == 0
                &&& final(buf)@ == old(reader).remaining() + old(buf)@.subrange(
                    old(reader).remaining().len() as int,
                    old(buf)@.len() as int,
                )
            },
        },
{
    let ghost stream = reader.remaining();
    let ghost start = buf@;
    let total = buf.len();
    let mut pos: usize = 0;
    if total == 0 {
        assert(buf@ =~= stream.subrange(0, 0) + start.subrange(0, 0));
        assert(stream.subrange(0, stream.len() as int) =~= stream);
        return Ok(0);
    }
    loop
        invariant
            buf@.len() == total,
            total == start.len(),
            start == old(buf)@,
            pos < total,
            pos <= stream.len(),
            reader.tail() == old(reader).tail(),
            stream == old(reader).remaining(),
            reader.remaining() == stream.subrange(pos as int, stream.len() as int),
            buf@ == stream.subrange(0, pos as int) + start.subrange(pos as int, total as int),
        decreases stream.len() - pos, reader.stalls(),
    {
        let ghost before = buf@;
        let ghost left = reader.remaining();
        let (front, rest) = buf.split_at_mut(pos);
        let got = reader.read(rest);
        proof {
            assert(buf@.len() == total);
        }
        match got {
            Ok(n) => {
                proof {
                    assert(buf@ =~= stream.subrange(0, pos + n) + start.subrange(
                        pos + n,
                        total as int,
                    ));
                    assert(reader.remaining() =~= stream.subrange(pos + n, stream.len() as int));
                }
                if n == 0 {
                    assert(stream.subrange(pos as int, stream.len() as int).len() == 0);
                    return Ok(pos);
                }
                pos = pos + n;
                if pos == total {
                    return Ok(pos);
                }
            },
            Err(f) => {
                match f.kind {
                    IoKind::Interrupted => {
                        assert(buf@ =~= before);
                    },
                    _ => {
                        assert(buf@ =~= before);
                        assert(stream.subrange(0, pos as int) =~= stream);
                        return Err(f);
                    },
                }
            },
        }
    }
}

/// How many bytes `read_all` gets out of a stream into a buffer.
pub open spec fn read_all_count(stream: Seq<u8>, room: nat) -> nat {
    if stream.len() < room {
        stream.len()
    } else {
        room
    }
}

/// A stream in memory with a place in it: what stands for a file that can
/// be read and sought in.
pub struct Cursor {
    data: Vec<u8>,
    pos: usize,
}

/// Something to read from that can also be moved to a place of choice.
pub trait Seeker: Source {
    /// All bytes, from the first on, whatever the place.
    open spec fn whole(&self) -> Seq<u8> {
        arbitrary()
    }

    /// Moves to `offset` bytes from the start, or to the end where the
    /// stream is shorter, and says where that is.
    fn seek(&mut self, offset: u64) -> (place: u64)
        ensures
            final(self).whole() == old(self).whole(),
            final(self).tail() == old(self).tail(),
            place == if offset <= old(self).whole().len() {
                offset as int
            } else {
                old(self).whole().len() as int
            },
            final(self).remaining() == old(self).whole().subrange(
                place as int,
                old(self).whole().len() as int,
            ),
    ;
}

impl Cursor {
    #[verifier::type_invariant]
    spec fn in_range(&self) -> bool {
        self.pos <= self.data.len()
    }

    /// All bytes of the stream.
    pub closed spec fn bytes(&self) -> Seq<u8> {
        self.data@
    }

    /// How many bytes lie before the place.
    pub closed spec fn position(&self) -> nat {
        self.pos as nat
    }

    /// A stream over `data`, at its start.
    pub fn new(data: Vec<u8>) -> (cursor: Cursor)
        ensures
            cursor.bytes() == data@,
            cursor.position() == 0,
    {
        Cursor { data, pos: 0 }
    }

    /// All bytes of the stream.
    pub fn get_ref(&self) -> (all: &[u8])
        ensures
            all@ == self.bytes(),
    {
        self.data.as_slice()
    }

    /// The bytes from the place on.
    pub fn rest(&self) -> (rest: &[u8])
        ensures
            rest@ == self.remaining(),
            self.position() <= self.bytes().len(),
            self.remaining() == self.bytes().subrange(
                self.position() as int,
                self.bytes().len() as int,
            ),
    {
        proof {
            use_type_invariant(self);
        }
        slice_subrange(self.data.as_slice(), self.pos, self.data.len())
    }

    /// Moves the place forward by `amt` bytes.
    pub fn advance(&mut self, amt: usize)
        requires
            amt <= old(self).remaining().len(),
        ensures
            final(self).bytes() == old(self).bytes(),
            final(self).position() == old(self).position() + amt,
            final(self).remaining() == old(self).remaining().subrange(
                amt as int,
                old(self).remaining().len() as int,
            ),
    {
        proof {
            use_type_invariant(&*self);
        }
        let ghost before = self.remaining();
        self.pos = self.pos + amt;
        assert(self.remaining() =~= before.subrange(amt as int, before.len() as int));
    }

    /// Moves the place back to the start.
    pub fn rewind(&mut self)
        ensures
            final(self).bytes() == old(self).bytes(),
            final(self).position() == 0,
    {
        self.pos = 0;
    }

    /// The stream's bytes, given back.
    pub fn into_inner(self) -> (data: Vec<u8>)
        ensures
            data@ == self.bytes(),
    {
        self.data
    }

}

impl Source for Cursor {
    closed spec fn remaining(&self) -> Seq<u8> {
        self.data@.subrange(self.pos as int, self.data.len() as int)
    }

    open spec fn tail(&self) -> Option<IoFailure> {
        None
    }

    open spec fn stalls(&self) -> nat {
        0
    }

    /// Reads as many bytes as there is room for, or all that are left. The
    /// bytes of the stream stay, and the place moves on by what was read.
    fn read(&mut self, buf: &mut [u8]) -> (got: Result<usize, IoFailure>)
        ensures
            got == Ok::<usize, IoFailure>(
                read_all_count(old(self).remaining(), old(buf)@.len()) as usize,
            ),
            final(self).bytes() == old(self).bytes(),
            final(self).position() == old(self).position() + read_all_count(
                old(self).remaining(),
                old(buf)@.len(),
            ),
    {
        proof {
            use_type_invariant(&*self);
        }
        let left = self.data.len() - self.pos;
        let n = if buf.len() < left {
            buf.len()
        } else {
            left
        };
        let ghost start = buf@;
        let ghost stream = self.remaining();
        let mut i: usize = 0;
        while i < n
            invariant
                i <= n,
                n <= buf@.len(),
                n <= self.data.len() - self.pos,
                buf@.len() == start.len(),
                stream == self.data@.subrange(self.pos as int, self.data.len() as int),
                buf@ == stream.subrange(0, i as int) + start.subrange(
                    i as int,
                    start.len() as int,
                ),
            decreases n - i,
        {
            buf[i] = self.data[self.pos + i];
            proof {
                assert(buf@ =~= stream.subrange(0, i + 1) + start.subrange(
                    i + 1,
                    start.len() as int,
                ));
            }
            i = i + 1;
        }
        self.pos = self.pos + n;
        proof {
            assert(self.remaining() =~= stream.subrange(n as int, stream.len() as int));
        }
        Ok(n)
    }
}

impl Seeker for Cursor {
    open spec fn whole(&self) -> Seq<u8> {
        self.bytes()
    }

    /// The bytes of the stream stay, and the place is where the answer
    /// says.
    fn seek(&mut self, offset: u64) -> (place: u64)
        ensures
            final(self).bytes() == old(self).bytes(),
            final(self).position() == place,
    {
        if offset <= self.data.len() as u64 {
            self.pos = offset as usize;
            offset
        } else {
            self.pos = self.data.len();
            self.data.len() as u64
        }
    }
}

/// What a tee is at one moment: all the bytes of its stream, how many of
/// them have been read, how the stream ends, and whether the tee can go
/// back to the start.
pub ghost struct TeeState {
    pub content: Seq<u8>,
    pub position: nat,
    pub tail: Option<IoFailure>,
    pub rewindable: bool,
}

impl TeeState {
    /// The place lies inside the stream, and a tee that can be read again
    /// has read its stream to the end without a failure before.
    pub open spec fn wf(self) -> bool {
        self.position <= self.content.len() && (self.rewindable ==> self.tail.is_none())
    }

    /// The bytes from the place on.
    pub open spec fn rest(self) -> Seq<u8> {
        self.content.subrange(self.position as int, self.content.len() as int)
    }

    /// The state after `amt` more bytes were read.
    pub open spec fn consumed(self, amt: nat) -> TeeState {
        TeeState { position: self.position + amt, ..self }
    }

    /// The state after a reset that was granted.
    pub open spec fn rewound(self) -> TeeState {
        TeeState { position: 0, ..self }
    }

    /// The state after everything was read.
    pub open spec fn drained(self) -> TeeState {
        TeeState { position: self.content.len(), ..self }
    }

    /// What a request for a seekable view gives: for a tee that can be read
    /// again, the whole stream; for one that cannot, what is left of it,
    /// unless the stream ends in a failure.
    pub open spec fn seekable(self) -> Result<Seq<u8>, IoFailure> {
        if self.rewindable {
            Ok(self.content)
        } else {
            match self.tail {
                Some(f) => Err(f),
                None => Ok(self.rest()),
            }
        }
    }
}

/// What a tee answers that is asked to go back and cannot.
pub open spec fn cannot_reset() -> CauseView {
    CauseView::UnsupportedFeature("resetting a failing tee"@)
}

/// What a tee answers that is asked for its length and cannot go back.
pub open spec fn cannot_tell_length() -> CauseView {
    CauseView::UnsupportedFeature("len-resetting a failing tee"@)
}

/// A buffered stream that can be peeked into, that may allow going back to
/// its start, and that can be turned into something to seek in.
pub trait Tee: Source {
    spec fn state(&self) -> TeeState;

    /// The bytes that are ready to be read, without reading them: all that
    /// is left of the stream. Fails where nothing is left and the stream
    /// ends in a failure. The tee's state is well formed, and its reading
    /// side shows the rest of the stream.
    fn fill_buf(&self) -> (peek: Result<&[u8], IoFailure>)
        ensures
            self.state().wf(),
            self.remaining() == self.state().rest(),
            self.tail() == self.state().tail,
            match peek {
                Ok(bytes) => bytes@ == self.state().rest() && !(self.state().rest().len() == 0
                    && self.state().tail.is_some()),
                Err(f) => self.state().rest().len() == 0 && self.state().tail == Some(f),
            },
    ;

    /// Marks `amt` of the bytes that `fill_buf` showed as read.
    fn consume(&mut self, amt: usize)
        requires
            amt <= old(self).state().rest().len(),
        ensures
            final(self).state() == old(self).state().consumed(amt as nat),
    ;

    /// Goes back to the start of the stream. A tee that cannot do so says
    /// so and stays where it is.
    fn reset(&mut self) -> (done: Result<(), Cause>)
        ensures
            old(self).state().rewindable ==> done.is_ok() && final(self).state() == old(
                self,
            ).state().rewound(),
            !old(self).state().rewindable ==> (done matches Err(c) && c@ == cannot_reset())
                && final(self).state() == old(self).state(),
    ;

    /// The length of the whole stream, after which the tee stands at the
    /// start again. A tee that cannot go back says so and stays where it is.
    fn len_and_reset(&mut self) -> (len: Result<u64, Cause>)
        ensures
            old(self).state().rewindable ==> len == Ok::<u64, Cause>(
                old(self).state().content.len() as u64,
            ) && final(self).state() == old(self).state().rewound(),
            !old(self).state().rewindable ==> (len matches Err(c) && c@ == cannot_tell_length())
                && final(self).state() == old(self).state(),
    ;

    /// A view of the stream to seek in. A tee that can be read again gives
    /// its whole stream and stays as it is. One that cannot reads the rest
    /// of its stream into the view and is at its end afterwards; where the
    /// stream ends in a failure, that is the answer.
    fn as_seekable(&mut self) -> (view: Result<Cursor, Cause>)
        ensures
            final(self).state() == if old(self).state().rewindable {
                old(self).state()
            } else {
                old(self).state().drained()
            },
            match old(self).state().seekable() {
                Ok(bytes) => view matches Ok(cursor) && cursor.bytes() == bytes
                    && cursor.position() == 0,
                Err(f) => view == Err::<Cursor, Cause>(Cause::Io(f)),
            },
    ;
}

/// A tee over a source that can seek by itself: nothing has to be set
/// aside to read it again.
pub struct BufReaderTee {
    inner: Cursor,
}

/// A tee over a stream that was set aside in a file because it was too
/// long to keep in memory.
pub struct TempFileTee {
    inner: Cursor,
}

/// A tee that refuses to go back: it is put around a stream while it is
/// not yet known what the stream holds, and whoever made it goes back on the
/// stream one level up instead.
pub struct FailingTee {
    inner: Cursor,
    tail: Ending,
}

/// How a stream ends: cleanly, or in a failure that is no interruption.
struct Ending {
    failure: Option<IoFailure>,
}

impl Ending {
    #[verifier::type_invariant]
    spec fn for_good(&self) -> bool {
        self.failure matches Some(f) ==> f.kind != IoKind::Interrupted
    }

    fn get(&self) -> (failure: Option<IoFailure>)
        ensures
            failure == self.failure,
            failure matches Some(f) ==> f.kind != IoKind::Interrupted,
    {
        proof {
            use_type_invariant(self);
        }
        self.failure
    }
}

/// What `TempFileTee::if_necessary` hands out: a tee in memory for a short
/// stream, one in a file for a long one.
pub enum Spill {
    Memory(BufReaderTee),
    File(TempFileTee),
}

/// A reader that borrows another one and reads through it.
pub struct BoxReader<'a, R: Source> {
    pub inner: &'a mut R,
}

impl<'a, R: Source> Source for BoxReader<'a, R> {
    open spec fn remaining(&self) -> Seq<u8> {
        self.inner.remaining()
    }

    open spec fn tail(&self) -> Option<IoFailure> {
        self.inner.tail()
    }

    open spec fn stalls(&self) -> nat {
        self.inner.stalls()
    }

    fn read(&mut self, buf: &mut [u8]) -> (got: Result<usize, IoFailure>) {
        self.inner.read(buf)
    }
}

impl BufReaderTee {
    /// A tee at the start of `from`.
    pub fn new(from: Cursor) -> (tee: BufReaderTee)
        ensures
            tee.state() == (TeeState {
                content: from.bytes(),
                position: 0,
                tail: None,
                rewindable: true,
            }),
    {
        let mut inner = from;
        inner.rewind();
        BufReaderTee { inner }
    }
}

impl Source for BufReaderTee {
    closed spec fn remaining(&self) -> Seq<u8> {
        self.inner.remaining()
    }

    open spec fn tail(&self) -> Option<IoFailure> {
        None
    }

    open spec fn stalls(&self) -> nat {
        0
    }

    /// Reads as many bytes as there is room for, or all that are left, and
    /// counts them as read.
    fn read(&mut self, buf: &mut [u8]) -> (got: Result<usize, IoFailure>)
        ensures
            got == Ok::<usize, IoFailure>(
                read_all_count(old(self).remaining(), old(buf)@.len()) as usize,
            ),
            final(self).state() == old(self).state().consumed(
                read_all_count(old(self).remaining(), old(buf)@.len()),
            ),
    {
        self.inner.read(buf)
    }
}

impl Tee for BufReaderTee {
    closed spec fn state(&self) -> TeeState {
        TeeState {
            content: self.inner.bytes(),
            position: self.inner.position(),
            tail: None,
            rewindable: true,
        }
    }

    fn fill_buf(&self) -> (peek: Result<&[u8], IoFailure>) {
        Ok(self.inner.rest())
    }

    fn consume(&mut self, amt: usize) {
        let _ = self.inner.rest();
        self.inner.advance(amt);
    }

    fn reset(&mut self) -> (done: Result<(), Cause>) {
        self.inner.rewind();
        Ok(())
    }

    fn len_and_reset(&mut self) -> (len: Result<u64, Cause>) {
        let len = self.inner.get_ref().len() as u64;
        self.inner.rewind();
        Ok(len)
    }

    fn as_seekable(&mut self) -> (view: Result<Cursor, Cause>) {
        Ok(Cursor::new(slice_to_vec(self.inner.get_ref())))
    }
}

impl Source for TempFileTee {
    closed spec fn remaining(&self) -> Seq<u8> {
        self.inner.remaining()
    }

    open spec fn tail(&self) -> Option<IoFailure> {
        None
    }

    open spec fn stalls(&self) -> nat {
        0
    }

    /// Reads as many bytes as there is room for, or all that are left, and
    /// counts them as read.
    fn read(&mut self, buf: &mut [u8]) -> (got: Result<usize, IoFailure>)
        ensures
            got == Ok::<usize, IoFailure>(
                read_all_count(old(self).remaining(), old(buf)@.len()) as usize,
            ),
            final(self).state() == old(self).state().consumed(
                read_all_count(old(self).remaining(), old(buf)@.len()),
            ),
    {
        self.inner.read(buf)
    }
}

impl Tee for TempFileTee {
    closed spec fn state(&self) -> TeeState {
        TeeState {
            content: self.inner.bytes(),
            position: self.inner.position(),
            tail: None,
            rewindable: true,
        }
    }

    fn fill_buf(&self) -> (peek: Result<&[u8], IoFailure>) {
        Ok(self.inner.rest())
    }

    fn consume(&mut self, amt: usize) {
        let _ = self.inner.rest();
        self.inner.advance(amt);
    }

    fn reset(&mut self) -> (done: Result<(), Cause>) {
        self.inner.rewind();
        Ok(())
    }

    fn len_and_reset(&mut self) -> (len: Result<u64, Cause>) {
        let len = self.inner.get_ref().len() as u64;
        self.inner.rewind();
        Ok(len)
    }

    fn as_seekable(&mut self) -> (view: Result<Cursor, Cause>) {
        Ok(Cursor::new(slice_to_vec(self.inner.get_ref())))
    }
}

impl TempFileTee {
    /// Reads `from` to its end and sets it aside in a file, so that it can
    /// be read again. Fails where the stream ends in a failure.
    pub fn new(from: Stream) -> (tee: Result<TempFileTee, Cause>)
        ensures
            match from.tail {
                Some(f) => tee == Err::<TempFileTee, Cause>(Cause::Io(f)),
                None => tee matches Ok(spilled) && spilled.state() == (TeeState {
                    content: from.data@,
                    position: 0,
                    tail: None,
                    rewindable: true,
                }),
            },
    {
        match from.tail {
            Some(f) => Err(Cause::Io(f)),
            None => Ok(TempFileTee { inner: Cursor::new(from.data) }),
        }
    }

    /// Reads `from` to its end and sets it aside, in memory where it is
    /// shorter than `MEM_LIMIT` and in a file otherwise, so that it can be
    /// read again. Fails where the stream ends in a failure.
    pub fn if_necessary(from: Stream) -> (tee: Result<Spill, Cause>)
        ensures
            match from.tail {
                Some(f) => tee == Err::<Spill, Cause>(Cause::Io(f)),
                None => tee matches Ok(spill) && spill.state() == (TeeState {
                    content: from.data@,
                    position: 0,
                    tail: None,
                    rewindable: true,
                }) && spill.in_file() == (from.data@.len() >= MEM_LIMIT),
            },
    {
        match from.tail {
            Some(f) => Err(Cause::Io(f)),
            None => {
                if from.data.len() < MEM_LIMIT {
                    Ok(Spill::Memory(BufReaderTee::new(Cursor::new(from.data))))
                } else {
                    Ok(Spill::File(TempFileTee { inner: Cursor::new(from.data) }))
                }
            },
        }
    }
}

impl FailingTee {
    /// A tee at the start of `from`.
    pub fn new(from: Stream) -> (tee: FailingTee)
        requires
            from.wf(),
        ensures
            tee.state() == (TeeState {
                content: from.data@,
                position: 0,
                tail: from.tail,
                rewindable: false,
            }),
    {
        FailingTee { inner: Cursor::new(from.data), tail: Ending { failure: from.tail } }
    }
}

impl Source for FailingTee {
    closed spec fn remaining(&self) -> Seq<u8> {
        self.inner.remaining()
    }

    closed spec fn tail(&self) -> Option<IoFailure> {
        self.tail.failure
    }

    open spec fn stalls(&self) -> nat {
        0
    }

    /// Reads as many bytes as there is room for, or all that are left;
    /// where none are left and the stream ends in a failure, the failure.
    fn read(&mut self, buf: &mut [u8]) -> (got: Result<usize, IoFailure>)
        ensures
            got == if old(self).remaining().len() == 0 && old(buf)@.len() > 0 && old(
                self,
            ).tail().is_some() {
                Err::<usize, IoFailure>(old(self).tail().unwrap())
            } else {
                Ok::<usize, IoFailure>(
                    read_all_count(old(self).remaining(), old(buf)@.len()) as usize,
                )
            },
            final(self).state() == if got.is_ok() {
                old(self).state().consumed(
                    read_all_count(old(self).remaining(), old(buf)@.len()),
                )
            } else {
                old(self).state()
            },
    {
        let left = self.inner.rest().len();
        match self.tail.get() {
            Some(f) => {
                if left == 0 && buf.len() > 0 {
                    Err(f)
                } else {
                    self.inner.read(buf)
                }
            },
            None => self.inner.read(buf),
        }
    }
}

impl Tee for FailingTee {
    closed spec fn state(&self) -> TeeState {
        TeeState {
            content: self.inner.bytes(),
            position: self.inner.position(),
            tail: self.tail.failure,
            rewindable: false,
        }
    }

    fn fill_buf(&self) -> (peek: Result<&[u8], IoFailure>) {
        let rest = self.inner.rest();
        match self.tail.get() {
            Some(f) => {
                if rest.len() == 0 {
                    Err(f)
                } else {
                    Ok(rest)
                }
            },
            None => Ok(rest),
        }
    }

    fn consume(&mut self, amt: usize) {
        let _ = self.inner.rest();
        self.inner.advance(amt);
    }

    fn reset(&mut self) -> (done: Result<(), Cause>) {
        Err(Cause::Kind(ErrorKind::UnsupportedFeature("resetting a failing tee".to_owned())))
    }

    fn len_and_reset(&mut self) -> (len: Result<u64, Cause>) {
        Err(Cause::Kind(ErrorKind::UnsupportedFeature("len-resetting a failing tee".to_owned())))
    }

    fn as_seekable(&mut self) -> (view: Result<Cursor, Cause>) {
        let rest = slice_to_vec(self.inner.rest());
        let n = rest.len();
        self.inner.advance(n);
        match self.tail.get() {
            Some(f) => Err(Cause::Io(f)),
            None => Ok(Cursor::new(rest)),
        }
    }
}

impl Spill {
    /// Whether the stream was long enough to be set aside in a file.
    pub open spec fn in_file(&self) -> bool {
        self is File
    }

    /// Whether the stream was long enough to be set aside in a file.
    pub fn is_in_file(&self) -> (yes: bool)
        ensures
            yes == self.in_file(),
    {
        match self {
            Spill::Memory(_) => false,
            Spill::File(_) => true,
        }
    }
}

impl Source for Spill {
    open spec fn remaining(&self) -> Seq<u8> {
        match self {
            Spill::Memory(tee) => tee.remaining(),
            Spill::File(tee) => tee.remaining(),
        }
    }

    open spec fn tail(&self) -> Option<IoFailure> {
        None
    }

    open spec fn stalls(&self) -> nat {
        0
    }

    /// Reads as many bytes as there is room for, or all that are left, and
    /// counts them as read.
    fn read(&mut self, buf: &mut [u8]) -> (got: Result<usize, IoFailure>)
        ensures
            got == Ok::<usize, IoFailure>(
                read_all_count(old(self).remaining(), old(buf)@.len()) as usize,
            ),
            final(self).state() == old(self).state().consumed(
                read_all_count(old(self).remaining(), old(buf)@.len()),
            ),
    {
        match self {
            Spill::Memory(tee) => tee.read(buf),
            Spill::File(tee) => tee.read(buf),
        }
    }
}

impl Tee for Spill {
    open spec fn state(&self) -> TeeState {
        match self {
            Spill::Memory(tee) => tee.state(),
            Spill::File(tee) => tee.state(),
        }
    }

    fn fill_buf(&self) -> (peek: Result<&[u8], IoFailure>) {
        match self {
            Spill::Memory(tee) => tee.fill_buf(),
            Spill::File(tee) => tee.fill_buf(),
        }
    }

    fn consume(&mut self, amt: usize) {
        match self {
            Spill::Memory(tee) => tee.consume(amt),
            Spill::File(tee) => tee.consume(amt),
        }
    }

    fn reset(&mut self) -> (done: Result<(), Cause>) {
        match self {
            Spill::Memory(tee) => tee.reset(),
            Spill::File(tee) => tee.reset(),
        }
    }

    fn len_and_reset(&mut self) -> (len: Result<u64, Cause>) {
        match self {
            Spill::Memory(tee) => tee.len_and_reset(),
            Spill::File(tee) => tee.len_and_reset(),
        }
    }

    fn as_seekable(&mut self) -> (view: Result<Cursor, Cause>) {
        match self {
            Spill::Memory(tee) => tee.as_seekable(),
            Spill::File(tee) => tee.as_seekable(),
        }
    }
}

/// Reads a tee to its end. Gives all the bytes that were left, or the
/// failure that the stream ends in; either way the tee is at its end
/// afterwards.
pub fn read_to_end<T: Tee>(tee: &mut T) -> (all: Result<Vec<u8>, IoFailure>)
    ensures
        old(tee).state().wf(),
        final(tee).state() == old(tee).state().drained(),
        match old(tee).state().tail {
            Some(f) => all == Err::<Vec<u8>, IoFailure>(f),
            None => all matches Ok(bytes) && bytes@ == old(tee).state().rest(),
        },
{
    let ghost before = tee.state();
    match tee.fill_buf() {
        Ok(bytes) => {
            let all = slice_to_vec(bytes);
            tee.consume(all.len());
            match tee.fill_buf() {
                Ok(_) => Ok(all),
                Err(f) => Err(f),
            }
        },
        Err(f) => Err(f),
    }
}

/// Reads a tee on to its end without keeping what comes. Gives the failure
/// that the stream ends in, if it ends in one.
pub fn drain<T: Tee>(tee: &mut T) -> (end: Result<(), IoFailure>)
    ensures
        old(tee).state().wf(),
        final(tee).state() == old(tee).state().drained(),
        match old(tee).state().tail {
            Some(f) => end == Err::<(), IoFailure>(f),
            None => end.is_ok(),
        },
{
    let n = match tee.fill_buf() {
        Ok(bytes) => bytes.len(),
        Err(f) => 0,
    };
    tee.consume(n);
    match tee.fill_buf() {
        Ok(_) => Ok(()),
        Err(f) => Err(f),
    }
}

/// A tee that can go back gives the same bytes however often it is read.
/// Take a tee at the start of its stream, of which some part has been read
/// since. After a reset, `len_and_reset` gives the length of the stream, and
/// a full read after that gives exactly that many bytes: the bytes that a
/// full read of the fresh tee gave.
pub proof fn lemma_reread(fresh: TeeState, read_since: nat)
    requires
        fresh.wf(),
        fresh.rewindable,
        fresh.position == 0,
        read_since <= fresh.content.len(),
    ensures
        ({
            let first_read = fresh.rest();
            let after_reset = fresh.consumed(read_since).rewound();
            let len = after_reset.content.len();
            let after_len = after_reset.rewound();
            let second_read = after_len.rest();
            &&& after_len.wf()
            &&& after_len.tail.is_none()
            &&& second_read.len() == len
            &&& second_read == first_read
            &&& after_len.drained().rest().len() == 0
        }),
{
    let after_len = fresh.consumed(read_since).rewound().rewound();
    assert(after_len.rest() =~= fresh.rest());
}

} // verus!
