//! What the consumers of the record stream need: the name under which an
//! entry is shown, the copying of its content, and a look ahead for the end
//! of the stream.

use crate::errors::{IoFailure, IoKind};
use crate::tee::Source;
use vstd::prelude::*;
use vstd::string::StringExecFns;

verus! {

/// Narrows a count to one byte.
pub fn must_fit(x: u64) -> (fit: u8)
    requires
        x <= u8::MAX,
    ensures
        fit == x,
{
    x as u8
}

/// The first `count` names of `what`, the last of them first, each
/// followed by `join` but for the very first name of `what`.
pub open spec fn joined_backwards(what: Seq<Seq<char>>, join: Seq<char>, count: nat) -> Seq<char>
    decreases count,
{
    if count == 0 || count > what.len() {
        Seq::empty()
    } else if count == 1 {
        what[0]
    } else {
        what[count - 1] + join + joined_backwards(what, join, (count - 1) as nat)
    }
}

/// The names of `what` from the last to the first, with `join` between
/// them; nothing for no names.
pub fn join_backwards(what: &Vec<String>, join: &str) -> (joined: String)
    ensures
        joined@ == joined_backwards(crate::meta::texts(what@), join@, what@.len()),
{
    let ghost names = crate::meta::texts(what@);
    let mut ret = String::new();
    let mut i: usize = what.len();
    if i == 0 {
        return ret;
    }
    while i > 1
        invariant
            1 <= i <= what.len(),
            names == crate::meta::texts(what@),
            ret@ + joined_backwards(names, join@, i as nat) == joined_backwards(
                names,
                join@,
                what@.len(),
            ),
        decreases i,
    {
        let ghost before = ret@;
        ret.append(what[i - 1].as_str());
        ret.append(join);
        proof {
            assert(names[i - 1] == what@[i - 1]@);
            assert(ret@ + joined_backwards(names, join@, (i - 1) as nat) =~= before
                + joined_backwards(names, join@, i as nat));
        }
        i = i - 1;
    }
    proof {
        assert(names[0] == what@[0]@);
    }
    ret.append(what[0].as_str());
    ret
}

/// How many bytes a copy of at most `how_much` bytes takes from a stream.
pub open spec fn copied(stream: Seq<u8>, how_much: u64) -> nat {
    if stream.len() < how_much {
        stream.len()
    } else {
        how_much as nat
    }
}

/// Copies bytes from `reader` to the end of `writer` until `how_much` of
/// them are copied or the stream is over, reading again after an
/// interruption, and says how many were copied. A failure of the reader is
/// handed on; what was read before it has been copied.
pub fn copy_upto<R: Source>(reader: &mut R, writer: &mut Vec<u8>, how_much: u64) -> (done: Result<
    u64,
    IoFailure,
>)
    ensures
        final(reader).tail() == old(reader).tail(),
        match done {
            Ok(n) => {
                &&& n == copied(old(reader).remaining(), how_much)
                &&& final(writer)@ == old(writer)@ + old(reader).remaining().subrange(0, n as int)
                &&& final(reader).remaining() == old(reader).remaining().subrange(
                    n as int,
                    old(reader).remaining().len() as int,
                )
                &&& n < how_much ==> old(reader).tail().is_none()
            },
            Err(f) => {
                &&& old(reader).tail() == Some(f)
                &&& f.kind != IoKind::Interrupted
                &&& old(reader).remaining().len() < how_much
                &&& final(writer)@ == old(writer)@ + old(reader).remaining()
                &&& final(reader).remaining().len() == 0
            },
        },
{
    let ghost stream = reader.remaining();
    let mut buf: Vec<u8> = vec![0u8; 8192];
    let mut written: u64 = 0;
    assert(writer@ =~= old(writer)@ + stream.subrange(0, 0));
    assert(stream.subrange(0, stream.len() as int) =~= stream);
    loop
        invariant
            written <= how_much,
            written <= stream.len(),
            stream == old(reader).remaining(),
            buf@.len() == 8192,
            reader.tail() == old(reader).tail(),
            reader.remaining() == stream.subrange(written as int, stream.len() as int),
            writer@ == old(writer)@ + stream.subrange(0, written as int),
        decreases stream.len() - written, reader.stalls(),
    {
        let left = how_much - written;
        if left == 0 {
            return Ok(written);
        }
        let max_to_read: usize = if left < 8192 {
            left as usize
        } else {
            8192
        };
        let (chunk, _) = buf.as_mut_slice().split_at_mut(max_to_read);
        let ghost before = writer@;
        match reader.read(chunk) {
            Ok(len) => {
                if len == 0 {
                    return Ok(written);
                }
                let mut i: usize = 0;
                while i < len
                    invariant
                        i <= len <= chunk@.len(),
                        chunk@.subrange(0, len as int) == stream.subrange(
                            written as int,
                            written + len,
                        ),
                        writer@ == before + chunk@.subrange(0, i as int),
                    decreases len - i,
                {
                    writer.push(chunk[i]);
                    proof {
                        assert(writer@ =~= before + chunk@.subrange(0, i + 1));
                    }
                    i = i + 1;
                }
                proof {
                    assert(writer@ =~= old(writer)@ + stream.subrange(0, written + len));
                    assert(reader.remaining() =~= stream.subrange(
                        written + len,
                        stream.len() as int,
                    ));
                }
                written = written + len as u64;
            },
            Err(f) => {
                match f.kind {
                    IoKind::Interrupted => {},
                    _ => {
                        assert(stream.subrange(0, written as int) =~= stream);
                        return Err(f);
                    },
                }
            },
        }
    }
}

/// A reader with a look ahead of one byte, to tell the end of a stream
/// from its next record.
pub struct PeekyRead<'a, R: Source> {
    inner: &'a mut R,
    peeked: Option<u8>,
}

impl<'a, R: Source> PeekyRead<'a, R> {
    /// All that is still to come: the byte that was looked at, if one was,
    /// and what the reader behind has left.
    pub closed spec fn ahead(&self) -> Seq<u8> {
        match self.peeked {
            Some(c) => seq![c] + self.inner.remaining(),
            None => self.inner.remaining(),
        }
    }

    /// The failure that the reader behind ends in.
    pub closed spec fn ending(&self) -> Option<IoFailure> {
        self.inner.tail()
    }

    /// How often the reader behind may still be interrupted.
    pub closed spec fn patience(&self) -> nat {
        self.inner.stalls()
    }

    /// A look-ahead reader in front of `inner`.
    pub fn new(inner: &'a mut R) -> (reader: PeekyRead<'a, R>)
        ensures
            reader.ahead() == old(inner).remaining(),
            reader.ending() == old(inner).tail(),
            reader.patience() == old(inner).stalls(),
    {
        PeekyRead { inner, peeked: None }
    }

    /// Whether the stream is over. Nothing is lost: a byte that had to be
    /// read to find out is kept for the next read. An interruption of the
    /// reader behind is handed on and can be tried again.
    pub fn check_eof(&mut self) -> (over: Result<bool, IoFailure>)
        ensures
            final(self).ahead() == old(self).ahead(),
            final(self).ending() == old(self).ending(),
            match over {
                Ok(yes) => yes == (old(self).ahead().len() == 0) && (yes ==> old(
                    self,
                ).ending().is_none()),
                Err(f) => if f.kind == IoKind::Interrupted {
                    final(self).patience() < old(self).patience()
                } else {
                    old(self).ahead().len() == 0 && old(self).ending() == Some(f)
                },
            },
    {
        if self.peeked.is_some() {
            return Ok(false);
        }
        let mut buf: Vec<u8> = vec![0u8; 1];
        let ghost before = self.inner.remaining();
        match self.inner.read(buf.as_mut_slice()) {
            Ok(n) => {
                if n == 0 {
                    Ok(true)
                } else {
                    self.peeked = Some(buf[0]);
                    assert(self.ahead() =~= before);
                    Ok(false)
                }
            },
            Err(f) => Err(f),
        }
    }
}

impl<'a, R: Source> Source for PeekyRead<'a, R> {
    open spec fn remaining(&self) -> Seq<u8> {
        self.ahead()
    }

    open spec fn tail(&self) -> Option<IoFailure> {
        self.ending()
    }

    open spec fn stalls(&self) -> nat {
        self.patience()
    }

    fn read(&mut self, buf: &mut [u8]) -> (got: Result<usize, IoFailure>) {
        if buf.len() == 0 {
            assert(self.ahead().subrange(0, self.ahead().len() as int) =~= self.ahead());
            assert(buf@ =~= self.ahead().subrange(0, 0) + buf@.subrange(0, 0));
            return Ok(0);
        }
        match self.peeked {
            Some(c) => {
                let ghost before = buf@;
                let ghost all = self.ahead();
                buf[0] = c;
                self.peeked = None;
                proof {
                    assert(buf@ =~= all.subrange(0, 1) + before.subrange(1, before.len() as int));
                    assert(self.ahead() =~= all.subrange(1, all.len() as int));
                }
                Ok(1)
            },
            None => self.inner.read(buf),
        }
    }
}

} // verus!
