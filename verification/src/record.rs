//! Streams held together with the record of the calls made to them. The
//! buffered wrappers reach their streams through these types only, so that
//! the record holds every call, in order, and nothing else.

use crate::error::{Error, ErrorKind, Repr};
use crate::traits::{Read, Write};
use vstd::prelude::*;

verus! {

/// One call made to a readable stream: the length of the destination it was
/// given, and the bytes it placed there or the error it reported.
pub struct ReadCall {
    pub asked: nat,
    pub outcome: Result<Seq<u8>, Error>,
}

impl ReadCall {
    /// The record of a call that was given a destination of `asked` bytes,
    /// returned `r` and left the destination holding `dest`.
    pub open spec fn of(asked: nat, r: Result<usize, Error>, dest: Seq<u8>) -> ReadCall {
        ReadCall {
            asked,
            outcome: match r {
                Ok(n) => Ok(dest.take(n as int)),
                Err(e) => Err(e),
            },
        }
    }
}

/// One call made to a writable stream.
pub enum WriteCall {
    /// A `write` that was offered some bytes and reported how many it took.
    Write { offered: Seq<u8>, outcome: Result<usize, Error> },
    /// A `flush`.
    Flush { outcome: Result<usize, Error> },
}

/// A readable stream and the calls made to it since it was taken over.
pub struct Recorded<R> {
    stream: R,
    calls: Ghost<Seq<ReadCall>>,
}

impl<R: Read> Recorded<R> {
    /// The stream.
    pub closed spec fn stream(&self) -> R {
        self.stream
    }

    /// The calls made so far, oldest first.
    pub closed spec fn calls(&self) -> Seq<ReadCall> {
        self.calls@
    }

    /// Takes a stream over, with no call made yet.
    pub fn new(stream: R) -> (s: Self)
        ensures
            s.stream() == stream,
            s.calls() == Seq::<ReadCall>::empty(),
    {
        Recorded { stream, calls: Ghost(Seq::empty()) }
    }

    /// The stream, to look at.
    pub fn get_ref(&self) -> (stream: &R)
        ensures
            *stream == self.stream(),
    {
        &self.stream
    }

    /// Makes one `read` call and records it.
    pub fn read(&mut self, buf: &mut [u8]) -> (r: Result<usize, Error>)
        ensures
            final(buf)@.len() == old(buf)@.len(),
            r matches Ok(n) ==> n <= old(buf)@.len(),
            final(self).calls() == old(self).calls().push(
                ReadCall::of(old(buf)@.len(), r, final(buf)@),
            ),
    {
        let ghost asked = buf@.len();
        let r = self.stream.read(buf);
        proof {
            self.calls@ = self.calls@.push(ReadCall::of(asked, r, buf@));
        }
        r
    }
}

/// The place of a writable stream, which is either present or relinquished,
/// and the calls made to the stream since it was taken over.
pub struct Slot<W> {
    stream: Option<W>,
    calls: Ghost<Seq<WriteCall>>,
}

impl<W: Write> Slot<W> {
    /// The stream, while it is present.
    pub closed spec fn stream(&self) -> Option<W> {
        self.stream
    }

    /// The calls made so far, oldest first.
    pub closed spec fn calls(&self) -> Seq<WriteCall> {
        self.calls@
    }

    /// Takes a stream over, with no call made yet.
    pub fn new(stream: W) -> (s: Self)
        ensures
            s.stream() == Some(stream),
            s.calls() == Seq::<WriteCall>::empty(),
    {
        Slot { stream: Some(stream), calls: Ghost(Seq::empty()) }
    }

    /// Whether the stream is present.
    pub fn is_present(&self) -> (b: bool)
        ensures
            b == self.stream().is_some(),
    {
        self.stream.is_some()
    }

    /// The stream, to look at, while it is present.
    pub fn get_ref(&self) -> (stream: Option<&W>)
        ensures
            match stream {
                Some(w) => self.stream() == Some(*w),
                None => self.stream().is_none(),
            },
    {
        self.stream.as_ref()
    }

    /// Makes one `write` call and records it. Where the stream is
    /// relinquished, no call is made and the error says so.
    pub fn write(&mut self, buf: &[u8]) -> (r: Result<usize, Error>)
        ensures
            final(self).stream().is_some() == old(self).stream().is_some(),
            r matches Ok(n) ==> n <= buf@.len(),
            old(self).stream().is_some() ==> final(self).calls() == old(self).calls().push(
                WriteCall::Write { offered: buf@, outcome: r },
            ),
            old(self).stream().is_none() ==> *final(self) == *old(self),
            old(self).stream().is_none() ==> (r matches Err(e) && e@ == Repr::Simple(
                ErrorKind::NotConnected,
            )),
    {
        match &mut self.stream {
            Some(w) => {
                let r = w.write(buf);
                proof {
                    self.calls@ = self.calls@.push(WriteCall::Write { offered: buf@, outcome: r });
                }
                r
            },
            None => Err(Error::from(ErrorKind::NotConnected)),
        }
    }

    /// Makes one `flush` call and records it. Where the stream is
    /// relinquished, no call is made and the error says so.
    pub fn flush(&mut self) -> (r: Result<usize, Error>)
        ensures
            final(self).stream().is_some() == old(self).stream().is_some(),
            old(self).stream().is_some() ==> final(self).calls() == old(self).calls().push(
                WriteCall::Flush { outcome: r },
            ),
            old(self).stream().is_none() ==> *final(self) == *old(self),
            old(self).stream().is_none() ==> (r matches Err(e) && e@ == Repr::Simple(
                ErrorKind::NotConnected,
            )),
    {
        match &mut self.stream {
            Some(w) => {
                let r = w.flush();
                proof {
                    self.calls@ = self.calls@.push(WriteCall::Flush { outcome: r });
                }
                r
            },
            None => Err(Error::from(ErrorKind::NotConnected)),
        }
    }

    /// Gives the stream up: the slot is relinquished from here on.
    pub fn relinquish(&mut self) -> (w: Option<W>)
        ensures
            w == old(self).stream(),
            final(self).stream().is_none(),
            final(self).calls() == old(self).calls(),
    {
        self.stream.take()
    }
}

} // verus!
