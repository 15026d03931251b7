//! The buffered reader and the buffered writer.

use crate::error::{Error, ErrorKind, Repr};
use crate::record::{ReadCall, Recorded, Slot, WriteCall};
use crate::traits::{Read, Write};
use vstd::prelude::*;

verus! {

/// The capacity of a reader's buffer, and the threshold of a writer made
/// with `new`.
pub const DEFAULT_BUFF_SIZE: usize = 8192;

/// The lesser of two numbers.
pub open spec fn least(a: nat, b: nat) -> nat {
    if a <= b {
        a
    } else {
        b
    }
}

/// What a buffered reader is to its callers: the buffer, the part of it that
/// holds bytes not yet handed out, and the calls made to the stream.
pub struct ReaderModel {
    /// The whole buffer.
    pub storage: Seq<u8>,
    /// Where the bytes not yet handed out begin.
    pub pos: nat,
    /// Where they end.
    pub cap: nat,
    /// The calls made to the stream, oldest first.
    pub calls: Seq<ReadCall>,
}

impl ReaderModel {
    /// The cursor is within the valid part, and that within the buffer.
    pub open spec fn wf(self) -> bool {
        &&& self.pos <= self.cap
        &&& self.cap <= self.storage.len()
        &&& self.storage.len() == DEFAULT_BUFF_SIZE
    }

    /// The bytes that were read from the stream and not yet handed out.
    pub open spec fn window(self) -> Seq<u8> {
        self.storage.subrange(self.pos as int, self.cap as int)
    }

    /// What one `read` into a destination that held `before` does: `after` is
    /// what the destination holds then, `r` what the call returns.
    pub open spec fn read_step(
        self,
        before: Seq<u8>,
        post: ReaderModel,
        after: Seq<u8>,
        r: Result<usize, Error>,
    ) -> bool {
        let asked = before.len();
        if self.pos < self.cap {
            // Served from the buffer: the stream is left alone.
            let k = least((self.cap - self.pos) as nat, asked);
            &&& post == ReaderModel { pos: self.pos + k, ..self }
            &&& after == self.window().take(k as int) + before.skip(k as int)
            &&& r == Ok::<usize, Error>(k as usize)
        } else if asked >= DEFAULT_BUFF_SIZE {
            // Bypass: one call with the caller's destination; the buffer is
            // left alone.
            &&& post == ReaderModel { calls: self.calls.push(ReadCall::of(asked, r, after)), ..self }
            &&& after.len() == asked
            &&& (r matches Ok(n) ==> n <= asked)
        } else {
            // Refill: one call with the whole buffer, then the front of what
            // came goes to the caller.
            &&& post.calls.len() == self.calls.len() + 1
            &&& post.calls.drop_last() == self.calls
            &&& post.calls.last().asked == DEFAULT_BUFF_SIZE
            &&& post.storage.len() == self.storage.len()
            &&& match post.calls.last().outcome {
                Err(e) => {
                    &&& r == Err::<usize, Error>(e)
                    &&& after == before
                    &&& post.pos == self.pos
                    &&& post.cap == self.cap
                },
                Ok(bytes) => {
                    let k = least(bytes.len(), asked);
                    &&& bytes.len() <= DEFAULT_BUFF_SIZE
                    &&& post.storage.take(bytes.len() as int) == bytes
                    &&& post.pos == k
                    &&& post.cap == bytes.len()
                    &&& after == bytes.take(k as int) + before.skip(k as int)
                    &&& r == Ok::<usize, Error>(k as usize)
                },
            }
        }
    }
}

/// The two marks in a reader's buffer. The bytes from `pos` up to `cap` were
/// read from the stream and not yet handed out; `pos` never passes `cap`,
/// nor `cap` the end of the buffer.
struct Cursor {
    pos: usize,
    cap: usize,
}

impl Cursor {
    #[verifier::type_invariant]
    spec fn inv(self) -> bool {
        self.pos <= self.cap && self.cap <= DEFAULT_BUFF_SIZE
    }

    closed spec fn spec_pos(self) -> nat {
        self.pos as nat
    }

    closed spec fn spec_cap(self) -> nat {
        self.cap as nat
    }

    fn new() -> (c: Cursor)
        ensures
            c.spec_pos() == 0,
            c.spec_cap() == 0,
    {
        Cursor { pos: 0, cap: 0 }
    }

    fn pos(&self) -> (p: usize)
        ensures
            p == self.spec_pos(),
            self.spec_pos() <= self.spec_cap(),
            self.spec_cap() <= DEFAULT_BUFF_SIZE,
    {
        proof {
            use_type_invariant(self);
        }
        self.pos
    }

    fn cap(&self) -> (c: usize)
        ensures
            c == self.spec_cap(),
            self.spec_pos() <= self.spec_cap(),
            self.spec_cap() <= DEFAULT_BUFF_SIZE,
    {
        proof {
            use_type_invariant(self);
        }
        self.cap
    }

    /// Marks the first `filled` bytes of the buffer as not yet handed out.
    fn reset(&mut self, filled: usize)
        requires
            filled <= DEFAULT_BUFF_SIZE,
        ensures
            final(self).spec_pos() == 0,
            final(self).spec_cap() == filled,
    {
        *self = Cursor { pos: 0, cap: filled };
    }

    /// Marks `by` more bytes as handed out.
    fn advance(&mut self, by: usize)
        requires
            old(self).spec_pos() + by <= old(self).spec_cap(),
        ensures
            final(self).spec_pos() == old(self).spec_pos() + by,
            final(self).spec_cap() == old(self).spec_cap(),
    {
        proof {
            use_type_invariant(&*self);
        }
        self.pos = self.pos + by;
    }
}

/// A reader that takes bytes from a stream a buffer at a time and hands
/// them out in the pieces its callers ask for.
pub struct BufReader<R: Read> {
    inner: Recorded<R>,
    buf: [u8; DEFAULT_BUFF_SIZE],
    cursor: Cursor,
}

impl<R: Read> View for BufReader<R> {
    type V = ReaderModel;

    closed spec fn view(&self) -> ReaderModel {
        ReaderModel {
            storage: self.buf@,
            pos: self.cursor.spec_pos(),
            cap: self.cursor.spec_cap(),
            calls: self.inner.calls(),
        }
    }
}

impl<R: Read> BufReader<R> {
    /// The stream that the reader owns.
    pub closed spec fn endpoint(&self) -> R {
        self.inner.stream()
    }

    /// A reader over `inner`, with an empty buffer and no call made.
    pub fn new(inner: R) -> (reader: Self)
        ensures
            reader@.wf(),
            reader@.pos == 0,
            reader@.cap == 0,
            reader@.calls == Seq::<ReadCall>::empty(),
            reader.endpoint() == inner,
    {
        BufReader { inner: Recorded::new(inner), buf: [0u8; DEFAULT_BUFF_SIZE], cursor: Cursor::new() }
    }
}

impl<R: Read> BufReader<R> {
    /// The stream, to look at.
    pub fn get_ref(&self) -> (stream: &R)
        ensures
            *stream == self.endpoint(),
    {
        self.inner.get_ref()
    }

    /// The bytes that were read from the stream and not yet handed out.
    pub fn buffer(&self) -> (window: &[u8])
        ensures
            self@.wf(),
            window@ == self@.window(),
    {
        let pos: usize = self.cursor.pos();
        let cap: usize = self.cursor.cap();
        vstd::slice::slice_subrange(self.buf.as_slice(), pos, cap)
    }
}

impl<R: Read> Read for BufReader<R> {
    /// Hands out buffered bytes where there are any. With none left, a
    /// destination at least as long as the buffer is passed to the stream as
    /// it is; for a shorter one the buffer is filled again first. The stream
    /// is called once at most, and the destination is not filled further than
    /// that one step allows.
    fn read(&mut self, dest: &mut [u8]) -> (r: Result<usize, Error>)
        ensures
            old(self)@.wf(),
            final(self)@.wf(),
            old(self)@.read_step(old(dest)@, final(self)@, final(dest)@, r),
            old(self)@.pos < old(self)@.cap ==> final(self).endpoint() == old(self).endpoint(),
    {
        let mut pos: usize = self.cursor.pos();
        let mut cap: usize = self.cursor.cap();
        if pos == cap {
            if dest.len() >= DEFAULT_BUFF_SIZE {
                return self.inner.read(dest);
            }
            let filled = self.inner.read(&mut self.buf);
            assert(self@.calls.drop_last() =~= old(self)@.calls);
            match filled {
                Err(e) => {
                    return Err(e);
                },
                Ok(n) => {
                    self.cursor.reset(n);
                    pos = 0;
                    cap = n;
                },
            }
            if cap == 0 {
                assert(dest@ =~= dest@.take(0) + dest@.skip(0));
                return Ok(0);
            }
        }
        let remaining: usize = cap - pos;
        let to_copy: usize = if remaining < dest.len() {
            remaining
        } else {
            dest.len()
        };
        let mut i: usize = 0;
        while i < to_copy
            invariant
                i <= to_copy,
                to_copy <= dest@.len(),
                dest@.len() == old(dest)@.len(),
                pos + to_copy <= cap,
                cap <= DEFAULT_BUFF_SIZE,
                self.buf@.len() == DEFAULT_BUFF_SIZE,
                forall|j: int| 0 <= j < i ==> dest@[j] == self.buf@[pos + j],
                forall|j: int| i <= j < dest@.len() ==> dest@[j] == old(dest)@[j],
            decreases to_copy - i,
        {
            dest[i] = self.buf[pos + i];
            i += 1;
        }
        proof {
            let window = self.buf@.subrange(pos as int, cap as int);
            assert(dest@ =~= window.take(to_copy as int) + old(dest)@.skip(to_copy as int));
        }
        self.cursor.advance(to_copy);
        Ok(to_copy)
    }
}

/// The bytes that the calls took: the sum of what the successful writes
/// among them reported.
pub open spec fn taken(calls: Seq<WriteCall>) -> nat
    decreases calls.len(),
{
    if calls.len() == 0 {
        0
    } else {
        taken(calls.drop_last()) + match calls.last() {
            WriteCall::Write { outcome: Ok(n), .. } => n as nat,
            _ => 0,
        }
    }
}

/// Every call is a write that was offered all of `bytes` that the calls
/// before it had left, and took some of it, not nothing.
pub open spec fn steady(bytes: Seq<u8>, calls: Seq<WriteCall>) -> bool
    decreases calls.len(),
{
    calls.len() == 0 || {
        let before = calls.drop_last();
        &&& steady(bytes, before)
        &&& calls.last() matches WriteCall::Write { offered, outcome: Ok(n) }
        &&& offered == bytes.skip(taken(before) as int)
        &&& 0 < n <= offered.len()
        &&& taken(before) < bytes.len()
    }
}

/// The calls are a drain of `bytes` that came to its end.
pub open spec fn drains(bytes: Seq<u8>, calls: Seq<WriteCall>) -> bool {
    steady(bytes, calls) && taken(calls) == bytes.len()
}

/// The calls are a drain of `bytes` that stopped with the error `e` and left
/// `rest`: the last call was offered `rest` and either took nothing, which
/// is the error of kind `WriteZero`, or failed with `e` itself.
pub open spec fn stalls(bytes: Seq<u8>, calls: Seq<WriteCall>, e: Error, rest: Seq<u8>) -> bool {
    &&& calls.len() > 0
    &&& steady(bytes, calls.drop_last())
    &&& taken(calls.drop_last()) < bytes.len()
    &&& rest == bytes.skip(taken(calls.drop_last()) as int)
    &&& calls.last() matches WriteCall::Write { offered, outcome }
    &&& offered == rest
    &&& match outcome {
        Ok(n) => n == 0 && e@ == Repr::Simple(ErrorKind::WriteZero),
        Err(x) => e == x,
    }
}

/// What a buffered writer is to its callers: the bytes it holds back, the
/// length it lets them reach, whether it still has its stream, and the calls
/// made to the stream.
pub struct WriterModel {
    /// The bytes taken from callers and not yet passed on.
    pub buffer: Seq<u8>,
    /// The length that the buffer is not let past.
    pub threshold: nat,
    /// Whether the stream is present; it is relinquished otherwise.
    pub present: bool,
    /// The calls made to the stream, oldest first.
    pub calls: Seq<WriteCall>,
}

impl WriterModel {
    /// The buffer is no longer than the threshold.
    pub open spec fn wf(self) -> bool {
        self.buffer.len() <= self.threshold
    }

    /// The error that every operation returns once the stream is
    /// relinquished.
    pub open spec fn refuses<T>(r: Result<T, Error>) -> bool {
        r matches Err(e) && e@ == Repr::Simple(ErrorKind::NotConnected)
    }

    /// `post` has all the calls of `self`, and then perhaps more.
    pub open spec fn extends_to(self, post: WriterModel) -> bool {
        &&& self.calls.len() <= post.calls.len()
        &&& post.calls.take(self.calls.len() as int) == self.calls
    }

    /// The calls that `post` has and `self` has not.
    pub open spec fn fresh(self, post: WriterModel) -> Seq<WriteCall> {
        post.calls.skip(self.calls.len() as int)
    }

    /// What a drain does.
    pub open spec fn drain_step(self, post: WriterModel, r: Result<(), Error>) -> bool {
        if !self.present {
            post == self && Self::refuses(r)
        } else {
            &&& post.present
            &&& post.threshold == self.threshold
            &&& self.extends_to(post)
            &&& match r {
                Ok(_) => drains(self.buffer, self.fresh(post)) && post.buffer == Seq::<u8>::empty(),
                Err(e) => stalls(self.buffer, self.fresh(post), e, post.buffer),
            }
        }
    }

    /// What one `write` of `data` does.
    pub open spec fn write_step(self, data: Seq<u8>, post: WriterModel, r: Result<usize, Error>) -> bool {
        if !self.present {
            post == self && Self::refuses(r)
        } else if self.buffer.len() + data.len() <= self.threshold {
            // Held back: the stream is left alone.
            &&& post == WriterModel { buffer: self.buffer + data, ..self }
            &&& r == Ok::<usize, Error>(data.len() as usize)
        } else {
            let fresh = self.fresh(post);
            &&& post.present
            &&& post.threshold == self.threshold
            &&& self.extends_to(post)
            &&& {
                ||| r matches Err(e) && stalls(self.buffer, fresh, e, post.buffer)
                ||| if data.len() >= self.threshold {
                    // Drained, then passed on as it is.
                    &&& fresh.len() > 0
                    &&& drains(self.buffer, fresh.drop_last())
                    &&& fresh.last() == WriteCall::Write { offered: data, outcome: r }
                    &&& post.buffer == Seq::<u8>::empty()
                    &&& (r matches Ok(n) ==> n <= data.len())
                } else {
                    // Drained, then held back.
                    &&& drains(self.buffer, fresh)
                    &&& post.buffer == data
                    &&& r == Ok::<usize, Error>(data.len() as usize)
                }
            }
        }
    }

    /// What `close` does: a drain, after which the stream is relinquished if
    /// the drain came to its end, and kept if it did not.
    pub open spec fn close_step(self, post: WriterModel, r: Result<(), Error>) -> bool {
        if !self.present {
            post == self && Self::refuses(r)
        } else {
            &&& self.drain_step(WriterModel { present: true, ..post }, r)
            &&& post.present == (r is Err)
        }
    }

    /// What a `flush` does.
    pub open spec fn flush_step(self, post: WriterModel, r: Result<usize, Error>) -> bool {
        if !self.present {
            post == self && Self::refuses(r)
        } else {
            let fresh = self.fresh(post);
            &&& post.present
            &&& post.threshold == self.threshold
            &&& self.extends_to(post)
            &&& {
                ||| r matches Err(e) && stalls(self.buffer, fresh, e, post.buffer)
                ||| {
                    &&& fresh.len() > 0
                    &&& drains(self.buffer, fresh.drop_last())
                    &&& fresh.last() == WriteCall::Flush { outcome: r }
                    &&& post.buffer == Seq::<u8>::empty()
                }
            }
        }
    }
}

/// Takes the first `n` bytes out of `v` and moves the rest to the front.
fn discard_front(v: &mut Vec<u8>, n: usize)
    requires
        n <= old(v)@.len(),
    ensures
        final(v)@ == old(v)@.skip(n as int),
{
    let len: usize = v.len();
    let kept: usize = len - n;
    let mut i: usize = 0;
    while i < kept
        invariant
            i <= kept,
            kept + n == len,
            v@.len() == len,
            len == old(v)@.len(),
            forall|j: int| 0 <= j < i ==> v@[j] == old(v)@[j + n],
            forall|j: int| i <= j < len ==> v@[j] == old(v)@[j],
        decreases kept - i,
    {
        let byte: u8 = v[i + n];
        v[i] = byte;
        i += 1;
    }
    v.truncate(kept);
    assert(v@ =~= old(v)@.skip(n as int));
}

/// A writer that holds bytes back until they would pass its threshold and
/// then passes them to its stream in as few calls as the stream allows.
pub struct BufWriter<W: Write> {
    inner: Slot<W>,
    buf: Vec<u8>,
    len: usize,
}

impl<W: Write> View for BufWriter<W> {
    type V = WriterModel;

    closed spec fn view(&self) -> WriterModel {
        WriterModel {
            buffer: self.buf@,
            threshold: self.len as nat,
            present: self.inner.stream().is_some(),
            calls: self.inner.calls(),
        }
    }
}

impl<W: Write> BufWriter<W> {
    /// The stream that the writer owns, until it is relinquished.
    pub closed spec fn endpoint(&self) -> Option<W> {
        self.inner.stream()
    }

    /// A writer over `inner` with the default threshold, an empty buffer and
    /// no call made.
    pub fn new(inner: W) -> (writer: Self)
        ensures
            writer@ == (WriterModel {
                buffer: Seq::<u8>::empty(),
                threshold: DEFAULT_BUFF_SIZE as nat,
                present: true,
                calls: Seq::<WriteCall>::empty(),
            }),
            writer.endpoint() == Some(inner),
    {
        BufWriter::with_capacity(DEFAULT_BUFF_SIZE, inner)
    }

    /// A writer over `inner` with the given threshold, an empty buffer and
    /// no call made.
    pub fn with_capacity(capacity: usize, inner: W) -> (writer: Self)
        ensures
            writer@ == (WriterModel {
                buffer: Seq::<u8>::empty(),
                threshold: capacity as nat,
                present: true,
                calls: Seq::<WriteCall>::empty(),
            }),
            writer.endpoint() == Some(inner),
    {
        BufWriter { inner: Slot::new(inner), buf: Vec::with_capacity(capacity), len: capacity }
    }

    /// The stream, to look at, until it is relinquished.
    pub fn get_ref(&self) -> (stream: Option<&W>)
        ensures
            match stream {
                Some(w) => self.endpoint() == Some(*w),
                None => self.endpoint().is_none(),
            },
    {
        self.inner.get_ref()
    }

    /// The bytes taken from callers and not yet passed on.
    pub fn buffer(&self) -> (held: &[u8])
        ensures
            held@ == self@.buffer,
    {
        self.buf.as_slice()
    }

    /// The length that the buffer is not let past.
    pub fn capacity(&self) -> (threshold: usize)
        ensures
            threshold == self@.threshold,
    {
        self.len
    }

    /// The drain: offers the stream all that the buffer holds, then what is
    /// left of it, until the stream has taken everything. A stream that
    /// takes nothing of what it is offered ends the drain with an error of
    /// kind `WriteZero`, and one that fails ends it with its own error; what
    /// the stream had taken by then is no longer in the buffer.
    pub fn flush_buf(&mut self) -> (r: Result<(), Error>)
        ensures
            old(self)@.drain_step(final(self)@, r),
            old(self)@.wf() ==> final(self)@.wf(),
            !old(self)@.present || old(self)@.buffer.len() == 0 ==> final(self).endpoint() == old(
                self,
            ).endpoint(),
    {
        if !self.inner.is_present() {
            return Err(Error::from(ErrorKind::NotConnected));
        }
        let len: usize = self.buf.len();
        let mut written: usize = 0;
        let mut failure: Option<Error> = None;
        let ghost bytes = self.buf@;
        let ghost start = self.inner.calls().len();
        assert(self.inner.calls().skip(start as int) =~= Seq::<WriteCall>::empty());
        assert(self.inner.calls().take(start as int) =~= self.inner.calls());
        while written < len && failure.is_none()
            invariant
                self.inner.stream().is_some(),
                self.buf@ == bytes,
                self.len == old(self).len,
                len == bytes.len(),
                written <= len,
                start == old(self).inner.calls().len(),
                start <= self.inner.calls().len(),
                self.inner.calls().take(start as int) == old(self).inner.calls(),
                written == 0 && failure.is_none() ==> self.inner == old(self).inner,
                failure.is_none() ==> steady(bytes, self.inner.calls().skip(start as int)),
                failure.is_none() ==> taken(self.inner.calls().skip(start as int)) == written,
                failure matches Some(e) ==> stalls(
                    bytes,
                    self.inner.calls().skip(start as int),
                    e,
                    bytes.skip(written as int),
                ),
            decreases len - written + (if failure.is_none() { 1int } else { 0int }),
        {
            let ghost before = self.inner.calls();
            let rest = vstd::slice::slice_subrange(self.buf.as_slice(), written, len);
            assert(rest@ =~= bytes.skip(written as int));
            let r = self.inner.write(rest);
            proof {
                let now = self.inner.calls();
                assert(now.skip(start as int).drop_last() =~= before.skip(start as int));
                assert(now.take(start as int) =~= before.take(start as int));
                assert(now.skip(start as int).last() == now.last());
            }
            match r {
                Ok(n) => {
                    if n == 0 {
                        failure = Some(Error::from(ErrorKind::WriteZero));
                    } else {
                        written += n;
                    }
                },
                Err(e) => {
                    failure = Some(e);
                },
            }
        }
        match failure {
            None => {
                self.buf.clear();
                Ok(())
            },
            Some(e) => {
                discard_front(&mut self.buf, written);
                Err(e)
            },
        }
    }

    /// Drains the buffer and gives the stream up. Where the drain fails the
    /// writer keeps the stream, and what is left in the buffer.
    pub fn close(&mut self) -> (r: Result<W, Error>)
        ensures
            old(self)@.close_step(
                final(self)@,
                match r {
                    Ok(_) => Ok(()),
                    Err(e) => Err(e),
                },
            ),
            old(self)@.wf() ==> final(self)@.wf(),
            final(self)@.present == final(self).endpoint().is_some(),
            old(self)@.buffer.len() == 0 ==> match r {
                Ok(w) => old(self).endpoint() == Some(w),
                Err(_) => final(self).endpoint() == old(self).endpoint(),
            },
    {
        match self.flush_buf() {
            Err(e) => {
                return Err(e);
            },
            Ok(_) => {},
        }
        match self.inner.relinquish() {
            Some(w) => Ok(w),
            None => Err(Error::from(ErrorKind::NotConnected)),
        }
    }
}

impl<W: Write> Write for BufWriter<W> {
    /// Holds `data` back where it fits under the threshold beside what is
    /// held already. Where it does not, the buffer is drained first; then
    /// `data` is held back if it is shorter than the threshold, and passed to
    /// the stream as it is if not.
    fn write(&mut self, data: &[u8]) -> (r: Result<usize, Error>)
        ensures
            old(self)@.write_step(data@, final(self)@, r),
            old(self)@.wf() ==> final(self)@.wf(),
            !old(self)@.present || old(self)@.buffer.len() + data@.len() <= old(self)@.threshold
                ==> final(self).endpoint() == old(self).endpoint(),
    {
        if !self.inner.is_present() {
            return Err(Error::from(ErrorKind::NotConnected));
        }
        let held: usize = self.buf.len();
        if held > self.len || data.len() > self.len - held {
            match self.flush_buf() {
                Err(e) => {
                    return Err(e);
                },
                Ok(_) => {},
            }
            if data.len() >= self.len {
                let ghost before = self.inner.calls();
                let ghost start = old(self).inner.calls().len();
                let r = self.inner.write(data);
                proof {
                    let now = self.inner.calls();
                    assert(now.skip(start as int).drop_last() =~= before.skip(start as int));
                    assert(now.take(start as int) =~= before.take(start as int));
                    assert(now.skip(start as int).last() == now.last());
                }
                return r;
            }
            self.buf.extend_from_slice(data);
            assert(self.buf@ =~= data@);
            return Ok(data.len());
        }
        self.buf.extend_from_slice(data);
        assert(self.buf@ =~= old(self).buf@ + data@);
        Ok(data.len())
    }

    /// Drains the buffer, then has the stream flush itself and returns what
    /// the stream returned.
    fn flush(&mut self) -> (r: Result<usize, Error>)
        ensures
            old(self)@.flush_step(final(self)@, r),
            old(self)@.wf() ==> final(self)@.wf(),
            !old(self)@.present ==> final(self).endpoint() == old(self).endpoint(),
    {
        match self.flush_buf() {
            Err(e) => {
                return Err(e);
            },
            Ok(_) => {},
        }
        let ghost before = self.inner.calls();
        let ghost start = old(self).inner.calls().len();
        let r = self.inner.flush();
        proof {
            let now = self.inner.calls();
            assert(now.skip(start as int).drop_last() =~= before.skip(start as int));
            assert(now.take(start as int) =~= before.take(start as int));
            assert(now.skip(start as int).last() == now.last());
        }
        r
    }
}

} // verus!
