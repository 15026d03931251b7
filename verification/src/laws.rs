//! What holds of the buffered reader and writer over any run of calls,
//! proved from what each single call does.

use crate::buffered::{
    drains, stalls, steady, taken, ReaderModel, WriterModel, DEFAULT_BUFF_SIZE,
};
use crate::error::{Error, ErrorKind, Repr};
use crate::record::{ReadCall, WriteCall};
use vstd::prelude::*;

verus! {

/// The bytes that a stream took in the calls: for each successful write the
/// front of what it was offered, as long as the count it reported, in the
/// order of the calls.
pub open spec fn accepted(calls: Seq<WriteCall>) -> Seq<u8>
    decreases calls.len(),
{
    if calls.len() == 0 {
        Seq::<u8>::empty()
    } else {
        accepted(calls.drop_last()) + match calls.last() {
            WriteCall::Write { offered, outcome: Ok(n) } => offered.take(n as int),
            _ => Seq::<u8>::empty(),
        }
    }
}

/// The length of the bytes that a call offered to the stream.
pub open spec fn offered_len(call: WriteCall) -> nat {
    match call {
        WriteCall::Write { offered, .. } => offered.len(),
        WriteCall::Flush { .. } => 0,
    }
}

/// The part of `data` that a `write` took, going by what it returned.
pub open spec fn taken_of(data: Seq<u8>, r: Result<usize, Error>) -> Seq<u8> {
    match r {
        Ok(n) => data.take(n as int),
        Err(_) => Seq::<u8>::empty(),
    }
}

/// What the stream took in two runs of calls, one after the other, is what it
/// took in the first followed by what it took in the second.
pub proof fn lemma_accepted_concat(first: Seq<WriteCall>, second: Seq<WriteCall>)
    ensures
        accepted(first + second) == accepted(first) + accepted(second),
    decreases second.len(),
{
    if second.len() == 0 {
        assert(first + second =~= first);
        assert(accepted(first) + accepted(second) =~= accepted(first));
    } else {
        lemma_accepted_concat(first, second.drop_last());
        assert((first + second).drop_last() =~= first + second.drop_last());
        assert((first + second).last() == second.last());
        let tail = match second.last() {
            WriteCall::Write { offered, outcome: Ok(n) } => offered.take(n as int),
            _ => Seq::<u8>::empty(),
        };
        assert(accepted(first + second) =~= accepted(first) + (accepted(second.drop_last())
            + tail));
    }
}

/// In a drain, whole or not, the stream takes the front of the buffer, byte
/// for byte, and no call takes more than is left.
pub proof fn lemma_steady_takes_the_front(bytes: Seq<u8>, calls: Seq<WriteCall>)
    requires
        steady(bytes, calls),
    ensures
        taken(calls) <= bytes.len(),
        accepted(calls) == bytes.take(taken(calls) as int),
        calls.len() <= taken(calls),
    decreases calls.len(),
{
    if calls.len() == 0 {
        assert(accepted(calls) =~= bytes.take(0));
    } else {
        let before = calls.drop_last();
        lemma_steady_takes_the_front(bytes, before);
        match calls.last() {
            WriteCall::Write { offered, outcome: Ok(n) } => {
                assert(accepted(calls) =~= bytes.take(taken(calls) as int));
            },
            _ => {},
        }
    }
}

/// A drain moves bytes from the buffer to the stream and changes nothing
/// else: what the stream has taken, followed by what the buffer holds, is
/// the same after it as before, whether it came to its end or stopped.
pub proof fn lemma_drain_keeps_order(pre: WriterModel, post: WriterModel, r: Result<(), Error>)
    requires
        pre.drain_step(post, r),
    ensures
        accepted(post.calls) + post.buffer == accepted(pre.calls) + pre.buffer,
        r is Ok ==> post.buffer.len() == 0,
{
    if pre.present {
        let fresh = pre.fresh(post);
        assert(post.calls =~= pre.calls + fresh);
        lemma_accepted_concat(pre.calls, fresh);
        match r {
            Ok(_) => {
                lemma_steady_takes_the_front(pre.buffer, fresh);
                assert(pre.buffer.take(pre.buffer.len() as int) =~= pre.buffer);
                assert(accepted(post.calls) + post.buffer =~= accepted(pre.calls) + pre.buffer);
            },
            Err(e) => {
                lemma_stall_keeps_order(pre.buffer, fresh, e, post.buffer);
                assert(accepted(post.calls) + post.buffer =~= accepted(pre.calls) + pre.buffer);
            },
        }
    }
}

/// In a drain that stopped, what the stream took and what is left are the
/// buffer as it was.
pub proof fn lemma_stall_keeps_order(
    bytes: Seq<u8>,
    calls: Seq<WriteCall>,
    e: Error,
    rest: Seq<u8>,
)
    requires
        stalls(bytes, calls, e, rest),
    ensures
        accepted(calls) + rest == bytes,
        rest.len() > 0,
{
    let before = calls.drop_last();
    lemma_steady_takes_the_front(bytes, before);
    match calls.last() {
        WriteCall::Write { offered, outcome: Ok(n) } => {
            assert(offered.take(0) =~= Seq::<u8>::empty());
        },
        _ => {},
    }
    assert(accepted(calls) =~= accepted(before));
    assert(accepted(calls) + rest =~= bytes);
}

/// One `write` keeps the order of the bytes: what the stream has taken,
/// followed by what the buffer holds, grows by the part of `data` that the
/// call reported as taken, and by nothing else.
pub proof fn lemma_write_keeps_order(
    pre: WriterModel,
    data: Seq<u8>,
    post: WriterModel,
    r: Result<usize, Error>,
)
    requires
        data.len() <= usize::MAX,
        pre.write_step(data, post, r),
    ensures
        accepted(post.calls) + post.buffer == accepted(pre.calls) + pre.buffer + taken_of(data, r),
{
    let gain = taken_of(data, r);
    if !pre.present {
        assert(accepted(pre.calls) + pre.buffer + gain =~= accepted(pre.calls) + pre.buffer);
    } else if pre.buffer.len() + data.len() <= pre.threshold {
        assert(data.take(data.len() as int) =~= data);
        assert(accepted(post.calls) + post.buffer =~= accepted(pre.calls) + pre.buffer + gain);
    } else {
        let fresh = pre.fresh(post);
        assert(post.calls =~= pre.calls + fresh);
        lemma_accepted_concat(pre.calls, fresh);
        if r matches Err(e) && stalls(pre.buffer, fresh, e, post.buffer) {
            let e = r->Err_0;
            lemma_stall_keeps_order(pre.buffer, fresh, e, post.buffer);
            assert(accepted(post.calls) + post.buffer =~= accepted(pre.calls) + pre.buffer
                + gain);
        } else if data.len() >= pre.threshold {
            lemma_steady_takes_the_front(pre.buffer, fresh.drop_last());
            assert(pre.buffer.take(pre.buffer.len() as int) =~= pre.buffer);
            assert(accepted(fresh) =~= pre.buffer + gain);
            assert(accepted(post.calls) + post.buffer =~= accepted(pre.calls) + pre.buffer
                + gain);
        } else {
            lemma_steady_takes_the_front(pre.buffer, fresh);
            assert(pre.buffer.take(pre.buffer.len() as int) =~= pre.buffer);
            assert(data.take(data.len() as int) =~= data);
            assert(accepted(post.calls) + post.buffer =~= accepted(pre.calls) + pre.buffer
                + gain);
        }
    }
}

/// A `flush` keeps the order of the bytes, and one that succeeds leaves
/// nothing behind: the stream has then taken all that the buffer held.
pub proof fn lemma_flush_keeps_order(pre: WriterModel, post: WriterModel, r: Result<usize, Error>)
    requires
        pre.flush_step(post, r),
    ensures
        accepted(post.calls) + post.buffer == accepted(pre.calls) + pre.buffer,
        r is Ok ==> post.buffer.len() == 0 && accepted(post.calls) == accepted(pre.calls)
            + pre.buffer,
{
    if pre.present {
        let fresh = pre.fresh(post);
        assert(post.calls =~= pre.calls + fresh);
        lemma_accepted_concat(pre.calls, fresh);
        if r matches Err(e) && stalls(pre.buffer, fresh, e, post.buffer) {
            let e = r->Err_0;
            lemma_stall_keeps_order(pre.buffer, fresh, e, post.buffer);
            assert(accepted(post.calls) + post.buffer =~= accepted(pre.calls) + pre.buffer);
        } else {
            lemma_steady_takes_the_front(pre.buffer, fresh.drop_last());
            assert(pre.buffer.take(pre.buffer.len() as int) =~= pre.buffer);
            assert(accepted(fresh) =~= pre.buffer);
            assert(accepted(post.calls) + post.buffer =~= accepted(pre.calls) + pre.buffer);
            assert(accepted(post.calls) =~= accepted(pre.calls) + pre.buffer);
        }
    }
}

/// A run of `write` calls on one writer: `states` holds the writer before
/// the first call and after each, `data` what each call was given, and
/// `results` what each returned.
pub open spec fn write_run(
    states: Seq<WriterModel>,
    data: Seq<Seq<u8>>,
    results: Seq<Result<usize, Error>>,
) -> bool {
    &&& states.len() == data.len() + 1
    &&& results.len() == data.len()
    &&& forall|i: int|
        0 <= i < data.len() ==> data[i].len() <= usize::MAX && states[i].write_step(
            data[i],
            states[i + 1],
            #[trigger] results[i],
        )
}

/// The pieces one after the other.
pub open spec fn joined(data: Seq<Seq<u8>>) -> Seq<u8>
    decreases data.len(),
{
    if data.len() == 0 {
        Seq::<u8>::empty()
    } else {
        joined(data.drop_last()) + data.last()
    }
}

/// The bytes that the calls of a run reported as taken, one part after the
/// other.
pub open spec fn submitted(data: Seq<Seq<u8>>, results: Seq<Result<usize, Error>>) -> Seq<u8>
    decreases data.len(),
{
    if data.len() == 0 || results.len() != data.len() {
        Seq::<u8>::empty()
    } else {
        submitted(data.drop_last(), results.drop_last()) + taken_of(data.last(), results.last())
    }
}

proof fn lemma_order_upto(
    states: Seq<WriterModel>,
    data: Seq<Seq<u8>>,
    results: Seq<Result<usize, Error>>,
    upto: int,
)
    requires
        write_run(states, data, results),
        0 <= upto <= data.len(),
    ensures
        accepted(states[upto].calls) + states[upto].buffer == accepted(states[0].calls)
            + states[0].buffer + submitted(data.take(upto), results.take(upto)),
    decreases upto,
{
    if upto == 0 {
        assert(accepted(states[0].calls) + states[0].buffer + Seq::<u8>::empty() =~= accepted(
            states[0].calls,
        ) + states[0].buffer);
    } else {
        lemma_order_upto(states, data, results, upto - 1);
        let r = results[upto - 1];
        lemma_write_keeps_order(states[upto - 1], data[upto - 1], states[upto], r);
        assert(data.take(upto).drop_last() =~= data.take(upto - 1));
        assert(results.take(upto).drop_last() =~= results.take(upto - 1));
        let base = accepted(states[0].calls) + states[0].buffer;
        let earlier = submitted(data.take(upto - 1), results.take(upto - 1));
        assert(base + earlier + taken_of(data[upto - 1], r) =~= base + (earlier + taken_of(
            data[upto - 1],
            r,
        )));
    }
}

/// Order and content are kept over any run of writes: what the stream has
/// taken, followed by what the buffer holds, is what it was before the run
/// followed by the bytes that the calls reported as taken, in the order of
/// the calls. After a flush that succeeds the buffer is empty, so the
/// stream has then taken exactly those bytes.
pub proof fn lemma_writes_keep_order(
    states: Seq<WriterModel>,
    data: Seq<Seq<u8>>,
    results: Seq<Result<usize, Error>>,
)
    requires
        write_run(states, data, results),
    ensures
        accepted(states.last().calls) + states.last().buffer == accepted(states[0].calls)
            + states[0].buffer + submitted(data, results),
{
    lemma_order_upto(states, data, results, data.len() as int);
    assert(data.take(data.len() as int) =~= data);
    assert(results.take(data.len() as int) =~= results);
}

proof fn lemma_joined_grows(data: Seq<Seq<u8>>, upto: int)
    requires
        0 <= upto <= data.len(),
    ensures
        joined(data.take(upto)).len() <= joined(data).len(),
    decreases data.len(),
{
    if upto == data.len() {
        assert(data.take(upto) =~= data);
    } else {
        lemma_joined_grows(data.drop_last(), upto);
        assert(data.drop_last().take(upto) =~= data.take(upto));
    }
}

proof fn lemma_held_upto(
    states: Seq<WriterModel>,
    data: Seq<Seq<u8>>,
    results: Seq<Result<usize, Error>>,
    upto: int,
)
    requires
        write_run(states, data, results),
        states[0].buffer.len() + joined(data).len() <= states[0].threshold,
        0 <= upto <= data.len(),
    ensures
        states[upto].calls == states[0].calls,
        states[upto].present == states[0].present,
        states[upto].threshold == states[0].threshold,
        states[0].present ==> states[upto].buffer == states[0].buffer + joined(data.take(upto)),
        !states[0].present ==> states[upto].buffer == states[0].buffer,
        states[0].present && upto > 0 ==> results[upto - 1] == Ok::<usize, Error>(
            data[upto - 1].len() as usize,
        ),
        !states[0].present && upto > 0 ==> WriterModel::refuses(results[upto - 1]),
    decreases upto,
{
    if upto == 0 {
        assert(states[0].buffer + joined(data.take(0)) =~= states[0].buffer);
    } else {
        lemma_held_upto(states, data, results, upto - 1);
        let r = results[upto - 1];
        assert(states[upto - 1].write_step(data[upto - 1], states[upto], r));
        assert(data.take(upto).drop_last() =~= data.take(upto - 1));
        lemma_joined_grows(data, upto);
        if states[0].present {
            assert(states[0].buffer + joined(data.take(upto - 1)) + data[upto - 1]
                =~= states[0].buffer + joined(data.take(upto)));
        }
    }
}

/// Buffering cannot be seen from the stream: over a run of writes whose
/// bytes, with those held at the start, stay within the threshold, no call
/// is made to the stream. Every write is taken whole and held back, in
/// order, unless the stream was relinquished, in which case every write is
/// refused.
pub proof fn lemma_writes_within_threshold_are_held(
    states: Seq<WriterModel>,
    data: Seq<Seq<u8>>,
    results: Seq<Result<usize, Error>>,
)
    requires
        write_run(states, data, results),
        states[0].buffer.len() + joined(data).len() <= states[0].threshold,
    ensures
        forall|i: int| 0 <= i <= data.len() ==> (#[trigger] states[i]).calls == states[0].calls,
        states[0].present ==> states.last().buffer == states[0].buffer + joined(data),
        states[0].present ==> forall|i: int|
            0 <= i < data.len() ==> #[trigger] results[i] == Ok::<usize, Error>(
                data[i].len() as usize,
            ),
        !states[0].present ==> forall|i: int|
            0 <= i < data.len() ==> WriterModel::refuses(#[trigger] results[i]),
{
    assert forall|i: int| 0 <= i <= data.len() implies (#[trigger] states[i]).calls
        == states[0].calls by {
        lemma_held_upto(states, data, results, i);
    }
    assert forall|i: int| 0 <= i < data.len() implies (states[0].present ==> #[trigger] results[i]
        == Ok::<usize, Error>(data[i].len() as usize)) && (!states[0].present
        ==> WriterModel::refuses(results[i])) by {
        lemma_held_upto(states, data, results, i + 1);
    }
    lemma_held_upto(states, data, results, data.len() as int);
    assert(data.take(data.len() as int) =~= data);
}

/// A second flush finds nothing to pass on. After a flush whose drain came
/// to its end, the next flush, with no write between the two, makes one call
/// only: the `flush` that it hands on to the stream. It offers the stream no
/// bytes, and the stream takes none.
pub proof fn lemma_second_flush_only_forwards(
    start: WriterModel,
    between: WriterModel,
    end: WriterModel,
    first: Result<usize, Error>,
    second: Result<usize, Error>,
)
    requires
        start.present,
        start.flush_step(between, first),
        between.flush_step(end, second),
        !(first matches Err(e) && stalls(start.buffer, start.fresh(between), e, between.buffer)),
    ensures
        between.fresh(end) == seq![WriteCall::Flush { outcome: second }],
        accepted(end.calls) == accepted(between.calls),
        end.buffer.len() == 0,
{
    let fresh = between.fresh(end);
    assert(between.buffer.len() == 0);
    assert(steady(between.buffer, fresh.drop_last()));
    assert(fresh.drop_last().len() == 0);
    assert(fresh =~= seq![WriteCall::Flush { outcome: second }]);
    lemma_flush_keeps_order(between, end, second);
    assert(accepted(end.calls) + end.buffer =~= accepted(end.calls));
    assert(accepted(between.calls) + between.buffer =~= accepted(between.calls));
}

proof fn lemma_steady_prefix(bytes: Seq<u8>, calls: Seq<WriteCall>, i: int)
    requires
        steady(bytes, calls),
        0 <= i < calls.len(),
    ensures
        steady(bytes, calls.take(i)),
        taken(calls.take(i)) < taken(calls.take(i + 1)),
        taken(calls.take(i + 1)) <= taken(calls),
        calls[i] matches WriteCall::Write { outcome: Ok(n), .. } && n > 0,
        offered_len(calls[i]) == bytes.len() - taken(calls.take(i)),
    decreases calls.len(),
{
    if i == calls.len() - 1 {
        assert(calls.take(i) =~= calls.drop_last());
        assert(calls.take(i + 1) =~= calls);
    } else {
        lemma_steady_prefix(bytes, calls.drop_last(), i);
        assert(calls.drop_last().take(i) =~= calls.take(i));
        assert(calls.drop_last().take(i + 1) =~= calls.take(i + 1));
    }
}

proof fn lemma_taken_rises(bytes: Seq<u8>, calls: Seq<WriteCall>, i: int, j: int)
    requires
        steady(bytes, calls),
        0 <= i < j <= calls.len(),
    ensures
        taken(calls.take(i)) < taken(calls.take(j)),
    decreases j - i,
{
    lemma_steady_prefix(bytes, calls, j - 1);
    if i < j - 1 {
        lemma_taken_rises(bytes, calls, i, j - 1);
    }
}

/// A drain cannot spin. Each of its calls offers the stream bytes, never
/// none, and fewer than the call before it offered, so that nothing is
/// offered twice and there are no more calls than the buffer held bytes. A
/// call of which the stream takes nothing is the last one, and the drain
/// then fails with an error of kind `WriteZero`.
pub proof fn lemma_drain_never_repeats(pre: WriterModel, post: WriterModel, r: Result<(), Error>)
    requires
        pre.present,
        pre.drain_step(post, r),
    ensures
        ({
            let fresh = pre.fresh(post);
            &&& fresh.len() <= pre.buffer.len()
            &&& forall|i: int|
                0 <= i < fresh.len() ==> (#[trigger] fresh[i]) is Write && offered_len(fresh[i])
                    > 0
            &&& forall|i: int, j: int|
                0 <= i < j < fresh.len() ==> offered_len(#[trigger] fresh[j]) < offered_len(
                    #[trigger] fresh[i],
                )
            &&& forall|i: int|
                0 <= i < fresh.len() && (#[trigger] fresh[i] matches WriteCall::Write {
                    outcome: Ok(n),
                    ..
                } && n == 0) ==> i == fresh.len() - 1 && (r matches Err(e) && e@ == Repr::Simple(
                    ErrorKind::WriteZero,
                ))
        }),
{
    let fresh = pre.fresh(post);
    let bytes = pre.buffer;
    // The calls that went well: all of them, or all but the last.
    let well = if r is Ok {
        fresh
    } else {
        fresh.drop_last()
    };
    assert(steady(bytes, well));
    lemma_steady_takes_the_front(bytes, well);
    assert forall|i: int| 0 <= i < fresh.len() implies offered_len(#[trigger] fresh[i])
        == bytes.len() - taken(well.take(i)) && fresh[i] is Write && offered_len(fresh[i]) > 0 && (
    fresh[i] matches WriteCall::Write { outcome: Ok(n), .. } && n == 0 ==> i == fresh.len() - 1 && (
    r matches Err(e) && e@ == Repr::Simple(ErrorKind::WriteZero))) by {
        if i < well.len() {
            lemma_steady_prefix(bytes, well, i);
            assert(well[i] == fresh[i]);
        } else {
            assert(well.take(i) =~= well);
        }
    }
    assert forall|i: int, j: int| 0 <= i < j < fresh.len() implies offered_len(
        #[trigger] fresh[j],
    ) < offered_len(#[trigger] fresh[i]) by {
        assert(j <= well.len());
        lemma_taken_rises(bytes, well, i, j);
    }
}

/// What a `read` handed to its caller, going by what it returned and what
/// the destination held afterwards.
pub open spec fn handed_out(after: Seq<u8>, r: Result<usize, Error>) -> Seq<u8> {
    match r {
        Ok(n) => after.take(n as int),
        Err(_) => Seq::<u8>::empty(),
    }
}

/// The bytes that a call got from the stream.
pub open spec fn given(call: ReadCall) -> Seq<u8> {
    match call.outcome {
        Ok(bytes) => bytes,
        Err(_) => Seq::<u8>::empty(),
    }
}

/// The stream filled the whole destination of the call.
pub open spec fn filled(call: ReadCall) -> bool {
    call.outcome matches Ok(bytes) && bytes.len() == call.asked
}

/// The bypass is one call and nothing else. A `read` into a destination at
/// least as long as the buffer, made while the buffer holds nothing to hand
/// out, makes exactly one call to the stream, with that destination; what
/// the stream returns is what the `read` returns, and the buffer and its
/// marks stay as they were.
pub proof fn lemma_bypass_is_one_call(
    pre: ReaderModel,
    before: Seq<u8>,
    post: ReaderModel,
    after: Seq<u8>,
    r: Result<usize, Error>,
)
    requires
        pre.wf(),
        pre.pos == pre.cap,
        before.len() >= DEFAULT_BUFF_SIZE,
        pre.read_step(before, post, after, r),
    ensures
        post.calls == pre.calls.push(ReadCall::of(before.len(), r, after)),
        post.calls.last().asked == before.len(),
        given(post.calls.last()) == handed_out(after, r),
        post.storage == pre.storage,
        post.pos == pre.pos,
        post.cap == pre.cap,
{
}

/// A `read` neither loses bytes nor makes any up, and keeps their order.
/// What was waiting in the buffer, followed by what the stream gave in the
/// one call that the `read` may have made, is what the caller was handed
/// followed by what waits in the buffer now.
pub proof fn lemma_read_keeps_order(
    pre: ReaderModel,
    before: Seq<u8>,
    post: ReaderModel,
    after: Seq<u8>,
    r: Result<usize, Error>,
)
    requires
        pre.wf(),
        pre.read_step(before, post, after, r),
    ensures
        post.wf(),
        post.calls == pre.calls || post.calls.drop_last() == pre.calls,
        post.calls == pre.calls ==> pre.window() == handed_out(after, r) + post.window(),
        post.calls != pre.calls ==> pre.window() + given(post.calls.last()) == handed_out(
            after,
            r,
        ) + post.window(),
{
    let asked = before.len();
    if pre.pos < pre.cap {
        assert(pre.window() =~= handed_out(after, r) + post.window());
    } else if asked >= DEFAULT_BUFF_SIZE {
        assert(post.calls.drop_last() =~= pre.calls);
        assert(pre.window() + given(post.calls.last()) =~= handed_out(after, r) + post.window());
    } else {
        match post.calls.last().outcome {
            Err(e) => {
                assert(pre.window() + given(post.calls.last()) =~= handed_out(after, r)
                    + post.window());
            },
            Ok(bytes) => {
                assert(bytes =~= handed_out(after, r) + post.window());
                assert(pre.window() + given(post.calls.last()) =~= handed_out(after, r)
                    + post.window());
            },
        }
    }
}

/// A run of `read` calls on one reader: `states` holds the reader before the
/// first call and after each, `befores` and `afters` what the destination of
/// each call held before and after it, and `results` what each returned.
pub open spec fn read_run(
    states: Seq<ReaderModel>,
    befores: Seq<Seq<u8>>,
    afters: Seq<Seq<u8>>,
    results: Seq<Result<usize, Error>>,
) -> bool {
    &&& states.len() == results.len() + 1
    &&& befores.len() == results.len()
    &&& afters.len() == results.len()
    &&& states[0].wf()
    &&& forall|i: int|
        0 <= i < results.len() ==> states[i].read_step(
            befores[i],
            states[i + 1],
            afters[i],
            #[trigger] results[i],
        )
}

/// Where the call numbered `i` of a run reached the stream, the stream
/// filled the destination it was given.
pub open spec fn step_filled(states: Seq<ReaderModel>, i: int) -> bool {
    states[i + 1].calls.len() > states[i].calls.len() ==> filled(states[i + 1].calls.last())
}

/// `a` divided by `b`, rounded up.
pub open spec fn ceil_div(a: nat, b: nat) -> nat
    recommends
        b > 0,
{
    ((a + b - 1) / (b as int)) as nat
}

proof fn lemma_amortized_upto(
    states: Seq<ReaderModel>,
    befores: Seq<Seq<u8>>,
    afters: Seq<Seq<u8>>,
    results: Seq<Result<usize, Error>>,
    k: nat,
    upto: int,
)
    requires
        read_run(states, befores, afters, results),
        0 < k < DEFAULT_BUFF_SIZE,
        forall|i: int| 0 <= i < befores.len() ==> (#[trigger] befores[i]).len() == k,
        forall|i: int| 0 <= i < results.len() ==> #[trigger] step_filled(states, i),
        0 <= upto <= results.len(),
    ensures
        states[upto].wf(),
        states[0].calls.len() <= states[upto].calls.len(),
        (states[upto].calls.len() - states[0].calls.len()) * DEFAULT_BUFF_SIZE <= upto * k + (
        states[upto].cap - states[upto].pos),
        states[upto].calls.len() > states[0].calls.len() ==> states[upto].cap - states[upto].pos
            < DEFAULT_BUFF_SIZE,
    decreases upto,
{
    if upto > 0 {
        lemma_amortized_upto(states, befores, afters, results, k, upto - 1);
        let pre = states[upto - 1];
        let post = states[upto];
        let r = results[upto - 1];
        assert(pre.read_step(befores[upto - 1], post, afters[upto - 1], r));
        assert(befores[upto - 1].len() == k);
        assert(step_filled(states, upto - 1));
        assert(upto * k == (upto - 1) * k + k) by (nonlinear_arith);
    }
}

/// Small reads are paid for a buffer at a time. Over a run of reads, each
/// into a destination of `k` bytes, with `k` at least one and less than the
/// capacity, and with a stream that fills every destination it is given, the
/// calls made to the stream number at most the bytes asked for divided by
/// the capacity, rounded up.
pub proof fn lemma_reads_are_amortized(
    states: Seq<ReaderModel>,
    befores: Seq<Seq<u8>>,
    afters: Seq<Seq<u8>>,
    results: Seq<Result<usize, Error>>,
    k: nat,
)
    requires
        read_run(states, befores, afters, results),
        0 < k < DEFAULT_BUFF_SIZE,
        forall|i: int| 0 <= i < befores.len() ==> (#[trigger] befores[i]).len() == k,
        forall|i: int| 0 <= i < results.len() ==> #[trigger] step_filled(states, i),
    ensures
        states[0].calls.len() <= states.last().calls.len(),
        states.last().calls.len() - states[0].calls.len() <= ceil_div(
            results.len() * k,
            DEFAULT_BUFF_SIZE as nat,
        ),
{
    let n = results.len();
    lemma_amortized_upto(states, befores, afters, results, k, n as int);
    let total = n * k;
    assert(total >= 0) by (nonlinear_arith)
        requires
            total == n * k,
    ;
}

/// The buffer never outgrows the threshold: no `write`, `flush`, drain or
/// `close` takes a writer whose buffer is within its threshold to one whose
/// buffer is not.
pub proof fn lemma_writer_stays_within_threshold(
    pre: WriterModel,
    data: Seq<u8>,
    post: WriterModel,
    r: Result<usize, Error>,
    done: Result<(), Error>,
)
    requires
        pre.wf(),
        pre.write_step(data, post, r) || pre.flush_step(post, r) || pre.drain_step(post, done)
            || pre.close_step(post, done),
    ensures
        post.wf(),
        post.threshold == pre.threshold,
{
}

} // verus!
