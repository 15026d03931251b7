use inout::{BufWriter, Error, ErrorKind, Write, DEFAULT_BUFF_SIZE};

/// What the sink does with the next `write` it is offered.
enum Step {
    /// Takes at most this many bytes.
    Take(usize),
    /// Fails with this platform code.
    Fail(i32),
}

/// A stream that keeps what it takes and notes what it was offered.
struct Sink {
    taken: Vec<u8>,
    offers: Vec<Vec<u8>>,
    flushes: usize,
    script: Vec<Step>,
    flush_fails: bool,
}

impl Sink {
    fn new() -> Sink {
        Sink { taken: Vec::new(), offers: Vec::new(), flushes: 0, script: Vec::new(), flush_fails: false }
    }

    fn scripted(script: Vec<Step>) -> Sink {
        let mut sink = Sink::new();
        sink.script = script;
        sink
    }
}

impl Write for Sink {
    fn write(&mut self, buf: &[u8]) -> Result<usize, Error> {
        self.offers.push(buf.to_vec());
        let step = if self.script.is_empty() { Step::Take(usize::MAX) } else { self.script.remove(0) };
        match step {
            Step::Take(most) => {
                let n = std::cmp::min(most, buf.len());
                self.taken.extend_from_slice(&buf[..n]);
                Ok(n)
            }
            Step::Fail(code) => Err(Error::from_raw_os_error(code)),
        }
    }

    fn flush(&mut self) -> Result<usize, Error> {
        self.flushes += 1;
        if self.flush_fails {
            Err(Error::from(ErrorKind::Interrupted))
        } else {
            Ok(7)
        }
    }
}

fn sink_of(writer: &BufWriter<Sink>) -> &Sink {
    writer.get_ref().unwrap()
}

#[test]
fn threshold_eight_with_two_writes_of_five() {
    let mut writer = BufWriter::with_capacity(8, Sink::new());
    assert_eq!(writer.write(&[1, 2, 3, 4, 5]).unwrap(), 5);
    assert_eq!(sink_of(&writer).taken.len(), 0);
    assert!(sink_of(&writer).offers.is_empty());
    assert_eq!(writer.write(&[6, 7, 8, 9, 10]).unwrap(), 5);
    assert_eq!(sink_of(&writer).taken, vec![1, 2, 3, 4, 5]);
    assert_eq!(writer.buffer(), &[6, 7, 8, 9, 10]);
}

#[test]
fn a_new_writer_has_the_default_threshold_and_holds_nothing() {
    let writer = BufWriter::new(Sink::new());
    assert_eq!(writer.capacity(), 8192);
    assert_eq!(writer.capacity(), DEFAULT_BUFF_SIZE);
    assert!(writer.buffer().is_empty());
    assert!(sink_of(&writer).offers.is_empty());
}

#[test]
fn writes_within_the_threshold_do_not_reach_the_stream() {
    let mut writer = BufWriter::with_capacity(16, Sink::new());
    let pieces: [&[u8]; 5] = [&[1, 2, 3], &[], &[4, 5, 6, 7], &[8], &[9, 10, 11, 12, 13, 14, 15, 16]];
    let mut all = Vec::new();
    for piece in pieces {
        assert_eq!(writer.write(piece).unwrap(), piece.len());
        all.extend_from_slice(piece);
        assert!(sink_of(&writer).offers.is_empty());
        assert_eq!(sink_of(&writer).flushes, 0);
        assert_eq!(writer.buffer(), &all[..]);
    }
    assert_eq!(writer.buffer().len(), 16);
    assert_eq!(writer.flush().unwrap(), 7);
    assert_eq!(sink_of(&writer).taken, all);
    assert!(writer.buffer().is_empty());
}

#[test]
fn a_write_that_fills_the_threshold_exactly_is_held() {
    let mut writer = BufWriter::with_capacity(4, Sink::new());
    assert_eq!(writer.write(&[1, 2, 3, 4]).unwrap(), 4);
    assert!(sink_of(&writer).offers.is_empty());
    assert_eq!(writer.buffer(), &[1, 2, 3, 4]);
}

#[test]
fn one_byte_over_the_threshold_drains_first() {
    let mut writer = BufWriter::with_capacity(4, Sink::new());
    writer.write(&[1, 2, 3]).unwrap();
    assert_eq!(writer.write(&[4, 5]).unwrap(), 2);
    assert_eq!(sink_of(&writer).offers, vec![vec![1, 2, 3]]);
    assert_eq!(writer.buffer(), &[4, 5]);
}

#[test]
fn a_write_as_long_as_the_threshold_goes_past_the_buffer() {
    let mut writer = BufWriter::with_capacity(4, Sink::new());
    writer.write(&[1]).unwrap();
    assert_eq!(writer.write(&[2, 3, 4, 5]).unwrap(), 4);
    assert_eq!(sink_of(&writer).offers, vec![vec![1], vec![2, 3, 4, 5]]);
    assert!(writer.buffer().is_empty());
    assert_eq!(writer.write(&[6, 7, 8, 9, 10, 11]).unwrap(), 6);
    assert_eq!(sink_of(&writer).offers.len(), 3);
    assert_eq!(sink_of(&writer).taken, vec![1, 2, 3, 4, 5, 6, 7, 8, 9, 10, 11]);
}

#[test]
fn a_write_past_the_buffer_returns_what_the_stream_returned() {
    let mut writer = BufWriter::with_capacity(4, Sink::scripted(vec![Step::Take(3)]));
    assert_eq!(writer.write(&[1, 2, 3, 4, 5, 6]).unwrap(), 3);
    assert_eq!(sink_of(&writer).taken, vec![1, 2, 3]);
    assert!(writer.buffer().is_empty());
    let mut writer = BufWriter::with_capacity(4, Sink::scripted(vec![Step::Fail(libc::EPIPE)]));
    let e = writer.write(&[1, 2, 3, 4, 5, 6]).unwrap_err();
    assert_eq!(e.raw_os_error(), Some(libc::EPIPE));
    assert!(writer.buffer().is_empty());
    let mut writer = BufWriter::with_capacity(4, Sink::scripted(vec![Step::Take(0)]));
    assert_eq!(writer.write(&[1, 2, 3, 4, 5, 6]).unwrap(), 0);
}

#[test]
fn a_threshold_of_nothing_passes_every_write_on() {
    let mut writer = BufWriter::with_capacity(0, Sink::new());
    assert_eq!(writer.write(&[]).unwrap(), 0);
    assert!(sink_of(&writer).offers.is_empty());
    assert_eq!(writer.write(&[1]).unwrap(), 1);
    assert_eq!(writer.write(&[2, 3]).unwrap(), 2);
    assert_eq!(sink_of(&writer).offers, vec![vec![1], vec![2, 3]]);
    assert!(writer.buffer().is_empty());
}

#[test]
fn what_the_stream_takes_is_what_was_written_in_order() {
    let script = vec![Step::Take(1), Step::Take(2), Step::Take(100), Step::Take(3), Step::Take(1)];
    let mut writer = BufWriter::with_capacity(8, Sink::scripted(script));
    let mut sent = Vec::new();
    let pieces: [&[u8]; 6] =
        [&[1, 2, 3, 4, 5], &[6, 7, 8, 9], &[10], &[11, 12, 13, 14, 15, 16, 17, 18, 19], &[], &[20, 21]];
    for piece in pieces {
        let n = writer.write(piece).unwrap();
        sent.extend_from_slice(&piece[..n]);
        let mut carried = sink_of(&writer).taken.clone();
        carried.extend_from_slice(writer.buffer());
        assert_eq!(carried, sent);
    }
    writer.flush().unwrap();
    assert_eq!(sink_of(&writer).taken, sent);
    let mut offered_and_taken = Vec::new();
    for offer in &sink_of(&writer).offers {
        assert!(!offer.is_empty());
        offered_and_taken.push(offer.len());
    }
    assert!(writer.buffer().is_empty());
}

#[test]
fn a_drain_offers_what_is_left_until_all_is_taken() {
    let script = vec![Step::Take(2), Step::Take(1), Step::Take(10)];
    let mut writer = BufWriter::with_capacity(8, Sink::scripted(script));
    writer.write(&[1, 2, 3, 4, 5, 6]).unwrap();
    writer.flush_buf().unwrap();
    assert_eq!(
        sink_of(&writer).offers,
        vec![vec![1, 2, 3, 4, 5, 6], vec![3, 4, 5, 6], vec![4, 5, 6]]
    );
    assert_eq!(sink_of(&writer).taken, vec![1, 2, 3, 4, 5, 6]);
    assert_eq!(sink_of(&writer).flushes, 0);
    assert!(writer.buffer().is_empty());
}

#[test]
fn a_drain_of_an_empty_buffer_makes_no_call() {
    let mut writer = BufWriter::new(Sink::new());
    writer.flush_buf().unwrap();
    assert!(sink_of(&writer).offers.is_empty());
    assert_eq!(sink_of(&writer).flushes, 0);
}

#[test]
fn a_stream_that_takes_nothing_ends_the_drain() {
    let mut writer = BufWriter::with_capacity(8, Sink::scripted(vec![Step::Take(0)]));
    writer.write(&[1, 2, 3]).unwrap();
    let e = writer.flush_buf().unwrap_err();
    assert_eq!(e.kind(), ErrorKind::WriteZero);
    assert_eq!(e.raw_os_error(), None);
    assert_eq!(e.to_string(), "WriteZero");
    assert_eq!(sink_of(&writer).offers, vec![vec![1, 2, 3]]);
    assert_eq!(writer.buffer(), &[1, 2, 3]);
}

#[test]
fn a_stream_that_stops_taking_midway_ends_the_drain_with_the_rest_kept() {
    let script = vec![Step::Take(2), Step::Take(0), Step::Take(100)];
    let mut writer = BufWriter::with_capacity(8, Sink::scripted(script));
    writer.write(&[1, 2, 3, 4, 5]).unwrap();
    let e = writer.flush().unwrap_err();
    assert_eq!(e.kind(), ErrorKind::WriteZero);
    assert_eq!(sink_of(&writer).offers, vec![vec![1, 2, 3, 4, 5], vec![3, 4, 5]]);
    assert_eq!(sink_of(&writer).flushes, 0);
    assert_eq!(writer.buffer(), &[3, 4, 5]);
    assert_eq!(writer.flush().unwrap(), 7);
    assert_eq!(sink_of(&writer).taken, vec![1, 2, 3, 4, 5]);
    assert_eq!(sink_of(&writer).offers.len(), 3);
}

#[test]
fn a_stream_that_fails_ends_the_drain_with_its_own_error() {
    let script = vec![Step::Take(1), Step::Fail(libc::ECONNRESET)];
    let mut writer = BufWriter::with_capacity(4, Sink::scripted(script));
    writer.write(&[1, 2, 3]).unwrap();
    let e = writer.write(&[4, 5]).unwrap_err();
    assert_eq!(e.raw_os_error(), Some(libc::ECONNRESET));
    assert_eq!(e.kind(), ErrorKind::ConnectionReset);
    assert_eq!(sink_of(&writer).taken, vec![1]);
    assert_eq!(writer.buffer(), &[2, 3]);
    assert_eq!(writer.write(&[4, 5]).unwrap(), 2);
    assert_eq!(writer.buffer(), &[2, 3, 4, 5]);
    writer.flush().unwrap();
    assert_eq!(sink_of(&writer).taken, vec![1, 2, 3, 4, 5]);
}

#[test]
fn flush_drains_and_then_has_the_stream_flush() {
    let mut writer = BufWriter::new(Sink::new());
    writer.write(&[1, 2, 3]).unwrap();
    assert_eq!(writer.flush().unwrap(), 7);
    assert_eq!(sink_of(&writer).offers, vec![vec![1, 2, 3]]);
    assert_eq!(sink_of(&writer).flushes, 1);
    assert!(writer.buffer().is_empty());
}

#[test]
fn flush_returns_the_error_of_the_stream() {
    let mut sink = Sink::new();
    sink.flush_fails = true;
    let mut writer = BufWriter::new(sink);
    writer.write(&[1, 2, 3]).unwrap();
    let e = writer.flush().unwrap_err();
    assert_eq!(e.kind(), ErrorKind::Interrupted);
    assert_eq!(sink_of(&writer).taken, vec![1, 2, 3]);
    assert!(writer.buffer().is_empty());
}

#[test]
fn a_second_flush_offers_the_stream_nothing() {
    let mut writer = BufWriter::with_capacity(8, Sink::new());
    writer.write(&[1, 2, 3]).unwrap();
    writer.flush().unwrap();
    assert_eq!(sink_of(&writer).offers.len(), 1);
    assert_eq!(sink_of(&writer).flushes, 1);
    writer.flush().unwrap();
    assert_eq!(sink_of(&writer).offers.len(), 1);
    assert_eq!(sink_of(&writer).taken, vec![1, 2, 3]);
    assert_eq!(sink_of(&writer).flushes, 2);
}

#[test]
fn close_drains_and_gives_the_stream_back() {
    let mut writer = BufWriter::with_capacity(8, Sink::new());
    writer.write(&[1, 2, 3]).unwrap();
    let sink = writer.close().unwrap();
    assert_eq!(sink.taken, vec![1, 2, 3]);
    assert_eq!(sink.flushes, 0);
    assert!(writer.get_ref().is_none());
    assert!(writer.buffer().is_empty());
}

#[test]
fn a_closed_writer_refuses_every_call() {
    let mut writer = BufWriter::with_capacity(8, Sink::new());
    writer.close().unwrap();
    let e = writer.write(&[1]).unwrap_err();
    assert_eq!(e.kind(), ErrorKind::NotConnected);
    assert_eq!(e.raw_os_error(), None);
    assert_eq!(writer.write(&[]).unwrap_err().kind(), ErrorKind::NotConnected);
    assert_eq!(writer.write(&[0; 100]).unwrap_err().kind(), ErrorKind::NotConnected);
    assert_eq!(writer.flush().unwrap_err().kind(), ErrorKind::NotConnected);
    assert_eq!(writer.flush_buf().unwrap_err().kind(), ErrorKind::NotConnected);
    assert_eq!(writer.close().err().unwrap().kind(), ErrorKind::NotConnected);
    assert!(writer.buffer().is_empty());
}

#[test]
fn a_close_whose_drain_fails_keeps_the_stream() {
    let script = vec![Step::Take(1), Step::Fail(libc::EPIPE)];
    let mut writer = BufWriter::with_capacity(8, Sink::scripted(script));
    writer.write(&[1, 2, 3]).unwrap();
    let e = writer.close().err().unwrap();
    assert_eq!(e.kind(), ErrorKind::BrokenPipe);
    assert!(writer.get_ref().is_some());
    assert_eq!(writer.buffer(), &[2, 3]);
    let sink = writer.close().unwrap();
    assert_eq!(sink.taken, vec![1, 2, 3]);
}

#[test]
fn a_writer_can_stand_under_another() {
    let lower = BufWriter::with_capacity(4, Sink::new());
    let mut upper = BufWriter::with_capacity(2, lower);
    upper.write(&[1]).unwrap();
    upper.write(&[2, 3]).unwrap();
    assert_eq!(upper.buffer(), &[] as &[u8]);
    assert_eq!(upper.get_ref().unwrap().buffer(), &[1, 2, 3]);
    upper.write(&[4]).unwrap();
    upper.flush().unwrap();
    let lower = upper.get_ref().unwrap();
    assert!(lower.buffer().is_empty());
    assert_eq!(lower.get_ref().unwrap().taken, vec![1, 2, 3, 4]);
    assert_eq!(lower.get_ref().unwrap().flushes, 1);
}
