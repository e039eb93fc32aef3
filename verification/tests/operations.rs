use either::Either;
use sink_adapters::close::Close;
use sink_adapters::err_into::SinkErrInto;
use sink_adapters::flush::Flush;
use sink_adapters::future::Future;
use sink_adapters::map_err::SinkMapErr;
use sink_adapters::recorder::Recorder;
use sink_adapters::send::Send;
use sink_adapters::send_all::SendAll;
use sink_adapters::sink::{Sink, StartSend};
use sink_adapters::step::FnStep;
use sink_adapters::stream::{Iter, Stream};
use sink_adapters::{SinkExt, StreamExt};
use std::collections::VecDeque;
use std::task::{Context, Poll, Waker};

/// A sink that follows a script: how many items it takes before it pushes
/// back, how often a flush or a close has to wait, and which item it fails on.
#[derive(Default)]
struct Scripted {
    taken: Vec<u32>,
    room: usize,
    flush_waits: usize,
    close_waits: usize,
    fail_on: Option<usize>,
    fail_flush: bool,
    log: Vec<&'static str>,
}

impl Scripted {
    fn with_room(room: usize) -> Scripted {
        Scripted { room, ..Scripted::default() }
    }
}

#[derive(Debug, PartialEq, Eq)]
struct Narrow(u32);

#[derive(Debug, PartialEq, Eq)]
struct Wide(String);

impl From<Narrow> for Wide {
    fn from(e: Narrow) -> Wide {
        Wide(format!("narrow {}", e.0))
    }
}

impl Sink for Scripted {
    type Item = u32;
    type Error = Narrow;

    fn start_send(&mut self, _cx: &mut Context<'_>, item: u32) -> Result<StartSend<u32>, Narrow> {
        if self.fail_on == Some(self.taken.len() + 1) {
            return Err(Narrow(item));
        }
        if self.room == 0 {
            self.log.push("rejected");
            return Ok(StartSend::Rejected(item));
        }
        self.room -= 1;
        self.taken.push(item);
        self.log.push("accepted");
        Ok(StartSend::Accepted)
    }

    fn poll_flush(&mut self, _cx: &mut Context<'_>) -> Poll<Result<(), Narrow>> {
        if self.fail_flush {
            return Poll::Ready(Err(Narrow(0)));
        }
        if self.flush_waits > 0 {
            self.flush_waits -= 1;
            self.log.push("flush waits");
            return Poll::Pending;
        }
        self.log.push("flushed");
        Poll::Ready(Ok(()))
    }

    fn poll_close(&mut self, _cx: &mut Context<'_>) -> Poll<Result<(), Narrow>> {
        if self.close_waits > 0 {
            self.close_waits -= 1;
            self.log.push("close waits");
            return Poll::Pending;
        }
        self.log.push("closed");
        Poll::Ready(Ok(()))
    }
}

/// A stream that waits once before each of its items.
struct Halting {
    items: VecDeque<u32>,
    waited: bool,
}

impl Stream for Halting {
    type Item = u32;

    fn poll_next(&mut self, _cx: &mut Context<'_>) -> Poll<Option<u32>> {
        if !self.waited {
            self.waited = true;
            return Poll::Pending;
        }
        self.waited = false;
        Poll::Ready(self.items.pop_front())
    }
}

fn done<E>() -> Poll<Result<(), E>> {
    Poll::Ready(Ok(()))
}

#[test]
fn send_all_drains_the_stream_flushes_and_leaves_the_sink_open() {
    let waker = Waker::noop();
    let mut cx = Context::from_waker(&waker);
    let mut rec: Recorder<u32> = Recorder::new();
    let mut source = Iter::new(VecDeque::from(vec![1, 2, 3]));
    let mut op = rec.send_all(&mut source);
    assert_eq!(op.poll(&mut cx), done());
    assert_eq!(rec.items(), &vec![1, 2, 3]);
    assert!(!rec.is_closed());
}

#[test]
fn forward_is_send_all_from_the_side_of_the_stream() {
    let waker = Waker::noop();
    let mut cx = Context::from_waker(&waker);
    let mut one = Scripted::with_room(2);
    let mut other = Scripted::with_room(2);
    one.flush_waits = 1;
    other.flush_waits = 1;
    let mut source = Iter::new(VecDeque::from(vec![1, 2, 3]));
    let mut mirror = Iter::new(VecDeque::from(vec![1, 2, 3]));
    {
        let mut op = one.send_all(&mut source);
        let mut twin = mirror.forward(&mut other);
        for _ in 0..2 {
            assert_eq!(op.poll(&mut cx), Poll::Pending);
            assert_eq!(twin.poll(&mut cx), Poll::Pending);
        }
    }
    assert_eq!(one.log, vec!["accepted", "accepted", "rejected", "rejected"]);
    assert_eq!(one.log, other.log);
    {
        let mut op = one.send_all(&mut source);
        let mut twin = mirror.forward(&mut other);
        assert_eq!(op.poll(&mut cx), Poll::Pending);
        assert_eq!(twin.poll(&mut cx), Poll::Pending);
        assert_eq!(op.poll(&mut cx), done());
        assert_eq!(twin.poll(&mut cx), done());
    }
    assert_eq!(one.taken, vec![1, 2]);
    assert_eq!(one.taken, other.taken);
    assert_eq!(one.log, other.log);
    assert_eq!(
        one.log,
        vec!["accepted", "accepted", "rejected", "rejected", "flush waits", "flushed"]
    );
}

#[test]
fn send_all_records_then_flushes_once() {
    let waker = Waker::noop();
    let mut cx = Context::from_waker(&waker);
    let mut sink = Scripted::with_room(10);
    let mut source = Iter::new(VecDeque::from(vec![1, 2, 3]));
    let mut op = SendAll::new(&mut sink, &mut source);
    assert_eq!(op.poll(&mut cx), done());
    assert_eq!(sink.taken, vec![1, 2, 3]);
    assert_eq!(sink.log, vec!["accepted", "accepted", "accepted", "flushed"]);
}

#[test]
fn send_all_holds_the_item_that_was_turned_away() {
    let waker = Waker::noop();
    let mut cx = Context::from_waker(&waker);
    let mut sink = Scripted::with_room(1);
    let mut source = Iter::new(VecDeque::from(vec![4, 5, 6]));
    {
        let mut op = SendAll::new(&mut sink, &mut source);
        assert_eq!(op.poll(&mut cx), Poll::Pending);
        assert_eq!(op.poll(&mut cx), Poll::Pending);
    }
    assert_eq!(sink.taken, vec![4]);
    assert_eq!(sink.log, vec!["accepted", "rejected", "rejected"]);
    assert_eq!(source.poll_next(&mut cx), Poll::Ready(Some(6)));
}

#[test]
fn send_all_goes_on_where_it_stopped() {
    let waker = Waker::noop();
    let mut cx = Context::from_waker(&waker);
    let mut sink = Scripted::with_room(2);
    sink.flush_waits = 1;
    let mut source = Halting { items: VecDeque::from(vec![7, 8]), waited: false };
    let mut op = SendAll::new(&mut sink, &mut source);
    assert_eq!(op.poll(&mut cx), Poll::Pending);
    assert_eq!(op.poll(&mut cx), Poll::Pending);
    assert_eq!(op.poll(&mut cx), Poll::Pending);
    assert_eq!(op.poll(&mut cx), done());
    assert_eq!(sink.taken, vec![7, 8]);
    assert_eq!(
        sink.log,
        vec!["flush waits", "accepted", "flushed", "accepted", "flushed", "flushed"]
    );
}

#[test]
fn send_all_of_an_empty_stream_only_flushes() {
    let waker = Waker::noop();
    let mut cx = Context::from_waker(&waker);
    let mut sink = Scripted::with_room(0);
    let mut source = Iter::new(VecDeque::new());
    let mut op = sink.send_all(&mut source);
    assert_eq!(op.poll(&mut cx), done());
    assert_eq!(sink.taken, Vec::<u32>::new());
    assert_eq!(sink.log, vec!["flushed"]);
}

#[test]
fn send_all_stops_at_the_error_of_the_sink() {
    let waker = Waker::noop();
    let mut cx = Context::from_waker(&waker);
    let mut sink = Scripted::with_room(10);
    sink.fail_on = Some(3);
    let mut source = Iter::new(VecDeque::from(vec![1, 2, 3, 4]));
    {
        let mut op = SendAll::new(&mut sink, &mut source);
        assert_eq!(op.poll(&mut cx), Poll::Ready(Err(Narrow(3))));
    }
    assert_eq!(sink.taken, vec![1, 2]);
    assert_eq!(source.poll_next(&mut cx), Poll::Ready(Some(4)));
}

#[test]
fn send_offers_until_taken_and_then_flushes() {
    let waker = Waker::noop();
    let mut cx = Context::from_waker(&waker);
    let mut sink = Scripted::with_room(0);
    sink.flush_waits = 1;
    {
        let mut op = Send::new(&mut sink, 11);
        assert_eq!(op.poll(&mut cx), Poll::Pending);
    }
    sink.room = 1;
    {
        let mut op = sink.send(11);
        assert_eq!(op.poll(&mut cx), Poll::Pending);
        assert_eq!(op.poll(&mut cx), done());
    }
    assert_eq!(sink.taken, vec![11]);
    assert_eq!(sink.log, vec!["rejected", "accepted", "flush waits", "flushed"]);
}

#[test]
fn send_into_a_recorder_is_done_at_once() {
    let waker = Waker::noop();
    let mut cx = Context::from_waker(&waker);
    let mut rec: Recorder<&str> = Recorder::new();
    assert_eq!(rec.send("a").poll(&mut cx), done());
    assert_eq!(rec.send("b").poll(&mut cx), done());
    assert_eq!(rec.items(), &vec!["a", "b"]);
    assert!(!rec.is_closed());
}

#[test]
fn flush_and_close_drive_the_sink_to_the_end() {
    let waker = Waker::noop();
    let mut cx = Context::from_waker(&waker);
    let mut sink = Scripted::with_room(0);
    sink.flush_waits = 2;
    sink.close_waits = 1;
    {
        let mut op = Flush::new(&mut sink);
        assert_eq!(op.poll(&mut cx), Poll::Pending);
        assert_eq!(op.poll(&mut cx), Poll::Pending);
        assert_eq!(op.poll(&mut cx), done());
    }
    {
        let mut op = Close::new(&mut sink);
        assert_eq!(op.poll(&mut cx), Poll::Pending);
        assert_eq!(op.poll(&mut cx), done());
    }
    assert_eq!(sink.log, vec!["flush waits", "flush waits", "flushed", "close waits", "closed"]);
    let mut rec: Recorder<u8> = Recorder::new();
    assert_eq!(rec.flush().poll(&mut cx), done());
    assert!(!rec.is_closed());
    assert_eq!(rec.close().poll(&mut cx), done());
    assert!(rec.is_closed());
}

#[test]
fn flush_reports_the_error_of_the_sink() {
    let waker = Waker::noop();
    let mut cx = Context::from_waker(&waker);
    let mut sink = Scripted::with_room(0);
    sink.fail_flush = true;
    assert_eq!(sink.flush().poll(&mut cx), Poll::Ready(Err(Narrow(0))));
    assert_eq!(sink.log, Vec::<&str>::new());
}

#[test]
fn sink_err_into_widens_the_error() {
    let waker = Waker::noop();
    let mut cx = Context::from_waker(&waker);
    let mut inner = Scripted::with_room(10);
    inner.fail_on = Some(2);
    let mut sink: SinkErrInto<Scripted, Wide> = inner.sink_err_into();
    assert_eq!(sink.start_send(&mut cx, 1), Ok(StartSend::Accepted));
    assert_eq!(sink.start_send(&mut cx, 9), Err(Wide("narrow 9".to_string())));
    assert_eq!(sink.get_ref().taken, vec![1]);
    let mut inner = Scripted::with_room(0);
    inner.fail_flush = true;
    let mut sink: SinkErrInto<Scripted, Wide> = SinkErrInto::new(inner);
    assert_eq!(sink.start_send(&mut cx, 1), Ok(StartSend::Rejected(1)));
    assert_eq!(sink.poll_flush(&mut cx), Poll::Ready(Err(Wide("narrow 0".to_string()))));
    assert_eq!(sink.poll_close(&mut cx), Poll::Pending);
    assert_eq!(sink.start_send(&mut cx, 1), Ok(StartSend::Rejected(1)));
    assert_eq!(sink.into_inner().log, vec!["rejected"]);
}

#[test]
fn sink_map_err_passes_the_error_through_the_function() {
    let waker = Waker::noop();
    let mut cx = Context::from_waker(&waker);
    let mut inner = Scripted::with_room(10);
    inner.fail_on = Some(1);
    let mut sink = SinkMapErr::new(inner, FnStep::new(|e: Narrow| e.0 + 100));
    assert_eq!(sink.start_send(&mut cx, 5), Err(105));
    assert_eq!(sink.start_send(&mut cx, 5), Ok(StartSend::Rejected(5)));
    assert_eq!(sink.poll_flush(&mut cx), Poll::Pending);
    assert_eq!(sink.get_ref().log, Vec::<&str>::new());
    let mut sink = Scripted::with_room(1).sink_map_err(FnStep::new(|e: Narrow| e.0 + 100));
    assert_eq!(sink.start_send(&mut cx, 5), Ok(StartSend::Accepted));
    assert_eq!(sink.start_send(&mut cx, 6), Ok(StartSend::Rejected(6)));
    assert_eq!(sink.poll_flush(&mut cx), done());
    assert_eq!(sink.poll_close(&mut cx), done());
    assert_eq!(sink.get_ref().taken, vec![5]);
    assert_eq!(sink.into_inner().log, vec!["accepted", "rejected", "flushed", "closed"]);
}

#[test]
fn either_is_the_sink_it_holds() {
    let waker = Waker::noop();
    let mut cx = Context::from_waker(&waker);
    let mut left: Either<Recorder<u8>, sink_adapters::buffer::Buffer<Recorder<u8>>> =
        Recorder::new().left_sink();
    assert!(left.is_left());
    assert_eq!(left.start_send(&mut cx, 1), Ok(StartSend::Accepted));
    assert_eq!(left.poll_close(&mut cx), done());
    match left {
        Either::Left(rec) => {
            assert_eq!(rec.items(), &vec![1]);
            assert!(rec.is_closed());
        }
        Either::Right(_) => panic!("left became right"),
    }
    let mut right: Either<Recorder<u8>, sink_adapters::buffer::Buffer<Recorder<u8>>> =
        Recorder::new().buffer(1).right_sink();
    assert!(right.is_right());
    assert_eq!(right.start_send(&mut cx, 2), Ok(StartSend::Accepted));
    assert_eq!(right.poll_flush(&mut cx), done());
    match right {
        Either::Right(buf) => assert_eq!(buf.get_ref().items(), &vec![2]),
        Either::Left(_) => panic!("right became left"),
    }
}
